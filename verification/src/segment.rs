//! The segmenter: text is cut into paragraphs at newlines, and each paragraph
//! into sentences after every terminator. Nothing is repaired here; every
//! terminator met is taken to end a sentence.
use crate::text::chars_of;
use crate::text::is_terminator;
use crate::text::lemma_line_len;
use crate::text::line_len;
use crate::text::lines_of;
use crate::text::newline_free;
use crate::text::some_text;
use crate::text::terminator;
use crate::text::terminator_free;
use vstd::prelude::*;
use vstd::seq_lib::lemma_flatten_concat;

verus! {

/// The number of characters of `line` up to and including its first terminator; all
/// of them where there is none.
pub open spec fn sentence_len(line: Seq<char>) -> int
    decreases line.len(),
{
    if line.len() == 0 {
        0
    } else if is_terminator(line[0]) {
        1
    } else {
        1 + sentence_len(line.skip(1))
    }
}

/// The sentences of one line: each runs up to and including the next terminator,
/// the last one to the end of the line.
pub open spec fn sentences_of(line: Seq<char>) -> Seq<Seq<char>>
    decreases line.len(),
{
    if line.len() == 0 {
        Seq::empty()
    } else {
        let n = sentence_len(line);
        proof {
            lemma_sentence_len(line);
        }
        seq![line.take(n)] + sentences_of(line.skip(n))
    }
}

/// The map from a line to its sentences.
pub open spec fn sentences_fn() -> spec_fn(Seq<char>) -> Seq<Seq<char>> {
    |line: Seq<char>| sentences_of(line)
}

/// The paragraphs of a text: one for every line that is not empty, made of that
/// line's sentences.
pub open spec fn paragraphs_of(text: Seq<char>) -> Seq<Seq<Seq<char>>> {
    lines_of(text).filter(some_text()).map_values(sentences_fn())
}

/// The paragraphs of a text, taken line by line from the left.
spec fn paragraphs_walk(text: Seq<char>) -> Seq<Seq<Seq<char>>>
    decreases text.len(),
{
    let n = line_len(text);
    let first = if n == 0 {
        Seq::empty()
    } else {
        seq![sentences_of(text.take(n))]
    };
    proof {
        lemma_line_len(text);
    }
    if n >= text.len() {
        first
    } else {
        first + paragraphs_walk(text.skip(n + 1))
    }
}

/// A sentence as the segmenter makes it: it is not empty, holds no newline, and
/// holds no terminator before its last character.
pub open spec fn is_sentence(s: Seq<char>) -> bool {
    &&& s.len() > 0
    &&& newline_free(s)
    &&& terminator_free(s.drop_last())
}

/// A paragraph as the segmenter makes it: it is not empty, each member is a
/// sentence, and each but the last ends with a terminator.
pub open spec fn is_paragraph(p: Seq<Seq<char>>) -> bool {
    &&& p.len() > 0
    &&& forall|k: int| 0 <= k < p.len() ==> is_sentence(#[trigger] p[k])
    &&& forall|k: int| 0 <= k < p.len() - 1 ==> is_terminator((#[trigger] p[k]).last())
}

/// The test that keeps every character but the newline.
pub open spec fn not_newline() -> spec_fn(char) -> bool {
    |c: char| c != '\n'
}

/// The first sentence of a line that is not empty has at least one character, ends
/// at the first terminator or at the end of the line, and holds no terminator before
/// its last character.
pub proof fn lemma_sentence_len(line: Seq<char>)
    ensures
        0 <= sentence_len(line) <= line.len(),
        line.len() > 0 ==> sentence_len(line) >= 1,
        line.len() > 0 ==> terminator_free(line.take(sentence_len(line) - 1)),
        0 < sentence_len(line) < line.len() ==> is_terminator(line[sentence_len(line) - 1]),
    decreases line.len(),
{
    if line.len() == 0 {
    } else if is_terminator(line[0]) {
    } else {
        let rest = line.skip(1);
        lemma_sentence_len(rest);
        let n = sentence_len(line);
        assert forall|i: int| 0 <= i < n - 1 implies !is_terminator(
            #[trigger] line.take(n - 1)[i],
        ) by {
            if i > 0 {
                assert(rest.take(n - 2)[i - 1] == line[i]);
            }
        }
    }
}

/// A run without terminators belongs to the first sentence of whatever follows it.
pub proof fn lemma_sentence_len_after(head: Seq<char>, tail: Seq<char>)
    requires
        terminator_free(head),
    ensures
        sentence_len(head + tail) == head.len() + sentence_len(tail),
    decreases head.len(),
{
    if head.len() == 0 {
        assert(head + tail == tail);
    } else {
        let rest = head.skip(1);
        assert((head + tail)[0] == head[0]);
        assert((head + tail).skip(1) == rest + tail);
        assert forall|i: int| 0 <= i < rest.len() implies !is_terminator(#[trigger] rest[i]) by {
            assert(rest[i] == head[i + 1]);
        }
        lemma_sentence_len_after(rest, tail);
    }
}

/// A line has no sentence exactly when it is empty.
pub proof fn lemma_sentences_of_empty(line: Seq<char>)
    ensures
        sentences_of(line).len() == 0 <==> line.len() == 0,
{
}

/// A line without terminators is one sentence.
pub proof fn lemma_sentences_of_plain(line: Seq<char>)
    requires
        terminator_free(line),
        line.len() > 0,
    ensures
        sentences_of(line) == seq![line],
{
    lemma_sentence_len_after(line, Seq::empty());
    assert(line + Seq::<char>::empty() == line);
    assert(line.take(line.len() as int) == line);
    assert(line.skip(line.len() as int).len() == 0);
    assert(sentences_of(line.skip(line.len() as int)) == Seq::<Seq<char>>::empty());
    assert(seq![line] + Seq::<Seq<char>>::empty() == seq![line]);
}

/// A run without terminators, closed by a terminator, is the first sentence of the
/// line that it begins.
pub proof fn lemma_sentences_of_closed(head: Seq<char>, c: char, tail: Seq<char>)
    requires
        terminator_free(head),
        is_terminator(c),
    ensures
        sentences_of(head.push(c) + tail) == seq![head.push(c)] + sentences_of(tail),
{
    let line = head.push(c) + tail;
    let closing = seq![c] + tail;
    assert(line == head + closing);
    lemma_sentence_len_after(head, closing);
    assert(sentence_len(closing) == 1);
    assert(line.take(head.len() as int + 1) == head.push(c));
    assert(line.skip(head.len() as int + 1) == tail);
}

/// The sentences of a line that holds no newline and is not empty form a paragraph.
pub proof fn lemma_sentences_form_paragraph(line: Seq<char>)
    requires
        newline_free(line),
        line.len() > 0,
    ensures
        is_paragraph(sentences_of(line)),
    decreases line.len(),
{
    lemma_sentence_len(line);
    let n = sentence_len(line);
    let first = line.take(n);
    let rest = line.skip(n);
    assert(first.drop_last() == line.take(n - 1));
    assert(is_sentence(first));
    let all = sentences_of(line);
    if rest.len() == 0 {
        assert(sentences_of(rest) == Seq::<Seq<char>>::empty());
        assert(all == seq![first]);
    } else {
        assert forall|i: int| 0 <= i < rest.len() implies #[trigger] rest[i] != '\n' by {
            assert(rest[i] == line[i + n]);
        }
        lemma_sentences_form_paragraph(rest);
        let others = sentences_of(rest);
        assert(all == seq![first] + others);
        assert(first.last() == line[n - 1]);
        assert forall|k: int| 0 <= k < all.len() implies is_sentence(#[trigger] all[k]) by {
            if k > 0 {
                assert(all[k] == others[k - 1]);
            }
        }
        assert forall|k: int| 0 <= k < all.len() - 1 implies is_terminator(
            (#[trigger] all[k]).last(),
        ) by {
            if k > 0 {
                assert(all[k] == others[k - 1]);
            }
        }
    }
}

proof fn lemma_walk_well_formed(text: Seq<char>)
    ensures
        forall|k: int|
            0 <= k < paragraphs_walk(text).len() ==> is_paragraph(#[trigger] paragraphs_walk(text)[k]),
    decreases text.len(),
{
    lemma_line_len(text);
    let n = line_len(text);
    let all = paragraphs_walk(text);
    if n > 0 {
        lemma_sentences_form_paragraph(text.take(n));
    }
    if n < text.len() {
        let others = paragraphs_walk(text.skip(n + 1));
        lemma_walk_well_formed(text.skip(n + 1));
        assert forall|k: int| 0 <= k < all.len() implies is_paragraph(#[trigger] all[k]) by {
            if n == 0 {
                assert(all[k] == others[k]);
            } else if k > 0 {
                assert(all[k] == others[k - 1]);
            }
        }
    }
}

/// The sentences of a line, put together, are the line.
pub proof fn lemma_sentences_keep_line(line: Seq<char>)
    ensures
        sentences_of(line).flatten() == line,
    decreases line.len(),
{
    if line.len() > 0 {
        lemma_sentence_len(line);
        let n = sentence_len(line);
        let first = seq![line.take(n)];
        lemma_sentences_keep_line(line.skip(n));
        lemma_flatten_concat(first, sentences_of(line.skip(n)));
        first.lemma_flatten_singleton();
        assert(line.take(n) + line.skip(n) == line);
    }
}

proof fn lemma_keep_all(s: Seq<char>)
    requires
        newline_free(s),
    ensures
        s.filter(not_newline()) == s,
    decreases s.len(),
{
    reveal(Seq::filter);
    if s.len() > 0 {
        let front = s.drop_last();
        assert forall|i: int| 0 <= i < front.len() implies #[trigger] front[i] != '\n' by {
            assert(front[i] == s[i]);
        }
        lemma_keep_all(front);
        assert(s.last() == s[s.len() - 1]);
        assert(front.push(s.last()) == s);
    }
}

proof fn lemma_walk_keeps_text(text: Seq<char>)
    ensures
        paragraphs_walk(text).flatten().flatten() == text.filter(not_newline()),
    decreases text.len(),
{
    lemma_line_len(text);
    let n = line_len(text);
    let head = text.take(n);
    let first: Seq<Seq<Seq<char>>> = if n == 0 {
        Seq::empty()
    } else {
        seq![sentences_of(head)]
    };
    assert(first.flatten().flatten() == head) by {
        if n == 0 {
            assert(first.flatten() == Seq::<Seq<char>>::empty());
            assert(head == Seq::<char>::empty());
        } else {
            first.lemma_flatten_singleton();
            lemma_sentences_keep_line(head);
        }
    }
    lemma_keep_all(head);
    if n >= text.len() {
        assert(head == text);
    } else {
        let tail = text.skip(n + 1);
        let others = paragraphs_walk(tail);
        lemma_walk_keeps_text(tail);
        lemma_flatten_concat(first, others);
        lemma_flatten_concat(first.flatten(), others.flatten());
        let newline = seq!['\n'];
        assert(text == head + newline + tail);
        Seq::filter_distributes_over_add(head + newline, tail, not_newline());
        Seq::filter_distributes_over_add(head, newline, not_newline());
        assert(newline.filter(not_newline()) == Seq::<char>::empty()) by {
            reveal_with_fuel(Seq::filter, 2);
            assert(newline.drop_last().len() == 0);
        }
        assert(head + Seq::<char>::empty() == head);
    }
}

/// Taking the paragraphs line by line from the left gives the paragraphs.
proof fn lemma_walk(text: Seq<char>)
    ensures
        paragraphs_walk(text) == paragraphs_of(text),
    decreases text.len(),
{
    lemma_line_len(text);
    let n = line_len(text);
    let head = text.take(n);
    let one = seq![head];
    assert(one.filter(some_text()) == if head.len() > 0 {
        one
    } else {
        Seq::<Seq<char>>::empty()
    }) by {
        reveal_with_fuel(Seq::filter, 2);
        assert(one.drop_last().len() == 0);
        assert(one.drop_last().filter(some_text()).push(head) == one);
    }
    let first = one.filter(some_text()).map_values(sentences_fn());
    assert(first == if n == 0 {
        Seq::<Seq<Seq<char>>>::empty()
    } else {
        seq![sentences_of(head)]
    });
    if n >= text.len() {
        assert(head == text);
    } else {
        let tail = text.skip(n + 1);
        lemma_walk(tail);
        Seq::filter_distributes_over_add(one, lines_of(tail), some_text());
        let kept = lines_of(tail).filter(some_text());
        assert((one.filter(some_text()) + kept).map_values(sentences_fn()) == first
            + kept.map_values(sentences_fn()));
    }
}

/// An empty text has no paragraph.
pub proof fn lemma_paragraphs_of_nothing(text: Seq<char>)
    requires
        text.len() == 0,
    ensures
        paragraphs_of(text).len() == 0,
{
    lemma_walk(text);
}

/// Every paragraph that the segmenter makes is one: none is empty, no sentence is
/// empty, a sentence holds a terminator at its end only, and only the last sentence
/// of a paragraph may do without one.
pub proof fn lemma_paragraphs_well_formed(text: Seq<char>)
    ensures
        forall|k: int|
            0 <= k < paragraphs_of(text).len() ==> is_paragraph(#[trigger] paragraphs_of(text)[k]),
{
    lemma_walk(text);
    lemma_walk_well_formed(text);
}

/// The segmenter loses nothing but newlines and adds nothing: all its sentences put
/// together, in order, are the text without its newlines.
pub proof fn lemma_paragraphs_keep_text(text: Seq<char>)
    ensures
        paragraphs_of(text).flatten().flatten() == text.filter(not_newline()),
{
    lemma_walk(text);
    lemma_walk_keeps_text(text);
}

/// A line can be cut into a paragraph in one way only: whatever paragraph gives
/// the line when its sentences are put together is made of the line's sentences.
pub proof fn lemma_sentences_unique(line: Seq<char>, p: Seq<Seq<char>>)
    requires
        p.len() > 0 ==> is_paragraph(p),
        p.flatten() == line,
    ensures
        p == sentences_of(line),
    decreases p.len(),
{
    if p.len() > 0 {
        let first = p[0];
        let rest = p.drop_first();
        let after = rest.flatten();
        let body = first.drop_last();
        let closing = seq![first.last()] + after;
        assert(is_sentence(first));
        assert(first == body.push(first.last()));
        assert(line == first + after);
        assert(line == body + closing);
        if p.len() > 1 || is_terminator(first.last()) {
            lemma_sentence_len_after(body, closing);
            assert(sentence_len(closing) == 1);
        } else {
            assert(after.len() == 0);
            assert forall|i: int| 0 <= i < first.len() implies !is_terminator(
                #[trigger] first[i],
            ) by {
                if i < body.len() {
                    assert(first[i] == body[i]);
                }
            }
            lemma_sentence_len_after(first, after);
            assert(first + after == first);
        }
        let n = sentence_len(line);
        assert(n == first.len());
        assert(line.take(n) == first);
        assert(line.skip(n) == after);
        if rest.len() > 0 {
            assert forall|k: int| 0 <= k < rest.len() implies is_sentence(#[trigger] rest[k]) by {
                assert(rest[k] == p[k + 1]);
            }
            assert forall|k: int| 0 <= k < rest.len() - 1 implies is_terminator(
                (#[trigger] rest[k]).last(),
            ) by {
                assert(rest[k] == p[k + 1]);
            }
        }
        lemma_sentences_unique(after, rest);
        assert(seq![first] + rest == p);
    }
}

/// What the segmenter still owes while it reads: `para` holds the sentences closed
/// on the current line, `sent` the characters read since, `rest` what is unread.
spec fn pending(para: Seq<Seq<char>>, sent: Seq<char>, rest: Seq<char>) -> Seq<
    Seq<Seq<char>>,
> {
    let n = line_len(rest);
    let line = para + sentences_of(sent + rest.take(n));
    let first = if line.len() == 0 {
        Seq::empty()
    } else {
        seq![line]
    };
    if n >= rest.len() {
        first
    } else {
        first + paragraphs_walk(rest.skip(n + 1))
    }
}

proof fn lemma_pending_start(text: Seq<char>)
    ensures
        pending(Seq::empty(), Seq::empty(), text) == paragraphs_walk(text),
{
    let n = line_len(text);
    lemma_line_len(text);
    let head = text.take(n);
    assert(Seq::<char>::empty() + head == head);
    assert(Seq::<Seq<char>>::empty() + sentences_of(head) == sentences_of(head));
    lemma_sentences_of_empty(head);
}

proof fn lemma_pending_newline(para: Seq<Seq<char>>, sent: Seq<char>, rest: Seq<char>)
    requires
        rest.len() > 0,
        rest[0] == '\n',
        terminator_free(sent),
    ensures
        ({
            let line = if sent.len() > 0 {
                para.push(sent)
            } else {
                para
            };
            let first = if line.len() > 0 {
                seq![line]
            } else {
                Seq::empty()
            };
            pending(para, sent, rest) == first + pending(Seq::empty(), Seq::empty(), rest.skip(1))
        }),
{
    lemma_pending_start(rest.skip(1));
    assert(rest.take(0) == Seq::<char>::empty());
    assert(sent + Seq::<char>::empty() == sent);
    if sent.len() > 0 {
        lemma_sentences_of_plain(sent);
        assert(para + seq![sent] == para.push(sent));
    } else {
        assert(para + Seq::<Seq<char>>::empty() == para);
    }
}

proof fn lemma_pending_plain(para: Seq<Seq<char>>, sent: Seq<char>, rest: Seq<char>)
    requires
        rest.len() > 0,
        rest[0] != '\n',
        !is_terminator(rest[0]),
    ensures
        pending(para, sent, rest) == pending(para, sent.push(rest[0]), rest.skip(1)),
{
    let n = line_len(rest);
    let tail = rest.skip(1);
    lemma_line_len(tail);
    assert(sent + rest.take(n) == sent.push(rest[0]) + tail.take(n - 1));
    if n < rest.len() {
        assert(rest.skip(n + 1) == tail.skip(n));
    }
}

proof fn lemma_pending_terminator(para: Seq<Seq<char>>, sent: Seq<char>, rest: Seq<char>)
    requires
        rest.len() > 0,
        is_terminator(rest[0]),
        terminator_free(sent),
    ensures
        pending(para, sent, rest) == pending(
            para.push(sent.push(rest[0])),
            Seq::empty(),
            rest.skip(1),
        ),
{
    let n = line_len(rest);
    let tail = rest.skip(1);
    lemma_line_len(tail);
    let closed = sent.push(rest[0]);
    assert(sent + rest.take(n) == closed + tail.take(n - 1));
    if n < rest.len() {
        assert(rest.skip(n + 1) == tail.skip(n));
    }
    lemma_sentences_of_closed(sent, rest[0], tail.take(n - 1));
    assert(Seq::<char>::empty() + tail.take(n - 1) == tail.take(n - 1));
    assert(para + (seq![closed] + sentences_of(tail.take(n - 1))) == para.push(closed)
        + sentences_of(tail.take(n - 1)));
}

proof fn lemma_pending_end(para: Seq<Seq<char>>, sent: Seq<char>)
    requires
        terminator_free(sent),
    ensures
        ({
            let line = if sent.len() > 0 {
                para.push(sent)
            } else {
                para
            };
            pending(para, sent, Seq::empty()) == if line.len() > 0 {
                seq![line]
            } else {
                Seq::empty()
            }
        }),
{
    let none = Seq::<char>::empty();
    assert(none.take(0) == none);
    assert(sent + none == sent);
    if sent.len() > 0 {
        lemma_sentences_of_plain(sent);
        assert(para + seq![sent] == para.push(sent));
    } else {
        assert(para + Seq::<Seq<char>>::empty() == para);
    }
}

/// Cuts `text` into paragraphs of sentences in one pass from left to right. A newline
/// closes the sentence and the paragraph that are open; a terminator is kept and
/// closes the sentence; an empty sentence or paragraph is never kept.
pub fn split_sentences(text: &str) -> (paragraphs: Vec<Vec<String>>)
    ensures
        paragraphs.deep_view() == paragraphs_of(text@),
        forall|k: int| 0 <= k < paragraphs.len() ==> is_paragraph(#[trigger] paragraphs.deep_view()[k]),
        paragraphs.deep_view().flatten().flatten() == text@.filter(not_newline()),
{
    let chars = chars_of(text);
    let mut paragraphs: Vec<Vec<String>> = Vec::new();
    let mut current_sentence = String::new();
    let mut current_paragraph: Vec<String> = Vec::new();
    let mut i: usize = 0;
    proof {
        lemma_pending_start(text@);
        assert(chars@.skip(0) == chars@);
        assert(paragraphs.deep_view() == Seq::<Seq<Seq<char>>>::empty());
        assert(current_paragraph.deep_view() == Seq::<Seq<char>>::empty());
        assert(paragraphs.deep_view() + paragraphs_walk(text@) == paragraphs_walk(text@));
    }
    while i < chars.len()
        invariant
            i <= chars.len(),
            chars@ == text@,
            terminator_free(current_sentence@),
            paragraphs.deep_view() + pending(
                current_paragraph.deep_view(),
                current_sentence@,
                chars@.skip(i as int),
            ) == paragraphs_walk(text@),
        decreases chars.len() - i,
    {
        let c = chars[i];
        let ghost done = paragraphs.deep_view();
        let ghost para = current_paragraph.deep_view();
        let ghost sent = current_sentence@;
        let ghost rest = chars@.skip(i as int);
        assert(rest[0] == c);
        assert(rest.skip(1) == chars@.skip(i + 1));
        if c == '\n' {
            proof {
                lemma_pending_newline(para, sent, rest);
            }
            if !current_sentence.as_str().is_empty() {
                current_paragraph.push(current_sentence);
                current_sentence = String::new();
                assert(current_paragraph.deep_view() == para.push(sent));
            }
            if current_paragraph.len() > 0 {
                let ghost line = current_paragraph.deep_view();
                paragraphs.push(current_paragraph);
                current_paragraph = Vec::new();
                assert(paragraphs.deep_view() == done.push(line));
                assert(done.push(line) == done + seq![line]);
                assert(current_paragraph.deep_view() == Seq::<Seq<char>>::empty());
                assert((done + seq![line]) + pending(Seq::empty(), Seq::empty(), rest.skip(1))
                    == done + (seq![line] + pending(Seq::empty(), Seq::empty(), rest.skip(1))));
            } else {
                assert(current_paragraph.deep_view() == Seq::<Seq<char>>::empty());
                assert(Seq::<Seq<Seq<char>>>::empty() + pending(
                    Seq::empty(),
                    Seq::empty(),
                    rest.skip(1),
                ) == pending(Seq::empty(), Seq::empty(), rest.skip(1)));
            }
        } else {
            current_sentence.push(c);
            if terminator(c) {
                proof {
                    lemma_pending_terminator(para, sent, rest);
                }
                current_paragraph.push(current_sentence);
                current_sentence = String::new();
                assert(current_paragraph.deep_view() == para.push(sent.push(c)));
            } else {
                proof {
                    lemma_pending_plain(para, sent, rest);
                }
                assert forall|k: int| 0 <= k < current_sentence@.len() implies !is_terminator(
                    #[trigger] current_sentence@[k],
                ) by {
                    if k < sent.len() {
                        assert(current_sentence@[k] == sent[k]);
                    }
                }
            }
        }
        i += 1;
    }
    let ghost done = paragraphs.deep_view();
    let ghost para = current_paragraph.deep_view();
    let ghost sent = current_sentence@;
    proof {
        assert(chars@.skip(chars.len() as int) == Seq::<char>::empty());
        lemma_pending_end(para, sent);
    }
    if !current_sentence.as_str().is_empty() {
        current_paragraph.push(current_sentence);
        assert(current_paragraph.deep_view() == para.push(sent));
    }
    if current_paragraph.len() > 0 {
        let ghost line = current_paragraph.deep_view();
        paragraphs.push(current_paragraph);
        assert(paragraphs.deep_view() == done.push(line));
        assert(done.push(line) == done + seq![line]);
    } else {
        assert(done + Seq::<Seq<Seq<char>>>::empty() == done);
    }
    proof {
        assert(paragraphs.deep_view() == paragraphs_walk(text@));
        lemma_walk(text@);
        lemma_paragraphs_well_formed(text@);
        lemma_paragraphs_keep_text(text@);
    }
    paragraphs
}

} // verus!

//! Sentence cutting: a text is protected, segmented and repaired, in that order.
use crate::protect::protect;
use crate::protect::protected;
use crate::repair::all_clean;
use crate::repair::lemma_repaired_clean;
use crate::repair::repair_paragraph_fn;
use crate::repair::repair_sentence_fn;
use crate::repair::repair_sentences;
use crate::repair::repaired;
use crate::repair::repaired_paragraph;
use crate::repair::repaired_sentence;
use crate::repair::some_sentence;
use crate::segment::lemma_paragraphs_of_nothing;
use crate::segment::lemma_sentences_of_plain;
use crate::segment::paragraphs_of;
use crate::segment::sentences_fn;
use crate::segment::split_sentences;
use crate::text::is_terminator;
use crate::text::lemma_filter_one;
use crate::text::lemma_joined_keeps_letters;
use crate::text::lemma_lines_hold_text;
use crate::text::lemma_lines_join_back;
use crate::text::lemma_lines_of_one;
use crate::text::lemma_trimmed_lines_keep_letters;
use crate::text::letters_of;
use crate::text::lines_of;
use crate::text::newline_free;
use crate::text::not_whitespace;
use crate::text::some_text;
use crate::text::terminator_free;
use crate::text::trim_fn;
use crate::text::trimmed;
use crate::text::MARK;
use vstd::prelude::*;

verus! {

/// The paragraphs of sentences that a text is cut into.
pub open spec fn cut_of(text: Seq<char>) -> Seq<Seq<Seq<char>>> {
    repaired(paragraphs_of(protected(text)))
}

/// An empty text is cut into nothing.
pub proof fn lemma_cut_of_nothing(text: Seq<char>)
    requires
        text.len() == 0,
    ensures
        cut_of(text).len() == 0,
{
    let none = paragraphs_of(text);
    lemma_paragraphs_of_nothing(text);
    assert(none.map_values(repair_paragraph_fn()).len() == 0);
    none.map_values(repair_paragraph_fn()).lemma_filter_len(some_sentence());
}

/// Whatever the text, no paragraph of its cut is empty, and no sentence is empty
/// or begins or ends with whitespace.
pub proof fn lemma_cut_of_clean(text: Seq<char>)
    ensures
        all_clean(cut_of(text)),
{
    lemma_repaired_clean(paragraphs_of(protected(text)));
}

/// A text that holds neither a terminator nor the mark of the markers.
pub open spec fn is_plain(text: Seq<char>) -> bool {
    terminator_free(text) && !text.contains(MARK)
}

/// The map from a sentence to the paragraph that holds it alone.
pub open spec fn alone_fn() -> spec_fn(Seq<char>) -> Seq<Seq<char>> {
    |s: Seq<char>| seq![s]
}

/// The cut of a plain text: every line, trimmed, is a paragraph of one sentence,
/// but for the lines of which trimming leaves nothing.
pub open spec fn plain_cut_of(text: Seq<char>) -> Seq<Seq<Seq<char>>> {
    lines_of(text).map_values(trim_fn()).filter(some_text()).map_values(alone_fn())
}

proof fn lemma_plain_lines(lines: Seq<Seq<char>>)
    requires
        forall|k: int| 0 <= k < lines.len() ==> is_plain(#[trigger] lines[k]),
    ensures
        repaired(lines.filter(some_text()).map_values(sentences_fn())) == lines.map_values(
            trim_fn(),
        ).filter(some_text()).map_values(alone_fn()),
    decreases lines.len(),
{
    reveal(Seq::filter);
    if lines.len() > 0 {
        let front = lines.drop_last();
        let line = lines.last();
        let short = trimmed(line);
        assert(lines == front.push(line));
        assert(is_plain(line));
        lemma_plain_lines(front);
        let raw = front.filter(some_text()).map_values(sentences_fn());
        let kept = front.map_values(trim_fn()).filter(some_text());
        front.lemma_filter_push(line, some_text());
        front.lemma_push_map_commute(trim_fn(), line);
        front.map_values(trim_fn()).lemma_filter_push(short, some_text());
        if line.len() == 0 {
            assert(short.len() == 0);
        } else {
            lemma_sentences_of_plain(line);
            front.filter(some_text()).lemma_push_map_commute(sentences_fn(), line);
            let sentences = seq![line];
            raw.lemma_push_map_commute(repair_paragraph_fn(), sentences);
            assert(repaired_sentence(line) == short);
            assert(sentences.map_values(repair_sentence_fn()) == seq![short]);
            lemma_filter_one(short, some_text());
            let paragraph = repaired_paragraph(sentences);
            raw.map_values(repair_paragraph_fn()).lemma_filter_push(paragraph, some_sentence());
            if short.len() > 0 {
                kept.lemma_push_map_commute(alone_fn(), short);
            }
        }
    }
}

/// Of a plain text every line, trimmed, is a paragraph of one sentence; lines of
/// which trimming leaves nothing give none.
pub proof fn lemma_cut_of_plain(text: Seq<char>)
    requires
        is_plain(text),
    ensures
        cut_of(text) == plain_cut_of(text),
{
    let lines = lines_of(text);
    assert forall|k: int| 0 <= k < lines.len() implies is_plain(#[trigger] lines[k]) by {
        assert forall|i: int| 0 <= i < lines[k].len() implies !is_terminator(
            #[trigger] lines[k][i],
        ) && lines[k][i] != MARK by {
            lemma_lines_hold_text(text, k, i);
        }
    }
    lemma_plain_lines(lines);
}

/// A plain text on one line is one sentence, the text trimmed; it gives nothing
/// where trimming leaves nothing.
pub proof fn lemma_cut_of_plain_line(text: Seq<char>)
    requires
        is_plain(text),
        newline_free(text),
    ensures
        cut_of(text) == if trimmed(text).len() > 0 {
            seq![seq![trimmed(text)]]
        } else {
            Seq::<Seq<Seq<char>>>::empty()
        },
{
    lemma_cut_of_plain(text);
    lemma_lines_of_one(text);
    let short = trimmed(text);
    assert(seq![text].map_values(trim_fn()) == seq![short]);
    lemma_filter_one(short, some_text());
    if short.len() > 0 {
        assert(seq![short].map_values(alone_fn()) == seq![seq![short]]);
    } else {
        assert(Seq::<Seq<char>>::empty().map_values(alone_fn()) == Seq::<Seq<Seq<char>>>::empty());
    }
}

proof fn lemma_alone_flatten(sentences: Seq<Seq<char>>)
    ensures
        sentences.map_values(alone_fn()).flatten() == sentences,
    decreases sentences.len(),
{
    if sentences.len() > 0 {
        let front = sentences.drop_last();
        let last = sentences.last();
        assert(sentences == front.push(last));
        lemma_alone_flatten(front);
        front.lemma_push_map_commute(alone_fn(), last);
        front.map_values(alone_fn()).lemma_flatten_push(seq![last]);
        assert(front + seq![last] == sentences);
    }
}

/// The sentences of a plain text, in their order, spell the text: whitespace aside,
/// no character is added, lost or moved.
pub proof fn lemma_plain_cut_spells_text(text: Seq<char>)
    requires
        is_plain(text),
    ensures
        letters_of(cut_of(text).flatten().flatten()) == letters_of(text),
{
    let lines = lines_of(text);
    let newline = seq!['\n'];
    lemma_cut_of_plain(text);
    lemma_alone_flatten(lines.map_values(trim_fn()).filter(some_text()));
    lemma_trimmed_lines_keep_letters(lines);
    lemma_lines_join_back(text);
    lemma_filter_one('\n', not_whitespace());
    lemma_joined_keeps_letters(lines, newline);
}

/// Cuts a text into paragraphs of sentences, both in the order of the text. It
/// does so for every text; the empty text gives no paragraph. No paragraph handed
/// out is empty, and no sentence is empty or begins or ends with whitespace. A
/// text on one line that holds neither a terminator nor the mark of the markers
/// is one sentence, the text trimmed; of such a text on several lines the
/// sentences are the trimmed lines and, whitespace aside, spell the text.
pub fn cut(origin_text: &String) -> (paragraphs: Vec<Vec<String>>)
    ensures
        paragraphs.deep_view() == cut_of(origin_text@),
        all_clean(paragraphs.deep_view()),
        origin_text@.len() == 0 ==> paragraphs.len() == 0,
        is_plain(origin_text@) ==> paragraphs.deep_view() == plain_cut_of(origin_text@),
        is_plain(origin_text@) && newline_free(origin_text@) && trimmed(origin_text@).len() > 0
            ==> paragraphs.deep_view() == seq![seq![trimmed(origin_text@)]],
        is_plain(origin_text@) ==> letters_of(paragraphs.deep_view().flatten().flatten())
            == letters_of(origin_text@),
{
    proof {
        if origin_text@.len() == 0 {
            lemma_cut_of_nothing(origin_text@);
        }
        if is_plain(origin_text@) {
            lemma_plain_cut_spells_text(origin_text@);
            lemma_cut_of_plain(origin_text@);
            if newline_free(origin_text@) {
                lemma_cut_of_plain_line(origin_text@);
            }
        }
    }
    let text = protect(origin_text.as_str());
    let paragraphs = split_sentences(text.as_str());
    repair_sentences(paragraphs)
}

} // verus!

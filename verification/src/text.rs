//! Characters and character sequences: the classes the segmentation rules speak of,
//! trimming, literal replacement, and the passage between strings and characters.
use vstd::prelude::*;

verus! {

/// `String::push` appends one character at the end of the string.
pub assume_specification[ String::push ](s: &mut String, c: char)
    ensures
        final(s)@ == old(s)@.push(c),
;

/// A character with the Unicode property White_Space.
pub open spec fn is_whitespace(c: char) -> bool {
    ||| '\u{9}' <= c <= '\u{d}'
    ||| c == ' '
    ||| c == '\u{85}'
    ||| c == '\u{a0}'
    ||| c == '\u{1680}'
    ||| '\u{2000}' <= c <= '\u{200a}'
    ||| c == '\u{2028}'
    ||| c == '\u{2029}'
    ||| c == '\u{202f}'
    ||| c == '\u{205f}'
    ||| c == '\u{3000}'
}

/// A character that may end a sentence.
pub open spec fn is_terminator(c: char) -> bool {
    c == '.' || c == '?' || c == '!'
}

/// Whether the character has the Unicode property White_Space.
pub fn whitespace(c: char) -> (b: bool)
    ensures
        b == is_whitespace(c),
{
    ('\u{9}' <= c && c <= '\u{d}') || c == ' ' || c == '\u{85}' || c == '\u{a0}' || c
        == '\u{1680}' || ('\u{2000}' <= c && c <= '\u{200a}') || c == '\u{2028}' || c
        == '\u{2029}' || c == '\u{202f}' || c == '\u{205f}' || c == '\u{3000}'
}

/// Whether the character may end a sentence.
pub fn terminator(c: char) -> (b: bool)
    ensures
        b == is_terminator(c),
{
    c == '.' || c == '?' || c == '!'
}

/// No character of `s` is a terminator.
pub open spec fn terminator_free(s: Seq<char>) -> bool {
    forall|i: int| 0 <= i < s.len() ==> !is_terminator(#[trigger] s[i])
}

/// The sign with which every marker begins and ends.
pub const MARK: char = '&';

/// Whether the string slice holds the character.
pub fn holds(s: &str, c: char) -> (found: bool)
    ensures
        found == s@.contains(c),
{
    let v = chars_of(s);
    let mut i: usize = 0;
    while i < v.len()
        invariant
            i <= v.len(),
            v@ == s@,
            forall|k: int| 0 <= k < i ==> v@[k] != c,
        decreases v.len() - i,
    {
        if v[i] == c {
            assert(v@.contains(v@[i as int]));
            return true;
        }
        i += 1;
    }
    false
}

/// Whether the string slice holds a terminator.
pub fn holds_terminator(s: &str) -> (found: bool)
    ensures
        found == !terminator_free(s@),
{
    let v = chars_of(s);
    let mut i: usize = 0;
    while i < v.len()
        invariant
            i <= v.len(),
            v@ == s@,
            forall|k: int| 0 <= k < i ==> !is_terminator(#[trigger] v@[k]),
        decreases v.len() - i,
    {
        if terminator(v[i]) {
            return true;
        }
        i += 1;
    }
    false
}

/// The characters of a string slice, in order.
pub fn chars_of(s: &str) -> (v: Vec<char>)
    ensures
        v@ == s@,
{
    let mut v: Vec<char> = Vec::new();
    for c in it: s.chars()
        invariant
            v@ == it.seq().take(it.index() as int),
            it.seq() == s@,
    {
        v.push(c);
    }
    v
}

/// The string made of the characters `v[from..to]`, in order.
pub fn string_of(v: &Vec<char>, from: usize, to: usize) -> (s: String)
    requires
        from <= to <= v.len(),
    ensures
        s@ == v@.subrange(from as int, to as int),
{
    let mut s = String::new();
    let mut i: usize = from;
    while i < to
        invariant
            from <= i <= to <= v.len(),
            s@ == v@.subrange(from as int, i as int),
        decreases to - i,
    {
        s.push(v[i]);
        i += 1;
    }
    s
}

/// Whether two string slices hold the same characters.
pub fn same_text(a: &str, b: &str) -> (same: bool)
    ensures
        same == (a@ == b@),
{
    let x = chars_of(a);
    let y = chars_of(b);
    if x.len() != y.len() {
        return false;
    }
    let mut i: usize = 0;
    while i < x.len()
        invariant
            i <= x.len() == y.len(),
            x@ == a@,
            y@ == b@,
            x@.take(i as int) == y@.take(i as int),
        decreases x.len() - i,
    {
        if x[i] != y[i] {
            return false;
        }
        assert(x@.take(i + 1) == x@.take(i as int).push(x@[i as int]));
        assert(y@.take(i + 1) == y@.take(i as int).push(y@[i as int]));
        i += 1;
    }
    assert(x@.take(x.len() as int) == x@);
    assert(y@.take(y.len() as int) == y@);
    true
}

/// `s` without its leading whitespace.
pub open spec fn trimmed_start(s: Seq<char>) -> Seq<char>
    decreases s.len(),
{
    if s.len() > 0 && is_whitespace(s[0]) {
        trimmed_start(s.skip(1))
    } else {
        s
    }
}

/// `s` without its trailing whitespace.
pub open spec fn trimmed_end(s: Seq<char>) -> Seq<char>
    decreases s.len(),
{
    if s.len() > 0 && is_whitespace(s.last()) {
        trimmed_end(s.drop_last())
    } else {
        s
    }
}

/// `s` without its leading and trailing whitespace.
pub open spec fn trimmed(s: Seq<char>) -> Seq<char> {
    trimmed_end(trimmed_start(s))
}

/// The map from a sequence of characters to what trimming leaves of it.
pub open spec fn trim_fn() -> spec_fn(Seq<char>) -> Seq<char> {
    |s: Seq<char>| trimmed(s)
}

/// Nothing is left to trim: `s` neither begins nor ends with whitespace.
pub open spec fn is_trimmed(s: Seq<char>) -> bool {
    s.len() > 0 ==> !is_whitespace(s[0]) && !is_whitespace(s.last())
}

/// Leading whitespace is exactly the longest prefix made of whitespace.
pub proof fn lemma_trimmed_start(s: Seq<char>, k: int)
    requires
        0 <= k <= s.len(),
        forall|i: int| 0 <= i < k ==> is_whitespace(#[trigger] s[i]),
        k < s.len() ==> !is_whitespace(s[k]),
    ensures
        trimmed_start(s) == s.skip(k),
    decreases k,
{
    if k == 0 {
        assert(s.skip(0) == s);
    } else {
        let t = s.skip(1);
        assert forall|i: int| 0 <= i < k - 1 implies is_whitespace(#[trigger] t[i]) by {
            assert(t[i] == s[i + 1]);
        }
        lemma_trimmed_start(t, k - 1);
        assert(t.skip(k - 1) == s.skip(k));
    }
}

/// Trailing whitespace is exactly the longest suffix made of whitespace.
pub proof fn lemma_trimmed_end(s: Seq<char>, k: int)
    requires
        0 <= k <= s.len(),
        forall|i: int| k <= i < s.len() ==> is_whitespace(#[trigger] s[i]),
        k > 0 ==> !is_whitespace(s[k - 1]),
    ensures
        trimmed_end(s) == s.take(k),
    decreases s.len() - k,
{
    if k == s.len() {
        assert(s.take(k) == s);
    } else {
        let t = s.drop_last();
        lemma_trimmed_end(t, k);
        assert(t.take(k) == s.take(k));
    }
}

/// What trimming returns begins and ends with a character that is no whitespace.
pub proof fn lemma_trimmed_is_trimmed(s: Seq<char>)
    ensures
        is_trimmed(trimmed(s)),
        trimmed(trimmed(s)) == trimmed(s),
{
    lemma_trimmed_start_head(s);
    let a = trimmed_start(s);
    lemma_trimmed_end_keeps_head(a);
    lemma_trimmed_end_last(a);
}

proof fn lemma_trimmed_start_head(s: Seq<char>)
    ensures
        trimmed_start(s).len() > 0 ==> !is_whitespace(trimmed_start(s)[0]),
    decreases s.len(),
{
    if s.len() > 0 && is_whitespace(s[0]) {
        lemma_trimmed_start_head(s.skip(1));
    }
}

proof fn lemma_trimmed_end_last(s: Seq<char>)
    ensures
        trimmed_end(s).len() > 0 ==> !is_whitespace(trimmed_end(s).last()),
    decreases s.len(),
{
    if s.len() > 0 && is_whitespace(s.last()) {
        lemma_trimmed_end_last(s.drop_last());
    }
}

proof fn lemma_trimmed_end_keeps_head(s: Seq<char>)
    ensures
        trimmed_end(s).len() <= s.len(),
        trimmed_end(s).len() > 0 ==> trimmed_end(s)[0] == s[0],
    decreases s.len(),
{
    if s.len() > 0 && is_whitespace(s.last()) {
        lemma_trimmed_end_keeps_head(s.drop_last());
    }
}

/// The string slice without its leading and trailing whitespace.
pub fn trim(s: &str) -> (out: String)
    ensures
        out@ == trimmed(s@),
{
    let v = chars_of(s);
    let mut start: usize = 0;
    while start < v.len() && whitespace(v[start])
        invariant
            start <= v.len(),
            forall|i: int| 0 <= i < start ==> is_whitespace(#[trigger] v@[i]),
        decreases v.len() - start,
    {
        start += 1;
    }
    let mut end: usize = v.len();
    while end > start && whitespace(v[end - 1])
        invariant
            start <= end <= v.len(),
            forall|i: int| end <= i < v.len() ==> is_whitespace(#[trigger] v@[i]),
        decreases end,
    {
        end -= 1;
    }
    proof {
        lemma_trimmed_start(v@, start as int);
        let a = v@.skip(start as int);
        assert forall|i: int| end - start <= i < a.len() implies is_whitespace(#[trigger] a[i]) by {
            assert(a[i] == v@[i + start]);
        }
        lemma_trimmed_end(a, end - start);
        assert(a.take(end - start) == v@.subrange(start as int, end as int));
    }
    string_of(&v, start, end)
}

/// `s` with every occurrence of `from` replaced by `to`, found from left to right;
/// an occurrence starts no earlier than where the one before it ends. An empty
/// `from` occurs nowhere.
pub open spec fn replaced(s: Seq<char>, from: Seq<char>, to: Seq<char>) -> Seq<char>
    decreases s.len(),
{
    if from.len() == 0 || s.len() < from.len() {
        s
    } else if s.take(from.len() as int) == from {
        to + replaced(s.skip(from.len() as int), from, to)
    } else {
        seq![s[0]] + replaced(s.skip(1), from, to)
    }
}

/// Where some character of `from` stands nowhere in `s`, nothing is replaced.
pub proof fn lemma_replaced_without(s: Seq<char>, from: Seq<char>, to: Seq<char>, c: char)
    requires
        from.contains(c),
        !s.contains(c),
    ensures
        replaced(s, from, to) == s,
    decreases s.len(),
{
    if from.len() == 0 || s.len() < from.len() {
    } else {
        let k = choose|k: int| 0 <= k < from.len() && from[k] == c;
        assert(s.take(from.len() as int)[k] == s[k]);
        assert(s.contains(s[k]));
        let rest = s.skip(1);
        assert forall|i: int| 0 <= i < rest.len() implies rest[i] != c by {
            assert(rest[i] == s[i + 1]);
            assert(s.contains(s[i + 1]));
        }
        lemma_replaced_without(rest, from, to, c);
        assert(seq![s[0]] + rest == s);
    }
}

/// Whether `from` stands in `s` at index `at`.
pub fn occurs_at(s: &Vec<char>, at: usize, from: &Vec<char>) -> (found: bool)
    ensures
        found == (at + from.len() <= s.len() && s@.subrange(at as int, at + from.len()) == from@),
{
    if at > s.len() || from.len() > s.len() - at {
        return false;
    }
    let mut j: usize = 0;
    while j < from.len()
        invariant
            j <= from.len(),
            at + from.len() <= s.len(),
            s@.subrange(at as int, at + j) == from@.take(j as int),
        decreases from.len() - j,
    {
        if s[at + j] != from[j] {
            proof {
                let w = s@.subrange(at as int, at + from.len());
                assert(w[j as int] == s@[at + j]);
            }
            return false;
        }
        assert(s@.subrange(at as int, at + j + 1) == s@.subrange(at as int, at + j).push(
            s@[at + j],
        ));
        assert(from@.take(j + 1) == from@.take(j as int).push(from@[j as int]));
        j += 1;
    }
    assert(from@.take(from.len() as int) == from@);
    true
}

/// The string slice with every occurrence of `from` replaced by `to`.
pub fn replace(s: &str, from: &str, to: &str) -> (out: String)
    ensures
        out@ == replaced(s@, from@, to@),
{
    let v = chars_of(s);
    let f = chars_of(from);
    let mut out = String::new();
    if f.len() == 0 {
        return string_of(&v, 0, v.len());
    }
    let mut i: usize = 0;
    assert(v@.skip(0) == v@);
    assert(out@ + replaced(v@, f@, to@) == replaced(v@, f@, to@));
    while i < v.len()
        invariant
            i <= v.len(),
            f@ == from@,
            f.len() > 0,
            v@ == s@,
            out@ + replaced(v@.skip(i as int), f@, to@) == replaced(v@, f@, to@),
        decreases v.len() - i,
    {
        let ghost rest = v@.skip(i as int);
        let ghost before = out@;
        if occurs_at(&v, i, &f) {
            out.append(to);
            proof {
                let tail = replaced(v@.skip(i + f.len()), f@, to@);
                assert(rest.take(f.len() as int) == v@.subrange(i as int, i + f.len()));
                assert(rest.skip(f.len() as int) == v@.skip(i + f.len()));
                assert((before + to@) + tail == before + (to@ + tail));
            }
            i += f.len();
        } else {
            out.push(v[i]);
            proof {
                let tail = replaced(v@.skip(i + 1), f@, to@);
                if rest.len() >= f.len() {
                    assert(rest.take(f.len() as int) == v@.subrange(i as int, i + f.len()));
                }
                assert(rest.skip(1) == v@.skip(i + 1));
                assert(before.push(v@[i as int]) + tail == before + (seq![rest[0]] + tail));
            }
            i += 1;
        }
    }
    assert(v@.skip(v.len() as int) == Seq::<char>::empty());
    out
}

/// The test that keeps a sequence of characters that is not empty.
pub open spec fn some_text() -> spec_fn(Seq<char>) -> bool {
    |s: Seq<char>| s.len() > 0
}

/// Of a single member the test keeps all or nothing.
pub proof fn lemma_filter_one<A>(x: A, test: spec_fn(A) -> bool)
    ensures
        seq![x].filter(test) == if test(x) {
            seq![x]
        } else {
            Seq::<A>::empty()
        },
{
    reveal_with_fuel(Seq::filter, 2);
    let one = seq![x];
    assert(one.drop_last().len() == 0);
    assert(one.drop_last().filter(test).push(x) == one);
}

/// `s` begins with `prefix`.
pub open spec fn begins_with(s: Seq<char>, prefix: Seq<char>) -> bool {
    prefix.len() <= s.len() && s.take(prefix.len() as int) == prefix
}

/// Whether the string slice begins with `prefix`.
pub fn starts_with(s: &str, prefix: &str) -> (b: bool)
    ensures
        b == begins_with(s@, prefix@),
{
    let v = chars_of(s);
    let p = chars_of(prefix);
    let b = occurs_at(&v, 0, &p);
    assert(v@.subrange(0, 0 + p.len()) == v@.take(p.len() as int));
    b
}

/// The number of characters before the first newline of `text`; all of them where
/// there is none.
pub open spec fn line_len(text: Seq<char>) -> int
    decreases text.len(),
{
    if text.len() == 0 || text[0] == '\n' {
        0
    } else {
        1 + line_len(text.skip(1))
    }
}

/// No character of `s` is a newline.
pub open spec fn newline_free(s: Seq<char>) -> bool {
    forall|i: int| 0 <= i < s.len() ==> #[trigger] s[i] != '\n'
}

/// The first line ends at a newline or at the end of the text, and holds no newline.
pub proof fn lemma_line_len(text: Seq<char>)
    ensures
        0 <= line_len(text) <= text.len(),
        line_len(text) < text.len() ==> text[line_len(text)] == '\n',
        newline_free(text.take(line_len(text))),
    decreases text.len(),
{
    if text.len() == 0 || text[0] == '\n' {
    } else {
        let rest = text.skip(1);
        lemma_line_len(rest);
        let n = line_len(text);
        assert forall|i: int| 0 <= i < n implies #[trigger] text.take(n)[i] != '\n' by {
            if i > 0 {
                assert(rest.take(n - 1)[i - 1] == text[i]);
            }
        }
    }
}

/// Characters that are no newline, before the line's end, belong to the line.
pub proof fn lemma_line_len_after(head: Seq<char>, tail: Seq<char>)
    requires
        newline_free(head),
    ensures
        line_len(head + tail) == head.len() + line_len(tail),
    decreases head.len(),
{
    if head.len() == 0 {
        assert(head + tail == tail);
    } else {
        let rest = head.skip(1);
        assert((head + tail)[0] == head[0]);
        assert((head + tail).skip(1) == rest + tail);
        assert forall|i: int| 0 <= i < rest.len() implies #[trigger] rest[i] != '\n' by {
            assert(rest[i] == head[i + 1]);
        }
        lemma_line_len_after(rest, tail);
    }
}

/// The lines of a text: what stands before, between and after its newlines. A text
/// of n newlines has n + 1 lines, empty ones among them.
pub open spec fn lines_of(text: Seq<char>) -> Seq<Seq<char>>
    decreases text.len(),
{
    let n = line_len(text);
    proof {
        lemma_line_len(text);
    }
    if n >= text.len() {
        seq![text]
    } else {
        seq![text.take(n)] + lines_of(text.skip(n + 1))
    }
}

/// Every character of a line is a character of the text.
pub proof fn lemma_lines_hold_text(text: Seq<char>, k: int, i: int)
    requires
        0 <= k < lines_of(text).len(),
        0 <= i < lines_of(text)[k].len(),
    ensures
        text.contains(lines_of(text)[k][i]),
    decreases text.len(),
{
    lemma_line_len(text);
    let n = line_len(text);
    if n >= text.len() {
        assert(text.contains(text[i]));
    } else if k == 0 {
        assert(text.take(n)[i] == text[i]);
        assert(text.contains(text[i]));
    } else {
        let rest = text.skip(n + 1);
        assert(lines_of(text)[k] == lines_of(rest)[k - 1]);
        lemma_lines_hold_text(rest, k - 1, i);
        let c = lines_of(rest)[k - 1][i];
        let j = choose|j: int| 0 <= j < rest.len() && rest[j] == c;
        assert(text[j + n + 1] == c);
        assert(text.contains(text[j + n + 1]));
    }
}

/// A text without a newline is one line.
pub proof fn lemma_lines_of_one(text: Seq<char>)
    requires
        newline_free(text),
    ensures
        lines_of(text) == seq![text],
{
    lemma_line_len_after(text, Seq::empty());
    assert(text + Seq::<char>::empty() == text);
}

/// The lines of a string slice.
pub fn split_lines(text: &str) -> (lines: Vec<String>)
    ensures
        lines.deep_view() == lines_of(text@),
{
    let v = chars_of(text);
    let mut lines: Vec<String> = Vec::new();
    let mut start: usize = 0;
    proof {
        assert(v@.skip(0) == v@);
        assert(lines.deep_view() + lines_of(v@) == lines_of(v@));
    }
    loop
        invariant_except_break
            lines.deep_view() + lines_of(v@.skip(start as int)) == lines_of(v@),
        invariant
            start <= v.len(),
            v@ == text@,
        ensures
            lines.deep_view() == lines_of(v@),
        decreases v.len() - start,
    {
        let ghost rest = v@.skip(start as int);
        let ghost before = lines.deep_view();
        let mut end: usize = start;
        proof {
            assert(v@.subrange(start as int, start as int) + rest == rest);
        }
        while end < v.len() && v[end] != '\n'
            invariant
                start <= end <= v.len(),
                rest == v@.skip(start as int),
                newline_free(v@.subrange(start as int, end as int)),
            decreases v.len() - end,
        {
            assert forall|i: int| 0 <= i < end + 1 - start implies #[trigger] v@.subrange(
                start as int,
                end + 1,
            )[i] != '\n' by {
                if i < end - start {
                    assert(v@.subrange(start as int, end as int)[i] == v@[start + i]);
                }
            }
            end += 1;
        }
        let line = string_of(&v, start, end);
        proof {
            let head = v@.subrange(start as int, end as int);
            let tail = v@.skip(end as int);
            assert(rest == head + tail);
            lemma_line_len_after(head, tail);
            assert(line_len(tail) == 0);
            assert(rest.take(end - start) == head);
        }
        lines.push(line);
        assert(lines.deep_view() == before.push(line@));
        if end >= v.len() {
            proof {
                assert(before.push(line@) == before + seq![line@]);
            }
            break ;
        }
        proof {
            assert(rest.skip(end - start + 1) == v@.skip(end + 1));
            assert(before.push(line@) + lines_of(v@.skip(end + 1)) == before + (seq![line@]
                + lines_of(v@.skip(end + 1))));
        }
        start = end + 1;
    }
    lines
}

/// The members of `parts` in a row, with `separator` between each two.
pub open spec fn joined(parts: Seq<Seq<char>>, separator: Seq<char>) -> Seq<char>
    decreases parts.len(),
{
    if parts.len() == 0 {
        Seq::empty()
    } else if parts.len() == 1 {
        parts[0]
    } else {
        joined(parts.drop_last(), separator) + separator + parts.last()
    }
}

/// The first of several parts stands before the first separator.
pub proof fn lemma_joined_first(first: Seq<char>, rest: Seq<Seq<char>>, separator: Seq<char>)
    requires
        rest.len() > 0,
    ensures
        joined(seq![first] + rest, separator) == first + separator + joined(rest, separator),
    decreases rest.len(),
{
    let all = seq![first] + rest;
    assert(all.len() == rest.len() + 1);
    assert(all.last() == rest.last());
    assert(all.drop_last() == seq![first] + rest.drop_last());
    assert(joined(all, separator) == joined(all.drop_last(), separator) + separator + all.last());
    if rest.len() == 1 {
        assert(all.drop_last() == seq![first]);
        assert(joined(seq![first], separator) == first);
        assert(joined(rest, separator) == rest.last());
    } else {
        lemma_joined_first(first, rest.drop_last(), separator);
        let front = joined(rest.drop_last(), separator);
        assert(joined(rest, separator) == front + separator + rest.last());
        assert((first + separator + front) + separator + rest.last() == first + separator + (front
            + separator + rest.last()));
    }
}

/// A text is its lines with a newline between each two: cutting a text into lines
/// and joining them again changes nothing.
pub proof fn lemma_lines_join_back(text: Seq<char>)
    ensures
        lines_of(text).len() > 0,
        joined(lines_of(text), seq!['\n']) == text,
    decreases text.len(),
{
    lemma_line_len(text);
    let n = line_len(text);
    if n < text.len() {
        let rest = text.skip(n + 1);
        lemma_lines_join_back(rest);
        lemma_joined_first(text.take(n), lines_of(rest), seq!['\n']);
        assert(text.take(n) + seq!['\n'] + rest == text);
    }
}

/// The test that keeps every character but whitespace.
pub open spec fn not_whitespace() -> spec_fn(char) -> bool {
    |c: char| !is_whitespace(c)
}

/// `s` without its whitespace.
pub open spec fn letters_of(s: Seq<char>) -> Seq<char> {
    s.filter(not_whitespace())
}

/// Trimming takes whitespace away and nothing else.
pub proof fn lemma_trimmed_keeps_letters(s: Seq<char>)
    ensures
        letters_of(trimmed(s)) == letters_of(s),
{
    lemma_trimmed_start_keeps_letters(s);
    lemma_trimmed_end_keeps_letters(trimmed_start(s));
}

proof fn lemma_trimmed_start_keeps_letters(s: Seq<char>)
    ensures
        letters_of(trimmed_start(s)) == letters_of(s),
    decreases s.len(),
{
    if s.len() > 0 && is_whitespace(s[0]) {
        let rest = s.skip(1);
        lemma_trimmed_start_keeps_letters(rest);
        assert(s == seq![s[0]] + rest);
        Seq::filter_distributes_over_add(seq![s[0]], rest, not_whitespace());
        lemma_filter_one(s[0], not_whitespace());
        assert(Seq::<char>::empty() + letters_of(rest) == letters_of(rest));
    }
}

proof fn lemma_trimmed_end_keeps_letters(s: Seq<char>)
    ensures
        letters_of(trimmed_end(s)) == letters_of(s),
    decreases s.len(),
{
    reveal(Seq::filter);
    if s.len() > 0 && is_whitespace(s.last()) {
        lemma_trimmed_end_keeps_letters(s.drop_last());
    }
}

/// Where the separator is whitespace, the parts joined hold the letters of the
/// parts put together.
pub proof fn lemma_joined_keeps_letters(parts: Seq<Seq<char>>, separator: Seq<char>)
    requires
        letters_of(separator).len() == 0,
    ensures
        letters_of(joined(parts, separator)) == letters_of(parts.flatten()),
    decreases parts.len(),
{
    if parts.len() == 0 {
    } else if parts.len() == 1 {
        parts.lemma_flatten_singleton();
    } else {
        let front = parts.drop_last();
        let last = parts.last();
        lemma_joined_keeps_letters(front, separator);
        assert(parts == front.push(last));
        front.lemma_flatten_push(last);
        Seq::filter_distributes_over_add(joined(front, separator) + separator, last, not_whitespace());
        Seq::filter_distributes_over_add(joined(front, separator), separator, not_whitespace());
        Seq::filter_distributes_over_add(front.flatten(), last, not_whitespace());
        assert(letters_of(joined(front, separator)) + letters_of(separator) == letters_of(
            joined(front, separator),
        ));
    }
}

/// Lines that are trimmed, and lines that are dropped because they are empty, take
/// no letter away.
pub proof fn lemma_trimmed_lines_keep_letters(lines: Seq<Seq<char>>)
    ensures
        letters_of(lines.map_values(trim_fn()).filter(some_text()).flatten()) == letters_of(
            lines.flatten(),
        ),
    decreases lines.len(),
{
    reveal(Seq::filter);
    if lines.len() > 0 {
        let front = lines.drop_last();
        let line = lines.last();
        let short = trimmed(line);
        assert(lines == front.push(line));
        lemma_trimmed_lines_keep_letters(front);
        front.lemma_push_map_commute(trim_fn(), line);
        let kept = front.map_values(trim_fn()).filter(some_text());
        front.map_values(trim_fn()).lemma_filter_push(short, some_text());
        front.lemma_flatten_push(line);
        Seq::filter_distributes_over_add(front.flatten(), line, not_whitespace());
        lemma_trimmed_keeps_letters(line);
        if short.len() > 0 {
            kept.lemma_flatten_push(short);
            Seq::filter_distributes_over_add(kept.flatten(), short, not_whitespace());
        } else {
            assert(letters_of(front.flatten()) + letters_of(short) == letters_of(front.flatten()));
        }
    }
}

/// The strings in a row, with `separator` between each two.
pub fn join(parts: &Vec<String>, separator: &str) -> (out: String)
    ensures
        out@ == joined(parts.deep_view(), separator@),
{
    let ghost p = parts.deep_view();
    let mut out = String::new();
    let mut i: usize = 0;
    assert(p.take(0).len() == 0);
    while i < parts.len()
        invariant
            i <= parts.len(),
            p == parts.deep_view(),
            out@ == joined(p.take(i as int), separator@),
        decreases parts.len() - i,
    {
        proof {
            let seen = p.take(i + 1);
            assert(seen.drop_last() == p.take(i as int));
            assert(seen.last() == parts[i as int]@);
            if i == 0 {
                assert(seen[0] == parts[0]@);
                assert(Seq::<char>::empty() + parts[0]@ == parts[0]@);
            }
        }
        if i > 0 {
            out.append(separator);
        }
        out.append(parts[i].as_str());
        i += 1;
    }
    assert(p.take(parts.len() as int) == p);
    out
}

} // verus!

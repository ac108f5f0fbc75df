//! The repair engine: every marker of a sentence is turned back into the
//! punctuation it stands for, the sentence is trimmed, and what is left empty is
//! dropped.
use crate::pattern::regex_replace_all;
use crate::pattern::replace_all;
use crate::rules::ABBREVIATION_MARKER;
use crate::rules::BOTH_MARK_PATTERN;
use crate::rules::BOTH_MARK_TEMPLATE;
use crate::rules::COMPOSITE_MARKER;
use crate::rules::CURLY_MARK_PATTERN;
use crate::rules::CURLY_MARK_TEMPLATE;
use crate::rules::DECIMAL_MARKER;
use crate::rules::DOUBLE_MARK_PATTERN;
use crate::rules::DOUBLE_MARK_TEMPLATE;
use crate::rules::INITIAL_MARKER;
use crate::rules::LEADING_DECIMAL_MARKER;
use crate::rules::PAREN_MARK_PATTERN;
use crate::rules::PAREN_MARK_TEMPLATE;
use crate::rules::PERIOD;
use crate::rules::SINGLE_CURLY_MARK_PATTERN;
use crate::rules::SINGLE_CURLY_MARK_TEMPLATE;
use crate::rules::SINGLE_DOUBLE_MARK_PATTERN;
use crate::rules::SINGLE_DOUBLE_MARK_TEMPLATE;
use crate::rules::SINGLE_MARK_PATTERN;
use crate::rules::SINGLE_MARK_TEMPLATE;
use crate::rules::SUSPENSION_MARKER;
use crate::rules::TITLE_MARKER;
use crate::rules::TWO_PERIODS;
use crate::text::holds;
use crate::text::lemma_trimmed_is_trimmed;
use crate::text::MARK;
use crate::text::replace;
use crate::text::replaced;
use crate::text::some_text;
use crate::text::trim;
use crate::text::trimmed;
use vstd::prelude::*;

verus! {

/// `s` with each marker of a period turned back into the periods it stands for.
pub open spec fn periods_restored(s: Seq<char>) -> Seq<char> {
    let s = replaced(s, COMPOSITE_MARKER@, PERIOD@);
    let s = replaced(s, SUSPENSION_MARKER@, TWO_PERIODS@);
    let s = replaced(s, DECIMAL_MARKER@, PERIOD@);
    let s = replaced(s, LEADING_DECIMAL_MARKER@, PERIOD@);
    let s = replaced(s, ABBREVIATION_MARKER@, PERIOD@);
    let s = replaced(s, INITIAL_MARKER@, PERIOD@);
    replaced(s, TITLE_MARKER@, PERIOD@)
}

/// `s` with each marker of a closing parenthesis or of closing quotes, and the
/// terminator after it, turned back into the terminator and the closing in the
/// order in which they stood.
pub open spec fn closings_restored(s: Seq<char>) -> Seq<char> {
    let s = regex_replace_all(PAREN_MARK_PATTERN@, s, PAREN_MARK_TEMPLATE@);
    let s = regex_replace_all(SINGLE_DOUBLE_MARK_PATTERN@, s, SINGLE_DOUBLE_MARK_TEMPLATE@);
    let s = regex_replace_all(SINGLE_CURLY_MARK_PATTERN@, s, SINGLE_CURLY_MARK_TEMPLATE@);
    let s = regex_replace_all(CURLY_MARK_PATTERN@, s, CURLY_MARK_TEMPLATE@);
    let s = regex_replace_all(BOTH_MARK_PATTERN@, s, BOTH_MARK_TEMPLATE@);
    let s = regex_replace_all(SINGLE_MARK_PATTERN@, s, SINGLE_MARK_TEMPLATE@);
    regex_replace_all(DOUBLE_MARK_PATTERN@, s, DOUBLE_MARK_TEMPLATE@)
}

/// `s` with its markers decoded. Every marker begins with the mark: where `s`
/// holds none, it stays as it is.
pub open spec fn decoded(s: Seq<char>) -> Seq<char> {
    if s.contains(MARK) {
        closings_restored(periods_restored(s))
    } else {
        s
    }
}

/// A sentence after repair: its markers decoded, then trimmed.
pub open spec fn repaired_sentence(s: Seq<char>) -> Seq<char> {
    trimmed(decoded(s))
}

/// The map from a sentence to its repair.
pub open spec fn repair_sentence_fn() -> spec_fn(Seq<char>) -> Seq<char> {
    |s: Seq<char>| repaired_sentence(s)
}

/// A paragraph after repair: its sentences repaired, the empty ones dropped.
pub open spec fn repaired_paragraph(p: Seq<Seq<char>>) -> Seq<Seq<char>> {
    p.map_values(repair_sentence_fn()).filter(some_text())
}

/// The map from a paragraph to its repair.
pub open spec fn repair_paragraph_fn() -> spec_fn(Seq<Seq<char>>) -> Seq<Seq<char>> {
    |p: Seq<Seq<char>>| repaired_paragraph(p)
}

/// The test that keeps a paragraph that is not empty.
pub open spec fn some_sentence() -> spec_fn(Seq<Seq<char>>) -> bool {
    |p: Seq<Seq<char>>| p.len() > 0
}

/// The paragraphs after repair: each repaired, the empty ones dropped.
pub open spec fn repaired(paragraphs: Seq<Seq<Seq<char>>>) -> Seq<Seq<Seq<char>>> {
    paragraphs.map_values(repair_paragraph_fn()).filter(some_sentence())
}

/// A sentence fit to be handed out: not empty, with nothing left to trim.
pub open spec fn is_clean(s: Seq<char>) -> bool {
    s.len() > 0 && trimmed(s) == s
}

/// Paragraphs fit to be handed out: none is empty, and every sentence is clean.
pub open spec fn all_clean(paragraphs: Seq<Seq<Seq<char>>>) -> bool {
    forall|k: int|
        0 <= k < paragraphs.len() ==> {
            &&& (#[trigger] paragraphs[k]).len() > 0
            &&& forall|j: int| 0 <= j < paragraphs[k].len() ==> is_clean(#[trigger] paragraphs[k][j])
        }
}

/// Every sentence of a repaired paragraph is clean.
pub proof fn lemma_repaired_paragraph_clean(p: Seq<Seq<char>>)
    ensures
        forall|j: int|
            0 <= j < repaired_paragraph(p).len() ==> is_clean(#[trigger] repaired_paragraph(p)[j]),
{
    let mapped = p.map_values(repair_sentence_fn());
    let kept = repaired_paragraph(p);
    assert forall|j: int| 0 <= j < kept.len() implies is_clean(#[trigger] kept[j]) by {
        mapped.lemma_filter_pred(some_text(), j);
        assert(kept.contains(kept[j]));
        mapped.lemma_filter_contains_rev(some_text(), kept[j]);
        let i = choose|i: int| 0 <= i < mapped.len() && mapped[i] == kept[j];
        assert(kept[j] == repaired_sentence(p[i]));
        lemma_trimmed_is_trimmed(decoded(p[i]));
    }
}

/// Whatever is repaired, no paragraph that comes out is empty and every sentence
/// that comes out is clean.
pub proof fn lemma_repaired_clean(paragraphs: Seq<Seq<Seq<char>>>)
    ensures
        all_clean(repaired(paragraphs)),
{
    let mapped = paragraphs.map_values(repair_paragraph_fn());
    let kept = repaired(paragraphs);
    assert forall|k: int| 0 <= k < kept.len() implies {
        &&& (#[trigger] kept[k]).len() > 0
        &&& forall|j: int| 0 <= j < kept[k].len() ==> is_clean(#[trigger] kept[k][j])
    } by {
        mapped.lemma_filter_pred(some_sentence(), k);
        assert(kept.contains(kept[k]));
        mapped.lemma_filter_contains_rev(some_sentence(), kept[k]);
        let i = choose|i: int| 0 <= i < mapped.len() && mapped[i] == kept[k];
        assert(kept[k] == repaired_paragraph(paragraphs[i]));
        lemma_repaired_paragraph_clean(paragraphs[i]);
    }
}

/// Decodes the markers of one sentence and trims it. A sentence without the mark
/// holds no marker and is only trimmed.
pub fn repair_sentence(sentence: &str) -> (out: String)
    ensures
        out@ == repaired_sentence(sentence@),
{
    if !holds(sentence, MARK) {
        return trim(sentence);
    }
    let s = replace(sentence, COMPOSITE_MARKER, PERIOD);
    let s = replace(s.as_str(), SUSPENSION_MARKER, TWO_PERIODS);
    let s = replace(s.as_str(), DECIMAL_MARKER, PERIOD);
    let s = replace(s.as_str(), LEADING_DECIMAL_MARKER, PERIOD);
    let s = replace(s.as_str(), ABBREVIATION_MARKER, PERIOD);
    let s = replace(s.as_str(), INITIAL_MARKER, PERIOD);
    let s = replace(s.as_str(), TITLE_MARKER, PERIOD);
    let s = replace_all(PAREN_MARK_PATTERN, s.as_str(), PAREN_MARK_TEMPLATE);
    let s = replace_all(SINGLE_DOUBLE_MARK_PATTERN, s.as_str(), SINGLE_DOUBLE_MARK_TEMPLATE);
    let s = replace_all(SINGLE_CURLY_MARK_PATTERN, s.as_str(), SINGLE_CURLY_MARK_TEMPLATE);
    let s = replace_all(CURLY_MARK_PATTERN, s.as_str(), CURLY_MARK_TEMPLATE);
    let s = replace_all(BOTH_MARK_PATTERN, s.as_str(), BOTH_MARK_TEMPLATE);
    let s = replace_all(SINGLE_MARK_PATTERN, s.as_str(), SINGLE_MARK_TEMPLATE);
    let s = replace_all(DOUBLE_MARK_PATTERN, s.as_str(), DOUBLE_MARK_TEMPLATE);
    trim(s.as_str())
}

/// Repairs the sentences of one paragraph and keeps those that are not empty.
pub fn repair_paragraph(paragraph: &Vec<String>) -> (out: Vec<String>)
    ensures
        out.deep_view() == repaired_paragraph(paragraph.deep_view()),
{
    let ghost p = paragraph.deep_view();
    let mut out: Vec<String> = Vec::new();
    let mut i: usize = 0;
    proof {
        reveal(Seq::filter);
        assert(p.take(0).map_values(repair_sentence_fn()).len() == 0);
        assert(out.deep_view() == repaired_paragraph(p.take(0)));
    }
    while i < paragraph.len()
        invariant
            i <= paragraph.len(),
            p == paragraph.deep_view(),
            out.deep_view() == repaired_paragraph(p.take(i as int)),
        decreases paragraph.len() - i,
    {
        let sentence = repair_sentence(paragraph[i].as_str());
        let ghost before = out.deep_view();
        proof {
            let seen = p.take(i as int);
            assert(p.take(i + 1) == seen.push(p[i as int]));
            seen.lemma_push_map_commute(repair_sentence_fn(), p[i as int]);
            seen.map_values(repair_sentence_fn()).lemma_filter_push(sentence@, some_text());
        }
        if !sentence.as_str().is_empty() {
            out.push(sentence);
            assert(out.deep_view() == before.push(sentence@));
        }
        i += 1;
    }
    assert(p.take(paragraph.len() as int) == p);
    out
}

/// Repairs every sentence of every paragraph, keeps the sentences that are not
/// empty, and keeps the paragraphs that still hold one.
pub fn repair_sentences(paragraphs: Vec<Vec<String>>) -> (out: Vec<Vec<String>>)
    ensures
        out.deep_view() == repaired(paragraphs.deep_view()),
        all_clean(out.deep_view()),
{
    let ghost ps = paragraphs.deep_view();
    let mut out: Vec<Vec<String>> = Vec::new();
    let mut i: usize = 0;
    proof {
        reveal(Seq::filter);
        assert(ps.take(0).map_values(repair_paragraph_fn()).len() == 0);
        assert(out.deep_view() == repaired(ps.take(0)));
    }
    while i < paragraphs.len()
        invariant
            i <= paragraphs.len(),
            ps == paragraphs.deep_view(),
            out.deep_view() == repaired(ps.take(i as int)),
        decreases paragraphs.len() - i,
    {
        let paragraph = repair_paragraph(&paragraphs[i]);
        let ghost before = out.deep_view();
        proof {
            let seen = ps.take(i as int);
            assert(ps.take(i + 1) == seen.push(ps[i as int]));
            seen.lemma_push_map_commute(repair_paragraph_fn(), ps[i as int]);
            seen.map_values(repair_paragraph_fn()).lemma_filter_push(
                paragraph.deep_view(),
                some_sentence(),
            );
        }
        if paragraph.len() > 0 {
            out.push(paragraph);
            assert(out.deep_view() == before.push(paragraph.deep_view()));
        }
        i += 1;
    }
    proof {
        assert(ps.take(paragraphs.len() as int) == ps);
        lemma_repaired_clean(ps);
    }
    out
}

} // verus!

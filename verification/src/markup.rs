//! From markup to the plain text that is cut into sentences: character entities
//! are decoded, comments and tags cleared away, headings set on lines of their own,
//! common abbreviations freed of their periods, and lines and blank lines tidied.
use crate::katana::cut;
use crate::katana::cut_of;
use crate::pattern::regex_replace_all;
use crate::pattern::regex_set_matches;
use crate::pattern::replace_all;
use crate::pattern::set_matches;
use crate::rules::abbreviation_patterns;
use crate::rules::ABBREVIATIONS;
use crate::rules::ABBREVIATION_COUNT;
use crate::rules::BLANK_LINE;
use crate::rules::BLANK_LINE_PATTERN;
use crate::rules::COMMENT_PATTERN;
use crate::rules::DOUBLE_SPACE_PATTERN;
use crate::rules::HEADING_PATTERN;
use crate::rules::HEADING_TEMPLATE;
use crate::rules::NEWLINE;
use crate::rules::NEWLINES_PATTERN;
use crate::rules::NOTHING;
use crate::rules::REFERENCE_PATTERN;
use crate::rules::SPACE;
use crate::rules::TAG_PATTERN;
use crate::text::begins_with;
use crate::text::join;
use crate::text::joined;
use crate::text::lemma_replaced_without;
use crate::text::lines_of;
use crate::text::replace;
use crate::text::replaced;
use crate::text::some_text;
use crate::text::split_lines;
use crate::text::starts_with;
use crate::text::trim;
use crate::text::trim_fn;
use vstd::prelude::*;

verus! {

pub const ENTITY_COUNT: usize = 100;

/// The character entities that are decoded, each with the text it stands for, in
/// the order in which they are decoded.
pub const ENTITIES: [(&'static str, &'static str); ENTITY_COUNT] = [
    ("&nbsp;", " "),
    ("&amp;", "&"),
    ("&lt;", "<"),
    ("&gt;", ">"),
    ("&quot;", "\""),
    ("&#39;", "'"),
    ("&apos;", "'"),
    ("&cent;", "¢"),
    ("&pound;", "£"),
    ("&yen;", "¥"),
    ("&euro;", "€"),
    ("&copy;", "©"),
    ("&reg;", "®"),
    ("&sect;", "§"),
    ("&uml;", "¨"),
    ("&ordf;", "ª"),
    ("&laquo;", "«"),
    ("&not;", "¬"),
    ("&shy;", "\u{ad}"),
    ("&macr;", "¯"),
    ("&deg;", "°"),
    ("&plusmn;", "±"),
    ("&sup2;", "²"),
    ("&sup3;", "³"),
    ("&acute;", "´"),
    ("&micro;", "µ"),
    ("&para;", "¶"),
    ("&middot;", "·"),
    ("&cedil;", "¸"),
    ("&sup1;", "¹"),
    ("&ordm;", "º"),
    ("&raquo;", "»"),
    ("&frac14;", "¼"),
    ("&frac12;", "½"),
    ("&frac34;", "¾"),
    ("&iquest;", "¿"),
    ("&Agrave;", "À"),
    ("&Aacute;", "Á"),
    ("&Acirc;", "Â"),
    ("&Atilde;", "Ã"),
    ("&Auml;", "Ä"),
    ("&Aring;", "Å"),
    ("&AElig;", "Æ"),
    ("&Ccedil;", "Ç"),
    ("&Egrave;", "È"),
    ("&Eacute;", "É"),
    ("&Ecirc;", "Ê"),
    ("&Euml;", "Ë"),
    ("&Igrave;", "Ì"),
    ("&Iacute;", "Í"),
    ("&Icirc;", "Î"),
    ("&Iuml;", "Ï"),
    ("&ETH;", "Ð"),
    ("&Ntilde;", "Ñ"),
    ("&Ograve;", "Ò"),
    ("&Oacute;", "Ó"),
    ("&Ocirc;", "Ô"),
    ("&Otilde;", "Õ"),
    ("&Ouml;", "Ö"),
    ("&times;", "×"),
    ("&Oslash;", "Ø"),
    ("&Ugrave;", "Ù"),
    ("&Uacute;", "Ú"),
    ("&Ucirc;", "Û"),
    ("&Uuml;", "Ü"),
    ("&Yacute;", "Ý"),
    ("&THORN;", "Þ"),
    ("&szlig;", "ß"),
    ("&agrave;", "à"),
    ("&aacute;", "á"),
    ("&acirc;", "â"),
    ("&atilde;", "ã"),
    ("&auml;", "ä"),
    ("&aring;", "å"),
    ("&aelig;", "æ"),
    ("&ccedil;", "ç"),
    ("&egrave;", "è"),
    ("&eacute;", "é"),
    ("&ecirc;", "ê"),
    ("&euml;", "ë"),
    ("&igrave;", "ì"),
    ("&iacute;", "í"),
    ("&icirc;", "î"),
    ("&iuml;", "ï"),
    ("&eth;", "ð"),
    ("&ntilde;", "ñ"),
    ("&ograve;", "ò"),
    ("&oacute;", "ó"),
    ("&ocirc;", "ô"),
    ("&otilde;", "õ"),
    ("&ouml;", "ö"),
    ("&divide;", "÷"),
    ("&oslash;", "ø"),
    ("&ugrave;", "ù"),
    ("&uacute;", "ú"),
    ("&ucirc;", "û"),
    ("&uuml;", "ü"),
    ("&yacute;", "ý"),
    ("&thorn;", "þ"),
    ("&yuml;", "ÿ"),
];

/// `s` with the first `n` entities decoded, one after the other.
pub open spec fn unescaped_by(s: Seq<char>, n: int) -> Seq<char>
    decreases n,
{
    if n <= 0 {
        s
    } else {
        replaced(unescaped_by(s, n - 1), ENTITIES@[n - 1].0@, ENTITIES@[n - 1].1@)
    }
}

/// `s` with every entity decoded, one after the other.
pub open spec fn unescaped(s: Seq<char>) -> Seq<char> {
    unescaped_by(s, ENTITY_COUNT as int)
}

/// Decodes the character entities of a markup text, one entity after the other in
/// the order of the table: every occurrence of the first, then every occurrence
/// of the second in what this left, and so on.
pub fn unescape_html(html_string: &str) -> (out: String)
    ensures
        out@ == unescaped(html_string@),
{
    let mut out = html_string.to_owned();
    let mut i: usize = 0;
    while i < ENTITY_COUNT
        invariant
            i <= ENTITY_COUNT,
            out@ == unescaped_by(html_string@, i as int),
        decreases ENTITY_COUNT - i,
    {
        let entity = ENTITIES[i];
        out = replace(out.as_str(), entity.0, entity.1);
        i += 1;
    }
    out
}

/// `text` with the abbreviations of the given indices freed of their periods, one
/// after the other.
pub open spec fn shortened(text: Seq<char>, hits: Seq<usize>) -> Seq<char>
    decreases hits.len(),
{
    if hits.len() == 0 {
        text
    } else {
        let i = hits.last() as int;
        replaced(shortened(text, hits.drop_last()), ABBREVIATIONS@[i].0@, ABBREVIATIONS@[i].1@)
    }
}

/// `text` with the abbreviations freed of their periods whose pattern matches
/// somewhere in it.
pub open spec fn abbreviations_replaced(text: Seq<char>) -> Seq<char> {
    shortened(text, regex_set_matches(abbreviation_patterns(), text))
}

/// Every abbreviation of the table holds a period.
pub proof fn lemma_abbreviations_hold_period(i: int)
    requires
        0 <= i < ABBREVIATION_COUNT,
    ensures
        ABBREVIATIONS@[i].0@.contains('.'),
{
    reveal_strlit("i.e.");
    reveal_strlit("e.g.");
    reveal_strlit("etc.");
    reveal_strlit("mr.");
    reveal_strlit("mrs.");
    reveal_strlit("vs.");
    reveal_strlit("dr.");
    reveal_strlit("prof.");
    reveal_strlit("sr.");
    reveal_strlit("jr.");
    reveal_strlit("st.");
    reveal_strlit("jan.");
    reveal_strlit("feb.");
    reveal_strlit("mar.");
    reveal_strlit("apr.");
    reveal_strlit("jun.");
    reveal_strlit("jul.");
    reveal_strlit("aug.");
    reveal_strlit("sept.");
    reveal_strlit("oct.");
    reveal_strlit("nov.");
    reveal_strlit("dec.");
    reveal_strlit("a.m.");
    reveal_strlit("p.m.");
    reveal_strlit("u.s.");
    reveal_strlit("u.k.");
    let name = ABBREVIATIONS@[i].0@;
    assert(name.len() > 0 && name.last() == '.');
}

/// In a text without a period no abbreviation is found: whichever abbreviations
/// of the table are dealt with, the text stays as it is.
pub proof fn lemma_shortened_without_period(text: Seq<char>, hits: Seq<usize>)
    requires
        !text.contains('.'),
        forall|k: int| 0 <= k < hits.len() ==> hits[k] < ABBREVIATION_COUNT,
    ensures
        shortened(text, hits) == text,
    decreases hits.len(),
{
    if hits.len() > 0 {
        let i = hits.last() as int;
        lemma_shortened_without_period(text, hits.drop_last());
        lemma_abbreviations_hold_period(i);
        lemma_replaced_without(text, ABBREVIATIONS@[i].0@, ABBREVIATIONS@[i].1@, '.');
    }
}

/// Frees of their periods the abbreviations with the given indices into the table,
/// one after the other: every occurrence of the first, then every occurrence of
/// the second in what this left, and so on.
pub fn replace_matched_abbreviations(text: &str, hits: &Vec<usize>) -> (out: String)
    requires
        forall|k: int| 0 <= k < hits.len() ==> hits[k] < ABBREVIATION_COUNT,
    ensures
        out@ == shortened(text@, hits@),
{
    let mut out = text.to_owned();
    let mut k: usize = 0;
    assert(hits@.take(0).len() == 0);
    while k < hits.len()
        invariant
            k <= hits.len(),
            forall|j: int| 0 <= j < hits.len() ==> hits[j] < ABBREVIATION_COUNT,
            out@ == shortened(text@, hits@.take(k as int)),
        decreases hits.len() - k,
    {
        let pair = ABBREVIATIONS[hits[k]];
        proof {
            let seen = hits@.take(k + 1);
            assert(seen.drop_last() == hits@.take(k as int));
            assert(seen.last() == hits[k as int]);
        }
        out = replace(out.as_str(), pair.0, pair.1);
        k += 1;
    }
    assert(hits@.take(hits.len() as int) == hits@);
    out
}

/// Frees common abbreviations of their periods. An abbreviation is dealt with
/// where it, read as a pattern, matches somewhere in the text as it came in; the
/// abbreviations found are some of the table. A text without a period comes back
/// as it is.
pub fn replace_abbreviations(text: &str) -> (out: String)
    ensures
        out@ == abbreviations_replaced(text@),
        forall|k: int|
            0 <= k < regex_set_matches(abbreviation_patterns(), text@).len() ==> (
            #[trigger] regex_set_matches(abbreviation_patterns(), text@)[k]) < ABBREVIATION_COUNT,
        !text@.contains('.') ==> out@ == text@,
{
    let mut patterns: Vec<&'static str> = Vec::new();
    let mut i: usize = 0;
    while i < ABBREVIATION_COUNT
        invariant
            i <= ABBREVIATION_COUNT,
            patterns.len() == i,
            forall|j: int| 0 <= j < i ==> patterns[j]@ == ABBREVIATIONS@[j].0@,
        decreases ABBREVIATION_COUNT - i,
    {
        patterns.push(ABBREVIATIONS[i].0);
        i += 1;
    }
    assert(patterns.deep_view() == abbreviation_patterns());
    let hits = set_matches(&patterns, text);
    proof {
        if !text@.contains('.') {
            lemma_shortened_without_period(text@, hits@);
        }
    }
    replace_matched_abbreviations(text, &hits)
}

/// The mark of a line that is a note: a caret and two spaces.
pub const NOTE_MARK: &'static str = "^  ";

/// The test that keeps a line that is no note.
pub open spec fn no_note() -> spec_fn(Seq<char>) -> bool {
    |s: Seq<char>| !begins_with(s, NOTE_MARK@)
}

/// The lines of `text`, each trimmed, without the notes, with a newline between
/// each two.
pub open spec fn lines_tidied(text: Seq<char>) -> Seq<char> {
    joined(lines_of(text).map_values(trim_fn()).filter(no_note()), NEWLINE@)
}

/// The lines of `text`, each trimmed, without the empty ones, with a space between
/// each two.
pub open spec fn lines_joined(text: Seq<char>) -> Seq<char> {
    joined(lines_of(text).map_values(trim_fn()).filter(some_text()), SPACE@)
}

/// Trims every line, drops the lines that begin with a caret and two spaces, and
/// puts the others together again.
pub fn tidy_lines(text: &str) -> (out: String)
    ensures
        out@ == lines_tidied(text@),
{
    let lines = split_lines(text);
    let ghost all = lines.deep_view();
    let mut kept: Vec<String> = Vec::new();
    let mut i: usize = 0;
    proof {
        reveal(Seq::filter);
        assert(all.take(0).map_values(trim_fn()).len() == 0);
        assert(kept.deep_view() == all.take(0).map_values(trim_fn()).filter(no_note()));
    }
    while i < lines.len()
        invariant
            i <= lines.len(),
            all == lines.deep_view(),
            kept.deep_view() == all.take(i as int).map_values(trim_fn()).filter(no_note()),
        decreases lines.len() - i,
    {
        let line = trim(lines[i].as_str());
        let ghost before = kept.deep_view();
        proof {
            let seen = all.take(i as int);
            assert(all.take(i + 1) == seen.push(all[i as int]));
            seen.lemma_push_map_commute(trim_fn(), all[i as int]);
            seen.map_values(trim_fn()).lemma_filter_push(line@, no_note());
        }
        if !starts_with(line.as_str(), NOTE_MARK) {
            kept.push(line);
            assert(kept.deep_view() == before.push(line@));
        }
        i += 1;
    }
    assert(all.take(lines.len() as int) == all);
    join(&kept, NEWLINE)
}

/// Trims every line, drops the empty ones, and puts the others on one line.
pub fn join_lines(text: &str) -> (out: String)
    ensures
        out@ == lines_joined(text@),
{
    let lines = split_lines(text);
    let ghost all = lines.deep_view();
    let mut kept: Vec<String> = Vec::new();
    let mut i: usize = 0;
    proof {
        reveal(Seq::filter);
        assert(all.take(0).map_values(trim_fn()).len() == 0);
        assert(kept.deep_view() == all.take(0).map_values(trim_fn()).filter(some_text()));
    }
    while i < lines.len()
        invariant
            i <= lines.len(),
            all == lines.deep_view(),
            kept.deep_view() == all.take(i as int).map_values(trim_fn()).filter(some_text()),
        decreases lines.len() - i,
    {
        let line = trim(lines[i].as_str());
        let ghost before = kept.deep_view();
        proof {
            let seen = all.take(i as int);
            assert(all.take(i + 1) == seen.push(all[i as int]));
            seen.lemma_push_map_commute(trim_fn(), all[i as int]);
            seen.map_values(trim_fn()).lemma_filter_push(line@, some_text());
        }
        if !line.as_str().is_empty() {
            kept.push(line);
            assert(kept.deep_view() == before.push(line@));
        }
        i += 1;
    }
    assert(all.take(lines.len() as int) == all);
    join(&kept, SPACE)
}

/// A markup text turned into plain text, step by step.
pub open spec fn tags_removed(html: Seq<char>) -> Seq<char> {
    let text = regex_replace_all(COMMENT_PATTERN@, html, NOTHING@);
    let text = regex_replace_all(HEADING_PATTERN@, text, HEADING_TEMPLATE@);
    let text = unescaped(text);
    let text = regex_replace_all(TAG_PATTERN@, text, SPACE@);
    let text = regex_replace_all(DOUBLE_SPACE_PATTERN@, text, SPACE@);
    let text = abbreviations_replaced(text);
    let text = regex_replace_all(BLANK_LINE_PATTERN@, text, BLANK_LINE@);
    let text = regex_replace_all(REFERENCE_PATTERN@, text, NOTHING@);
    let text = lines_tidied(text);
    regex_replace_all(NEWLINES_PATTERN@, text, BLANK_LINE@)
}

/// Turns a markup text into plain text: comments go; a heading gives way to what
/// it holds and two newlines; entities are decoded; a tag gives way to a space;
/// two spaces become one; abbreviations lose their periods; whitespace between two
/// newlines goes; numbers in square brackets go; lines are trimmed and notes
/// dropped; and three newlines or more become two.
pub fn remove_html_tags(html_string: &str) -> (out: String)
    ensures
        out@ == tags_removed(html_string@),
{
    let text = replace_all(COMMENT_PATTERN, html_string, NOTHING);
    let text = replace_all(HEADING_PATTERN, text.as_str(), HEADING_TEMPLATE);
    let text = unescape_html(text.as_str());
    let text = replace_all(TAG_PATTERN, text.as_str(), SPACE);
    let text = replace_all(DOUBLE_SPACE_PATTERN, text.as_str(), SPACE);
    let text = replace_abbreviations(text.as_str());
    let text = replace_all(BLANK_LINE_PATTERN, text.as_str(), BLANK_LINE);
    let text = replace_all(REFERENCE_PATTERN, text.as_str(), NOTHING);
    let text = tidy_lines(text.as_str());
    replace_all(NEWLINES_PATTERN, text.as_str(), BLANK_LINE)
}

/// The map from a paragraph to its sentences on one line.
pub open spec fn line_fn() -> spec_fn(Seq<Seq<char>>) -> Seq<char> {
    |p: Seq<Seq<char>>| joined(p, SPACE@)
}

/// The paragraphs as one text: a space between two sentences, a blank line between
/// two paragraphs.
pub open spec fn rendered(paragraphs: Seq<Seq<Seq<char>>>) -> Seq<char> {
    joined(paragraphs.map_values(line_fn()), BLANK_LINE@)
}

/// Writes the paragraphs as one text.
pub fn render_paragraphs(paragraphs: &Vec<Vec<String>>) -> (out: String)
    ensures
        out@ == rendered(paragraphs.deep_view()),
{
    let ghost all = paragraphs.deep_view();
    let mut lines: Vec<String> = Vec::new();
    let mut i: usize = 0;
    assert(lines.deep_view() == all.take(0).map_values(line_fn()));
    while i < paragraphs.len()
        invariant
            i <= paragraphs.len(),
            all == paragraphs.deep_view(),
            lines.deep_view() == all.take(i as int).map_values(line_fn()),
        decreases paragraphs.len() - i,
    {
        let line = join(&paragraphs[i], SPACE);
        let ghost before = lines.deep_view();
        proof {
            let seen = all.take(i as int);
            assert(all.take(i + 1) == seen.push(all[i as int]));
            seen.lemma_push_map_commute(line_fn(), all[i as int]);
        }
        lines.push(line);
        assert(lines.deep_view() == before.push(line@));
        i += 1;
    }
    assert(all.take(paragraphs.len() as int) == all);
    join(&lines, BLANK_LINE)
}

/// Clears the markup away, cuts what is left into sentences, and writes them as
/// one text.
pub fn prepare_markdown(markdown: &str) -> (out: String)
    ensures
        out@ == rendered(cut_of(tags_removed(markdown@))),
{
    let text = remove_html_tags(markdown);
    let paragraphs = cut(&text);
    render_paragraphs(&paragraphs)
}

} // verus!

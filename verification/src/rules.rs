//! The patterns and the replacement templates of the rewrite rules, each written
//! once. A pattern is a regular expression; a template is a replacement string in
//! which `$name` or `${name}` stands for what the group `name` matched and `$$` for
//! a dollar sign.
use crate::text::MARK;
use vstd::prelude::*;

verus! {

/// A period after "et al." that is itself followed by a period.
pub const COMPOSITE_PATTERN: &'static str = r"(?P<comp>et al\.)(?:\.)";

pub const COMPOSITE_TEMPLATE: &'static str = "$comp&;&";

/// Three periods in a row.
pub const SUSPENSION_PATTERN: &'static str = r"\.{3}";

pub const SUSPENSION_TEMPLATE: &'static str = "&&&.";

/// A period between two runs of digits.
pub const DECIMAL_PATTERN: &'static str = r"(?P<number>[0-9]+)\.(?P<decimal>[0-9]+)";

pub const DECIMAL_TEMPLATE: &'static str = "$number&@&$decimal";

/// A period after a whitespace character and before a run of digits.
pub const LEADING_DECIMAL_PATTERN: &'static str = r"(?P<space>\s)\.(?P<nums>[0-9]+)";

pub const LEADING_DECIMAL_TEMPLATE: &'static str = "${space}&#&$nums";

/// Two or more letters in a row, each followed by a period.
pub const ABBREVIATION_PATTERN: &'static str = r"(?:[A-Za-z]\.){2,}";

/// The marker of a period inside an abbreviation.
pub const ABBREVIATION_MARKER: &'static str = "&-&";

/// A period after one capital letter.
pub const INITIAL_PATTERN: &'static str = r"(?P<init>[A-Z])(?P<point>\.)";

pub const INITIAL_TEMPLATE: &'static str = "$init&_&";

/// A period after a capital letter and one to three small letters.
pub const TITLE_PATTERN: &'static str = r"(?P<title>[A-Z][a-z]{1,3})(\.)";

pub const TITLE_TEMPLATE: &'static str = "$title&*&";

/// A terminator followed at once by a character that is neither whitespace nor a
/// straight quote.
pub const UNSTICK_PATTERN: &'static str = r##"(?P<left>[^.?!]\.|!|\?)(?P<right>[^\s"'])"##;

pub const UNSTICK_TEMPLATE: &'static str = "$left $right";

/// A terminator before a closing parenthesis.
pub const PAREN_PATTERN: &'static str = r##"(?P<bef>[.?!])\s?\)"##;

pub const PAREN_TEMPLATE: &'static str = "&==&$bef";

/// A terminator between a straight single and a straight double quote.
pub const SINGLE_DOUBLE_PATTERN: &'static str = r##"'(?P<quote>[.?!])\s?""##;

pub const SINGLE_DOUBLE_TEMPLATE: &'static str = "&^&$quote";

/// A terminator between a straight single and a typographic double quote.
pub const SINGLE_CURLY_PATTERN: &'static str = r##"'(?P<quote>[.?!])\s?”"##;

pub const SINGLE_CURLY_TEMPLATE: &'static str = "&**&$quote";

/// A terminator before a typographic double quote.
pub const CURLY_PATTERN: &'static str = r##"(?P<quote>[.?!])\s?”"##;

pub const CURLY_TEMPLATE: &'static str = "&=&$quote";

/// A terminator before a straight single quote and a straight double quote.
pub const BOTH_PATTERN: &'static str = r##"(?P<quote>[.?!])\s?'""##;

pub const BOTH_TEMPLATE: &'static str = "&,&$quote";

/// A terminator before a straight single quote.
pub const SINGLE_PATTERN: &'static str = r##"(?P<quote>[.?!])\s?'"##;

pub const SINGLE_TEMPLATE: &'static str = "&##&$quote";

/// A terminator before a straight double quote.
pub const DOUBLE_PATTERN: &'static str = r##"(?P<quote>[.?!])\s?""##;

pub const DOUBLE_TEMPLATE: &'static str = "&$$&$quote";

/// The marker of the period after "et al.".
pub const COMPOSITE_MARKER: &'static str = "&;&";

/// The marker of the first two of three periods in a row.
pub const SUSPENSION_MARKER: &'static str = "&&&";

/// The marker of a decimal point.
pub const DECIMAL_MARKER: &'static str = "&@&";

/// The marker of a decimal point that no digit precedes.
pub const LEADING_DECIMAL_MARKER: &'static str = "&#&";

/// The marker of the period after an initial.
pub const INITIAL_MARKER: &'static str = "&_&";

/// The marker of the period after a short title.
pub const TITLE_MARKER: &'static str = "&*&";

/// The marker of a closing parenthesis after a terminator.
pub const PAREN_MARKER: &'static str = "&==&";

/// The marker of a straight single and a straight double quote around a terminator.
pub const SINGLE_DOUBLE_MARKER: &'static str = "&^&";

/// The marker of a straight single and a typographic double quote around a
/// terminator.
pub const SINGLE_CURLY_MARKER: &'static str = "&**&";

/// The marker of a typographic double quote after a terminator.
pub const CURLY_MARKER: &'static str = "&=&";

/// The marker of a straight single and a straight double quote after a terminator.
pub const BOTH_MARKER: &'static str = "&,&";

/// The marker of a straight single quote after a terminator.
pub const SINGLE_MARKER: &'static str = "&##&";

/// The marker of a straight double quote after a terminator.
pub const DOUBLE_MARKER: &'static str = "&$&";

pub const PERIOD: &'static str = ".";

pub const TWO_PERIODS: &'static str = "..";

/// The marker of a closing parenthesis after a terminator, with that terminator.
pub const PAREN_MARK_PATTERN: &'static str = r"&==&(?P<p>[.!?])";

pub const PAREN_MARK_TEMPLATE: &'static str = "$1)";

pub const SINGLE_DOUBLE_MARK_PATTERN: &'static str = r"&\^&(?P<p>[.!?])";

pub const SINGLE_DOUBLE_MARK_TEMPLATE: &'static str = r##"'$p""##;

pub const SINGLE_CURLY_MARK_PATTERN: &'static str = r"&\*\*&(?P<p>[.!?])";

pub const SINGLE_CURLY_MARK_TEMPLATE: &'static str = r##"'$p”"##;

pub const CURLY_MARK_PATTERN: &'static str = r"&=&(?P<p>[.!?])";

pub const CURLY_MARK_TEMPLATE: &'static str = r##"$p”"##;

pub const BOTH_MARK_PATTERN: &'static str = r"&,&(?P<p>[.!?])";

pub const BOTH_MARK_TEMPLATE: &'static str = r##"$p'""##;

pub const SINGLE_MARK_PATTERN: &'static str = r"&##&(?P<p>[.!?])";

pub const SINGLE_MARK_TEMPLATE: &'static str = r##"$p'"##;

pub const DOUBLE_MARK_PATTERN: &'static str = r"&\$&(?P<p>[.!?])";

pub const DOUBLE_MARK_TEMPLATE: &'static str = r##"$p""##;

/// A comment of a markup text.
pub const COMMENT_PATTERN: &'static str = r"(?s)<!--(.*?)-->";

/// A heading of a markup text, with its opening and closing tags.
pub const HEADING_PATTERN: &'static str = r"(?s)<h[1-6]>(.*?)</h[1-6]>";

/// What a heading had between its tags, and two newlines.
pub const HEADING_TEMPLATE: &'static str = "$1\n\n";

/// A tag of a markup text.
pub const TAG_PATTERN: &'static str = r"<(.*?)>";

pub const DOUBLE_SPACE_PATTERN: &'static str = r"  ";

/// Two newlines with nothing but whitespace between them.
pub const BLANK_LINE_PATTERN: &'static str = r"\n\s*?\n";

/// A number in square brackets, with one whitespace character before and after it
/// where there is one.
pub const REFERENCE_PATTERN: &'static str = r"\s?\[[0-9]+\]\s?";

/// Three or more newlines in a row.
pub const NEWLINES_PATTERN: &'static str = r"\n{3,}";

pub const NOTHING: &'static str = "";

pub const SPACE: &'static str = " ";

pub const NEWLINE: &'static str = "\n";

pub const BLANK_LINE: &'static str = "\n\n";

pub const ABBREVIATION_COUNT: usize = 26;

/// The abbreviations that lose their periods, each with what it becomes. The first
/// of each pair is also read as a pattern, in which a period stands for any
/// character but the newline.
pub const ABBREVIATIONS: [(&'static str, &'static str); ABBREVIATION_COUNT] = [
    ("i.e.", "ie"),
    ("e.g.", "eg"),
    ("etc.", "etc"),
    ("mr.", "mr"),
    ("mrs.", "mrs"),
    ("vs.", "vs"),
    ("dr.", "dr"),
    ("prof.", "prof"),
    ("sr.", "sr"),
    ("jr.", "jr"),
    ("st.", "st"),
    ("jan.", "jan"),
    ("feb.", "feb"),
    ("mar.", "mar"),
    ("apr.", "apr"),
    ("jun.", "jun"),
    ("jul.", "jul"),
    ("aug.", "aug"),
    ("sept.", "sept"),
    ("oct.", "oct"),
    ("nov.", "nov"),
    ("dec.", "dec"),
    ("a.m.", "am"),
    ("p.m.", "pm"),
    ("u.s.", "us"),
    ("u.k.", "uk"),
];

/// The abbreviations as patterns, in their order.
pub open spec fn abbreviation_patterns() -> Seq<Seq<char>> {
    Seq::new(ABBREVIATION_COUNT as nat, |i: int| ABBREVIATIONS@[i].0@)
}

/// The markers, in the order of their rules.
pub open spec fn markers() -> Seq<Seq<char>> {
    seq![
        COMPOSITE_MARKER@,
        SUSPENSION_MARKER@,
        DECIMAL_MARKER@,
        LEADING_DECIMAL_MARKER@,
        ABBREVIATION_MARKER@,
        INITIAL_MARKER@,
        TITLE_MARKER@,
        PAREN_MARKER@,
        SINGLE_DOUBLE_MARKER@,
        SINGLE_CURLY_MARKER@,
        CURLY_MARKER@,
        BOTH_MARKER@,
        SINGLE_MARKER@,
        DOUBLE_MARKER@,
    ]
}

/// No two rules share a marker.
pub proof fn lemma_markers_differ()
    ensures
        forall|i: int, j: int| 0 <= i < j < markers().len() ==> markers()[i] != markers()[j],
{
    reveal_strlit("&;&");
    reveal_strlit("&&&");
    reveal_strlit("&@&");
    reveal_strlit("&#&");
    reveal_strlit("&-&");
    reveal_strlit("&_&");
    reveal_strlit("&*&");
    reveal_strlit("&==&");
    reveal_strlit("&^&");
    reveal_strlit("&**&");
    reveal_strlit("&=&");
    reveal_strlit("&,&");
    reveal_strlit("&##&");
    reveal_strlit("&$&");
    let m = markers();
    assert forall|i: int, j: int| 0 <= i < j < m.len() implies m[i] != m[j] by {
        assert(m[i].len() != m[j].len() || m[i][1] != m[j][1]);
    }
}

/// Every marker begins and ends with the mark.
pub proof fn lemma_markers_hold_mark()
    ensures
        forall|i: int|
            0 <= i < markers().len() ==> (#[trigger] markers()[i]).first() == MARK
                && markers()[i].last() == MARK,
{
    reveal_strlit("&;&");
    reveal_strlit("&&&");
    reveal_strlit("&@&");
    reveal_strlit("&#&");
    reveal_strlit("&-&");
    reveal_strlit("&_&");
    reveal_strlit("&*&");
    reveal_strlit("&==&");
    reveal_strlit("&^&");
    reveal_strlit("&**&");
    reveal_strlit("&=&");
    reveal_strlit("&,&");
    reveal_strlit("&##&");
    reveal_strlit("&$&");
}

/// Each template of a protecting rule writes the marker of its rule, beside what
/// the rule keeps of the match. In the template for the straight double quote the
/// marker's dollar sign is written twice, as a template has it.
pub proof fn lemma_templates_write_markers()
    ensures
        COMPOSITE_TEMPLATE@ == "$comp"@ + COMPOSITE_MARKER@,
        SUSPENSION_TEMPLATE@ == SUSPENSION_MARKER@ + PERIOD@,
        DECIMAL_TEMPLATE@ == "$number"@ + DECIMAL_MARKER@ + "$decimal"@,
        LEADING_DECIMAL_TEMPLATE@ == "${space}"@ + LEADING_DECIMAL_MARKER@ + "$nums"@,
        INITIAL_TEMPLATE@ == "$init"@ + INITIAL_MARKER@,
        TITLE_TEMPLATE@ == "$title"@ + TITLE_MARKER@,
        PAREN_TEMPLATE@ == PAREN_MARKER@ + "$bef"@,
        SINGLE_DOUBLE_TEMPLATE@ == SINGLE_DOUBLE_MARKER@ + "$quote"@,
        SINGLE_CURLY_TEMPLATE@ == SINGLE_CURLY_MARKER@ + "$quote"@,
        CURLY_TEMPLATE@ == CURLY_MARKER@ + "$quote"@,
        BOTH_TEMPLATE@ == BOTH_MARKER@ + "$quote"@,
        SINGLE_TEMPLATE@ == SINGLE_MARKER@ + "$quote"@,
        DOUBLE_TEMPLATE@ == DOUBLE_MARKER@.insert(1, '$') + "$quote"@,
{
    reveal_strlit("&;&");
    reveal_strlit("&&&");
    reveal_strlit("&@&");
    reveal_strlit("&#&");
    reveal_strlit("&_&");
    reveal_strlit("&*&");
    reveal_strlit("&==&");
    reveal_strlit("&^&");
    reveal_strlit("&**&");
    reveal_strlit("&=&");
    reveal_strlit("&,&");
    reveal_strlit("&##&");
    reveal_strlit("&$&");
    reveal_strlit(".");
    reveal_strlit("${space}");
    reveal_strlit("$comp");
    reveal_strlit("$number");
    reveal_strlit("$decimal");
    reveal_strlit("$nums");
    reveal_strlit("$init");
    reveal_strlit("$title");
    reveal_strlit("$bef");
    reveal_strlit("$quote");
    reveal_strlit("$comp&;&");
    reveal_strlit("&&&.");
    reveal_strlit("$number&@&$decimal");
    reveal_strlit("${space}&#&$nums");
    reveal_strlit("$init&_&");
    reveal_strlit("$title&*&");
    reveal_strlit("&==&$bef");
    reveal_strlit("&^&$quote");
    reveal_strlit("&**&$quote");
    reveal_strlit("&=&$quote");
    reveal_strlit("&,&$quote");
    reveal_strlit("&##&$quote");
    reveal_strlit("&$$&$quote");
}

/// The patterns of the rules that protect ambiguous punctuation.
pub open spec fn is_protection_pattern(p: Seq<char>) -> bool {
    ||| p == COMPOSITE_PATTERN@
    ||| p == SUSPENSION_PATTERN@
    ||| p == DECIMAL_PATTERN@
    ||| p == LEADING_DECIMAL_PATTERN@
    ||| p == ABBREVIATION_PATTERN@
    ||| p == INITIAL_PATTERN@
    ||| p == TITLE_PATTERN@
    ||| p == UNSTICK_PATTERN@
    ||| p == PAREN_PATTERN@
    ||| p == SINGLE_DOUBLE_PATTERN@
    ||| p == SINGLE_CURLY_PATTERN@
    ||| p == CURLY_PATTERN@
    ||| p == BOTH_PATTERN@
    ||| p == SINGLE_PATTERN@
    ||| p == DOUBLE_PATTERN@
}

/// The patterns of the rules that turn markers back into punctuation.
pub open spec fn is_repair_pattern(p: Seq<char>) -> bool {
    ||| p == PAREN_MARK_PATTERN@
    ||| p == SINGLE_DOUBLE_MARK_PATTERN@
    ||| p == SINGLE_CURLY_MARK_PATTERN@
    ||| p == CURLY_MARK_PATTERN@
    ||| p == BOTH_MARK_PATTERN@
    ||| p == SINGLE_MARK_PATTERN@
    ||| p == DOUBLE_MARK_PATTERN@
}

/// The patterns of the rules that clear markup away.
pub open spec fn is_markup_pattern(p: Seq<char>) -> bool {
    ||| p == COMMENT_PATTERN@
    ||| p == HEADING_PATTERN@
    ||| p == TAG_PATTERN@
    ||| p == DOUBLE_SPACE_PATTERN@
    ||| p == BLANK_LINE_PATTERN@
    ||| p == REFERENCE_PATTERN@
    ||| p == NEWLINES_PATTERN@
}

/// The patterns that this library hands to the regular-expression engine one by
/// one.
pub open spec fn is_rule_pattern(p: Seq<char>) -> bool {
    is_protection_pattern(p) || is_repair_pattern(p) || is_markup_pattern(p)
}

} // verus!

//! The protector: ten rewrite rules, applied in a fixed order, that put a marker
//! where a period, or a terminator next to a quote or a parenthesis, must not end
//! a sentence. Each rule rewrites what the rules before it have left.
use crate::pattern::regex_replace_all;
use crate::pattern::regex_replace_within;
use crate::pattern::replace_all;
use crate::pattern::replace_within;
use crate::rules::ABBREVIATION_MARKER;
use crate::rules::ABBREVIATION_PATTERN;
use crate::rules::BOTH_PATTERN;
use crate::rules::BOTH_TEMPLATE;
use crate::rules::COMPOSITE_PATTERN;
use crate::rules::COMPOSITE_TEMPLATE;
use crate::rules::CURLY_PATTERN;
use crate::rules::CURLY_TEMPLATE;
use crate::rules::DECIMAL_PATTERN;
use crate::rules::DECIMAL_TEMPLATE;
use crate::rules::DOUBLE_PATTERN;
use crate::rules::DOUBLE_TEMPLATE;
use crate::rules::INITIAL_PATTERN;
use crate::rules::INITIAL_TEMPLATE;
use crate::rules::LEADING_DECIMAL_PATTERN;
use crate::rules::LEADING_DECIMAL_TEMPLATE;
use crate::rules::PAREN_PATTERN;
use crate::rules::PAREN_TEMPLATE;
use crate::rules::SINGLE_CURLY_PATTERN;
use crate::rules::SINGLE_CURLY_TEMPLATE;
use crate::rules::SINGLE_DOUBLE_PATTERN;
use crate::rules::SINGLE_DOUBLE_TEMPLATE;
use crate::rules::SINGLE_PATTERN;
use crate::rules::SINGLE_TEMPLATE;
use crate::rules::SUSPENSION_PATTERN;
use crate::rules::SUSPENSION_TEMPLATE;
use crate::rules::TITLE_PATTERN;
use crate::rules::TITLE_TEMPLATE;
use crate::rules::UNSTICK_PATTERN;
use crate::rules::UNSTICK_TEMPLATE;
use crate::text::holds_terminator;
use crate::text::terminator_free;
use vstd::prelude::*;

verus! {

/// The text after the six rules on quotes, applied in their order: the rule for a
/// longer closing comes before the rule for a closing that is part of it.
pub open spec fn quotes_protected(text: Seq<char>) -> Seq<char> {
    let text = regex_replace_all(SINGLE_DOUBLE_PATTERN@, text, SINGLE_DOUBLE_TEMPLATE@);
    let text = regex_replace_all(SINGLE_CURLY_PATTERN@, text, SINGLE_CURLY_TEMPLATE@);
    let text = regex_replace_all(CURLY_PATTERN@, text, CURLY_TEMPLATE@);
    let text = regex_replace_all(BOTH_PATTERN@, text, BOTH_TEMPLATE@);
    let text = regex_replace_all(SINGLE_PATTERN@, text, SINGLE_TEMPLATE@);
    regex_replace_all(DOUBLE_PATTERN@, text, DOUBLE_TEMPLATE@)
}

/// The text after all ten rules, applied in their order.
pub open spec fn rewritten(text: Seq<char>) -> Seq<char> {
    let text = regex_replace_all(COMPOSITE_PATTERN@, text, COMPOSITE_TEMPLATE@);
    let text = regex_replace_all(SUSPENSION_PATTERN@, text, SUSPENSION_TEMPLATE@);
    let text = regex_replace_all(DECIMAL_PATTERN@, text, DECIMAL_TEMPLATE@);
    let text = regex_replace_all(LEADING_DECIMAL_PATTERN@, text, LEADING_DECIMAL_TEMPLATE@);
    let text = regex_replace_within(ABBREVIATION_PATTERN@, text, "."@, ABBREVIATION_MARKER@);
    let text = regex_replace_all(INITIAL_PATTERN@, text, INITIAL_TEMPLATE@);
    let text = regex_replace_all(TITLE_PATTERN@, text, TITLE_TEMPLATE@);
    let text = regex_replace_all(UNSTICK_PATTERN@, text, UNSTICK_TEMPLATE@);
    let text = regex_replace_all(PAREN_PATTERN@, text, PAREN_TEMPLATE@);
    quotes_protected(text)
}

/// The protected text: a text without a terminator has nothing to protect and
/// stays as it is, any other is rewritten by the ten rules.
pub open spec fn protected(text: Seq<char>) -> Seq<char> {
    if terminator_free(text) {
        text
    } else {
        rewritten(text)
    }
}

/// Marks the second of the two periods after "et al".
pub fn remove_composite_abbreviations(text: &str) -> (out: String)
    ensures
        out@ == regex_replace_all(COMPOSITE_PATTERN@, text@, COMPOSITE_TEMPLATE@),
{
    replace_all(COMPOSITE_PATTERN, text, COMPOSITE_TEMPLATE)
}

/// Marks the first two of three periods in a row; the third stays a terminator.
pub fn remove_suspension_points(text: &str) -> (out: String)
    ensures
        out@ == regex_replace_all(SUSPENSION_PATTERN@, text@, SUSPENSION_TEMPLATE@),
{
    replace_all(SUSPENSION_PATTERN, text, SUSPENSION_TEMPLATE)
}

/// Marks the period between two runs of digits.
pub fn remove_floating_point_numbers(text: &str) -> (out: String)
    ensures
        out@ == regex_replace_all(DECIMAL_PATTERN@, text@, DECIMAL_TEMPLATE@),
{
    replace_all(DECIMAL_PATTERN, text, DECIMAL_TEMPLATE)
}

/// Marks the period that stands after a whitespace character and before a run of
/// digits. The whitespace character stays as it is.
pub fn handle_floats_without_leading_zero(text: &str) -> (out: String)
    ensures
        out@ == regex_replace_all(LEADING_DECIMAL_PATTERN@, text@, LEADING_DECIMAL_TEMPLATE@),
{
    replace_all(LEADING_DECIMAL_PATTERN, text, LEADING_DECIMAL_TEMPLATE)
}

/// Marks every period of a run of two or more letters that are each followed by a
/// period.
pub fn remove_abbreviations(text: &str) -> (out: String)
    ensures
        out@ == regex_replace_within(ABBREVIATION_PATTERN@, text@, "."@, ABBREVIATION_MARKER@),
{
    replace_within(ABBREVIATION_PATTERN, text, ".", ABBREVIATION_MARKER)
}

/// Marks the period after a capital letter.
pub fn remove_initials(text: &str) -> (out: String)
    ensures
        out@ == regex_replace_all(INITIAL_PATTERN@, text@, INITIAL_TEMPLATE@),
{
    replace_all(INITIAL_PATTERN, text, INITIAL_TEMPLATE)
}

/// Marks the period after a capital letter and one to three small letters.
pub fn remove_titles(text: &str) -> (out: String)
    ensures
        out@ == regex_replace_all(TITLE_PATTERN@, text@, TITLE_TEMPLATE@),
{
    replace_all(TITLE_PATTERN, text, TITLE_TEMPLATE)
}

/// Puts a space between a terminator and a character that follows it at once,
/// unless that character is whitespace or a straight quote.
pub fn unstick_sentences(text: &str) -> (out: String)
    ensures
        out@ == regex_replace_all(UNSTICK_PATTERN@, text@, UNSTICK_TEMPLATE@),
{
    replace_all(UNSTICK_PATTERN, text, UNSTICK_TEMPLATE)
}

/// Puts a marker for the closing parenthesis that follows a terminator, before
/// that terminator; one whitespace character between the two is dropped.
pub fn remove_sentence_enders_before_parens(text: &str) -> (out: String)
    ensures
        out@ == regex_replace_all(PAREN_PATTERN@, text@, PAREN_TEMPLATE@),
{
    replace_all(PAREN_PATTERN, text, PAREN_TEMPLATE)
}

/// Puts a marker for the closing quotes that stand around or after a terminator,
/// before that terminator: six rules, one for each closing.
pub fn remove_sentence_enders_next_to_quotes(text: &str) -> (out: String)
    ensures
        out@ == quotes_protected(text@),
{
    let text = replace_all(SINGLE_DOUBLE_PATTERN, text, SINGLE_DOUBLE_TEMPLATE);
    let text = replace_all(SINGLE_CURLY_PATTERN, text.as_str(), SINGLE_CURLY_TEMPLATE);
    let text = replace_all(CURLY_PATTERN, text.as_str(), CURLY_TEMPLATE);
    let text = replace_all(BOTH_PATTERN, text.as_str(), BOTH_TEMPLATE);
    let text = replace_all(SINGLE_PATTERN, text.as_str(), SINGLE_TEMPLATE);
    replace_all(DOUBLE_PATTERN, text.as_str(), DOUBLE_TEMPLATE)
}

/// Applies the ten rules in their order. Every rule looks for a terminator: a text
/// that holds none, the empty text among them, is handed back as it is.
pub fn protect(text: &str) -> (out: String)
    ensures
        out@ == protected(text@),
{
    if !holds_terminator(text) {
        return text.to_owned();
    }
    let text = remove_composite_abbreviations(text);
    let text = remove_suspension_points(text.as_str());
    let text = remove_floating_point_numbers(text.as_str());
    let text = handle_floats_without_leading_zero(text.as_str());
    let text = remove_abbreviations(text.as_str());
    let text = remove_initials(text.as_str());
    let text = remove_titles(text.as_str());
    let text = unstick_sentences(text.as_str());
    let text = remove_sentence_enders_before_parens(text.as_str());
    remove_sentence_enders_next_to_quotes(text.as_str())
}

} // verus!

//! The regular-expression engine, as far as the rules need it. What the engine
//! returns is named here and not spelled out: the rules' contracts say which pattern
//! and which template were handed to it, on which text.
use crate::rules::abbreviation_patterns;
use crate::rules::is_rule_pattern;
use crate::text::replace;
use regex::Captures;
use regex::Regex;
use regex::RegexSet;
use vstd::prelude::*;

verus! {

/// What `Regex::replace_all` returns for the regular expression `pattern`, the
/// haystack `text` and the replacement string `template`: the text in which every
/// match, found from left to right and overlapping none before it, has given way
/// to the template, expanded with what the match's groups hold.
pub uninterp spec fn regex_replace_all(
    pattern: Seq<char>,
    text: Seq<char>,
    template: Seq<char>,
) -> Seq<char>;

/// What `Regex::replace_all` returns for the regular expression `pattern` and the
/// haystack `text` when every match gives way to itself with each occurrence of
/// `from` in it replaced by `to`.
pub uninterp spec fn regex_replace_within(
    pattern: Seq<char>,
    text: Seq<char>,
    from: Seq<char>,
    to: Seq<char>,
) -> Seq<char>;

/// What `SetMatches::iter` yields for the set of regular expressions `patterns` and
/// the haystack `text`: the indices of the patterns that match somewhere in the
/// text.
pub uninterp spec fn regex_set_matches(patterns: Seq<Seq<char>>, text: Seq<char>) -> Seq<usize>;

/// Compiles `pattern` with `Regex::new` and calls `Regex::replace_all` on `text`
/// with the replacement string `template`. The result is only named. The pattern is
/// one of the library's own, each of which the engine compiles: the call never
/// stops on a pattern that it cannot read.
#[verifier::external_body]
pub(crate) fn replace_all(pattern: &str, text: &str, template: &str) -> (out: String)
    requires
        is_rule_pattern(pattern@),
    ensures
        out@ == regex_replace_all(pattern@, text@, template@),
{
    Regex::new(pattern).unwrap().replace_all(text, template).into_owned()
}

/// Compiles `pattern` with `Regex::new` and calls `Regex::replace_all` on `text`
/// with a closure that hands each whole match to `replace`. The result is only
/// named. The pattern is one of the library's own, as for `replace_all`.
#[verifier::external_body]
pub(crate) fn replace_within(pattern: &str, text: &str, from: &str, to: &str) -> (out: String)
    requires
        is_rule_pattern(pattern@),
    ensures
        out@ == regex_replace_within(pattern@, text@, from@, to@),
{
    Regex::new(pattern).unwrap().replace_all(
        text,
        |found: &Captures| replace(&found[0], from, to),
    ).into_owned()
}

/// Compiles the patterns with `RegexSet::new`, calls `RegexSet::matches` on `text`
/// and collects what `SetMatches::iter` yields. The indices are those of patterns
/// of the set and come in ascending order; which they are is only named. The
/// patterns are the library's abbreviations, each of which the engine compiles.
#[verifier::external_body]
pub(crate) fn set_matches(patterns: &Vec<&'static str>, text: &str) -> (hits: Vec<usize>)
    requires
        patterns.deep_view() == abbreviation_patterns(),
    ensures
        hits@ == regex_set_matches(patterns.deep_view(), text@),
        forall|k: int| 0 <= k < hits.len() ==> hits[k] < patterns.len(),
        forall|j: int, k: int| 0 <= j < k < hits.len() ==> hits[j] < hits[k],
{
    RegexSet::new(patterns.iter()).unwrap().matches(text).iter().collect()
}

} // verus!

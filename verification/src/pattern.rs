//! Compiled regular expressions, as the `regex` crate provides them.
//!
//! Nothing here is proved: the items below state what is taken on trust from
//! `regex`. A compiled pattern is opaque; what is known of it is the set of
//! byte strings in which it finds a match.

use regex::bytes::Regex;
use regex::bytes::RegexBuilder;
use vstd::prelude::*;

verus! {

/// `regex::bytes::Regex`, carried as an opaque value.
#[verifier::external_type_specification]
#[verifier::external_body]
pub struct ExRegex(regex::bytes::Regex);

/// `regex::Error`, carried as an opaque value.
#[verifier::external_type_specification]
#[verifier::external_body]
pub struct ExRegexError(regex::Error);

/// The byte strings somewhere in which the compiled pattern `re` finds a
/// match.
pub uninterp spec fn regex_language(re: Regex) -> Set<Seq<u8>>;

/// The byte strings somewhere in which the pattern text `pattern` finds a
/// match once it is compiled for searching bytes, with letter case ignored or
/// not, and every other option left at its default.
pub uninterp spec fn pattern_language(pattern: Seq<char>, ignore_case: bool) -> Set<Seq<u8>>;

/// `Regex::is_match`: true if and only if the pattern matches anywhere in
/// the haystack. The search is not anchored, and it does not fail.
pub assume_specification[ regex::bytes::Regex::is_match ](
    re: &Regex,
    haystack: &[u8],
) -> (found: bool)
    ensures
        found == regex_language(*re).contains(haystack@),
;

/// `RegexBuilder::new(pattern).case_insensitive(ignore_case).build()`: the
/// pattern is compiled once, with case sensitivity fixed from then on.
/// Whether compilation succeeds is left to `regex` (the syntax, and a limit
/// on the compiled size); when it does, the result matches what the pattern
/// text stands for under that option.
#[verifier::external_body]
pub(crate) fn build_regex(
    pattern: &str,
    ignore_case: bool,
) -> (compiled: Result<Regex, regex::Error>)
    ensures
        compiled matches Ok(re) ==> regex_language(re) == pattern_language(pattern@, ignore_case),
{
    RegexBuilder::new(pattern).case_insensitive(ignore_case).build()
}

} // verus!

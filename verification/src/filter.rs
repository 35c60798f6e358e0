//! The predicate on single fields, and the rule that picks it.

use crate::order::{bytes_ge, bytes_le, lex_ge, lex_le};
use crate::pattern::{build_regex, pattern_language, regex_language};
use regex::bytes::Regex;
use vstd::prelude::*;
use vstd::string::StringSliceAdditionalSpecFns;

verus! {

/// A test on the raw bytes of one field. One filter is chosen for a whole
/// pass and never changes during it.
#[derive(Debug)]
pub enum Filter<'a> {
    /// The compiled pattern matches somewhere in the field.
    Eq(Regex),
    /// The field is not greater than the bound, byte by byte.
    Leq(&'a [u8]),
    /// The field is not less than the bound, byte by byte.
    Geq(&'a [u8]),
}

/// Why no filter could be made.
#[derive(Debug)]
pub enum ConfigError {
    /// The argument is not a regular expression that `regex` compiles.
    InvalidPattern(regex::Error),
}

/// Whether the two mode flags leave the argument to be read as a regular
/// expression: neither bound is asked for, or both are.
pub open spec fn is_regex_mode(greater_than: bool, less_than: bool) -> bool {
    greater_than == less_than
}

impl<'a> Filter<'a> {
    /// Whether a field with these bytes satisfies the filter.
    pub open spec fn accepts(&self, field: Seq<u8>) -> bool {
        match self {
            Filter::Eq(pattern) => regex_language(*pattern).contains(field),
            Filter::Leq(bound) => lex_le(field, bound@),
            Filter::Geq(bound) => lex_ge(field, bound@),
        }
    }

    /// Applies the filter to one field.
    pub fn apply(&self, field: &[u8]) -> (r: bool)
        ensures
            r == self.accepts(field@),
    {
        match self {
            Filter::Eq(pattern) => pattern.is_match(field),
            Filter::Leq(bound) => bytes_le(field, bound),
            Filter::Geq(bound) => bytes_ge(field, bound),
        }
    }

    /// The filter of regular-expression mode, from the outcome of compiling
    /// the argument: the compiled pattern, or the error that stopped it.
    pub fn from_compiled(compiled: Result<Regex, regex::Error>) -> (r: Result<Filter<'a>, ConfigError>)
        ensures
            match compiled {
                Ok(re) => r == Ok::<Filter<'a>, ConfigError>(Filter::Eq(re)),
                Err(e) => r == Err::<Filter<'a>, ConfigError>(ConfigError::InvalidPattern(e)),
            },
    {
        match compiled {
            Ok(re) => Ok(Filter::Eq(re)),
            Err(e) => Err(ConfigError::InvalidPattern(e)),
        }
    }

    /// Picks the filter for a pass from the two mode flags and the argument.
    ///
    /// With `less_than` alone the argument's bytes are an upper bound, with
    /// `greater_than` alone a lower bound; these never fail, and
    /// `ignore_case` has no part in them. With neither flag, and also with
    /// both, the argument is compiled as a regular expression, once, and the
    /// only failure is that it does not compile.
    pub fn new(
        arg: &'a str,
        ignore_case: bool,
        greater_than: bool,
        less_than: bool,
    ) -> (r: Result<Filter<'a>, ConfigError>)
        ensures
            !greater_than && less_than ==> (r matches Ok(Filter::Leq(bound))
                && bound@ == arg.spec_bytes()),
            greater_than && !less_than ==> (r matches Ok(Filter::Geq(bound))
                && bound@ == arg.spec_bytes()),
            is_regex_mode(greater_than, less_than) ==> match r {
                Ok(Filter::Eq(re)) => regex_language(re) == pattern_language(arg@, ignore_case),
                Ok(_) => false,
                Err(ConfigError::InvalidPattern(_)) => true,
            },
    {
        match (greater_than, less_than) {
            (false, true) => Ok(Filter::Leq(arg.as_bytes())),
            (true, false) => Ok(Filter::Geq(arg.as_bytes())),
            _ => Filter::from_compiled(build_regex(arg, ignore_case)),
        }
    }
}

} // verus!

//! The format check of a date parameter.
//!
//! A date is accepted by its shape alone: four digits, a month from `01`
//! to `12` and a day from `01` to `31`, with hyphens between them. Whether
//! the month has that day is not looked at, so `2024-02-30` passes. The
//! shape is a regular expression, compiled once and matched by `regex`.

use vstd::prelude::*;

verus! {

/// A compiled regular expression of `regex`.
#[verifier::external_type_specification]
#[verifier::external_body]
pub struct ExRegex(regex::Regex);

/// The error of `regex` for a pattern that it could not compile.
#[verifier::external_type_specification]
#[verifier::external_body]
pub struct ExRegexError(regex::Error);

/// Whether `regex::Regex::new` compiles `pattern`.
pub uninterp spec fn compiles(pattern: Seq<char>) -> bool;

/// Whether the expression that `regex::Regex::new` compiles from `pattern`
/// has a match in `text`.
pub uninterp spec fn pattern_matches(pattern: Seq<char>, text: Seq<char>) -> bool;

/// Whether a compiled expression has a match in `text`, as
/// `regex::Regex::is_match` tells.
pub uninterp spec fn regex_matches(compiled: regex::Regex, text: Seq<char>) -> bool;

/// `regex::Regex::new` compiles a pattern, or refuses it. Whether it
/// compiles and what the expression then matches depend on the pattern
/// alone; neither is stated here, both are named.
pub assume_specification[ regex::Regex::new ](re: &str) -> (r: Result<regex::Regex, regex::Error>)
    ensures
        r is Ok <==> compiles(re@),
        r matches Ok(compiled) ==> forall|text: Seq<char>| #[trigger]
            regex_matches(compiled, text) == pattern_matches(re@, text),
;

/// `regex::Regex::is_match` tells whether the expression has a match
/// anywhere in the text. The answer depends on the expression and the
/// text alone and is named by [`regex_matches`].
pub assume_specification[ regex::Regex::is_match ](
    compiled: &regex::Regex,
    haystack: &str,
) -> (found: bool)
    ensures
        found == regex_matches(*compiled, haystack@),
;

/// The shape of a date parameter, as a regular expression.
pub const DATE_PATTERN: &'static str = "^\\d{4}-(0[1-9]|1[012])-(0[1-9]|[12][0-9]|3[01])$";

/// The shape of a date parameter.
pub open spec fn date_pattern() -> Seq<char> {
    DATE_PATTERN@
}

/// Whether `text` has the shape of a date parameter.
pub open spec fn is_date_format(text: Seq<char>) -> bool {
    pattern_matches(date_pattern(), text)
}

/// The compiled date pattern. One validator serves every request.
pub struct DateValidator {
    compiled: regex::Regex,
}

impl DateValidator {
    #[verifier::type_invariant]
    spec fn holds_the_date_pattern(self) -> bool {
        forall|text: Seq<char>| #[trigger]
            regex_matches(self.compiled, text) == is_date_format(text)
    }

    /// Compiles the date pattern; `None` where the compiler of regular
    /// expressions refuses it.
    pub fn new() -> (r: Option<DateValidator>)
        ensures
            r is Some <==> compiles(date_pattern()),
    {
        match regex::Regex::new(DATE_PATTERN) {
            Ok(compiled) => Some(DateValidator { compiled }),
            Err(_) => None,
        }
    }

    /// Whether `s` has the shape of a date: `true` exactly for the texts
    /// that the date pattern matches.
    pub fn validate(&self, s: &str) -> (valid: bool)
        ensures
            valid == is_date_format(s@),
    {
        proof {
            use_type_invariant(self);
        }
        self.compiled.is_match(s)
    }
}

} // verus!

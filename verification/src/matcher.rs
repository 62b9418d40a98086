//! The match predicate a run filters by: a literal needle, or a regular
//! expression compiled once before the pipeline starts.

use vstd::prelude::*;
use crate::textsearch::{contains_pattern, text_contains};

verus! {

#[verifier::external_type_specification]
#[verifier::external_body]
pub struct ExRegex(regex::Regex);

/// Whether `regex::Regex::new` accepts `pattern` (with its default limits,
/// acceptance is a function of the pattern alone).
pub uninterp spec fn regex_valid(pattern: Seq<char>) -> bool;

/// Whether the regular expression `pattern` matches somewhere inside `text`:
/// what `regex::Regex::is_match` returns for a regex compiled from `pattern`,
/// a function of the pattern and the text alone.
pub uninterp spec fn regex_match(pattern: Seq<char>, text: Seq<char>) -> bool;

/// Relies on `regex::Regex::new`: it returns `Ok` exactly when the pattern is
/// a regular expression it accepts, and the outcome depends on the pattern
/// alone. The error's detail is not kept; the caller reports its own.
#[verifier::external_body]
fn regex_compile(pattern: &str) -> (r: Option<regex::Regex>)
    ensures
        r is Some <==> regex_valid(pattern@),
{
    regex::Regex::new(pattern).ok()
}

/// Relies on `regex::Regex::is_match`: true exactly when the compiled regex
/// matches somewhere in `text` (an unanchored search), a function of the
/// compiled pattern and the text alone. The requires ties the call to the
/// pattern the matcher's regex was compiled from: the one constructor below
/// builds every `Matcher`, and it compiles `m.pattern` itself.
#[verifier::external_body]
fn regex_is_match(m: &Matcher, text: &str) -> (r: bool)
    requires
        m.is_regex(),
    ensures
        r == regex_match(m.pattern_view(), text@),
{
    match &m.re {
        Some(re) => re.is_match(text),
        None => false,
    }
}

/// The one configuration error: the pattern is not a valid regular
/// expression.
#[derive(Clone, Copy, PartialEq, Eq, Structural, Debug)]
pub enum PatternError {
    InvalidRegex,
}

/// Decides whether a line matches. Built once per run; when the run asked
/// for a regular expression, it was compiled here, eagerly, so an invalid
/// pattern fails the run before any line is read.
pub struct Matcher {
    pattern: String,
    re: Option<regex::Regex>,
}

/// What a matcher accepts: substring containment for a literal, an
/// unanchored regex search otherwise.
pub open spec fn match_spec(use_regex: bool, pattern: Seq<char>, text: Seq<char>) -> bool {
    if use_regex {
        regex_match(pattern, text)
    } else {
        contains_pattern(text, pattern)
    }
}

impl Matcher {
    /// Whether this matcher searches by regular expression.
    pub closed spec fn is_regex(self) -> bool {
        self.re is Some
    }

    /// The pattern this matcher was built from.
    pub closed spec fn pattern_view(self) -> Seq<char> {
        self.pattern@
    }

    /// What this matcher accepts.
    pub open spec fn spec_matches(self, text: Seq<char>) -> bool {
        match_spec(self.is_regex(), self.pattern_view(), text)
    }

    /// Builds the matcher for a run, compiling and thereby validating the
    /// pattern when `use_regex` is set: an invalid regular expression is a
    /// configuration error, reported before any line is read.
    pub fn new(pattern: &str, use_regex: bool) -> (r: Result<Matcher, PatternError>)
        ensures
            r is Ok <==> (use_regex ==> regex_valid(pattern@)),
            match r {
                Ok(m) => m.is_regex() == use_regex && m.pattern_view() == pattern@,
                Err(e) => use_regex && !regex_valid(pattern@) && e == PatternError::InvalidRegex,
            },
    {
        if use_regex {
            match regex_compile(pattern) {
                Some(re) => Ok(Matcher { pattern: String::from_str(pattern), re: Some(re) }),
                None => Err(PatternError::InvalidRegex),
            }
        } else {
            Ok(Matcher { pattern: String::from_str(pattern), re: None })
        }
    }

    /// Whether the line matches.
    pub fn matches(&self, text: &str) -> (r: bool)
        ensures
            r == self.spec_matches(text@),
    {
        if self.re.is_some() {
            regex_is_match(self, text)
        } else {
            text_contains(text, self.pattern.as_str())
        }
    }
}

} // verus!

//! Compiled regular expressions, through the `regex` crate.
//!
//! What a pattern matches is the crate's business: the contracts here name it
//! (`finds_match`, `first_replaced`) rather than restate it.

use vstd::prelude::*;
use regex::Regex;

verus! {

#[verifier::external_type_specification]
#[verifier::external_body]
pub struct ExRegex(regex::Regex);

#[verifier::external_type_specification]
#[verifier::external_body]
pub struct ExRegexError(regex::Error);

/// Whether the regex engine accepts `pattern`.
pub uninterp spec fn pattern_compiles(pattern: Seq<char>) -> bool;

/// Whether `pattern` matches somewhere in `text`.
pub uninterp spec fn finds_match(pattern: Seq<char>, text: Seq<char>) -> bool;

/// `text` with the leftmost-first match of `pattern` replaced by the expansion
/// of `template` (where `$name` stands for the group `name`).
pub uninterp spec fn first_replaced(pattern: Seq<char>, text: Seq<char>, template: Seq<char>) -> Seq<char>;

/// The pattern could not be compiled.
pub struct PatternError {
    pub pattern: String,
}

/// A compiled regular expression together with the pattern it was compiled
/// from. It is only ever built by `compile_regex`, so `re` always is the
/// compilation of `pattern`.
pub struct Matcher {
    pattern: String,
    re: Regex,
}

impl View for Matcher {
    type V = Seq<char>;

    closed spec fn view(&self) -> Seq<char> {
        self.pattern@
    }
}

/// Relies on `regex::Regex::new`: whether a pattern compiles depends on the
/// pattern alone.
#[verifier::external_body]
fn compile_regex(pattern: String) -> (r: Result<Matcher, regex::Error>)
    ensures
        r is Ok <==> pattern_compiles(pattern@),
        r is Ok ==> r->Ok_0@ == pattern@,
{
    match Regex::new(&pattern) {
        Ok(re) => Ok(Matcher { pattern, re }),
        Err(e) => Err(e),
    }
}

/// Relies on `regex::Regex::is_match`: whether the pattern matches anywhere in
/// the haystack.
#[verifier::external_body]
pub(crate) fn regex_is_match(m: &Matcher, text: &str) -> (r: bool)
    ensures
        r == finds_match(m@, text@),
{
    m.re.is_match(text)
}

/// Relies on `regex::Regex::replace`: the leftmost-first match is replaced by
/// the expanded template, and without a match the haystack comes back
/// unchanged.
#[verifier::external_body]
pub(crate) fn regex_replace_first(m: &Matcher, text: &str, template: &str) -> (r: String)
    ensures
        r@ == first_replaced(m@, text@, template@),
        !finds_match(m@, text@) ==> r@ == text@,
{
    m.re.replace(text, template).into_owned()
}

impl Matcher {
    /// Compiles `pattern`; fails exactly when the regex engine rejects it.
    pub fn new(pattern: &str) -> (r: Result<Matcher, PatternError>)
        ensures
            r is Ok <==> pattern_compiles(pattern@),
            r matches Ok(m) ==> m@ == pattern@,
            r matches Err(e) ==> e.pattern@ == pattern@,
    {
        let owned = pattern.to_owned();
        match compile_regex(owned) {
            Ok(m) => Ok(m),
            Err(_) => Err(PatternError { pattern: pattern.to_owned() }),
        }
    }

    /// The pattern this matcher was compiled from.
    pub fn pattern(&self) -> (r: &str)
        ensures
            r@ == self@,
    {
        self.pattern.as_str()
    }
}

} // verus!

//! The crate's narrow interface to the regular-expression engine.
//!
//! A compiled pattern is carried together with its source text, so
//! contracts can speak of the pattern as plain text.  What the engine
//! decides — whether a pattern compiles, and whether it matches a given
//! haystack — is named here and never restated.

use vstd::prelude::*;

verus! {

#[verifier::external_type_specification]
#[verifier::external_body]
pub struct ExRegex(regex::Regex);

/// Whether the regular-expression engine accepts `pattern` as a valid
/// pattern within its default size limit.  `regex::Regex::new` decides
/// this from the pattern text alone.
pub uninterp spec fn regex_compiles(pattern: Seq<char>) -> bool;

/// Whether the pattern compiled from `pattern` matches anywhere in
/// `input`.  `regex::Regex::is_match` decides this from the pattern
/// and the haystack alone.
pub uninterp spec fn regex_accepts(pattern: Seq<char>, input: Seq<char>) -> bool;

/// A compiled pattern, together with the text it was compiled from.
///
/// Values are only ever built by [`CompiledRegex::compile`], which
/// records the source text it compiled, so the held engine state always
/// belongs to the held text.
pub struct CompiledRegex {
    regex: regex::Regex,
    source: String,
}

impl CompiledRegex {
    /// The pattern text this value was compiled from.
    pub closed spec fn pattern(&self) -> Seq<char> {
        self.source@
    }

    /// Relies on `regex::Regex::new`: compilation succeeds or fails as
    /// a function of the pattern text alone.
    #[verifier::external_body]
    pub(crate) fn compile(pattern: &str) -> (r: Option<CompiledRegex>)
        ensures
            r is Some <==> regex_compiles(pattern@),
            r matches Some(c) ==> c.pattern() == pattern@,
    {
        match regex::Regex::new(pattern) {
            Ok(regex) => Some(CompiledRegex { regex, source: pattern.to_owned() }),
            Err(_) => None,
        }
    }

    /// Relies on `regex::Regex::is_match`: whether a match exists
    /// anywhere in the haystack is a function of the pattern and the
    /// haystack alone.
    #[verifier::external_body]
    pub(crate) fn is_match(&self, input: &str) -> (r: bool)
        ensures
            r == regex_accepts(self.pattern(), input@),
    {
        self.regex.is_match(input)
    }

    /// The pattern text.
    pub fn as_str(&self) -> (r: &str)
        ensures
            r@ == self.pattern(),
    {
        self.source.as_str()
    }
}

} // verus!

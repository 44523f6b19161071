//! Content patterns, compiled and run by the `regex` crate behind trusted
//! items. A compiled pattern carries the pattern text and case flag it was
//! built from, so contracts can speak of the match as a function of those.

use vstd::prelude::*;

verus! {

#[verifier::external_type_specification]
#[verifier::external_body]
pub struct ExRegex(regex::Regex);

/// What `regex::Regex::is_match` returns on `text` for the regex compiled
/// from `pattern` with the given case flag: a pure function of the three.
pub uninterp spec fn regex_match(pattern: Seq<char>, case_insensitive: bool, text: Seq<char>) -> bool;

/// Whether `regex::RegexBuilder::build` compiles `pattern` with the given
/// case flag: a pure function of the two (compilation is deterministic).
pub uninterp spec fn regex_compiles(pattern: Seq<char>, case_insensitive: bool) -> bool;

/// A compiled content pattern.
pub struct Pattern {
    re: regex::Regex,
    pattern: String,
    case_insensitive: bool,
}

impl Pattern {
    /// The pattern text this value was compiled from.
    pub closed spec fn spec_pattern(&self) -> Seq<char> {
        self.pattern@
    }

    /// Whether this value was compiled case-insensitively.
    pub closed spec fn spec_ci(&self) -> bool {
        self.case_insensitive
    }

    /// Relies on regex::RegexBuilder::{case_insensitive, build}: compiles
    /// `pattern` with the given case flag; succeeds exactly when the pattern
    /// text is a valid regex, a deterministic function of text and flag.
    #[verifier::external_body]
    pub fn compile(pattern: &str, case_insensitive: bool) -> (r: Option<Pattern>)
        ensures
            r is Some <==> regex_compiles(pattern@, case_insensitive),
            r matches Some(p) ==> p.spec_pattern() == pattern@ && p.spec_ci() == case_insensitive,
    {
        match regex::RegexBuilder::new(pattern).case_insensitive(case_insensitive).build() {
            Ok(re) => Some(
                Pattern { re, pattern: pattern.to_string(), case_insensitive },
            ),
            Err(_) => None,
        }
    }

    /// Relies on regex::Regex::is_match: whether the regex matches anywhere
    /// in `text`, a function of the pattern text, the case flag and `text`.
    #[verifier::external_body]
    pub fn is_match(&self, text: &str) -> (r: bool)
        ensures
            r == regex_match(self.spec_pattern(), self.spec_ci(), text@),
    {
        self.re.is_match(text)
    }
}

/// A compiled pattern for the given optional pattern text: one exactly when a
/// pattern was given and its text is a valid regex.
pub fn build_regex(pattern: &Option<String>, case_insensitive: bool) -> (r: Option<Pattern>)
    ensures
        r is Some <==> (pattern matches Some(q) && regex_compiles(q@, case_insensitive)),
        r matches Some(p) ==> pattern matches Some(q) && p.spec_pattern() == q@ && p.spec_ci()
            == case_insensitive,
{
    match pattern {
        Some(q) => Pattern::compile(q.as_str(), case_insensitive),
        None => None,
    }
}

} // verus!

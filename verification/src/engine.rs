//! The regular-expression engine behind the queries: the `regex` crate, seen
//! through a handful of contracts that are taken on trust.

use regex::Error;
use regex::Regex;
use regex::RegexBuilder;
use vstd::prelude::*;

verus! {

/// `regex::Regex`, a compiled regular expression.  Nothing of its inside is
/// known here.
#[verifier::external_type_specification]
#[verifier::external_body]
pub struct ExRegex(Regex);

/// `regex::Error`, what `RegexBuilder::build` returns for a pattern that it
/// does not accept.
#[verifier::external_type_specification]
#[verifier::external_body]
pub struct ExRegexError(Error);

/// Whether `RegexBuilder::build` accepts `pattern`, with case-insensitive
/// matching switched as given and every other setting at its default.
pub uninterp spec fn regex_compiles(pattern: Seq<char>, case_insensitive: bool) -> bool;

/// Whether `Regex::is_match` finds a match anywhere in `haystack`, for the
/// regular expression that `pattern` compiles to with case-insensitive
/// matching switched as given.
pub uninterp spec fn regex_is_match(
    pattern: Seq<char>,
    case_insensitive: bool,
    haystack: Seq<char>,
) -> bool;

/// A compiled regular expression together with what it was compiled from.
/// Only `compile` makes one, so the two always belong together.
pub struct Matcher {
    re: Regex,
    pattern: String,
    case_insensitive: bool,
}

impl Matcher {
    /// The pattern that was compiled.
    pub closed spec fn pattern(&self) -> Seq<char> {
        self.pattern@
    }

    /// Whether it was compiled for case-insensitive matching.
    pub closed spec fn case_insensitive(&self) -> bool {
        self.case_insensitive
    }

    /// The pattern that was compiled.
    pub fn source(&self) -> (r: &String)
        ensures
            r@ == self.pattern(),
    {
        &self.pattern
    }

    /// Whether it was compiled for case-insensitive matching.
    pub fn ignores_case(&self) -> (r: bool)
        ensures
            r == self.case_insensitive(),
    {
        self.case_insensitive
    }
}

/// Compiles `pattern` with `RegexBuilder::new`, `case_insensitive` and
/// `build`.  Taken on trust: the call succeeds exactly when the crate accepts
/// the pattern (it is a valid expression within the default size limits), and
/// the matcher remembers the pattern and the switch it was built with.
#[verifier::external_body]
pub(crate) fn compile(pattern: &str, case_insensitive: bool) -> (r: Result<Matcher, Error>)
    ensures
        r is Ok <==> regex_compiles(pattern@, case_insensitive),
        r matches Ok(m) ==> m.pattern() == pattern@ && m.case_insensitive() == case_insensitive,
{
    match RegexBuilder::new(pattern).case_insensitive(case_insensitive).build() {
        Ok(re) => Ok(Matcher { re, pattern: pattern.to_string(), case_insensitive }),
        Err(e) => Err(e),
    }
}

/// Searches `haystack` with `Regex::is_match`.  Taken on trust: the answer is
/// that of the expression the matcher was compiled from, and depends on
/// nothing but that expression and the haystack.
#[verifier::external_body]
pub(crate) fn is_match(m: &Matcher, haystack: &str) -> (r: bool)
    ensures
        r == regex_is_match(m.pattern(), m.case_insensitive(), haystack@),
{
    m.re.is_match(haystack)
}

/// The text of a compile error, as the `regex` crate words it.  Nothing is
/// claimed of the text.
#[verifier::external_body]
pub(crate) fn error_text(e: &Error) -> (r: String) {
    e.to_string()
}

} // verus!

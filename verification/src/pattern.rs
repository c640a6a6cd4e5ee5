//! Regular expressions, as the `regex` crate understands them.
use regex::Regex;
use vstd::prelude::*;

verus! {

/// A compiled regular expression.
#[verifier::external_type_specification]
#[verifier::external_body]
pub struct ExRegex(regex::Regex);

/// Why a pattern could not be compiled.
#[verifier::external_type_specification]
#[verifier::external_body]
pub struct ExRegexError(regex::Error);

/// The texts in which a regular expression finds a match.
pub uninterp spec fn language(re: regex::Regex) -> Set<Seq<char>>;

/// The texts in which the regular expression with a given pattern finds a match, if the
/// pattern compiles.
pub uninterp spec fn compiled(pattern: Seq<char>) -> Option<Set<Seq<char>>>;

/// Calls `regex::Regex::new`, which compiles a pattern with the default options, or says
/// why it cannot. The pattern alone decides which, and what the result matches.
#[verifier::external_body]
pub(crate) fn compile(pattern: &str) -> (r: Result<Regex, regex::Error>)
    ensures
        compiled(pattern@) == (match r {
            Ok(re) => Some(language(re)),
            Err(_) => None,
        }),
{
    Regex::new(pattern)
}

/// Calls `regex::Regex::is_match`, which tells whether there is a match anywhere in a text.
#[verifier::external_body]
pub(crate) fn finds(re: &Regex, text: &str) -> (r: bool)
    ensures
        r == language(*re).contains(text@),
{
    re.is_match(text)
}

} // verus!

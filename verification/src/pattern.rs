//! The regular-expression engine, as far as the conversion relies on it.
//!
//! Nothing here is proved. A compiled expression is taken for the set of
//! haystacks in which it finds a match, and a pattern for the set that an
//! expression compiled from it stands for. Whether a pattern is accepted,
//! and what the engine says where it is not, have names of their own.

use vstd::prelude::*;
use regex::Regex;

verus! {

#[verifier::external_type_specification]
#[verifier::external_body]
pub struct ExRegex(regex::Regex);

#[verifier::external_type_specification]
#[verifier::external_body]
pub struct ExRegexError(regex::Error);

/// The haystacks somewhere in which the compiled expression finds a match:
/// those on which `Regex::is_match` answers `true`.
pub uninterp spec fn haystacks_matched(expression: Regex) -> Set<Seq<char>>;

/// The haystacks somewhere in which `pattern` matches, by the engine's
/// syntax and its default settings: what an expression that `Regex::new`
/// compiled from `pattern` finds a match in.
pub uninterp spec fn pattern_language(pattern: Seq<char>) -> Set<Seq<char>>;

/// Whether the engine accepts `pattern` with its default settings, on a
/// machine whose words have `word_bits` bits: whether `Regex::new` returns
/// an expression for it. The engine refuses a pattern with a syntax error,
/// and one that compiles to more than its default size limit; it counts
/// that size in bytes of its own states, which are wider where words are.
pub uninterp spec fn pattern_accepted(pattern: Seq<char>, word_bits: u32) -> bool;

/// The engine's own words for a refusal: what the `Display` impl of
/// `regex::Error` writes for it.
pub uninterp spec fn refusal_words(error: regex::Error) -> Seq<char>;

/// `Regex::new` compiles a pattern with the default settings. Whether it
/// returns an expression depends on the pattern and on the width of the
/// machine's words alone, and an expression that it returns matches what
/// the pattern describes.
pub assume_specification[ Regex::new ](re: &str) -> (result: Result<Regex, regex::Error>)
    ensures
        result is Ok <==> pattern_accepted(re@, usize::BITS),
        result matches Ok(expression) ==> haystacks_matched(expression) == pattern_language(re@),
;

/// `Regex::is_match` tells whether the expression matches anywhere in the
/// haystack. The answer depends on the expression and the haystack alone.
pub assume_specification[ Regex::is_match ](expression: &Regex, haystack: &str) -> (found: bool)
    ensures
        found == haystacks_matched(*expression).contains(haystack@),
;

/// The engine's own words for why it refused a pattern, as the `Display`
/// impl of `regex::Error` writes them: they depend on the error alone.
#[verifier::external_body]
pub(crate) fn refusal_text(error: &regex::Error) -> (text: String)
    ensures
        text@ == refusal_words(*error),
{
    error.to_string()
}

} // verus!

//! Regular expressions, as far as the tools need them: a pattern is
//! compiled once and then asked, text by text, whether it finds a match.

use vstd::prelude::*;

verus! {

/// Declares `regex::Regex` as an opaque type: nothing is known of a compiled
/// pattern but what the functions below say.
#[verifier::external_type_specification]
#[verifier::external_body]
pub struct ExRegex(regex::Regex);

/// Declares `regex::Error` as an opaque type. An error of this type is only
/// ever told apart from success.
#[verifier::external_type_specification]
#[verifier::external_body]
pub struct ExRegexError(regex::Error);

/// The texts in which a compiled pattern finds a match.
pub uninterp spec fn language_of(re: regex::Regex) -> Set<Seq<char>>;

/// The texts in which a pattern text finds a match once it is compiled,
/// without regard to case where `insensitive` is set.
pub uninterp spec fn pattern_language(pattern: Seq<char>, insensitive: bool) -> Set<Seq<char>>;

/// Compiles a pattern, matching without regard to case where asked.
///
/// Trusted: calls `regex::RegexBuilder::build`. What a compiled pattern
/// matches depends on the pattern text and the setting alone. Nothing is
/// claimed of whether a pattern compiles: that also depends on size limits.
#[verifier::external_body]
pub(crate) fn compile(pattern: &str, insensitive: bool) -> (result: Result<
    regex::Regex,
    regex::Error,
>)
    ensures
        result matches Ok(re) ==> language_of(re) == pattern_language(pattern@, insensitive),
{
    regex::RegexBuilder::new(pattern).case_insensitive(insensitive).build()
}

/// Whether `re` finds a match anywhere in `text`.
///
/// Trusted: calls `regex::Regex::is_match`, whose answer depends on the
/// pattern and the text alone.
#[verifier::external_body]
pub(crate) fn is_match(re: &regex::Regex, text: &str) -> (found: bool)
    ensures
        found == language_of(*re).contains(text@),
{
    re.is_match(text)
}

} // verus!

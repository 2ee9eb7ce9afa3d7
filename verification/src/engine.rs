//! The regular-expression engine, and what this library takes from it on trust: that it
//! compiles a pattern or refuses it, and that the text it returns depends on the pattern,
//! the text and the template alone.

use regex::Regex;
use vstd::prelude::*;

verus! {

#[verifier::external_type_specification]
#[verifier::external_body]
pub struct ExRegexError(regex::Error);

/// Whether `regex::Regex::new` compiles `pattern`.
pub uninterp spec fn regex_accepts(pattern: Seq<char>) -> bool;

/// The text that `regex::Regex::replace_all` returns for `text` and `template`, on the
/// expression that `regex::Regex::new` compiled from `pattern`.
pub uninterp spec fn regex_replaced(
    pattern: Seq<char>,
    text: Seq<char>,
    template: Seq<char>,
) -> Seq<char>;

/// Why a text could not be rewritten.
#[derive(Clone, Copy, Debug, PartialEq, Eq)]
pub enum ShorthandError {
    /// The engine refused to compile a pattern.
    PatternRejected,
    /// The engine returned another text than the rule is stated to give.
    EngineDisagrees,
}

/// Compiles `pattern` with `regex::Regex::new` and, where that succeeds, rewrites `text`
/// with `regex::Regex::replace_all`.
///
/// Trusted: the call succeeds exactly on the patterns the engine compiles, and the text
/// that comes back is determined by the pattern, the text and the template alone. Nothing
/// is claimed here about what the rewritten text looks like.
#[verifier::external_body]
fn regex_replace_all(pattern: &str, text: &str, template: &str) -> (r: Result<
    String,
    regex::Error,
>)
    ensures
        r is Ok <==> regex_accepts(pattern@),
        r matches Ok(s) ==> s@ == regex_replaced(pattern@, text@, template@),
{
    match Regex::new(pattern) {
        Ok(re) => Ok(re.replace_all(text, template).into_owned()),
        Err(e) => Err(e),
    }
}

/// Rewrites every non-overlapping match of `pattern` in `text` by `template`, or reports
/// that the engine refused the pattern.
pub fn replace_all(pattern: &str, text: &str, template: &str) -> (r: Result<
    String,
    ShorthandError,
>)
    ensures
        r is Ok <==> regex_accepts(pattern@),
        r matches Ok(s) ==> s@ == regex_replaced(pattern@, text@, template@),
        r matches Err(e) ==> e == ShorthandError::PatternRejected,
{
    match regex_replace_all(pattern, text, template) {
        Ok(s) => Ok(s),
        Err(_) => Err(ShorthandError::PatternRejected),
    }
}

} // verus!

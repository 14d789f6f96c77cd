//! Regular expressions, through the `regex` crate. Verus takes the contracts
//! in this file on trust.

use vstd::prelude::*;

verus! {

/// `regex::Regex`: a compiled expression. Verus sees nothing inside it.
#[verifier::external_type_specification]
#[verifier::external_body]
pub struct ExRegex(regex::Regex);

/// The expression that `regex` compiles a pattern to; `None` for a pattern
/// that it rejects.
pub uninterp spec fn compiled(pattern: Seq<char>) -> Option<regex::Regex>;

/// `text` with every match of `re`, taken from left to right without
/// overlap, replaced by `with`, in which `$` refers to capture groups.
pub uninterp spec fn replaced(re: regex::Regex, text: Seq<char>, with: Seq<char>) -> Seq<char>;

/// `regex::Regex::new`.
#[verifier::external_body]
pub(crate) fn compile(pattern: &str) -> (r: Option<regex::Regex>)
    ensures
        r == compiled(pattern@),
{
    match regex::Regex::new(pattern) {
        Ok(re) => Some(re),
        Err(_) => None,
    }
}

/// `regex::Regex::replace_all`, with a string to put in place of each match.
#[verifier::external_body]
pub(crate) fn replace_all(re: &regex::Regex, text: &str, with: &str) -> (r: String)
    ensures
        r@ == replaced(*re, text@, with@),
{
    re.replace_all(text, with).to_string()
}

} // verus!

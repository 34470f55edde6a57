use vstd::prelude::*;

verus! {

/// The compiled-pattern type of the regex crate, carried opaquely in
/// configuration fields.
#[verifier::external_type_specification]
#[verifier::external_body]
pub struct ExRegex(regex::Regex);

/// Whether the regex crate accepts `p` as a pattern under its default
/// configuration. Acceptance depends on the pattern alone.
pub uninterp spec fn regex_ok(p: Seq<char>) -> bool;

/// Relies on `regex::Regex::new`: compilation succeeds if and only if
/// the pattern is valid and within the default size limit, which is a
/// function of the pattern alone.
#[verifier::external_body]
pub fn compile_pattern(p: &str) -> (r: Option<regex::Regex>)
    ensures
        r is Some <==> regex_ok(p@),
{
    regex::Regex::new(p).ok()
}

} // verus!

//! The matching collaborator, consumed through a few trusted calls into
//! the `regex` crate. Compiled patterns are opaque handles; the harness
//! only compiles them and invokes the three operations whose cost it
//! measures, discarding every result.

use vstd::prelude::*;
use crate::errors::CompileError;

verus! {

#[verifier::external_type_specification]
#[verifier::external_body]
pub struct ExRegex(regex::Regex);

/// Whether `regex::Regex::new` accepts this pattern: with the default
/// configuration it succeeds exactly on valid syntax within the default
/// size limits, a function of the pattern alone.
pub uninterp spec fn pattern_compiles(pattern: Seq<char>) -> bool;

/// Relies on `regex::Regex::new`: `Ok` holds a matcher compiled from
/// `pattern`, and whether compilation succeeds depends on the pattern
/// alone ([`pattern_compiles`]). On invalid syntax the error's `Display`
/// gives the diagnostic, carried here next to the offending pattern.
#[verifier::external_body]
pub(crate) fn compile_pattern(pattern: &str) -> (r: Result<regex::Regex, CompileError>)
    ensures
        r matches Ok(_) <==> pattern_compiles(pattern@),
        r matches Err(e) ==> e.pattern@ == pattern@ && !pattern_compiles(pattern@),
{
    match regex::Regex::new(pattern) {
        Ok(re) => Ok(re),
        Err(e) => Err(CompileError { pattern: pattern.to_string(), message: e.to_string() }),
    }
}

/// Relies on `regex::Regex::is_match`: whether the pattern matches
/// somewhere in the haystack. The harness discards the answer, so nothing
/// is claimed of it.
#[verifier::external_body]
pub(crate) fn regex_is_match(re: &regex::Regex, haystack: &str) -> bool {
    re.is_match(haystack)
}

/// Relies on `regex::Regex::find`: the byte span of the leftmost match, if
/// any. The harness discards the answer, so nothing is claimed of it.
#[verifier::external_body]
pub(crate) fn regex_find(re: &regex::Regex, haystack: &str) -> Option<(usize, usize)> {
    match re.find(haystack) {
        None => None,
        Some(m) => Some((m.start(), m.end())),
    }
}

/// Relies on `regex::Regex::find_iter`: the number of non-overlapping,
/// leftmost-first matches in the haystack; counting forces the whole
/// enumeration. The harness discards the answer, so nothing is claimed of
/// it.
#[verifier::external_body]
pub(crate) fn regex_find_count(re: &regex::Regex, haystack: &str) -> usize {
    re.find_iter(haystack).count()
}

/// Consumes a value the measured operation would otherwise discard.
/// Relies on `std::hint::black_box` to keep the optimizer from dropping
/// the call whose cost is being measured; the value itself is unused.
#[verifier::external_body]
pub(crate) fn force_value<T>(value: T) {
    std::hint::black_box(value);
}

} // verus!

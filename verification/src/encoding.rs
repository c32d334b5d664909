//! Text encoding checks.

use vstd::prelude::*;

verus! {

/// Relies on str::from_utf8, which its documentation promises returns `Ok`
/// exactly on well-formed UTF-8; `vstd::utf8::valid_utf8` is the same
/// predicate vstd requires of `str::from_utf8_unchecked`.
#[verifier::external_body]
pub(crate) fn utf8_ok(v: &[u8]) -> (r: bool)
    ensures
        r == vstd::utf8::valid_utf8(v@),
{
    core::str::from_utf8(v).is_ok()
}

} // verus!

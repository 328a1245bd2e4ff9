//! The calls into the standard library for which Verus has no specification.
//!
//! What each of them is trusted to do is written above it; nothing here is
//! proved.

use vstd::prelude::*;
use vstd::string::StringSliceAdditionalSpecFns;
use vstd::utf8::valid_utf8;

verus! {

/// Reads `bytes` as text, with `core::str::from_utf8`.
///
/// Trusted: the call succeeds exactly on the byte sequences that are
/// well-formed UTF-8, and the text it then returns is the one that these
/// bytes encode.
#[verifier::external_body]
pub(crate) fn text_of(bytes: &[u8]) -> (r: Option<&str>)
    ensures
        r is Some <==> valid_utf8(bytes@),
        r matches Some(s) ==> s.spec_bytes() == bytes@,
{
    core::str::from_utf8(bytes).ok()
}

/// Shows `bytes` to `core::hint::black_box`, so that the compiler treats the
/// writes that filled them as observed and is discouraged from removing them.
///
/// Trusted: nothing is claimed of the call; it leaves the bytes as they are.
#[verifier::external_body]
pub(crate) fn observe(bytes: &[u8]) {
    core::hint::black_box(bytes);
}

/// `<str as Hash>::hash`, which feeds a string slice to a hasher.
///
/// Trusted: nothing is claimed of what the hasher holds afterwards.
pub assume_specification<H: core::hash::Hasher>[ <str as core::hash::Hash>::hash ](
    s: &str,
    state: &mut H,
);

} // verus!

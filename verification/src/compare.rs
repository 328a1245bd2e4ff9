//! Equality of containers: by the text alone, whatever holds the bytes.

use vstd::prelude::*;
use vstd::std_specs::cmp::PartialEqSpecImpl;
use vstd::string::StringSliceAdditionalSpecFns;

use crate::bounded::BoundedStr;
use crate::policy::FormatPolicy;
use crate::policy::LengthPolicy;

verus! {

impl<
    const MIN: usize,
    const MAX: usize,
    const MAX_BYTES: usize,
    L: LengthPolicy,
    F: FormatPolicy,
    const Z: bool,
    const HEAP: bool,
> PartialEq for BoundedStr<MIN, MAX, MAX_BYTES, L, F, Z, HEAP> {
    /// Two containers are equal where their texts are. The bytes are compared
    /// with [`BoundedStr::constant_time_eq`].
    fn eq(&self, other: &Self) -> (equal: bool) {
        proof {
            use_type_invariant(self);
            use_type_invariant(other);
            self.lemma_same_text_same_bytes(other);
        }
        self.constant_time_eq(other.as_bytes())
    }
}

impl<
    const MIN: usize,
    const MAX: usize,
    const MAX_BYTES: usize,
    L: LengthPolicy,
    F: FormatPolicy,
    const Z: bool,
    const HEAP: bool,
> PartialEqSpecImpl for BoundedStr<MIN, MAX, MAX_BYTES, L, F, Z, HEAP> {
    open spec fn obeys_eq_spec() -> bool {
        true
    }

    open spec fn eq_spec(&self, other: &Self) -> bool {
        self@ == other@
    }
}

impl<
    const MIN: usize,
    const MAX: usize,
    const MAX_BYTES: usize,
    L: LengthPolicy,
    F: FormatPolicy,
    const Z: bool,
    const HEAP: bool,
> Eq for BoundedStr<MIN, MAX, MAX_BYTES, L, F, Z, HEAP> {

}

impl<
    'a,
    const MIN: usize,
    const MAX: usize,
    const MAX_BYTES: usize,
    L: LengthPolicy,
    F: FormatPolicy,
    const Z: bool,
    const HEAP: bool,
> PartialEq<&'a str> for BoundedStr<MIN, MAX, MAX_BYTES, L, F, Z, HEAP> {
    /// A container equals a string slice where its text is that of the slice.
    fn eq(&self, other: &&'a str) -> (equal: bool) {
        proof {
            use_type_invariant(self);
            self.lemma_bytes_encode_text();
            vstd::utf8::encode_utf8_decode_utf8(other@);
        }
        self.constant_time_eq(other.as_bytes())
    }
}

impl<
    'a,
    const MIN: usize,
    const MAX: usize,
    const MAX_BYTES: usize,
    L: LengthPolicy,
    F: FormatPolicy,
    const Z: bool,
    const HEAP: bool,
> PartialEqSpecImpl<&'a str> for BoundedStr<MIN, MAX, MAX_BYTES, L, F, Z, HEAP> {
    open spec fn obeys_eq_spec() -> bool {
        true
    }

    open spec fn eq_spec(&self, other: &&'a str) -> bool {
        self@ == other@
    }
}

} // verus!

//! Hashing of containers: by the text alone, whatever holds the bytes.

use vstd::prelude::*;

use crate::bounded::BoundedStr;
use crate::policy::FormatPolicy;
use crate::policy::LengthPolicy;

verus! {

impl<
    const MIN: usize,
    const MAX: usize,
    const MAX_BYTES: usize,
    L: LengthPolicy,
    F: FormatPolicy,
    const Z: bool,
    const HEAP: bool,
> core::hash::Hash for BoundedStr<MIN, MAX, MAX_BYTES, L, F, Z, HEAP> {
    /// Feeds the hasher the text as a string slice, so that containers with
    /// equal texts hash alike.
    fn hash<H: core::hash::Hasher>(&self, state: &mut H) {
        self.as_str().hash(state)
    }
}

} // verus!

//! Conversions from and to string slices.

use vstd::prelude::*;
use vstd::std_specs::convert::TryFromSpecImpl;

use crate::bounded::BoundedStr;
use crate::error::BoundedStrError;
use crate::policy::FormatPolicy;
use crate::policy::LengthPolicy;

verus! {

impl<
    const MIN: usize,
    const MAX: usize,
    const MAX_BYTES: usize,
    L: LengthPolicy,
    F: FormatPolicy,
    const Z: bool,
    const HEAP: bool,
> core::ops::Deref for BoundedStr<MIN, MAX, MAX_BYTES, L, F, Z, HEAP> {
    type Target = str;

    fn deref(&self) -> (s: &str)
        ensures
            s@ == self@,
    {
        self.as_str()
    }
}

impl<
    'a,
    const MIN: usize,
    const MAX: usize,
    const MAX_BYTES: usize,
    L: LengthPolicy,
    F: FormatPolicy,
    const Z: bool,
    const HEAP: bool,
> TryFrom<&'a str> for BoundedStr<MIN, MAX, MAX_BYTES, L, F, Z, HEAP> {
    type Error = BoundedStrError;

    /// The same as [`BoundedStr::new`].
    fn try_from(s: &'a str) -> (res: Result<Self, BoundedStrError>)
        ensures
            (match res {
                Ok(b) => Self::rejection(s@) is None && b.holds(s@),
                Err(e) => Self::rejection(s@) == Some(e),
            }),
    {
        Self::new(s)
    }
}

impl<
    'a,
    const MIN: usize,
    const MAX: usize,
    const MAX_BYTES: usize,
    L: LengthPolicy,
    F: FormatPolicy,
    const Z: bool,
    const HEAP: bool,
> TryFromSpecImpl<&'a str> for BoundedStr<MIN, MAX, MAX_BYTES, L, F, Z, HEAP> {
    /// The conversion promises a text, not one particular container: the
    /// allocation behind a text on the heap is not a function of the text.
    open spec fn obeys_try_from_spec() -> bool {
        false
    }

    open spec fn try_from_spec(s: &'a str) -> Result<Self, BoundedStrError> {
        match Self::rejection(s@) {
            Some(e) => Err(e),
            None => Ok(choose|b: Self| b@ == s@),
        }
    }
}

impl<
    const MIN: usize,
    const MAX: usize,
    const MAX_BYTES: usize,
    L: LengthPolicy,
    F: FormatPolicy,
    const Z: bool,
    const HEAP: bool,
> core::str::FromStr for BoundedStr<MIN, MAX, MAX_BYTES, L, F, Z, HEAP> {
    type Err = BoundedStrError;

    /// The same as [`BoundedStr::new`].
    fn from_str(s: &str) -> (res: Result<Self, BoundedStrError>)
        ensures
            (match res {
                Ok(b) => Self::rejection(s@) is None && b.holds(s@),
                Err(e) => Self::rejection(s@) == Some(e),
            }),
    {
        Self::new(s)
    }
}

} // verus!

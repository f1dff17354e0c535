//! A 32-bit count that is never zero.
use vstd::prelude::*;

verus! {

/// A non-zero `u32`.
#[derive(Debug, Clone, Copy, PartialEq, Eq)]
pub struct NonZeroU32 {
    value: u32,
}

impl NonZeroU32 {
    #[verifier::type_invariant]
    spec fn inv(self) -> bool {
        self.value > 0
    }

    /// The number held.
    pub closed spec fn spec_get(self) -> u32 {
        self.value
    }

    /// Holds `value`, unless it is zero.
    pub fn new(value: u32) -> (r: Option<Self>)
        ensures
            value == 0 <==> r is None,
            r matches Some(n) ==> n.spec_get() == value,
    {
        if value == 0 {
            None
        } else {
            Some(NonZeroU32 { value })
        }
    }

    /// The default queue depth.
    pub fn default_entries() -> (n: Self)
        ensures
            n.spec_get() == 1024,
    {
        NonZeroU32 { value: 1024 }
    }

    /// The number held.
    pub fn get(self) -> (value: u32)
        ensures
            value == self.spec_get(),
            value > 0,
    {
        proof {
            use_type_invariant(self);
        }
        self.value
    }
}

} // verus!

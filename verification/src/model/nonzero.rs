//! Non-zero integer newtypes used by the model.

use vstd::prelude::*;

verus! {

/// A `u32` that is never zero.
#[derive(Clone, Copy, Debug, PartialEq, Eq, PartialOrd, Ord, Hash, Structural)]
pub struct NonZeroU32(u32);

impl NonZeroU32 {
    #[verifier::type_invariant]
    closed spec fn inv(self) -> bool {
        self.0 != 0
    }

    /// The value, for contracts.
    pub closed spec fn value(self) -> u32 {
        self.0
    }

    /// `Some` exactly when `n` is not zero.
    pub fn new(n: u32) -> (r: Option<NonZeroU32>)
        ensures
            match r {
                Some(v) => n != 0 && v.value() == n,
                None => n == 0,
            },
    {
        if n == 0 {
            None
        } else {
            Some(NonZeroU32(n))
        }
    }

    /// The value.
    pub fn get(self) -> (r: u32)
        ensures
            r == self.value(),
            r != 0,
    {
        proof {
            use_type_invariant(&self);
        }
        self.0
    }
}

/// A `u64` that is never zero.
#[derive(Clone, Copy, Debug, PartialEq, Eq, PartialOrd, Ord, Hash, Structural)]
pub struct NonZeroU64(u64);

impl NonZeroU64 {
    #[verifier::type_invariant]
    closed spec fn inv(self) -> bool {
        self.0 != 0
    }

    /// The value, for contracts.
    pub closed spec fn value(self) -> u64 {
        self.0
    }

    /// `Some` exactly when `n` is not zero.
    pub fn new(n: u64) -> (r: Option<NonZeroU64>)
        ensures
            match r {
                Some(v) => n != 0 && v.value() == n,
                None => n == 0,
            },
    {
        if n == 0 {
            None
        } else {
            Some(NonZeroU64(n))
        }
    }

    /// The value.
    pub fn get(self) -> (r: u64)
        ensures
            r == self.value(),
            r != 0,
    {
        proof {
            use_type_invariant(&self);
        }
        self.0
    }
}

} // verus!

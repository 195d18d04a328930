//! Account addresses.
use vstd::prelude::*;

verus! {

/// A 32-byte account address, held as four 64-bit words.
#[derive(Clone, Copy, Debug, PartialEq, Eq, Structural)]
pub struct Address {
    pub w0: u64,
    pub w1: u64,
    pub w2: u64,
    pub w3: u64,
}

impl Address {
    /// The all-zero address, which marks an unused slot.
    pub open spec fn spec_zero() -> Address {
        Address { w0: 0, w1: 0, w2: 0, w3: 0 }
    }

    /// Whether this is the all-zero address.
    pub open spec fn is_zero(self) -> bool {
        self == Address::spec_zero()
    }

    /// The all-zero address.
    pub fn zero() -> (r: Address)
        ensures
            r == Address::spec_zero(),
    {
        Address { w0: 0, w1: 0, w2: 0, w3: 0 }
    }

    /// Whether this is the all-zero address.
    pub fn is_unset(&self) -> (r: bool)
        ensures
            r == self.is_zero(),
    {
        self.w0 == 0 && self.w1 == 0 && self.w2 == 0 && self.w3 == 0
    }

    /// The address with the given 32 bytes, read as four little-endian words.
    pub fn from_words(w0: u64, w1: u64, w2: u64, w3: u64) -> (r: Address)
        ensures
            r == (Address { w0, w1, w2, w3 }),
    {
        Address { w0, w1, w2, w3 }
    }
}

} // verus!

//! 20-byte account addresses.
use vstd::prelude::*;

verus! {

/// A 20-byte account address.
#[derive(Clone, Copy, Debug, PartialEq, Eq)]
pub struct Address {
    bytes: [u8; 20],
}

impl Address {
    /// The address made of the given bytes.
    pub fn new(bytes: [u8; 20]) -> (r: Address)
        ensures
            r.bytes() == bytes,
    {
        Address { bytes }
    }

    /// The bytes this address is made of.
    pub closed spec fn bytes(&self) -> [u8; 20] {
        self.bytes
    }

    /// The bytes of this address.
    pub fn to_bytes(&self) -> (r: [u8; 20])
        ensures
            r == self.bytes(),
    {
        self.bytes
    }

    /// Whether the two addresses are the same, byte for byte.
    pub fn same(&self, other: &Address) -> (r: bool)
        ensures
            r == (*self == *other),
    {
        let mut i: usize = 0;
        while i < 20
            invariant
                i <= 20,
                forall|j: int| 0 <= j < i ==> self.bytes[j] == other.bytes[j],
            decreases 20 - i,
        {
            if self.bytes[i] != other.bytes[i] {
                return false;
            }
            i = i + 1;
        }
        assert(self.bytes =~= other.bytes);
        true
    }
}

} // verus!

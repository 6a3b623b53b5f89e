use vstd::prelude::*;

verus! {

/// Number of bytes in an identity.
pub const ADDRESS_LEN: usize = 20;

/// An opaque fixed-width caller identity, compared only for equality.
#[derive(Clone, Copy, Debug)]
pub struct Address {
    pub bytes: [u8; 20],
}

impl Address {
    /// The identity whose bytes are all `b`.
    pub fn repeat_byte(b: u8) -> (r: Address)
        ensures
            forall|i: int| 0 <= i < ADDRESS_LEN ==> r.bytes@[i] == b,
    {
        Address { bytes: [b; 20] }
    }

    /// The identity with the given bytes.
    pub fn new(bytes: [u8; 20]) -> (r: Address)
        ensures
            r.bytes == bytes,
    {
        Address { bytes }
    }

    /// Byte-wise equality of two identities.
    pub fn same(&self, o: &Address) -> (r: bool)
        ensures
            r == (*self == *o),
    {
        let mut i: usize = 0;
        while i < ADDRESS_LEN
            invariant
                0 <= i <= ADDRESS_LEN,
                self.bytes@.len() == ADDRESS_LEN,
                o.bytes@.len() == ADDRESS_LEN,
                forall|j: int| 0 <= j < i ==> self.bytes@[j] == o.bytes@[j],
            decreases ADDRESS_LEN - i,
        {
            if self.bytes[i] != o.bytes[i] {
                return false;
            }
            i = i + 1;
        }
        proof {
            assert(self.bytes =~= o.bytes);
        }
        true
    }
}

impl PartialEq for Address {
    fn eq(&self, o: &Address) -> (r: bool) {
        self.same(o)
    }
}

impl vstd::std_specs::cmp::PartialEqSpecImpl for Address {
    open spec fn obeys_eq_spec() -> bool {
        true
    }

    open spec fn eq_spec(&self, o: &Address) -> bool {
        *self == *o
    }
}

impl Eq for Address {}

} // verus!

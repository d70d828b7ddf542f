//! Account addresses: 32-byte identities of every account on the ledger.

use vstd::prelude::*;

verus! {

/// Number of bytes in an account address.
pub const ADDRESS_LEN: usize = 32;

/// An owned copy of a byte vector.
pub fn clone_bytes(v: &Vec<u8>) -> (r: Vec<u8>)
    ensures
        r@ == v@,
{
    let mut r: Vec<u8> = Vec::new();
    let n = v.len();
    for i in 0..n
        invariant
            n == v@.len(),
            r@.len() == i,
            forall|j: int| 0 <= j < i ==> r@[j] == v@[j],
    {
        r.push(v[i]);
    }
    proof {
        assert(r@ =~= v@);
    }
    r
}

/// A 32-byte account address.  Wallets, assets, registry records and
/// programs are all identified by a value of this type.
#[derive(Debug)]
pub struct Address {
    bytes: Vec<u8>,
}

impl View for Address {
    type V = Seq<u8>;

    closed spec fn view(&self) -> Seq<u8> {
        self.bytes@
    }
}

impl Address {
    /// A well-formed address holds exactly 32 bytes.
    pub open spec fn wf(&self) -> bool {
        self@.len() == ADDRESS_LEN
    }

    /// Builds an address from raw bytes; fails unless exactly 32 bytes are given.
    pub fn from_bytes(bytes: Vec<u8>) -> (r: Option<Address>)
        ensures
            match r {
                Some(a) => a.wf() && a@ == bytes@,
                None => bytes@.len() != ADDRESS_LEN,
            },
    {
        if bytes.len() == ADDRESS_LEN {
            Some(Address { bytes })
        } else {
            None
        }
    }

    /// The raw bytes of the address.
    pub fn as_bytes(&self) -> (r: &Vec<u8>)
        ensures
            r@ == self@,
    {
        &self.bytes
    }

    /// Builds an address from a vector already known to hold 32 bytes.
    pub(crate) fn from_vec(bytes: Vec<u8>) -> (r: Address)
        requires
            bytes@.len() == ADDRESS_LEN,
        ensures
            r.wf(),
            r@ == bytes@,
    {
        Address { bytes }
    }

    /// An owned copy of the address.
    pub fn dup(&self) -> (r: Address)
        ensures
            r@ == self@,
    {
        Address { bytes: clone_bytes(&self.bytes) }
    }

    /// Byte-for-byte equality of two addresses.
    pub fn equals(&self, other: &Address) -> (r: bool)
        ensures
            r == (self@ == other@),
    {
        if self.bytes.len() != other.bytes.len() {
            assert(self@ != other@);
            return false;
        }
        let n = self.bytes.len();
        for i in 0..n
            invariant
                n == self.bytes.len(),
                n == other.bytes.len(),
                forall|j: int| 0 <= j < i ==> self.bytes@[j] == other.bytes@[j],
        {
            if self.bytes[i] != other.bytes[i] {
                return false;
            }
        }
        proof {
            assert(self@ =~= other@);
        }
        true
    }
}

} // verus!

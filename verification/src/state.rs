//! The registry record: one per managed asset, persisted at the record's
//! derived address, together with its fixed 121-byte serialized layout.

use vstd::bytes::{
    lemma_auto_spec_u64_to_from_le_bytes, spec_u64_from_le_bytes, spec_u64_to_le_bytes,
    u64_from_le_bytes, u64_to_le_bytes,
};
use vstd::prelude::*;

use crate::address::{Address, ADDRESS_LEN};

verus! {

/// Serialized size of a record: an 8-byte type tag, three 32-byte addresses,
/// two 8-byte counters and the bump byte.
pub const RECORD_SPACE: usize = 121;

/// Mathematical image of a registry record.
#[verifier::ext_equal]
pub struct RecordModel {
    pub authority: Seq<u8>,
    pub mint: Seq<u8>,
    pub supply_amount_per_mint: u64,
    pub authority_payer: Seq<u8>,
    pub total_mint_count: u64,
    pub bump: u8,
}

impl RecordModel {
    /// All three identities are full-length addresses.
    pub open spec fn wf(self) -> bool {
        &&& self.authority.len() == ADDRESS_LEN
        &&& self.mint.len() == ADDRESS_LEN
        &&& self.authority_payer.len() == ADDRESS_LEN
    }

    /// The same record with its issuance counter replaced.
    pub open spec fn with_count(self, c: u64) -> RecordModel {
        RecordModel { total_mint_count: c, ..self }
    }
}

/// The registry record for one managed asset: who delegated, which asset,
/// how much each issuance call mints, who funded creation, how many issuance
/// calls have completed, and the bump byte that makes the record's own
/// address valid and keyless.
#[derive(Debug)]
pub struct DappTokenManager {
    pub authority: Address,
    pub mint: Address,
    pub supply_amount_per_mint: u64,
    pub authority_payer: Address,
    pub total_mint_count: u64,
    pub bump: u8,
}

impl View for DappTokenManager {
    type V = RecordModel;

    open spec fn view(&self) -> RecordModel {
        RecordModel {
            authority: self.authority@,
            mint: self.mint@,
            supply_amount_per_mint: self.supply_amount_per_mint,
            authority_payer: self.authority_payer@,
            total_mint_count: self.total_mint_count,
            bump: self.bump,
        }
    }
}

impl DappTokenManager {
    pub open spec fn wf(&self) -> bool {
        self@.wf()
    }

    /// A fresh record: the issuance counter starts at zero.
    pub fn new(
        authority: Address,
        mint: Address,
        supply_amount_per_mint: u64,
        authority_payer: Address,
        bump: u8,
    ) -> (r: DappTokenManager)
        ensures
            r@.authority == authority@,
            r@.mint == mint@,
            r@.supply_amount_per_mint == supply_amount_per_mint,
            r@.authority_payer == authority_payer@,
            r@.total_mint_count == 0,
            r@.bump == bump,
    {
        DappTokenManager {
            authority,
            mint,
            supply_amount_per_mint,
            authority_payer,
            total_mint_count: 0,
            bump,
        }
    }

    /// An owned copy of the record.
    pub fn dup(&self) -> (r: DappTokenManager)
        ensures
            r@ == self@,
    {
        let r = DappTokenManager {
            authority: self.authority.dup(),
            mint: self.mint.dup(),
            supply_amount_per_mint: self.supply_amount_per_mint,
            authority_payer: self.authority_payer.dup(),
            total_mint_count: self.total_mint_count,
            bump: self.bump,
        };
        proof {
            assert(r@ =~= self@);
        }
        r
    }
}

/// The 8-byte type tag that opens every serialized record.
pub open spec fn record_tag() -> Seq<u8> {
    seq![100u8, 116u8, 109u8, 103u8, 114u8, 101u8, 99u8, 100u8]
}

/// The fixed 121-byte layout: tag, authority, asset, issuance amount
/// (little endian), paying authority, issuance counter (little endian),
/// bump.
pub open spec fn spec_serialize(r: RecordModel) -> Seq<u8> {
    record_tag() + r.authority + r.mint + spec_u64_to_le_bytes(r.supply_amount_per_mint)
        + r.authority_payer + spec_u64_to_le_bytes(r.total_mint_count) + seq![r.bump]
}

/// Decoding: accepts exactly the well-tagged 121-byte images.
pub open spec fn spec_deserialize(s: Seq<u8>) -> Option<RecordModel> {
    if s.len() == RECORD_SPACE && s.subrange(0, 8) == record_tag() {
        Some(
            RecordModel {
                authority: s.subrange(8, 40),
                mint: s.subrange(40, 72),
                supply_amount_per_mint: spec_u64_from_le_bytes(s.subrange(72, 80)),
                authority_payer: s.subrange(80, 112),
                total_mint_count: spec_u64_from_le_bytes(s.subrange(112, 120)),
                bump: s[120],
            },
        )
    } else {
        None
    }
}

/// Appends all of `v` to `out`.
fn append_bytes(out: &mut Vec<u8>, v: &Vec<u8>)
    ensures
        final(out)@ == old(out)@ + v@,
{
    let n = v.len();
    for i in 0..n
        invariant
            n == v@.len(),
            out@ == old(out)@ + v@.subrange(0, i as int),
    {
        out.push(v[i]);
        proof {
            assert(out@ =~= old(out)@ + v@.subrange(0, i + 1));
        }
    }
    proof {
        assert(out@ =~= old(out)@ + v@);
    }
}

impl DappTokenManager {
    /// Serializes the record into its fixed 121-byte layout.
    pub fn to_bytes(&self) -> (r: Vec<u8>)
        requires
            self.wf(),
        ensures
            r@ == spec_serialize(self@),
            r@.len() == RECORD_SPACE,
    {
        let mut out: Vec<u8> = Vec::new();
        out.push(100);
        out.push(116);
        out.push(109);
        out.push(103);
        out.push(114);
        out.push(101);
        out.push(99);
        out.push(100);
        proof {
            assert(out@ =~= record_tag());
        }
        append_bytes(&mut out, self.authority.as_bytes());
        append_bytes(&mut out, self.mint.as_bytes());
        let amount = u64_to_le_bytes(self.supply_amount_per_mint);
        append_bytes(&mut out, &amount);
        append_bytes(&mut out, self.authority_payer.as_bytes());
        let count = u64_to_le_bytes(self.total_mint_count);
        append_bytes(&mut out, &count);
        out.push(self.bump);
        proof {
            assert(out@ =~= spec_serialize(self@));
        }
        out
    }

    /// Decodes a record from its serialized layout; fails exactly on inputs
    /// that no well-formed record serializes to.
    pub fn from_bytes(bytes: &Vec<u8>) -> (r: Option<DappTokenManager>)
        ensures
            match r {
                Some(rec) => {
                    &&& spec_deserialize(bytes@) == Some(rec@)
                    &&& rec.wf()
                },
                None => spec_deserialize(bytes@) is None,
            },
    {
        if bytes.len() != RECORD_SPACE {
            return None;
        }
        let tag = sub_vec(bytes, 0, 8);
        let expected = record_tag_bytes();
        if !bytes_equal(&tag, &expected) {
            proof {
                assert(bytes@.subrange(0, 8) != record_tag());
            }
            return None;
        }
        let rec = DappTokenManager {
            authority: Address::from_vec(sub_vec(bytes, 8, 40)),
            mint: Address::from_vec(sub_vec(bytes, 40, 72)),
            supply_amount_per_mint: u64_from_le_bytes(sub_vec(bytes, 72, 80).as_slice()),
            authority_payer: Address::from_vec(sub_vec(bytes, 80, 112)),
            total_mint_count: u64_from_le_bytes(sub_vec(bytes, 112, 120).as_slice()),
            bump: bytes[120],
        };
        proof {
            assert(bytes@.subrange(0, 8) =~= record_tag());
        }
        Some(rec)
    }
}

/// The type tag as a concrete vector.
fn record_tag_bytes() -> (r: Vec<u8>)
    ensures
        r@ == record_tag(),
{
    let mut out: Vec<u8> = Vec::new();
    out.push(100);
    out.push(116);
    out.push(109);
    out.push(103);
    out.push(114);
    out.push(101);
    out.push(99);
    out.push(100);
    proof {
        assert(out@ =~= record_tag());
    }
    out
}

/// Copies `v[start..end]` out as a fresh vector.
fn sub_vec(v: &Vec<u8>, start: usize, end: usize) -> (r: Vec<u8>)
    requires
        start <= end <= v@.len(),
    ensures
        r@ == v@.subrange(start as int, end as int),
{
    let mut r: Vec<u8> = Vec::new();
    let mut i = start;
    while i < end
        invariant
            start <= i <= end <= v@.len(),
            r@ == v@.subrange(start as int, i as int),
        decreases end - i,
    {
        r.push(v[i]);
        proof {
            assert(r@ =~= v@.subrange(start as int, i + 1));
        }
        i = i + 1;
    }
    r
}

/// Byte-for-byte equality of two vectors.
fn bytes_equal(a: &Vec<u8>, b: &Vec<u8>) -> (r: bool)
    ensures
        r == (a@ == b@),
{
    if a.len() != b.len() {
        assert(a@ != b@);
        return false;
    }
    let n = a.len();
    for i in 0..n
        invariant
            n == a@.len(),
            n == b@.len(),
            forall|j: int| 0 <= j < i ==> a@[j] == b@[j],
    {
        if a[i] != b[i] {
            return false;
        }
    }
    proof {
        assert(a@ =~= b@);
    }
    true
}

/// Serialization round-trips: decoding the encoding of any well-formed
/// record yields that record back.
pub proof fn lemma_record_roundtrip(r: RecordModel)
    requires
        r.wf(),
    ensures
        spec_deserialize(spec_serialize(r)) == Some(r),
{
    lemma_auto_spec_u64_to_from_le_bytes();
    let s = spec_serialize(r);
    assert(s.len() == RECORD_SPACE);
    assert(s.subrange(0, 8) =~= record_tag());
    assert(s.subrange(8, 40) =~= r.authority);
    assert(s.subrange(40, 72) =~= r.mint);
    assert(s.subrange(72, 80) =~= spec_u64_to_le_bytes(r.supply_amount_per_mint));
    assert(s.subrange(80, 112) =~= r.authority_payer);
    assert(s.subrange(112, 120) =~= spec_u64_to_le_bytes(r.total_mint_count));
    assert(s[120] == r.bump);
    let d = spec_deserialize(s)->Some_0;
    assert(d =~= r);
}

} // verus!

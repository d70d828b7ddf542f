//! Deterministic address derivation.
//!
//! A registry record lives at a keyless address derived from
//! `(seed prefix, asset, authority)` under the registry program's id.  The
//! derivation itself is the ledger environment's hash construction; this
//! module calls it through trusted wrappers and gives its results names that
//! the rest of the library reasons with:
//!
//! - `derived_address`: the bump search (an address provably without a
//!   private key, plus the bump byte that made it valid);
//! - `program_address`: the direct hash of a full seed tuple, used to verify
//!   a stored `(seeds, bump)` pair and to model seed-based signing;
//! - `associated_address`: the canonical balance-account address for a
//!   wallet and an asset.

use vstd::prelude::*;

use anchor_lang::prelude::Pubkey;

use crate::address::{clone_bytes, Address};
use crate::errors::TokenManagerError;

verus! {

/// Registry configuration: the registry program's identity and the seed
/// prefix under which it derives record addresses.
pub struct Config {
    pub program_id: Address,
    pub seed_prefix: Vec<u8>,
}

impl Config {
    pub open spec fn wf(&self) -> bool {
        self.program_id.wf()
    }
}

/// What the bump search returns for a seed tuple and program id: the derived
/// address and bump, or nothing when no bump yields a keyless address.  A
/// pure function of its arguments.
pub uninterp spec fn derived_address(seeds: Seq<Seq<u8>>, program: Seq<u8>) -> Option<
    (Seq<u8>, u8),
>;

/// What hashing one full seed tuple under a program id yields: an address,
/// or nothing when the seeds are invalid or the hash lands on the curve.  A
/// pure function of its arguments.
pub uninterp spec fn program_address(seeds: Seq<Seq<u8>>, program: Seq<u8>) -> Option<Seq<u8>>;

/// The canonical balance-account address for a wallet and an asset.  A pure
/// function of its arguments.
pub uninterp spec fn associated_address(owner: Seq<u8>, asset: Seq<u8>) -> Seq<u8>;

/// The seed tuple a registry record's address is derived from.
pub open spec fn record_seeds(prefix: Seq<u8>, asset: Seq<u8>, authority: Seq<u8>) -> Seq<Seq<u8>> {
    seq![prefix, asset, authority]
}

/// The record seeds extended with the bump byte: the tuple that re-creates
/// the record's address directly, and the tuple it signs with.
pub open spec fn signing_seeds(
    prefix: Seq<u8>,
    asset: Seq<u8>,
    authority: Seq<u8>,
    bump: u8,
) -> Seq<Seq<u8>> {
    seq![prefix, asset, authority, seq![bump]]
}

/// Relies on `Pubkey::try_find_program_address`: the result is a function of
/// the seeds and program id alone; on success the returned address is 32
/// bytes and is re-created by `Pubkey::create_program_address` on the seeds
/// extended with the returned bump.  The search descends from the highest
/// bump and stops at the first valid one, so every bump above the returned
/// one yields no keyless address.
#[verifier::external_body]
fn find_derived_address(seeds: &Vec<Vec<u8>>, program: &Address) -> (r: Option<(Address, u8)>)
    requires
        program.wf(),
    ensures
        match r {
            Some(p) => {
                &&& derived_address(seeds.deep_view(), program@) == Some((p.0@, p.1))
                &&& p.0.wf()
                &&& program_address(seeds.deep_view().push(seq![p.1]), program@) == Some(p.0@)
                &&& forall|b2: u8|
                    p.1 < b2 ==> (#[trigger] program_address(
                        seeds.deep_view().push(seq![b2]),
                        program@,
                    )) is None
            },
            None => derived_address(seeds.deep_view(), program@) is None,
        },
{
    let slices: Vec<&[u8]> = seeds.iter().map(|s| s.as_slice()).collect();
    let pk = Pubkey::try_from(program.as_bytes().as_slice()).unwrap();
    Pubkey::try_find_program_address(&slices, &pk)
        .map(|(a, b)| (Address::from_bytes(a.to_bytes().to_vec()).unwrap(), b))
}

/// Relies on `Pubkey::create_program_address`: a deterministic hash of the
/// seed tuple and program id; its `Err` (seeds too long, or the hash is a
/// valid curve point) is returned as `None`; a returned address is 32 bytes.
#[verifier::external_body]
fn compute_program_address(seeds: &Vec<Vec<u8>>, program: &Address) -> (r: Option<Address>)
    requires
        program.wf(),
    ensures
        match r {
            Some(a) => {
                &&& program_address(seeds.deep_view(), program@) == Some(a@)
                &&& a.wf()
            },
            None => program_address(seeds.deep_view(), program@) is None,
        },
{
    let slices: Vec<&[u8]> = seeds.iter().map(|s| s.as_slice()).collect();
    let pk = Pubkey::try_from(program.as_bytes().as_slice()).unwrap();
    match Pubkey::create_program_address(&slices, &pk) {
        Ok(a) => Some(Address::from_bytes(a.to_bytes().to_vec()).unwrap()),
        Err(_) => None,
    }
}

/// Relies on `anchor_spl::associated_token::get_associated_token_address`:
/// the balance-account address is a function of the wallet and asset alone,
/// and is 32 bytes.  Its internal bump search aborts only in the
/// statistically improbable event that no bump byte yields a keyless
/// address.
#[verifier::external_body]
pub(crate) fn find_associated_address(owner: &Address, asset: &Address) -> (r: Address)
    requires
        owner.wf(),
        asset.wf(),
    ensures
        r@ == associated_address(owner@, asset@),
        r.wf(),
{
    let o = Pubkey::try_from(owner.as_bytes().as_slice()).unwrap();
    let a = Pubkey::try_from(asset.as_bytes().as_slice()).unwrap();
    let ata = anchor_spl::associated_token::get_associated_token_address(&o, &a);
    Address::from_bytes(ata.to_bytes().to_vec()).unwrap()
}

/// The canonical balance-account address for a wallet and an asset.
pub fn derive_associated_address(owner: &Address, asset: &Address) -> (r: Address)
    requires
        owner.wf(),
        asset.wf(),
    ensures
        r@ == associated_address(owner@, asset@),
        r.wf(),
{
    find_associated_address(owner, asset)
}

/// Builds the record seed tuple as concrete byte vectors.
fn build_record_seeds(prefix: &Vec<u8>, asset: &Address, authority: &Address) -> (r: Vec<Vec<u8>>)
    ensures
        r.deep_view() == record_seeds(prefix@, asset@, authority@),
{
    let mut r: Vec<Vec<u8>> = Vec::new();
    r.push(clone_bytes(prefix));
    r.push(clone_bytes(asset.as_bytes()));
    r.push(clone_bytes(authority.as_bytes()));
    proof {
        assert(r.deep_view() =~~= record_seeds(prefix@, asset@, authority@));
    }
    r
}

/// Builds the concrete signing seed tuple for a record: the record seeds
/// extended with the bump byte.  Every seed-derived signature must reproduce
/// exactly this tuple; any drift — wrong bump, wrong ordering, stale
/// authority — re-creates a different address and fails verification.
pub fn build_signing_seeds(
    prefix: &Vec<u8>,
    asset: &Address,
    authority: &Address,
    bump: u8,
) -> (r: Vec<Vec<u8>>)
    ensures
        r.deep_view() == signing_seeds(prefix@, asset@, authority@, bump),
{
    let mut seeds = build_record_seeds(prefix, asset, authority);
    let ghost base = seeds.deep_view();
    let mut bump_seed: Vec<u8> = Vec::new();
    bump_seed.push(bump);
    proof {
        assert(bump_seed@ =~= seq![bump]);
    }
    seeds.push(bump_seed);
    proof {
        assert(seeds.deep_view() =~~= base.push(seq![bump]));
        assert(base.push(seq![bump]) =~~= signing_seeds(prefix@, asset@, authority@, bump));
    }
    seeds
}

/// Derives the registry record address for `(seed prefix, asset, authority)`
/// under the registry program, together with its bump byte.  Fails exactly
/// when no bump in range yields a keyless address.  The bump is canonical:
/// the search tries decreasing bump values until one succeeds, so no larger
/// bump yields a keyless address for these seeds.
pub fn derive_manager_address(cfg: &Config, asset: &Address, authority: &Address) -> (r: Result<
    (Address, u8),
    TokenManagerError,
>)
    requires
        cfg.wf(),
    ensures
        match r {
            Ok(p) => {
                &&& derived_address(
                    record_seeds(cfg.seed_prefix@, asset@, authority@),
                    cfg.program_id@,
                ) == Some((p.0@, p.1))
                &&& program_address(
                    signing_seeds(cfg.seed_prefix@, asset@, authority@, p.1),
                    cfg.program_id@,
                ) == Some(p.0@)
                &&& forall|b2: u8|
                    p.1 < b2 ==> (#[trigger] program_address(
                        signing_seeds(cfg.seed_prefix@, asset@, authority@, b2),
                        cfg.program_id@,
                    )) is None
                &&& p.0.wf()
            },
            Err(e) => {
                &&& e == TokenManagerError::DerivationExhausted
                &&& derived_address(
                    record_seeds(cfg.seed_prefix@, asset@, authority@),
                    cfg.program_id@,
                ) is None
            },
        },
{
    let seeds = build_record_seeds(&cfg.seed_prefix, asset, authority);
    match find_derived_address(&seeds, &cfg.program_id) {
        Some(p) => {
            proof {
                assert(seeds.deep_view().push(seq![p.1]) =~~= signing_seeds(
                    cfg.seed_prefix@,
                    asset@,
                    authority@,
                    p.1,
                ));
                assert forall|b2: u8|
                    p.1 < b2 implies (program_address(
                    signing_seeds(cfg.seed_prefix@, asset@, authority@, b2),
                    cfg.program_id@,
                )) is None by {
                    assert(seeds.deep_view().push(seq![b2]) =~~= signing_seeds(
                        cfg.seed_prefix@,
                        asset@,
                        authority@,
                        b2,
                    ));
                }
            }
            Ok(p)
        },
        None => Err(TokenManagerError::DerivationExhausted),
    }
}

/// Re-creates the address that `(seed prefix, asset, authority, bump)` hashes
/// to and compares it with `expected`: the re-derivation check that stands in
/// for a signature by the keyless controller.
pub fn verify_record_address(
    cfg: &Config,
    asset: &Address,
    authority: &Address,
    bump: u8,
    expected: &Address,
) -> (r: bool)
    requires
        cfg.wf(),
    ensures
        r == (program_address(
            signing_seeds(cfg.seed_prefix@, asset@, authority@, bump),
            cfg.program_id@,
        ) == Some(expected@)),
{
    let seeds = build_signing_seeds(&cfg.seed_prefix, asset, authority, bump);
    match compute_program_address(&seeds, &cfg.program_id) {
        Some(a) => a.equals(expected),
        None => false,
    }
}

/// Re-deriving a record address is deterministic: two derivations from the
/// same seed prefix, asset and authority under the same program agree on
/// both the address and the bump byte.
pub proof fn lemma_derivation_deterministic(
    prefix: Seq<u8>,
    asset: Seq<u8>,
    authority: Seq<u8>,
    program: Seq<u8>,
    r1: Option<(Seq<u8>, u8)>,
    r2: Option<(Seq<u8>, u8)>,
)
    requires
        r1 == derived_address(record_seeds(prefix, asset, authority), program),
        r2 == derived_address(record_seeds(prefix, asset, authority), program),
    ensures
        r1 == r2,
{
}

} // verus!

//! The Manager Creation Protocol: bind a fresh asset to a keyless registry
//! record and hand the record mint and freeze authority over it.
//!
//! The three steps, in mandatory order: create the backing account for the
//! new asset (funded by the paying authority), create the registry record at
//! its re-derived address, and initialize the asset registrar with the
//! record as both authorities, authorized by the record's seed-derived
//! signature.  The whole operation is atomic: any failure leaves the ledger
//! untouched.

use vstd::prelude::*;

use crate::address::Address;
use crate::context::{ContextModel, InvocationContext};
use crate::derivation::{
    derive_manager_address, derived_address, program_address, record_seeds, signing_seeds,
    verify_record_address, Config,
};
use crate::errors::TokenManagerError;
use crate::ledger::{
    spec_create_account, spec_create_record, spec_initialize_registrar, Ledger, LedgerModel,
    ASSET_ACCOUNT_LAMPORTS, ASSET_DECIMALS,
};
use crate::state::{DappTokenManager, RecordModel};

verus! {

/// Spec transition of manager creation: the record that is created and the
/// ledger after all three steps, or the first error encountered.
pub open spec fn spec_create_manager(
    l: LedgerModel,
    prefix: Seq<u8>,
    program: Seq<u8>,
    asset: Seq<u8>,
    authority: Seq<u8>,
    supply_amount_per_mint: u64,
    payer: Seq<u8>,
    record_account: Seq<u8>,
    ctx: ContextModel,
) -> Result<(LedgerModel, RecordModel), TokenManagerError> {
    if supply_amount_per_mint == 0 {
        Err(TokenManagerError::InvalidIssuanceAmount)
    } else {
        match derived_address(record_seeds(prefix, asset, authority), program) {
            None => Err(TokenManagerError::DerivationExhausted),
            Some(d) => {
                if d.0 != record_account {
                    Err(TokenManagerError::RecordAddressMismatch)
                } else if l.records.contains_key(record_account) {
                    // Exactly one record per (seed prefix, asset, authority)
                    // triple: a bound record address refuses re-creation
                    // before any other step.
                    Err(TokenManagerError::RecordAlreadyExists)
                } else {
                    match spec_create_account(l, payer, asset, ASSET_ACCOUNT_LAMPORTS, ctx) {
                        Err(e) => Err(e),
                        Ok(l1) => {
                            let rec = RecordModel {
                                authority,
                                mint: asset,
                                supply_amount_per_mint,
                                authority_payer: payer,
                                total_mint_count: 0,
                                bump: d.1,
                            };
                            match spec_create_record(l1, record_account, rec) {
                                Err(e) => Err(e),
                                Ok(l2) => {
                                    let signed = program_address(
                                        signing_seeds(prefix, asset, authority, d.1),
                                        program,
                                    ) == Some(record_account);
                                    match spec_initialize_registrar(
                                        l2,
                                        asset,
                                        record_account,
                                        record_account,
                                        ASSET_DECIMALS,
                                        signed,
                                    ) {
                                        Err(e) => Err(e),
                                        Ok(l3) => Ok((l3, rec)),
                                    }
                                },
                            }
                        },
                    }
                }
            },
        }
    }
}

/// Creates a registry record for a fresh asset and delegates the asset's
/// mint and freeze authority to it.
///
/// `asset` is the caller-supplied fresh address reserved for the new asset,
/// `authority` the identity recorded as delegation owner, `payer` the funding
/// identity, and `record_account` the address the caller expects the record
/// at, which must re-derive from the seeds.  On success the returned record
/// is the one persisted at `record_account`, with its counter at zero; on
/// failure the ledger is unchanged.
pub fn create_dapp_token_manager(
    ledger: &mut Ledger,
    cfg: &Config,
    asset: &Address,
    authority: &Address,
    supply_amount_per_mint: u64,
    payer: &Address,
    record_account: &Address,
    ctx: &InvocationContext,
) -> (r: Result<DappTokenManager, TokenManagerError>)
    requires
        old(ledger).wf(),
        cfg.wf(),
        asset.wf(),
        authority.wf(),
        payer.wf(),
    ensures
        final(ledger).wf(),
        match r {
            Ok(rec) => {
                &&& spec_create_manager(
                    old(ledger)@,
                    cfg.seed_prefix@,
                    cfg.program_id@,
                    asset@,
                    authority@,
                    supply_amount_per_mint,
                    payer@,
                    record_account@,
                    ctx@,
                ) == Ok::<_, TokenManagerError>((final(ledger)@, rec@))
                &&& rec.wf()
            },
            Err(e) => {
                &&& spec_create_manager(
                    old(ledger)@,
                    cfg.seed_prefix@,
                    cfg.program_id@,
                    asset@,
                    authority@,
                    supply_amount_per_mint,
                    payer@,
                    record_account@,
                    ctx@,
                ) == Err::<(LedgerModel, RecordModel), _>(e)
                &&& final(ledger)@ == old(ledger)@
            },
        },
{
    if supply_amount_per_mint == 0 {
        return Err(TokenManagerError::InvalidIssuanceAmount);
    }
    let (derived, bump) = match derive_manager_address(cfg, asset, authority) {
        Err(e) => {
            return Err(e);
        },
        Ok(p) => p,
    };
    if !derived.equals(record_account) {
        return Err(TokenManagerError::RecordAddressMismatch);
    }
    if ledger.record_at(record_account).is_some() {
        return Err(TokenManagerError::RecordAlreadyExists);
    }

    // All remaining checks come before any mutation, in the order the spec
    // transition performs them, so that a failing step leaves no trace.
    if !ctx.signer(payer) {
        return Err(TokenManagerError::MissingSignature);
    }
    if !ctx.signer(asset) {
        return Err(TokenManagerError::MissingSignature);
    }
    if asset_account_exists(ledger, asset) {
        return Err(TokenManagerError::AssetAccountAlreadyExists);
    }
    if ledger.wallet_lamports(payer) < ASSET_ACCOUNT_LAMPORTS {
        return Err(TokenManagerError::InsufficientFunds);
    }
    // The registrar is initialized under the record's seed-derived
    // signature; re-derivation proves it valid.
    let signed = verify_record_address(cfg, asset, authority, bump, record_account);
    assert(signed);

    let ghost l0 = ledger@;
    match ledger.create_account(payer, asset, ASSET_ACCOUNT_LAMPORTS, ctx) {
        Ok(()) => (),
        Err(e) => {
            proof {
                assert(false);
            }
            return Err(e);
        },
    }
    let rec = DappTokenManager::new(
        authority.dup(),
        asset.dup(),
        supply_amount_per_mint,
        payer.dup(),
        bump,
    );
    match ledger.create_record(record_account, rec.dup()) {
        Ok(()) => (),
        Err(e) => {
            proof {
                assert(false);
            }
            return Err(e);
        },
    }
    match ledger.initialize_registrar(asset, record_account, record_account, ASSET_DECIMALS, signed)
    {
        Ok(()) => (),
        Err(e) => {
            proof {
                assert(false);
            }
            return Err(e);
        },
    }
    proof {
        let spec_rec = RecordModel {
            authority: authority@,
            mint: asset@,
            supply_amount_per_mint,
            authority_payer: payer@,
            total_mint_count: 0,
            bump,
        };
        assert(rec@ =~= spec_rec);
        assert(spec_create_manager(
            l0,
            cfg.seed_prefix@,
            cfg.program_id@,
            asset@,
            authority@,
            supply_amount_per_mint,
            payer@,
            record_account@,
            ctx@,
        ) == Ok::<_, TokenManagerError>((ledger@, rec@)));
    }
    Ok(rec)
}

/// Whether an account exists at the asset address.
fn asset_account_exists(ledger: &Ledger, asset: &Address) -> (r: bool)
    requires
        ledger.wf(),
    ensures
        r == ledger@.assets.contains_key(asset@),
{
    ledger.asset_at(asset).is_some()
}

/// Creating a manager twice with identical inputs fails the second time
/// with the record-already-exists error, and the record written by the
/// first call is still bound, unchanged, at the derived address.
pub proof fn lemma_create_manager_twice_fails(
    l0: LedgerModel,
    prefix: Seq<u8>,
    program: Seq<u8>,
    asset: Seq<u8>,
    authority: Seq<u8>,
    supply_amount_per_mint: u64,
    payer: Seq<u8>,
    record_account: Seq<u8>,
    ctx: ContextModel,
    l1: LedgerModel,
    rec: RecordModel,
)
    requires
        spec_create_manager(
            l0,
            prefix,
            program,
            asset,
            authority,
            supply_amount_per_mint,
            payer,
            record_account,
            ctx,
        ) == Ok::<_, TokenManagerError>((l1, rec)),
    ensures
        spec_create_manager(
            l1,
            prefix,
            program,
            asset,
            authority,
            supply_amount_per_mint,
            payer,
            record_account,
            ctx,
        ) == Err::<(LedgerModel, RecordModel), _>(TokenManagerError::RecordAlreadyExists),
        l1.records.contains_key(record_account),
        l1.records[record_account] == rec,
{
}

/// After a successful creation, the asset registrar's mint and freeze
/// authorities both equal the record's address, the record is bound at the
/// address derived from the seeds, and its issuance counter is zero.
pub proof fn lemma_create_manager_binds_authorities(
    l0: LedgerModel,
    prefix: Seq<u8>,
    program: Seq<u8>,
    asset: Seq<u8>,
    authority: Seq<u8>,
    supply_amount_per_mint: u64,
    payer: Seq<u8>,
    record_account: Seq<u8>,
    ctx: ContextModel,
    l1: LedgerModel,
    rec: RecordModel,
)
    requires
        spec_create_manager(
            l0,
            prefix,
            program,
            asset,
            authority,
            supply_amount_per_mint,
            payer,
            record_account,
            ctx,
        ) == Ok::<_, TokenManagerError>((l1, rec)),
    ensures
        l1.assets.contains_key(asset),
        l1.assets[asset] is Initialized,
        l1.assets[asset]->Initialized_0.mint_authority == record_account,
        l1.assets[asset]->Initialized_0.freeze_authority == record_account,
        l1.records.contains_key(record_account),
        l1.records[record_account] == rec,
        rec.total_mint_count == 0,
        rec.mint == asset,
        rec.authority == authority,
        derived_address(record_seeds(prefix, asset, authority), program) == Some(
            (record_account, rec.bump),
        ),
{
}

} // verus!

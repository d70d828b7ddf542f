//! The Issuance Protocol: mint one fixed batch of an asset to a recipient
//! under the registry record's seed-derived authority.
//!
//! Steps: re-derive and verify the record's address from its stored seeds
//! and bump, ensure the recipient has a balance account (idempotent), mint
//! `supply_amount_per_mint` units into it, and increment the record's
//! issuance counter by exactly one.  The whole call is atomic: any failure
//! leaves the ledger untouched.
//!
//! There is no per-recipient throttling: the same recipient may call again
//! and again, each call minting another fixed batch.

use vstd::prelude::*;

use crate::address::Address;
use crate::context::{ContextModel, InvocationContext};
use crate::derivation::{
    associated_address, find_associated_address, program_address, signing_seeds,
    verify_record_address, Config,
};
use crate::errors::TokenManagerError;
use crate::ledger::{
    balance_of, spec_create_associated_account, spec_mint_to, AssetAccount, Ledger, LedgerModel,
    BALANCE_ACCOUNT_LAMPORTS,
};

verus! {

/// Spec transition of one issuance call: the ledger after the mint and the
/// counter increment, or the first error encountered.
pub open spec fn spec_issue(
    l: LedgerModel,
    prefix: Seq<u8>,
    program: Seq<u8>,
    asset: Seq<u8>,
    record_account: Seq<u8>,
    recipient: Seq<u8>,
    user: Seq<u8>,
    ctx: ContextModel,
) -> Result<LedgerModel, TokenManagerError> {
    if !l.records.contains_key(record_account) {
        Err(TokenManagerError::RecordMissing)
    } else {
        let rec = l.records[record_account];
        if rec.mint != asset {
            Err(TokenManagerError::AssetMismatch)
        } else if program_address(signing_seeds(prefix, asset, rec.authority, rec.bump), program)
            != Some(record_account) {
            Err(TokenManagerError::RecordAddressMismatch)
        } else if rec.total_mint_count == u64::MAX {
            Err(TokenManagerError::ArithmeticOverflow)
        } else {
            match spec_create_associated_account(l, user, recipient, asset, ctx) {
                Err(e) => Err(e),
                Ok(l1) => if l1.assets.contains_key(asset) && l1.assets[asset] is Initialized
                    && l1.assets[asset]->Initialized_0.freeze_authority != record_account {
                    // The record must hold the freeze authority as well as the
                    // mint authority: checked before every issuance.
                    Err(TokenManagerError::NotFreezeAuthority)
                } else {
                    let dest = associated_address(recipient, asset);
                    match spec_mint_to(
                        l1,
                        asset,
                        dest,
                        record_account,
                        rec.supply_amount_per_mint,
                        true,
                    ) {
                        Err(e) => Err(e),
                        Ok(l2) => Ok(
                            LedgerModel {
                                records: l2.records.insert(
                                    record_account,
                                    rec.with_count((rec.total_mint_count + 1) as u64),
                                ),
                                ..l2
                            },
                        ),
                    }
                },
            }
        }
    }
}

/// Mints one batch of `asset` to `recipient`: creates the recipient's
/// balance account if absent (paid by `user`, who signs), mints the record's
/// fixed per-call amount into it under the record's seed-derived authority,
/// and increments the record's issuance counter by one.  Fails, mutating
/// nothing, if the asset does not match the record, if the record's address
/// does not re-derive from its stored seeds and bump, if the registrar's
/// mint or freeze authority is not the record, or if any ledger step is
/// refused.
pub fn mint_dapp_token_supply(
    ledger: &mut Ledger,
    cfg: &Config,
    asset: &Address,
    record_account: &Address,
    recipient: &Address,
    user: &Address,
    ctx: &InvocationContext,
) -> (r: Result<(), TokenManagerError>)
    requires
        old(ledger).wf(),
        cfg.wf(),
        asset.wf(),
        recipient.wf(),
    ensures
        final(ledger).wf(),
        match r {
            Ok(()) => spec_issue(
                old(ledger)@,
                cfg.seed_prefix@,
                cfg.program_id@,
                asset@,
                record_account@,
                recipient@,
                user@,
                ctx@,
            ) == Ok::<LedgerModel, TokenManagerError>(final(ledger)@),
            Err(e) => {
                &&& spec_issue(
                    old(ledger)@,
                    cfg.seed_prefix@,
                    cfg.program_id@,
                    asset@,
                    record_account@,
                    recipient@,
                    user@,
                    ctx@,
                ) == Err::<LedgerModel, TokenManagerError>(e)
                &&& final(ledger)@ == old(ledger)@
            },
        },
{
    let rec = match ledger.record_at(record_account) {
        None => {
            return Err(TokenManagerError::RecordMissing);
        },
        Some(rec) => rec.dup(),
    };
    if !rec.mint.equals(asset) {
        return Err(TokenManagerError::AssetMismatch);
    }
    if !verify_record_address(cfg, asset, &rec.authority, rec.bump, record_account) {
        return Err(TokenManagerError::RecordAddressMismatch);
    }
    if rec.total_mint_count == u64::MAX {
        return Err(TokenManagerError::ArithmeticOverflow);
    }

    // All remaining checks come before any mutation, in the order the spec
    // transition performs them, so that a failing step leaves no trace.
    let dest = find_associated_address(recipient, asset);
    let (have_balance, prior_amount, balance_mint_ok): (bool, u64, bool) = match ledger.balance_at(
        &dest,
    ) {
        Some(bal) => (true, bal.amount, bal.mint.equals(asset)),
        None => (false, 0, true),
    };
    if !have_balance {
        match ledger.asset_at(asset) {
            None => {
                return Err(TokenManagerError::AssetAccountMissing);
            },
            Some(acc) => {
                if let AssetAccount::Reserved = acc {
                    return Err(TokenManagerError::AssetNotInitialized);
                }
            },
        }
        if !ctx.signer(user) {
            return Err(TokenManagerError::MissingSignature);
        }
        if ledger.wallet_lamports(user) < BALANCE_ACCOUNT_LAMPORTS {
            return Err(TokenManagerError::InsufficientFunds);
        }
    }
    let registrar_supply: u64 = match ledger.asset_at(asset) {
        None => {
            return Err(TokenManagerError::AssetAccountMissing);
        },
        Some(acc) => {
            match acc {
                AssetAccount::Reserved => {
                    return Err(TokenManagerError::AssetNotInitialized);
                },
                AssetAccount::Initialized(reg) => {
                    if !reg.freeze_authority.equals(record_account) {
                        return Err(TokenManagerError::NotFreezeAuthority);
                    }
                    if !reg.mint_authority.equals(record_account) {
                        return Err(TokenManagerError::NotMintAuthority);
                    }
                    reg.supply
                },
            }
        },
    };
    if !balance_mint_ok {
        return Err(TokenManagerError::BalanceAccountMismatch);
    }
    let amount = rec.supply_amount_per_mint;
    if amount > u64::MAX - registrar_supply {
        return Err(TokenManagerError::ArithmeticOverflow);
    }
    if amount > u64::MAX - prior_amount {
        return Err(TokenManagerError::ArithmeticOverflow);
    }

    let ghost l0 = ledger@;
    match ledger.create_associated_account(user, recipient, asset, ctx) {
        Ok(_) => (),
        Err(e) => {
            proof {
                assert(false);
            }
            return Err(e);
        },
    }
    match ledger.mint_to(asset, &dest, record_account, amount, true) {
        Ok(()) => (),
        Err(e) => {
            proof {
                assert(false);
            }
            return Err(e);
        },
    }
    match ledger.set_record_count(record_account, rec.total_mint_count + 1) {
        Ok(()) => (),
        Err(e) => {
            proof {
                assert(false);
            }
            return Err(e);
        },
    }
    proof {
        assert(spec_issue(
            l0,
            cfg.seed_prefix@,
            cfg.program_id@,
            asset@,
            record_account@,
            recipient@,
            user@,
            ctx@,
        ) == Ok::<LedgerModel, TokenManagerError>(ledger@));
    }
    Ok(())
}

/// One successful issuance call increments the record's counter by exactly
/// one and grows the recipient's balance by exactly the record's per-call
/// amount; the record's other fields are unchanged.
pub proof fn lemma_issue_step(
    l: LedgerModel,
    prefix: Seq<u8>,
    program: Seq<u8>,
    asset: Seq<u8>,
    record_account: Seq<u8>,
    recipient: Seq<u8>,
    user: Seq<u8>,
    ctx: ContextModel,
    ln: LedgerModel,
)
    requires
        spec_issue(l, prefix, program, asset, record_account, recipient, user, ctx) == Ok::<
            LedgerModel,
            TokenManagerError,
        >(ln),
    ensures
        l.records.contains_key(record_account),
        ln.records.contains_key(record_account),
        ln.records[record_account].total_mint_count == l.records[record_account].total_mint_count
            + 1,
        ln.records[record_account].supply_amount_per_mint
            == l.records[record_account].supply_amount_per_mint,
        ln.records[record_account].mint == l.records[record_account].mint,
        ln.records[record_account].authority == l.records[record_account].authority,
        ln.records[record_account].bump == l.records[record_account].bump,
        ln.records[record_account].authority_payer == l.records[record_account].authority_payer,
        balance_of(ln, recipient, asset) == balance_of(l, recipient, asset)
            + l.records[record_account].supply_amount_per_mint,
{
    let rec = l.records[record_account];
    let l1 = spec_create_associated_account(l, user, recipient, asset, ctx)->Ok_0;
    let dest = associated_address(recipient, asset);
    assert(balance_of(l1, recipient, asset) == balance_of(l, recipient, asset));
    let l2 = spec_mint_to(l1, asset, dest, record_account, rec.supply_amount_per_mint, true)->Ok_0;
    assert(balance_of(l2, recipient, asset) == balance_of(l1, recipient, asset)
        + rec.supply_amount_per_mint);
    assert(ln.balances == l2.balances);
}

/// After `k` consecutive successful issuance calls with the same inputs,
/// the record's counter has grown by `k` and the recipient's balance by
/// exactly `k` times the record's per-call amount.
pub open spec fn spec_issue_k(
    l: LedgerModel,
    prefix: Seq<u8>,
    program: Seq<u8>,
    asset: Seq<u8>,
    record_account: Seq<u8>,
    recipient: Seq<u8>,
    user: Seq<u8>,
    ctx: ContextModel,
    k: nat,
) -> Option<LedgerModel>
    decreases k,
{
    if k == 0 {
        Some(l)
    } else {
        match spec_issue_k(
            l,
            prefix,
            program,
            asset,
            record_account,
            recipient,
            user,
            ctx,
            (k - 1) as nat,
        ) {
            None => None,
            Some(lk) => {
                match spec_issue(lk, prefix, program, asset, record_account, recipient, user, ctx) {
                    Ok(ln) => Some(ln),
                    Err(_) => None,
                }
            },
        }
    }
}

/// Issuance accumulates exactly: `k` successful calls grow the counter by
/// `k` and the recipient's balance by `k * supply_amount_per_mint`.
pub proof fn lemma_issuance_accumulates(
    l: LedgerModel,
    prefix: Seq<u8>,
    program: Seq<u8>,
    asset: Seq<u8>,
    record_account: Seq<u8>,
    recipient: Seq<u8>,
    user: Seq<u8>,
    ctx: ContextModel,
    k: nat,
    lk: LedgerModel,
)
    requires
        l.records.contains_key(record_account),
        spec_issue_k(l, prefix, program, asset, record_account, recipient, user, ctx, k) == Some(
            lk,
        ),
    ensures
        lk.records.contains_key(record_account),
        lk.records[record_account].total_mint_count == l.records[record_account].total_mint_count
            + k,
        lk.records[record_account].supply_amount_per_mint
            == l.records[record_account].supply_amount_per_mint,
        balance_of(lk, recipient, asset) == balance_of(l, recipient, asset) + k * (
        l.records[record_account].supply_amount_per_mint as int),
    decreases k,
{
    if k > 0 {
        let prev = spec_issue_k(
            l,
            prefix,
            program,
            asset,
            record_account,
            recipient,
            user,
            ctx,
            (k - 1) as nat,
        )->Some_0;
        lemma_issuance_accumulates(
            l,
            prefix,
            program,
            asset,
            record_account,
            recipient,
            user,
            ctx,
            (k - 1) as nat,
            prev,
        );
        lemma_issue_step(prev, prefix, program, asset, record_account, recipient, user, ctx, lk);
        let a = l.records[record_account].supply_amount_per_mint as int;
        assert((k - 1) * a + a == k * a) by (nonlinear_arith);
    }
}

/// An issuance call whose supplied asset does not match the record's stored
/// asset fails with `AssetMismatch`; the transition yields no new state, and
/// the executable protocol mutates nothing on any error.
pub proof fn lemma_issue_wrong_asset(
    l: LedgerModel,
    prefix: Seq<u8>,
    program: Seq<u8>,
    asset: Seq<u8>,
    record_account: Seq<u8>,
    recipient: Seq<u8>,
    user: Seq<u8>,
    ctx: ContextModel,
)
    requires
        l.records.contains_key(record_account),
        l.records[record_account].mint != asset,
    ensures
        spec_issue(l, prefix, program, asset, record_account, recipient, user, ctx) == Err::<
            LedgerModel,
            TokenManagerError,
        >(TokenManagerError::AssetMismatch),
{
}

} // verus!

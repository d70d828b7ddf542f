use dapp_token_manager::address::Address;
use dapp_token_manager::context::InvocationContext;
use dapp_token_manager::create::create_dapp_token_manager;
use dapp_token_manager::derivation::{derive_manager_address, Config};
use dapp_token_manager::errors::TokenManagerError;
use dapp_token_manager::issue::mint_dapp_token_supply;
use dapp_token_manager::ledger::{
    AssetAccount, Ledger, ASSET_ACCOUNT_LAMPORTS, ASSET_DECIMALS, BALANCE_ACCOUNT_LAMPORTS,
};

fn addr(b: u8) -> Address {
    Address::from_bytes(vec![b; 32]).unwrap()
}

fn config() -> Config {
    Config {
        program_id: addr(7),
        seed_prefix: b"dapp-token-manager".to_vec(),
    }
}

struct Setup {
    ledger: Ledger,
    cfg: Config,
    asset: Address,
    authority: Address,
    payer: Address,
    user: Address,
    recipient: Address,
    record: Address,
    ctx: InvocationContext,
}

/// A funded ledger, a derived record address, and a context in which the
/// payer, the fresh asset key and the user have all signed.
fn setup() -> Setup {
    let cfg = config();
    let asset = addr(3);
    let authority = addr(1);
    let payer = addr(2);
    let user = addr(4);
    let recipient = addr(5);
    let mut ledger = Ledger::new();
    ledger.fund_wallet(&payer, 1_000_000_000).unwrap();
    ledger.fund_wallet(&user, 1_000_000_000).unwrap();
    let (record, _bump) = derive_manager_address(&cfg, &asset, &authority).unwrap();
    let mut ctx = InvocationContext::new(cfg.program_id.dup());
    ctx.push_account(payer.dup(), true, true);
    ctx.push_account(asset.dup(), true, true);
    ctx.push_account(user.dup(), true, true);
    ctx.push_account(record.dup(), false, true);
    Setup {
        ledger,
        cfg,
        asset,
        authority,
        payer,
        user,
        recipient,
        record,
        ctx,
    }
}

fn create(s: &mut Setup, amount: u64) -> Result<dapp_token_manager::state::DappTokenManager, TokenManagerError> {
    create_dapp_token_manager(
        &mut s.ledger,
        &s.cfg,
        &s.asset,
        &s.authority,
        amount,
        &s.payer,
        &s.record,
        &s.ctx,
    )
}

fn issue(s: &mut Setup) -> Result<(), TokenManagerError> {
    mint_dapp_token_supply(
        &mut s.ledger,
        &s.cfg,
        &s.asset,
        &s.record,
        &s.recipient,
        &s.user,
        &s.ctx,
    )
}

#[test]
fn create_manager_binds_authorities() {
    let mut s = setup();
    let rec = create(&mut s, 500).unwrap();
    assert!(rec.authority.equals(&s.authority));
    assert!(rec.mint.equals(&s.asset));
    assert!(rec.authority_payer.equals(&s.payer));
    assert_eq!(rec.supply_amount_per_mint, 500);
    assert_eq!(rec.total_mint_count, 0);

    let stored = s.ledger.record_at(&s.record).unwrap();
    assert_eq!(stored.total_mint_count, 0);
    assert_eq!(stored.bump, rec.bump);

    match s.ledger.asset_at(&s.asset).unwrap() {
        AssetAccount::Initialized(reg) => {
            assert!(reg.mint_authority.equals(&s.record));
            assert!(reg.freeze_authority.equals(&s.record));
            assert_eq!(reg.supply, 0);
            assert_eq!(reg.decimals, ASSET_DECIMALS);
        }
        AssetAccount::Reserved => panic!("registrar not initialized"),
    }
    assert_eq!(
        s.ledger.wallet_lamports(&s.payer),
        1_000_000_000 - ASSET_ACCOUNT_LAMPORTS
    );
}

#[test]
fn create_manager_twice_fails_and_preserves_record() {
    let mut s = setup();
    let rec = create(&mut s, 500).unwrap();
    let second = create(&mut s, 500);
    assert_eq!(second.unwrap_err(), TokenManagerError::RecordAlreadyExists);
    let stored = s.ledger.record_at(&s.record).unwrap();
    assert_eq!(stored.total_mint_count, 0);
    assert_eq!(stored.bump, rec.bump);
    assert!(stored.authority.equals(&s.authority));
    // the payer was charged once, not twice
    assert_eq!(
        s.ledger.wallet_lamports(&s.payer),
        1_000_000_000 - ASSET_ACCOUNT_LAMPORTS
    );
}

#[test]
fn issue_mints_one_fixed_batch() {
    let mut s = setup();
    // 100 units at 9 decimal places
    create(&mut s, 100_000_000_000).unwrap();
    assert_eq!(s.ledger.balance_amount(&s.recipient, &s.asset), 0);
    issue(&mut s).unwrap();
    assert_eq!(
        s.ledger.balance_amount(&s.recipient, &s.asset),
        100_000_000_000
    );
    assert_eq!(s.ledger.record_at(&s.record).unwrap().total_mint_count, 1);
    // the user paid for the newly created balance account
    assert_eq!(
        s.ledger.wallet_lamports(&s.user),
        1_000_000_000 - BALANCE_ACCOUNT_LAMPORTS
    );
}

#[test]
fn issue_twice_accumulates_without_throttling() {
    let mut s = setup();
    create(&mut s, 100_000_000_000).unwrap();
    issue(&mut s).unwrap();
    issue(&mut s).unwrap();
    assert_eq!(s.ledger.record_at(&s.record).unwrap().total_mint_count, 2);
    assert_eq!(
        s.ledger.balance_amount(&s.recipient, &s.asset),
        200_000_000_000
    );
    // the balance account is created only once
    assert_eq!(
        s.ledger.wallet_lamports(&s.user),
        1_000_000_000 - BALANCE_ACCOUNT_LAMPORTS
    );
    match s.ledger.asset_at(&s.asset).unwrap() {
        AssetAccount::Initialized(reg) => assert_eq!(reg.supply, 200_000_000_000),
        AssetAccount::Reserved => panic!("registrar not initialized"),
    }
}

#[test]
fn issue_with_wrong_asset_fails_without_mutation() {
    let mut s = setup();
    create(&mut s, 500).unwrap();
    let other_asset = addr(9);
    let r = mint_dapp_token_supply(
        &mut s.ledger,
        &s.cfg,
        &other_asset,
        &s.record,
        &s.recipient,
        &s.user,
        &s.ctx,
    );
    assert_eq!(r.unwrap_err(), TokenManagerError::AssetMismatch);
    assert_eq!(s.ledger.record_at(&s.record).unwrap().total_mint_count, 0);
    assert_eq!(s.ledger.balance_amount(&s.recipient, &s.asset), 0);
    assert_eq!(s.ledger.wallet_lamports(&s.user), 1_000_000_000);
}

#[test]
fn issue_without_record_fails() {
    let mut s = setup();
    create(&mut s, 500).unwrap();
    let unknown = addr(8);
    let r = mint_dapp_token_supply(
        &mut s.ledger,
        &s.cfg,
        &s.asset,
        &unknown,
        &s.recipient,
        &s.user,
        &s.ctx,
    );
    assert_eq!(r.unwrap_err(), TokenManagerError::RecordMissing);
}

#[test]
fn create_with_wrong_record_account_fails() {
    let mut s = setup();
    let wrong = addr(9);
    let r = create_dapp_token_manager(
        &mut s.ledger,
        &s.cfg,
        &s.asset,
        &s.authority,
        500,
        &s.payer,
        &wrong,
        &s.ctx,
    );
    assert_eq!(r.unwrap_err(), TokenManagerError::RecordAddressMismatch);
    assert_eq!(s.ledger.wallet_lamports(&s.payer), 1_000_000_000);
}

#[test]
fn create_with_zero_issuance_fails() {
    let mut s = setup();
    let r = create(&mut s, 0);
    assert_eq!(r.unwrap_err(), TokenManagerError::InvalidIssuanceAmount);
}

#[test]
fn create_without_payer_signature_fails() {
    let mut s = setup();
    let mut ctx = InvocationContext::new(s.cfg.program_id.dup());
    ctx.push_account(s.payer.dup(), false, true);
    ctx.push_account(s.asset.dup(), true, true);
    s.ctx = ctx;
    let r = create(&mut s, 500);
    assert_eq!(r.unwrap_err(), TokenManagerError::MissingSignature);
    assert_eq!(s.ledger.wallet_lamports(&s.payer), 1_000_000_000);
}

#[test]
fn create_with_insufficient_funds_fails() {
    let mut s = setup();
    s.payer = addr(11);
    let mut ctx = InvocationContext::new(s.cfg.program_id.dup());
    ctx.push_account(s.payer.dup(), true, true);
    ctx.push_account(s.asset.dup(), true, true);
    s.ctx = ctx;
    s.ledger.fund_wallet(&s.payer, ASSET_ACCOUNT_LAMPORTS - 1).unwrap();
    let r = create(&mut s, 500);
    assert_eq!(r.unwrap_err(), TokenManagerError::InsufficientFunds);
}

#[test]
fn issue_without_user_signature_fails() {
    let mut s = setup();
    create(&mut s, 500).unwrap();
    let mut ctx = InvocationContext::new(s.cfg.program_id.dup());
    ctx.push_account(s.user.dup(), false, true);
    s.ctx = ctx;
    let r = issue(&mut s);
    assert_eq!(r.unwrap_err(), TokenManagerError::MissingSignature);
    assert_eq!(s.ledger.balance_amount(&s.recipient, &s.asset), 0);
}

#[test]
fn issue_with_unfunded_user_fails() {
    let mut s = setup();
    create(&mut s, 500).unwrap();
    s.user = addr(12);
    let mut ctx = InvocationContext::new(s.cfg.program_id.dup());
    ctx.push_account(s.user.dup(), true, true);
    s.ctx = ctx;
    let r = issue(&mut s);
    assert_eq!(r.unwrap_err(), TokenManagerError::InsufficientFunds);
}

#[test]
fn issue_overflowing_balance_fails_atomically() {
    let mut s = setup();
    create(&mut s, u64::MAX).unwrap();
    issue(&mut s).unwrap();
    assert_eq!(s.ledger.balance_amount(&s.recipient, &s.asset), u64::MAX);
    assert_eq!(s.ledger.record_at(&s.record).unwrap().total_mint_count, 1);
    let r = issue(&mut s);
    assert_eq!(r.unwrap_err(), TokenManagerError::ArithmeticOverflow);
    // no partial effect: counter and balance are unchanged
    assert_eq!(s.ledger.record_at(&s.record).unwrap().total_mint_count, 1);
    assert_eq!(s.ledger.balance_amount(&s.recipient, &s.asset), u64::MAX);
}

#[test]
fn issue_with_foreign_freeze_authority_fails() {
    // A registrar that holds the record as mint authority but never
    // delegated the freeze authority: issuance must refuse to mint.
    let mut s = setup();
    let (record, bump) = derive_manager_address(&s.cfg, &s.asset, &s.authority).unwrap();
    s.ledger
        .create_account(&s.payer, &s.asset, ASSET_ACCOUNT_LAMPORTS, &s.ctx)
        .unwrap();
    s.ledger
        .initialize_registrar(&s.asset, &record, &addr(13), ASSET_DECIMALS, true)
        .unwrap();
    let rec = dapp_token_manager::state::DappTokenManager::new(
        s.authority.dup(),
        s.asset.dup(),
        500,
        s.payer.dup(),
        bump,
    );
    s.ledger.create_record(&record, rec).unwrap();
    let r = issue(&mut s);
    assert_eq!(r.unwrap_err(), TokenManagerError::NotFreezeAuthority);
    assert_eq!(s.ledger.record_at(&record).unwrap().total_mint_count, 0);
    assert_eq!(s.ledger.balance_amount(&s.recipient, &s.asset), 0);
}

#[test]
fn issue_with_foreign_mint_authority_fails() {
    // The mirror case: freeze authority delegated, mint authority not.
    let mut s = setup();
    let (record, bump) = derive_manager_address(&s.cfg, &s.asset, &s.authority).unwrap();
    s.ledger
        .create_account(&s.payer, &s.asset, ASSET_ACCOUNT_LAMPORTS, &s.ctx)
        .unwrap();
    s.ledger
        .initialize_registrar(&s.asset, &addr(13), &record, ASSET_DECIMALS, true)
        .unwrap();
    let rec = dapp_token_manager::state::DappTokenManager::new(
        s.authority.dup(),
        s.asset.dup(),
        500,
        s.payer.dup(),
        bump,
    );
    s.ledger.create_record(&record, rec).unwrap();
    let r = issue(&mut s);
    assert_eq!(r.unwrap_err(), TokenManagerError::NotMintAuthority);
    assert_eq!(s.ledger.record_at(&record).unwrap().total_mint_count, 0);
    assert_eq!(s.ledger.balance_amount(&s.recipient, &s.asset), 0);
}

#[test]
fn issue_to_second_recipient_keeps_balances_apart() {
    let mut s = setup();
    create(&mut s, 700).unwrap();
    issue(&mut s).unwrap();
    let second = addr(6);
    mint_dapp_token_supply(
        &mut s.ledger,
        &s.cfg,
        &s.asset,
        &s.record,
        &second,
        &s.user,
        &s.ctx,
    )
    .unwrap();
    assert_eq!(s.ledger.balance_amount(&s.recipient, &s.asset), 700);
    assert_eq!(s.ledger.balance_amount(&second, &s.asset), 700);
    assert_eq!(s.ledger.record_at(&s.record).unwrap().total_mint_count, 2);
}

//! The ledger model: an explicit keyed store of wallets, asset accounts,
//! registry records and balance accounts, with compare-and-swap creation.
//!
//! The two protocols mutate ledger state only through the primitives here,
//! which mirror the asset ledger's black-box interface: `create_account`,
//! `initialize_registrar`, `create_associated_account` (idempotent) and
//! `mint_to`, plus the registry's own record store.  Every primitive either
//! returns `Ok` and steps the model exactly as its spec transition says, or
//! returns the error the transition names and changes nothing.

use vstd::prelude::*;

use crate::address::Address;
use crate::context::{ContextModel, InvocationContext};
use crate::derivation::{associated_address, find_associated_address};
use crate::errors::TokenManagerError;
use crate::state::{DappTokenManager, RecordModel};
use crate::table::Table;

verus! {

/// Lamports charged for creating the backing account of a new asset.
pub const ASSET_ACCOUNT_LAMPORTS: u64 = 10000000;

/// Byte size of an asset registrar account.
pub const ASSET_ACCOUNT_SIZE: u64 = 82;

/// Lamports charged for creating a balance account.
pub const BALANCE_ACCOUNT_LAMPORTS: u64 = 2039280;

/// Decimal precision of every asset this registry manages.
pub const ASSET_DECIMALS: u8 = 9;

/// Mathematical image of an asset registrar.
#[verifier::ext_equal]
pub struct RegistrarModel {
    pub mint_authority: Seq<u8>,
    pub freeze_authority: Seq<u8>,
    pub supply: u64,
    pub decimals: u8,
}

/// An initialized asset registrar: the ledger-native record of a fungible
/// asset's authorities, supply and precision.
pub struct Registrar {
    pub mint_authority: Address,
    pub freeze_authority: Address,
    pub supply: u64,
    pub decimals: u8,
}

impl View for Registrar {
    type V = RegistrarModel;

    open spec fn view(&self) -> RegistrarModel {
        RegistrarModel {
            mint_authority: self.mint_authority@,
            freeze_authority: self.freeze_authority@,
            supply: self.supply,
            decimals: self.decimals,
        }
    }
}

impl Registrar {
    /// An owned copy of the registrar.
    pub fn dup(&self) -> (r: Registrar)
        ensures
            r@ == self@,
    {
        let r = Registrar {
            mint_authority: self.mint_authority.dup(),
            freeze_authority: self.freeze_authority.dup(),
            supply: self.supply,
            decimals: self.decimals,
        };
        proof {
            assert(r@ =~= self@);
        }
        r
    }
}

/// Mathematical image of an account at an asset address.
#[verifier::ext_equal]
pub enum AssetModel {
    /// The backing account exists but its registrar is not yet initialized.
    Reserved,
    /// The registrar is initialized.
    Initialized(RegistrarModel),
}

/// An account at an asset address: reserved by account creation, then
/// initialized as a registrar.
pub enum AssetAccount {
    Reserved,
    Initialized(Registrar),
}

impl View for AssetAccount {
    type V = AssetModel;

    open spec fn view(&self) -> AssetModel {
        match self {
            AssetAccount::Reserved => AssetModel::Reserved,
            AssetAccount::Initialized(r) => AssetModel::Initialized(r@),
        }
    }
}

/// Mathematical image of a balance account.
#[verifier::ext_equal]
pub struct BalanceModel {
    pub owner: Seq<u8>,
    pub mint: Seq<u8>,
    pub amount: u64,
}

/// A balance account: one identity's holdings of one asset.
pub struct BalanceAccount {
    pub owner: Address,
    pub mint: Address,
    pub amount: u64,
}

impl View for BalanceAccount {
    type V = BalanceModel;

    open spec fn view(&self) -> BalanceModel {
        BalanceModel { owner: self.owner@, mint: self.mint@, amount: self.amount }
    }
}

/// Mathematical image of the whole ledger.
#[verifier::ext_equal]
pub struct LedgerModel {
    pub wallets: Map<Seq<u8>, u64>,
    pub assets: Map<Seq<u8>, AssetModel>,
    pub records: Map<Seq<u8>, RecordModel>,
    pub balances: Map<Seq<u8>, BalanceModel>,
}

/// The lamports a wallet holds; an absent wallet holds nothing.
pub open spec fn wallet_balance(l: LedgerModel, w: Seq<u8>) -> int {
    if l.wallets.contains_key(w) {
        l.wallets[w] as int
    } else {
        0
    }
}

/// The units of `asset` held by `owner`'s balance account; absent accounts
/// hold nothing.
pub open spec fn balance_of(l: LedgerModel, owner: Seq<u8>, asset: Seq<u8>) -> int {
    let a = associated_address(owner, asset);
    if l.balances.contains_key(a) {
        l.balances[a].amount as int
    } else {
        0
    }
}

/// Spec transition of `create_account`: reserve the backing account for a
/// new asset, paid by `payer`.  Both the payer and the fresh account's key
/// must have signed.
pub open spec fn spec_create_account(
    l: LedgerModel,
    payer: Seq<u8>,
    new_account: Seq<u8>,
    lamports: u64,
    ctx: ContextModel,
) -> Result<LedgerModel, TokenManagerError> {
    if !ctx.is_signer(payer) {
        Err(TokenManagerError::MissingSignature)
    } else if !ctx.is_signer(new_account) {
        Err(TokenManagerError::MissingSignature)
    } else if l.assets.contains_key(new_account) {
        Err(TokenManagerError::AssetAccountAlreadyExists)
    } else if wallet_balance(l, payer) < lamports {
        Err(TokenManagerError::InsufficientFunds)
    } else {
        Ok(
            LedgerModel {
                wallets: l.wallets.insert(payer, (wallet_balance(l, payer) - lamports) as u64),
                assets: l.assets.insert(new_account, AssetModel::Reserved),
                ..l
            },
        )
    }
}

/// Spec transition of `initialize_registrar`: turn a reserved asset account
/// into a registrar with the given authorities.  `authority_signed` says the
/// environment verified the new authority's seed-derived signature.
pub open spec fn spec_initialize_registrar(
    l: LedgerModel,
    asset: Seq<u8>,
    mint_authority: Seq<u8>,
    freeze_authority: Seq<u8>,
    decimals: u8,
    authority_signed: bool,
) -> Result<LedgerModel, TokenManagerError> {
    if !l.assets.contains_key(asset) {
        Err(TokenManagerError::AssetAccountMissing)
    } else if l.assets[asset] is Initialized {
        Err(TokenManagerError::AssetAlreadyInitialized)
    } else if !authority_signed {
        Err(TokenManagerError::MissingSignature)
    } else {
        Ok(
            LedgerModel {
                assets: l.assets.insert(
                    asset,
                    AssetModel::Initialized(
                        RegistrarModel { mint_authority, freeze_authority, supply: 0, decimals },
                    ),
                ),
                ..l
            },
        )
    }
}

/// Spec transition of `create_associated_account`: ensure `owner` has a
/// balance account for `asset`.  Idempotent: an existing account is left
/// untouched; otherwise `payer` signs and pays for the creation.
pub open spec fn spec_create_associated_account(
    l: LedgerModel,
    payer: Seq<u8>,
    owner: Seq<u8>,
    asset: Seq<u8>,
    ctx: ContextModel,
) -> Result<LedgerModel, TokenManagerError> {
    let a = associated_address(owner, asset);
    if l.balances.contains_key(a) {
        Ok(l)
    } else if !l.assets.contains_key(asset) {
        Err(TokenManagerError::AssetAccountMissing)
    } else if l.assets[asset] is Reserved {
        Err(TokenManagerError::AssetNotInitialized)
    } else if !ctx.is_signer(payer) {
        Err(TokenManagerError::MissingSignature)
    } else if wallet_balance(l, payer) < BALANCE_ACCOUNT_LAMPORTS {
        Err(TokenManagerError::InsufficientFunds)
    } else {
        Ok(
            LedgerModel {
                wallets: l.wallets.insert(
                    payer,
                    (wallet_balance(l, payer) - BALANCE_ACCOUNT_LAMPORTS) as u64,
                ),
                balances: l.balances.insert(a, BalanceModel { owner, mint: asset, amount: 0 }),
                ..l
            },
        )
    }
}

/// Spec transition of `mint_to`: mint `amount` units of `asset` into the
/// balance account at `dest` under `authority`, whose seed-derived signature
/// the environment verified when `authority_signed` holds.
pub open spec fn spec_mint_to(
    l: LedgerModel,
    asset: Seq<u8>,
    dest: Seq<u8>,
    authority: Seq<u8>,
    amount: u64,
    authority_signed: bool,
) -> Result<LedgerModel, TokenManagerError> {
    if !l.assets.contains_key(asset) {
        Err(TokenManagerError::AssetAccountMissing)
    } else if l.assets[asset] is Reserved {
        Err(TokenManagerError::AssetNotInitialized)
    } else {
        let reg = l.assets[asset]->Initialized_0;
        if reg.mint_authority != authority {
            Err(TokenManagerError::NotMintAuthority)
        } else if !authority_signed {
            Err(TokenManagerError::MissingSignature)
        } else if !l.balances.contains_key(dest) {
            Err(TokenManagerError::BalanceAccountMissing)
        } else {
            let bal = l.balances[dest];
            if bal.mint != asset {
                Err(TokenManagerError::BalanceAccountMismatch)
            } else if reg.supply + amount > u64::MAX {
                Err(TokenManagerError::ArithmeticOverflow)
            } else if bal.amount + amount > u64::MAX {
                Err(TokenManagerError::ArithmeticOverflow)
            } else {
                Ok(
                    LedgerModel {
                        assets: l.assets.insert(
                            asset,
                            AssetModel::Initialized(
                                RegistrarModel { supply: (reg.supply + amount) as u64, ..reg },
                            ),
                        ),
                        balances: l.balances.insert(
                            dest,
                            BalanceModel { amount: (bal.amount + amount) as u64, ..bal },
                        ),
                        ..l
                    },
                )
            }
        }
    }
}

/// Spec transition of `create_record`: bind a fresh record address.
pub open spec fn spec_create_record(
    l: LedgerModel,
    addr: Seq<u8>,
    rec: RecordModel,
) -> Result<LedgerModel, TokenManagerError> {
    if l.records.contains_key(addr) {
        Err(TokenManagerError::RecordAlreadyExists)
    } else {
        Ok(LedgerModel { records: l.records.insert(addr, rec), ..l })
    }
}

/// The ledger: global state as the registry observes it.
pub struct Ledger {
    wallets: Table<u64>,
    assets: Table<AssetAccount>,
    records: Table<DappTokenManager>,
    balances: Table<BalanceAccount>,
}

impl View for Ledger {
    type V = LedgerModel;

    closed spec fn view(&self) -> LedgerModel {
        LedgerModel {
            wallets: self.wallets@,
            assets: self.assets@,
            records: self.records@,
            balances: self.balances@,
        }
    }
}

impl Ledger {
    pub closed spec fn wf(&self) -> bool {
        &&& self.wallets.wf()
        &&& self.assets.wf()
        &&& self.records.wf()
        &&& self.balances.wf()
    }

    /// An empty ledger.
    pub fn new() -> (r: Ledger)
        ensures
            r.wf(),
            r@.wallets == Map::<Seq<u8>, u64>::empty(),
            r@.assets == Map::<Seq<u8>, AssetModel>::empty(),
            r@.records == Map::<Seq<u8>, RecordModel>::empty(),
            r@.balances == Map::<Seq<u8>, BalanceModel>::empty(),
    {
        Ledger {
            wallets: Table::new(),
            assets: Table::new(),
            records: Table::new(),
            balances: Table::new(),
        }
    }

    /// Credits a wallet, creating it if absent.  Fails only when the credit
    /// would overflow the wallet's balance.
    pub fn fund_wallet(&mut self, wallet: &Address, amount: u64) -> (r: Result<
        (),
        TokenManagerError,
    >)
        requires
            old(self).wf(),
        ensures
            final(self).wf(),
            match r {
                Ok(()) => {
                    &&& wallet_balance(old(self)@, wallet@) + amount <= u64::MAX
                    &&& final(self)@ == (LedgerModel {
                        wallets: old(self)@.wallets.insert(
                            wallet@,
                            (wallet_balance(old(self)@, wallet@) + amount) as u64,
                        ),
                        ..old(self)@
                    })
                },
                Err(e) => {
                    &&& e == TokenManagerError::ArithmeticOverflow
                    &&& wallet_balance(old(self)@, wallet@) + amount > u64::MAX
                    &&& final(self)@ == old(self)@
                },
            },
    {
        match self.wallets.find(wallet) {
            Some(i) => {
                let current: u64 = *self.wallets.value_at(i);
                if amount > u64::MAX - current {
                    return Err(TokenManagerError::ArithmeticOverflow);
                }
                self.wallets.set_at(i, current + amount);
                Ok(())
            },
            None => {
                self.wallets.insert(wallet.dup(), amount);
                Ok(())
            },
        }
    }

    /// The lamports a wallet holds.
    pub fn wallet_lamports(&self, wallet: &Address) -> (r: u64)
        requires
            self.wf(),
        ensures
            r == wallet_balance(self@, wallet@),
    {
        match self.wallets.find(wallet) {
            Some(i) => *self.wallets.value_at(i),
            None => 0,
        }
    }

    /// Creates the backing account for a new asset at `new_account`, funded
    /// by `payer`.  Mirrors the asset ledger's account creation: both keys
    /// sign, the address must be fresh, and the payer must cover `lamports`.
    pub fn create_account(
        &mut self,
        payer: &Address,
        new_account: &Address,
        lamports: u64,
        ctx: &InvocationContext,
    ) -> (r: Result<(), TokenManagerError>)
        requires
            old(self).wf(),
        ensures
            final(self).wf(),
            match r {
                Ok(()) => spec_create_account(old(self)@, payer@, new_account@, lamports, ctx@)
                    == Ok::<LedgerModel, TokenManagerError>(final(self)@),
                Err(e) => {
                    &&& spec_create_account(old(self)@, payer@, new_account@, lamports, ctx@)
                        == Err::<LedgerModel, TokenManagerError>(e)
                    &&& final(self)@ == old(self)@
                },
            },
    {
        if !ctx.signer(payer) {
            return Err(TokenManagerError::MissingSignature);
        }
        if !ctx.signer(new_account) {
            return Err(TokenManagerError::MissingSignature);
        }
        if self.assets.find(new_account).is_some() {
            return Err(TokenManagerError::AssetAccountAlreadyExists);
        }
        match self.wallets.find(payer) {
            Some(i) => {
                let current: u64 = *self.wallets.value_at(i);
                if current < lamports {
                    return Err(TokenManagerError::InsufficientFunds);
                }
                self.wallets.set_at(i, current - lamports);
            },
            None => {
                if lamports > 0 {
                    return Err(TokenManagerError::InsufficientFunds);
                }
                self.wallets.insert(payer.dup(), 0);
            },
        }
        self.assets.insert(new_account.dup(), AssetAccount::Reserved);
        Ok(())
    }

    /// Initializes the registrar on a reserved asset account, setting its
    /// mint and freeze authorities.  `authority_signed` is the environment's
    /// verdict on the new authority's seed-derived signature.
    pub fn initialize_registrar(
        &mut self,
        asset: &Address,
        mint_authority: &Address,
        freeze_authority: &Address,
        decimals: u8,
        authority_signed: bool,
    ) -> (r: Result<(), TokenManagerError>)
        requires
            old(self).wf(),
        ensures
            final(self).wf(),
            match r {
                Ok(()) => spec_initialize_registrar(
                    old(self)@,
                    asset@,
                    mint_authority@,
                    freeze_authority@,
                    decimals,
                    authority_signed,
                ) == Ok::<LedgerModel, TokenManagerError>(final(self)@),
                Err(e) => {
                    &&& spec_initialize_registrar(
                        old(self)@,
                        asset@,
                        mint_authority@,
                        freeze_authority@,
                        decimals,
                        authority_signed,
                    ) == Err::<LedgerModel, TokenManagerError>(e)
                    &&& final(self)@ == old(self)@
                },
            },
    {
        match self.assets.find(asset) {
            None => Err(TokenManagerError::AssetAccountMissing),
            Some(i) => {
                match self.assets.value_at(i) {
                    AssetAccount::Initialized(_) => Err(TokenManagerError::AssetAlreadyInitialized),
                    AssetAccount::Reserved => {
                        if !authority_signed {
                            return Err(TokenManagerError::MissingSignature);
                        }
                        let reg = Registrar {
                            mint_authority: mint_authority.dup(),
                            freeze_authority: freeze_authority.dup(),
                            supply: 0,
                            decimals,
                        };
                        self.assets.set_at(i, AssetAccount::Initialized(reg));
                        Ok(())
                    },
                }
            },
        }
    }

    /// Ensures `owner` has a balance account for `asset`, creating it at the
    /// canonical associated address if absent, funded by `payer`.
    /// Idempotent: an existing account is returned untouched.
    pub fn create_associated_account(
        &mut self,
        payer: &Address,
        owner: &Address,
        asset: &Address,
        ctx: &InvocationContext,
    ) -> (r: Result<Address, TokenManagerError>)
        requires
            old(self).wf(),
            owner.wf(),
            asset.wf(),
        ensures
            final(self).wf(),
            match r {
                Ok(a) => {
                    &&& a@ == associated_address(owner@, asset@)
                    &&& a.wf()
                    &&& spec_create_associated_account(old(self)@, payer@, owner@, asset@, ctx@)
                        == Ok::<LedgerModel, TokenManagerError>(final(self)@)
                },
                Err(e) => {
                    &&& spec_create_associated_account(old(self)@, payer@, owner@, asset@, ctx@)
                        == Err::<LedgerModel, TokenManagerError>(e)
                    &&& final(self)@ == old(self)@
                },
            },
    {
        let a = find_associated_address(owner, asset);
        if self.balances.find(&a).is_some() {
            return Ok(a);
        }
        match self.assets.find(asset) {
            None => {
                return Err(TokenManagerError::AssetAccountMissing);
            },
            Some(i) => {
                if let AssetAccount::Reserved = self.assets.value_at(i) {
                    return Err(TokenManagerError::AssetNotInitialized);
                }
            },
        }
        if !ctx.signer(payer) {
            return Err(TokenManagerError::MissingSignature);
        }
        match self.wallets.find(payer) {
            Some(i) => {
                let current: u64 = *self.wallets.value_at(i);
                if current < BALANCE_ACCOUNT_LAMPORTS {
                    return Err(TokenManagerError::InsufficientFunds);
                }
                self.wallets.set_at(i, current - BALANCE_ACCOUNT_LAMPORTS);
            },
            None => {
                return Err(TokenManagerError::InsufficientFunds);
            },
        }
        let bal = BalanceAccount { owner: owner.dup(), mint: asset.dup(), amount: 0 };
        self.balances.insert(a.dup(), bal);
        Ok(a)
    }

    /// Mints `amount` units of `asset` into the balance account at `dest`.
    /// Succeeds only under the registrar's mint authority with a verified
    /// seed-derived signature, and only when neither the supply nor the
    /// destination balance would overflow.
    pub fn mint_to(
        &mut self,
        asset: &Address,
        dest: &Address,
        authority: &Address,
        amount: u64,
        authority_signed: bool,
    ) -> (r: Result<(), TokenManagerError>)
        requires
            old(self).wf(),
        ensures
            final(self).wf(),
            match r {
                Ok(()) => spec_mint_to(
                    old(self)@,
                    asset@,
                    dest@,
                    authority@,
                    amount,
                    authority_signed,
                ) == Ok::<LedgerModel, TokenManagerError>(final(self)@),
                Err(e) => {
                    &&& spec_mint_to(old(self)@, asset@, dest@, authority@, amount, authority_signed)
                        == Err::<LedgerModel, TokenManagerError>(e)
                    &&& final(self)@ == old(self)@
                },
            },
    {
        let i = match self.assets.find(asset) {
            None => {
                return Err(TokenManagerError::AssetAccountMissing);
            },
            Some(i) => i,
        };
        let reg = match self.assets.value_at(i) {
            AssetAccount::Reserved => {
                return Err(TokenManagerError::AssetNotInitialized);
            },
            AssetAccount::Initialized(reg) => reg.dup(),
        };
        if !reg.mint_authority.equals(authority) {
            return Err(TokenManagerError::NotMintAuthority);
        }
        if !authority_signed {
            return Err(TokenManagerError::MissingSignature);
        }
        let j = match self.balances.find(dest) {
            None => {
                return Err(TokenManagerError::BalanceAccountMissing);
            },
            Some(j) => j,
        };
        let bal = self.balances.value_at(j);
        if !bal.mint.equals(asset) {
            return Err(TokenManagerError::BalanceAccountMismatch);
        }
        if amount > u64::MAX - reg.supply {
            return Err(TokenManagerError::ArithmeticOverflow);
        }
        if amount > u64::MAX - bal.amount {
            return Err(TokenManagerError::ArithmeticOverflow);
        }
        let new_bal = BalanceAccount {
            owner: bal.owner.dup(),
            mint: bal.mint.dup(),
            amount: bal.amount + amount,
        };
        let new_reg = Registrar {
            supply: reg.supply + amount,
            mint_authority: reg.mint_authority,
            freeze_authority: reg.freeze_authority,
            decimals: reg.decimals,
        };
        self.assets.set_at(i, AssetAccount::Initialized(new_reg));
        self.balances.set_at(j, new_bal);
        Ok(())
    }

    /// Binds a fresh record address to a record; fails when the address is
    /// already bound.
    pub fn create_record(&mut self, addr: &Address, rec: DappTokenManager) -> (r: Result<
        (),
        TokenManagerError,
    >)
        requires
            old(self).wf(),
        ensures
            final(self).wf(),
            match r {
                Ok(()) => spec_create_record(old(self)@, addr@, rec@) == Ok::<
                    LedgerModel,
                    TokenManagerError,
                >(final(self)@),
                Err(e) => {
                    &&& spec_create_record(old(self)@, addr@, rec@) == Err::<
                        LedgerModel,
                        TokenManagerError,
                    >(e)
                    &&& final(self)@ == old(self)@
                },
            },
    {
        if self.records.find(addr).is_some() {
            return Err(TokenManagerError::RecordAlreadyExists);
        }
        self.records.insert(addr.dup(), rec);
        Ok(())
    }

    /// The record bound to an address, if any.
    pub fn record_at(&self, addr: &Address) -> (r: Option<&DappTokenManager>)
        requires
            self.wf(),
        ensures
            match r {
                Some(rec) => self@.records.contains_key(addr@) && rec@ == self@.records[addr@],
                None => !self@.records.contains_key(addr@),
            },
    {
        match self.records.find(addr) {
            Some(i) => Some(self.records.value_at(i)),
            None => None,
        }
    }

    /// Replaces the issuance counter of the record bound to `addr`.  Only
    /// the issuance protocol may step the counter: it grows by exactly one
    /// per successful call and is never reset.
    pub(crate) fn set_record_count(&mut self, addr: &Address, count: u64) -> (r: Result<
        (),
        TokenManagerError,
    >)
        requires
            old(self).wf(),
        ensures
            final(self).wf(),
            match r {
                Ok(()) => {
                    &&& old(self)@.records.contains_key(addr@)
                    &&& final(self)@ == (LedgerModel {
                        records: old(self)@.records.insert(
                            addr@,
                            old(self)@.records[addr@].with_count(count),
                        ),
                        ..old(self)@
                    })
                },
                Err(e) => {
                    &&& e == TokenManagerError::RecordMissing
                    &&& !old(self)@.records.contains_key(addr@)
                    &&& final(self)@ == old(self)@
                },
            },
    {
        match self.records.find(addr) {
            None => Err(TokenManagerError::RecordMissing),
            Some(i) => {
                let rec = self.records.value_at(i);
                let mut updated = rec.dup();
                updated.total_mint_count = count;
                proof {
                    assert(updated@ =~= self@.records[addr@].with_count(count));
                }
                self.records.set_at(i, updated);
                Ok(())
            },
        }
    }

    /// The account at an asset address, if any.
    pub fn asset_at(&self, asset: &Address) -> (r: Option<&AssetAccount>)
        requires
            self.wf(),
        ensures
            match r {
                Some(acc) => self@.assets.contains_key(asset@) && acc@ == self@.assets[asset@],
                None => !self@.assets.contains_key(asset@),
            },
    {
        match self.assets.find(asset) {
            Some(i) => Some(self.assets.value_at(i)),
            None => None,
        }
    }

    /// The balance account at an address, if any.
    pub fn balance_at(&self, addr: &Address) -> (r: Option<&BalanceAccount>)
        requires
            self.wf(),
        ensures
            match r {
                Some(bal) => self@.balances.contains_key(addr@) && bal@ == self@.balances[addr@],
                None => !self@.balances.contains_key(addr@),
            },
    {
        match self.balances.find(addr) {
            Some(i) => Some(self.balances.value_at(i)),
            None => None,
        }
    }

    /// The units of `asset` held by `owner`'s balance account.
    pub fn balance_amount(&self, owner: &Address, asset: &Address) -> (r: u64)
        requires
            self.wf(),
            owner.wf(),
            asset.wf(),
        ensures
            r == balance_of(self@, owner@, asset@),
    {
        let a = find_associated_address(owner, asset);
        match self.balances.find(&a) {
            Some(i) => self.balances.value_at(i).amount,
            None => 0,
        }
    }
}

} // verus!

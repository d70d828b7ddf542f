//! Errors of the registry.  Every failure of the two protocols and of the
//! ledger primitives is one of these; each public function states exactly
//! when it returns which.

use vstd::prelude::*;

verus! {

/// Why a registry operation was refused.  No operation that returns one of
/// these mutates any state.
#[derive(Clone, Copy, Debug, PartialEq, Eq, Structural)]
pub enum TokenManagerError {
    /// No bump byte yields a valid keyless address for the seed tuple.
    DerivationExhausted,
    /// A registry record already sits at the derived address.
    RecordAlreadyExists,
    /// No registry record sits at the given address.
    RecordMissing,
    /// Re-deriving the record address does not match the supplied one.
    RecordAddressMismatch,
    /// The supplied asset id differs from the one stored in the record.
    AssetMismatch,
    /// The address reserved for the new asset is already in use.
    AssetAccountAlreadyExists,
    /// No account exists at the asset address.
    AssetAccountMissing,
    /// The asset account exists but its registrar was never initialized.
    AssetNotInitialized,
    /// The asset registrar was already initialized.
    AssetAlreadyInitialized,
    /// The acting authority is not the registrar's mint authority.
    NotMintAuthority,
    /// The registrar's freeze authority is not the registry record.
    NotFreezeAuthority,
    /// A required signature (keypair or seed-derived) is absent.
    MissingSignature,
    /// The balance account found at the derived address is not for this
    /// owner and asset.
    BalanceAccountMismatch,
    /// No balance account exists for the recipient and asset.
    BalanceAccountMissing,
    /// The paying wallet cannot cover the account-creation cost.
    InsufficientFunds,
    /// A counter, supply or balance would exceed its machine bound.
    ArithmeticOverflow,
    /// The per-call issuance amount must be positive.
    InvalidIssuanceAmount,
}

impl TokenManagerError {
    /// A short description, for callers that need to print the error.
    pub fn describe(&self) -> (r: &'static str) {
        match self {
            TokenManagerError::DerivationExhausted => "no valid keyless address for these seeds",
            TokenManagerError::RecordAlreadyExists => "registry record already exists",
            TokenManagerError::RecordMissing => "registry record not found",
            TokenManagerError::RecordAddressMismatch => "record address does not re-derive",
            TokenManagerError::AssetMismatch => "asset does not match the registry record",
            TokenManagerError::AssetAccountAlreadyExists => "asset account already exists",
            TokenManagerError::AssetAccountMissing => "asset account not found",
            TokenManagerError::AssetNotInitialized => "asset registrar not initialized",
            TokenManagerError::AssetAlreadyInitialized => "asset registrar already initialized",
            TokenManagerError::NotMintAuthority => "not the registrar's mint authority",
            TokenManagerError::NotFreezeAuthority => "not the registrar's freeze authority",
            TokenManagerError::MissingSignature => "required signature is missing",
            TokenManagerError::BalanceAccountMismatch => "balance account mismatch",
            TokenManagerError::BalanceAccountMissing => "balance account not found",
            TokenManagerError::InsufficientFunds => "insufficient funds",
            TokenManagerError::ArithmeticOverflow => "arithmetic overflow",
            TokenManagerError::InvalidIssuanceAmount => "issuance amount must be positive",
        }
    }
}

} // verus!

//! A delegated-authority token-issuance registry for an account-based ledger.
//!
//! A caller delegates mint and freeze authority over a fungible asset to a
//! keyless controller account whose address is derived deterministically from
//! public seed material.  The registry keeps one record per managed asset,
//! creates the asset and its registrar, and mints a fixed amount per issuance
//! call under a signature reproduced from the derivation seeds alone.

pub mod address;
pub mod context;
pub mod create;
pub mod derivation;
pub mod errors;
pub mod issue;
pub mod ledger;
pub mod state;
pub mod table;

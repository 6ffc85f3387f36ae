//! A verified vault and issuance-registry engine for Verifiable
//! Credentials.
//!
//! The engine keeps per-owner vaults (admin, issuer allow-list, revocation
//! flag, and an ordered credential set), a global status registry with
//! cross-registry delegation, a fee-gated issuance path, and a one-shot
//! migration of two legacy schemas. It is a pure state machine: the host
//! that embeds it performs storage, authentication of principals, retention
//! refreshes and outward calls, while every decision — who may write, which
//! error aborts a call, and exactly how the state changes — is made here
//! and proved against the transition specifications in [`transitions`].
//! The laws the engine obeys across calls are proved in [`laws`].

use vstd::prelude::*;

pub mod contract;
pub mod error;
pub mod issuance;
pub mod keys;
pub mod laws;
pub mod model;
pub mod principal;
pub mod state;
pub mod transitions;
pub mod vault;

pub use contract::StatusReport;
pub use contract::VcVaultContract;
pub use contract::VerifyOutcome;
pub use error::ContractError;
pub use issuance::revoke_vc;
pub use keys::vault_keys;
pub use keys::vc_keys;
pub use keys::vc_status_keys;
pub use keys::DataKey;
pub use model::CredentialView;
pub use model::FeeConfig;
pub use model::FeeTransfer;
pub use model::LegacyRevocation;
pub use model::RevocationView;
pub use model::StatusView;
pub use model::VCStatus;
pub use model::VerifiableCredential;
pub use principal::Principal;
pub use state::StateView;
pub use state::VaultView;
pub use transitions::OutcomeView;
pub use transitions::ReportView;
pub use vault::is_authorized;
pub use vault::Vault;

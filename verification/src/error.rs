use vstd::prelude::*;

verus! {

/// Every way an engine operation can abort. Each failure is detected before
/// the first write, so an operation that returns an error leaves the state
/// exactly as it found it.
#[derive(Copy, Clone, Debug, PartialEq, Eq, Structural, PartialOrd, Ord)]
pub enum ContractError {
    /// Resource already initialized (contract or vault).
    AlreadyInitialized,
    /// Issuer not in the vault's authorized list.
    IssuerNotAuthorized,
    /// Issuer already authorized.
    IssuerAlreadyAuthorized,
    /// Vault is revoked; writes are blocked.
    VaultRevoked,
    /// Migration already done; nothing to migrate.
    VCSAlreadyMigrated,
    /// VC not found in the vault or in the status registry.
    VCNotFound,
    /// VC already revoked.
    VCAlreadyRevoked,
    /// Vault not initialized for this owner.
    VaultNotInitialized,
    /// Contract not initialized (no admin).
    NotInitialized,
    /// The vault contract named by the caller is not this contract.
    InvalidVaultContract,
}

} // verus!

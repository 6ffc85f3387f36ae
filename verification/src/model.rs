use vstd::prelude::*;

use crate::principal::Principal;

verus! {

/// VC payload stored in a vault. `data` is opaque to the engine: ciphertext
/// or a reference, never interpreted.
#[derive(Debug)]
pub struct VerifiableCredential {
    /// Application-level VC identifier.
    pub id: String,
    /// VC payload (ciphertext or reference).
    pub data: String,
    /// Issuance registry that is authoritative for this VC's status.
    pub issuance_contract: Principal,
    /// Issuer DID (metadata for wallets/UX).
    pub issuer_did: String,
}

/// Mathematical image of a credential: every string replaced by its
/// character sequence.
#[verifier::ext_equal]
pub struct CredentialView {
    pub id: Seq<char>,
    pub data: Seq<char>,
    pub issuance_contract: Principal,
    pub issuer_did: Seq<char>,
}

impl View for VerifiableCredential {
    type V = CredentialView;

    open spec fn view(&self) -> CredentialView {
        CredentialView {
            id: self.id@,
            data: self.data@,
            issuance_contract: self.issuance_contract,
            issuer_did: self.issuer_did@,
        }
    }
}

impl Clone for VerifiableCredential {
    fn clone(&self) -> (r: Self)
        ensures
            r@ == self@,
    {
        VerifiableCredential {
            id: self.id.clone(),
            data: self.data.clone(),
            issuance_contract: self.issuance_contract,
            issuer_did: self.issuer_did.clone(),
        }
    }
}

/// Lifecycle status of a VC in the issuance registry. A VC with no registry
/// entry is `Invalid`; the registry itself only ever stores `Valid` or
/// `Revoked`.
#[derive(Debug)]
pub enum VCStatus {
    /// VC exists and is currently valid.
    Valid,
    /// VC does not exist in the registry.
    Invalid,
    /// VC was revoked at the given date string (ISO-8601 by convention;
    /// the engine does not validate the format).
    Revoked(String),
}

/// Mathematical image of a status.
#[verifier::ext_equal]
pub enum StatusView {
    Valid,
    Invalid,
    Revoked(Seq<char>),
}

impl View for VCStatus {
    type V = StatusView;

    open spec fn view(&self) -> StatusView {
        match self {
            VCStatus::Valid => StatusView::Valid,
            VCStatus::Invalid => StatusView::Invalid,
            VCStatus::Revoked(date) => StatusView::Revoked(date@),
        }
    }
}

impl Clone for VCStatus {
    fn clone(&self) -> (r: Self)
        ensures
            r@ == self@,
    {
        match self {
            VCStatus::Valid => VCStatus::Valid,
            VCStatus::Invalid => VCStatus::Invalid,
            VCStatus::Revoked(date) => VCStatus::Revoked(date.clone()),
        }
    }
}

/// Legacy revocation record consumed by the global migration path.
#[derive(Debug)]
pub struct LegacyRevocation {
    /// VC ID.
    pub vc_id: String,
    /// Revocation date (ISO-8601 by convention).
    pub date: String,
}

/// Mathematical image of a legacy revocation record.
#[verifier::ext_equal]
pub struct RevocationView {
    pub vc_id: Seq<char>,
    pub date: Seq<char>,
}

impl View for LegacyRevocation {
    type V = RevocationView;

    open spec fn view(&self) -> RevocationView {
        RevocationView { vc_id: self.vc_id@, date: self.date@ }
    }
}

impl Clone for LegacyRevocation {
    fn clone(&self) -> (r: Self)
        ensures
            r@ == self@,
    {
        LegacyRevocation { vc_id: self.vc_id.clone(), date: self.date.clone() }
    }
}

/// Snapshot of the fee configuration as reported to callers.
#[derive(Clone, Copy, Debug, PartialEq, Eq, Structural)]
pub struct FeeConfig {
    /// Whether fees are enabled.
    pub enabled: bool,
    /// Whether token, destination and amount are all set.
    pub configured: bool,
    /// Token contract used to collect fees (if set).
    pub token_contract: Option<Principal>,
    /// Destination of collected fees (if set).
    pub fee_dest: Option<Principal>,
    /// Default fee amount (if set).
    pub fee_amount: Option<i128>,
}

/// A value transfer the host must perform on behalf of a successful `issue`,
/// before the written credential becomes visible.
#[derive(Clone, Copy, Debug, PartialEq, Eq, Structural)]
pub struct FeeTransfer {
    /// Token contract to transfer through.
    pub token: Principal,
    /// Principal charged (the issuer).
    pub from: Principal,
    /// Principal credited (the configured fee destination).
    pub dest: Principal,
    /// Amount transferred.
    pub amount: i128,
}

} // verus!

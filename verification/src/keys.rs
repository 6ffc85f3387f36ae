use vstd::prelude::*;

use crate::principal::Principal;

verus! {

/// The storage layout: one key per record the engine keeps in the host's
/// keyed store. `ContractAdmin` through `FeeCustom` live in the short-lived
/// configuration tier, everything else in the longer-lived durable tier.
#[derive(Debug)]
pub enum DataKey {
    ContractAdmin,
    DefaultIssuerDid,
    FeeEnabled,
    FeeTokenContract,
    FeeDest,
    FeeAmount,
    FeeAdmin,
    FeeStandard,
    FeeEarly,
    FeeCustom(Principal),
    VaultAdmin(Principal),
    VaultDid(Principal),
    VaultRevoked(Principal),
    VaultIssuers(Principal),
    VaultVC(Principal, String),
    VaultVCIds(Principal),
    VCStatus(String),
    VCOwner(String),
    LegacyIssuanceRevocations,
    LegacyIssuanceVCs,
    LegacyVaultVCs(Principal),
}

// Retention bookkeeping: the host store evicts keys whose lease ran out, so
// every operation that touches a key group must also refresh that group's
// lease — read paths included, or a record that was never deleted would
// later read as missing. The engine declares the groups here; the host
// refreshes every listed key that exists after each call that touches it.

/// The key set of one vault: metadata, allow-list, and id index.
pub fn vault_keys(owner: Principal) -> (r: Vec<DataKey>)
    ensures
        r@ =~= seq![
            DataKey::VaultAdmin(owner),
            DataKey::VaultDid(owner),
            DataKey::VaultRevoked(owner),
            DataKey::VaultIssuers(owner),
            DataKey::VaultVCIds(owner),
        ],
{
    let mut r: Vec<DataKey> = Vec::new();
    r.push(DataKey::VaultAdmin(owner));
    r.push(DataKey::VaultDid(owner));
    r.push(DataKey::VaultRevoked(owner));
    r.push(DataKey::VaultIssuers(owner));
    r.push(DataKey::VaultVCIds(owner));
    r
}

/// The key set of one credential: payload, owning index, status entry and
/// owner pointer.
pub fn vc_keys(owner: Principal, vc_id: &String) -> (r: Vec<DataKey>)
    ensures
        r@ =~= seq![
            DataKey::VaultVC(owner, *vc_id),
            DataKey::VaultVCIds(owner),
            DataKey::VCStatus(*vc_id),
            DataKey::VCOwner(*vc_id),
        ],
{
    let mut r: Vec<DataKey> = Vec::new();
    r.push(DataKey::VaultVC(owner, vc_id.clone()));
    r.push(DataKey::VaultVCIds(owner));
    r.push(DataKey::VCStatus(vc_id.clone()));
    r.push(DataKey::VCOwner(vc_id.clone()));
    r
}

/// The key set touched by the revocation flow: status entry and owner
/// pointer only.
pub fn vc_status_keys(vc_id: &String) -> (r: Vec<DataKey>)
    ensures
        r@ =~= seq![DataKey::VCStatus(*vc_id), DataKey::VCOwner(*vc_id)],
{
    let mut r: Vec<DataKey> = Vec::new();
    r.push(DataKey::VCStatus(vc_id.clone()));
    r.push(DataKey::VCOwner(vc_id.clone()));
    r
}

} // verus!

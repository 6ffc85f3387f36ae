use vstd::prelude::*;

use crate::error::ContractError;
use crate::model::CredentialView;
use crate::model::FeeConfig;
use crate::model::FeeTransfer;
use crate::model::StatusView;
use crate::principal::Principal;
use crate::state::cred_at;
use crate::state::cred_ids;
use crate::state::custom_fee_of;
use crate::state::has_cred;
use crate::state::has_vault;
use crate::state::legacy_vault_of;
use crate::state::legacy_vault_remove;
use crate::state::owner_upsert;
use crate::state::remove_cred;
use crate::state::revocation_date_of;
use crate::state::status_of;
use crate::state::status_upsert;
use crate::state::store_cred;
use crate::state::store_creds;
use crate::state::vault_at;
use crate::state::vault_update;
use crate::model::RevocationView;
use crate::state::StateView;
use crate::state::VaultView;

verus! {

// Each engine operation is specified by a pair of spec functions: `..._err`
// gives the error the operation reports on a given pre-state (`None` meaning
// the operation succeeds), in exactly the order the checks are made, and
// `..._post` gives the state a successful run leaves behind. An operation
// that fails leaves the state untouched.

// ---- initialize ----

pub open spec fn initialize_err(s: StateView) -> Option<ContractError> {
    if s.admin is Some {
        Some(ContractError::AlreadyInitialized)
    } else {
        None
    }
}

pub open spec fn initialize_post(
    s: StateView,
    contract_admin: Principal,
    default_issuer_did: Seq<char>,
) -> StateView {
    StateView {
        admin: Some(contract_admin),
        default_issuer_did: Some(default_issuer_did),
        fee_enabled: false,
        ..s
    }
}

// ---- contract-admin gate ----

/// Checked by every configuration setter: the contract must have an admin
/// (authentication of that admin is the host's duty and a precondition of
/// the exec functions).
pub open spec fn contract_admin_err(s: StateView) -> Option<ContractError> {
    if s.admin is None {
        Some(ContractError::NotInitialized)
    } else {
        None
    }
}

// ---- vault gate ----

/// Checked by every vault mutation: the vault must exist and must not be
/// revoked.
pub open spec fn vault_gate_err(s: StateView, owner: Principal) -> Option<ContractError> {
    if !has_vault(s.vaults, owner) {
        Some(ContractError::VaultNotInitialized)
    } else if vault_at(s.vaults, owner).revoked {
        Some(ContractError::VaultRevoked)
    } else {
        None
    }
}

// ---- create_vault ----

pub open spec fn create_vault_err(s: StateView, owner: Principal) -> Option<ContractError> {
    if has_vault(s.vaults, owner) {
        Some(ContractError::AlreadyInitialized)
    } else {
        None
    }
}

/// A fresh vault starts with its owner as admin, an empty issuer list and an
/// empty credential set. The first vault ever created also bootstraps the
/// contract admin to its owner.
pub open spec fn create_vault_post(
    s: StateView,
    owner: Principal,
    did_uri: Seq<char>,
) -> StateView {
    StateView {
        admin: if s.admin is None {
            Some(owner)
        } else {
            s.admin
        },
        fee_enabled: if s.admin is None {
            false
        } else {
            s.fee_enabled
        },
        vaults: s.vaults.push(
            VaultView {
                owner,
                admin: owner,
                did_uri,
                revoked: false,
                issuers: Seq::empty(),
                credentials: Seq::empty(),
            },
        ),
        ..s
    }
}

// ---- vault administration ----

pub open spec fn set_vault_admin_post(
    s: StateView,
    owner: Principal,
    new_admin: Principal,
) -> StateView {
    StateView {
        vaults: vault_update(
            s.vaults,
            owner,
            VaultView { admin: new_admin, ..vault_at(s.vaults, owner) },
        ),
        ..s
    }
}

pub open spec fn revoke_vault_post(s: StateView, owner: Principal) -> StateView {
    StateView {
        vaults: vault_update(
            s.vaults,
            owner,
            VaultView { revoked: true, ..vault_at(s.vaults, owner) },
        ),
        ..s
    }
}

// ---- issuer list ----

pub open spec fn issuer_index(issuers: Seq<Principal>, issuer: Principal) -> int {
    choose|i: int| 0 <= i < issuers.len() && issuers[i] == issuer
}

pub open spec fn authorize_issuer_err(
    s: StateView,
    owner: Principal,
    issuer: Principal,
) -> Option<ContractError> {
    match vault_gate_err(s, owner) {
        Some(e) => Some(e),
        None => if vault_at(s.vaults, owner).issuers.contains(issuer) {
            Some(ContractError::IssuerAlreadyAuthorized)
        } else {
            None
        },
    }
}

/// A newly authorized issuer is prepended to the allow-list.
pub open spec fn authorize_issuer_post(
    s: StateView,
    owner: Principal,
    issuer: Principal,
) -> StateView {
    StateView {
        vaults: vault_update(
            s.vaults,
            owner,
            VaultView {
                issuers: seq![issuer] + vault_at(s.vaults, owner).issuers,
                ..vault_at(s.vaults, owner)
            },
        ),
        ..s
    }
}

/// Bulk authorization replaces the whole allow-list.
pub open spec fn authorize_issuers_post(
    s: StateView,
    owner: Principal,
    issuers: Seq<Principal>,
) -> StateView {
    StateView {
        vaults: vault_update(s.vaults, owner, VaultView { issuers, ..vault_at(s.vaults, owner) }),
        ..s
    }
}

pub open spec fn revoke_issuer_err(s: StateView, owner: Principal, issuer: Principal) -> Option<
    ContractError,
> {
    match vault_gate_err(s, owner) {
        Some(e) => Some(e),
        None => if !vault_at(s.vaults, owner).issuers.contains(issuer) {
            Some(ContractError::IssuerNotAuthorized)
        } else {
            None
        },
    }
}

pub open spec fn revoke_issuer_post(s: StateView, owner: Principal, issuer: Principal) -> StateView {
    StateView {
        vaults: vault_update(
            s.vaults,
            owner,
            VaultView {
                issuers: vault_at(s.vaults, owner).issuers.remove(
                    issuer_index(vault_at(s.vaults, owner).issuers, issuer),
                ),
                ..vault_at(s.vaults, owner)
            },
        ),
        ..s
    }
}

// ---- store_vc ----

pub open spec fn store_vc_post(s: StateView, owner: Principal, c: CredentialView) -> StateView {
    StateView {
        vaults: vault_update(
            s.vaults,
            owner,
            VaultView {
                credentials: store_cred(vault_at(s.vaults, owner).credentials, c),
                ..vault_at(s.vaults, owner)
            },
        ),
        ..s
    }
}

// ---- issue ----

pub open spec fn issue_err(
    s: StateView,
    owner: Principal,
    issuer: Principal,
    vault_contract: Principal,
) -> Option<ContractError> {
    if vault_contract != s.own_address {
        Some(ContractError::InvalidVaultContract)
    } else {
        match vault_gate_err(s, owner) {
            Some(e) => Some(e),
            None => if !vault_at(s.vaults, owner).issuers.contains(issuer) {
                Some(ContractError::IssuerNotAuthorized)
            } else {
                None
            },
        }
    }
}

/// A successful issue writes the credential into the vault, marks the id
/// `Valid` in the status registry, and records the owner pointer used later
/// to authorize `revoke`.
pub open spec fn issue_post(s: StateView, owner: Principal, c: CredentialView) -> StateView {
    StateView {
        statuses: status_upsert(s.statuses, c.id, StatusView::Valid),
        vc_owners: owner_upsert(s.vc_owners, c.id, owner),
        ..store_vc_post(s, owner, c)
    }
}

/// The fee gate: a transfer happens exactly when fees are enabled and the
/// caller-supplied override is positive; it then moves `fee_override` from
/// the issuer to the configured destination through the configured token.
pub open spec fn issue_transfer(s: StateView, issuer: Principal, fee_override: i128) -> Option<
    FeeTransfer,
> {
    if s.fee_enabled && fee_override > 0 {
        Some(
            FeeTransfer {
                token: s.fee_token_contract->Some_0,
                from: issuer,
                dest: s.fee_dest->Some_0,
                amount: fee_override,
            },
        )
    } else {
        None
    }
}

// ---- push ----

pub open spec fn push_err(
    s: StateView,
    from_owner: Principal,
    to_owner: Principal,
    issuer: Principal,
    vc_id: Seq<char>,
) -> Option<ContractError> {
    match vault_gate_err(s, from_owner) {
        Some(e) => Some(e),
        None => match vault_gate_err(s, to_owner) {
            Some(e) => Some(e),
            None => if !vault_at(s.vaults, from_owner).issuers.contains(issuer) {
                Some(ContractError::IssuerNotAuthorized)
            } else if !has_cred(vault_at(s.vaults, from_owner).credentials, vc_id) {
                Some(ContractError::VCNotFound)
            } else {
                None
            },
        },
    }
}

/// A push removes the credential from the source vault and stores it,
/// fields unchanged, into the destination vault. The two steps compose, so
/// pushing within one vault merely moves the credential to the front of its
/// index.
pub open spec fn push_post(
    s: StateView,
    from_owner: Principal,
    to_owner: Principal,
    vc_id: Seq<char>,
) -> StateView {
    let c = cred_at(vault_at(s.vaults, from_owner).credentials, vc_id);
    let removed = StateView {
        vaults: vault_update(
            s.vaults,
            from_owner,
            VaultView {
                credentials: remove_cred(vault_at(s.vaults, from_owner).credentials, vc_id),
                ..vault_at(s.vaults, from_owner)
            },
        ),
        ..s
    };
    store_vc_post(removed, to_owner, c)
}

// ---- revoke ----

pub open spec fn revoke_err(s: StateView, vc_id: Seq<char>) -> Option<ContractError> {
    if status_of(s.statuses, vc_id) is Invalid {
        Some(ContractError::VCNotFound)
    } else if crate::state::owner_of(s.vc_owners, vc_id) is None && s.admin is None {
        Some(ContractError::NotInitialized)
    } else if !(status_of(s.statuses, vc_id) is Valid) {
        Some(ContractError::VCAlreadyRevoked)
    } else {
        None
    }
}

pub open spec fn revoke_post(s: StateView, vc_id: Seq<char>, date: Seq<char>) -> StateView {
    StateView { statuses: status_upsert(s.statuses, vc_id, StatusView::Revoked(date)), ..s }
}

// ---- migrate ----

pub open spec fn migrate_vault_err(s: StateView, owner: Principal) -> Option<ContractError> {
    if !has_vault(s.vaults, owner) {
        Some(ContractError::VaultNotInitialized)
    } else if legacy_vault_of(s.legacy_vault_vcs, owner) is None {
        Some(ContractError::VCSAlreadyMigrated)
    } else {
        None
    }
}

/// The per-vault migration stores every legacy credential into the current
/// schema and deletes the legacy record; its absence is what makes a second
/// run fail.
pub open spec fn migrate_vault_post(s: StateView, owner: Principal) -> StateView {
    let batch = legacy_vault_of(s.legacy_vault_vcs, owner)->Some_0;
    StateView {
        vaults: vault_update(
            s.vaults,
            owner,
            VaultView {
                credentials: store_creds(vault_at(s.vaults, owner).credentials, batch),
                ..vault_at(s.vaults, owner)
            },
        ),
        legacy_vault_vcs: legacy_vault_remove(s.legacy_vault_vcs, owner),
        ..s
    }
}

pub open spec fn migrate_global_err(s: StateView) -> Option<ContractError> {
    if s.admin is None {
        Some(ContractError::NotInitialized)
    } else if s.legacy_issuance_vcs is None {
        Some(ContractError::VCSAlreadyMigrated)
    } else {
        None
    }
}

/// Statuses written by the global migration, first legacy id first: an id
/// with a legacy revocation record becomes `Revoked` at its recorded date,
/// any other id becomes `Valid`.
pub open spec fn migrate_statuses(
    sts: Seq<(Seq<char>, StatusView)>,
    ids: Seq<Seq<char>>,
    revs: Seq<RevocationView>,
) -> Seq<(Seq<char>, StatusView)>
    decreases ids.len(),
{
    if ids.len() == 0 {
        sts
    } else {
        let st = match revocation_date_of(revs, ids[0]) {
            Some(date) => StatusView::Revoked(date),
            None => StatusView::Valid,
        };
        migrate_statuses(status_upsert(sts, ids[0], st), ids.drop_first(), revs)
    }
}

/// Migrating a list of ids and then one more id is the same as migrating
/// the list extended by it: the unrolling step of the migration loop.
pub proof fn lemma_migrate_statuses_snoc(
    sts: Seq<(Seq<char>, StatusView)>,
    ids: Seq<Seq<char>>,
    revs: Seq<RevocationView>,
    id: Seq<char>,
)
    ensures
        migrate_statuses(sts, ids.push(id), revs) == status_upsert(
            migrate_statuses(sts, ids, revs),
            id,
            match revocation_date_of(revs, id) {
                Some(date) => StatusView::Revoked(date),
                None => StatusView::Valid,
            },
        ),
    decreases ids.len(),
{
    let st_id = match revocation_date_of(revs, id) {
        Some(date) => StatusView::Revoked(date),
        None => StatusView::Valid,
    };
    if ids.len() == 0 {
        let tail = ids.push(id).drop_first();
        assert(ids.push(id)[0] == id);
        assert(tail =~= Seq::<Seq<char>>::empty());
        assert(migrate_statuses(sts, ids.push(id), revs) == migrate_statuses(
            status_upsert(sts, id, st_id),
            tail,
        revs));
        assert(migrate_statuses(status_upsert(sts, id, st_id), tail, revs) == status_upsert(
            sts,
            id,
            st_id,
        )) by {
            assert(tail.len() == 0);
        }
        assert(migrate_statuses(sts, ids, revs) == sts);
    } else {
        let tail = ids.push(id).drop_first();
        let st0 = match revocation_date_of(revs, ids[0]) {
            Some(date) => StatusView::Revoked(date),
            None => StatusView::Valid,
        };
        assert(ids.push(id)[0] == ids[0]);
        assert(tail =~= ids.drop_first().push(id));
        assert(migrate_statuses(sts, ids.push(id), revs) == migrate_statuses(
            status_upsert(sts, ids[0], st0),
            tail,
            revs,
        ));
        lemma_migrate_statuses_snoc(status_upsert(sts, ids[0], st0), ids.drop_first(), revs, id);
        assert(migrate_statuses(sts, ids, revs) == migrate_statuses(
            status_upsert(sts, ids[0], st0),
            ids.drop_first(),
            revs,
        ));
    }
}

pub open spec fn migrate_global_post(s: StateView) -> StateView {
    StateView {
        statuses: migrate_statuses(
            s.statuses,
            s.legacy_issuance_vcs->Some_0,
            s.legacy_issuance_revocations->Some_0,
        ),
        legacy_issuance_vcs: None,
        legacy_issuance_revocations: None,
        ..s
    }
}

// ---- reads ----

pub open spec fn get_vc_spec(s: StateView, owner: Principal, vc_id: Seq<char>) -> Option<
    CredentialView,
> {
    if has_vault(s.vaults, owner) && has_cred(vault_at(s.vaults, owner).credentials, vc_id) {
        Some(cred_at(vault_at(s.vaults, owner).credentials, vc_id))
    } else {
        None
    }
}

/// The id index reported for a vault; a missing vault reads as empty.
pub open spec fn list_vc_ids_spec(s: StateView, owner: Principal) -> Seq<Seq<char>> {
    if has_vault(s.vaults, owner) {
        cred_ids(vault_at(s.vaults, owner).credentials)
    } else {
        Seq::empty()
    }
}

/// Mathematical image of a status report.
#[verifier::ext_equal]
pub struct ReportView {
    pub status: Seq<char>,
    pub since: Option<Seq<char>>,
}

/// What `verify_vc` decides: either a local report, or the instruction to
/// ask the named foreign registry and relay its answer unchanged.
#[verifier::ext_equal]
pub enum OutcomeView {
    Report(ReportView),
    Delegate(Principal),
}

pub open spec fn report_of(st: StatusView) -> ReportView {
    match st {
        StatusView::Valid => ReportView { status: "valid"@, since: None },
        StatusView::Invalid => ReportView { status: "invalid"@, since: None },
        StatusView::Revoked(date) => ReportView { status: "revoked"@, since: Some(date) },
    }
}

pub open spec fn verify_vc_spec(s: StateView, owner: Principal, vc_id: Seq<char>) -> OutcomeView {
    match get_vc_spec(s, owner, vc_id) {
        None => OutcomeView::Report(report_of(StatusView::Invalid)),
        Some(c) => if c.issuance_contract == s.own_address {
            OutcomeView::Report(report_of(status_of(s.statuses, vc_id)))
        } else {
            OutcomeView::Delegate(c.issuance_contract)
        },
    }
}

// ---- fee amounts ----

pub open spec fn fee_admin_amount(s: StateView) -> i128 {
    match s.fee_admin {
        Some(x) => x,
        None => 0,
    }
}

pub open spec fn fee_standard_amount(s: StateView) -> i128 {
    match s.fee_standard {
        Some(x) => x,
        None => 1_000_000,
    }
}

pub open spec fn fee_early_amount(s: StateView) -> i128 {
    match s.fee_early {
        Some(x) => x,
        None => 400_000,
    }
}

/// The per-issuer fee: the issuer's override if one exists, otherwise the
/// configured default amount (which must then be set).
pub open spec fn fee_custom_amount(s: StateView, issuer: Principal) -> i128 {
    match custom_fee_of(s.fee_custom, issuer) {
        Some(x) => x,
        None => s.fee_amount->Some_0,
    }
}

pub open spec fn fee_config_of(s: StateView) -> FeeConfig {
    FeeConfig {
        enabled: s.fee_enabled,
        configured: s.fee_token_contract is Some && s.fee_dest is Some && s.fee_amount is Some,
        token_contract: s.fee_token_contract,
        fee_dest: s.fee_dest,
        fee_amount: s.fee_amount,
    }
}

} // verus!

use vstd::prelude::*;

use crate::error::ContractError;
use crate::model::CredentialView;
use crate::model::FeeTransfer;
use crate::model::StatusView;
use crate::principal::Principal;
use crate::state::cred_at;
use crate::state::cred_ids;
use crate::state::has_cred;
use crate::state::has_vault;
use crate::state::legacy_vault_of;
use crate::state::lemma_remove_cred;
use crate::state::lemma_status_upsert;
use crate::state::lemma_store_cred;
use crate::state::lemma_vault_update;
use crate::state::state_wf;
use crate::state::status_of;
use crate::state::vault_at;
use crate::state::StateView;
use crate::transitions::authorize_issuer_err;
use crate::transitions::authorize_issuer_post;
use crate::transitions::create_vault_err;
use crate::transitions::create_vault_post;
use crate::transitions::get_vc_spec;
use crate::transitions::issue_err;
use crate::transitions::issue_post;
use crate::transitions::issue_transfer;
use crate::transitions::list_vc_ids_spec;
use crate::transitions::migrate_global_err;
use crate::transitions::migrate_global_post;
use crate::transitions::migrate_vault_err;
use crate::transitions::migrate_vault_post;
use crate::transitions::push_err;
use crate::transitions::push_post;
use crate::transitions::revoke_err;
use crate::transitions::revoke_issuer_err;
use crate::transitions::revoke_post;
use crate::transitions::revoke_vault_post;
use crate::transitions::vault_gate_err;
use crate::transitions::verify_vc_spec;
use crate::transitions::OutcomeView;
use crate::transitions::ReportView;

verus! {

// The laws of the engine, each proved once and for all over the transition
// specifications that the entry points' own contracts are stated in. Every
// lemma here quantifies over arbitrary well-formed states, so what a test
// checks on one run holds on all of them.

/// Creating a vault for an owner and then creating one for the same owner
/// again fails `AlreadyInitialized` on the second call, whatever DID either
/// call carried.
pub proof fn lemma_create_vault_twice(s: StateView, owner: Principal, did_uri: Seq<char>)
    requires
        create_vault_err(s, owner) is None,
    ensures
        create_vault_err(create_vault_post(s, owner, did_uri), owner) == Some(
            ContractError::AlreadyInitialized,
        ),
{
    let s1 = create_vault_post(s, owner, did_uri);
    assert(s1.vaults[s1.vaults.len() - 1].owner == owner);
    assert(has_vault(s1.vaults, owner));
}

/// Authorizing the same issuer twice fails `IssuerAlreadyAuthorized` on the
/// second call.
pub proof fn lemma_authorize_issuer_twice(s: StateView, owner: Principal, issuer: Principal)
    requires
        state_wf(s),
        authorize_issuer_err(s, owner, issuer) is None,
    ensures
        authorize_issuer_err(authorize_issuer_post(s, owner, issuer), owner, issuer) == Some(
            ContractError::IssuerAlreadyAuthorized,
        ),
{
    let v = vault_at(s.vaults, owner);
    let v1 = crate::state::VaultView { issuers: seq![issuer] + v.issuers, ..v };
    lemma_vault_update(s.vaults, owner, v1);
    assert(v1.issuers[0] == issuer);
    assert(v1.issuers.contains(issuer));
}

/// Revoking an issuer that was never authorized fails
/// `IssuerNotAuthorized`.
pub proof fn lemma_revoke_issuer_unauthorized(s: StateView, owner: Principal, issuer: Principal)
    requires
        vault_gate_err(s, owner) is None,
        !vault_at(s.vaults, owner).issuers.contains(issuer),
    ensures
        revoke_issuer_err(s, owner, issuer) == Some(ContractError::IssuerNotAuthorized),
{
}

/// Once a vault is revoked, every write-class operation on it fails
/// `VaultRevoked`: adding an issuer (and, through the same gate, replacing
/// the issuer list, changing the vault admin or revoking again), issuing
/// into it, and pushing with it as source — or as destination, whenever the
/// other vault passes its own gate.
pub proof fn lemma_revoked_vault_blocks_writes(
    s: StateView,
    owner: Principal,
    issuer: Principal,
    vc_id: Seq<char>,
    other: Principal,
)
    requires
        state_wf(s),
        vault_gate_err(s, owner) is None,
    ensures
        ({
            let s1 = revoke_vault_post(s, owner);
            &&& vault_gate_err(s1, owner) == Some(ContractError::VaultRevoked)
            &&& authorize_issuer_err(s1, owner, issuer) == Some(ContractError::VaultRevoked)
            &&& issue_err(s1, owner, issuer, s1.own_address) == Some(ContractError::VaultRevoked)
            &&& push_err(s1, owner, other, issuer, vc_id) == Some(ContractError::VaultRevoked)
            &&& (vault_gate_err(s1, other) is None ==> push_err(s1, other, owner, issuer, vc_id)
                == Some(ContractError::VaultRevoked))
        }),
{
    let v = vault_at(s.vaults, owner);
    let v1 = crate::state::VaultView { revoked: true, ..v };
    lemma_vault_update(s.vaults, owner, v1);
}

/// Round trip of issuance: after a successful `issue` the credential reads
/// back unchanged, and the registry reports it `valid`.
pub proof fn lemma_issue_round_trip(s: StateView, owner: Principal, c: CredentialView)
    requires
        state_wf(s),
        vault_gate_err(s, owner) is None,
        c.issuance_contract == s.own_address,
    ensures
        ({
            let s1 = issue_post(s, owner, c);
            &&& get_vc_spec(s1, owner, c.id) == Some(c)
            &&& verify_vc_spec(s1, owner, c.id) == OutcomeView::Report(
                ReportView { status: "valid"@, since: None },
            )
        }),
{
    let v = vault_at(s.vaults, owner);
    let v1 = crate::state::VaultView {
        credentials: crate::state::store_cred(v.credentials, c),
        ..v
    };
    lemma_store_cred(v.credentials, c);
    lemma_vault_update(s.vaults, owner, v1);
    lemma_status_upsert(s.statuses, c.id, StatusView::Valid);
}

/// A push is a move, not a copy: afterwards the credential is gone from the
/// source vault and sits, payload unchanged, in the destination vault, and
/// the two id indexes say the same.
pub proof fn lemma_push_moves(
    s: StateView,
    from_owner: Principal,
    to_owner: Principal,
    issuer: Principal,
    vc_id: Seq<char>,
)
    requires
        state_wf(s),
        push_err(s, from_owner, to_owner, issuer, vc_id) is None,
        from_owner != to_owner,
    ensures
        ({
            let s1 = push_post(s, from_owner, to_owner, vc_id);
            let c = cred_at(vault_at(s.vaults, from_owner).credentials, vc_id);
            &&& get_vc_spec(s1, from_owner, vc_id) is None
            &&& get_vc_spec(s1, to_owner, vc_id) == Some(c)
            &&& !list_vc_ids_spec(s1, from_owner).contains(vc_id)
            &&& list_vc_ids_spec(s1, to_owner).contains(vc_id)
        }),
{
    let fv = vault_at(s.vaults, from_owner);
    let c = cred_at(fv.credentials, vc_id);
    let fv1 = crate::state::VaultView {
        credentials: crate::state::remove_cred(fv.credentials, vc_id),
        ..fv
    };
    lemma_remove_cred(fv.credentials, vc_id);
    lemma_vault_update(s.vaults, from_owner, fv1);
    let mid = StateView {
        vaults: crate::state::vault_update(s.vaults, from_owner, fv1),
        ..s
    };
    let tv = vault_at(mid.vaults, to_owner);
    let tv1 = crate::state::VaultView {
        credentials: crate::state::store_cred(tv.credentials, c),
        ..tv
    };
    lemma_store_cred(tv.credentials, c);
    lemma_vault_update(mid.vaults, to_owner, tv1);
    let s1 = push_post(s, from_owner, to_owner, vc_id);
    assert(vault_at(s1.vaults, from_owner) == fv1);
    assert(vault_at(s1.vaults, to_owner) == tv1);
    assert(!list_vc_ids_spec(s1, from_owner).contains(vc_id)) by {
        if list_vc_ids_spec(s1, from_owner).contains(vc_id) {
            let k = choose|k: int|
                0 <= k < cred_ids(fv1.credentials).len() && cred_ids(fv1.credentials)[k] == vc_id;
            assert(fv1.credentials[k].id == vc_id);
            assert(has_cred(fv1.credentials, vc_id));
        }
    }
    assert(list_vc_ids_spec(s1, to_owner).contains(vc_id)) by {
        let k = crate::state::cred_index(tv1.credentials, vc_id);
        assert(tv1.credentials[k].id == vc_id);
        assert(cred_ids(tv1.credentials)[k] == vc_id);
    }
}

/// Revocation is monotonic: a second `revoke` of the same credential fails
/// `VCAlreadyRevoked`, the registry remembers the first date, and a vault
/// that holds the credential under this engine's authority reports it
/// `revoked` since that first date.
pub proof fn lemma_revoke_monotonic(
    s: StateView,
    owner: Principal,
    vc_id: Seq<char>,
    d1: Seq<char>,
    d2: Seq<char>,
)
    requires
        state_wf(s),
        revoke_err(s, vc_id) is None,
    ensures
        ({
            let s1 = revoke_post(s, vc_id, d1);
            &&& revoke_err(s1, vc_id) == Some(ContractError::VCAlreadyRevoked)
            &&& status_of(s1.statuses, vc_id) == StatusView::Revoked(d1)
            &&& (match get_vc_spec(s, owner, vc_id) {
                Some(c) => c.issuance_contract == s.own_address ==> verify_vc_spec(
                    s1,
                    owner,
                    vc_id,
                ) == OutcomeView::Report(ReportView { status: "revoked"@, since: Some(d1) }),
                None => true,
            })
        }),
{
    lemma_status_upsert(s.statuses, vc_id, StatusView::Revoked(d1));
}

/// Per-vault migration is exactly-once: a successful run deletes the legacy
/// record, so running it again fails `VCSAlreadyMigrated`; and with no
/// legacy record in the first place it fails the same way immediately.
pub proof fn lemma_migrate_vault_once(s: StateView, owner: Principal)
    requires
        state_wf(s),
        migrate_vault_err(s, owner) is None,
    ensures
        migrate_vault_err(migrate_vault_post(s, owner), owner) == Some(
            ContractError::VCSAlreadyMigrated,
        ),
{
    let s1 = migrate_vault_post(s, owner);
    let v = vault_at(s.vaults, owner);
    let batch = legacy_vault_of(s.legacy_vault_vcs, owner)->Some_0;
    let v1 = crate::state::VaultView {
        credentials: crate::state::store_creds(v.credentials, batch),
        ..v
    };
    lemma_vault_update(s.vaults, owner, v1);
    let li = crate::state::legacy_vault_index(s.legacy_vault_vcs, owner);
    assert(0 <= li < s.legacy_vault_vcs.len() && s.legacy_vault_vcs[li].0 == owner);
    assert(!crate::state::has_legacy_vault(s1.legacy_vault_vcs, owner)) by {
        if crate::state::has_legacy_vault(s1.legacy_vault_vcs, owner) {
            let k = crate::state::legacy_vault_index(s1.legacy_vault_vcs, owner);
            assert(s1.legacy_vault_vcs[k].0 == owner);
            if k < li {
                assert(s.legacy_vault_vcs[k].0 == owner);
            } else {
                assert(s.legacy_vault_vcs[k + 1].0 == owner);
            }
        }
    }
}

/// Global migration is exactly-once: a successful run deletes the legacy id
/// list, so running it again fails `VCSAlreadyMigrated`; with no legacy
/// list in the first place it fails the same way immediately.
pub proof fn lemma_migrate_global_once(s: StateView)
    requires
        migrate_global_err(s) is None,
    ensures
        migrate_global_err(migrate_global_post(s)) == Some(ContractError::VCSAlreadyMigrated),
{
}

/// The other face of exactly-once per-vault migration: with no legacy
/// record for the owner, migration fails `VCSAlreadyMigrated` outright.
pub proof fn lemma_migrate_vault_without_legacy(s: StateView, owner: Principal)
    requires
        has_vault(s.vaults, owner),
        legacy_vault_of(s.legacy_vault_vcs, owner) is None,
    ensures
        migrate_vault_err(s, owner) == Some(ContractError::VCSAlreadyMigrated),
{
}

/// The other face of exactly-once global migration: with no legacy id list,
/// migration fails `VCSAlreadyMigrated` outright.
pub proof fn lemma_migrate_global_without_legacy(s: StateView)
    requires
        s.admin is Some,
        s.legacy_issuance_vcs is None,
    ensures
        migrate_global_err(s) == Some(ContractError::VCSAlreadyMigrated),
{
}

/// The fee gate: no transfer when fees are disabled or the override is not
/// positive, and with both set exactly one transfer of the override amount,
/// from the issuer to the configured destination.
pub proof fn lemma_fee_gating(s: StateView, issuer: Principal, fee_override: i128)
    ensures
        !s.fee_enabled ==> issue_transfer(s, issuer, fee_override) is None,
        fee_override <= 0 ==> issue_transfer(s, issuer, fee_override) is None,
        s.fee_enabled && fee_override > 0 ==> issue_transfer(s, issuer, fee_override) == Some(
            FeeTransfer {
                token: s.fee_token_contract->Some_0,
                from: issuer,
                dest: s.fee_dest->Some_0,
                amount: fee_override,
            },
        ),
{
}

} // verus!

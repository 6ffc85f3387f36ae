use vstd::prelude::*;

use crate::model::CredentialView;
use crate::model::LegacyRevocation;
use crate::model::RevocationView;
use crate::model::StatusView;
use crate::model::VCStatus;
use crate::model::VerifiableCredential;
use crate::principal::Principal;

verus! {

/// Mathematical image of one vault: the per-owner namespace described by the
/// data model. `issuers` and `credentials` are ordered sequences with set
/// semantics (no duplicate issuer, no duplicate credential id); credentials
/// are kept most-recent-first.
#[verifier::ext_equal]
pub struct VaultView {
    pub owner: Principal,
    pub admin: Principal,
    pub did_uri: Seq<char>,
    pub revoked: bool,
    pub issuers: Seq<Principal>,
    pub credentials: Seq<CredentialView>,
}

/// Mathematical image of the whole engine state: the contract configuration,
/// every vault, the global status registry, the global owner pointers, and
/// the legacy records that migration consumes. Keyed collections are
/// sequences of entries with pairwise-distinct keys.
#[verifier::ext_equal]
pub struct StateView {
    /// The identity this engine instance runs under; `issue` only accepts a
    /// target equal to it, and `verify_vc` delegates when a credential names
    /// another registry.
    pub own_address: Principal,
    pub admin: Option<Principal>,
    pub default_issuer_did: Option<Seq<char>>,
    pub fee_enabled: bool,
    pub fee_token_contract: Option<Principal>,
    pub fee_dest: Option<Principal>,
    pub fee_amount: Option<i128>,
    pub fee_admin: Option<i128>,
    pub fee_standard: Option<i128>,
    pub fee_early: Option<i128>,
    pub fee_custom: Seq<(Principal, i128)>,
    pub vaults: Seq<VaultView>,
    /// Status registry: only `Valid` and `Revoked` entries are ever stored;
    /// a missing entry reads as `Invalid`.
    pub statuses: Seq<(Seq<char>, StatusView)>,
    pub vc_owners: Seq<(Seq<char>, Principal)>,
    pub legacy_issuance_vcs: Option<Seq<Seq<char>>>,
    pub legacy_issuance_revocations: Option<Seq<RevocationView>>,
    pub legacy_vault_vcs: Seq<(Principal, Seq<CredentialView>)>,
}

// ---- vaults ----

pub open spec fn has_vault(vaults: Seq<VaultView>, owner: Principal) -> bool {
    exists|i: int| 0 <= i < vaults.len() && vaults[i].owner == owner
}

pub open spec fn vault_index(vaults: Seq<VaultView>, owner: Principal) -> int {
    choose|i: int| 0 <= i < vaults.len() && vaults[i].owner == owner
}

pub open spec fn vault_at(vaults: Seq<VaultView>, owner: Principal) -> VaultView {
    vaults[vault_index(vaults, owner)]
}

/// Replace the vault belonging to `owner` (which must exist) by `v`.
pub open spec fn vault_update(vaults: Seq<VaultView>, owner: Principal, v: VaultView) -> Seq<
    VaultView,
> {
    vaults.update(vault_index(vaults, owner), v)
}

// ---- credentials inside one vault ----

pub open spec fn has_cred(creds: Seq<CredentialView>, id: Seq<char>) -> bool {
    exists|i: int| 0 <= i < creds.len() && creds[i].id == id
}

pub open spec fn cred_index(creds: Seq<CredentialView>, id: Seq<char>) -> int {
    choose|i: int| 0 <= i < creds.len() && creds[i].id == id
}

pub open spec fn cred_at(creds: Seq<CredentialView>, id: Seq<char>) -> CredentialView {
    creds[cred_index(creds, id)]
}

/// Upsert with set semantics and insertion order preserved: a new id is
/// prepended (most recent first), an existing id keeps its position and only
/// the payload changes.
pub open spec fn store_cred(creds: Seq<CredentialView>, c: CredentialView) -> Seq<
    CredentialView,
> {
    if has_cred(creds, c.id) {
        creds.update(cred_index(creds, c.id), c)
    } else {
        seq![c] + creds
    }
}

/// Drop the credential with the given id (which must exist).
pub open spec fn remove_cred(creds: Seq<CredentialView>, id: Seq<char>) -> Seq<CredentialView> {
    creds.remove(cred_index(creds, id))
}

/// Store every credential of `batch`, first element first.
pub open spec fn store_creds(creds: Seq<CredentialView>, batch: Seq<CredentialView>) -> Seq<
    CredentialView,
>
    decreases batch.len(),
{
    if batch.len() == 0 {
        creds
    } else {
        store_creds(store_cred(creds, batch[0]), batch.drop_first())
    }
}

/// The vault's ordered id index, derived from the credential sequence.
pub open spec fn cred_ids(creds: Seq<CredentialView>) -> Seq<Seq<char>> {
    creds.map_values(|c: CredentialView| c.id)
}

// ---- status registry ----

pub open spec fn has_status(sts: Seq<(Seq<char>, StatusView)>, id: Seq<char>) -> bool {
    exists|i: int| 0 <= i < sts.len() && sts[i].0 == id
}

pub open spec fn status_index(sts: Seq<(Seq<char>, StatusView)>, id: Seq<char>) -> int {
    choose|i: int| 0 <= i < sts.len() && sts[i].0 == id
}

/// What the registry answers for `id`: the stored entry, or `Invalid` when
/// none exists.
pub open spec fn status_of(sts: Seq<(Seq<char>, StatusView)>, id: Seq<char>) -> StatusView {
    if has_status(sts, id) {
        sts[status_index(sts, id)].1
    } else {
        StatusView::Invalid
    }
}

pub open spec fn status_upsert(
    sts: Seq<(Seq<char>, StatusView)>,
    id: Seq<char>,
    st: StatusView,
) -> Seq<(Seq<char>, StatusView)> {
    if has_status(sts, id) {
        sts.update(status_index(sts, id), (id, st))
    } else {
        sts.push((id, st))
    }
}

// ---- owner pointers ----

pub open spec fn has_owner_entry(own: Seq<(Seq<char>, Principal)>, id: Seq<char>) -> bool {
    exists|i: int| 0 <= i < own.len() && own[i].0 == id
}

pub open spec fn owner_entry_index(own: Seq<(Seq<char>, Principal)>, id: Seq<char>) -> int {
    choose|i: int| 0 <= i < own.len() && own[i].0 == id
}

pub open spec fn owner_of(own: Seq<(Seq<char>, Principal)>, id: Seq<char>) -> Option<Principal> {
    if has_owner_entry(own, id) {
        Some(own[owner_entry_index(own, id)].1)
    } else {
        None
    }
}

pub open spec fn owner_upsert(
    own: Seq<(Seq<char>, Principal)>,
    id: Seq<char>,
    owner: Principal,
) -> Seq<(Seq<char>, Principal)> {
    if has_owner_entry(own, id) {
        own.update(owner_entry_index(own, id), (id, owner))
    } else {
        own.push((id, owner))
    }
}

// ---- per-issuer fee overrides ----

pub open spec fn has_custom_fee(fees: Seq<(Principal, i128)>, issuer: Principal) -> bool {
    exists|i: int| 0 <= i < fees.len() && fees[i].0 == issuer
}

pub open spec fn custom_fee_index(fees: Seq<(Principal, i128)>, issuer: Principal) -> int {
    choose|i: int| 0 <= i < fees.len() && fees[i].0 == issuer
}

pub open spec fn custom_fee_of(fees: Seq<(Principal, i128)>, issuer: Principal) -> Option<i128> {
    if has_custom_fee(fees, issuer) {
        Some(fees[custom_fee_index(fees, issuer)].1)
    } else {
        None
    }
}

pub open spec fn custom_fee_upsert(
    fees: Seq<(Principal, i128)>,
    issuer: Principal,
    amount: i128,
) -> Seq<(Principal, i128)> {
    if has_custom_fee(fees, issuer) {
        fees.update(custom_fee_index(fees, issuer), (issuer, amount))
    } else {
        fees.push((issuer, amount))
    }
}

// ---- legacy per-vault credential lists ----

pub open spec fn has_legacy_vault(
    leg: Seq<(Principal, Seq<CredentialView>)>,
    owner: Principal,
) -> bool {
    exists|i: int| 0 <= i < leg.len() && leg[i].0 == owner
}

pub open spec fn legacy_vault_index(
    leg: Seq<(Principal, Seq<CredentialView>)>,
    owner: Principal,
) -> int {
    choose|i: int| 0 <= i < leg.len() && leg[i].0 == owner
}

pub open spec fn legacy_vault_of(
    leg: Seq<(Principal, Seq<CredentialView>)>,
    owner: Principal,
) -> Option<Seq<CredentialView>> {
    if has_legacy_vault(leg, owner) {
        Some(leg[legacy_vault_index(leg, owner)].1)
    } else {
        None
    }
}

pub open spec fn legacy_vault_remove(
    leg: Seq<(Principal, Seq<CredentialView>)>,
    owner: Principal,
) -> Seq<(Principal, Seq<CredentialView>)> {
    leg.remove(legacy_vault_index(leg, owner))
}

// ---- legacy revocation table ----

pub open spec fn has_revocation(revs: Seq<RevocationView>, id: Seq<char>) -> bool {
    exists|i: int| 0 <= i < revs.len() && revs[i].vc_id == id
}

pub open spec fn revocation_index(revs: Seq<RevocationView>, id: Seq<char>) -> int {
    choose|i: int| 0 <= i < revs.len() && revs[i].vc_id == id
}

/// The revocation date the legacy table records for `id`, if any.
pub open spec fn revocation_date_of(revs: Seq<RevocationView>, id: Seq<char>) -> Option<
    Seq<char>,
> {
    if has_revocation(revs, id) {
        Some(revs[revocation_index(revs, id)].date)
    } else {
        None
    }
}

// ---- well-formedness ----

pub open spec fn nodup_principals(s: Seq<Principal>) -> bool {
    forall|i: int, j: int| 0 <= i < j < s.len() ==> s[i] != s[j]
}

pub open spec fn nodup_cred_ids(creds: Seq<CredentialView>) -> bool {
    forall|i: int, j: int| 0 <= i < j < creds.len() ==> creds[i].id != creds[j].id
}

pub open spec fn vault_wf(v: VaultView) -> bool {
    &&& nodup_principals(v.issuers)
    &&& nodup_cred_ids(v.credentials)
}

/// The structural invariant of the whole state: every keyed collection has
/// pairwise-distinct keys, every vault is internally well formed, and the
/// status registry never stores an `Invalid` entry (absence means invalid).
pub open spec fn state_wf(s: StateView) -> bool {
    &&& forall|i: int, j: int|
        0 <= i < j < s.vaults.len() ==> s.vaults[i].owner != s.vaults[j].owner
    &&& forall|i: int| 0 <= i < s.vaults.len() ==> vault_wf(#[trigger] s.vaults[i])
    &&& forall|i: int, j: int|
        0 <= i < j < s.statuses.len() ==> s.statuses[i].0 != s.statuses[j].0
    &&& forall|i: int|
        0 <= i < s.statuses.len() ==> (#[trigger] s.statuses[i]).1 != StatusView::Invalid
    &&& forall|i: int, j: int|
        0 <= i < j < s.vc_owners.len() ==> s.vc_owners[i].0 != s.vc_owners[j].0
    &&& forall|i: int, j: int|
        0 <= i < j < s.fee_custom.len() ==> s.fee_custom[i].0 != s.fee_custom[j].0
    &&& forall|i: int, j: int|
        0 <= i < j < s.legacy_vault_vcs.len() ==> s.legacy_vault_vcs[i].0
            != s.legacy_vault_vcs[j].0
    &&& match s.legacy_issuance_revocations {
        Some(revs) => forall|i: int, j: int|
            0 <= i < j < revs.len() ==> revs[i].vc_id != revs[j].vc_id,
        None => true,
    }
}

// ---- views of the executable representations ----
// The executable engine keeps each keyed collection as a vector of entries;
// these functions map those vectors into the sequences the model speaks of.

pub open spec fn strings_view(s: Seq<String>) -> Seq<Seq<char>> {
    s.map_values(|x: String| x@)
}

pub open spec fn creds_view(s: Seq<VerifiableCredential>) -> Seq<CredentialView> {
    s.map_values(|c: VerifiableCredential| c@)
}

pub open spec fn statuses_view(s: Seq<(String, VCStatus)>) -> Seq<(Seq<char>, StatusView)> {
    s.map_values(|p: (String, VCStatus)| (p.0@, p.1@))
}

pub open spec fn owners_view(s: Seq<(String, Principal)>) -> Seq<(Seq<char>, Principal)> {
    s.map_values(|p: (String, Principal)| (p.0@, p.1))
}

pub open spec fn revs_view(s: Seq<LegacyRevocation>) -> Seq<RevocationView> {
    s.map_values(|r: LegacyRevocation| r@)
}

pub open spec fn legacy_vaults_view(s: Seq<(Principal, Vec<VerifiableCredential>)>) -> Seq<
    (Principal, Seq<CredentialView>),
> {
    s.map_values(|p: (Principal, Vec<VerifiableCredential>)| (p.0, creds_view(p.1@)))
}

// ---- index determinism ----
// Each keyed collection is looked up through a `choose`; whenever the keys
// are pairwise distinct, the chosen index is the index of any matching entry.

pub proof fn lemma_vault_index(vaults: Seq<VaultView>, owner: Principal, i: int)
    requires
        forall|p: int, q: int| 0 <= p < q < vaults.len() ==> vaults[p].owner != vaults[q].owner,
        0 <= i < vaults.len(),
        vaults[i].owner == owner,
    ensures
        has_vault(vaults, owner),
        vault_index(vaults, owner) == i,
{
    assert(has_vault(vaults, owner));
    let j = vault_index(vaults, owner);
    assert(0 <= j < vaults.len() && vaults[j].owner == owner);
}

pub proof fn lemma_cred_index(creds: Seq<CredentialView>, id: Seq<char>, i: int)
    requires
        nodup_cred_ids(creds),
        0 <= i < creds.len(),
        creds[i].id == id,
    ensures
        has_cred(creds, id),
        cred_index(creds, id) == i,
{
    assert(has_cred(creds, id));
    let j = cred_index(creds, id);
    assert(0 <= j < creds.len() && creds[j].id == id);
}

pub proof fn lemma_status_index(sts: Seq<(Seq<char>, StatusView)>, id: Seq<char>, i: int)
    requires
        forall|p: int, q: int| 0 <= p < q < sts.len() ==> sts[p].0 != sts[q].0,
        0 <= i < sts.len(),
        sts[i].0 == id,
    ensures
        has_status(sts, id),
        status_index(sts, id) == i,
{
    assert(has_status(sts, id));
    let j = status_index(sts, id);
    assert(0 <= j < sts.len() && sts[j].0 == id);
}

pub proof fn lemma_owner_entry_index(own: Seq<(Seq<char>, Principal)>, id: Seq<char>, i: int)
    requires
        forall|p: int, q: int| 0 <= p < q < own.len() ==> own[p].0 != own[q].0,
        0 <= i < own.len(),
        own[i].0 == id,
    ensures
        has_owner_entry(own, id),
        owner_entry_index(own, id) == i,
{
    assert(has_owner_entry(own, id));
    let j = owner_entry_index(own, id);
    assert(0 <= j < own.len() && own[j].0 == id);
}

pub proof fn lemma_custom_fee_index(fees: Seq<(Principal, i128)>, issuer: Principal, i: int)
    requires
        forall|p: int, q: int| 0 <= p < q < fees.len() ==> fees[p].0 != fees[q].0,
        0 <= i < fees.len(),
        fees[i].0 == issuer,
    ensures
        has_custom_fee(fees, issuer),
        custom_fee_index(fees, issuer) == i,
{
    assert(has_custom_fee(fees, issuer));
    let j = custom_fee_index(fees, issuer);
    assert(0 <= j < fees.len() && fees[j].0 == issuer);
}

pub proof fn lemma_legacy_vault_index(
    leg: Seq<(Principal, Seq<CredentialView>)>,
    owner: Principal,
    i: int,
)
    requires
        forall|p: int, q: int| 0 <= p < q < leg.len() ==> leg[p].0 != leg[q].0,
        0 <= i < leg.len(),
        leg[i].0 == owner,
    ensures
        has_legacy_vault(leg, owner),
        legacy_vault_index(leg, owner) == i,
{
    assert(has_legacy_vault(leg, owner));
    let j = legacy_vault_index(leg, owner);
    assert(0 <= j < leg.len() && leg[j].0 == owner);
}

pub proof fn lemma_revocation_index(revs: Seq<RevocationView>, id: Seq<char>, i: int)
    requires
        forall|p: int, q: int| 0 <= p < q < revs.len() ==> revs[p].vc_id != revs[q].vc_id,
        0 <= i < revs.len(),
        revs[i].vc_id == id,
    ensures
        has_revocation(revs, id),
        revocation_index(revs, id) == i,
{
    assert(has_revocation(revs, id));
    let j = revocation_index(revs, id);
    assert(0 <= j < revs.len() && revs[j].vc_id == id);
}

// ---- effect of the collection operations ----

/// Replacing the vault of `owner` by one still owned by `owner` keeps the
/// owners distinct, makes that vault the one looked up for `owner`, and
/// leaves every other owner's vault untouched.
pub proof fn lemma_vault_update(vaults: Seq<VaultView>, owner: Principal, v: VaultView)
    requires
        forall|p: int, q: int| 0 <= p < q < vaults.len() ==> vaults[p].owner != vaults[q].owner,
        has_vault(vaults, owner),
        v.owner == owner,
    ensures
        forall|p: int, q: int|
            0 <= p < q < vault_update(vaults, owner, v).len() ==> vault_update(
                vaults,
                owner,
                v,
            )[p].owner != vault_update(vaults, owner, v)[q].owner,
        has_vault(vault_update(vaults, owner, v), owner),
        vault_at(vault_update(vaults, owner, v), owner) == v,
        forall|o2: Principal|
            o2 != owner ==> has_vault(vault_update(vaults, owner, v), o2) == #[trigger] has_vault(
                vaults,
                o2,
            ),
        forall|o2: Principal|
            o2 != owner && has_vault(vaults, o2) ==> vault_at(vault_update(vaults, owner, v), o2)
                == #[trigger] vault_at(vaults, o2),
{
    let i = vault_index(vaults, owner);
    assert(0 <= i < vaults.len() && vaults[i].owner == owner);
    let out = vault_update(vaults, owner, v);
    assert forall|p: int, q: int| 0 <= p < q < out.len() implies out[p].owner != out[q].owner by {
        assert(out[p] == if p == i {
            v
        } else {
            vaults[p]
        });
        assert(out[q] == if q == i {
            v
        } else {
            vaults[q]
        });
    }
    lemma_vault_index(out, owner, i);
    assert forall|o2: Principal| o2 != owner && has_vault(vaults, o2) implies has_vault(out, o2)
        && vault_at(out, o2) == #[trigger] vault_at(vaults, o2) by {
        let k = vault_index(vaults, o2);
        assert(vaults[k].owner == o2);
        assert(k != i);
        assert(out[k] == vaults[k]);
        lemma_vault_index(out, o2, k);
    }
    assert forall|o2: Principal| o2 != owner implies has_vault(out, o2) == #[trigger] has_vault(
        vaults,
        o2,
    ) by {
        if has_vault(out, o2) {
            let k = vault_index(out, o2);
            assert(out[k].owner == o2);
            assert(k != i);
            assert(vaults[k].owner == o2);
        }
        if has_vault(vaults, o2) {
            let k = vault_index(vaults, o2);
            assert(vaults[k].owner == o2);
            assert(k != i);
            assert(out[k].owner == o2);
        }
    }
}

/// Storing a batch and then one more credential is the same as storing the
/// batch extended by it: the unrolling step of the migration loop.
pub proof fn lemma_store_creds_snoc(
    creds: Seq<CredentialView>,
    batch: Seq<CredentialView>,
    c: CredentialView,
)
    ensures
        store_creds(creds, batch.push(c)) == store_cred(store_creds(creds, batch), c),
    decreases batch.len(),
{
    if batch.len() == 0 {
        let tail = batch.push(c).drop_first();
        assert(batch.push(c)[0] == c);
        assert(tail =~= Seq::<CredentialView>::empty());
        assert(store_creds(creds, batch.push(c)) == store_creds(store_cred(creds, c), tail));
        assert(store_creds(store_cred(creds, c), tail) == store_cred(creds, c)) by {
            assert(tail.len() == 0);
        }
        assert(store_creds(creds, batch) == creds);
    } else {
        let tail = batch.push(c).drop_first();
        assert(batch.push(c)[0] == batch[0]);
        assert(tail =~= batch.drop_first().push(c));
        assert(store_creds(creds, batch.push(c)) == store_creds(
            store_cred(creds, batch[0]),
            tail,
        ));
        lemma_store_creds_snoc(store_cred(creds, batch[0]), batch.drop_first(), c);
        assert(store_creds(creds, batch) == store_creds(
            store_cred(creds, batch[0]),
            batch.drop_first(),
        ));
    }
}

/// A status upsert writes exactly the given entry and leaves every other id
/// alone; keys stay distinct and no `Invalid` entry appears.
pub proof fn lemma_status_upsert(sts: Seq<(Seq<char>, StatusView)>, id: Seq<char>, st: StatusView)
    requires
        forall|p: int, q: int| 0 <= p < q < sts.len() ==> sts[p].0 != sts[q].0,
        forall|i: int| 0 <= i < sts.len() ==> (#[trigger] sts[i]).1 != StatusView::Invalid,
        st != StatusView::Invalid,
    ensures
        forall|p: int, q: int|
            0 <= p < q < status_upsert(sts, id, st).len() ==> status_upsert(sts, id, st)[p].0
                != status_upsert(sts, id, st)[q].0,
        forall|i: int|
            0 <= i < status_upsert(sts, id, st).len() ==> (#[trigger] status_upsert(
                sts,
                id,
                st,
            )[i]).1 != StatusView::Invalid,
        status_of(status_upsert(sts, id, st), id) == st,
        forall|id2: Seq<char>|
            id2 != id ==> status_of(status_upsert(sts, id, st), id2) == #[trigger] status_of(
                sts,
                id2,
            ),
{
    let out = status_upsert(sts, id, st);
    if has_status(sts, id) {
        let i = status_index(sts, id);
        assert(0 <= i < sts.len() && sts[i].0 == id);
        lemma_status_index(out, id, i);
        assert forall|id2: Seq<char>| id2 != id implies status_of(out, id2) == #[trigger] status_of(
            sts,
            id2,
        ) by {
            if has_status(sts, id2) {
                let k = status_index(sts, id2);
                assert(out[k] == sts[k]);
                lemma_status_index(out, id2, k);
            } else {
                assert(!has_status(out, id2)) by {
                    if has_status(out, id2) {
                        let k = status_index(out, id2);
                        assert(out[k].0 == id2);
                        assert(sts[k].0 == id2);
                    }
                }
            }
        }
    } else {
        assert forall|p: int, q: int| 0 <= p < q < out.len() implies out[p].0 != out[q].0 by {
            if q == sts.len() {
                assert(out[p] == sts[p]);
                if out[p].0 == id {
                    assert(has_status(sts, id));
                }
            }
        }
        lemma_status_index(out, id, sts.len() as int);
        assert forall|id2: Seq<char>| id2 != id implies status_of(out, id2) == #[trigger] status_of(
            sts,
            id2,
        ) by {
            if has_status(sts, id2) {
                let k = status_index(sts, id2);
                assert(out[k] == sts[k]);
                lemma_status_index(out, id2, k);
            } else {
                assert(!has_status(out, id2)) by {
                    if has_status(out, id2) {
                        let k = status_index(out, id2);
                        assert(out[k].0 == id2);
                        assert(k < sts.len() ==> sts[k].0 == id2);
                    }
                }
            }
        }
    }
}

/// An owner-pointer upsert writes exactly the given pointer and leaves every
/// other id alone; keys stay distinct.
pub proof fn lemma_owner_upsert(own: Seq<(Seq<char>, Principal)>, id: Seq<char>, owner: Principal)
    requires
        forall|p: int, q: int| 0 <= p < q < own.len() ==> own[p].0 != own[q].0,
    ensures
        forall|p: int, q: int|
            0 <= p < q < owner_upsert(own, id, owner).len() ==> owner_upsert(own, id, owner)[p].0
                != owner_upsert(own, id, owner)[q].0,
        owner_of(owner_upsert(own, id, owner), id) == Some(owner),
        forall|id2: Seq<char>|
            id2 != id ==> owner_of(owner_upsert(own, id, owner), id2) == #[trigger] owner_of(
                own,
                id2,
            ),
{
    let out = owner_upsert(own, id, owner);
    if has_owner_entry(own, id) {
        let i = owner_entry_index(own, id);
        assert(0 <= i < own.len() && own[i].0 == id);
        lemma_owner_entry_index(out, id, i);
        assert forall|id2: Seq<char>| id2 != id implies owner_of(out, id2) == #[trigger] owner_of(
            own,
            id2,
        ) by {
            if has_owner_entry(own, id2) {
                let k = owner_entry_index(own, id2);
                assert(out[k] == own[k]);
                lemma_owner_entry_index(out, id2, k);
            } else {
                assert(!has_owner_entry(out, id2)) by {
                    if has_owner_entry(out, id2) {
                        let k = owner_entry_index(out, id2);
                        assert(own[k].0 == id2);
                    }
                }
            }
        }
    } else {
        assert forall|p: int, q: int| 0 <= p < q < out.len() implies out[p].0 != out[q].0 by {
            if q == own.len() {
                assert(out[p] == own[p]);
                if out[p].0 == id {
                    assert(has_owner_entry(own, id));
                }
            }
        }
        lemma_owner_entry_index(out, id, own.len() as int);
        assert forall|id2: Seq<char>| id2 != id implies owner_of(out, id2) == #[trigger] owner_of(
            own,
            id2,
        ) by {
            if has_owner_entry(own, id2) {
                let k = owner_entry_index(own, id2);
                assert(out[k] == own[k]);
                lemma_owner_entry_index(out, id2, k);
            } else {
                assert(!has_owner_entry(out, id2)) by {
                    if has_owner_entry(out, id2) {
                        let k = owner_entry_index(out, id2);
                        assert(out[k].0 == id2);
                        assert(k < own.len() ==> own[k].0 == id2);
                    }
                }
            }
        }
    }
}

/// Storing a credential writes exactly that credential under its id and
/// leaves every other id alone; ids stay distinct.
pub proof fn lemma_store_cred(creds: Seq<CredentialView>, c: CredentialView)
    requires
        nodup_cred_ids(creds),
    ensures
        nodup_cred_ids(store_cred(creds, c)),
        has_cred(store_cred(creds, c), c.id),
        cred_at(store_cred(creds, c), c.id) == c,
        forall|id2: Seq<char>|
            id2 != c.id ==> has_cred(store_cred(creds, c), id2) == #[trigger] has_cred(creds, id2),
        forall|id2: Seq<char>|
            id2 != c.id && has_cred(creds, id2) ==> cred_at(store_cred(creds, c), id2)
                == #[trigger] cred_at(creds, id2),
{
    let out = store_cred(creds, c);
    if has_cred(creds, c.id) {
        let i = cred_index(creds, c.id);
        assert(0 <= i < creds.len() && creds[i].id == c.id);
        assert forall|p: int, q: int| 0 <= p < q < out.len() implies out[p].id != out[q].id by {
            assert(out[p].id == creds[p].id);
            assert(out[q].id == creds[q].id);
        }
        lemma_cred_index(out, c.id, i);
        assert forall|id2: Seq<char>| id2 != c.id && has_cred(creds, id2) implies cred_at(out, id2)
            == #[trigger] cred_at(creds, id2) by {
            let k = cred_index(creds, id2);
            assert(out[k] == creds[k]);
            lemma_cred_index(out, id2, k);
        }
        assert forall|id2: Seq<char>| id2 != c.id implies has_cred(out, id2) == #[trigger] has_cred(
            creds,
            id2,
        ) by {
            if has_cred(creds, id2) {
                let k = cred_index(creds, id2);
                assert(out[k].id == id2);
            }
            if has_cred(out, id2) {
                let k = cred_index(out, id2);
                assert(creds[k].id == id2);
            }
        }
    } else {
        assert forall|p: int, q: int| 0 <= p < q < out.len() implies out[p].id != out[q].id by {
            if p == 0 {
                assert(out[q] == creds[q - 1]);
                if out[p].id == out[q].id {
                    assert(has_cred(creds, c.id));
                }
            } else {
                assert(out[p] == creds[p - 1]);
                assert(out[q] == creds[q - 1]);
            }
        }
        lemma_cred_index(out, c.id, 0);
        assert forall|id2: Seq<char>| id2 != c.id && has_cred(creds, id2) implies cred_at(out, id2)
            == #[trigger] cred_at(creds, id2) by {
            let k = cred_index(creds, id2);
            assert(out[k + 1] == creds[k]);
            lemma_cred_index(out, id2, k + 1);
        }
        assert forall|id2: Seq<char>| id2 != c.id implies has_cred(out, id2) == #[trigger] has_cred(
            creds,
            id2,
        ) by {
            if has_cred(creds, id2) {
                let k = cred_index(creds, id2);
                assert(out[k + 1].id == id2);
            }
            if has_cred(out, id2) {
                let k = cred_index(out, id2);
                assert(k > 0);
                assert(creds[k - 1].id == id2);
            }
        }
    }
}

/// Removing a credential erases exactly that id and leaves every other id
/// alone; ids stay distinct.
pub proof fn lemma_remove_cred(creds: Seq<CredentialView>, id: Seq<char>)
    requires
        nodup_cred_ids(creds),
        has_cred(creds, id),
    ensures
        nodup_cred_ids(remove_cred(creds, id)),
        !has_cred(remove_cred(creds, id), id),
        forall|id2: Seq<char>|
            id2 != id ==> has_cred(remove_cred(creds, id), id2) == #[trigger] has_cred(creds, id2),
        forall|id2: Seq<char>|
            id2 != id && has_cred(creds, id2) ==> cred_at(remove_cred(creds, id), id2)
                == #[trigger] cred_at(creds, id2),
{
    let out = remove_cred(creds, id);
    let i = cred_index(creds, id);
    assert(0 <= i < creds.len() && creds[i].id == id);
    assert forall|p: int, q: int| 0 <= p < q < out.len() implies out[p].id != out[q].id by {
        assert(out[p] == if p < i {
            creds[p]
        } else {
            creds[p + 1]
        });
        assert(out[q] == if q < i {
            creds[q]
        } else {
            creds[q + 1]
        });
    }
    assert(!has_cred(out, id)) by {
        if has_cred(out, id) {
            let k = cred_index(out, id);
            assert(out[k].id == id);
            if k < i {
                assert(creds[k].id == id);
            } else {
                assert(creds[k + 1].id == id);
            }
        }
    }
    assert forall|id2: Seq<char>| id2 != id && has_cred(creds, id2) implies has_cred(out, id2)
        && cred_at(out, id2) == #[trigger] cred_at(creds, id2) by {
        let k = cred_index(creds, id2);
        assert(creds[k].id == id2);
        if k < i {
            assert(out[k] == creds[k]);
            lemma_cred_index(out, id2, k);
        } else {
            assert(k > i);
            assert(out[k - 1] == creds[k]);
            lemma_cred_index(out, id2, k - 1);
        }
    }
    assert forall|id2: Seq<char>| id2 != id implies has_cred(out, id2) == #[trigger] has_cred(
        creds,
        id2,
    ) by {
        if has_cred(out, id2) {
            let k = cred_index(out, id2);
            assert(out[k].id == id2);
            if k < i {
                assert(creds[k].id == id2);
            } else {
                assert(creds[k + 1].id == id2);
            }
        }
        if has_cred(creds, id2) {
            let k = cred_index(creds, id2);
            assert(creds[k].id == id2);
            if k < i {
                assert(out[k].id == id2);
            } else {
                assert(k > i);
                assert(out[k - 1].id == id2);
            }
        }
    }
}

/// The per-issuer fee upsert writes exactly the given amount and leaves
/// every other issuer alone; keys stay distinct.
pub proof fn lemma_custom_fee_upsert(fees: Seq<(Principal, i128)>, issuer: Principal, amount: i128)
    requires
        forall|p: int, q: int| 0 <= p < q < fees.len() ==> fees[p].0 != fees[q].0,
    ensures
        forall|p: int, q: int|
            0 <= p < q < custom_fee_upsert(fees, issuer, amount).len() ==> custom_fee_upsert(
                fees,
                issuer,
                amount,
            )[p].0 != custom_fee_upsert(fees, issuer, amount)[q].0,
        custom_fee_of(custom_fee_upsert(fees, issuer, amount), issuer) == Some(amount),
        forall|other: Principal|
            other != issuer ==> custom_fee_of(custom_fee_upsert(fees, issuer, amount), other)
                == #[trigger] custom_fee_of(fees, other),
{
    let out = custom_fee_upsert(fees, issuer, amount);
    if has_custom_fee(fees, issuer) {
        let i = custom_fee_index(fees, issuer);
        assert(0 <= i < fees.len() && fees[i].0 == issuer);
        lemma_custom_fee_index(out, issuer, i);
        assert forall|other: Principal| other != issuer implies custom_fee_of(out, other)
            == #[trigger] custom_fee_of(fees, other) by {
            if has_custom_fee(fees, other) {
                let k = custom_fee_index(fees, other);
                assert(out[k] == fees[k]);
                lemma_custom_fee_index(out, other, k);
            } else {
                assert(!has_custom_fee(out, other)) by {
                    if has_custom_fee(out, other) {
                        let k = custom_fee_index(out, other);
                        assert(fees[k].0 == other);
                    }
                }
            }
        }
    } else {
        assert forall|p: int, q: int| 0 <= p < q < out.len() implies out[p].0 != out[q].0 by {
            if q == fees.len() {
                assert(out[p] == fees[p]);
                if out[p].0 == issuer {
                    assert(has_custom_fee(fees, issuer));
                }
            }
        }
        lemma_custom_fee_index(out, issuer, fees.len() as int);
        assert forall|other: Principal| other != issuer implies custom_fee_of(out, other)
            == #[trigger] custom_fee_of(fees, other) by {
            if has_custom_fee(fees, other) {
                let k = custom_fee_index(fees, other);
                assert(out[k] == fees[k]);
                lemma_custom_fee_index(out, other, k);
            } else {
                assert(!has_custom_fee(out, other)) by {
                    if has_custom_fee(out, other) {
                        let k = custom_fee_index(out, other);
                        assert(out[k].0 == other);
                        assert(k < fees.len() ==> fees[k].0 == other);
                    }
                }
            }
        }
    }
}

} // verus!

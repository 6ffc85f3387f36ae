use vstd::prelude::*;

use crate::error::ContractError;
use crate::issuance::find_status;
use crate::issuance::revoke_vc;
use crate::issuance::set_status;
use crate::model::CredentialView;
use crate::model::FeeConfig;
use crate::model::FeeTransfer;
use crate::model::LegacyRevocation;
use crate::model::StatusView;
use crate::model::VCStatus;
use crate::model::VerifiableCredential;
use crate::principal::Principal;
use crate::state::creds_view;
use crate::state::has_custom_fee;
use crate::state::has_legacy_vault;
use crate::state::has_owner_entry;
use crate::state::has_revocation;
use crate::state::has_vault;
use crate::state::legacy_vault_of;
use crate::state::legacy_vaults_view;
use crate::state::lemma_custom_fee_index;
use crate::state::lemma_custom_fee_upsert;
use crate::state::lemma_legacy_vault_index;
use crate::state::lemma_owner_entry_index;
use crate::state::lemma_owner_upsert;
use crate::state::lemma_revocation_index;
use crate::state::lemma_status_index;
use crate::state::lemma_status_upsert;
use crate::state::lemma_store_cred;
use crate::state::lemma_vault_index;
use crate::state::owner_of;
use crate::state::owner_upsert;
use crate::state::owners_view;
use crate::state::revocation_date_of;
use crate::state::revs_view;
use crate::state::state_wf;
use crate::state::status_of;
use crate::state::statuses_view;
use crate::state::store_creds;
use crate::state::strings_view;
use crate::state::vault_at;
use crate::state::vault_wf;
use crate::state::StateView;
use crate::state::VaultView;
use crate::transitions::authorize_issuer_err;
use crate::transitions::authorize_issuer_post;
use crate::transitions::authorize_issuers_post;
use crate::transitions::contract_admin_err;
use crate::transitions::create_vault_err;
use crate::transitions::create_vault_post;
use crate::transitions::fee_admin_amount;
use crate::transitions::fee_config_of;
use crate::transitions::fee_custom_amount;
use crate::transitions::fee_early_amount;
use crate::transitions::fee_standard_amount;
use crate::transitions::get_vc_spec;
use crate::transitions::initialize_err;
use crate::transitions::initialize_post;
use crate::transitions::issue_err;
use crate::transitions::issue_post;
use crate::transitions::issue_transfer;
use crate::transitions::list_vc_ids_spec;
use crate::transitions::migrate_global_err;
use crate::transitions::migrate_global_post;
use crate::transitions::migrate_statuses;
use crate::transitions::migrate_vault_err;
use crate::transitions::migrate_vault_post;
use crate::transitions::push_err;
use crate::transitions::push_post;
use crate::transitions::report_of;
use crate::transitions::revoke_err;
use crate::transitions::revoke_issuer_err;
use crate::transitions::revoke_issuer_post;
use crate::transitions::revoke_post;
use crate::transitions::revoke_vault_post;
use crate::transitions::set_vault_admin_post;
use crate::transitions::store_vc_post;
use crate::transitions::vault_gate_err;
use crate::transitions::verify_vc_spec;
use crate::transitions::OutcomeView;
use crate::transitions::ReportView;
use crate::vault::is_authorized;
use crate::vault::Vault;

verus! {

/// A status report as returned by `verify_vc`: `status` is one of
/// `"valid"`, `"invalid"` or `"revoked"`, and `since` carries the
/// revocation date exactly in the revoked case.
#[derive(Debug)]
pub struct StatusReport {
    pub status: String,
    pub since: Option<String>,
}

impl View for StatusReport {
    type V = ReportView;

    open spec fn view(&self) -> ReportView {
        ReportView {
            status: self.status@,
            since: match self.since {
                Some(d) => Some(d@),
                None => None,
            },
        }
    }
}

/// What `verify_vc` decides. `Report` answers locally; `Delegate` instructs
/// the host to call the named foreign registry's own verify operation and
/// relay its answer unchanged.
#[derive(Debug)]
pub enum VerifyOutcome {
    Report(StatusReport),
    Delegate(Principal),
}

impl View for VerifyOutcome {
    type V = OutcomeView;

    open spec fn view(&self) -> OutcomeView {
        match self {
            VerifyOutcome::Report(rep) => OutcomeView::Report(rep@),
            VerifyOutcome::Delegate(p) => OutcomeView::Delegate(*p),
        }
    }
}

/// The vault and issuance-registry engine. One value of this type is the
/// whole engine state; every entry point is a method that checks
/// authorization and preconditions before its first write, so a call either
/// commits completely or returns an error leaving the state untouched.
///
/// Host authentication is passed in: `auths` lists the principals the host
/// attests have authorized the current call, and each method's precondition
/// demands the one the operation requires. Host-side effects (the fee
/// transfer of `issue`, the delegated lookup of `verify_vc`) are returned
/// as values for the caller to perform.
#[derive(Debug)]
pub struct VcVaultContract {
    pub own_address: Principal,
    pub admin: Option<Principal>,
    pub default_issuer_did: Option<String>,
    pub fee_enabled: bool,
    pub fee_token_contract: Option<Principal>,
    pub fee_dest: Option<Principal>,
    pub fee_amount: Option<i128>,
    pub fee_admin: Option<i128>,
    pub fee_standard: Option<i128>,
    pub fee_early: Option<i128>,
    pub fee_custom: Vec<(Principal, i128)>,
    pub vaults: Vec<Vault>,
    pub statuses: Vec<(String, VCStatus)>,
    pub vc_owners: Vec<(String, Principal)>,
    pub legacy_issuance_vcs: Option<Vec<String>>,
    pub legacy_issuance_revocations: Option<Vec<LegacyRevocation>>,
    pub legacy_vault_vcs: Vec<(Principal, Vec<VerifiableCredential>)>,
}

impl View for VcVaultContract {
    type V = StateView;

    open spec fn view(&self) -> StateView {
        StateView {
            own_address: self.own_address,
            admin: self.admin,
            default_issuer_did: match self.default_issuer_did {
                Some(d) => Some(d@),
                None => None,
            },
            fee_enabled: self.fee_enabled,
            fee_token_contract: self.fee_token_contract,
            fee_dest: self.fee_dest,
            fee_amount: self.fee_amount,
            fee_admin: self.fee_admin,
            fee_standard: self.fee_standard,
            fee_early: self.fee_early,
            fee_custom: self.fee_custom@,
            vaults: self.vaults@.map_values(|v: Vault| v@),
            statuses: statuses_view(self.statuses@),
            vc_owners: owners_view(self.vc_owners@),
            legacy_issuance_vcs: match self.legacy_issuance_vcs {
                Some(v) => Some(strings_view(v@)),
                None => None,
            },
            legacy_issuance_revocations: match self.legacy_issuance_revocations {
                Some(v) => Some(revs_view(v@)),
                None => None,
            },
            legacy_vault_vcs: legacy_vaults_view(self.legacy_vault_vcs@),
        }
    }
}

// ---- executable lookups over the keyed vectors ----

fn find_owner_entry(own: &Vec<(String, Principal)>, vc_id: &String) -> (r: Option<usize>)
    ensures
        match r {
            Some(i) => i < own.len() && own@[i as int].0@ == vc_id@,
            None => !has_owner_entry(owners_view(own@), vc_id@),
        },
{
    let mut i: usize = 0;
    while i < own.len()
        invariant
            i <= own.len(),
            forall|k: int| 0 <= k < i ==> own@[k].0@ != vc_id@,
        decreases own.len() - i,
    {
        if own[i].0 == *vc_id {
            return Some(i);
        }
        i = i + 1;
    }
    proof {
        assert(!has_owner_entry(owners_view(own@), vc_id@)) by {
            if has_owner_entry(owners_view(own@), vc_id@) {
                let k = choose|k: int|
                    0 <= k < owners_view(own@).len() && owners_view(own@)[k].0 == vc_id@;
                assert(own@[k].0@ == vc_id@);
            }
        }
    }
    None
}

fn set_owner(own: &mut Vec<(String, Principal)>, vc_id: &String, owner: Principal)
    requires
        forall|p: int, q: int|
            0 <= p < q < old(own)@.len() ==> old(own)@[p].0@ != old(own)@[q].0@,
    ensures
        owners_view(final(own)@) == owner_upsert(owners_view(old(own)@), vc_id@, owner),
{
    let ghost pre = owners_view(old(own)@);
    proof {
        assert forall|p: int, q: int| 0 <= p < q < pre.len() implies pre[p].0 != pre[q].0 by {
            assert(pre[p].0 == old(own)@[p].0@);
            assert(pre[q].0 == old(own)@[q].0@);
        }
    }
    match find_owner_entry(own, vc_id) {
        Some(i) => {
            own.remove(i);
            own.insert(i, (vc_id.clone(), owner));
            proof {
                lemma_owner_entry_index(pre, vc_id@, i as int);
                assert(owners_view(own@) =~= pre.update(i as int, (vc_id@, owner)));
            }
        },
        None => {
            own.push((vc_id.clone(), owner));
            proof {
                assert(owners_view(own@) =~= pre.push((vc_id@, owner)));
            }
        },
    }
}

fn find_custom_fee(fees: &Vec<(Principal, i128)>, issuer: &Principal) -> (r: Option<usize>)
    ensures
        match r {
            Some(i) => i < fees.len() && fees@[i as int].0 == *issuer,
            None => !has_custom_fee(fees@, *issuer),
        },
{
    let mut i: usize = 0;
    while i < fees.len()
        invariant
            i <= fees.len(),
            forall|k: int| 0 <= k < i ==> fees@[k].0 != *issuer,
        decreases fees.len() - i,
    {
        if fees[i].0 == *issuer {
            return Some(i);
        }
        i = i + 1;
    }
    None
}

fn find_legacy_vault(leg: &Vec<(Principal, Vec<VerifiableCredential>)>, owner: &Principal) -> (r:
    Option<usize>)
    ensures
        match r {
            Some(i) => i < leg.len() && leg@[i as int].0 == *owner,
            None => !has_legacy_vault(legacy_vaults_view(leg@), *owner),
        },
{
    let mut i: usize = 0;
    while i < leg.len()
        invariant
            i <= leg.len(),
            forall|k: int| 0 <= k < i ==> leg@[k].0 != *owner,
        decreases leg.len() - i,
    {
        if leg[i].0 == *owner {
            return Some(i);
        }
        i = i + 1;
    }
    proof {
        assert(!has_legacy_vault(legacy_vaults_view(leg@), *owner)) by {
            if has_legacy_vault(legacy_vaults_view(leg@), *owner) {
                let k = choose|k: int|
                    0 <= k < legacy_vaults_view(leg@).len() && legacy_vaults_view(leg@)[k].0
                        == *owner;
                assert(leg@[k].0 == *owner);
            }
        }
    }
    None
}

fn find_revocation(revs: &Vec<LegacyRevocation>, vc_id: &String) -> (r: Option<usize>)
    ensures
        match r {
            Some(i) => i < revs.len() && revs@[i as int]@.vc_id == vc_id@,
            None => !has_revocation(revs_view(revs@), vc_id@),
        },
{
    let mut i: usize = 0;
    while i < revs.len()
        invariant
            i <= revs.len(),
            forall|k: int| 0 <= k < i ==> revs@[k]@.vc_id != vc_id@,
        decreases revs.len() - i,
    {
        if revs[i].vc_id == *vc_id {
            return Some(i);
        }
        i = i + 1;
    }
    proof {
        assert(!has_revocation(revs_view(revs@), vc_id@)) by {
            if has_revocation(revs_view(revs@), vc_id@) {
                let k = choose|k: int|
                    0 <= k < revs_view(revs@).len() && revs_view(revs@)[k].vc_id == vc_id@;
                assert(revs@[k]@.vc_id == vc_id@);
            }
        }
    }
    None
}

impl VcVaultContract {
    /// The structural invariant every entry point preserves.
    pub open spec fn wf(self) -> bool {
        state_wf(self@)
    }

    /// A fresh engine bound to its own on-ledger identity: no admin, no
    /// configuration, no vaults, an empty registry.
    pub fn new(own_address: Principal) -> (r: VcVaultContract)
        ensures
            r.wf(),
            r@ == (StateView {
                own_address,
                admin: None,
                default_issuer_did: None,
                fee_enabled: false,
                fee_token_contract: None,
                fee_dest: None,
                fee_amount: None,
                fee_admin: None,
                fee_standard: None,
                fee_early: None,
                fee_custom: Seq::empty(),
                vaults: Seq::empty(),
                statuses: Seq::empty(),
                vc_owners: Seq::empty(),
                legacy_issuance_vcs: None,
                legacy_issuance_revocations: None,
                legacy_vault_vcs: Seq::empty(),
            }),
    {
        let r = VcVaultContract {
            own_address,
            admin: None,
            default_issuer_did: None,
            fee_enabled: false,
            fee_token_contract: None,
            fee_dest: None,
            fee_amount: None,
            fee_admin: None,
            fee_standard: None,
            fee_early: None,
            fee_custom: Vec::new(),
            vaults: Vec::new(),
            statuses: Vec::new(),
            vc_owners: Vec::new(),
            legacy_issuance_vcs: None,
            legacy_issuance_revocations: None,
            legacy_vault_vcs: Vec::new(),
        };
        proof {
            assert(r@ =~= (StateView {
                own_address,
                admin: None,
                default_issuer_did: None,
                fee_enabled: false,
                fee_token_contract: None,
                fee_dest: None,
                fee_amount: None,
                fee_admin: None,
                fee_standard: None,
                fee_early: None,
                fee_custom: Seq::empty(),
                vaults: Seq::empty(),
                statuses: Seq::empty(),
                vc_owners: Seq::empty(),
                legacy_issuance_vcs: None,
                legacy_issuance_revocations: None,
                legacy_vault_vcs: Seq::empty(),
            }));
        }
        r
    }

    fn find_vault(&self, owner: &Principal) -> (r: Option<usize>)
        ensures
            match r {
                Some(i) => i < self.vaults.len() && self@.vaults[i as int].owner == *owner,
                None => !has_vault(self@.vaults, *owner),
            },
    {
        let mut i: usize = 0;
        while i < self.vaults.len()
            invariant
                i <= self.vaults.len(),
                forall|k: int| 0 <= k < i ==> self.vaults@[k].owner != *owner,
            decreases self.vaults.len() - i,
        {
            if self.vaults[i].owner == *owner {
                return Some(i);
            }
            i = i + 1;
        }
        proof {
            assert(!has_vault(self@.vaults, *owner)) by {
                if has_vault(self@.vaults, *owner) {
                    let k = choose|k: int|
                        0 <= k < self@.vaults.len() && self@.vaults[k].owner == *owner;
                    assert(self.vaults@[k].owner == *owner);
                }
            }
        }
        None
    }

    /// One-time contract initialization: record the admin, the default
    /// issuer DID, and start with fees disabled.
    pub fn initialize(
        &mut self,
        contract_admin: Principal,
        default_issuer_did: String,
        auths: &Vec<Principal>,
    ) -> (r: Result<(), ContractError>)
        requires
            old(self).wf(),
            auths@.contains(contract_admin),
        ensures
            final(self).wf(),
            match initialize_err(old(self)@) {
                Some(e) => r == Err::<(), ContractError>(e) && final(self)@ == old(self)@,
                None => r == Ok::<(), ContractError>(()) && final(self)@ == initialize_post(
                    old(self)@,
                    contract_admin,
                    default_issuer_did@,
                ),
            },
    {
        if self.admin.is_some() {
            return Err(ContractError::AlreadyInitialized);
        }
        self.admin = Some(contract_admin);
        self.default_issuer_did = Some(default_issuer_did);
        self.fee_enabled = false;
        proof {
            assert(self@ =~= initialize_post(old(self)@, contract_admin, self.default_issuer_did->Some_0@));
        }
        Ok(())
    }

    /// Replace the contract admin (admin-only).
    pub fn set_contract_admin(&mut self, new_admin: Principal, auths: &Vec<Principal>) -> (r:
        Result<(), ContractError>)
        requires
            old(self).wf(),
            old(self)@.admin matches Some(a) ==> auths@.contains(a),
        ensures
            final(self).wf(),
            match contract_admin_err(old(self)@) {
                Some(e) => r == Err::<(), ContractError>(e) && final(self)@ == old(self)@,
                None => r == Ok::<(), ContractError>(()) && final(self)@ == (StateView {
                    admin: Some(new_admin),
                    ..old(self)@
                }),
            },
    {
        if self.admin.is_none() {
            return Err(ContractError::NotInitialized);
        }
        self.admin = Some(new_admin);
        proof {
            assert(self@ =~= (StateView { admin: Some(new_admin), ..old(self)@ }));
        }
        Ok(())
    }

    /// Set token, destination and amount of the fee configuration
    /// (admin-only).
    pub fn set_fee_config(
        &mut self,
        token_contract: Principal,
        fee_dest: Principal,
        fee_amount: i128,
        auths: &Vec<Principal>,
    ) -> (r: Result<(), ContractError>)
        requires
            old(self).wf(),
            old(self)@.admin matches Some(a) ==> auths@.contains(a),
        ensures
            final(self).wf(),
            match contract_admin_err(old(self)@) {
                Some(e) => r == Err::<(), ContractError>(e) && final(self)@ == old(self)@,
                None => r == Ok::<(), ContractError>(()) && final(self)@ == (StateView {
                    fee_token_contract: Some(token_contract),
                    fee_dest: Some(fee_dest),
                    fee_amount: Some(fee_amount),
                    ..old(self)@
                }),
            },
    {
        if self.admin.is_none() {
            return Err(ContractError::NotInitialized);
        }
        self.fee_token_contract = Some(token_contract);
        self.fee_dest = Some(fee_dest);
        self.fee_amount = Some(fee_amount);
        proof {
            assert(self@ =~= (StateView {
                fee_token_contract: Some(token_contract),
                fee_dest: Some(fee_dest),
                fee_amount: Some(fee_amount),
                ..old(self)@
            }));
        }
        Ok(())
    }

    /// Switch the fee gate on or off (admin-only).
    pub fn set_fee_enabled(&mut self, enabled: bool, auths: &Vec<Principal>) -> (r: Result<
        (),
        ContractError,
    >)
        requires
            old(self).wf(),
            old(self)@.admin matches Some(a) ==> auths@.contains(a),
        ensures
            final(self).wf(),
            match contract_admin_err(old(self)@) {
                Some(e) => r == Err::<(), ContractError>(e) && final(self)@ == old(self)@,
                None => r == Ok::<(), ContractError>(()) && final(self)@ == (StateView {
                    fee_enabled: enabled,
                    ..old(self)@
                }),
            },
    {
        if self.admin.is_none() {
            return Err(ContractError::NotInitialized);
        }
        self.fee_enabled = enabled;
        proof {
            assert(self@ =~= (StateView { fee_enabled: enabled, ..old(self)@ }));
        }
        Ok(())
    }

    /// Set the admin-role fee of the role table (admin-only).
    pub fn set_fee_admin(&mut self, fee_amount: i128, auths: &Vec<Principal>) -> (r: Result<
        (),
        ContractError,
    >)
        requires
            old(self).wf(),
            old(self)@.admin matches Some(a) ==> auths@.contains(a),
        ensures
            final(self).wf(),
            match contract_admin_err(old(self)@) {
                Some(e) => r == Err::<(), ContractError>(e) && final(self)@ == old(self)@,
                None => r == Ok::<(), ContractError>(()) && final(self)@ == (StateView {
                    fee_admin: Some(fee_amount),
                    ..old(self)@
                }),
            },
    {
        if self.admin.is_none() {
            return Err(ContractError::NotInitialized);
        }
        self.fee_admin = Some(fee_amount);
        proof {
            assert(self@ =~= (StateView { fee_admin: Some(fee_amount), ..old(self)@ }));
        }
        Ok(())
    }

    /// Set the standard-role fee of the role table (admin-only).
    pub fn set_fee_standard(&mut self, fee_amount: i128, auths: &Vec<Principal>) -> (r: Result<
        (),
        ContractError,
    >)
        requires
            old(self).wf(),
            old(self)@.admin matches Some(a) ==> auths@.contains(a),
        ensures
            final(self).wf(),
            match contract_admin_err(old(self)@) {
                Some(e) => r == Err::<(), ContractError>(e) && final(self)@ == old(self)@,
                None => r == Ok::<(), ContractError>(()) && final(self)@ == (StateView {
                    fee_standard: Some(fee_amount),
                    ..old(self)@
                }),
            },
    {
        if self.admin.is_none() {
            return Err(ContractError::NotInitialized);
        }
        self.fee_standard = Some(fee_amount);
        proof {
            assert(self@ =~= (StateView { fee_standard: Some(fee_amount), ..old(self)@ }));
        }
        Ok(())
    }

    /// Set the early-adopter fee of the role table (admin-only).
    pub fn set_fee_early(&mut self, fee_amount: i128, auths: &Vec<Principal>) -> (r: Result<
        (),
        ContractError,
    >)
        requires
            old(self).wf(),
            old(self)@.admin matches Some(a) ==> auths@.contains(a),
        ensures
            final(self).wf(),
            match contract_admin_err(old(self)@) {
                Some(e) => r == Err::<(), ContractError>(e) && final(self)@ == old(self)@,
                None => r == Ok::<(), ContractError>(()) && final(self)@ == (StateView {
                    fee_early: Some(fee_amount),
                    ..old(self)@
                }),
            },
    {
        if self.admin.is_none() {
            return Err(ContractError::NotInitialized);
        }
        self.fee_early = Some(fee_amount);
        proof {
            assert(self@ =~= (StateView { fee_early: Some(fee_amount), ..old(self)@ }));
        }
        Ok(())
    }

    /// Set a per-issuer fee override (admin-only).
    pub fn set_fee_custom(
        &mut self,
        issuer: Principal,
        fee_amount: i128,
        auths: &Vec<Principal>,
    ) -> (r: Result<(), ContractError>)
        requires
            old(self).wf(),
            old(self)@.admin matches Some(a) ==> auths@.contains(a),
        ensures
            final(self).wf(),
            match contract_admin_err(old(self)@) {
                Some(e) => r == Err::<(), ContractError>(e) && final(self)@ == old(self)@,
                None => r == Ok::<(), ContractError>(()) && final(self)@ == (StateView {
                    fee_custom: crate::state::custom_fee_upsert(
                        old(self)@.fee_custom,
                        issuer,
                        fee_amount,
                    ),
                    ..old(self)@
                }),
            },
    {
        if self.admin.is_none() {
            return Err(ContractError::NotInitialized);
        }
        let ghost pre = self.fee_custom@;
        match find_custom_fee(&self.fee_custom, &issuer) {
            Some(i) => {
                self.fee_custom.remove(i);
                self.fee_custom.insert(i, (issuer, fee_amount));
                proof {
                    lemma_custom_fee_index(pre, issuer, i as int);
                    assert(self.fee_custom@ =~= pre.update(i as int, (issuer, fee_amount)));
                }
            },
            None => {
                self.fee_custom.push((issuer, fee_amount));
                proof {
                    assert(self.fee_custom@ =~= pre.push((issuer, fee_amount)));
                }
            },
        }
        proof {
            lemma_custom_fee_upsert(pre, issuer, fee_amount);
            assert(self@ =~= (StateView {
                fee_custom: crate::state::custom_fee_upsert(pre, issuer, fee_amount),
                ..old(self)@
            }));
        }
        Ok(())
    }

    /// The admin-role fee; 0 when never set.
    pub fn get_fee_admin(&self) -> (r: i128)
        ensures
            r == fee_admin_amount(self@),
    {
        match self.fee_admin {
            Some(x) => x,
            None => 0,
        }
    }

    /// The standard-role fee; 1 000 000 when never set.
    pub fn get_fee_standard(&self) -> (r: i128)
        ensures
            r == fee_standard_amount(self@),
    {
        match self.fee_standard {
            Some(x) => x,
            None => 1_000_000,
        }
    }

    /// The early-adopter fee; 400 000 when never set.
    pub fn get_fee_early(&self) -> (r: i128)
        ensures
            r == fee_early_amount(self@),
    {
        match self.fee_early {
            Some(x) => x,
            None => 400_000,
        }
    }

    /// The fee charged to `issuer`: its override if one was set, otherwise
    /// the configured default amount, which must then exist.
    pub fn get_fee_custom(&self, issuer: Principal) -> (r: i128)
        requires
            self.wf(),
            !has_custom_fee(self@.fee_custom, issuer) ==> self@.fee_amount is Some,
        ensures
            r == fee_custom_amount(self@, issuer),
    {
        match find_custom_fee(&self.fee_custom, &issuer) {
            Some(i) => {
                proof {
                    lemma_custom_fee_index(self@.fee_custom, issuer, i as int);
                }
                self.fee_custom[i].1
            },
            None => self.fee_amount.unwrap(),
        }
    }

    /// A snapshot of the fee configuration.
    pub fn fee_config(&self) -> (r: FeeConfig)
        ensures
            r == fee_config_of(self@),
    {
        FeeConfig {
            enabled: self.fee_enabled,
            configured: self.fee_token_contract.is_some() && self.fee_dest.is_some()
                && self.fee_amount.is_some(),
            token_contract: self.fee_token_contract,
            fee_dest: self.fee_dest,
            fee_amount: self.fee_amount,
        }
    }

    /// The engine's version string.
    pub fn version(&self) -> (r: String)
        ensures
            r@ == "0.1.0"@,
    {
        String::from_str("0.1.0")
    }

    /// The admin gate of the module-upgrade entry point: `Ok` hands the
    /// module hash back to the host, which performs the actual swap; any
    /// other caller is refused before that.
    pub fn upgrade(&self, new_wasm_hash: Vec<u8>, auths: &Vec<Principal>) -> (r: Result<
        Vec<u8>,
        ContractError,
    >)
        requires
            self.wf(),
            self@.admin matches Some(a) ==> auths@.contains(a),
        ensures
            match contract_admin_err(self@) {
                Some(e) => r == Err::<Vec<u8>, ContractError>(e),
                None => r matches Ok(h) && h@ == new_wasm_hash@,
            },
    {
        if self.admin.is_none() {
            return Err(ContractError::NotInitialized);
        }
        Ok(new_wasm_hash)
    }

    /// Open a vault for `owner`. If the contract has no admin yet, the very
    /// first vault bootstraps the contract admin to its owner (the system is
    /// self-initializing); the bootstrap is kept in one place so it can be
    /// retired without touching call sites.
    pub fn create_vault(&mut self, owner: Principal, did_uri: String, auths: &Vec<Principal>) -> (r:
        Result<(), ContractError>)
        requires
            old(self).wf(),
            auths@.contains(owner),
        ensures
            final(self).wf(),
            match create_vault_err(old(self)@, owner) {
                Some(e) => r == Err::<(), ContractError>(e) && final(self)@ == old(self)@,
                None => r == Ok::<(), ContractError>(()) && final(self)@ == create_vault_post(
                    old(self)@,
                    owner,
                    did_uri@,
                ),
            },
    {
        if self.find_vault(&owner).is_some() {
            return Err(ContractError::AlreadyInitialized);
        }
        self.bootstrap_contract_admin(owner);
        let v = Vault::new(owner, did_uri);
        self.vaults.push(v);
        proof {
            let post = create_vault_post(old(self)@, owner, did_uri@);
            assert(self@.vaults =~= old(self)@.vaults.push(VaultView {
                owner,
                admin: owner,
                did_uri: did_uri@,
                revoked: false,
                issuers: Seq::empty(),
                credentials: Seq::empty(),
            }));
            assert(self@ =~= post);
            assert forall|p: int, q: int|
                0 <= p < q < self@.vaults.len() implies self@.vaults[p].owner
                != self@.vaults[q].owner by {
                if q == self@.vaults.len() - 1 {
                    if self@.vaults[p].owner == owner {
                        assert(has_vault(old(self)@.vaults, owner));
                    }
                }
            }
        }
        Ok(())
    }

    /// The bootstrap half of `create_vault`: the first vault ever created
    /// also installs its owner as contract admin, with fees off.
    fn bootstrap_contract_admin(&mut self, owner: Principal)
        ensures
            final(self)@ == if old(self)@.admin is None {
                StateView { admin: Some(owner), fee_enabled: false, ..old(self)@ }
            } else {
                old(self)@
            },
    {
        if self.admin.is_none() {
            self.admin = Some(owner);
            self.fee_enabled = false;
            proof {
                assert(self@ =~= (StateView {
                    admin: Some(owner),
                    fee_enabled: false,
                    ..old(self)@
                }));
            }
        }
    }

    /// Hand the vault to a new admin (current vault admin only, active
    /// vault only).
    pub fn set_vault_admin(
        &mut self,
        owner: Principal,
        new_admin: Principal,
        auths: &Vec<Principal>,
    ) -> (r: Result<(), ContractError>)
        requires
            old(self).wf(),
            has_vault(old(self)@.vaults, owner) ==> auths@.contains(
                vault_at(old(self)@.vaults, owner).admin,
            ),
        ensures
            final(self).wf(),
            match vault_gate_err(old(self)@, owner) {
                Some(e) => r == Err::<(), ContractError>(e) && final(self)@ == old(self)@,
                None => r == Ok::<(), ContractError>(()) && final(self)@ == set_vault_admin_post(
                    old(self)@,
                    owner,
                    new_admin,
                ),
            },
    {
        let i = match self.find_vault(&owner) {
            None => {
                return Err(ContractError::VaultNotInitialized);
            },
            Some(i) => i,
        };
        proof {
            lemma_vault_index(old(self)@.vaults, owner, i as int);
        }
        if self.vaults[i].revoked {
            return Err(ContractError::VaultRevoked);
        }
        let mut v = self.vaults.remove(i);
        v.admin = new_admin;
        self.vaults.insert(i, v);
        proof {
            assert(self@.vaults =~= old(self)@.vaults.update(
                i as int,
                VaultView { admin: new_admin, ..vault_at(old(self)@.vaults, owner) },
            ));
            assert(self@ =~= set_vault_admin_post(old(self)@, owner, new_admin));
        }
        Ok(())
    }

    /// Replace the whole issuer allow-list of a vault (vault admin only,
    /// active vault only). The given list is the full desired set and must
    /// name no issuer twice.
    pub fn authorize_issuers(
        &mut self,
        owner: Principal,
        issuers: Vec<Principal>,
        auths: &Vec<Principal>,
    ) -> (r: Result<(), ContractError>)
        requires
            old(self).wf(),
            crate::state::nodup_principals(issuers@),
            has_vault(old(self)@.vaults, owner) ==> auths@.contains(
                vault_at(old(self)@.vaults, owner).admin,
            ),
        ensures
            final(self).wf(),
            match vault_gate_err(old(self)@, owner) {
                Some(e) => r == Err::<(), ContractError>(e) && final(self)@ == old(self)@,
                None => r == Ok::<(), ContractError>(()) && final(self)@ == authorize_issuers_post(
                    old(self)@,
                    owner,
                    issuers@,
                ),
            },
    {
        let i = match self.find_vault(&owner) {
            None => {
                return Err(ContractError::VaultNotInitialized);
            },
            Some(i) => i,
        };
        proof {
            lemma_vault_index(old(self)@.vaults, owner, i as int);
        }
        if self.vaults[i].revoked {
            return Err(ContractError::VaultRevoked);
        }
        let ghost new_issuers = issuers@;
        let mut v = self.vaults.remove(i);
        v.authorize_issuers(issuers);
        self.vaults.insert(i, v);
        proof {
            assert(self@.vaults =~= old(self)@.vaults.update(
                i as int,
                VaultView { issuers: new_issuers, ..vault_at(old(self)@.vaults, owner) },
            ));
            assert(self@ =~= authorize_issuers_post(old(self)@, owner, new_issuers));
        }
        Ok(())
    }

    /// Add one issuer to a vault's allow-list (vault admin only, active
    /// vault only); refused if already authorized.
    pub fn authorize_issuer(
        &mut self,
        owner: Principal,
        issuer: Principal,
        auths: &Vec<Principal>,
    ) -> (r: Result<(), ContractError>)
        requires
            old(self).wf(),
            has_vault(old(self)@.vaults, owner) ==> auths@.contains(
                vault_at(old(self)@.vaults, owner).admin,
            ),
        ensures
            final(self).wf(),
            match authorize_issuer_err(old(self)@, owner, issuer) {
                Some(e) => r == Err::<(), ContractError>(e) && final(self)@ == old(self)@,
                None => r == Ok::<(), ContractError>(()) && final(self)@ == authorize_issuer_post(
                    old(self)@,
                    owner,
                    issuer,
                ),
            },
    {
        let i = match self.find_vault(&owner) {
            None => {
                return Err(ContractError::VaultNotInitialized);
            },
            Some(i) => i,
        };
        proof {
            lemma_vault_index(old(self)@.vaults, owner, i as int);
        }
        if self.vaults[i].revoked {
            return Err(ContractError::VaultRevoked);
        }
        let mut v = self.vaults.remove(i);
        let res = v.authorize_issuer(issuer);
        self.vaults.insert(i, v);
        match res {
            Err(e) => {
                proof {
                    assert(self@.vaults =~= old(self)@.vaults);
                    assert(self@ =~= old(self)@);
                }
                Err(e)
            },
            Ok(()) => {
                proof {
                    assert(self@.vaults =~= old(self)@.vaults.update(
                        i as int,
                        VaultView {
                            issuers: seq![issuer] + vault_at(old(self)@.vaults, owner).issuers,
                            ..vault_at(old(self)@.vaults, owner)
                        },
                    ));
                    assert(self@ =~= authorize_issuer_post(old(self)@, owner, issuer));
                }
                Ok(())
            },
        }
    }

    /// Remove one issuer from a vault's allow-list (vault admin only,
    /// active vault only); refused if not authorized.
    pub fn revoke_issuer(
        &mut self,
        owner: Principal,
        issuer: Principal,
        auths: &Vec<Principal>,
    ) -> (r: Result<(), ContractError>)
        requires
            old(self).wf(),
            has_vault(old(self)@.vaults, owner) ==> auths@.contains(
                vault_at(old(self)@.vaults, owner).admin,
            ),
        ensures
            final(self).wf(),
            match revoke_issuer_err(old(self)@, owner, issuer) {
                Some(e) => r == Err::<(), ContractError>(e) && final(self)@ == old(self)@,
                None => r == Ok::<(), ContractError>(()) && final(self)@ == revoke_issuer_post(
                    old(self)@,
                    owner,
                    issuer,
                ),
            },
    {
        let i = match self.find_vault(&owner) {
            None => {
                return Err(ContractError::VaultNotInitialized);
            },
            Some(i) => i,
        };
        proof {
            lemma_vault_index(old(self)@.vaults, owner, i as int);
        }
        if self.vaults[i].revoked {
            return Err(ContractError::VaultRevoked);
        }
        let mut v = self.vaults.remove(i);
        let res = v.revoke_issuer(issuer);
        self.vaults.insert(i, v);
        match res {
            Err(e) => {
                proof {
                    assert(self@.vaults =~= old(self)@.vaults);
                    assert(self@ =~= old(self)@);
                }
                Err(e)
            },
            Ok(()) => {
                proof {
                    let pre_vault = vault_at(old(self)@.vaults, owner);
                    assert(self@.vaults =~= old(self)@.vaults.update(
                        i as int,
                        VaultView {
                            issuers: pre_vault.issuers.remove(
                                crate::transitions::issuer_index(pre_vault.issuers, issuer),
                            ),
                            ..pre_vault
                        },
                    ));
                    assert(self@ =~= revoke_issuer_post(old(self)@, owner, issuer));
                }
                Ok(())
            },
        }
    }

    /// Revoke a vault (vault admin only). One-way: nothing un-revokes a
    /// vault, and every later write to it fails `VaultRevoked`.
    pub fn revoke_vault(&mut self, owner: Principal, auths: &Vec<Principal>) -> (r: Result<
        (),
        ContractError,
    >)
        requires
            old(self).wf(),
            has_vault(old(self)@.vaults, owner) ==> auths@.contains(
                vault_at(old(self)@.vaults, owner).admin,
            ),
        ensures
            final(self).wf(),
            match vault_gate_err(old(self)@, owner) {
                Some(e) => r == Err::<(), ContractError>(e) && final(self)@ == old(self)@,
                None => r == Ok::<(), ContractError>(()) && final(self)@ == revoke_vault_post(
                    old(self)@,
                    owner,
                ),
            },
    {
        let i = match self.find_vault(&owner) {
            None => {
                return Err(ContractError::VaultNotInitialized);
            },
            Some(i) => i,
        };
        proof {
            lemma_vault_index(old(self)@.vaults, owner, i as int);
        }
        if self.vaults[i].revoked {
            return Err(ContractError::VaultRevoked);
        }
        let mut v = self.vaults.remove(i);
        v.revoked = true;
        self.vaults.insert(i, v);
        proof {
            assert(self@.vaults =~= old(self)@.vaults.update(
                i as int,
                VaultView { revoked: true, ..vault_at(old(self)@.vaults, owner) },
            ));
            assert(self@ =~= revoke_vault_post(old(self)@, owner));
        }
        Ok(())
    }

    /// The vault's credential ids, most recently stored first. A missing
    /// vault reads as an empty index.
    pub fn list_vc_ids(&self, owner: Principal) -> (r: Vec<String>)
        requires
            self.wf(),
        ensures
            strings_view(r@) == list_vc_ids_spec(self@, owner),
    {
        match self.find_vault(&owner) {
            Some(i) => {
                proof {
                    lemma_vault_index(self@.vaults, owner, i as int);
                }
                let ids = self.vaults[i].list_vc_ids();
                proof {
                    assert(strings_view(ids@) =~= crate::state::cred_ids(
                        vault_at(self@.vaults, owner).credentials,
                    ));
                }
                ids
            },
            None => {
                let ids: Vec<String> = Vec::new();
                proof {
                    assert(strings_view(ids@) =~= Seq::<Seq<char>>::empty());
                }
                ids
            },
        }
    }

    /// Read one credential out of a vault, if it is there.
    pub fn get_vc(&self, owner: Principal, vc_id: &String) -> (r: Option<VerifiableCredential>)
        requires
            self.wf(),
        ensures
            match r {
                Some(c) => get_vc_spec(self@, owner, vc_id@) == Some(c@),
                None => get_vc_spec(self@, owner, vc_id@) is None,
            },
    {
        match self.find_vault(&owner) {
            None => None,
            Some(i) => {
                proof {
                    lemma_vault_index(self@.vaults, owner, i as int);
                    assert(vault_wf(self@.vaults[i as int]));
                }
                self.vaults[i].get_vc(vc_id)
            },
        }
    }

    /// Issue a credential into `owner`'s vault (authenticated issuer only,
    /// issuer authorized on that vault, vault active, and `vault_contract`
    /// must name this engine itself). On success the credential is stored,
    /// its global status becomes `Valid`, its owner pointer is recorded, and
    /// the returned pair carries the credential id back together with the
    /// fee transfer the host must perform first — `None` exactly when fees
    /// are disabled or `fee_override` is zero.
    pub fn issue(
        &mut self,
        owner: Principal,
        vc_id: String,
        vc_data: String,
        vault_contract: Principal,
        issuer: Principal,
        issuer_did: String,
        fee_override: i128,
        auths: &Vec<Principal>,
    ) -> (r: Result<(String, Option<FeeTransfer>), ContractError>)
        requires
            old(self).wf(),
            auths@.contains(issuer),
            old(self)@.fee_enabled ==> old(self)@.fee_token_contract is Some
                && old(self)@.fee_dest is Some,
        ensures
            final(self).wf(),
            match issue_err(old(self)@, owner, issuer, vault_contract) {
                Some(e) => r == Err::<(String, Option<FeeTransfer>), ContractError>(e)
                    && final(self)@ == old(self)@,
                None => r matches Ok(ret) && ret.0@ == vc_id@ && ret.1 == issue_transfer(
                    old(self)@,
                    issuer,
                    fee_override,
                ) && final(self)@ == issue_post(
                    old(self)@,
                    owner,
                    CredentialView {
                        id: vc_id@,
                        data: vc_data@,
                        issuance_contract: old(self)@.own_address,
                        issuer_did: issuer_did@,
                    },
                ),
            },
    {
        if !(vault_contract == self.own_address) {
            return Err(ContractError::InvalidVaultContract);
        }
        let i = match self.find_vault(&owner) {
            None => {
                return Err(ContractError::VaultNotInitialized);
            },
            Some(i) => i,
        };
        proof {
            lemma_vault_index(old(self)@.vaults, owner, i as int);
        }
        if self.vaults[i].revoked {
            return Err(ContractError::VaultRevoked);
        }
        if !is_authorized(&self.vaults[i].issuers, &issuer) {
            return Err(ContractError::IssuerNotAuthorized);
        }
        let transfer = if self.fee_enabled && fee_override > 0 {
            Some(
                FeeTransfer {
                    token: self.fee_token_contract.unwrap(),
                    from: issuer,
                    dest: self.fee_dest.unwrap(),
                    amount: fee_override,
                },
            )
        } else {
            None
        };
        let ghost cv = CredentialView {
            id: vc_id@,
            data: vc_data@,
            issuance_contract: self@.own_address,
            issuer_did: issuer_did@,
        };
        let ret_id = vc_id.clone();
        let own_addr = self.own_address;
        let mut v = self.vaults.remove(i);
        v.store_vc(vc_id.clone(), vc_data, own_addr, issuer_did);
        self.vaults.insert(i, v);
        let ghost mid = store_vc_post(old(self)@, owner, cv);
        proof {
            assert(self@.vaults =~= old(self)@.vaults.update(
                i as int,
                VaultView {
                    credentials: crate::state::store_cred(
                        vault_at(old(self)@.vaults, owner).credentials,
                        cv,
                    ),
                    ..vault_at(old(self)@.vaults, owner)
                },
            ));
            assert(self@ =~= mid);
            assert forall|p: int, q: int|
                0 <= p < q < self.statuses@.len() implies self.statuses@[p].0@
                != self.statuses@[q].0@ by {
                assert(statuses_view(self.statuses@)[p].0 == self.statuses@[p].0@);
                assert(statuses_view(self.statuses@)[q].0 == self.statuses@[q].0@);
            }
        }
        set_status(&mut self.statuses, &vc_id, VCStatus::Valid);
        proof {
            assert(self@ =~= (StateView {
                statuses: crate::state::status_upsert(mid.statuses, vc_id@, StatusView::Valid),
                ..mid
            }));
            assert forall|p: int, q: int|
                0 <= p < q < self.vc_owners@.len() implies self.vc_owners@[p].0@
                != self.vc_owners@[q].0@ by {
                assert(owners_view(self.vc_owners@)[p].0 == self.vc_owners@[p].0@);
                assert(owners_view(self.vc_owners@)[q].0 == self.vc_owners@[q].0@);
            }
        }
        set_owner(&mut self.vc_owners, &vc_id, owner);
        proof {
            assert(self@ =~= issue_post(old(self)@, owner, cv));
            lemma_store_cred(vault_at(old(self)@.vaults, owner).credentials, cv);
            lemma_status_upsert(old(self)@.statuses, vc_id@, StatusView::Valid);
            lemma_owner_upsert(old(self)@.vc_owners, vc_id@, owner);
            assert(state_wf(self@));
        }
        Ok((ret_id, transfer))
    }

    /// Report the lifecycle status of `(owner, vc_id)`. A credential absent
    /// from the vault is `invalid`; one this engine issued is answered from
    /// the local registry; one issued by a foreign registry yields the
    /// instruction to ask that registry and relay its answer unchanged.
    pub fn verify_vc(&self, owner: Principal, vc_id: &String) -> (r: VerifyOutcome)
        requires
            self.wf(),
        ensures
            r@ == verify_vc_spec(self@, owner, vc_id@),
    {
        let vc = self.get_vc(owner, vc_id);
        match vc {
            None => VerifyOutcome::Report(status_report(&VCStatus::Invalid)),
            Some(c) => {
                if c.issuance_contract == self.own_address {
                    match find_status(&self.statuses, vc_id) {
                        Some(si) => {
                            proof {
                                lemma_status_index(self@.statuses, vc_id@, si as int);
                            }
                            VerifyOutcome::Report(status_report(&self.statuses[si].1))
                        },
                        None => VerifyOutcome::Report(status_report(&VCStatus::Invalid)),
                    }
                } else {
                    VerifyOutcome::Delegate(c.issuance_contract)
                }
            },
        }
    }

    /// Move a credential from one vault to another (source owner
    /// authenticated, both vaults active, issuer authorized on the source).
    /// Afterwards exactly one vault holds the credential, its fields
    /// unchanged.
    pub fn push(
        &mut self,
        from_owner: Principal,
        to_owner: Principal,
        vc_id: &String,
        issuer: Principal,
        auths: &Vec<Principal>,
    ) -> (r: Result<(), ContractError>)
        requires
            old(self).wf(),
            vault_gate_err(old(self)@, from_owner) is None && vault_gate_err(
                old(self)@,
                to_owner,
            ) is None ==> auths@.contains(from_owner),
        ensures
            final(self).wf(),
            match push_err(old(self)@, from_owner, to_owner, issuer, vc_id@) {
                Some(e) => r == Err::<(), ContractError>(e) && final(self)@ == old(self)@,
                None => r == Ok::<(), ContractError>(()) && final(self)@ == push_post(
                    old(self)@,
                    from_owner,
                    to_owner,
                    vc_id@,
                ),
            },
    {
        let fi = match self.find_vault(&from_owner) {
            None => {
                return Err(ContractError::VaultNotInitialized);
            },
            Some(i) => i,
        };
        proof {
            lemma_vault_index(old(self)@.vaults, from_owner, fi as int);
        }
        if self.vaults[fi].revoked {
            return Err(ContractError::VaultRevoked);
        }
        let ti = match self.find_vault(&to_owner) {
            None => {
                return Err(ContractError::VaultNotInitialized);
            },
            Some(i) => i,
        };
        proof {
            lemma_vault_index(old(self)@.vaults, to_owner, ti as int);
        }
        if self.vaults[ti].revoked {
            return Err(ContractError::VaultRevoked);
        }
        if !is_authorized(&self.vaults[fi].issuers, &issuer) {
            return Err(ContractError::IssuerNotAuthorized);
        }
        let mut fv = self.vaults.remove(fi);
        let removed = fv.remove_vc(vc_id);
        self.vaults.insert(fi, fv);
        let c = match removed {
            None => {
                proof {
                    assert(self@.vaults =~= old(self)@.vaults);
                    assert(self@ =~= old(self)@);
                }
                return Err(ContractError::VCNotFound);
            },
            Some(c) => c,
        };
        let ghost from_pre = vault_at(old(self)@.vaults, from_owner);
        let ghost mid = StateView {
            vaults: crate::state::vault_update(
                old(self)@.vaults,
                from_owner,
                VaultView {
                    credentials: crate::state::remove_cred(from_pre.credentials, vc_id@),
                    ..from_pre
                },
            ),
            ..old(self)@
        };
        proof {
            assert(self@.vaults =~= mid.vaults);
            assert(self@ =~= mid);
            assert forall|p: int, q: int|
                0 <= p < q < mid.vaults.len() implies mid.vaults[p].owner
                != mid.vaults[q].owner by {
                assert(mid.vaults[p].owner == old(self)@.vaults[p].owner);
                assert(mid.vaults[q].owner == old(self)@.vaults[q].owner);
            }
            lemma_vault_index(mid.vaults, to_owner, ti as int);
        }
        let mut tv = self.vaults.remove(ti);
        let VerifiableCredential { id, data, issuance_contract, issuer_did } = c;
        tv.store_vc(id, data, issuance_contract, issuer_did);
        self.vaults.insert(ti, tv);
        proof {
            let cv = crate::state::cred_at(from_pre.credentials, vc_id@);
            assert(self@.vaults =~= mid.vaults.update(
                ti as int,
                VaultView {
                    credentials: crate::state::store_cred(
                        vault_at(mid.vaults, to_owner).credentials,
                        cv,
                    ),
                    ..vault_at(mid.vaults, to_owner)
                },
            ));
            assert(self@ =~= push_post(old(self)@, from_owner, to_owner, vc_id@));
            assert forall|p: int, q: int|
                0 <= p < q < self@.vaults.len() implies self@.vaults[p].owner
                != self@.vaults[q].owner by {
                assert(self@.vaults[p].owner == old(self)@.vaults[p].owner);
                assert(self@.vaults[q].owner == old(self)@.vaults[q].owner);
            }
            assert(state_wf(self@));
        }
        Ok(())
    }

    /// Revoke a credential by id. The owning vault's principal (or, for an
    /// orphaned id without owner pointer, the contract admin) must have
    /// authorized the call; the status must currently be `Valid` — the only
    /// legal transition is `Valid` to `Revoked(date)`, and it is permanent.
    pub fn revoke(&mut self, vc_id: &String, date: String, auths: &Vec<Principal>) -> (r: Result<
        (),
        ContractError,
    >)
        requires
            old(self).wf(),
            !(status_of(old(self)@.statuses, vc_id@) is Invalid) ==> match owner_of(
                old(self)@.vc_owners,
                vc_id@,
            ) {
                Some(o) => auths@.contains(o),
                None => old(self)@.admin matches Some(a) ==> auths@.contains(a),
            },
        ensures
            final(self).wf(),
            match revoke_err(old(self)@, vc_id@) {
                Some(e) => r == Err::<(), ContractError>(e) && final(self)@ == old(self)@,
                None => r == Ok::<(), ContractError>(()) && final(self)@ == revoke_post(
                    old(self)@,
                    vc_id@,
                    date@,
                ),
            },
    {
        match find_status(&self.statuses, vc_id) {
            None => {
                return Err(ContractError::VCNotFound);
            },
            Some(si) => {
                proof {
                    lemma_status_index(self@.statuses, vc_id@, si as int);
                    assert(!(status_of(self@.statuses, vc_id@) is Invalid));
                }
            },
        }
        match find_owner_entry(&self.vc_owners, vc_id) {
            Some(oi) => {
                proof {
                    lemma_owner_entry_index(self@.vc_owners, vc_id@, oi as int);
                }
            },
            None => {
                if self.admin.is_none() {
                    return Err(ContractError::NotInitialized);
                }
            },
        }
        proof {
            assert forall|p: int, q: int|
                0 <= p < q < self.statuses@.len() implies self.statuses@[p].0@
                != self.statuses@[q].0@ by {
                assert(statuses_view(self.statuses@)[p].0 == self.statuses@[p].0@);
                assert(statuses_view(self.statuses@)[q].0 == self.statuses@[q].0@);
            }
            assert forall|i: int|
                0 <= i < self.statuses@.len() implies (#[trigger] self.statuses@[i]).1@
                != StatusView::Invalid by {
                assert(statuses_view(self.statuses@)[i].1 == self.statuses@[i].1@);
            }
        }
        let res = revoke_vc(&mut self.statuses, vc_id, date);
        match res {
            Err(e) => {
                proof {
                    assert(self@ =~= old(self)@);
                }
                Err(e)
            },
            Ok(()) => {
                proof {
                    assert(self@ =~= revoke_post(old(self)@, vc_id@, date@));
                    lemma_status_upsert(old(self)@.statuses, vc_id@, StatusView::Revoked(date@));
                    assert(state_wf(self@));
                }
                Ok(())
            },
        }
    }

    /// One-shot migration of the legacy schemas. `Some(owner)` replays that
    /// owner's legacy credential list into the current vault schema (vault
    /// admin only); `None` replays the legacy global id list and revocation
    /// table into the status registry (contract admin only). Either path
    /// deletes the legacy record it consumed — its presence is the only
    /// migration guard, so a second run fails `VCSAlreadyMigrated`.
    #[verifier::loop_isolation(false)]
    pub fn migrate(&mut self, owner: Option<Principal>, auths: &Vec<Principal>) -> (r: Result<
        (),
        ContractError,
    >)
        requires
            old(self).wf(),
            match owner {
                Some(o) => has_vault(old(self)@.vaults, o) ==> auths@.contains(
                    vault_at(old(self)@.vaults, o).admin,
                ),
                None => old(self)@.admin matches Some(a) ==> auths@.contains(a),
            },
            owner is None && old(self)@.legacy_issuance_vcs is Some ==> old(
                self,
            )@.legacy_issuance_revocations is Some,
        ensures
            final(self).wf(),
            match owner {
                Some(o) => match migrate_vault_err(old(self)@, o) {
                    Some(e) => r == Err::<(), ContractError>(e) && final(self)@ == old(self)@,
                    None => r == Ok::<(), ContractError>(()) && final(self)@ == migrate_vault_post(
                        old(self)@,
                        o,
                    ),
                },
                None => match migrate_global_err(old(self)@) {
                    Some(e) => r == Err::<(), ContractError>(e) && final(self)@ == old(self)@,
                    None => r == Ok::<(), ContractError>(()) && final(self)@ == migrate_global_post(
                        old(self)@,
                    ),
                },
            },
    {
        match owner {
            Some(o) => {
                let vi = match self.find_vault(&o) {
                    None => {
                        return Err(ContractError::VaultNotInitialized);
                    },
                    Some(i) => i,
                };
                proof {
                    lemma_vault_index(old(self)@.vaults, o, vi as int);
                }
                let li = match find_legacy_vault(&self.legacy_vault_vcs, &o) {
                    None => {
                        return Err(ContractError::VCSAlreadyMigrated);
                    },
                    Some(i) => i,
                };
                proof {
                    lemma_legacy_vault_index(old(self)@.legacy_vault_vcs, o, li as int);
                }
                let entry = self.legacy_vault_vcs.remove(li);
                let batch = entry.1;
                let ghost batchv = creds_view(batch@);
                proof {
                    assert(legacy_vault_of(old(self)@.legacy_vault_vcs, o) == Some(batchv));
                    assert(self.legacy_vault_vcs@.map_values(
                        |p: (Principal, Vec<VerifiableCredential>)| (p.0, creds_view(p.1@)),
                    ) =~= old(self)@.legacy_vault_vcs.remove(li as int));
                }
                let mut v = self.vaults.remove(vi);
                let ghost prev = v@;
                let mut k: usize = 0;
                while k < batch.len()
                    invariant
                        k <= batch.len(),
                        vault_wf(v@),
                        v@ == (VaultView {
                            credentials: store_creds(prev.credentials, batchv.take(k as int)),
                            ..prev
                        }),
                    decreases batch.len() - k,
                {
                    proof {
                        assert(batchv.take(k as int + 1) =~= batchv.take(k as int).push(
                            batchv[k as int],
                        ));
                        crate::state::lemma_store_creds_snoc(
                            prev.credentials,
                            batchv.take(k as int),
                            batchv[k as int],
                        );
                    }
                    let c = batch[k].clone();
                    let VerifiableCredential { id, data, issuance_contract, issuer_did } = c;
                    v.store_vc(id, data, issuance_contract, issuer_did);
                    proof {
                        assert(v@ =~= (VaultView {
                            credentials: store_creds(
                                prev.credentials,
                                batchv.take(k as int + 1),
                            ),
                            ..prev
                        }));
                    }
                    k = k + 1;
                }
                proof {
                    assert(batchv.take(batch@.len() as int) =~= batchv);
                }
                self.vaults.insert(vi, v);
                proof {
                    assert(self@.vaults =~= old(self)@.vaults.update(
                        vi as int,
                        VaultView {
                            credentials: store_creds(prev.credentials, batchv),
                            ..vault_at(old(self)@.vaults, o)
                        },
                    ));
                    assert(self@ =~= migrate_vault_post(old(self)@, o));
                    assert forall|p: int, q: int|
                        0 <= p < q < self@.vaults.len() implies self@.vaults[p].owner
                        != self@.vaults[q].owner by {
                        assert(self@.vaults[p].owner == old(self)@.vaults[p].owner);
                        assert(self@.vaults[q].owner == old(self)@.vaults[q].owner);
                    }
                    assert forall|p: int, q: int|
                        0 <= p < q < self@.legacy_vault_vcs.len() implies self@.legacy_vault_vcs[p].0
                        != self@.legacy_vault_vcs[q].0 by {
                        let pre = old(self)@.legacy_vault_vcs;
                        assert(self@.legacy_vault_vcs[p] == if p < li as int {
                            pre[p]
                        } else {
                            pre[p + 1]
                        });
                        assert(self@.legacy_vault_vcs[q] == if q < li as int {
                            pre[q]
                        } else {
                            pre[q + 1]
                        });
                    }
                    assert(state_wf(self@));
                }
                Ok(())
            },
            None => {
                if self.admin.is_none() {
                    return Err(ContractError::NotInitialized);
                }
                if self.legacy_issuance_vcs.is_none() {
                    return Err(ContractError::VCSAlreadyMigrated);
                }
                let ids = self.legacy_issuance_vcs.take().unwrap();
                let revs = self.legacy_issuance_revocations.take().unwrap();
                let ghost idsv = strings_view(ids@);
                let ghost revsv = revs_view(revs@);
                proof {
                    assert(old(self)@.legacy_issuance_vcs == Some(idsv));
                    assert(old(self)@.legacy_issuance_revocations == Some(revsv));
                    assert(self@ =~= (StateView {
                        legacy_issuance_vcs: None,
                        legacy_issuance_revocations: None,
                        ..old(self)@
                    }));
                }
                let mut k: usize = 0;
                while k < ids.len()
                    invariant
                        k <= ids.len(),
                        forall|p: int, q: int|
                            0 <= p < q < self@.statuses.len() ==> self@.statuses[p].0
                                != self@.statuses[q].0,
                        forall|i: int|
                            0 <= i < self@.statuses.len() ==> (#[trigger] self@.statuses[i]).1
                                != StatusView::Invalid,
                        self@ == (StateView {
                            statuses: migrate_statuses(
                                old(self)@.statuses,
                                idsv.take(k as int),
                                revsv,
                            ),
                            legacy_issuance_vcs: None,
                            legacy_issuance_revocations: None,
                            ..old(self)@
                        }),
                    decreases ids.len() - k,
                {
                    let ghost sts_pre = self@.statuses;
                    let vc_id = &ids[k];
                    let st = match find_revocation(&revs, vc_id) {
                        Some(ri) => {
                            proof {
                                lemma_revocation_index(revsv, vc_id@, ri as int);
                            }
                            VCStatus::Revoked(revs[ri].date.clone())
                        },
                        None => VCStatus::Valid,
                    };
                    proof {
                        assert(st@ == match revocation_date_of(revsv, idsv[k as int]) {
                            Some(d) => StatusView::Revoked(d),
                            None => StatusView::Valid,
                        });
                        assert forall|p: int, q: int|
                            0 <= p < q < self.statuses@.len() implies self.statuses@[p].0@
                            != self.statuses@[q].0@ by {
                            assert(statuses_view(self.statuses@)[p].0 == self.statuses@[p].0@);
                            assert(statuses_view(self.statuses@)[q].0 == self.statuses@[q].0@);
                        }
                        lemma_status_upsert(sts_pre, vc_id@, st@);
                        assert(idsv.take(k as int + 1) =~= idsv.take(k as int).push(
                            idsv[k as int],
                        ));
                        crate::transitions::lemma_migrate_statuses_snoc(
                            old(self)@.statuses,
                            idsv.take(k as int),
                            revsv,
                            idsv[k as int],
                        );
                    }
                    set_status(&mut self.statuses, vc_id, st);
                    proof {
                        assert(self@ =~= (StateView {
                            statuses: migrate_statuses(
                                old(self)@.statuses,
                                idsv.take(k as int + 1),
                                revsv,
                            ),
                            legacy_issuance_vcs: None,
                            legacy_issuance_revocations: None,
                            ..old(self)@
                        }));
                    }
                    k = k + 1;
                }
                proof {
                    assert(idsv.take(ids@.len() as int) =~= idsv);
                    assert(self@ =~= migrate_global_post(old(self)@));
                    assert(state_wf(self@));
                }
                Ok(())
            },
        }
    }
}

/// Build the report a status maps to.
fn status_report(status: &VCStatus) -> (r: StatusReport)
    ensures
        r@ == report_of(status@),
{
    match status {
        VCStatus::Valid => StatusReport { status: String::from_str("valid"), since: None },
        VCStatus::Invalid => StatusReport { status: String::from_str("invalid"), since: None },
        VCStatus::Revoked(date) => StatusReport {
            status: String::from_str("revoked"),
            since: Some(date.clone()),
        },
    }
}

} // verus!

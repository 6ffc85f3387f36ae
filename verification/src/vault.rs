use vstd::prelude::*;

use crate::error::ContractError;
use crate::model::CredentialView;
use crate::model::VerifiableCredential;
use crate::principal::Principal;
use crate::state::cred_at;
use crate::state::cred_index;
use crate::state::has_cred;
use crate::state::lemma_cred_index;
use crate::state::nodup_principals;
use crate::state::remove_cred;
use crate::state::store_cred;
use crate::state::vault_wf;
use crate::state::VaultView;
use crate::transitions::issuer_index;

verus! {

/// One per-owner vault: lifecycle flag, admin, issuer allow-list, and the
/// credential set in index order (most recent first).
#[derive(Debug)]
pub struct Vault {
    pub owner: Principal,
    pub admin: Principal,
    pub did_uri: String,
    pub revoked: bool,
    pub issuers: Vec<Principal>,
    pub credentials: Vec<VerifiableCredential>,
}

impl View for Vault {
    type V = VaultView;

    open spec fn view(&self) -> VaultView {
        VaultView {
            owner: self.owner,
            admin: self.admin,
            did_uri: self.did_uri@,
            revoked: self.revoked,
            issuers: self.issuers@,
            credentials: self.credentials@.map_values(|c: VerifiableCredential| c@),
        }
    }
}

/// Whether `issuer` is in the allow-list.
pub fn is_authorized(issuers: &Vec<Principal>, issuer: &Principal) -> (r: bool)
    ensures
        r == issuers@.contains(*issuer),
{
    let mut i: usize = 0;
    while i < issuers.len()
        invariant
            i <= issuers.len(),
            forall|k: int| 0 <= k < i ==> issuers@[k] != *issuer,
        decreases issuers.len() - i,
    {
        if issuers[i] == *issuer {
            return true;
        }
        i = i + 1;
    }
    false
}

/// The index of the first credential carrying `vc_id`, if any.
fn find_cred(credentials: &Vec<VerifiableCredential>, vc_id: &String) -> (r: Option<usize>)
    ensures
        match r {
            Some(i) => i < credentials.len() && credentials@[i as int]@.id == vc_id@ && forall|
                k: int,
            | 0 <= k < i ==> credentials@[k]@.id != vc_id@,
            None => forall|k: int| 0 <= k < credentials.len() ==> credentials@[k]@.id != vc_id@,
        },
{
    let mut i: usize = 0;
    while i < credentials.len()
        invariant
            i <= credentials.len(),
            forall|k: int| 0 <= k < i ==> credentials@[k]@.id != vc_id@,
        decreases credentials.len() - i,
    {
        if credentials[i].id == *vc_id {
            return Some(i);
        }
        i = i + 1;
    }
    None
}

impl Vault {
    /// A fresh vault: its owner administers it, nothing is revoked, no
    /// issuer is authorized, no credential is stored.
    pub fn new(owner: Principal, did_uri: String) -> (r: Vault)
        ensures
            r@ == (VaultView {
                owner,
                admin: owner,
                did_uri: did_uri@,
                revoked: false,
                issuers: Seq::empty(),
                credentials: Seq::empty(),
            }),
            vault_wf(r@),
    {
        let r = Vault {
            owner,
            admin: owner,
            did_uri,
            revoked: false,
            issuers: Vec::new(),
            credentials: Vec::new(),
        };
        proof {
            assert(r@.credentials =~= Seq::<CredentialView>::empty());
            assert(r@ =~= (VaultView {
                owner,
                admin: owner,
                did_uri: r.did_uri@,
                revoked: false,
                issuers: Seq::empty(),
                credentials: Seq::empty(),
            }));
        }
        r
    }

    /// Add one issuer to the allow-list; refused if it is already there.
    pub fn authorize_issuer(&mut self, issuer: Principal) -> (r: Result<(), ContractError>)
        requires
            vault_wf(old(self)@),
        ensures
            vault_wf(final(self)@),
            match r {
                Ok(()) => !old(self)@.issuers.contains(issuer) && final(self)@ == (VaultView {
                    issuers: seq![issuer] + old(self)@.issuers,
                    ..old(self)@
                }),
                Err(e) => e == ContractError::IssuerAlreadyAuthorized && old(self)@.issuers.contains(
                    issuer,
                ) && *final(self) == *old(self),
            },
    {
        if is_authorized(&self.issuers, &issuer) {
            return Err(ContractError::IssuerAlreadyAuthorized);
        }
        self.issuers.insert(0, issuer);
        proof {
            assert(self@.issuers =~= seq![issuer] + old(self)@.issuers);
            assert(self@ =~= (VaultView { issuers: seq![issuer] + old(self)@.issuers, ..old(
                self,
            )@ }));
            assert forall|p: int, q: int| 0 <= p < q < self@.issuers.len() implies self@.issuers[p]
                != self@.issuers[q] by {
                if p == 0 {
                    assert(self@.issuers[q] == old(self)@.issuers[q - 1]);
                    if self@.issuers[p] == self@.issuers[q] {
                        assert(old(self)@.issuers[q - 1] == issuer);
                        assert(old(self)@.issuers.contains(issuer));
                    }
                }
            }
        }
        Ok(())
    }

    /// Replace the whole allow-list.
    pub fn authorize_issuers(&mut self, issuers: Vec<Principal>)
        requires
            vault_wf(old(self)@),
            nodup_principals(issuers@),
        ensures
            vault_wf(final(self)@),
            final(self)@ == (VaultView { issuers: issuers@, ..old(self)@ }),
    {
        self.issuers = issuers;
        proof {
            assert(self@ =~= (VaultView { issuers: self.issuers@, ..old(self)@ }));
        }
    }

    /// Remove one issuer from the allow-list; refused if it is not there.
    #[verifier::loop_isolation(false)]
    pub fn revoke_issuer(&mut self, issuer: Principal) -> (r: Result<(), ContractError>)
        requires
            vault_wf(old(self)@),
        ensures
            vault_wf(final(self)@),
            match r {
                Ok(()) => old(self)@.issuers.contains(issuer) && final(self)@ == (VaultView {
                    issuers: old(self)@.issuers.remove(issuer_index(old(self)@.issuers, issuer)),
                    ..old(self)@
                }),
                Err(e) => e == ContractError::IssuerNotAuthorized && !old(
                    self,
                )@.issuers.contains(issuer) && *final(self) == *old(self),
            },
    {
        let ghost pre = self@.issuers;
        let mut i: usize = 0;
        while i < self.issuers.len()
            invariant
                i <= self.issuers.len(),
                *self == *old(self),
                forall|k: int| 0 <= k < i ==> pre[k] != issuer,
            decreases self.issuers.len() - i,
        {
            if self.issuers[i] == issuer {
                self.issuers.remove(i);
                proof {
                    assert(pre.contains(issuer)) by { assert(pre[i as int] == issuer) }
                    let j = issuer_index(pre, issuer);
                    assert(0 <= j < pre.len() && pre[j] == issuer);
                    if j < i as int {
                        assert(pre[j] != pre[i as int]);
                    } else if j > i as int {
                        assert(pre[i as int] != pre[j]);
                    }
                    assert(j == i as int);
                    assert(self@ =~= (VaultView { issuers: pre.remove(j), ..old(self)@ }));
                    assert forall|p: int, q: int|
                        0 <= p < q < self@.issuers.len() implies self@.issuers[p]
                        != self@.issuers[q] by {
                        assert(self@.issuers[p] == if p < j {
                            pre[p]
                        } else {
                            pre[p + 1]
                        });
                        assert(self@.issuers[q] == if q < j {
                            pre[q]
                        } else {
                            pre[q + 1]
                        });
                    }
                }
                return Ok(());
            }
            i = i + 1;
        }
        proof {
            assert(!pre.contains(issuer));
        }
        Err(ContractError::IssuerNotAuthorized)
    }

    /// Upsert a credential: an existing id keeps its place in the index and
    /// gets the new payload, a new id is prepended to the index.
    pub fn store_vc(
        &mut self,
        id: String,
        data: String,
        issuance_contract: Principal,
        issuer_did: String,
    )
        requires
            vault_wf(old(self)@),
        ensures
            vault_wf(final(self)@),
            final(self)@ == (VaultView {
                credentials: store_cred(
                    old(self)@.credentials,
                    CredentialView {
                        id: id@,
                        data: data@,
                        issuance_contract,
                        issuer_did: issuer_did@,
                    },
                ),
                ..old(self)@
            }),
    {
        let ghost cv = CredentialView { id: id@, data: data@, issuance_contract, issuer_did: issuer_did@ };
        let ghost pre = self@.credentials;
        let cred = VerifiableCredential { id, data, issuance_contract, issuer_did };
        match find_cred(&self.credentials, &cred.id) {
            Some(i) => {
                self.credentials.remove(i);
                self.credentials.insert(i, cred);
                proof {
                    lemma_cred_index(pre, cv.id, i as int);
                    assert(self@.credentials =~= pre.update(i as int, cv));
                    assert(store_cred(pre, cv) == pre.update(cred_index(pre, cv.id), cv));
                    assert(self@ =~= (VaultView { credentials: store_cred(pre, cv), ..old(
                        self,
                    )@ }));
                    assert forall|p: int, q: int|
                        0 <= p < q < self@.credentials.len() implies self@.credentials[p].id
                        != self@.credentials[q].id by {}
                }
            },
            None => {
                self.credentials.insert(0, cred);
                proof {
                    assert(!has_cred(pre, cv.id));
                    assert(self@.credentials =~= seq![cv] + pre);
                    assert(self@ =~= (VaultView { credentials: store_cred(pre, cv), ..old(
                        self,
                    )@ }));
                    assert forall|p: int, q: int|
                        0 <= p < q < self@.credentials.len() implies self@.credentials[p].id
                        != self@.credentials[q].id by {
                        if p == 0 {
                            assert(self@.credentials[q] == pre[q - 1]);
                        } else {
                            assert(self@.credentials[p] == pre[p - 1]);
                            assert(self@.credentials[q] == pre[q - 1]);
                        }
                    }
                }
            },
        }
    }

    /// Take the credential carrying `vc_id` out of the vault, payload and
    /// index entry at once.
    pub fn remove_vc(&mut self, vc_id: &String) -> (r: Option<VerifiableCredential>)
        requires
            vault_wf(old(self)@),
        ensures
            vault_wf(final(self)@),
            match r {
                Some(c) => has_cred(old(self)@.credentials, vc_id@) && c@ == cred_at(
                    old(self)@.credentials,
                    vc_id@,
                ) && final(self)@ == (VaultView {
                    credentials: remove_cred(old(self)@.credentials, vc_id@),
                    ..old(self)@
                }),
                None => !has_cred(old(self)@.credentials, vc_id@) && *final(self) == *old(self),
            },
    {
        let ghost pre = self@.credentials;
        match find_cred(&self.credentials, vc_id) {
            Some(i) => {
                let c = self.credentials.remove(i);
                proof {
                    lemma_cred_index(pre, vc_id@, i as int);
                    assert(self@.credentials =~= pre.remove(i as int));
                    assert(self@ =~= (VaultView { credentials: remove_cred(pre, vc_id@), ..old(
                        self,
                    )@ }));
                    assert forall|p: int, q: int|
                        0 <= p < q < self@.credentials.len() implies self@.credentials[p].id
                        != self@.credentials[q].id by {
                        assert(self@.credentials[p] == if p < i as int {
                            pre[p]
                        } else {
                            pre[p + 1]
                        });
                        assert(self@.credentials[q] == if q < i as int {
                            pre[q]
                        } else {
                            pre[q + 1]
                        });
                    }
                }
                Some(c)
            },
            None => None,
        }
    }

    /// Read the credential carrying `vc_id`, if present.
    pub fn get_vc(&self, vc_id: &String) -> (r: Option<VerifiableCredential>)
        requires
            vault_wf(self@),
        ensures
            match r {
                Some(c) => has_cred(self@.credentials, vc_id@) && c@ == cred_at(
                    self@.credentials,
                    vc_id@,
                ),
                None => !has_cred(self@.credentials, vc_id@),
            },
    {
        match find_cred(&self.credentials, vc_id) {
            Some(i) => {
                let c = self.credentials[i].clone();
                proof {
                    lemma_cred_index(self@.credentials, vc_id@, i as int);
                }
                Some(c)
            },
            None => None,
        }
    }

    /// The ordered id index, derived from the credential sequence.
    pub fn list_vc_ids(&self) -> (r: Vec<String>)
        ensures
            r@.len() == self@.credentials.len(),
            forall|i: int| 0 <= i < r@.len() ==> r@[i]@ == self@.credentials[i].id,
    {
        let mut ids: Vec<String> = Vec::new();
        let mut i: usize = 0;
        while i < self.credentials.len()
            invariant
                i <= self.credentials.len(),
                ids@.len() == i,
                forall|k: int| 0 <= k < i ==> ids@[k]@ == self@.credentials[k].id,
            decreases self.credentials.len() - i,
        {
            ids.push(self.credentials[i].id.clone());
            i = i + 1;
        }
        ids
    }
}

} // verus!

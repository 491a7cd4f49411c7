//! The registry's state: the counter, the credentials by id, and the index
//! from recipients to the ids they hold.

use vstd::prelude::*;
use crate::credential::{Credential, CredentialKey, CredentialView};
use crate::identity::Identity;
use crate::model::{
    lemma_ids_issued_to_push,
    lemma_ids_issued_to_same_holders,
    lemma_ids_issued_to_stranger,
    RegistryView,
};

verus! {

/// One line of the recipient index: a recipient and the ids issued to it,
/// oldest first.
struct IndexEntry {
    recipient: Identity,
    ids: Vec<u64>,
}

/// The registry's whole state: the admin, the counter from which ids are
/// taken, the credentials by id, and the index from recipients to ids.
///
/// The credential with id `n` is stored at position `n - 1`. The index is
/// redundant: `wf` says that it lists, for each recipient, exactly the
/// credentials whose recipient it is.
pub struct RegistryState {
    admin: Identity,
    credential_count: u64,
    credentials: Vec<Credential>,
    recipient_index: Vec<IndexEntry>,
}

impl View for RegistryState {
    type V = RegistryView;

    closed spec fn view(&self) -> RegistryView {
        RegistryView {
            admin: self.admin@,
            credentials: self.credentials@.map_values(|c: Credential| c@),
        }
    }
}

impl RegistryState {
    /// Whether the index has a line for `recipient`.
    spec fn indexed(&self, recipient: Seq<char>) -> bool {
        exists|i: int|
            0 <= i < self.recipient_index.len() && (#[trigger] self.recipient_index[i]).recipient@
                == recipient
    }

    /// The counter and the index agree with the stored credentials.
    pub closed spec fn tables_agree(&self) -> bool {
        &&& self.credential_count == self.credentials.len()
        &&& forall|i: int, j: int|
            #![trigger self.recipient_index[i], self.recipient_index[j]]
            0 <= i < j < self.recipient_index.len() ==> self.recipient_index[i].recipient@
                != self.recipient_index[j].recipient@
        &&& forall|i: int|
            0 <= i < self.recipient_index.len() ==> (#[trigger] self.recipient_index[i]).ids@
                == self@.issued_to(self.recipient_index[i].recipient@)
        &&& forall|k: int|
            0 <= k < self.credentials.len() ==> self.indexed(
                (#[trigger] self.credentials[k]).recipient@,
            )
    }

    /// The invariant of the registry: ids are dense from 1, and the counter
    /// and the recipient index agree with the credentials.
    pub open spec fn wf(&self) -> bool {
        self@.well_formed() && self.tables_agree()
    }

    /// A registry with the given admin, in which nothing has been issued.
    pub fn new(admin: Identity) -> (state: RegistryState)
        ensures
            state.wf(),
            state@ == RegistryView::empty(admin@),
    {
        let state = RegistryState {
            admin,
            credential_count: 0,
            credentials: Vec::new(),
            recipient_index: Vec::new(),
        };
        assert(state@.credentials =~= Seq::empty());
        state
    }

    pub fn admin(&self) -> (admin: &Identity)
        ensures
            admin@ == self@.admin,
    {
        &self.admin
    }

    /// The counter: how many credentials have been issued.
    pub fn credential_count(&self) -> (count: u64)
        requires
            self.wf(),
        ensures
            count == self@.count(),
    {
        self.credential_count
    }

    /// Whether a credential is stored under `id`.
    pub fn contains(&self, id: u64) -> (present: bool)
        requires
            self.wf(),
        ensures
            present == self@.contains(id),
    {
        1 <= id && id <= self.credential_count
    }

    /// The credential stored under `id`, if there is one.
    pub fn credential(&self, id: u64) -> (found: Option<&Credential>)
        requires
            self.wf(),
        ensures
            match found {
                Some(credential) => self@.contains(id) && credential@ == self@.credential(id),
                None => !self@.contains(id),
            },
    {
        if 1 <= id && id <= self.credential_count {
            let at: usize = (id - 1) as usize;
            Some(&self.credentials[at])
        } else {
            None
        }
    }

    /// The position of the index line of `recipient`, if it has one.
    fn find_entry(&self, recipient: &Identity) -> (found: Option<usize>)
        ensures
            match found {
                Some(i) => i < self.recipient_index.len() && self.recipient_index[i as int].recipient@
                    == recipient@,
                None => !self.indexed(recipient@),
            },
    {
        let mut i: usize = 0;
        while i < self.recipient_index.len()
            invariant
                i <= self.recipient_index.len(),
                forall|j: int|
                    0 <= j < i ==> (#[trigger] self.recipient_index[j]).recipient@ != recipient@,
            decreases self.recipient_index.len() - i,
        {
            if self.recipient_index[i].recipient.same_as(recipient) {
                return Some(i);
            }
            i += 1;
        }
        None
    }

    /// The ids of the credentials issued to `recipient`, oldest first; empty
    /// for a recipient that holds none.
    pub fn recipient_ids(&self, recipient: &Identity) -> (ids: Vec<u64>)
        requires
            self.wf(),
        ensures
            ids@ == self@.issued_to(recipient@),
    {
        match self.find_entry(recipient) {
            Some(i) => self.recipient_index[i].ids.clone(),
            None => {
                proof {
                    self.lemma_not_indexed(recipient@);
                }
                Vec::new()
            },
        }
    }

    /// A recipient without a line in the index holds no credential.
    proof fn lemma_not_indexed(&self, recipient: Seq<char>)
        requires
            self.wf(),
            !self.indexed(recipient),
        ensures
            self@.issued_to(recipient) == Seq::<u64>::empty(),
    {
        assert forall|k: int| 0 <= k < self@.credentials.len() implies (
        #[trigger] self@.credentials[k]).recipient != recipient by {
            assert(self.indexed(self.credentials[k].recipient@));
        }
        lemma_ids_issued_to_stranger(self@.credentials, recipient);
    }

    /// Whether the persisted tables hold an entry under `key`: a credential
    /// under its id, a list for a recipient that holds a credential, and the
    /// counter once the first credential has been issued.
    pub fn has_key(&self, key: &CredentialKey) -> (present: bool)
        requires
            self.wf(),
        ensures
            present == match *key {
                CredentialKey::Credential(id) => self@.contains(id),
                CredentialKey::UserCredentials(recipient) => self@.issued_to(recipient@).len() > 0,
                CredentialKey::CredentialCount => self@.count() > 0,
            },
    {
        match key {
            CredentialKey::Credential(id) => self.contains(*id),
            CredentialKey::UserCredentials(recipient) => {
                match self.find_entry(recipient) {
                    Some(i) => self.recipient_index[i].ids.len() > 0,
                    None => {
                        proof {
                            self.lemma_not_indexed(recipient@);
                        }
                        false
                    },
                }
            },
            CredentialKey::CredentialCount => self.credential_count > 0,
        }
    }

    /// Stores `credential` under the next id, whatever id it came with, adds
    /// that id to the list of its recipient, and advances the counter.
    /// Returns the id. The store does not ask who calls: `issue_credential`
    /// does, before it stores anything.
    pub fn record(&mut self, credential: Credential) -> (id: u64)
        requires
            old(self).wf(),
            old(self)@.count() < u64::MAX,
        ensures
            final(self).wf(),
            id == old(self)@.next_id(),
            final(self)@ == old(self)@.record(credential@),
    {
        let id: u64 = self.credential_count + 1;
        let found = self.find_entry(&credential.recipient);
        let holder = credential.recipient.clone();
        let mut stored = credential;
        stored.id = id;
        let ghost added = stored@;
        let ghost before = self@.credentials;
        self.credentials.push(stored);
        self.credential_count = id;
        assert(self@.credentials =~= before.push(added));
        match found {
            Some(i) => {
                self.recipient_index[i].ids.push(id);
            },
            None => {
                proof {
                    old(self).lemma_not_indexed(holder@);
                }
                let mut ids: Vec<u64> = Vec::new();
                ids.push(id);
                self.recipient_index.push(IndexEntry { recipient: holder, ids });
            },
        }
        proof {
            assert forall|i: int| 0 <= i < self.recipient_index.len() implies (
            #[trigger] self.recipient_index[i]).ids@ == self@.issued_to(
                self.recipient_index[i].recipient@,
            ) by {
                lemma_ids_issued_to_push(before, added, self.recipient_index[i].recipient@);
            }
            assert forall|k: int| 0 <= k < self.credentials.len() implies self.indexed(
                (#[trigger] self.credentials[k]).recipient@,
            ) by {
                if k < before.len() {
                    assert(old(self).indexed(old(self).credentials[k].recipient@));
                    let i = choose|i: int|
                        0 <= i < old(self).recipient_index.len() && (
                        #[trigger] old(self).recipient_index[i]).recipient@ == old(
                            self,
                        ).credentials[k].recipient@;
                    assert(self.recipient_index[i].recipient@ == self.credentials[k].recipient@);
                } else {
                    match found {
                        Some(i) => {
                            assert(self.recipient_index[i as int].recipient@ == holder@);
                        },
                        None => {
                            assert(self.recipient_index[self.recipient_index.len() - 1].recipient@
                                == holder@);
                        },
                    }
                }
            }
        }
        id
    }

    /// Marks the credential under `id` as revoked. Nothing else changes, and
    /// a credential that was revoked before stays so. The store does not ask
    /// who calls: `revoke_credential` does.
    pub fn mark_revoked(&mut self, id: u64)
        requires
            old(self).wf(),
            old(self)@.contains(id),
        ensures
            final(self).wf(),
            final(self)@ == old(self)@.revoke(id),
    {
        let at: usize = (id - 1) as usize;
        self.credentials[at].is_revoked = true;
        proof {
            assert(self@.credentials =~= old(self)@.revoke(id).credentials);
            assert forall|r: Seq<char>|
                #[trigger] self@.issued_to(r) == old(self)@.issued_to(r) by {
                lemma_ids_issued_to_same_holders(old(self)@.credentials, self@.credentials, r);
            }
            assert forall|k: int| 0 <= k < self.credentials.len() implies self.indexed(
                (#[trigger] self.credentials[k]).recipient@,
            ) by {
                assert(old(self).indexed(old(self).credentials[k].recipient@));
                let i = choose|i: int|
                    0 <= i < old(self).recipient_index.len() && (
                    #[trigger] old(self).recipient_index[i]).recipient@ == old(
                        self,
                    ).credentials[k].recipient@;
                assert(self.recipient_index[i].recipient@ == self.credentials[k].recipient@);
            }
        }
    }
}

} // verus!

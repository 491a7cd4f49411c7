//! The registry as a mathematical value, over which all contracts are stated.

use vstd::prelude::*;
use crate::credential::CredentialView;
use crate::error::RegistryError;

verus! {

/// The ids of the credentials in `credentials` whose recipient is
/// `recipient`, in the order in which they were issued.
pub open spec fn ids_issued_to(credentials: Seq<CredentialView>, recipient: Seq<char>) -> Seq<u64>
    decreases credentials.len(),
{
    if credentials.len() == 0 {
        Seq::empty()
    } else {
        let earlier = ids_issued_to(credentials.drop_last(), recipient);
        if credentials.last().recipient == recipient {
            earlier.push(credentials.last().id)
        } else {
            earlier
        }
    }
}

/// What the authorization gate answers for a caller that claims `identity`,
/// with or without a proof that the host accepted, when `admin` is the
/// registry's admin.
pub open spec fn gate_outcome(authenticated: bool, identity: Seq<char>, admin: Seq<char>) -> Result<
    (),
    RegistryError,
> {
    if !authenticated {
        Err(RegistryError::Unauthenticated)
    } else if identity != admin {
        Err(RegistryError::Unauthorized)
    } else {
        Ok(())
    }
}

/// The registry as a mathematical value: the admin, and every credential
/// ever issued, in order of issuance. The credential with id `n` stands at
/// position `n - 1`.
pub ghost struct RegistryView {
    pub admin: Seq<char>,
    pub credentials: Seq<CredentialView>,
}

impl RegistryView {
    /// A registry in which nothing has been issued yet.
    pub open spec fn empty(admin: Seq<char>) -> RegistryView {
        RegistryView { admin, credentials: Seq::empty() }
    }

    /// Ids are dense: they start at 1 and follow the order of issuance.
    pub open spec fn well_formed(self) -> bool {
        &&& self.credentials.len() <= u64::MAX
        &&& forall|i: int|
            0 <= i < self.credentials.len() ==> (#[trigger] self.credentials[i]).id == i + 1
    }

    pub open spec fn count(self) -> nat {
        self.credentials.len()
    }

    /// Whether a credential exists under `id`.
    pub open spec fn contains(self, id: u64) -> bool {
        1 <= id <= self.credentials.len()
    }

    pub open spec fn credential(self, id: u64) -> CredentialView
        recommends
            self.contains(id),
    {
        self.credentials[id - 1]
    }

    /// Whether `id` names a credential that has not been revoked.
    pub open spec fn is_valid(self, id: u64) -> bool {
        self.contains(id) && !self.credential(id).is_revoked
    }

    /// The recipient index: the ids that `recipient` holds, oldest first.
    pub open spec fn issued_to(self, recipient: Seq<char>) -> Seq<u64> {
        ids_issued_to(self.credentials, recipient)
    }

    /// The id that the next credential will get.
    pub open spec fn next_id(self) -> u64 {
        (self.credentials.len() + 1) as u64
    }

    /// The registry after the admin has issued one more credential at ledger
    /// time `now`.
    pub open spec fn issue(
        self,
        recipient: Seq<char>,
        title: Seq<char>,
        description: Seq<char>,
        course_id: Seq<char>,
        ipfs_hash: Seq<char>,
        now: u64,
    ) -> RegistryView {
        self.record(
            CredentialView {
                id: self.next_id(),
                issuer: self.admin,
                recipient,
                title,
                description,
                course_id,
                completion_date: now,
                ipfs_hash,
                is_revoked: false,
            },
        )
    }

    /// The registry with `credential` stored behind all earlier ones, under
    /// the next id.
    pub open spec fn record(self, credential: CredentialView) -> RegistryView {
        RegistryView {
            credentials: self.credentials.push(
                CredentialView { id: self.next_id(), ..credential },
            ),
            ..self
        }
    }

    /// The registry after the credential under `id` has been revoked.
    pub open spec fn revoke(self, id: u64) -> RegistryView
        recommends
            self.contains(id),
    {
        RegistryView {
            credentials: self.credentials.update(id - 1, self.credential(id).revoked()),
            ..self
        }
    }
}

/// Storing one more credential adds its id to its recipient's list and to no
/// other.
pub proof fn lemma_ids_issued_to_push(
    credentials: Seq<CredentialView>,
    credential: CredentialView,
    recipient: Seq<char>,
)
    ensures
        ids_issued_to(credentials.push(credential), recipient) == if credential.recipient
            == recipient {
            ids_issued_to(credentials, recipient).push(credential.id)
        } else {
            ids_issued_to(credentials, recipient)
        },
{
    assert(credentials.push(credential).drop_last() =~= credentials);
}

/// The lists depend on nothing but the ids and recipients of the
/// credentials.
pub proof fn lemma_ids_issued_to_same_holders(
    before: Seq<CredentialView>,
    after: Seq<CredentialView>,
    recipient: Seq<char>,
)
    requires
        before.len() == after.len(),
        forall|i: int|
            0 <= i < before.len() ==> (#[trigger] after[i]).id == before[i].id && after[i].recipient
                == before[i].recipient,
    ensures
        ids_issued_to(after, recipient) == ids_issued_to(before, recipient),
    decreases before.len(),
{
    if before.len() > 0 {
        lemma_ids_issued_to_same_holders(before.drop_last(), after.drop_last(), recipient);
    }
}

/// A recipient to whom nothing was issued has an empty list.
pub proof fn lemma_ids_issued_to_stranger(credentials: Seq<CredentialView>, recipient: Seq<char>)
    requires
        forall|i: int|
            0 <= i < credentials.len() ==> (#[trigger] credentials[i]).recipient != recipient,
    ensures
        ids_issued_to(credentials, recipient) == Seq::<u64>::empty(),
    decreases credentials.len(),
{
    if credentials.len() > 0 {
        lemma_ids_issued_to_stranger(credentials.drop_last(), recipient);
    }
}

} // verus!

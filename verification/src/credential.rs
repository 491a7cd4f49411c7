//! Credentials, and the keys under which the registry's tables are persisted.

use vstd::prelude::*;
use crate::identity::Identity;

verus! {

/// A completion credential. Everything but `is_revoked` is fixed at issuance.
#[derive(Debug, PartialEq, Eq)]
pub struct Credential {
    pub id: u64,
    pub issuer: Identity,
    pub recipient: Identity,
    pub title: String,
    pub description: String,
    pub course_id: String,
    /// Ledger time at which the credential was issued.
    pub completion_date: u64,
    /// Opaque pointer to a document held elsewhere; never interpreted here.
    pub ipfs_hash: String,
    pub is_revoked: bool,
}

/// What a credential says, as mathematical values.
pub ghost struct CredentialView {
    pub id: u64,
    pub issuer: Seq<char>,
    pub recipient: Seq<char>,
    pub title: Seq<char>,
    pub description: Seq<char>,
    pub course_id: Seq<char>,
    pub completion_date: u64,
    pub ipfs_hash: Seq<char>,
    pub is_revoked: bool,
}

impl CredentialView {
    /// The same credential after revocation.
    pub open spec fn revoked(self) -> CredentialView {
        CredentialView { is_revoked: true, ..self }
    }
}

impl View for Credential {
    type V = CredentialView;

    open spec fn view(&self) -> CredentialView {
        CredentialView {
            id: self.id,
            issuer: self.issuer@,
            recipient: self.recipient@,
            title: self.title@,
            description: self.description@,
            course_id: self.course_id@,
            completion_date: self.completion_date,
            ipfs_hash: self.ipfs_hash@,
            is_revoked: self.is_revoked,
        }
    }
}

impl Clone for Credential {
    fn clone(&self) -> (copy: Self)
        ensures
            copy@ == self@,
    {
        Credential {
            id: self.id,
            issuer: self.issuer.clone(),
            recipient: self.recipient.clone(),
            title: self.title.clone(),
            description: self.description.clone(),
            course_id: self.course_id.clone(),
            completion_date: self.completion_date,
            ipfs_hash: self.ipfs_hash.clone(),
            is_revoked: self.is_revoked,
        }
    }
}

/// The keys of the three tables that make up the persisted registry.
#[derive(Debug, PartialEq, Eq)]
pub enum CredentialKey {
    /// The credential record stored under an id.
    Credential(u64),
    /// The list of credential ids held by a recipient.
    UserCredentials(Identity),
    /// The counter from which the next id is taken.
    CredentialCount,
}

} // verus!

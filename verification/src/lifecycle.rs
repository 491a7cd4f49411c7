//! The operations of the registry: issue, verify, revoke, and the queries.

use vstd::prelude::*;
use crate::credential::Credential;
use crate::error::RegistryError;
use crate::gate::require_admin;
use crate::identity::{Caller, Identity};
use crate::model::gate_outcome;
use crate::registry::RegistryState;

verus! {

/// Issues a credential to `recipient` in the name of `issuer`, dated `now`,
/// the ledger time that the host supplies.
///
/// Only the authenticated admin may issue. On success the credential is
/// stored under the next id, not revoked, that id is appended to the
/// recipient's list, the counter advances, and the id is returned. On
/// refusal the registry is unchanged.
pub fn issue_credential(
    state: &mut RegistryState,
    issuer: &Caller,
    recipient: Identity,
    title: String,
    description: String,
    course_id: String,
    ipfs_hash: String,
    now: u64,
) -> (issued: Result<u64, RegistryError>)
    requires
        old(state).wf(),
        old(state)@.count() < u64::MAX,
    ensures
        final(state).wf(),
        match gate_outcome(issuer.authenticated, issuer.identity@, old(state)@.admin) {
            Ok(_) => issued == Ok::<u64, RegistryError>(old(state)@.next_id()) && final(state)@
                == old(state)@.issue(
                recipient@,
                title@,
                description@,
                course_id@,
                ipfs_hash@,
                now,
            ),
            Err(refusal) => issued == Err::<u64, RegistryError>(refusal) && final(state)@ == old(
                state,
            )@,
        },
{
    match require_admin(issuer, state) {
        Err(refusal) => Err(refusal),
        Ok(_) => {
            let credential = Credential {
                id: 0,
                issuer: issuer.identity.clone(),
                recipient,
                title,
                description,
                course_id,
                completion_date: now,
                ipfs_hash,
                is_revoked: false,
            };
            let id = state.record(credential);
            Ok(id)
        },
    }
}

/// Whether the credential under `credential_id` is valid, that is, exists
/// and has not been revoked. Fails with `NotFound` where no credential has
/// that id.
pub fn verify_credential(state: &RegistryState, credential_id: u64) -> (verdict: Result<
    bool,
    RegistryError,
>)
    requires
        state.wf(),
    ensures
        verdict == if state@.contains(credential_id) {
            Ok::<bool, RegistryError>(state@.is_valid(credential_id))
        } else {
            Err::<bool, RegistryError>(RegistryError::NotFound)
        },
{
    match state.credential(credential_id) {
        Some(credential) => Ok(!credential.is_revoked),
        None => Err(RegistryError::NotFound),
    }
}

/// Revokes the credential under `credential_id` in the name of `revoker`.
///
/// Authorization is decided first, so a caller that is not the
/// authenticated admin learns nothing about which ids exist. Revoking a revoked credential
/// succeeds and changes nothing. On any failure the registry is unchanged.
pub fn revoke_credential(state: &mut RegistryState, credential_id: u64, revoker: &Caller) -> (done:
    Result<(), RegistryError>)
    requires
        old(state).wf(),
    ensures
        final(state).wf(),
        match gate_outcome(revoker.authenticated, revoker.identity@, old(state)@.admin) {
            Err(refusal) => done == Err::<(), RegistryError>(refusal) && final(state)@ == old(
                state,
            )@,
            Ok(_) => if old(state)@.contains(credential_id) {
                done == Ok::<(), RegistryError>(()) && final(state)@ == old(state)@.revoke(
                    credential_id,
                )
            } else {
                done == Err::<(), RegistryError>(RegistryError::NotFound) && final(state)@ == old(
                    state,
                )@
            },
        },
{
    match require_admin(revoker, state) {
        Err(refusal) => Err(refusal),
        Ok(_) => {
            if state.contains(credential_id) {
                state.mark_revoked(credential_id);
                Ok(())
            } else {
                Err(RegistryError::NotFound)
            }
        },
    }
}

/// The ids of the credentials issued to `user`, in the order of issuance;
/// empty for a recipient that never received one.
pub fn get_user_credentials(state: &RegistryState, user: &Identity) -> (ids: Vec<u64>)
    requires
        state.wf(),
    ensures
        ids@ == state@.issued_to(user@),
{
    state.recipient_ids(user)
}

/// A copy of the credential under `credential_id`; `NotFound` where there is
/// none.
pub fn get_credential(state: &RegistryState, credential_id: u64) -> (found: Result<
    Credential,
    RegistryError,
>)
    requires
        state.wf(),
    ensures
        match found {
            Ok(credential) => state@.contains(credential_id) && credential@ == state@.credential(
                credential_id,
            ),
            Err(refusal) => !state@.contains(credential_id) && refusal == RegistryError::NotFound,
        },
{
    match state.credential(credential_id) {
        Some(credential) => Ok(credential.clone()),
        None => Err(RegistryError::NotFound),
    }
}

/// How many credentials have been issued; 0 for a registry in which none
/// has.
pub fn get_credential_count(state: &RegistryState) -> (count: u64)
    requires
        state.wf(),
    ensures
        count == state@.count(),
{
    state.credential_count()
}

} // verus!

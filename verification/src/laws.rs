//! What holds of every registry, whatever operations have been applied to it.

use vstd::prelude::*;
use crate::credential::CredentialView;
use crate::model::{ids_issued_to, RegistryView};

verus! {

/// One change of the registry that took effect. A refused call, or one
/// that names a missing id, changes nothing and is no step.
pub ghost enum Step {
    /// The admin issues a credential.
    Issue {
        recipient: Seq<char>,
        title: Seq<char>,
        description: Seq<char>,
        course_id: Seq<char>,
        ipfs_hash: Seq<char>,
        now: u64,
    },
    /// The admin revokes the credential under `id`.
    Revoke { id: u64 },
}

/// The registry after one step. Revoking an id that does not exist changes
/// nothing.
pub open spec fn after_step(registry: RegistryView, step: Step) -> RegistryView {
    match step {
        Step::Issue { recipient, title, description, course_id, ipfs_hash, now } => registry.issue(
            recipient,
            title,
            description,
            course_id,
            ipfs_hash,
            now,
        ),
        Step::Revoke { id } => if registry.contains(id) {
            registry.revoke(id)
        } else {
            registry
        },
    }
}

/// The registry after all of `steps`, applied in order.
pub open spec fn after_steps(registry: RegistryView, steps: Seq<Step>) -> RegistryView
    decreases steps.len(),
{
    if steps.len() == 0 {
        registry
    } else {
        after_step(after_steps(registry, steps.drop_last()), steps.last())
    }
}

/// How many of `steps` issue a credential.
pub open spec fn issues_in(steps: Seq<Step>) -> nat
    decreases steps.len(),
{
    if steps.len() == 0 {
        0
    } else {
        issues_in(steps.drop_last()) + if steps.last() is Issue {
            1nat
        } else {
            0nat
        }
    }
}

/// The ids that the issuing steps among `steps` return, in order.
pub open spec fn ids_returned(registry: RegistryView, steps: Seq<Step>) -> Seq<u64>
    decreases steps.len(),
{
    if steps.len() == 0 {
        Seq::empty()
    } else {
        let earlier = ids_returned(registry, steps.drop_last());
        if steps.last() is Issue {
            earlier.push(after_steps(registry, steps.drop_last()).next_id())
        } else {
            earlier
        }
    }
}

/// Whether one of `steps` revokes the credential under `id`.
pub open spec fn revokes(steps: Seq<Step>, id: u64) -> bool {
    exists|k: int| 0 <= k < steps.len() && #[trigger] steps[k] == (Step::Revoke { id })
}

/// Ids are handed out in order, without gaps or repeats, and the counter
/// counts the credentials ever issued: whatever steps are taken, the
/// registry stays well formed, its count grows by the number of issuances,
/// and the k-th issuance returns the k-th id after those already taken, so
/// that an empty registry hands out 1, 2, 3 and so on. Revocations neither
/// consume an id nor change the count.
pub proof fn law_ids_count_up(registry: RegistryView, steps: Seq<Step>)
    requires
        registry.well_formed(),
        registry.count() + issues_in(steps) <= u64::MAX,
    ensures
        after_steps(registry, steps).well_formed(),
        after_steps(registry, steps).admin == registry.admin,
        after_steps(registry, steps).count() == registry.count() + issues_in(steps),
        ids_returned(registry, steps).len() == issues_in(steps),
        forall|k: int|
            0 <= k < issues_in(steps) ==> #[trigger] ids_returned(registry, steps)[k]
                == registry.count() + k + 1,
    decreases steps.len(),
{
    if steps.len() > 0 {
        law_ids_count_up(registry, steps.drop_last());
    }
}

/// A credential is valid from its issuance until it is revoked, and never
/// again after that: once a credential exists, it is valid after any
/// further steps exactly if it was valid before them and none of them
/// revoked it. Apart from the revocation flag it never changes.
pub proof fn law_valid_until_revoked(registry: RegistryView, steps: Seq<Step>, id: u64)
    requires
        registry.contains(id),
    ensures
        after_steps(registry, steps).contains(id),
        after_steps(registry, steps).is_valid(id) <==> registry.is_valid(id) && !revokes(steps, id),
        after_steps(registry, steps).credential(id) == registry.credential(id) || after_steps(
            registry,
            steps,
        ).credential(id) == registry.credential(id).revoked(),
    decreases steps.len(),
{
    if steps.len() > 0 {
        let earlier = steps.drop_last();
        law_valid_until_revoked(registry, earlier, id);
        if revokes(earlier, id) {
            let k = choose|k: int| 0 <= k < earlier.len() && #[trigger] earlier[k] == (Step::Revoke {
                id,
            });
            assert(steps[k] == earlier[k]);
        }
        if steps.last() == (Step::Revoke { id }) {
            assert(steps[steps.len() - 1] == (Step::Revoke { id }));
        }
        if revokes(steps, id) {
            let k = choose|k: int| 0 <= k < steps.len() && #[trigger] steps[k] == (Step::Revoke {
                id,
            });
            if k < earlier.len() {
                assert(earlier[k] == steps[k]);
            }
        }
    }
}

/// A credential that was just issued is valid, and holds what it was issued
/// with.
pub proof fn law_issued_is_valid(
    registry: RegistryView,
    recipient: Seq<char>,
    title: Seq<char>,
    description: Seq<char>,
    course_id: Seq<char>,
    ipfs_hash: Seq<char>,
    now: u64,
)
    requires
        registry.well_formed(),
        registry.count() < u64::MAX,
    ensures
        ({
            let next = registry.issue(recipient, title, description, course_id, ipfs_hash, now);
            &&& next.is_valid(registry.next_id())
            &&& next.credential(registry.next_id()) == (CredentialView {
                id: registry.next_id(),
                issuer: registry.admin,
                recipient,
                title,
                description,
                course_id,
                completion_date: now,
                ipfs_hash,
                is_revoked: false,
            })
            &&& next.issued_to(recipient) == registry.issued_to(recipient).push(registry.next_id())
        }),
{
    let next = registry.issue(recipient, title, description, course_id, ipfs_hash, now);
    assert(next.credentials.drop_last() =~= registry.credentials);
}

/// Revoking is idempotent: a second revocation of the same credential
/// changes nothing.
pub proof fn law_revoke_idempotent(registry: RegistryView, id: u64)
    requires
        registry.contains(id),
    ensures
        !registry.revoke(id).is_valid(id),
        registry.revoke(id).revoke(id) == registry.revoke(id),
{
    assert(registry.revoke(id).revoke(id).credentials =~= registry.revoke(id).credentials);
}

/// The list of a recipient holds exactly the ids of the credentials issued
/// to it, each once and in the order of issuance, which is the order of the
/// ids. A recipient to whom nothing was issued has the empty list.
pub proof fn law_recipient_list_exact(registry: RegistryView, recipient: Seq<char>)
    requires
        registry.well_formed(),
    ensures
        forall|id: u64|
            registry.issued_to(recipient).contains(id) <==> registry.contains(id)
                && registry.credential(id).recipient == recipient,
        forall|i: int, j: int|
            0 <= i < j < registry.issued_to(recipient).len() ==> registry.issued_to(recipient)[i]
                < registry.issued_to(recipient)[j],
{
    lemma_ids_issued_to_exact(registry.credentials, recipient);
}

proof fn lemma_ids_issued_to_exact(credentials: Seq<CredentialView>, recipient: Seq<char>)
    requires
        credentials.len() <= u64::MAX,
        forall|i: int| 0 <= i < credentials.len() ==> (#[trigger] credentials[i]).id == i + 1,
    ensures
        forall|id: u64|
            ids_issued_to(credentials, recipient).contains(id) <==> 1 <= id <= credentials.len()
                && credentials[id - 1].recipient == recipient,
        forall|i: int, j: int|
            0 <= i < j < ids_issued_to(credentials, recipient).len() ==> ids_issued_to(
                credentials,
                recipient,
            )[i] < ids_issued_to(credentials, recipient)[j],
    decreases credentials.len(),
{
    let ids = ids_issued_to(credentials, recipient);
    if credentials.len() > 0 {
        let before = credentials.drop_last();
        let earlier = ids_issued_to(before, recipient);
        lemma_ids_issued_to_exact(before, recipient);
        let newest = credentials.last();
        assert(newest.id == credentials.len());
        assert forall|id: u64| ids.contains(id) <==> 1 <= id <= credentials.len() && credentials[id
            - 1].recipient == recipient by {
            if 1 <= id <= before.len() {
                assert(before[id - 1] == credentials[id - 1]);
            }
            if earlier.contains(id) {
                let k = choose|k: int| 0 <= k < earlier.len() && earlier[k] == id;
                assert(ids[k] == id);
            }
            if newest.recipient == recipient {
                assert(ids == earlier.push(newest.id));
                assert(ids[ids.len() - 1] == newest.id);
                if ids.contains(id) {
                    let k = choose|k: int| 0 <= k < ids.len() && ids[k] == id;
                    if k < earlier.len() {
                        assert(earlier[k] == id);
                    }
                }
            }
        }
        assert forall|i: int, j: int| 0 <= i < j < ids.len() implies ids[i] < ids[j] by {
            if newest.recipient == recipient && j == ids.len() - 1 {
                assert(earlier[i] == ids[i]);
                assert(earlier.contains(ids[i]));
            }
        }
    }
}

} // verus!

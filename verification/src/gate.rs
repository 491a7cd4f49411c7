//! The authorization gate: only the authenticated admin passes.

use vstd::prelude::*;
use crate::error::RegistryError;
use crate::identity::Caller;
use crate::model::gate_outcome;
use crate::registry::RegistryState;

verus! {

/// The authorization gate. Passes exactly when the host has verified that
/// the acting party is the identity it claims, and that identity is the
/// registry's admin. An unproved claim is refused before it is compared with
/// anything. The registry is only read.
pub fn require_admin(caller: &Caller, state: &RegistryState) -> (outcome: Result<
    (),
    RegistryError,
>)
    ensures
        outcome == gate_outcome(caller.authenticated, caller.identity@, state@.admin),
{
    if !caller.authenticated {
        Err(RegistryError::Unauthenticated)
    } else if !caller.identity.same_as(state.admin()) {
        Err(RegistryError::Unauthorized)
    } else {
        Ok(())
    }
}

} // verus!

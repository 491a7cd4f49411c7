//! The ways in which a registry operation can fail.

use vstd::prelude::*;

verus! {

/// Why a registry operation was refused.
#[derive(Clone, Copy, Debug, PartialEq, Eq, Structural)]
pub enum RegistryError {
    /// The caller gave no valid proof of the identity it claims.
    Unauthenticated,
    /// The caller is who it claims to be, but is not the admin.
    Unauthorized,
    /// No credential exists under the given id.
    NotFound,
}

} // verus!

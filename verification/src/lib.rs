//! A credential registry: an admin issues completion credentials to
//! recipients, anyone can check whether a credential is valid, and the admin
//! can revoke one for good.
//!
//! The registry is a single state value, `RegistryState`, handed to every
//! operation. The hosting environment supplies what the registry cannot
//! know by itself: whether a caller's proof of identity holds, and the
//! ledger time.

pub mod credential;
pub mod error;
pub mod gate;
pub mod identity;
pub mod laws;
pub mod lifecycle;
pub mod model;
pub mod registry;

pub use credential::{Credential, CredentialKey};
pub use error::RegistryError;
pub use gate::require_admin;
pub use identity::{Caller, Identity};
pub use lifecycle::{
    get_credential, get_credential_count, get_user_credentials, issue_credential,
    revoke_credential, verify_credential,
};
pub use registry::RegistryState;

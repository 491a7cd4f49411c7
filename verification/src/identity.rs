//! Identities, and callers that claim one.

use vstd::prelude::*;

verus! {

/// An account of the hosting environment, named by its textual address.
///
/// Two identities are the same account exactly when their addresses are the
/// same text; the view of an identity is that text.
#[derive(Debug, PartialEq, Eq)]
pub struct Identity {
    pub address: String,
}

impl View for Identity {
    type V = Seq<char>;

    open spec fn view(&self) -> Seq<char> {
        self.address@
    }
}

impl Identity {
    pub fn new(address: String) -> (identity: Identity)
        ensures
            identity@ == address@,
    {
        Identity { address }
    }

    /// Whether both values name the same account.
    pub fn same_as(&self, other: &Identity) -> (same: bool)
        ensures
            same == (self@ == other@),
    {
        self.address == other.address
    }
}

impl Clone for Identity {
    fn clone(&self) -> (copy: Self)
        ensures
            copy@ == self@,
    {
        Identity { address: self.address.clone() }
    }
}

/// An identity as it arrives with a call: the account that the caller claims
/// to be, and whether the hosting environment has verified the proof that
/// the acting party really is that account.
#[derive(Debug, PartialEq, Eq)]
pub struct Caller {
    pub identity: Identity,
    pub authenticated: bool,
}

impl Caller {
    /// A caller whose proof of identity the host has accepted.
    pub fn authenticated(identity: Identity) -> (caller: Caller)
        ensures
            caller.identity@ == identity@,
            caller.authenticated,
    {
        Caller { identity, authenticated: true }
    }

    /// A caller that claims an identity without a valid proof of it.
    pub fn unauthenticated(identity: Identity) -> (caller: Caller)
        ensures
            caller.identity@ == identity@,
            !caller.authenticated,
    {
        Caller { identity, authenticated: false }
    }
}

} // verus!

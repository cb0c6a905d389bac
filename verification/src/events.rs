use vstd::prelude::*;
use crate::profile::AccountId;

verus! {

/// Notification that the administrator role was transferred.  The registry
/// returns it from a successful `set_admin` call; delivering it to observers
/// is the host's fire-and-forget concern.
#[derive(Clone, Copy, Debug, PartialEq, Eq, Structural)]
pub struct AdminChangedEvent {
    pub old_admin: AccountId,
    pub new_admin: AccountId,
}

/// Notification that a code upgrade was requested.  The registry returns it
/// from a successful `upgrade` call together with the hash the host should
/// swap the executing code to; it does not validate the hash's content.
#[derive(Debug)]
pub struct UpgradedEvent {
    pub admin: AccountId,
    pub new_wasm_hash: Vec<u8>,
}

} // verus!

//! Caller-supplied authorization context.
//!
//! Requests carry an [`AuthInfo`] read from the session layer: the caller's
//! profile id and two role flags.  The core only ever consults it through
//! [`AuthInfo::permitted`].

use vstd::prelude::*;

verus! {

#[derive(Clone, Copy, PartialEq, Eq, Structural, Debug)]
pub enum Permission {
    Managing,
    Publishing,
    Nonexistent,
}

#[derive(Clone, Copy, PartialEq, Eq, Structural, Debug)]
pub struct AuthInfo {
    pub id: u64,
    pub managing: bool,
    pub publishing: bool,
}

impl AuthInfo {
    /// Which roles the context grants; a permission the role table does not
    /// know is never granted.
    pub open spec fn permits(self, role: Permission) -> bool {
        match role {
            Permission::Managing => self.managing,
            Permission::Publishing => self.publishing,
            Permission::Nonexistent => false,
        }
    }

    pub fn permitted(&self, role: Permission) -> (r: bool)
        ensures
            r == self.permits(role),
    {
        match role {
            Permission::Managing => self.managing,
            Permission::Publishing => self.publishing,
            Permission::Nonexistent => false,
        }
    }
}

} // verus!

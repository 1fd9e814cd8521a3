use vstd::prelude::*;

verus! {

/// Identity of an application: the badge the kernel stamps on each of its
/// IPC messages. Two identities are equal iff their badges are.
#[derive(Debug, Clone, Copy, PartialEq, Eq, Hash, Structural)]
pub struct AppID(pub u64);

impl AppID {
    /// Wrap a kernel-stamped badge.
    pub fn from_badge(badge: u64) -> (r: AppID)
        ensures
            r.0 == badge,
    {
        AppID(badge)
    }

    /// The badge behind this identity.
    pub fn raw(&self) -> (r: u64)
        ensures
            r == self.0,
    {
        self.0
    }
}

} // verus!

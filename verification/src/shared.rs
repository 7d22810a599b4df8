//! The registry snapshot shared between the refresh loop (sole writer)
//! and request handling (readers).  Readers copy the whole snapshot out
//! under the lock and release it before any network work; the writer
//! publishes a fully built replacement, so no reader ever observes a
//! half-updated record.

use vstd::prelude::*;
use vstd::rwlock::RwLock;

use crate::profile::ProfileSummary;

verus! {

/// Any snapshot may be stored; the lock only guarantees whole-snapshot
/// replacement and consistent reads.
pub open spec fn any_snapshot() -> spec_fn(Vec<ProfileSummary>) -> bool {
    |v: Vec<ProfileSummary>| true
}

/// State shared by reference between the background refresh loop and
/// concurrent request handling.
pub struct SharedState {
    pub profiles: RwLock<Vec<ProfileSummary>, spec_fn(Vec<ProfileSummary>) -> bool>,
}

impl SharedState {
    /// The lock is configured with the permissive snapshot predicate.
    pub open spec fn wf(&self) -> bool {
        self.profiles.pred() == any_snapshot()
    }

    /// An empty registry.
    pub fn new() -> (r: Self)
        ensures
            r.wf(),
    {
        SharedState { profiles: RwLock::new(Vec::new(), Ghost(any_snapshot())) }
    }

    /// Publishes a replacement snapshot atomically.
    pub fn update_profiles(&self, profiles: Vec<ProfileSummary>)
        requires
            self.wf(),
    {
        let (_, write_handle) = self.profiles.acquire_write();
        proof {
            assert(any_snapshot()(profiles));
        }
        write_handle.release_write(profiles);
    }

    /// Copies the current snapshot out, holding the read lock only for
    /// the copy.
    pub fn read_profiles(&self) -> (r: Vec<ProfileSummary>) {
        let read_handle = self.profiles.acquire_read();
        let snapshot = read_handle.borrow();
        let mut copy: Vec<ProfileSummary> = Vec::new();
        let mut i: usize = 0;
        while i < snapshot.len()
            invariant
                i <= snapshot@.len(),
                copy@ =~= snapshot@.subrange(0, i as int),
            decreases snapshot@.len() - i,
        {
            copy.push(snapshot[i].clone());
            i += 1;
        }
        read_handle.release_read();
        copy
    }
}

} // verus!

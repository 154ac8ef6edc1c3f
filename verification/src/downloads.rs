//! Bookkeeping of the downloads in progress: each gets a fresh id, and an
//! id stays active until the download is cancelled or finishes. The
//! cancellation signals themselves are held by the application, by id.

use vstd::prelude::*;

use std::collections::HashSet;

verus! {

/// Download ids: the next one to hand out, those still active, and (for the
/// proofs) every id handed out so far.
pub struct DownloadIds {
    next_id: u64,
    active: HashSet<u64>,
    issued: Ghost<Set<u64>>,
}

/// The id handed out after `id` (wrapping like an atomic counter).
pub open spec fn next_after(id: u64) -> u64 {
    if id == u64::MAX { 0 } else { (id + 1) as u64 }
}

impl DownloadIds {
    /// The next id to hand out.
    pub closed spec fn next(&self) -> u64 {
        self.next_id
    }

    /// The active ids.
    pub closed spec fn active_ids(&self) -> Set<u64> {
        self.active@
    }

    /// Every id handed out so far.
    pub closed spec fn issued_ids(&self) -> Set<u64> {
        self.issued@
    }

    /// The internal invariant: every active id was handed out.
    pub closed spec fn wf(&self) -> bool {
        self.active@.subset_of(self.issued@)
    }

    /// No download yet; ids start at 1.
    pub fn new() -> (r: DownloadIds)
        ensures
            r.wf(),
            r.next() == 1,
            r.active_ids() == Set::<u64>::empty(),
            r.issued_ids() == Set::<u64>::empty(),
    {
        DownloadIds { next_id: 1, active: HashSet::new(), issued: Ghost(Set::empty()) }
    }

    /// Hands out the next id and marks it active.
    pub fn register(&mut self) -> (id: u64)
        requires
            old(self).wf(),
        ensures
            final(self).wf(),
            id == old(self).next(),
            final(self).next() == next_after(old(self).next()),
            final(self).active_ids() == old(self).active_ids().insert(id),
            final(self).issued_ids() == old(self).issued_ids().insert(id),
    {
        broadcast use vstd::std_specs::hash::group_hash_axioms;
        let id = self.next_id;
        self.issued = Ghost(self.issued@.insert(id));
        self.next_id = if self.next_id == u64::MAX { 0 } else { self.next_id + 1 };
        self.active.insert(id);
        id
    }

    fn drop_id(&mut self, id: u64) -> (found: bool)
        requires
            old(self).wf(),
        ensures
            final(self).wf(),
            found == old(self).active_ids().contains(id),
            final(self).next() == old(self).next(),
            final(self).active_ids() == old(self).active_ids().remove(id),
            final(self).issued_ids() == old(self).issued_ids(),
    {
        broadcast use vstd::std_specs::hash::group_hash_axioms;
        self.active.remove(&id)
    }

    /// Cancels the download `id`: whether it was active; it no longer is.
    pub fn cancel(&mut self, id: u64) -> (was_active: bool)
        requires
            old(self).wf(),
        ensures
            final(self).wf(),
            was_active == old(self).active_ids().contains(id),
            !old(self).issued_ids().contains(id) ==> !was_active,
            final(self).next() == old(self).next(),
            final(self).active_ids() == old(self).active_ids().remove(id),
            final(self).issued_ids() == old(self).issued_ids(),
    {
        proof {
            if !self.issued_ids().contains(id) {
                law_only_issued_ids_active(&*self, id);
            }
        }
        self.drop_id(id)
    }

    /// Marks the download `id` finished (successfully or not).
    pub fn finish(&mut self, id: u64)
        requires
            old(self).wf(),
        ensures
            final(self).wf(),
            final(self).next() == old(self).next(),
            final(self).active_ids() == old(self).active_ids().remove(id),
            final(self).issued_ids() == old(self).issued_ids(),
    {
        let _ = self.drop_id(id);
    }
}

/// Ids handed out one after another are distinct until the counter wraps
/// around, which takes 2^64 downloads.
pub proof fn law_fresh_ids_distinct(first: u64)
    requires
        first < u64::MAX,
    ensures
        next_after(first) != first,
{
}

/// An id that was never handed out is not active, so cancelling it reports
/// `false`.
pub proof fn law_only_issued_ids_active(ids: &DownloadIds, id: u64)
    requires
        ids.wf(),
        !ids.issued_ids().contains(id),
    ensures
        !ids.active_ids().contains(id),
{
}

/// A cancelled or finished download is no longer active, and a second
/// cancel of it reports that it was not.
pub proof fn law_cancel_twice(active: Set<u64>, id: u64)
    ensures
        !active.remove(id).contains(id),
        active.remove(id).remove(id) == active.remove(id),
{
    assert(active.remove(id).remove(id) =~= active.remove(id));
}

} // verus!

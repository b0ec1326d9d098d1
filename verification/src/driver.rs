//! The event table of the single-ring driver: each submitted event id maps to the waker
//! of the task that waits for it, until the event is woken.
use std::collections::HashMap;
use vstd::prelude::*;

use crate::reactor::iouring::Poll;

verus! {

broadcast use vstd::std_specs::hash::group_hash_axioms;

/// The table of events that are still in flight.
pub struct Driver<W> {
    pub wakers: HashMap<u64, W>,
    /// Always an id that no event in flight holds.
    pub event_id: u64,
}

impl<W> Driver<W> {
    /// Every event in flight holds an id below the counter, so the counter is free.
    pub open spec fn wf(&self) -> bool {
        forall|k: u64| #[trigger] self.wakers@.contains_key(k) ==> k < self.event_id
    }

    /// No event is in flight, and ids are handed out from zero.
    pub fn new() -> (d: Self)
        ensures
            d.wf(),
            d.wakers@ == Map::<u64, W>::empty(),
            d.event_id == 0,
    {
        Driver { wakers: HashMap::new(), event_id: 0 }
    }

    /// Hands out the current id and advances the counter.
    pub fn event_id(&mut self) -> (id: u64)
        requires
            old(self).wf(),
            old(self).event_id < u64::MAX,
        ensures
            final(self).wf(),
            id == old(self).event_id,
            final(self).event_id == id + 1,
            final(self).wakers@ == old(self).wakers@,
    {
        let event_id = self.event_id;
        self.event_id = event_id + 1;
        event_id
    }

    /// Puts a new event in flight with the waker to call when it completes; returns its id.
    pub fn submit_io(&mut self, waker: W) -> (id: u64)
        requires
            old(self).wf(),
            old(self).event_id < u64::MAX,
        ensures
            final(self).wf(),
            id == old(self).event_id,
            !old(self).wakers@.contains_key(id),
            final(self).event_id == id + 1,
            final(self).wakers@ == old(self).wakers@.insert(id, waker),
    {
        let id = self.event_id();
        self.wakers.insert(id, waker);
        id
    }

    /// While the event is in flight its waker is replaced and the answer is pending; once
    /// it was woken the answer is ready.
    pub fn update_waker(&mut self, event_id: u64, waker: W) -> (r: Poll<()>)
        requires
            old(self).wf(),
        ensures
            final(self).wf(),
            old(self).wakers@.contains_key(event_id) ==> r == Poll::<()>::Pending
                && final(self).wakers@ == old(self).wakers@.insert(event_id, waker),
            !old(self).wakers@.contains_key(event_id) ==> r == Poll::Ready(())
                && final(self).wakers@ == old(self).wakers@,
            final(self).event_id == old(self).event_id,
    {
        if self.wakers.contains_key(&event_id) {
            self.wakers.insert(event_id, waker);
            Poll::Pending
        } else {
            Poll::Ready(())
        }
    }

    /// Takes the event out of flight and hands back its waker, for the caller to wake.
    pub fn wake(&mut self, event_id: u64) -> (w: Option<W>)
        requires
            old(self).wf(),
        ensures
            final(self).wf(),
            final(self).wakers@ == old(self).wakers@.remove(event_id),
            w == old(self).wakers@.get(event_id),
            final(self).event_id == old(self).event_id,
    {
        self.wakers.remove(&event_id)
    }
}

/// An event that is put in flight and then woken hands back its waker and leaves the
/// table as it was.
pub proof fn lemma_wake_undoes_submit<W>(wakers: Map<u64, W>, id: u64, waker: W)
    requires
        !wakers.contains_key(id),
    ensures
        wakers.insert(id, waker).get(id) == Some(waker),
        wakers.insert(id, waker).remove(id) == wakers,
{
    assert(wakers.insert(id, waker).remove(id) =~= wakers);
}

} // verus!

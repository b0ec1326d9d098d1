//! The bookkeeping of the io-uring reactor: for each submitted event id, either the task
//! waiting on it or the completion that arrived for it.
use std::collections::HashMap;
use std::ops::ControlFlow;
use vstd::prelude::*;

use crate::io_uring::cq::Cqe;

verus! {

broadcast use vstd::std_specs::hash::group_hash_axioms;

/// The outcome of polling an event: its completion, or not yet.
#[derive(PartialEq, Eq, Debug)]
pub enum Poll<T> {
    Ready(T),
    Pending,
}

/// What a poll of `id` with `waker` does to the table, and what it answers: a waiting or
/// unknown event records the waker and is pending; a completed one leaves the table and
/// is ready.
pub open spec fn poll_step<W>(m: Map<u64, ControlFlow<Cqe, W>>, id: u64, waker: W) -> (Map<
    u64,
    ControlFlow<Cqe, W>,
>, Poll<Cqe>) {
    match m.get(id) {
        Some(ControlFlow::Break(cqe)) => (m.remove(id), Poll::Ready(cqe)),
        _ => (m.insert(id, ControlFlow::Continue(waker)), Poll::Pending),
    }
}

/// Every completion names a distinct event that a task is waiting on.
pub open spec fn completions_expected<W>(m: Map<u64, ControlFlow<Cqe, W>>, cqes: Seq<Cqe>) -> bool {
    &&& forall|i: int|
        0 <= i < cqes.len() ==> #[trigger] m.contains_key(cqes[i].user_data) && m[cqes[i].user_data] is Continue
    &&& forall|i: int, j: int|
        0 <= i < j < cqes.len() ==> #[trigger] cqes[i].user_data != #[trigger] cqes[j].user_data
}

/// The table after the completions are recorded, each under its event.
pub open spec fn record_all<W>(m: Map<u64, ControlFlow<Cqe, W>>, cqes: Seq<Cqe>) -> Map<
    u64,
    ControlFlow<Cqe, W>,
>
    decreases cqes.len(),
{
    if cqes.len() == 0 {
        m
    } else {
        record_all(m, cqes.drop_last()).insert(
            cqes.last().user_data,
            ControlFlow::Break(cqes.last()),
        )
    }
}

/// The table of events.
pub struct Driver<W> {
    pub wakers: HashMap<u64, ControlFlow<Cqe, W>>,
    pub event_id: u64,
}

impl<W> Driver<W> {
    /// An empty table; the first id handed out is two.
    pub fn new(init_capacity: usize) -> (d: Self)
        ensures
            d.wakers@ == Map::<u64, ControlFlow<Cqe, W>>::empty(),
            d.event_id == 1,
    {
        Driver { wakers: HashMap::with_capacity(init_capacity), event_id: 1 }
    }

    /// Hands out the next id: the counter is advanced first.
    pub fn event_id(&mut self) -> (id: u64)
        requires
            old(self).event_id < u64::MAX,
        ensures
            id == old(self).event_id + 1,
            final(self).event_id == id,
            final(self).wakers@ == old(self).wakers@,
    {
        self.event_id = self.event_id + 1;
        self.event_id
    }

    /// Polls the event `id` for the task whose waker is given.
    pub fn poll(&mut self, id: u64, waker: W) -> (r: Poll<Cqe>)
        ensures
            (final(self).wakers@, r) == poll_step(old(self).wakers@, id, waker),
            final(self).event_id == old(self).event_id,
    {
        match self.wakers.remove(&id) {
            Some(ControlFlow::Break(ready)) => Poll::Ready(ready),
            _ => {
                self.wakers.insert(id, ControlFlow::Continue(waker));
                Poll::Pending
            },
        }
    }

    /// Records each completion under its event and hands back the wakers of the tasks
    /// that waited on them, in the order of the completions.
    pub fn wake_tasks(&mut self, cqes: Vec<Cqe>) -> (woken: Vec<W>)
        requires
            completions_expected(old(self).wakers@, cqes@),
        ensures
            final(self).wakers@ == record_all(old(self).wakers@, cqes@),
            final(self).event_id == old(self).event_id,
            woken.len() == cqes.len(),
            forall|i: int|
                0 <= i < cqes.len() ==> old(self).wakers@[cqes@[i].user_data] == ControlFlow::<
                    Cqe,
                    W,
                >::Continue(#[trigger] woken@[i]),
    {
        let ghost m0 = self.wakers@;
        let mut woken: Vec<W> = Vec::new();
        let mut i: usize = 0;
        while i < cqes.len()
            invariant
                i <= cqes.len(),
                completions_expected(m0, cqes@),
                self.wakers@ == record_all(m0, cqes@.take(i as int)),
                self.event_id == old(self).event_id,
                woken.len() == i,
                forall|j: int|
                    0 <= j < i ==> m0[cqes@[j].user_data] == ControlFlow::<Cqe, W>::Continue(
                        #[trigger] woken@[j],
                    ),
            decreases cqes.len() - i,
        {
            let cevent = cqes[i];
            proof {
                lemma_record_all_untouched(m0, cqes@, i as int);
                assert(cqes@.take(i as int + 1).drop_last() =~= cqes@.take(i as int));
            }
            let previous = self.wakers.insert(cevent.user_data, ControlFlow::Break(cevent));
            match previous {
                Some(ControlFlow::Continue(waker)) => {
                    woken.push(waker);
                },
                _ => {
                    proof {
                        assert(false);
                    }
                },
            }
            i = i + 1;
        }
        proof {
            assert(cqes@.take(cqes.len() as int) =~= cqes@);
        }
        woken
    }
}

/// Once the completions are recorded, polling any of their events answers with that very
/// completion and forgets the event; an event that none of them names answers as it did
/// before.
pub proof fn lemma_recorded_completion_is_delivered<W>(
    m: Map<u64, ControlFlow<Cqe, W>>,
    cqes: Seq<Cqe>,
    k: int,
    waker: W,
)
    requires
        completions_expected(m, cqes),
        0 <= k < cqes.len(),
    ensures
        poll_step(record_all(m, cqes), cqes[k].user_data, waker) == (
            record_all(m, cqes).remove(cqes[k].user_data),
            Poll::Ready(cqes[k]),
        ),
    decreases cqes.len(),
{
    let n = cqes.len() - 1;
    if k < n {
        let s = cqes.drop_last();
        assert forall|i: int| 0 <= i < s.len() implies #[trigger] m.contains_key(s[i].user_data)
            && m[s[i].user_data] is Continue by {
            assert(s[i] == cqes[i]);
        }
        assert forall|i: int, j: int| 0 <= i < j < s.len() implies #[trigger] s[i].user_data
            != #[trigger] s[j].user_data by {
            assert(s[i] == cqes[i] && s[j] == cqes[j]);
        }
        lemma_recorded_completion_is_delivered(m, s, k, waker);
        assert(cqes[k].user_data != cqes[n].user_data);
        assert(s[k] == cqes[k]);
    }
}

/// A poll of an event that has not completed answers pending and keeps the latest waker.
pub proof fn lemma_pending_poll_keeps_latest_waker<W>(
    m: Map<u64, ControlFlow<Cqe, W>>,
    id: u64,
    first: W,
    second: W,
)
    requires
        !(m.contains_key(id) && m[id] is Break),
    ensures
        poll_step(m, id, first).1 == Poll::<Cqe>::Pending,
        poll_step(poll_step(m, id, first).0, id, second) == (
            m.insert(id, ControlFlow::<Cqe, W>::Continue(second)),
            Poll::<Cqe>::Pending,
        ),
{
    let m1 = poll_step(m, id, first).0;
    assert(m1.insert(id, ControlFlow::<Cqe, W>::Continue(second)) =~= m.insert(
        id,
        ControlFlow::<Cqe, W>::Continue(second),
    ));
}

/// An event that none of the first `i` completions names still holds what it held.
proof fn lemma_record_all_untouched<W>(m: Map<u64, ControlFlow<Cqe, W>>, cqes: Seq<Cqe>, i: int)
    requires
        0 <= i < cqes.len(),
        completions_expected(m, cqes),
    ensures
        record_all(m, cqes.take(i)).get(cqes[i].user_data) == m.get(cqes[i].user_data),
    decreases i,
{
    if i > 0 {
        let t = cqes.take(i);
        assert(t.drop_last() =~= cqes.take(i - 1));
        assert(t.last() == cqes[i - 1]);
        assert(cqes[i - 1].user_data != cqes[i].user_data);
        lemma_record_all_untouched_prefix(m, cqes, i - 1, i);
    }
}

proof fn lemma_record_all_untouched_prefix<W>(
    m: Map<u64, ControlFlow<Cqe, W>>,
    cqes: Seq<Cqe>,
    n: int,
    i: int,
)
    requires
        0 <= n < i < cqes.len(),
        completions_expected(m, cqes),
    ensures
        record_all(m, cqes.take(n + 1)).get(cqes[i].user_data) == m.get(cqes[i].user_data),
    decreases n,
{
    let t = cqes.take(n + 1);
    assert(t.drop_last() =~= cqes.take(n));
    assert(cqes[n].user_data != cqes[i].user_data);
    if n > 0 {
        lemma_record_all_untouched_prefix(m, cqes, n - 1, i);
    } else {
        assert(cqes.take(0) =~= Seq::<Cqe>::empty());
    }
}

} // verus!

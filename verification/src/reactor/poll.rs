//! The bookkeeping of the `poll(2)` based reactor: a list of watched descriptors and,
//! beside it, the task to wake for each.
use vstd::multiset::Multiset;
use vstd::prelude::*;

verus! {

/// A watched descriptor (`pollfd`).
#[derive(Clone, Copy, PartialEq, Eq, Debug)]
pub struct PollFd {
    pub fd: i32,
    /// The events asked for.
    pub events: i16,
    /// The events that occurred, filled in by `poll(2)`.
    pub revents: i16,
}

/// Readiness to read (`POLLIN`).
pub const POLLIN: i16 = 1;
/// Readiness to write (`POLLOUT`).
pub const POLLOUT: i16 = 4;

/// The descriptor watched until `fd` can be read.
pub fn read_event(fd: i32) -> (e: PollFd)
    ensures
        e == (PollFd { fd, events: POLLIN, revents: 0 }),
{
    PollFd { fd, events: POLLIN, revents: 0 }
}

/// The descriptor watched until `fd` can be written.
pub fn write_event(fd: i32) -> (e: PollFd)
    ensures
        e == (PollFd { fd, events: POLLOUT, revents: 0 }),
{
    PollFd { fd, events: POLLOUT, revents: 0 }
}

/// One registration: its id, the waker of the task waiting on it, and the descriptor.
pub type Registration<W> = (u64, W, PollFd);

/// The registrations as `(id, waker, descriptor)`, in list order.
pub open spec fn registrations<W>(wakers: Seq<(u64, W)>, fds: Seq<PollFd>) -> Seq<Registration<W>> {
    Seq::new(wakers.len(), |i: int| (wakers[i].0, wakers[i].1, fds[i]))
}

/// `s` with its `i`-th element replaced by the last one, and the last one dropped.
pub open spec fn swap_removed<T>(s: Seq<T>, i: int) -> Seq<T> {
    s.update(i, s.last()).drop_last()
}

/// A ready registration is one whose descriptor has some event.
pub open spec fn is_ready<W>(r: Registration<W>) -> bool {
    r.2.revents != 0
}

/// How a wake-up pass runs from position `i` with `budget` wake-ups left: a registration
/// that is not ready is stepped over; a ready one is taken out (the last one takes its
/// place, and is looked at next) and woken, and the pass stops once the budget, counted
/// down on each wake-up, is no longer positive. Yields what stays and what was woken.
pub open spec fn wake_pass<W>(rs: Seq<Registration<W>>, i: int, budget: int) -> (Seq<
    Registration<W>,
>, Seq<Registration<W>>)
    decreases rs.len() - i,
{
    if i < 0 || i >= rs.len() {
        (rs, Seq::empty())
    } else if !is_ready(rs[i]) {
        wake_pass(rs, i + 1, budget)
    } else if budget - 1 <= 0 {
        (swap_removed(rs, i), seq![rs[i]])
    } else {
        let rest = wake_pass(swap_removed(rs, i), i, budget - 1);
        (rest.0, seq![rs[i]] + rest.1)
    }
}

/// `i` is the first position whose registration has the given id.
pub open spec fn first_with_id<W>(rs: Seq<Registration<W>>, id: u64, i: int) -> bool {
    &&& 0 <= i < rs.len()
    &&& rs[i].0 == id
    &&& forall|j: int| 0 <= j < i ==> rs[j].0 != id
}

/// How many registrations are ready.
pub open spec fn ready_count<W>(rs: Seq<Registration<W>>) -> nat
    decreases rs.len(),
{
    if rs.len() == 0 {
        0
    } else {
        ready_count(rs.drop_last()) + if is_ready(rs.last()) { 1nat } else { 0nat }
    }
}

proof fn lemma_ready_count_update<W>(rs: Seq<Registration<W>>, i: int, x: Registration<W>)
    requires
        0 <= i < rs.len(),
    ensures
        ready_count(rs.update(i, x)) + (if is_ready(rs[i]) { 1int } else { 0int })
            == ready_count(rs) + (if is_ready(x) { 1int } else { 0int }),
    decreases rs.len(),
{
    if i == rs.len() - 1 {
        assert(rs.update(i, x).drop_last() =~= rs.drop_last());
    } else {
        lemma_ready_count_update(rs.drop_last(), i, x);
        assert(rs.update(i, x).drop_last() =~= rs.drop_last().update(i, x));
    }
}

proof fn lemma_swap_removed<W>(rs: Seq<Registration<W>>, i: int)
    requires
        0 <= i < rs.len(),
    ensures
        ready_count(rs) == ready_count(swap_removed(rs, i)) + (if is_ready(rs[i]) {
            1int
        } else {
            0int
        }),
        rs.to_multiset() == swap_removed(rs, i).to_multiset().insert(rs[i]),
        swap_removed(rs, i).len() == rs.len() - 1,
{
    broadcast use vstd::seq_lib::group_to_multiset_ensures;
    broadcast use vstd::multiset::group_multiset_axioms;

    let u = rs.update(i, rs.last());
    lemma_ready_count_update(rs, i, rs.last());
    assert(u.to_multiset() == rs.to_multiset().insert(rs.last()).remove(rs[i]));
    assert(u[u.len() - 1] == rs.last());
    assert(u.drop_last() =~= u.remove(u.len() - 1));
    assert(u.remove(u.len() - 1).to_multiset() == u.to_multiset().remove(u[u.len() - 1]));
    assert(rs.to_multiset().count(rs[i]) > 0);
    assert(rs.to_multiset() =~= swap_removed(rs, i).to_multiset().insert(rs[i]));
}

proof fn lemma_empty_to_multiset<A>()
    ensures
        Seq::<A>::empty().to_multiset() =~= Multiset::<A>::empty(),
{
    broadcast use vstd::seq_lib::group_to_multiset_ensures;
    broadcast use vstd::multiset::group_multiset_axioms;

    assert forall|a: A| Seq::<A>::empty().to_multiset().count(a) == 0 by {
        assert(!Seq::<A>::empty().contains(a));
    }
}

proof fn lemma_single_to_multiset<A>(a: A)
    ensures
        seq![a].to_multiset() =~= Multiset::<A>::empty().insert(a),
{
    broadcast use vstd::seq_lib::group_to_multiset_ensures;

    lemma_empty_to_multiset::<A>();
    assert(seq![a] =~= Seq::<A>::empty().push(a));
}

/// A wake-up pass wakes only ready registrations, loses and duplicates none of them, and
/// wakes as many as it may: all the ready ones, or as many as the budget allows, where a
/// budget that is not positive still allows one.
pub proof fn lemma_wake_pass<W>(rs: Seq<Registration<W>>, i: int, budget: int)
    requires
        0 <= i <= rs.len(),
        forall|j: int| 0 <= j < i ==> !is_ready(#[trigger] rs[j]),
    ensures
        ({
            let (rest, taken) = wake_pass(rs, i, budget);
            &&& forall|k: int| 0 <= k < taken.len() ==> is_ready(#[trigger] taken[k])
            &&& rest.to_multiset().add(taken.to_multiset()) == rs.to_multiset()
            &&& taken.len() == if ready_count(rs) == 0 {
                0
            } else if budget <= 1 {
                1
            } else if ready_count(rs) <= budget {
                ready_count(rs) as int
            } else {
                budget
            }
        }),
    decreases rs.len() - i,
{
    broadcast use vstd::multiset::group_multiset_axioms;

    if i >= rs.len() {
        lemma_none_ready(rs);
        lemma_empty_to_multiset::<Registration<W>>();
        assert(rs.to_multiset().add(Seq::<Registration<W>>::empty().to_multiset()) =~= rs.to_multiset());
    } else if !is_ready(rs[i]) {
        lemma_wake_pass(rs, i + 1, budget);
    } else {
        lemma_swap_removed(rs, i);
        let s2 = swap_removed(rs, i);
        if budget - 1 <= 0 {
            lemma_single_to_multiset(rs[i]);
            assert(s2.to_multiset().add(seq![rs[i]].to_multiset()) =~= rs.to_multiset());
        } else {
            assert forall|j: int| 0 <= j < i implies !is_ready(#[trigger] s2[j]) by {
                assert(s2[j] == rs[j]);
            }
            lemma_wake_pass(s2, i, budget - 1);
            let rest = wake_pass(s2, i, budget - 1);
            vstd::seq_lib::lemma_multiset_commutative(seq![rs[i]], rest.1);
            lemma_single_to_multiset(rs[i]);
            assert((seq![rs[i]] + rest.1).to_multiset() =~= rest.1.to_multiset().insert(rs[i]));
            assert(rest.0.to_multiset().add((seq![rs[i]] + rest.1).to_multiset())
                =~= rs.to_multiset());
            assert forall|k: int| 0 <= k < (seq![rs[i]] + rest.1).len() implies is_ready(
                #[trigger] (seq![rs[i]] + rest.1)[k],
            ) by {
                if k > 0 {
                    assert((seq![rs[i]] + rest.1)[k] == rest.1[k - 1]);
                }
            }
        }
    }
}

proof fn lemma_none_ready<W>(rs: Seq<Registration<W>>)
    requires
        forall|j: int| 0 <= j < rs.len() ==> !is_ready(#[trigger] rs[j]),
    ensures
        ready_count(rs) == 0,
    decreases rs.len(),
{
    if rs.len() > 0 {
        assert forall|j: int| 0 <= j < rs.drop_last().len() implies !is_ready(
            #[trigger] rs.drop_last()[j],
        ) by {
            assert(rs.drop_last()[j] == rs[j]);
        }
        lemma_none_ready(rs.drop_last());
        assert(!is_ready(rs[rs.len() - 1]));
    }
}

/// Removing a registration right after it was pushed, under an id that no other
/// registration holds, leaves the table as it was before the push.
pub proof fn lemma_remove_undoes_push<W>(rs: Seq<Registration<W>>, r: Registration<W>)
    requires
        forall|i: int| 0 <= i < rs.len() ==> (#[trigger] rs[i]).0 != r.0,
    ensures
        exists|i: int| first_with_id(rs.push(r), r.0, i),
        swap_removed(rs.push(r), choose|i: int| first_with_id(rs.push(r), r.0, i)) == rs,
{
    let pushed = rs.push(r);
    assert(first_with_id(pushed, r.0, rs.len() as int)) by {
        assert forall|j: int| 0 <= j < rs.len() implies pushed[j].0 != r.0 by {
            assert(pushed[j] == rs[j]);
        }
    }
    let k = choose|i: int| first_with_id(pushed, r.0, i);
    assert(k == rs.len()) by {
        if k < rs.len() {
            assert(pushed[k] == rs[k]);
        }
    }
    assert(swap_removed(pushed, k) =~= rs);
}

/// The reactor's table of registrations.
pub struct Driver<W> {
    pub event_id: u64,
    pub wakers: Vec<(u64, W)>,
    pub fds: Vec<PollFd>,
}

impl<W> Driver<W> {
    /// The two lists stay aligned: the `i`-th waker waits on the `i`-th descriptor.
    pub open spec fn wf(&self) -> bool {
        self.wakers.len() == self.fds.len()
    }

    /// The registrations in list order.
    pub open spec fn view_registrations(&self) -> Seq<Registration<W>> {
        registrations(self.wakers@, self.fds@)
    }

    /// An empty table whose lists have room for `2 * queue_entries` registrations.
    pub fn new(queue_entries: usize) -> (d: Self)
        requires
            queue_entries * 2 <= usize::MAX,
        ensures
            d.wf(),
            d.event_id == 0,
            d.view_registrations() == Seq::<Registration<W>>::empty(),
    {
        let d = Driver {
            event_id: 0,
            wakers: Vec::with_capacity(queue_entries * 2),
            fds: Vec::with_capacity(queue_entries * 2),
        };
        proof {
            assert(d.view_registrations() =~= Seq::<Registration<W>>::empty());
        }
        d
    }

    /// Hands out the next id: the counter is advanced first, so ids start at one.
    pub fn event_id(&mut self) -> (id: u64)
        requires
            old(self).event_id < u64::MAX,
        ensures
            id == old(self).event_id + 1,
            final(self).event_id == id,
            final(self).wakers@ == old(self).wakers@,
            final(self).fds@ == old(self).fds@,
    {
        self.event_id = self.event_id + 1;
        self.event_id
    }

    /// Registers a descriptor and the waker to call when it is ready; returns its id.
    pub fn push(&mut self, pollfd: PollFd, waker: W) -> (id: u64)
        requires
            old(self).wf(),
            old(self).event_id < u64::MAX,
        ensures
            final(self).wf(),
            id == old(self).event_id + 1,
            final(self).event_id == id,
            final(self).view_registrations() == old(self).view_registrations().push(
                (id, waker, pollfd),
            ),
    {
        let id = self.event_id();
        self.fds.push(pollfd);
        self.wakers.push((id, waker));
        proof {
            assert(self.view_registrations() =~= old(self).view_registrations().push(
                (id, waker, pollfd),
            ));
        }
        id
    }

    /// Drops the first registration with the given id, if there is one; the last
    /// registration takes its place.
    pub fn remove_waker(&mut self, id: u64)
        requires
            old(self).wf(),
        ensures
            final(self).wf(),
            final(self).event_id == old(self).event_id,
            ({
                let rs = old(self).view_registrations();
                if exists|i: int| first_with_id(rs, id, i) {
                    final(self).view_registrations() == swap_removed(
                        rs,
                        choose|i: int| first_with_id(rs, id, i),
                    )
                } else {
                    final(self).view_registrations() == rs
                }
            }),
    {
        let ghost rs = self.view_registrations();
        let mut i: usize = 0;
        while i < self.wakers.len()
            invariant
                self.wf(),
                self.view_registrations() == rs,
                rs == old(self).view_registrations(),
                self.event_id == old(self).event_id,
                i <= self.wakers.len(),
                forall|j: int| 0 <= j < i ==> rs[j].0 != id,
            decreases self.wakers.len() - i,
        {
            if self.wakers[i].0 == id {
                self.wakers.swap_remove(i);
                self.fds.swap_remove(i);
                proof {
                    assert(first_with_id(rs, id, i as int));
                    let k = choose|k: int| first_with_id(rs, id, k);
                    assert(k == i) by {
                        if k < i {
                            assert(rs[k].0 != id);
                        } else if k > i {
                            assert(rs[i as int].0 != id);
                        }
                    }
                    assert(self.view_registrations() =~= swap_removed(rs, i as int));
                }
                return;
            }
            i = i + 1;
        }
        proof {
            assert forall|k: int| !first_with_id(rs, id, k) by {
                if 0 <= k < rs.len() {
                    assert(rs[k].0 != id);
                }
            }
        }
    }

    /// Takes out the registrations whose descriptors are ready and hands back their
    /// wakers, in the order taken. `to_wake` is the number `poll(2)` reported; the pass
    /// stops once that many were taken (after the first one if it is not positive).
    pub fn wake_tasks(&mut self, to_wake: i32) -> (woken: Vec<W>)
        requires
            old(self).wf(),
            to_wake > i32::MIN,
        ensures
            final(self).wf(),
            final(self).event_id == old(self).event_id,
            ({
                let (rest, taken) = wake_pass(old(self).view_registrations(), 0, to_wake as int);
                &&& final(self).view_registrations() == rest
                &&& woken@ == taken.map_values(|r: Registration<W>| r.1)
            }),
    {
        let ghost rs0 = self.view_registrations();
        let ghost budget0 = to_wake as int;
        let mut woken: Vec<W> = Vec::new();
        let ghost mut taken: Seq<Registration<W>> = Seq::empty();
        let mut to_wake = to_wake;
        let mut i: usize = 0;
        while i < self.fds.len()
            invariant_except_break
                self.wf(),
                self.event_id == old(self).event_id,
                i <= self.fds.len(),
                to_wake > 0 || taken.len() == 0,
                to_wake > i32::MIN,
                ({
                    let (rest, more) = wake_pass(self.view_registrations(), i as int, to_wake as int);
                    let (rest0, all) = wake_pass(rs0, 0, budget0);
                    rest == rest0 && taken + more == all
                }),
                woken@ == taken.map_values(|r: Registration<W>| r.1),
            ensures
                self.wf(),
                self.event_id == old(self).event_id,
                ({
                    let (rest0, all) = wake_pass(rs0, 0, budget0);
                    self.view_registrations() == rest0 && taken == all
                }),
                woken@ == taken.map_values(|r: Registration<W>| r.1),
            decreases self.fds.len() - i,
        {
            let ghost rs = self.view_registrations();
            let pollfd = self.fds[i];
            if pollfd.revents == 0 {
                i = i + 1;
                continue;
            }
            let ghost r = rs[i as int];
            self.fds.swap_remove(i);
            let (_, waker) = self.wakers.swap_remove(i);
            proof {
                assert(self.view_registrations() =~= swap_removed(rs, i as int));
                taken = taken.push(r);
            }
            woken.push(waker);
            proof {
                assert(woken@ =~= taken.map_values(|r: Registration<W>| r.1));
            }
            to_wake = to_wake - 1;
            if to_wake <= 0 {
                proof {
                    let (rest0, all) = wake_pass(rs0, 0, budget0);
                    assert(seq![r] =~= Seq::empty().push(r));
                    assert(taken =~= all);
                }
                break;
            }
            proof {
                let (rest0, all) = wake_pass(rs0, 0, budget0);
                let (rest, more) = wake_pass(self.view_registrations(), i as int, to_wake as int);
                assert(taken + more =~= all);
            }
        }
        proof {
            let (rest0, all) = wake_pass(rs0, 0, budget0);
            if i >= self.fds.len() {
                assert(taken =~= taken + Seq::<Registration<W>>::empty());
            }
        }
        woken
    }
}

} // verus!

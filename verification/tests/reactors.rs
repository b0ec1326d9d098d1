use osiris::driver::Driver as RingDriver;
use osiris::io_uring::cq::Cqe;
use osiris::reactor::iouring::{Driver as CompletionDriver, Poll};
use osiris::reactor::poll::{Driver as PollDriver, PollFd};

fn fd(fd: i32, revents: i16) -> PollFd {
    PollFd { fd, events: 1, revents }
}

#[test]
fn poll_ids_start_at_one() {
    let mut d: PollDriver<&str> = PollDriver::new(4);
    assert_eq!(d.push(fd(3, 0), "a"), 1);
    assert_eq!(d.push(fd(4, 0), "b"), 2);
    assert_eq!(d.event_id(), 3);
    assert_eq!(d.wakers, vec![(1, "a"), (2, "b")]);
}

#[test]
fn poll_wakes_ready_descriptors_within_budget() {
    let mut d: PollDriver<&str> = PollDriver::new(4);
    d.push(fd(3, 1), "a");
    d.push(fd(4, 0), "b");
    d.push(fd(5, 4), "c");
    // both ready registrations are taken; the last one moves into a freed place
    let woken = d.wake_tasks(2);
    assert_eq!(woken, vec!["a", "c"]);
    assert_eq!(d.wakers, vec![(2, "b")]);
    assert_eq!(d.fds, vec![fd(4, 0)]);
}

#[test]
fn poll_stops_when_budget_is_spent() {
    let mut d: PollDriver<&str> = PollDriver::new(4);
    d.push(fd(3, 1), "a");
    d.push(fd(4, 1), "b");
    let woken = d.wake_tasks(1);
    assert_eq!(woken, vec!["a"]);
    assert_eq!(d.wakers, vec![(2, "b")]);
    // a budget that is not positive still wakes the first ready registration
    let woken = d.wake_tasks(0);
    assert_eq!(woken, vec!["b"]);
    assert!(d.wakers.is_empty());
}

#[test]
fn poll_remove_waker_swaps_in_the_last() {
    let mut d: PollDriver<&str> = PollDriver::new(4);
    d.push(fd(3, 0), "a");
    d.push(fd(4, 0), "b");
    d.push(fd(5, 0), "c");
    d.remove_waker(1);
    assert_eq!(d.wakers, vec![(3, "c"), (2, "b")]);
    assert_eq!(d.fds, vec![fd(5, 0), fd(4, 0)]);
    d.remove_waker(9);
    assert_eq!(d.wakers.len(), 2);
}

fn cqe(user_data: u64, res: i32) -> Cqe {
    Cqe { user_data, res, flags: 0 }
}

#[test]
fn completion_is_delivered_to_its_poll() {
    let mut d: CompletionDriver<&str> = CompletionDriver::new(8);
    let id = d.event_id();
    assert_eq!(id, 2);
    assert_eq!(d.poll(id, "first"), Poll::Pending);
    assert_eq!(d.poll(id, "second"), Poll::Pending);
    let woken = d.wake_tasks(vec![cqe(id, 17)]);
    // the latest waker is the one woken
    assert_eq!(woken, vec!["second"]);
    assert_eq!(d.poll(id, "third"), Poll::Ready(cqe(id, 17)));
    // the event is forgotten once delivered
    assert!(d.wakers.is_empty());
}

#[test]
fn completions_wake_in_their_order() {
    let mut d: CompletionDriver<u32> = CompletionDriver::new(8);
    let a = d.event_id();
    let b = d.event_id();
    d.poll(a, 1);
    d.poll(b, 2);
    assert_eq!(d.wake_tasks(vec![cqe(b, -5), cqe(a, 0)]), vec![2, 1]);
    assert_eq!(d.poll(b, 9), Poll::Ready(cqe(b, -5)));
    assert_eq!(d.poll(a, 9), Poll::Ready(cqe(a, 0)));
}

#[test]
fn ring_driver_tracks_events_in_flight() {
    let mut d: RingDriver<&str> = RingDriver::new();
    let a = d.submit_io("a");
    let b = d.submit_io("b");
    assert_eq!((a, b), (0, 1));
    assert_eq!(d.update_waker(a, "a2"), Poll::Pending);
    assert_eq!(d.wake(a), Some("a2"));
    assert_eq!(d.update_waker(a, "a3"), Poll::Ready(()));
    assert_eq!(d.wake(a), None);
    assert_eq!(d.event_id(), 2);
    assert_eq!(d.wake(b), Some("b"));
}

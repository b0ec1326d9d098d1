use osiris::_priv::join::{Join, JoinWaker, TryJoin, TryStep};
use osiris::_priv::main_args::{parse_main_args, ArgError, MainArgs};
use osiris::_priv::run::{
    core_for_replica, core_for_restarted_replica, restarts_after, run_mode, scale_for_cores,
    IntoScale, ReplicaExit, RunMode, Supervisor,
};
use osiris::error::{ErrorKind, IoError};
use osiris::runtime::{event_loop_step, LoopStep};
use osiris::hasher::NoopHasher;
use osiris::net::getaddrinfo::{
    all, bad_flags, check_request, error, probe_families, Hints, AF_INET, AF_INET6, AF_UNSPEC,
    AI_ADDRCONFIG, AI_CANONNAME, AI_PASSIVE, EAI_BADFLAGS, EAI_FAMILY, EAI_NONAME,
};

#[test]
fn stack_overflow() {}

#[test]
fn noop_hasher_keeps_last_write() {
    let mut h = NoopHasher::new();
    assert_eq!(h.finish(), 0);
    h.write_u64(7);
    h.write_u32(42);
    assert_eq!(h.finish(), 42);
    h.write_usize(9);
    assert_eq!(h.build_hasher().finish(), 9);
    let d: NoopHasher = Default::default();
    assert_eq!(d.finish(), 0);
}

#[test]
fn os_errors_keep_their_code() {
    let e = IoError::from_raw_os_error(11);
    assert_eq!(e.raw_os_error(), Some(11));
    let s = IoError::Simple { kind: ErrorKind::Other, message: "x" };
    assert_eq!(s.raw_os_error(), None);
}

#[test]
fn fresh_join_polls_every_branch_once() {
    let mut j = Join::new(3, JoinWaker::new());
    assert!(j.should_poll(2));
    assert!(j.should_poll(1));
    assert!(j.should_poll(0));
    // no wake in between: nothing is polled again
    assert!(!j.should_poll(2));
    assert!(!j.should_poll(1));
    assert!(!j.should_poll(0));
    assert!(!j.is_ready());
}

#[test]
fn join_polls_only_woken_running_branches() {
    let mut j = Join::new(2, JoinWaker::new());
    assert!(j.should_poll(1));
    assert!(j.should_poll(0));
    j.finish(1);
    j.waker.wake(0);
    j.waker.wake(1);
    // branch 1 is done: it is never polled again, even when woken
    assert!(!j.should_poll(1));
    assert!(j.should_poll(0));
    assert!(!j.is_ready());
    j.finish(0);
    assert!(j.is_ready());
}

#[test]
fn join_waker_bits() {
    let mut w = JoinWaker::new();
    assert_eq!(w.woken, u64::MAX);
    assert!(w.take(5));
    assert!(!w.take(5));
    assert_eq!(w.woken, u64::MAX & !(1 << 5));
    w.wake(5);
    assert_eq!(w.woken, u64::MAX);
}

#[test]
fn try_join_stops_at_first_error() {
    let mut t = TryJoin::new(2, JoinWaker::new());
    assert_eq!(t.record(1, true), TryStep::Continue);
    assert_eq!(t.join.done, vec![false, true]);
    assert_eq!(t.record(0, false), TryStep::Fail);
    assert_eq!(t.join.done, vec![false, true]);
    assert!(!t.join.is_ready());
}

#[test]
fn empty_join_is_ready() {
    let j = Join::new(0, JoinWaker::new());
    assert!(j.is_ready());
}

#[test]
fn scale_of_counts_and_switches() {
    assert_eq!(scale_for_cores(false, 8), 1);
    assert_eq!(scale_for_cores(true, 8), 8);
    assert_eq!(scale_for_cores(true, 0), 1);
    assert_eq!(scale_for_cores(true, 1), 1);
    assert_eq!(4usize.scale(), 4);
    assert_eq!(false.scale(), 1);
    assert!(true.scale() >= 1);
}

#[test]
fn event_loop_steps() {
    assert_eq!(event_loop_step(true, true), LoopStep::Return);
    assert_eq!(event_loop_step(false, true), LoopStep::Yield);
    assert_eq!(event_loop_step(false, false), LoopStep::Wait);
}

#[test]
fn run_modes() {
    assert_eq!(run_mode(1, false), RunMode::Direct);
    assert_eq!(run_mode(1, true), RunMode::Restarting);
    assert_eq!(run_mode(4, false), RunMode::Replicated);
    assert_eq!(run_mode(4, true), RunMode::ReplicatedRestarting);
    assert_eq!(run_mode(0, false), RunMode::Replicated);
}

#[test]
fn replicas_go_round_the_cores() {
    assert_eq!(core_for_replica(0, 4), Some(0));
    assert_eq!(core_for_replica(5, 4), Some(1));
    assert_eq!(core_for_replica(3, 0), None);
    assert_eq!(core_for_restarted_replica(5, 4), Some(1));
    assert_eq!(core_for_restarted_replica(1, 2), Some(1));
    assert_eq!(core_for_restarted_replica(1, 0), None);
}

#[test]
fn supervisor_restarts_panicked_replicas() {
    let mut s = Supervisor::new(2);
    assert!(s.running());
    assert!(s.on_exit(ReplicaExit::Panicked));
    assert_eq!(s.exited, 0);
    assert!(s.on_exit(ReplicaExit::Failed));
    assert_eq!(s.exited, 0);
    assert!(!s.on_exit(ReplicaExit::Succeeded));
    assert!(s.running());
    assert!(!s.on_exit(ReplicaExit::Succeeded));
    assert!(!s.running());
    assert!(restarts_after(ReplicaExit::Failed));
    assert!(!restarts_after(ReplicaExit::Succeeded));
}

fn names(v: &[&str]) -> Vec<Vec<u8>> {
    v.iter().map(|s| s.as_bytes().to_vec()).collect()
}

#[test]
fn main_arguments() {
    assert_eq!(
        parse_main_args(&names(&[])),
        Ok(MainArgs { scale: None, restart: None })
    );
    assert_eq!(
        parse_main_args(&names(&["restart", "scale"])),
        Ok(MainArgs { scale: Some(1), restart: Some(0) })
    );
    assert_eq!(
        parse_main_args(&names(&["scale", "threads"])),
        Err(ArgError::Unsupported(1))
    );
    assert_eq!(
        parse_main_args(&names(&["scale", "scale", "bogus"])),
        Err(ArgError::Repeated(1))
    );
}

#[test]
fn address_request_checks() {
    assert_eq!(check_request(false, false, None), Err(IoError::Os(EAI_NONAME)));
    assert_eq!(
        check_request(true, false, None),
        Ok(Hints { family: AF_UNSPEC, flags: 0, protocol: 0, socktype: 0 })
    );
    let bad = Hints { family: AF_INET, flags: 0x1000, protocol: 0, socktype: 0 };
    assert_eq!(check_request(true, true, Some(bad)), Err(IoError::Os(EAI_BADFLAGS)));
    let fam = Hints { family: 1, flags: AI_PASSIVE, protocol: 0, socktype: 0 };
    assert_eq!(check_request(false, true, Some(fam)), Err(IoError::Os(EAI_FAMILY)));
    let ok = Hints { family: AF_INET6, flags: AI_CANONNAME, protocol: 6, socktype: 1 };
    assert_eq!(check_request(true, true, Some(ok)), Ok(ok));
}

#[test]
fn address_flags() {
    assert!(all(AI_PASSIVE | AI_CANONNAME, AI_CANONNAME));
    assert!(!all(AI_PASSIVE, AI_CANONNAME));
    assert!(bad_flags(0x1000));
    assert!(!bad_flags(AI_PASSIVE | AI_ADDRCONFIG));
    assert_eq!(error::<()>(EAI_NONAME), Err(IoError::Os(-2)));
}

#[test]
fn families_to_probe() {
    assert_eq!(probe_families(AF_UNSPEC, 0), Vec::<i32>::new());
    assert_eq!(probe_families(AF_UNSPEC, AI_ADDRCONFIG), vec![AF_INET, AF_INET6]);
    assert_eq!(probe_families(AF_INET, AI_ADDRCONFIG), vec![AF_INET]);
    assert_eq!(probe_families(AF_INET6, AI_ADDRCONFIG), vec![AF_INET6]);
}

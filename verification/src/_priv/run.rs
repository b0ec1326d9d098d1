//! The decisions of a program's entry point: how many replicas of `main` run, on which
//! core each runs, and when the replicas are restarted.
use vstd::prelude::*;

verus! {

/// The ids of the cores of this machine, in the order the operating system gives them.
///
/// Calls `core_affinity::get_core_ids` and keeps each core's `id`. What comes back depends on
/// the machine, so nothing is said of it.
#[verifier::external_body]
fn core_ids() -> (ids: Option<Vec<usize>>) {
    core_affinity::get_core_ids().map(|cores| cores.into_iter().map(|core| core.id).collect())
}

/// The number of replicas asked for: one when scaling is off, else one per core (at least one).
pub open spec fn spec_scale_for_cores(enabled: bool, cores: nat) -> nat {
    if !enabled {
        1
    } else if cores > 1 {
        cores
    } else {
        1
    }
}

/// The number of replicas for a scaling switch on a machine with `cores` known cores.
pub fn scale_for_cores(enabled: bool, cores: usize) -> (n: usize)
    ensures
        n == spec_scale_for_cores(enabled, cores as nat),
{
    if !enabled {
        1
    } else if cores > 1 {
        cores
    } else {
        1
    }
}

/// Types that can say how many replicas of `main` to run.
pub trait Sealed {

}

impl Sealed for bool {

}

impl Sealed for usize {

}

/// A number of replicas, given as a count or as "one per core".
pub trait IntoScale: Sealed {
    fn scale(self) -> usize;
}

impl IntoScale for bool {
    /// One replica when `false`; one per core of this machine (at least one) when `true`.
    fn scale(self) -> (n: usize)
        ensures
            !self ==> n == 1,
            self ==> n >= 1,
    {
        let cores: usize = if self {
            match core_ids() {
                Some(ids) => ids.len(),
                None => 0,
            }
        } else {
            0
        };
        scale_for_cores(self, cores)
    }
}

impl IntoScale for usize {
    /// The count itself.
    fn scale(self) -> (n: usize)
        ensures
            n == self,
    {
        self
    }
}

/// How `main` is run.
#[derive(PartialEq, Eq, Structural, Debug, Clone, Copy)]
pub enum RunMode {
    /// Once, on this thread.
    Direct,
    /// On this thread, again after each panic.
    Restarting,
    /// `scale` replicas on threads of their own, each once.
    Replicated,
    /// `scale` replicas on threads of their own, each again after each panic.
    ReplicatedRestarting,
}

/// The mode for `scale` replicas, restarted or not.
pub fn run_mode(scale: usize, restart: bool) -> (m: RunMode)
    ensures
        m == (if scale == 1 && !restart {
            RunMode::Direct
        } else if scale == 1 {
            RunMode::Restarting
        } else if !restart {
            RunMode::Replicated
        } else {
            RunMode::ReplicatedRestarting
        }),
{
    if scale == 1 && !restart {
        RunMode::Direct
    } else if scale == 1 {
        RunMode::Restarting
    } else if !restart {
        RunMode::Replicated
    } else {
        RunMode::ReplicatedRestarting
    }
}

/// The position, in the list of `cores` cores, of the core that replica `thread` is pinned
/// to when replicas are not restarted: replicas go round the cores; with no core known,
/// none is pinned.
pub fn core_for_replica(thread: usize, cores: usize) -> (slot: Option<usize>)
    ensures
        cores == 0 ==> slot is None,
        cores > 0 ==> slot == Some((thread % cores) as usize),
{
    let n: usize = if cores > 1 {
        cores
    } else {
        1
    };
    let k = thread % n;
    if k < cores {
        Some(k)
    } else {
        None
    }
}

/// The position of the core that replica `thread` is pinned to when replicas are restarted,
/// both when it first starts and when it starts again: each replica keeps its own core, as
/// when replicas are not restarted.
pub fn core_for_restarted_replica(thread: usize, cores: usize) -> (slot: Option<usize>)
    ensures
        cores == 0 ==> slot is None,
        cores > 0 ==> slot == Some((thread % cores) as usize),
{
    core_for_replica(thread, cores)
}

/// How a run of `main` ended.
#[derive(PartialEq, Eq, Structural, Debug, Clone, Copy)]
pub enum ReplicaExit {
    /// It returned with a successful exit code.
    Succeeded,
    /// It returned an error, or an unsuccessful exit code.
    Failed,
    /// It panicked.
    Panicked,
}

/// Whether a restarted `main` is run again after it ended this way: after a panic or an
/// error, not after a success.
pub fn restarts_after(exit: ReplicaExit) -> (again: bool)
    ensures
        again == (exit != ReplicaExit::Succeeded),
{
    match exit {
        ReplicaExit::Succeeded => false,
        _ => true,
    }
}

/// Watches `scale` restarted replicas: a replica that panicked or failed is started again,
/// one that succeeded is counted, and the program ends when every replica has succeeded.
pub struct Supervisor {
    pub scale: usize,
    /// How many replicas have succeeded.
    pub exited: usize,
}

impl Supervisor {
    /// No replica has ended yet.
    pub fn new(scale: usize) -> (s: Self)
        ensures
            s.scale == scale,
            s.exited == 0,
    {
        Supervisor { scale, exited: 0 }
    }

    /// Whether some replica is still to succeed.
    pub fn running(&self) -> (r: bool)
        ensures
            r == (self.exited < self.scale),
    {
        self.exited < self.scale
    }

    /// Handles the end of a replica and says whether it is started again.
    pub fn on_exit(&mut self, exit: ReplicaExit) -> (restart: bool)
        requires
            old(self).exited < old(self).scale,
        ensures
            restart == (exit != ReplicaExit::Succeeded),
            final(self).scale == old(self).scale,
            final(self).exited == old(self).exited + (if restart {
                0int
            } else {
                1int
            }),
    {
        let restart = restarts_after(exit);
        if !restart {
            self.exited = self.exited + 1;
        }
        restart
    }
}

} // verus!

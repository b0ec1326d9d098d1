//! The decision of the runtime's event loop: when it hands back the main task's output,
//! and whether it waits for I/O or only submits and goes on.
use vstd::prelude::*;

verus! {

/// What the event loop does after a round of running the woken tasks.
#[derive(PartialEq, Eq, Structural, Debug, Clone, Copy)]
pub enum LoopStep {
    /// The main task has finished: its output is handed back.
    Return,
    /// Some task is woken already: submit the queued I/O and go on without waiting.
    Yield,
    /// No task can make progress: submit the queued I/O and wait for a completion.
    Wait,
}

/// The step after a round: return once the main task is done; else yield when a task is
/// woken, and wait otherwise.
pub fn event_loop_step(main_done: bool, tasks_woken: bool) -> (step: LoopStep)
    ensures
        step == (if main_done {
            LoopStep::Return
        } else if tasks_woken {
            LoopStep::Yield
        } else {
            LoopStep::Wait
        }),
{
    if main_done {
        LoopStep::Return
    } else if tasks_woken {
        LoopStep::Yield
    } else {
        LoopStep::Wait
    }
}

} // verus!

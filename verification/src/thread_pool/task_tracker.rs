//! Counts the tasks that shutdown has to wait for and decides which tasks may
//! still be posted.

use vstd::prelude::*;
use crate::task_traits::{TaskShutdownBehavior, TaskTraits};

verus! {

/// What a [`TaskTracker`] knows, as mathematical values.
pub struct TrackerState {
    /// Shutdown has been requested.
    pub shutdown_started: bool,
    /// `BlockShutdown` tasks currently executing.
    pub num_tasks_blocking_shutdown: nat,
}

impl TrackerState {
    /// The state of a new tracker.
    pub open spec fn initial() -> TrackerState {
        TrackerState { shutdown_started: false, num_tasks_blocking_shutdown: 0 }
    }

    /// A task with these traits may be posted.
    pub open spec fn accepts(self, traits: TaskTraits) -> bool {
        self.shutdown_started ==> traits.shutdown_behavior
            == TaskShutdownBehavior::ContinueOnShutdown
    }

    /// The state once a task with these traits has been announced as starting.
    /// The counter wraps around at the end of its range.
    pub open spec fn before_run(self, traits: TaskTraits) -> TrackerState {
        if traits.shutdown_behavior == TaskShutdownBehavior::BlockShutdown {
            let n = self.num_tasks_blocking_shutdown;
            TrackerState {
                num_tasks_blocking_shutdown: if n == usize::MAX { 0 } else { n + 1 },
                ..self
            }
        } else {
            self
        }
    }

    /// The state once a task with these traits has been announced as finished.
    /// The counter wraps around at the end of its range.
    pub open spec fn after_run(self, traits: TaskTraits) -> TrackerState {
        if traits.shutdown_behavior == TaskShutdownBehavior::BlockShutdown {
            let n = self.num_tasks_blocking_shutdown;
            TrackerState {
                num_tasks_blocking_shutdown: if n == 0 { usize::MAX as nat } else { (n - 1) as nat },
                ..self
            }
        } else {
            self
        }
    }

    /// A task with these traits, finishing now, is the last one that shutdown
    /// waits for.
    pub open spec fn last_to_finish(self, traits: TaskTraits) -> bool {
        &&& traits.shutdown_behavior == TaskShutdownBehavior::BlockShutdown
        &&& self.num_tasks_blocking_shutdown == 1
    }

    /// The state once shutdown has been requested.
    pub open spec fn shutting_down(self) -> TrackerState {
        TrackerState { shutdown_started: true, ..self }
    }

    /// No running task holds shutdown up.
    pub open spec fn quiescent(self) -> bool {
        self.num_tasks_blocking_shutdown == 0
    }
}

/// Whether the thread that is shutting down may go on.
#[derive(Clone, Copy, Debug, PartialEq, Eq, Structural)]
pub enum ShutdownStep {
    /// No `BlockShutdown` task is running: shutdown is complete.
    Finished,
    /// Wait until notified, then call [`TaskTracker::shutdown`] again.
    Wait,
}

/// Whether the threads that wait in shutdown must be woken.
#[derive(Clone, Copy, Debug, PartialEq, Eq, Structural)]
pub enum WakeUp {
    /// Wake every thread that waits in shutdown.
    NotifyAll,
    /// Nobody has to be woken.
    Nobody,
}

/// Tracks running tasks for the sake of shutdown.
///
/// The tracker itself never blocks. Callers that share one between threads keep
/// it under a lock, wait on a condition variable of that lock when
/// [`TaskTracker::shutdown`] says so, and signal it when
/// [`TaskTracker::after_run_task`] says so.
pub struct TaskTracker {
    shutdown_started: bool,
    // Count of BlockShutdown tasks currently executing.
    num_tasks_blocking_shutdown: usize,
}

impl View for TaskTracker {
    type V = TrackerState;

    closed spec fn view(&self) -> TrackerState {
        TrackerState {
            shutdown_started: self.shutdown_started,
            num_tasks_blocking_shutdown: self.num_tasks_blocking_shutdown as nat,
        }
    }
}

impl TaskTracker {
    /// A tracker of no running task, with shutdown not requested.
    pub fn new() -> (tracker: Self)
        ensures
            tracker@ == TrackerState::initial(),
    {
        TaskTracker { shutdown_started: false, num_tasks_blocking_shutdown: 0 }
    }

    /// Returns true if the task may be posted.
    /// After shutdown has started, only `ContinueOnShutdown` tasks are accepted.
    pub fn will_post_task(&self, traits: &TaskTraits) -> (accepted: bool)
        ensures
            accepted == self@.accepts(*traits),
    {
        if !self.shutdown_started {
            return true;
        }
        matches!(traits.shutdown_behavior, TaskShutdownBehavior::ContinueOnShutdown)
    }

    /// Called immediately before executing a task.
    /// `BlockShutdown` tasks are counted, so that shutdown waits for them.
    pub fn before_run_task(&mut self, traits: &TaskTraits)
        ensures
            final(self)@ == old(self)@.before_run(*traits),
    {
        if traits.shutdown_behavior == TaskShutdownBehavior::BlockShutdown {
            self.num_tasks_blocking_shutdown = self.num_tasks_blocking_shutdown.wrapping_add(1);
        }
    }

    /// Called immediately after executing a task. Says whether threads that
    /// wait in shutdown must be woken: when the last `BlockShutdown` task
    /// finishes, and only then.
    pub fn after_run_task(&mut self, traits: &TaskTraits) -> (wake_up: WakeUp)
        ensures
            final(self)@ == old(self)@.after_run(*traits),
            wake_up == (if old(self)@.last_to_finish(*traits) {
                WakeUp::NotifyAll
            } else {
                WakeUp::Nobody
            }),
    {
        if traits.shutdown_behavior == TaskShutdownBehavior::BlockShutdown {
            let prev: usize = self.num_tasks_blocking_shutdown;
            self.num_tasks_blocking_shutdown = prev.wrapping_sub(1);
            if prev == 1 {
                return WakeUp::NotifyAll;
            }
        }
        WakeUp::Nobody
    }

    /// Returns true once shutdown has been requested.
    pub fn is_shutdown_started(&self) -> (started: bool)
        ensures
            started == self@.shutdown_started,
    {
        self.shutdown_started
    }

    /// Marks shutdown as started and says whether all `BlockShutdown` tasks
    /// have finished. A caller that is told to wait calls again each time it is
    /// woken.
    pub fn shutdown(&mut self) -> (step: ShutdownStep)
        ensures
            final(self)@ == old(self)@.shutting_down(),
            step == (if old(self)@.quiescent() {
                ShutdownStep::Finished
            } else {
                ShutdownStep::Wait
            }),
    {
        self.shutdown_started = true;
        if self.num_tasks_blocking_shutdown > 0 {
            ShutdownStep::Wait
        } else {
            ShutdownStep::Finished
        }
    }
}

} // verus!

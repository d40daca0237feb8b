//! Static description of a task: how urgent it is, where it should run and
//! what shutting down means for it.

use vstd::prelude::*;

verus! {

/// How urgent a task is.
#[derive(Clone, Copy, Debug, PartialEq, Eq, Structural)]
pub enum TaskPriority {
    BestEffort,
    UserVisible,
    UserBlocking,
}

/// What `shutdown` does about a task.
#[derive(Clone, Copy, Debug, PartialEq, Eq, Structural)]
pub enum TaskShutdownBehavior {
    /// May still be posted after shutdown has started, and never delays it.
    ContinueOnShutdown,
    /// Refused once shutdown has started.
    SkipOnShutdown,
    /// Refused once shutdown has started, and shutdown waits for the ones that
    /// are already running.
    BlockShutdown,
}

/// Which threads a task would like to run on.
#[derive(Clone, Copy, Debug, PartialEq, Eq, Structural)]
pub enum ThreadPolicy {
    PreferBackground,
    MustUseForeground,
}

/// The traits a task is posted with.
#[derive(Clone, Copy, Debug, PartialEq, Eq, Structural)]
pub struct TaskTraits {
    pub priority: TaskPriority,
    pub shutdown_behavior: TaskShutdownBehavior,
    pub thread_policy: ThreadPolicy,
    pub may_block: bool,
}

impl Default for TaskTraits {
    fn default() -> (traits: Self)
        ensures
            traits.priority == TaskPriority::UserVisible,
            traits.shutdown_behavior == TaskShutdownBehavior::SkipOnShutdown,
            traits.thread_policy == ThreadPolicy::PreferBackground,
            !traits.may_block,
    {
        TaskTraits {
            priority: TaskPriority::UserVisible,
            shutdown_behavior: TaskShutdownBehavior::SkipOnShutdown,
            thread_policy: ThreadPolicy::PreferBackground,
            may_block: false,
        }
    }
}

} // verus!

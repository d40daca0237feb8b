use rust_base::task_traits::{TaskPriority, TaskShutdownBehavior, TaskTraits, ThreadPolicy};
use rust_base::thread_pool::task_tracker::{ShutdownStep, TaskTracker, WakeUp};

fn traits_with(behavior: TaskShutdownBehavior) -> TaskTraits {
    TaskTraits {
        priority: TaskPriority::UserVisible,
        shutdown_behavior: behavior,
        thread_policy: ThreadPolicy::PreferBackground,
        may_block: false,
    }
}

#[test]
fn allows_all_tasks_before_shutdown() {
    let tracker = TaskTracker::new();
    assert!(tracker.will_post_task(&traits_with(TaskShutdownBehavior::ContinueOnShutdown)));
    assert!(tracker.will_post_task(&traits_with(TaskShutdownBehavior::SkipOnShutdown)));
    assert!(tracker.will_post_task(&traits_with(TaskShutdownBehavior::BlockShutdown)));
}

#[test]
fn after_shutdown_only_continue_on_shutdown_is_allowed() {
    let mut tracker = TaskTracker::new();
    tracker.shutdown();

    assert!(tracker.will_post_task(&traits_with(TaskShutdownBehavior::ContinueOnShutdown)));
    assert!(!tracker.will_post_task(&traits_with(TaskShutdownBehavior::SkipOnShutdown)));
    assert!(!tracker.will_post_task(&traits_with(TaskShutdownBehavior::BlockShutdown)));
}

#[test]
fn shutdown_returns_immediately_when_no_block_shutdown_tasks() {
    let mut tracker = TaskTracker::new();
    // Should not have to wait since no BlockShutdown tasks are running.
    assert_eq!(tracker.shutdown(), ShutdownStep::Finished);
}

#[test]
fn shutdown_waits_for_block_shutdown_task() {
    let mut tracker = TaskTracker::new();
    let traits = traits_with(TaskShutdownBehavior::BlockShutdown);
    tracker.before_run_task(&traits);

    // shutdown() has to wait until after_run_task is called.
    assert_eq!(tracker.shutdown(), ShutdownStep::Wait);

    let wake_up = tracker.after_run_task(&traits_with(TaskShutdownBehavior::BlockShutdown));
    assert_eq!(wake_up, WakeUp::NotifyAll);

    // The woken thread checks again.
    assert_eq!(tracker.shutdown(), ShutdownStep::Finished);
}

#[test]
fn default_traits() {
    let traits = TaskTraits::default();
    assert_eq!(traits.priority, TaskPriority::UserVisible);
    assert_eq!(traits.shutdown_behavior, TaskShutdownBehavior::SkipOnShutdown);
    assert_eq!(traits.thread_policy, ThreadPolicy::PreferBackground);
    assert!(!traits.may_block);
}

#[test]
fn shutdown_is_started_for_good() {
    let mut tracker = TaskTracker::new();
    assert!(!tracker.is_shutdown_started());
    tracker.shutdown();
    assert!(tracker.is_shutdown_started());
    tracker.shutdown();
    let traits = traits_with(TaskShutdownBehavior::BlockShutdown);
    tracker.before_run_task(&traits);
    tracker.after_run_task(&traits);
    assert!(tracker.is_shutdown_started());
}

#[test]
fn only_the_last_blocking_task_wakes_the_waiters() {
    let mut tracker = TaskTracker::new();
    let traits = traits_with(TaskShutdownBehavior::BlockShutdown);
    tracker.before_run_task(&traits);
    tracker.before_run_task(&traits);
    tracker.before_run_task(&traits);
    assert_eq!(tracker.shutdown(), ShutdownStep::Wait);
    assert_eq!(tracker.after_run_task(&traits), WakeUp::Nobody);
    assert_eq!(tracker.shutdown(), ShutdownStep::Wait);
    assert_eq!(tracker.after_run_task(&traits), WakeUp::Nobody);
    assert_eq!(tracker.after_run_task(&traits), WakeUp::NotifyAll);
    assert_eq!(tracker.shutdown(), ShutdownStep::Finished);
}

#[test]
fn other_tasks_never_delay_shutdown() {
    let mut tracker = TaskTracker::new();
    for behavior in [TaskShutdownBehavior::ContinueOnShutdown, TaskShutdownBehavior::SkipOnShutdown] {
        let traits = traits_with(behavior);
        tracker.before_run_task(&traits);
        assert_eq!(tracker.shutdown(), ShutdownStep::Finished);
        assert_eq!(tracker.after_run_task(&traits), WakeUp::Nobody);
        assert_eq!(tracker.shutdown(), ShutdownStep::Finished);
    }
}

#[test]
fn unmatched_finish_wraps_the_counter() {
    let mut tracker = TaskTracker::new();
    let traits = traits_with(TaskShutdownBehavior::BlockShutdown);
    assert_eq!(tracker.after_run_task(&traits), WakeUp::Nobody);
    assert_eq!(tracker.shutdown(), ShutdownStep::Wait);
    tracker.before_run_task(&traits);
    assert_eq!(tracker.shutdown(), ShutdownStep::Finished);
}

//! What holds of a [`TaskTracker`](crate::thread_pool::task_tracker::TaskTracker)
//! over a whole history of calls.

use vstd::prelude::*;
use crate::task_traits::{TaskShutdownBehavior, TaskTraits};
use crate::thread_pool::task_tracker::{ShutdownStep, TaskTracker, TrackerState, WakeUp};

verus! {

/// A call that changes a tracker.
pub enum TrackerEvent {
    BeforeRun(TaskTraits),
    AfterRun(TaskTraits),
    /// A request to shut down, or a renewed check by a woken thread.
    Shutdown,
}

impl TrackerEvent {
    /// The state after this call.
    pub open spec fn apply(self, s: TrackerState) -> TrackerState {
        match self {
            TrackerEvent::BeforeRun(traits) => s.before_run(traits),
            TrackerEvent::AfterRun(traits) => s.after_run(traits),
            TrackerEvent::Shutdown => s.shutting_down(),
        }
    }

    /// A `BlockShutdown` task starts.
    pub open spec fn starts_blocking_task(self) -> bool {
        self matches TrackerEvent::BeforeRun(traits) && traits.shutdown_behavior
            == TaskShutdownBehavior::BlockShutdown
    }

    /// A `BlockShutdown` task finishes.
    pub open spec fn finishes_blocking_task(self) -> bool {
        self matches TrackerEvent::AfterRun(traits) && traits.shutdown_behavior
            == TaskShutdownBehavior::BlockShutdown
    }

    /// This call, made in state `s`, answers that waiting threads must be woken.
    pub open spec fn notifies(self, s: TrackerState) -> bool {
        self matches TrackerEvent::AfterRun(traits) && s.last_to_finish(traits)
    }
}

/// The state of a new tracker after the calls of `history`, oldest first.
pub open spec fn state_after(history: Seq<TrackerEvent>) -> TrackerState
    decreases history.len(),
{
    if history.len() == 0 {
        TrackerState::initial()
    } else {
        history.last().apply(state_after(history.drop_last()))
    }
}

/// The state of a new tracker after the first `n` calls of `history`.
pub open spec fn state_at(history: Seq<TrackerEvent>, n: int) -> TrackerState {
    state_after(history.take(n))
}

/// How many `BlockShutdown` tasks have started.
pub open spec fn started(history: Seq<TrackerEvent>) -> nat
    decreases history.len(),
{
    if history.len() == 0 {
        0
    } else {
        started(history.drop_last()) + if history.last().starts_blocking_task() {
            1nat
        } else {
            0
        }
    }
}

/// How many `BlockShutdown` tasks have finished.
pub open spec fn finished(history: Seq<TrackerEvent>) -> nat
    decreases history.len(),
{
    if history.len() == 0 {
        0
    } else {
        finished(history.drop_last()) + if history.last().finishes_blocking_task() {
            1nat
        } else {
            0
        }
    }
}

/// At no time have more `BlockShutdown` tasks finished than started, nor do
/// more of them run than the counter can hold.
pub open spec fn well_paired(history: Seq<TrackerEvent>) -> bool {
    forall|n: int|
        0 <= n <= history.len() ==> {
            let past = #[trigger] history.take(n);
            finished(past) <= started(past) <= finished(past) + usize::MAX
        }
}

/// Shutdown has been requested.
pub open spec fn shutdown_requested(history: Seq<TrackerEvent>) -> bool {
    exists|i: int| 0 <= i < history.len() && history[i] is Shutdown
}

/// One more call takes `state_at` one step further.
proof fn lemma_state_at_step(history: Seq<TrackerEvent>, n: int)
    requires
        0 <= n < history.len(),
    ensures
        state_at(history, n + 1) == history[n].apply(state_at(history, n)),
{
    assert(history.take(n + 1).drop_last() =~= history.take(n));
}

/// What has happened so far in a well-paired history is itself well paired.
proof fn lemma_prefix_is_well_paired(history: Seq<TrackerEvent>, n: int)
    requires
        well_paired(history),
        0 <= n <= history.len(),
    ensures
        well_paired(history.take(n)),
{
    let past = history.take(n);
    assert forall|m: int| 0 <= m <= past.len() implies {
        let p = #[trigger] past.take(m);
        finished(p) <= started(p) <= finished(p) + usize::MAX
    } by {
        assert(past.take(m) =~= history.take(m));
    }
}

/// Shutdown counts as started exactly from the first request on.
pub proof fn law_started_iff_requested(history: Seq<TrackerEvent>)
    ensures
        state_after(history).shutdown_started == shutdown_requested(history),
    decreases history.len(),
{
    if history.len() > 0 {
        let past = history.drop_last();
        law_started_iff_requested(past);
        if shutdown_requested(past) {
            let i = choose|i: int| 0 <= i < past.len() && past[i] is Shutdown;
            assert(history[i] is Shutdown);
        }
        if shutdown_requested(history) && !(history.last() is Shutdown) {
            let i = choose|i: int| 0 <= i < history.len() && history[i] is Shutdown;
            assert(past[i] is Shutdown);
        }
    }
}

/// Shutdown is never revoked: what was started at one time is started at every
/// later time.
pub proof fn law_shutdown_is_permanent(history: Seq<TrackerEvent>, i: int, j: int)
    requires
        0 <= i <= j <= history.len(),
        state_at(history, i).shutdown_started,
    ensures
        state_at(history, j).shutdown_started,
    decreases j - i,
{
    if i < j {
        law_shutdown_is_permanent(history, i, j - 1);
        lemma_state_at_step(history, j - 1);
    }
}

/// Every task is accepted until shutdown is requested; from then on exactly the
/// `ContinueOnShutdown` tasks are.
pub proof fn law_acceptance(history: Seq<TrackerEvent>, traits: TaskTraits)
    ensures
        state_after(history).accepts(traits) <==> (!shutdown_requested(history)
            || traits.shutdown_behavior == TaskShutdownBehavior::ContinueOnShutdown),
{
    law_started_iff_requested(history);
}

/// The counter is the number of `BlockShutdown` tasks that have started and not
/// yet finished.
pub proof fn law_count_is_running_tasks(history: Seq<TrackerEvent>)
    requires
        well_paired(history),
    ensures
        state_after(history).num_tasks_blocking_shutdown == started(history) - finished(history),
    decreases history.len(),
{
    assert(history.take(history.len() as int) =~= history);
    if history.len() > 0 {
        let past = history.drop_last();
        assert(history.take(past.len() as int) =~= past);
        lemma_prefix_is_well_paired(history, past.len() as int);
        law_count_is_running_tasks(past);
    }
}

/// A request to shut down is answered `Finished` exactly when every
/// `BlockShutdown` task that has started has also finished.
pub proof fn law_shutdown_waits_for_all_blocking_tasks(history: Seq<TrackerEvent>)
    requires
        well_paired(history),
    ensures
        state_after(history).quiescent() <==> started(history) == finished(history),
{
    law_count_is_running_tasks(history);
}

/// Only `BlockShutdown` tasks concern shutdown: starting or finishing any other
/// task changes nothing and wakes nobody.
pub proof fn law_other_tasks_never_delay_shutdown(s: TrackerState, traits: TaskTraits)
    requires
        traits.shutdown_behavior != TaskShutdownBehavior::BlockShutdown,
    ensures
        s.before_run(traits) == s,
        s.after_run(traits) == s,
        !s.last_to_finish(traits),
{
}

/// Finishing a task undoes what starting it did.
pub proof fn law_after_run_undoes_before_run(s: TrackerState, traits: TaskTraits)
    requires
        s.num_tasks_blocking_shutdown <= usize::MAX,
    ensures
        s.before_run(traits).after_run(traits) == s,
{
}

/// Asking again to shut down changes nothing.
pub proof fn law_shutdown_is_idempotent(s: TrackerState)
    ensures
        s.shutting_down().shutting_down() == s.shutting_down(),
        s.shutting_down().quiescent() == s.quiescent(),
{
}

/// A wake-up is never in vain: the call that answers `NotifyAll` leaves no
/// `BlockShutdown` task running, so a woken thread that checks before another
/// one starts is told that shutdown has finished.
pub proof fn law_wake_up_means_quiescent(s: TrackerState, event: TrackerEvent)
    requires
        event.notifies(s),
    ensures
        event.apply(s).quiescent(),
        event.apply(s).shutting_down().quiescent(),
{
}

/// No wake-up is lost: between a request to shut down that is told to wait and
/// any later time at which no `BlockShutdown` task runs, some call answers that
/// waiting threads must be woken.
pub proof fn law_no_lost_wake_up(history: Seq<TrackerEvent>, i: int, j: int)
    requires
        well_paired(history),
        0 <= i < j <= history.len(),
        history[i] is Shutdown,
        !state_at(history, i).quiescent(),
        state_at(history, j).quiescent(),
    ensures
        exists|k: int|
            i < k < j && (#[trigger] history[k]).notifies(state_at(history, k)),
    decreases j - i,
{
    lemma_state_at_step(history, j - 1);
    assert(i < j - 1);
    let before = state_at(history, j - 1);
    let past = history.take(j - 1);
    lemma_prefix_is_well_paired(history, j - 1);
    law_count_is_running_tasks(past);
    if before.quiescent() {
        law_no_lost_wake_up(history, i, j - 1);
        let k = choose|k: int|
            i < k < j - 1 && (#[trigger] history[k]).notifies(state_at(history, k));
        assert(history[k].notifies(state_at(history, k)));
    } else {
        let now = history.take(j);
        assert(now.drop_last() =~= past);
        assert(finished(now) <= started(now) <= finished(now) + usize::MAX);
        assert(history[j - 1].notifies(before));
    }
}

/// Starting a task undoes what finishing it did.
pub proof fn law_before_run_undoes_after_run(s: TrackerState, traits: TaskTraits)
    requires
        s.num_tasks_blocking_shutdown <= usize::MAX,
    ensures
        s.after_run(traits).before_run(traits) == s,
{
}

/// Waiting threads are woken whenever a `BlockShutdown` task finishes and leaves
/// none running, and at no other time.
pub proof fn law_woken_exactly_by_the_last_task(history: Seq<TrackerEvent>, event: TrackerEvent)
    requires
        well_paired(history.push(event)),
    ensures
        event.notifies(state_after(history)) <==> {
            &&& event.finishes_blocking_task()
            &&& started(history.push(event)) == finished(history.push(event))
        },
{
    let longer = history.push(event);
    assert(longer.drop_last() =~= history);
    assert(longer.take(history.len() as int) =~= history);
    lemma_prefix_is_well_paired(longer, history.len() as int);
    law_count_is_running_tasks(history);
}

// ── The calls ────────────────────────────────────────────────────────────────
//
// A tracker with some history is one whose state is that of a new tracker after
// the calls of the history.

/// Every function of a tracker can be called at any time.
pub proof fn law_calls_are_for_every_state(tracker: TaskTracker, traits: TaskTraits)
    ensures
        call_requires(TaskTracker::new, ()),
        call_requires(TaskTracker::will_post_task, (&tracker, &traits)),
        call_requires(TaskTracker::is_shutdown_started, (&tracker,)),
        forall|t: &mut TaskTracker| #[trigger]
            call_requires(TaskTracker::before_run_task, (t, &traits)),
        forall|t: &mut TaskTracker| #[trigger]
            call_requires(TaskTracker::after_run_task, (t, &traits)),
        forall|t: &mut TaskTracker| #[trigger] call_requires(TaskTracker::shutdown, (t,)),
{
}

/// A new tracker has no history.
pub proof fn law_new_tracker(tracker: TaskTracker)
    requires
        call_ensures(TaskTracker::new, (), tracker),
    ensures
        tracker@ == state_after(Seq::empty()),
{
}

/// A task may be posted exactly if shutdown has not been requested or the task is
/// one that continues on shutdown.
pub proof fn law_will_post_task_call(
    history: Seq<TrackerEvent>,
    tracker: TaskTracker,
    traits: TaskTraits,
    accepted: bool,
)
    requires
        tracker@ == state_after(history),
        call_ensures(TaskTracker::will_post_task, (&tracker, &traits), accepted),
    ensures
        accepted <==> (traits.shutdown_behavior is ContinueOnShutdown || forall|i: int|
            0 <= i < history.len() ==> !(#[trigger] history[i] is Shutdown)),
{
    law_acceptance(history, traits);
}

/// Shutdown has started exactly if it has been requested.
pub proof fn law_is_shutdown_started_call(
    history: Seq<TrackerEvent>,
    tracker: TaskTracker,
    started: bool,
)
    requires
        tracker@ == state_after(history),
        call_ensures(TaskTracker::is_shutdown_started, (&tracker,), started),
    ensures
        started <==> exists|i: int| 0 <= i < history.len() && #[trigger] history[i] is Shutdown,
{
    law_started_iff_requested(history);
}

/// Announcing that a task starts adds that to the history.
pub proof fn law_before_run_task_call(history: Seq<TrackerEvent>, traits: TaskTraits)
    ensures
        forall|tracker: &mut TaskTracker|
            (*tracker)@ == state_after(history) && #[trigger] call_ensures(
                TaskTracker::before_run_task,
                (tracker, &traits),
                (),
            ) ==> final(tracker)@ == state_after(history.push(TrackerEvent::BeforeRun(traits))),
{
    assert(history.push(TrackerEvent::BeforeRun(traits)).drop_last() =~= history);
}

/// Announcing that a task has finished adds that to the history, and is answered
/// that waiting threads must be woken exactly if it was a `BlockShutdown` task
/// and no other one is left running.
pub proof fn law_after_run_task_call(
    history: Seq<TrackerEvent>,
    traits: TaskTraits,
    wake_up: WakeUp,
)
    requires
        well_paired(history.push(TrackerEvent::AfterRun(traits))),
    ensures
        forall|tracker: &mut TaskTracker|
            (*tracker)@ == state_after(history) && #[trigger] call_ensures(
                TaskTracker::after_run_task,
                (tracker, &traits),
                wake_up,
            ) ==> {
                let longer = history.push(TrackerEvent::AfterRun(traits));
                &&& final(tracker)@ == state_after(longer)
                &&& wake_up is NotifyAll <==> traits.shutdown_behavior is BlockShutdown && started(
                    longer,
                ) == finished(longer)
            },
{
    let event = TrackerEvent::AfterRun(traits);
    assert(history.push(event).drop_last() =~= history);
    law_woken_exactly_by_the_last_task(history, event);
}

/// A request to shut down adds itself to the history, and is answered that
/// shutdown is complete exactly if every `BlockShutdown` task that has started
/// has finished.
pub proof fn law_shutdown_call(history: Seq<TrackerEvent>, step: ShutdownStep)
    requires
        well_paired(history),
    ensures
        forall|tracker: &mut TaskTracker|
            (*tracker)@ == state_after(history) && #[trigger] call_ensures(
                TaskTracker::shutdown,
                (tracker,),
                step,
            ) ==> {
                &&& final(tracker)@ == state_after(history.push(TrackerEvent::Shutdown))
                &&& step is Finished <==> started(history) == finished(history)
            },
{
    assert(history.push(TrackerEvent::Shutdown).drop_last() =~= history);
    law_shutdown_waits_for_all_blocking_tasks(history);
}

/// A task with the default traits may be posted exactly until shutdown is
/// requested, and shutdown never waits for it. It is of middling urgency, runs in
/// the background if it can, and does not block.
pub proof fn law_default_task(history: Seq<TrackerEvent>, traits: TaskTraits)
    requires
        call_ensures(<TaskTraits as Default>::default, (), traits),
    ensures
        !(traits.priority is BestEffort),
        !(traits.priority is UserBlocking),
        !(traits.thread_policy is MustUseForeground),
        !traits.may_block,
        state_after(history).accepts(traits) <==> !shutdown_requested(history),
        state_after(history.push(TrackerEvent::BeforeRun(traits))) == state_after(history),
        state_after(history.push(TrackerEvent::AfterRun(traits))) == state_after(history),
{
    assert(history.push(TrackerEvent::BeforeRun(traits)).drop_last() =~= history);
    assert(history.push(TrackerEvent::AfterRun(traits)).drop_last() =~= history);
    law_acceptance(history, traits);
}

} // verus!

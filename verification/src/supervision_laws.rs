//! What holds of every supervisor, whatever its children do.

use vstd::prelude::*;

use crate::restart_window;
use crate::supervision;
use crate::supervision::{Action, SupervisionState, SupervisorEvent, SupervisorExit};
use crate::supervisor;
use crate::supervisor::{ChildSpec, ExitReason, Restart, RestartPolicy, SupervisorSpec};

verus! {

/// Whether an instance of the child of `slot` has been started and does not
/// stand for that child any more.
pub open spec fn retired(state: SupervisionState, slot: int, instance: u64) -> bool {
    &&& 0 <= slot < state.running.len()
    &&& instance < state.next_instance
    &&& state.running[slot] != Some(instance)
}

/// Whether the state is one in which [`supervision::Supervision::step`] may be asked about `event`.
pub open spec fn can_step(state: SupervisionState, event: SupervisorEvent) -> bool {
    &&& state.valid()
    &&& state.has_room()
    &&& state.running.len() <= usize::MAX
    &&& supervision::has_slot(state, event)
}

/// The instances that run, each with its slot.
pub open spec fn running_set(state: SupervisionState) -> Set<(usize, u64)> {
    Set::new(
        |p: (usize, u64)| p.0 < state.running.len() && state.running[p.0 as int] == Some(p.1),
    )
}

/// The tasks that are alive once `actions` have been carried out.
pub open spec fn alive_after(alive: Set<(usize, u64)>, actions: Seq<Action>) -> Set<(usize, u64)>
    decreases actions.len(),
{
    if actions.len() == 0 {
        alive
    } else {
        let before = alive_after(alive, actions.drop_last());
        match actions.last() {
            Action::Spawn { slot, instance } => before.insert((slot, instance)),
            Action::Abort { slot, instance } => before.remove((slot, instance)),
        }
    }
}

/// The task whose end `event` reports is alive no more.
pub open spec fn alive_without(alive: Set<(usize, u64)>, event: SupervisorEvent) -> Set<
    (usize, u64),
> {
    match event {
        SupervisorEvent::Exited { slot, instance, .. } => alive.remove((slot, instance)),
        SupervisorEvent::ForwarderFailed => alive,
        SupervisorEvent::Drained => alive,
    }
}

/// The tasks that `actions` start.
pub open spec fn spawned(actions: Seq<Action>) -> Set<(usize, u64)> {
    Set::new(
        |p: (usize, u64)| actions.contains(Action::Spawn { slot: p.0, instance: p.1 }),
    )
}

proof fn lemma_alive_concat(alive: Set<(usize, u64)>, a: Seq<Action>, b: Seq<Action>)
    ensures
        alive_after(alive, a + b) == alive_after(alive_after(alive, a), b),
    decreases b.len(),
{
    if b.len() == 0 {
        assert(a + b =~= a);
    } else {
        lemma_alive_concat(alive, a, b.drop_last());
        assert((a + b).drop_last() =~= a + b.drop_last());
    }
}

/// What restarts the slots of `state` from `first` to `end`.
spec fn restart_of(state: SupervisionState, first: int, end: int) -> Seq<Action> {
    supervision::restart_actions(state.policies, state.running, first, end, state.next_instance)
}

proof fn lemma_alive_restart(state: SupervisionState, first: int, end: int)
    requires
        state.valid(),
        0 <= first <= end <= state.running.len(),
        state.running.len() <= usize::MAX,
        state.next_instance + (end - first) <= u64::MAX,
    ensures
        alive_after(running_set(state), restart_of(state, first, end))
            == running_set(state.restarted(first, end)),
    decreases end - first,
{
    if end == first {
        assert(state.restarted(first, end) =~= state);
    } else {
        let i = end - 1;
        lemma_alive_restart(state, first, i);
        supervision::lemma_restartable(state.policies, first, i, i);
        let before = restart_of(state, first, i);
        let instance = state.next_instance + supervision::restartable(state.policies, first, i);
        let last = supervision::replacement(i, state.policies[i], state.running[i], instance);
        lemma_alive_concat(running_set(state), before, last);
        reveal_with_fuel(alive_after, 3);
        let mid = running_set(state.restarted(first, i));
        assert(alive_after(mid, last) =~= running_set(state.restarted(first, end)));
    }
}

proof fn lemma_alive_start(state: SupervisionState, end: int)
    requires
        0 <= end <= state.running.len(),
        state.running.len() <= usize::MAX,
        state.next_instance == 0,
        forall|i: int| 0 <= i < state.running.len() ==> state.running[i] is None,
    ensures
        alive_after(Set::empty(), start_actions(end as nat)) == running_set(state.started(0, end)),
    decreases end,
{
    if end == 0 {
        assert(running_set(state.started(0, end)) =~= Set::empty());
    } else {
        lemma_alive_start(state, end - 1);
        assert(start_actions(end as nat).drop_last() =~= start_actions((end - 1) as nat));
        assert(alive_after(Set::empty(), start_actions(end as nat)) =~= running_set(
            state.started(0, end),
        ));
    }
}

/// What starts the first `count` children of a supervisor, in order.
pub open spec fn start_actions(count: nat) -> Seq<Action> {
    Seq::new(count, |i: int| Action::Spawn { slot: i as usize, instance: i as u64 })
}

proof fn lemma_alive_abort(state: SupervisionState, end: int)
    requires
        0 <= end <= state.running.len(),
        state.running.len() <= usize::MAX,
    ensures
        alive_after(running_set(state), supervision::abort_actions(state.running, end))
            == running_set(state).filter(|p: (usize, u64)| p.0 >= end),
    decreases end,
{
    if end == 0 {
        assert(running_set(state).filter(|p: (usize, u64)| p.0 >= end) =~= running_set(state));
    } else {
        lemma_alive_abort(state, end - 1);
        let actions = supervision::abort_actions(state.running, end);
        if state.running[end - 1] is Some {
            assert(actions.drop_last() =~= supervision::abort_actions(state.running, end - 1));
        }
        assert(alive_after(running_set(state), actions) =~= running_set(state).filter(
            |p: (usize, u64)| p.0 >= end,
        ));
    }
}

/// The supervisor's books match the tasks: if the tasks that are alive before
/// an event are those that the supervisor counts as running, then so they are
/// once it has reacted. So no task is lost, and no child ever runs twice.
pub proof fn law_books_match_tasks(state: SupervisionState, event: SupervisorEvent, now: u128)
    requires
        can_step(state, event),
    ensures
        ({
            let step = supervision::step_model(state, event, now);
            alive_after(alive_without(running_set(state), event), step.actions) == running_set(
                step.state,
            )
        }),
{
    if let SupervisorEvent::Exited { slot, instance, reason } = event {
        let i = slot as int;
        let step = supervision::step_model(state, event, now);
        if state.running[i] != Some(instance) {
            assert(running_set(state).remove((slot, instance)) =~= running_set(state));
        } else {
            let stopped = state.stopped(i);
            assert(running_set(state).remove((slot, instance)) =~= running_set(stopped));
            let history = restart_window::recorded(state.history, now, state.within);
            if !supervisor::sets_off_restart(state.policies[i], reason) {
            } else if history.len() > state.max_restarts {
                lemma_alive_abort(stopped, state.running.len() as int);
                assert(running_set(stopped).filter(
                    |p: (usize, u64)| p.0 >= state.running.len(),
                ) =~= running_set(step.state));
            } else {
                let first = supervisor::first_affected(state.strategy, i);
                let end = supervisor::end_affected(state.strategy, i, state.running.len() as int);
                lemma_alive_restart(stopped, first, end);
                assert(running_set(stopped.restarted(first, end)) =~= running_set(step.state));
            }
        }
    }
}

/// Once a supervisor has started its children, the tasks that are alive are
/// those that it counts as running, one for each child.
pub proof fn law_books_match_tasks_at_start<F>(
    spec: SupervisorSpec,
    children: Seq<ChildSpec<F>>,
    i: int,
)
    requires
        children.len() <= usize::MAX,
        0 <= i < children.len(),
    ensures
        ({
            let count = children.len();
            let started = supervision::initial(spec, children).started(0, count as int);
            &&& alive_after(Set::empty(), start_actions(count)) == running_set(started)
            &&& started.running[i] is Some
        }),
{
    lemma_alive_start(supervision::initial(spec, children), children.len() as int);
}

proof fn lemma_restart_contains(state: SupervisionState, first: int, end: int, action: Action)
    requires
        0 <= first <= end <= state.running.len(),
        state.running.len() <= usize::MAX,
        0 <= state.next_instance,
        state.next_instance + (end - first) <= u64::MAX,
    ensures
        restart_of(state, first, end).contains(action) <==> match action {
            Action::Spawn { slot, instance } => first <= slot < end && state.policies[slot as int]
                != RestartPolicy::Temporary && instance == state.next_instance + supervision::restartable(
                state.policies,
                first,
                slot as int,
            ),
            Action::Abort { slot, instance } => first <= slot < end && state.running[slot as int]
                == Some(instance),
        },
    decreases end - first,
{
    if first < end {
        let i = end - 1;
        lemma_restart_contains(state, first, i, action);
        supervision::lemma_restartable(state.policies, first, i, i);
        let before = restart_of(state, first, i);
        let instance = state.next_instance + supervision::restartable(state.policies, first, i);
        let last = supervision::replacement(i, state.policies[i], state.running[i], instance);
        let all = before + last;
        assert(all.contains(action) <==> before.contains(action) || last.contains(action)) by {
            if before.contains(action) {
                let k = before.index_of(action);
                assert(all[k] == action);
            }
            if last.contains(action) {
                let k = last.index_of(action);
                assert(all[before.len() + k] == action);
            }
        }
        if state.policies[i] != RestartPolicy::Temporary {
            assert(last[last.len() - 1] == (Action::Spawn {
                slot: i as usize,
                instance: instance as u64,
            }));
        }
        if state.running[i] is Some {
            assert(last[0] == (Action::Abort { slot: i as usize, instance: state.running[i]->0 }));
        }
    }
}

proof fn lemma_abort_contains(running: Seq<Option<u64>>, end: int, action: Action)
    requires
        0 <= end <= running.len(),
        running.len() <= usize::MAX,
    ensures
        supervision::abort_actions(running, end).contains(action) <==> (action matches Action::Abort {
            slot,
            instance,
        } && slot < end && running[slot as int] == Some(instance)),
    decreases end,
{
    if end > 0 {
        lemma_abort_contains(running, end - 1, action);
        let before = supervision::abort_actions(running, end - 1);
        if let Some(a) = running[end - 1] {
            let last = Action::Abort { slot: (end - 1) as usize, instance: a };
            let all = before.push(last);
            assert(all[before.len() as int] == last);
            if before.contains(action) {
                let k = before.index_of(action);
                assert(all[k] == action);
            }
        }
    }
}

/// An instance whose end has been reported, or that the supervisor aborts, is
/// retired by that step.
pub proof fn law_ended_instances_retire(
    state: SupervisionState,
    event: SupervisorEvent,
    now: u128,
    slot: usize,
    instance: u64,
)
    requires
        can_step(state, event),
        slot < state.running.len(),
        instance < state.next_instance,
        (event matches SupervisorEvent::Exited { slot: s, instance: a, .. } && s == slot && a
            == instance) || supervision::step_model(state, event, now).actions.contains(
            Action::Abort { slot, instance },
        ),
    ensures
        retired(supervision::step_model(state, event, now).state, slot as int, instance),
{
    if let SupervisorEvent::Exited { slot: s, instance: a, reason } = event {
        let i = s as int;
        let abort = Action::Abort { slot, instance };
        let stopped = state.stopped(i);
        let first = supervisor::first_affected(state.strategy, i);
        let end = supervisor::end_affected(state.strategy, i, state.running.len() as int);
        lemma_restart_contains(stopped, first, end, abort);
        lemma_abort_contains(stopped.running, state.running.len() as int, abort);
        lemma_restart_numbers(state, s, slot as int);
    }
}

/// A retired instance stays retired, whatever happens.
pub proof fn law_retired_stays_retired(
    state: SupervisionState,
    event: SupervisorEvent,
    now: u128,
    slot: int,
    instance: u64,
)
    requires
        can_step(state, event),
        retired(state, slot, instance),
    ensures
        retired(supervision::step_model(state, event, now).state, slot, instance),
{
    lemma_step_instances(state, event, now, slot);
}

/// A report from a retired instance, whatever its reason, changes nothing: a
/// child that was aborted to be restarted is not restarted a second time.
pub proof fn law_retired_report_is_ignored(
    state: SupervisionState,
    slot: usize,
    instance: u64,
    reason: ExitReason,
    now: u128,
)
    requires
        retired(state, slot as int, instance),
    ensures
        supervision::step_model(state, SupervisorEvent::Exited { slot, instance, reason }, now)
            == supervision::ignored(state),
{
}

/// A report from an instance that does not run in its slot, be it an old one or
/// one that never was, changes nothing, asks for nothing and ends nothing.
pub proof fn law_report_of_no_running_instance_changes_nothing(
    state: SupervisionState,
    slot: usize,
    instance: u64,
    reason: ExitReason,
    now: u128,
)
    requires
        slot < state.running.len(),
        state.running[slot as int] != Some(instance),
    ensures
        ({
            let step = supervision::step_model(
                state,
                SupervisorEvent::Exited { slot, instance, reason },
                now,
            );
            &&& step.state == state
            &&& step.actions.len() == 0
            &&& step.exit is None
        }),
{
}

/// Only the report of a child's end changes anything. A forwarder that failed
/// makes the supervisor escalate; a supervisor with no report outstanding
/// finishes exactly when no child runs.
pub proof fn law_other_events(state: SupervisionState, event: SupervisorEvent, now: u128)
    requires
        !(event is Exited),
    ensures
        ({
            let step = supervision::step_model(state, event, now);
            &&& step.state == state
            &&& step.actions.len() == 0
            &&& event is ForwarderFailed ==> step.exit == Some(SupervisorExit::Escalated)
            &&& event is Drained ==> {
                &&& step.exit is None || step.exit == Some(SupervisorExit::Finished)
                &&& step.exit is None <==> exists|i: int|
                    0 <= i < state.running.len() && #[trigger] state.running[i] is Some
            }
        }),
{
}

/// No event touches the configuration: strategy, limit, window, policies and
/// the number of children stay.
pub proof fn law_configuration_stays(state: SupervisionState, event: SupervisorEvent, now: u128)
    requires
        event matches SupervisorEvent::Exited { slot, .. } ==> slot < state.running.len(),
    ensures
        ({
            let after = supervision::step_model(state, event, now).state;
            &&& after.strategy == state.strategy
            &&& after.max_restarts == state.max_restarts
            &&& after.within == state.within
            &&& after.policies == state.policies
            &&& after.running.len() == state.running.len()
        }),
{
}

/// What the end of a running child leads to depends on why it ended, on its
/// policy and on how many restarts lie less than the length of the window back.
/// A normal end, or the end of a temporary child, is left at that. A failure is
/// counted; with it the supervisor escalates exactly when the restarts in the
/// window are more than the limit.
pub proof fn law_end_of_a_child(
    state: SupervisionState,
    slot: usize,
    instance: u64,
    reason: ExitReason,
    now: u128,
)
    requires
        slot < state.running.len(),
        state.running[slot as int] == Some(instance),
    ensures
        ({
            let step = supervision::step_model(
                state,
                SupervisorEvent::Exited { slot, instance, reason },
                now,
            );
            let left = reason is Normal || state.policies[slot as int] is Temporary;
            let recent = state.history.filter(
                |t: u128|
                    (t <= now && now - t < state.within) || (t > now && 0 < state.within),
            );
            &&& left ==> {
                &&& step.exit is None
                &&& step.actions.len() == 0
                &&& step.state.running == state.running.update(slot as int, None)
                &&& step.state.history == state.history
                &&& step.state.next_instance == state.next_instance
            }
            &&& !left ==> {
                &&& step.exit == if recent.len() + 1 > state.max_restarts {
                    Some(SupervisorExit::Escalated)
                } else {
                    None
                }
                &&& step.state.history == recent.push(now)
            }
        }),
{
    assert((|t: u128| (t <= now && now - t < state.within) || (t > now && 0 < state.within)) =~= (
    |t: u128| restart_window::age(t, now) < state.within));
}

/// A restart asks for exactly this: every running child that the strategy names
/// is aborted, as the instance that runs, except the failed one, which has
/// ended; and every child that the strategy names, unless it is temporary, is
/// spawned, as the instance that runs in its slot afterwards. No other child is
/// touched; under one-for-one every action is about the failed child.
pub proof fn law_restart_touches_exactly_the_named_children(
    state: SupervisionState,
    slot: usize,
    instance: u64,
    reason: ExitReason,
    now: u128,
    action: Action,
)
    requires
        state.valid(),
        state.next_instance + state.running.len() <= u64::MAX,
        state.running.len() <= usize::MAX,
        slot < state.running.len(),
        state.running[slot as int] == Some(instance),
        !(reason is Normal),
        !(state.policies[slot as int] is Temporary),
        supervision::step_model(
            state,
            SupervisorEvent::Exited { slot, instance, reason },
            now,
        ).exit is None,
    ensures
        ({
            let step = supervision::step_model(
                state,
                SupervisorEvent::Exited { slot, instance, reason },
                now,
            );
            let s = match action {
                Action::Spawn { slot, .. } => slot,
                Action::Abort { slot, .. } => slot,
            };
            let named = s < state.running.len() && match state.strategy {
                Restart::OneForOne => s == slot,
                Restart::RestForOne => s >= slot,
                Restart::OneForAll => true,
            };
            &&& step.actions.contains(action) <==> match action {
                Action::Abort { instance: a, .. } => named && s != slot
                    && state.running[s as int] == Some(a),
                Action::Spawn { instance: a, .. } => named && !(
                state.policies[s as int] is Temporary) && step.state.running[s as int] == Some(a),
            }
            &&& step.actions.contains(action) && state.strategy is OneForOne ==> s == slot
                && action is Spawn
        }),
{
    let stopped = state.stopped(slot as int);
    let first = supervisor::first_affected(state.strategy, slot as int);
    let end = supervisor::end_affected(state.strategy, slot as int, state.running.len() as int);
    lemma_restart_contains(stopped, first, end, action);
    let s = slot_of(action);
    lemma_restart_numbers(state, slot, s as int);
}

/// Whichever event comes, an action only ever aborts an instance that runs and
/// whose end has not just been reported.
pub proof fn law_only_running_instances_are_aborted(
    state: SupervisionState,
    event: SupervisorEvent,
    now: u128,
    slot: usize,
    instance: u64,
)
    requires
        can_step(state, event),
        supervision::step_model(state, event, now).actions.contains(
            Action::Abort { slot, instance },
        ),
    ensures
        slot < state.running.len(),
        state.running[slot as int] == Some(instance),
        event matches SupervisorEvent::Exited { slot: s, .. } && s != slot,
{
    let abort = Action::Abort { slot, instance };
    if let SupervisorEvent::Exited { slot: s, instance: a, reason } = event {
        let i = s as int;
        let stopped = state.stopped(i);
        let first = supervisor::first_affected(state.strategy, i);
        let end = supervisor::end_affected(state.strategy, i, state.running.len() as int);
        lemma_restart_contains(stopped, first, end, abort);
        lemma_abort_contains(stopped.running, state.running.len() as int, abort);
    }
}

/// Whichever event comes, a child is only ever started as an instance that is
/// new and that then runs in its slot.
pub proof fn law_only_new_instances_are_spawned(
    state: SupervisionState,
    event: SupervisorEvent,
    now: u128,
    slot: usize,
    instance: u64,
)
    requires
        can_step(state, event),
        supervision::step_model(state, event, now).actions.contains(
            Action::Spawn { slot, instance },
        ),
    ensures
        slot < state.running.len(),
        state.next_instance <= instance < supervision::step_model(
            state,
            event,
            now,
        ).state.next_instance,
        supervision::step_model(state, event, now).state.running[slot as int] == Some(instance),
{
    let spawn = Action::Spawn { slot, instance };
    if let SupervisorEvent::Exited { slot: s, instance: a, reason } = event {
        let i = s as int;
        let stopped = state.stopped(i);
        let first = supervisor::first_affected(state.strategy, i);
        let end = supervisor::end_affected(state.strategy, i, state.running.len() as int);
        lemma_restart_contains(stopped, first, end, spawn);
        lemma_abort_contains(stopped.running, state.running.len() as int, spawn);
        lemma_restart_numbers(state, s, slot as int);
        if first <= slot < end {
            supervision::lemma_restartable(state.policies, first, slot as int, end);
        }
    }
}

/// Actions come in the order of the slots, whichever event comes, and no slot
/// has more than two of them: one that aborts and then one that spawns.
pub proof fn law_actions_in_slot_order(
    state: SupervisionState,
    event: SupervisorEvent,
    now: u128,
    j: int,
    k: int,
)
    requires
        can_step(state, event),
        0 <= j < k < supervision::step_model(state, event, now).actions.len(),
    ensures
        ({
            let actions = supervision::step_model(state, event, now).actions;
            let a = match actions[j] {
                Action::Spawn { slot, .. } => slot,
                Action::Abort { slot, .. } => slot,
            };
            let b = match actions[k] {
                Action::Spawn { slot, .. } => slot,
                Action::Abort { slot, .. } => slot,
            };
            ||| a < b
            ||| a == b && k == j + 1 && actions[j] is Abort && actions[k] is Spawn
        }),
{
    if let SupervisorEvent::Exited { slot, instance, reason } = event {
        let i = slot as int;
        let stopped = state.stopped(i);
        let first = supervisor::first_affected(state.strategy, i);
        let end = supervisor::end_affected(state.strategy, i, state.running.len() as int);
        lemma_restart_order(stopped, first, end, j, k);
        lemma_abort_order(stopped.running, state.running.len() as int, j, k);
    }
}

proof fn lemma_abort_order(running: Seq<Option<u64>>, end: int, j: int, k: int)
    requires
        0 <= end <= running.len(),
        running.len() <= usize::MAX,
    ensures
        ({
            let actions = supervision::abort_actions(running, end);
            0 <= j < k < actions.len() ==> slot_of(actions[j]) < slot_of(actions[k])
        }),
    decreases end,
{
    if end > 0 {
        lemma_abort_order(running, end - 1, j, k);
        let before = supervision::abort_actions(running, end - 1);
        let actions = supervision::abort_actions(running, end);
        if 0 <= j < before.len() {
            assert(before.contains(before[j]));
            lemma_abort_contains(running, end - 1, before[j]);
            assert(actions[j] == before[j]);
        }
    }
}

/// A restart numbers the children that it starts in the order of their slots,
/// from the next number on and without a gap.
pub proof fn law_restart_numbers_in_order(
    state: SupervisionState,
    slot: usize,
    instance: u64,
    reason: ExitReason,
    now: u128,
    i: int,
    j: int,
    number: u64,
)
    requires
        state.valid(),
        state.next_instance + state.running.len() <= u64::MAX,
        slot < state.running.len(),
        state.running[slot as int] == Some(instance),
        !(reason is Normal),
        !(state.policies[slot as int] is Temporary),
        supervision::step_model(
            state,
            SupervisorEvent::Exited { slot, instance, reason },
            now,
        ).exit is None,
        0 <= i < state.running.len(),
        0 <= j < state.running.len(),
    ensures
        ({
            let after = supervision::step_model(
                state,
                SupervisorEvent::Exited { slot, instance, reason },
                now,
            ).state;
            let fresh = |a: Option<u64>| a matches Some(n) && n >= state.next_instance;
            &&& i < j && fresh(after.running[i]) && fresh(after.running[j]) ==> after.running[i]->0
                < after.running[j]->0
            &&& state.next_instance <= number < after.next_instance ==> exists|k: int|
                0 <= k < after.running.len() && #[trigger] after.running[k] == Some(number)
            &&& fresh(after.running[i]) ==> after.running[i]->0 < after.next_instance
        }),
{
    let first = supervisor::first_affected(state.strategy, slot as int);
    let end = supervisor::end_affected(state.strategy, slot as int, state.running.len() as int);
    let after = supervision::step_model(
        state,
        SupervisorEvent::Exited { slot, instance, reason },
        now,
    ).state;
    lemma_restart_numbers(state, slot, i);
    lemma_restart_numbers(state, slot, j);
    if first <= i < end {
        supervision::lemma_restartable(state.policies, first, i, end);
    }
    if first <= j < end {
        supervision::lemma_restartable(state.policies, first, j, end);
        if first <= i < j {
            supervision::lemma_restartable(state.policies, first, i, j);
        }
    }
    if state.next_instance <= number < after.next_instance {
        let k = lemma_number_is_given(state.policies, first, end, number - state.next_instance);
        assert(after.running[k] == Some(number));
    }
}

proof fn lemma_number_is_given(
    policies: Seq<RestartPolicy>,
    first: int,
    end: int,
    n: int,
) -> (k: int)
    requires
        0 <= n < supervision::restartable(policies, first, end),
    ensures
        first <= k < end,
        policies[k] != RestartPolicy::Temporary,
        supervision::restartable(policies, first, k) == n,
    decreases end - first,
{
    if n < supervision::restartable(policies, first, end - 1) {
        lemma_number_is_given(policies, first, end - 1, n)
    } else {
        end - 1
    }
}

/// A supervisor begins with every child running, under the limit and the
/// window, in seconds, of its configuration, and with no restart counted.
pub proof fn law_supervisor_begins_as_configured<F>(
    spec: SupervisorSpec,
    children: Seq<ChildSpec<F>>,
    i: int,
)
    requires
        children.len() <= usize::MAX,
        0 <= i < children.len(),
    ensures
        ({
            let start = supervision::initial(spec, children).started(0, children.len() as int);
            &&& start.strategy == spec.strategy
            &&& start.max_restarts == spec.max_restarts
            &&& start.within == spec.within_secs * 1_000_000_000
            &&& start.history.len() == 0
            &&& start.policies.len() == children.len()
            &&& start.running.len() == children.len()
            &&& start.policies[i] == children[i].restart
            &&& start.running[i] == Some(i as u64)
            &&& start.next_instance == children.len()
        }),
{
}

/// Every running instance has a report outstanding: if the reports that are
/// outstanding cover the running instances before an event, then they do so
/// after the step, in which the reported task is done and the spawned ones are new.
pub proof fn law_running_have_reports(
    state: SupervisionState,
    event: SupervisorEvent,
    now: u128,
    outstanding: Set<(usize, u64)>,
)
    requires
        can_step(state, event),
        running_set(state).subset_of(outstanding),
    ensures
        ({
            let step = supervision::step_model(state, event, now);
            running_set(step.state).subset_of(
                alive_without(outstanding, event).union(spawned(step.actions)),
            )
        }),
{
    let step = supervision::step_model(state, event, now);
    let after = alive_without(outstanding, event).union(spawned(step.actions));
    assert forall|p: (usize, u64)| running_set(step.state).contains(p) implies after.contains(p) by {
        if let SupervisorEvent::Exited { slot, instance, reason } = event {
            let i = slot as int;
            let first = supervisor::first_affected(state.strategy, i);
            let end = supervisor::end_affected(state.strategy, i, state.running.len() as int);
            let stopped = state.stopped(i);
            lemma_restart_contains(
                stopped,
                first,
                end,
                Action::Spawn { slot: p.0, instance: p.1 },
            );
            lemma_restart_numbers(state, slot, p.0 as int);
            if running_set(state).contains(p) {
                assert(outstanding.contains(p));
            }
        } else {
            assert(running_set(state).contains(p));
        }
    }
}

/// When no report is outstanding, no child runs, and the supervisor ends: it
/// never waits for children that cannot report.
pub proof fn law_drained_supervisor_finishes(state: SupervisionState, now: u128)
    requires
        state.running.len() <= usize::MAX,
        running_set(state).subset_of(Set::empty()),
    ensures
        supervision::step_model(state, SupervisorEvent::Drained, now).exit == Some(
            SupervisorExit::Finished,
        ),
{
    assert forall|i: int| 0 <= i < state.running.len() implies state.running[i] is None by {
        if let Some(a) = state.running[i] {
            assert(running_set(state).contains((i as usize, a)));
        }
    }
}

/// The supervisor ends normally only when no child runs.
pub proof fn law_finishes_only_when_stopped(
    state: SupervisionState,
    event: SupervisorEvent,
    now: u128,
    i: int,
)
    requires
        can_step(state, event),
        supervision::step_model(state, event, now).exit == Some(SupervisorExit::Finished),
        0 <= i < state.running.len(),
    ensures
        event is Drained,
        state.running[i] is None,
{
}

/// A normal exit, and any exit of a temporary child, stops that child and
/// changes nothing else: nothing is restarted and nothing is counted.
pub proof fn law_no_restart_without_failure(
    state: SupervisionState,
    slot: usize,
    instance: u64,
    reason: ExitReason,
    now: u128,
)
    requires
        slot < state.running.len(),
        state.running[slot as int] == Some(instance),
        reason is Normal || state.policies[slot as int] == RestartPolicy::Temporary,
    ensures
        ({
            let step = supervision::step_model(
                state,
                SupervisorEvent::Exited { slot, instance, reason },
                now,
            );
            &&& step.state == state.stopped(slot as int)
            &&& step.actions == Seq::<Action>::empty()
            &&& step.exit is None
        }),
{
}

/// A failure that leads to a restart leaves every child that the strategy
/// names running as a new instance, unless that child is temporary, which
/// leaves it stopped; every other child is as it was. The strategy names, for
/// one-for-one, the failed child, for rest-for-one the failed child and those
/// after it, and for one-for-all every child.
pub proof fn law_strategy_scope(
    state: SupervisionState,
    slot: usize,
    instance: u64,
    reason: ExitReason,
    now: u128,
    i: int,
)
    requires
        state.valid(),
        state.has_room(),
        slot < state.running.len(),
        state.running[slot as int] == Some(instance),
        !(reason is Normal),
        !(state.policies[slot as int] is Temporary),
        supervision::step_model(
            state,
            SupervisorEvent::Exited { slot, instance, reason },
            now,
        ).exit is None,
        0 <= i < state.running.len(),
    ensures
        ({
            let after = supervision::step_model(
                state,
                SupervisorEvent::Exited { slot, instance, reason },
                now,
            ).state;
            let named = match state.strategy {
                Restart::OneForOne => i == slot,
                Restart::RestForOne => i >= slot,
                Restart::OneForAll => true,
            };
            let temporary = state.policies[i] == RestartPolicy::Temporary;
            &&& named && !temporary ==> (after.running[i] matches Some(a) && a
                >= state.next_instance)
            &&& named && temporary ==> after.running[i] is None
            &&& !named ==> after.running[i] == state.running[i]
        }),
{
    lemma_restart_numbers(state, slot, i);
}

/// The numbers that a restart gives out are new.
proof fn lemma_restart_numbers(state: SupervisionState, slot: usize, i: int)
    requires
        state.has_room(),
        slot < state.running.len(),
    ensures
        ({
            let first = supervisor::first_affected(state.strategy, slot as int);
            let end = supervisor::end_affected(
                state.strategy,
                slot as int,
                state.running.len() as int,
            );
            let next = state.next_instance;
            &&& 0 <= supervision::restartable(state.policies, first, end)
            &&& first <= i < end ==> next <= next + supervision::restartable(
                state.policies,
                first,
                i,
            ) <= u64::MAX
        }),
{
    let first = supervisor::first_affected(state.strategy, slot as int);
    let end = supervisor::end_affected(state.strategy, slot as int, state.running.len() as int);
    supervision::lemma_restartable(state.policies, first, first, end);
    if first <= i < end {
        supervision::lemma_restartable(state.policies, first, i, end);
    }
}

/// After a step, a child is as it was, is stopped, or runs as an instance that
/// is new.
proof fn lemma_step_instances(state: SupervisionState, event: SupervisorEvent, now: u128, i: int)
    requires
        can_step(state, event),
        0 <= i < state.running.len(),
    ensures
        ({
            let after = supervision::step_model(state, event, now).state;
            &&& after.next_instance >= state.next_instance
            &&& after.running[i] matches Some(a) ==> after.running[i] == state.running[i] || a
                >= state.next_instance
        }),
{
    if let SupervisorEvent::Exited { slot, instance, reason } = event {
        lemma_restart_numbers(state, slot, i);
    }
}

/// A temporary child is never restarted, whichever child failed and whatever
/// the strategy is.
pub proof fn law_temporary_is_never_restarted(
    state: SupervisionState,
    event: SupervisorEvent,
    now: u128,
    slot: usize,
    instance: u64,
)
    requires
        can_step(state, event),
        slot < state.running.len(),
        state.policies[slot as int] == RestartPolicy::Temporary,
    ensures
        !supervision::step_model(state, event, now).actions.contains(
            Action::Spawn { slot, instance },
        ),
{
    if let SupervisorEvent::Exited { slot: s, instance: a, reason } = event {
        let i = s as int;
        let spawn = Action::Spawn { slot, instance };
        let stopped = state.stopped(i);
        let first = supervisor::first_affected(state.strategy, i);
        let end = supervisor::end_affected(state.strategy, i, state.running.len() as int);
        lemma_restart_contains(stopped, first, end, spawn);
        lemma_abort_contains(stopped.running, state.running.len() as int, spawn);
    }
}

/// Children are restarted in slot order, each one aborted, if it runs, right
/// before it is spawned again.
pub proof fn law_restart_in_order(
    state: SupervisionState,
    slot: usize,
    instance: u64,
    reason: ExitReason,
    now: u128,
    j: int,
    k: int,
)
    requires
        state.valid(),
        state.has_room(),
        state.running.len() <= usize::MAX,
        slot < state.running.len(),
        state.running[slot as int] == Some(instance),
        supervision::step_model(
            state,
            SupervisorEvent::Exited { slot, instance, reason },
            now,
        ).exit is None,
        0 <= j < k < supervision::step_model(
            state,
            SupervisorEvent::Exited { slot, instance, reason },
            now,
        ).actions.len(),
    ensures
        ({
            let actions = supervision::step_model(
                state,
                SupervisorEvent::Exited { slot, instance, reason },
                now,
            ).actions;
            ||| slot_of(actions[j]) < slot_of(actions[k])
            ||| slot_of(actions[j]) == slot_of(actions[k]) && k == j + 1 && actions[j] is Abort
                && actions[k] is Spawn
        }),
{
    let first = supervisor::first_affected(state.strategy, slot as int);
    let end = supervisor::end_affected(state.strategy, slot as int, state.running.len() as int);
    lemma_restart_order(state.stopped(slot as int), first, end, j, k);
}

/// The slot that an action is about.
pub open spec fn slot_of(action: Action) -> usize {
    match action {
        Action::Spawn { slot, .. } => slot,
        Action::Abort { slot, .. } => slot,
    }
}

proof fn lemma_restart_order(state: SupervisionState, first: int, end: int, j: int, k: int)
    requires
        0 <= first <= end <= state.running.len(),
        state.running.len() <= usize::MAX,
        0 <= state.next_instance,
        state.next_instance + (end - first) <= u64::MAX,
    ensures
        ({
            let actions = restart_of(state, first, end);
            0 <= j < k < actions.len() ==> {
                ||| slot_of(actions[j]) < slot_of(actions[k])
                ||| slot_of(actions[j]) == slot_of(actions[k]) && k == j + 1 && actions[j] is Abort
                    && actions[k] is Spawn
            }
        }),
    decreases end - first,
{
    if first < end {
        lemma_restart_order(state, first, end - 1, j, k);
        let before = restart_of(state, first, end - 1);
        let actions = restart_of(state, first, end);
        if 0 <= j < before.len() {
            assert(before.contains(before[j]));
            lemma_restart_contains(state, first, end - 1, before[j]);
            assert(actions[j] == before[j]);
        }
    }
}

/// A supervisor escalates because of a child exactly when a failure that sets
/// off a restart exceeds the limit. It then aborts every other running child,
/// does nothing else, and leaves no child running.
pub proof fn law_escalation(
    state: SupervisionState,
    slot: usize,
    instance: u64,
    reason: ExitReason,
    now: u128,
    action: Action,
    i: int,
)
    requires
        state.valid(),
        state.has_room(),
        state.running.len() <= usize::MAX,
        slot < state.running.len(),
        state.running[slot as int] == Some(instance),
        0 <= i < state.running.len(),
    ensures
        ({
            let step = supervision::step_model(
                state,
                SupervisorEvent::Exited { slot, instance, reason },
                now,
            );
            let restarts = restart_window::recorded(state.history, now, state.within).len();
            &&& step.exit == Some(SupervisorExit::Escalated) <==> {
                &&& supervisor::sets_off_restart(state.policies[slot as int], reason)
                &&& restarts > state.max_restarts
            }
            &&& step.exit == Some(SupervisorExit::Escalated) ==> {
                &&& step.state.running[i] is None
                &&& step.actions.contains(action) <==> {
                    action matches Action::Abort { slot: s, instance: a } && s != slot && s
                        < state.running.len() && state.running[s as int] == Some(a)
                }
            }
        }),
{
    lemma_abort_contains(state.stopped(slot as int).running, state.running.len() as int, action);
}

/// A supervisor that escalates fails as a child: unless it is temporary there,
/// its parent restarts it or escalates in turn. One that finishes is left stopped.
pub proof fn law_escalation_reaches_parent(
    parent: SupervisionState,
    slot: usize,
    instance: u64,
    exit: SupervisorExit,
    reason: ExitReason,
    now: u128,
)
    requires
        parent.valid(),
        parent.has_room(),
        slot < parent.running.len(),
        parent.running[slot as int] == Some(instance),
        exit.shows_as(reason),
    ensures
        ({
            let step = supervision::step_model(
                parent,
                SupervisorEvent::Exited { slot, instance, reason },
                now,
            );
            &&& exit is Escalated && parent.policies[slot as int] != RestartPolicy::Temporary ==> {
                ||| step.exit == Some(SupervisorExit::Escalated)
                ||| step.state.running[slot as int] matches Some(a) && a >= parent.next_instance
            }
            &&& exit is Finished ==> step.state == parent.stopped(slot as int)
        }),
{
    lemma_restart_numbers(parent, slot, slot as int);
}

/// How the end of a supervisor shows: its task fails exactly when it escalated,
/// so that the supervisor above it sees a panic, and returns when it finished.
pub proof fn law_escalation_shows_as_a_failure(
    exit: SupervisorExit,
    result: Result<(), &'static str>,
    reason: ExitReason,
)
    requires
        call_ensures(SupervisorExit::task_result, (exit,), result),
    ensures
        result is Err <==> exit is Escalated,
        exit is Escalated ==> (exit.shows_as(reason) <==> reason is Panic),
        exit is Finished ==> (exit.shows_as(reason) <==> reason is Normal),
{
}

/// The state after a run of events, each with its time.
pub open spec fn state_after(
    state: SupervisionState,
    run: Seq<(SupervisorEvent, u128)>,
) -> SupervisionState
    decreases run.len(),
{
    if run.len() == 0 {
        state
    } else {
        let before = state_after(state, run.drop_last());
        supervision::step_model(before, run.last().0, run.last().1).state
    }
}

/// Whether an event makes the supervisor restart children.
pub open spec fn restarts(state: SupervisionState, event: SupervisorEvent, now: u128) -> bool {
    event matches SupervisorEvent::Exited { slot, instance, reason } && {
        &&& state.running[slot as int] == Some(instance)
        &&& supervisor::sets_off_restart(state.policies[slot as int], reason)
        &&& supervision::step_model(state, event, now).exit is None
    }
}

/// The times at which the supervisor restarts children in a run of events.
pub open spec fn restart_times(
    state: SupervisionState,
    run: Seq<(SupervisorEvent, u128)>,
) -> Seq<u128>
    decreases run.len(),
{
    if run.len() == 0 {
        Seq::empty()
    } else {
        let before = run.drop_last();
        let times = restart_times(state, before);
        if restarts(state_after(state, before), run.last().0, run.last().1) {
            times.push(run.last().1)
        } else {
            times
        }
    }
}

/// Whether the supervisor is still there after each event of a run but the last.
pub open spec fn goes_on(state: SupervisionState, run: Seq<(SupervisorEvent, u128)>) -> bool {
    forall|k: int|
        0 <= k < run.len() - 1 ==> supervision::step_model(
            state_after(state, #[trigger] run.take(k)),
            run[k].0,
            run[k].1,
        ).exit is None
}

/// Whether no event of a run lies before an earlier one.
pub open spec fn run_in_order(run: Seq<(SupervisorEvent, u128)>) -> bool {
    forall|i: int, j: int| 0 <= i <= j < run.len() ==> run[i].1 <= run[j].1
}

proof fn lemma_run_history(state: SupervisionState, run: Seq<(SupervisorEvent, u128)>)
    requires
        state.history == Seq::<u128>::empty(),
        run_in_order(run),
        goes_on(state, run),
    ensures
        ({
            let times = restart_times(state, run);
            let after = state_after(state, run);
            &&& after.within == state.within
            &&& after.max_restarts == state.max_restarts
            &&& restart_window::in_order(times)
            &&& times.len() > 0 ==> run.len() > 0 && times.last() <= run.last().1
            &&& restart_window::all_allowed(times, state.max_restarts as int, state.within)
            &&& run.len() == 0 || supervision::step_model(
                state_after(state, run.drop_last()),
                run.last().0,
                run.last().1,
            ).exit is None ==> after.history == restart_window::history_of(times, state.within)
        }),
    decreases run.len(),
{
    let times = restart_times(state, run);
    if run.len() > 0 {
        let run0 = run.drop_last();
        let before = state_after(state, run0);
        let times0 = restart_times(state, run0);
        assert forall|k: int| 0 <= k < run0.len() - 1 implies supervision::step_model(
            state_after(state, #[trigger] run0.take(k)),
            run0[k].0,
            run0[k].1,
        ).exit is None by {
            assert(run0.take(k) =~= run.take(k));
        }
        lemma_run_history(state, run0);
        if run0.len() > 0 {
            let k = run0.len() - 1;
            assert(run.take(k) =~= run0.drop_last());
        }
        assert(before.history == restart_window::history_of(times0, state.within));
        if restarts(before, run.last().0, run.last().1) {
            assert(times.drop_last() =~= times0);
            assert forall|k: int| 1 <= k <= times.len() implies restart_window::history_of(
                #[trigger] times.take(k),
                state.within,
            ).len() <= state.max_restarts by {
                if k == times.len() {
                    assert(times.take(k) =~= times);
                } else {
                    assert(times.take(k) =~= times0.take(k));
                }
            }
        }
    }
}

/// The restart limit holds of every run of a supervisor: any
/// `max_restarts + 1` restarts in a row take at least the length of the
/// window. A run that goes over the limit ends in escalation instead.
pub proof fn law_supervisor_respects_restart_limit(
    start: SupervisionState,
    run: Seq<(SupervisorEvent, u128)>,
    i: int,
)
    requires
        start.history == Seq::<u128>::empty(),
        run_in_order(run),
        goes_on(start, run),
        0 <= i,
        i + start.max_restarts < restart_times(start, run).len(),
    ensures
        restart_times(start, run)[i + start.max_restarts] - restart_times(start, run)[i]
            >= start.within,
{
    lemma_run_history(start, run);
    restart_window::law_restart_intensity(
        restart_times(start, run),
        start.max_restarts,
        start.within,
        i,
    );
}

/// A supervisor gives up exactly when it has to: after a run that it has
/// survived so far, a failure that sets off a restart escalates if and only if
/// the restarts of the run that lie less than the length of the window back,
/// with this one added, are more than `max_restarts`.
pub proof fn law_escalates_exactly_over_limit(
    start: SupervisionState,
    run: Seq<(SupervisorEvent, u128)>,
    slot: usize,
    instance: u64,
    reason: ExitReason,
    now: u128,
)
    requires
        start.history == Seq::<u128>::empty(),
        run_in_order(run.push((SupervisorEvent::Exited { slot, instance, reason }, now))),
        goes_on(start, run.push((SupervisorEvent::Exited { slot, instance, reason }, now))),
        slot < state_after(start, run).running.len(),
        state_after(start, run).running[slot as int] == Some(instance),
        supervisor::sets_off_restart(state_after(start, run).policies[slot as int], reason),
    ensures
        ({
            let step = supervision::step_model(
                state_after(start, run),
                SupervisorEvent::Exited { slot, instance, reason },
                now,
            );
            let recent = restart_window::retained(restart_times(start, run), now, start.within);
            step.exit == Some(SupervisorExit::Escalated) <==> recent.len() + 1 > start.max_restarts
        }),
{
    let whole = run.push((SupervisorEvent::Exited { slot, instance, reason }, now));
    assert forall|i: int, j: int| 0 <= i <= j < run.len() implies run[i].1 <= run[j].1 by {
        assert(whole[i].1 <= whole[j].1);
    }
    assert forall|k: int| 0 <= k < run.len() - 1 implies supervision::step_model(
        state_after(start, #[trigger] run.take(k)),
        run[k].0,
        run[k].1,
    ).exit is None by {
        assert(whole.take(k) =~= run.take(k));
    }
    lemma_run_history(start, run);
    if run.len() > 0 {
        let k = run.len() - 1;
        assert(whole.take(k) =~= run.drop_last());
        assert(whole[k].1 <= whole[run.len() as int].1);
    }
    restart_window::law_window_keeps_what_counts(restart_times(start, run), now, start.within);
}

/// From its start on, a supervisor gives up exactly when its configuration says
/// so: a failure of a running child that is not temporary escalates if and only
/// if the restarts so far that lie less than `within_secs` seconds back, with
/// this one added, are more than `max_restarts`.
pub proof fn law_begun_supervisor_escalates_exactly_over_limit<F>(
    spec: SupervisorSpec,
    children: Seq<ChildSpec<F>>,
    run: Seq<(SupervisorEvent, u128)>,
    slot: usize,
    instance: u64,
    reason: ExitReason,
    now: u128,
)
    requires
        run_in_order(run.push((SupervisorEvent::Exited { slot, instance, reason }, now))),
        goes_on(
            supervision::initial(spec, children).started(0, children.len() as int),
            run.push((SupervisorEvent::Exited { slot, instance, reason }, now)),
        ),
        forall|k: int|
            0 <= k < run.len() ==> (#[trigger] run[k].0 matches SupervisorEvent::Exited { slot: s, .. }
                ==> s < children.len()),
        slot < children.len(),
        state_after(
            supervision::initial(spec, children).started(0, children.len() as int),
            run,
        ).running[slot as int] == Some(instance),
        !(reason is Normal),
        !(children[slot as int].restart is Temporary),
    ensures
        ({
            let start = supervision::initial(spec, children).started(0, children.len() as int);
            let step = supervision::step_model(
                state_after(start, run),
                SupervisorEvent::Exited { slot, instance, reason },
                now,
            );
            let recent = restart_times(start, run).filter(
                |t: u128| now - t < spec.within_secs * 1_000_000_000,
            );
            step.exit == Some(SupervisorExit::Escalated) <==> recent.len() + 1 > spec.max_restarts
        }),
{
    let start = supervision::initial(spec, children).started(0, children.len() as int);
    let whole = run.push((SupervisorEvent::Exited { slot, instance, reason }, now));
    let times = restart_times(start, run);
    lemma_run_keeps_configuration(start, run);
    law_escalates_exactly_over_limit(start, run, slot, instance, reason, now);
    assert forall|i: int, j: int| 0 <= i <= j < run.len() implies run[i].1 <= run[j].1 by {
        assert(whole[i].1 <= whole[j].1);
    }
    assert forall|k: int| 0 <= k < run.len() - 1 implies supervision::step_model(
        state_after(start, #[trigger] run.take(k)),
        run[k].0,
        run[k].1,
    ).exit is None by {
        assert(whole.take(k) =~= run.take(k));
    }
    lemma_run_history(start, run);
    assert forall|i: int| 0 <= i < times.len() implies times[i] <= now by {
        assert(times[i] <= times[times.len() - 1]);
        assert(whole[run.len() - 1].1 <= whole[run.len() as int].1);
    }
    restart_window::lemma_filter_agree(
        times,
        |t: u128| restart_window::age(t, now) < start.within,
        |t: u128| now - t < spec.within_secs * 1_000_000_000,
    );
}

proof fn lemma_run_keeps_configuration(
    start: SupervisionState,
    run: Seq<(SupervisorEvent, u128)>,
)
    requires
        forall|k: int|
            0 <= k < run.len() ==> (#[trigger] run[k].0 matches SupervisorEvent::Exited { slot, .. }
                ==> slot < start.running.len()),
    ensures
        state_after(start, run).policies == start.policies,
        state_after(start, run).running.len() == start.running.len(),
    decreases run.len(),
{
    if run.len() > 0 {
        assert(run[run.len() - 1].0 == run.last().0);
        assert forall|k: int| 0 <= k < run.len() - 1 implies (
        #[trigger] run.drop_last()[k].0 matches SupervisorEvent::Exited { slot, .. } ==> slot
            < start.running.len()) by {
            assert(run[k].0 == run.drop_last()[k].0);
        }
        lemma_run_keeps_configuration(start, run.drop_last());
        law_configuration_stays(
            state_after(start, run.drop_last()),
            run.last().0,
            run.last().1,
        );
    }
}

/// The restarts that a run counts are those that the supervisor carried out: an
/// event adds its time exactly when a running child that is not temporary
/// failed and the supervisor did not give up over it.
pub proof fn law_restart_times(
    start: SupervisionState,
    run: Seq<(SupervisorEvent, u128)>,
    event: SupervisorEvent,
    now: u128,
)
    ensures
        ({
            let state = state_after(start, run);
            let times = restart_times(start, run);
            let after = restart_times(start, run.push((event, now)));
            let failed = event matches SupervisorEvent::Exited { slot, instance, reason } && {
                &&& state.running[slot as int] == Some(instance)
                &&& !(reason is Normal)
                &&& !(state.policies[slot as int] is Temporary)
            };
            let goes_on = supervision::step_model(state, event, now).exit is None;
            &&& failed && goes_on ==> after == times.push(now)
            &&& !(failed && goes_on) ==> after == times
            &&& restart_times(start, Seq::empty()).len() == 0
        }),
{
    assert(run.push((event, now)).drop_last() =~= run);
}

/// A nested supervisor that is restarted begins as it did the first time: a
/// copy of it starts the same number of children, under the same strategy, with
/// the same policies and the full restart limit.
pub proof fn law_restarted_tree_begins_alike<F: Clone>(
    spec: SupervisorSpec,
    children: Seq<ChildSpec<F>>,
    copies: Seq<ChildSpec<F>>,
)
    requires
        copies.len() == children.len(),
        forall|i: int|
            0 <= i < children.len() ==> supervisor::same_child(children[i], #[trigger] copies[i]),
    ensures
        supervision::initial(spec, copies).started(0, copies.len() as int)
            == supervision::initial(spec, children).started(0, children.len() as int),
{
    let a = supervision::initial(spec, copies);
    let b = supervision::initial(spec, children);
    assert(a.policies =~= b.policies);
    assert(a.running =~= b.running);
}

} // verus!

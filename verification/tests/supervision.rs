use std::collections::HashSet;

use erlang_actors_rust::supervision::{
    Action, Step, Supervision, SupervisorEvent, SupervisorExit,
};
use erlang_actors_rust::supervisor::{
    ChildSpec, ExitReason, Factory, Restart, RestartPolicy, Supervised, Supervisor, SupervisorSpec,
};

const SECOND: u128 = 1_000_000_000;

fn supervisor(strategy: Restart, max_restarts: u32, policies: &[RestartPolicy]) -> Supervisor<u8> {
    let mut supervisor = Supervisor::new(SupervisorSpec::new("sup", strategy, max_restarts, 10));
    for (i, policy) in policies.iter().enumerate() {
        supervisor = supervisor.child(ChildSpec::new(format!("child-{i}"), *policy, i as u8));
    }
    supervisor
}

fn begin(strategy: Restart, max_restarts: u32, count: usize) -> Supervision<u8> {
    Supervision::begin(supervisor(
        strategy,
        max_restarts,
        &vec![RestartPolicy::Permanent; count],
    ))
    .0
}

fn exited(slot: usize, instance: u64, reason: ExitReason) -> SupervisorEvent {
    SupervisorEvent::Exited {
        slot,
        instance,
        reason,
    }
}

fn panicked(slot: usize, instance: u64) -> SupervisorEvent {
    exited(slot, instance, ExitReason::Panic(String::from("boom")))
}

fn spawn(slot: usize, instance: u64) -> Action {
    Action::Spawn { slot, instance }
}

fn abort(slot: usize, instance: u64) -> Action {
    Action::Abort { slot, instance }
}

fn goes_on(actions: Vec<Action>) -> Step {
    Step {
        actions,
        exit: None,
    }
}

#[test]
fn children_start_in_order() {
    let (supervision, actions) = Supervision::begin(supervisor(
        Restart::OneForOne,
        5,
        &[RestartPolicy::Permanent; 3],
    ));
    assert_eq!(actions, vec![spawn(0, 0), spawn(1, 1), spawn(2, 2)]);
    assert_eq!(supervision.len(), 3);
    assert!(supervision.any_running());
    assert!(supervision.has_room());
    assert_eq!(&*supervision.child(1).id, "child-1");
    assert!(matches!(supervision.child(2).factory, Factory::Task(2)));
}

#[test]
fn supervisor_without_children_finishes() {
    let mut supervision = begin(Restart::OneForOne, 5, 0);
    let step = supervision.step(SupervisorEvent::Drained, 0);
    assert!(step.actions.is_empty());
    assert_eq!(step.exit, Some(SupervisorExit::Finished));
}

#[test]
fn one_for_one_restarts_only_the_failed_child() {
    let mut supervision = begin(Restart::OneForOne, 5, 3);
    assert_eq!(
        supervision.step(panicked(1, 1), SECOND),
        goes_on(vec![spawn(1, 3)])
    );
}

#[test]
fn rest_for_one_restarts_the_failed_child_and_those_after_it() {
    let mut supervision = begin(Restart::RestForOne, 5, 4);
    assert_eq!(
        supervision.step(panicked(1, 1), SECOND),
        goes_on(vec![
            spawn(1, 4),
            abort(2, 2),
            spawn(2, 5),
            abort(3, 3),
            spawn(3, 6)
        ])
    );
}

#[test]
fn one_for_all_restarts_every_child() {
    let mut supervision = begin(Restart::OneForAll, 5, 3);
    assert_eq!(
        supervision.step(panicked(1, 1), SECOND),
        goes_on(vec![
            abort(0, 0),
            spawn(0, 3),
            spawn(1, 4),
            abort(2, 2),
            spawn(2, 5)
        ])
    );
}

#[test]
fn aborted_siblings_are_not_restarted_twice() {
    let mut supervision = begin(Restart::OneForAll, 1, 3);
    supervision.step(panicked(1, 1), SECOND);
    for (slot, instance) in [(0, 0), (2, 2)] {
        assert_eq!(
            supervision.step(exited(slot, instance, ExitReason::Aborted), SECOND),
            goes_on(Vec::new())
        );
    }
    assert!(supervision.any_running());
    assert_eq!(
        supervision.step(panicked(0, 0), SECOND),
        goes_on(Vec::new())
    );
    assert_eq!(
        supervision.step(exited(2, 2, ExitReason::Normal), SECOND),
        goes_on(Vec::new())
    );
    // The new instances are still the ones that count.
    assert_eq!(
        supervision.step(exited(2, 5, ExitReason::Normal), SECOND),
        goes_on(Vec::new())
    );
    let step = supervision.step(panicked(0, 3), SECOND);
    assert_eq!(step.exit, Some(SupervisorExit::Escalated));
    assert_eq!(step.actions, vec![abort(1, 4)]);
}

#[test]
fn children_that_stopped_are_started_again_by_one_for_all() {
    let mut supervision = begin(Restart::OneForAll, 5, 2);
    assert_eq!(
        supervision.step(exited(0, 0, ExitReason::Normal), SECOND),
        goes_on(Vec::new())
    );
    assert_eq!(
        supervision.step(panicked(1, 1), SECOND),
        goes_on(vec![spawn(0, 2), spawn(1, 3)])
    );
}

#[test]
fn normal_exit_is_not_restarted() {
    let mut supervision = begin(Restart::OneForAll, 5, 2);
    assert_eq!(
        supervision.step(exited(0, 0, ExitReason::Normal), SECOND),
        goes_on(Vec::new())
    );
    assert_eq!(
        supervision.step(SupervisorEvent::Drained, SECOND).exit,
        None
    );
    assert_eq!(
        supervision.step(exited(1, 1, ExitReason::Normal), SECOND),
        goes_on(Vec::new())
    );
    assert!(!supervision.any_running());
    assert_eq!(
        supervision.step(SupervisorEvent::Drained, SECOND).exit,
        Some(SupervisorExit::Finished)
    );
}

#[test]
fn temporary_child_is_not_restarted_and_not_counted() {
    let (mut supervision, _) = Supervision::begin(supervisor(
        Restart::OneForAll,
        1,
        &[RestartPolicy::Temporary, RestartPolicy::Permanent],
    ));
    for reason in [
        ExitReason::Panic(String::from("boom")),
        ExitReason::Aborted,
        ExitReason::Other(String::from("lost")),
    ] {
        let mut copy = Supervision::begin(supervisor(
            Restart::OneForOne,
            0,
            &[RestartPolicy::Temporary],
        ))
        .0;
        assert_eq!(
            copy.step(exited(0, 0, reason), SECOND),
            goes_on(Vec::new())
        );
    }
    assert_eq!(
        supervision.step(panicked(0, 0), SECOND),
        goes_on(Vec::new())
    );
    assert_eq!(
        supervision.step(panicked(1, 1), SECOND),
        goes_on(vec![spawn(1, 2)])
    );
    assert_eq!(
        supervision.step(panicked(1, 2), 12 * SECOND),
        goes_on(vec![spawn(1, 3)])
    );
    supervision.step(exited(1, 3, ExitReason::Normal), 13 * SECOND);
    assert!(!supervision.any_running());
}

#[test]
fn temporary_child_is_stopped_by_the_failure_of_a_sibling() {
    let policies = [
        RestartPolicy::Permanent,
        RestartPolicy::Temporary,
        RestartPolicy::Transient,
    ];
    for strategy in [Restart::OneForAll, Restart::RestForOne] {
        let (mut supervision, _) = Supervision::begin(supervisor(strategy, 5, &policies));
        assert_eq!(
            supervision.step(panicked(0, 0), SECOND),
            goes_on(vec![spawn(0, 3), abort(1, 1), abort(2, 2), spawn(2, 4)])
        );
        assert_eq!(
            supervision.step(exited(1, 1, ExitReason::Aborted), SECOND),
            goes_on(Vec::new())
        );
        assert_eq!(
            supervision.step(panicked(0, 3), 2 * SECOND),
            goes_on(vec![spawn(0, 5), abort(2, 4), spawn(2, 6)])
        );
    }
    let (mut supervision, _) = Supervision::begin(supervisor(Restart::OneForAll, 5, &policies[..2]));
    assert_eq!(
        supervision.step(panicked(0, 0), SECOND),
        goes_on(vec![spawn(0, 2), abort(1, 1)])
    );
}

#[test]
fn temporary_child_that_a_failure_does_not_reach_runs_on() {
    let policies = [RestartPolicy::Temporary, RestartPolicy::Permanent];
    for strategy in [Restart::OneForOne, Restart::RestForOne] {
        let (mut supervision, _) = Supervision::begin(supervisor(strategy, 5, &policies));
        assert_eq!(
            supervision.step(panicked(1, 1), SECOND),
            goes_on(vec![spawn(1, 2)])
        );
        supervision.step(exited(1, 2, ExitReason::Normal), SECOND);
        assert!(supervision.any_running());
        supervision.step(exited(0, 0, ExitReason::Normal), SECOND);
        assert!(!supervision.any_running());
    }
}

#[test]
fn escalation_comes_exactly_when_recent_restarts_exceed_the_limit() {
    let failures = [0, 1, 4, 11, 12, 13, 22, 25, 27, 28].map(|t: u128| t * SECOND);
    for max_restarts in 0..5u32 {
        let mut supervision = begin(Restart::OneForOne, max_restarts, 1);
        let mut restarts: Vec<u128> = Vec::new();
        for (instance, now) in failures.into_iter().enumerate() {
            let recent = restarts.iter().filter(|t| now - **t < 10 * SECOND).count();
            let step = supervision.step(panicked(0, instance as u64), now);
            if recent + 1 > max_restarts as usize {
                assert_eq!(step.exit, Some(SupervisorExit::Escalated));
                break;
            }
            assert_eq!(step, goes_on(vec![spawn(0, instance as u64 + 1)]));
            restarts.push(now);
        }
        assert_eq!(restarts.len(), [0, 1, 2, 5, 10][max_restarts as usize]);
    }
}

#[test]
fn aborted_and_other_ends_are_failures() {
    let mut supervision = begin(Restart::OneForOne, 5, 1);
    assert_eq!(
        supervision.step(exited(0, 0, ExitReason::Aborted), SECOND),
        goes_on(vec![spawn(0, 1)])
    );
    assert_eq!(
        supervision.step(exited(0, 1, ExitReason::Other(String::from("lost"))), SECOND),
        goes_on(vec![spawn(0, 2)])
    );
}

#[test]
fn too_many_restarts_escalate() {
    let mut supervision = begin(Restart::OneForOne, 2, 3);
    assert_eq!(supervision.step(panicked(0, 0), SECOND).exit, None);
    assert_eq!(supervision.step(panicked(0, 3), 2 * SECOND).exit, None);
    let step = supervision.step(panicked(0, 4), 3 * SECOND);
    assert_eq!(step.exit, Some(SupervisorExit::Escalated));
    assert_eq!(step.actions, vec![abort(1, 1), abort(2, 2)]);
    assert!(!supervision.any_running());
}

#[test]
fn restarts_that_left_the_window_do_not_count() {
    let mut supervision = begin(Restart::OneForOne, 1, 1);
    assert_eq!(supervision.step(panicked(0, 0), 0).exit, None);
    // The window is ten seconds long; a restart that old has left it.
    assert_eq!(supervision.step(panicked(0, 1), 10 * SECOND).exit, None);
    let step = supervision.step(panicked(0, 2), 20 * SECOND - 1);
    assert_eq!(step.exit, Some(SupervisorExit::Escalated));
}

#[test]
fn no_restart_is_allowed_with_a_limit_of_zero() {
    let mut supervision = begin(Restart::OneForOne, 0, 1);
    assert_eq!(
        supervision.step(panicked(0, 0), 0).exit,
        Some(SupervisorExit::Escalated)
    );
}

#[test]
fn failed_forwarder_escalates() {
    let mut supervision = begin(Restart::OneForOne, 5, 2);
    let step = supervision.step(SupervisorEvent::ForwarderFailed, 0);
    assert!(step.actions.is_empty());
    assert_eq!(step.exit, Some(SupervisorExit::Escalated));
}

#[test]
fn escalation_of_a_nested_supervisor_restarts_it() {
    assert_eq!(SupervisorExit::Finished.task_result(), Ok(()));
    assert_eq!(
        SupervisorExit::Escalated.task_result(),
        Err("supervisor escalated")
    );
    let inner = supervisor(Restart::OneForOne, 0, &[RestartPolicy::Permanent]);
    let outer = Supervisor::new(SupervisorSpec::default_one_for_one("outer"))
        .child(inner.into_child_spec("inner", RestartPolicy::Permanent));
    let (mut supervision, actions) = Supervision::begin(outer);
    assert_eq!(actions, vec![spawn(0, 0)]);
    assert_eq!(
        supervision.step(panicked(0, 0), SECOND),
        goes_on(vec![spawn(0, 1)])
    );
    match &supervision.child(0).factory {
        Factory::Tree(tree) => {
            let (inner, actions) = Supervision::begin((**tree).clone());
            assert_eq!(inner.len(), 1);
            assert_eq!(actions, vec![spawn(0, 0)]);
        }
        Factory::Task(_) => panic!("the child is a supervisor"),
    }
}

#[test]
fn missing_slots_are_filled_with_stopped_copies() {
    let mut supervision = begin(Restart::OneForOne, 5, 1);
    let action = supervision.spawn_child(3, ChildSpec::new("late", RestartPolicy::Transient, 9));
    assert_eq!(action, spawn(3, 1));
    assert_eq!(supervision.len(), 4);
    assert_eq!(&*supervision.child(0).id, "child-0");
    for slot in 1..4 {
        assert_eq!(&*supervision.child(slot).id, "late");
        assert_eq!(supervision.child(slot).restart, RestartPolicy::Transient);
    }
    assert_eq!(
        supervision.step(panicked(2, 1), 0),
        goes_on(Vec::new())
    );
    assert_eq!(
        supervision.step(panicked(3, 1), 0),
        goes_on(vec![spawn(3, 2)])
    );
}

#[test]
fn books_match_the_tasks_over_a_long_run() {
    for strategy in [Restart::OneForOne, Restart::RestForOne, Restart::OneForAll] {
        let (mut supervision, actions) = Supervision::begin(supervisor(
            strategy,
            1000,
            &[RestartPolicy::Permanent; 5],
        ));
        let mut alive: HashSet<(usize, u64)> = HashSet::new();
        let mut outstanding: Vec<(usize, u64)> = Vec::new();
        let mut todo = actions;
        for round in 0..200usize {
            for action in todo {
                match action {
                    Action::Spawn { slot, instance } => {
                        assert!(alive.insert((slot, instance)));
                        outstanding.push((slot, instance));
                    }
                    Action::Abort { slot, instance } => {
                        assert!(alive.remove(&(slot, instance)));
                    }
                }
            }
            assert_eq!(alive.len(), 5);
            for slot in 0..5 {
                assert_eq!(alive.iter().filter(|task| task.0 == slot).count(), 1);
            }
            let (slot, instance) = outstanding.swap_remove((round * 7) % outstanding.len());
            let current = alive.remove(&(slot, instance));
            let reason = if current {
                ExitReason::Panic(String::from("boom"))
            } else {
                ExitReason::Aborted
            };
            let step = supervision.step(exited(slot, instance, reason), 0);
            assert_eq!(step.exit, None);
            assert_eq!(step.actions.is_empty(), !current);
            todo = step.actions;
        }
    }
}

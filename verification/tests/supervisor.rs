use std::sync::Arc;

use erlang_actors_rust::supervisor::{
    child_ids, ChildSpec, ExitReason, Factory, Restart, RestartPolicy, Supervised, Supervisor,
    SupervisorSpec,
};

#[test]
fn restart_strategy_copy_compiles() {
    let _ = Restart::OneForAll;
    let _ = Restart::RestForOne;
    let _ = Restart::OneForOne;
}

#[test]
fn supervisor_spec_holds_what_it_is_given() {
    let spec = SupervisorSpec::new("pool_sup", Restart::RestForOne, 20, 30);
    assert_eq!(&*spec.name, "pool_sup");
    assert_eq!(spec.strategy, Restart::RestForOne);
    assert_eq!(spec.max_restarts, 20);
    assert_eq!(spec.within_secs, 30);
    let copy = spec.clone();
    assert_eq!(copy.name, spec.name);
    assert_eq!(copy.strategy, spec.strategy);
    assert_eq!(copy.max_restarts, spec.max_restarts);
    assert_eq!(copy.within_secs, spec.within_secs);
}

#[test]
fn names_come_from_slices_strings_and_shared_strings() {
    let from_string = SupervisorSpec::default_one_for_one(String::from("owned"));
    assert_eq!(&*from_string.name, "owned");
    let shared: Arc<str> = Arc::from("shared");
    let from_shared = SupervisorSpec::default_one_for_one(Arc::clone(&shared));
    assert!(Arc::ptr_eq(&from_shared.name, &shared));
    let spec = SupervisorSpec::new(Arc::clone(&shared), Restart::OneForAll, 1, 2);
    assert!(Arc::ptr_eq(&spec.name, &shared));
    let child = ChildSpec::new(Arc::clone(&shared), RestartPolicy::Permanent, 1u8);
    assert_eq!(&*child.id, "shared");
    let nested = Supervisor::new(spec)
        .child(child)
        .into_child_spec(Arc::clone(&shared), RestartPolicy::Permanent);
    assert_eq!(&*nested.id, "shared");
}

#[test]
fn default_is_one_for_one_with_five_restarts_in_ten_seconds() {
    let spec = SupervisorSpec::default_one_for_one("sup");
    assert_eq!(&*spec.name, "sup");
    assert_eq!(spec.strategy, Restart::OneForOne);
    assert_eq!(spec.max_restarts, 5);
    assert_eq!(spec.within_secs, 10);
}

#[test]
fn strategies_name_the_slots_to_restart() {
    assert_eq!(Restart::OneForOne.affected(1, 4), vec![1]);
    assert_eq!(Restart::RestForOne.affected(1, 4), vec![1, 2, 3]);
    assert_eq!(Restart::OneForAll.affected(1, 4), vec![0, 1, 2, 3]);
    assert_eq!(Restart::RestForOne.affected(3, 4), vec![3]);
    assert_eq!(Restart::OneForAll.affected(0, 1), vec![0]);
}

#[test]
fn policies_decide_which_exits_set_off_a_restart() {
    let failures = [
        ExitReason::Panic(String::from("boom")),
        ExitReason::Aborted,
        ExitReason::Other(String::from("lost")),
    ];
    for policy in [
        RestartPolicy::Permanent,
        RestartPolicy::Transient,
        RestartPolicy::Temporary,
    ] {
        assert!(!policy.restarts_after(&ExitReason::Normal));
    }
    for reason in &failures {
        assert!(RestartPolicy::Permanent.restarts_after(reason));
        assert!(RestartPolicy::Transient.restarts_after(reason));
        assert!(!RestartPolicy::Temporary.restarts_after(reason));
    }
}

#[test]
fn children_keep_the_order_in_which_they_were_added() {
    let supervisor = Supervisor::new(SupervisorSpec::default_one_for_one("sup"))
        .child(ChildSpec::new("a", RestartPolicy::Permanent, 1u8))
        .child(ChildSpec::new(String::from("b"), RestartPolicy::Temporary, 2u8))
        .child(ChildSpec::new("c", RestartPolicy::Transient, 3u8));
    assert_eq!(&*supervisor.spec().name, "sup");
    let (_, children) = supervisor.into_parts();
    assert_eq!(child_ids(&children), vec!["a", "b", "c"]);
    assert_eq!(children[1].restart, RestartPolicy::Temporary);
    assert!(matches!(children[2].factory, Factory::Task(3)));
}

#[test]
fn no_children_have_no_ids() {
    let none: Vec<ChildSpec<u8>> = Vec::new();
    assert!(child_ids(&none).is_empty());
}

#[test]
fn supervisor_becomes_a_child_of_another() {
    let inner = Supervisor::new(SupervisorSpec::new("inner", Restart::OneForAll, 1, 2))
        .child(ChildSpec::new("leaf", RestartPolicy::Permanent, 7u8));
    let spec = inner.into_child_spec("nested", RestartPolicy::Transient);
    assert_eq!(&*spec.id, "nested");
    assert_eq!(spec.restart, RestartPolicy::Transient);
    let copy = spec.clone();
    match (spec.factory, copy.factory) {
        (Factory::Tree(tree), Factory::Tree(same)) => {
            assert!(Arc::ptr_eq(&tree, &same));
            let (config, children) = (*tree).clone().into_parts();
            assert_eq!(&*config.name, "inner");
            assert_eq!(config.strategy, Restart::OneForAll);
            assert_eq!(child_ids(&children), vec!["leaf"]);
            assert!(matches!(children[0].factory, Factory::Task(7)));
        }
        _ => panic!("a supervisor is started as a tree"),
    }
}

#[test]
fn exit_reasons_clone_with_their_text() {
    assert_eq!(ExitReason::Normal.clone(), ExitReason::Normal);
    assert_eq!(ExitReason::Aborted.clone(), ExitReason::Aborted);
    let panic = ExitReason::Panic(String::from("boom"));
    assert_eq!(panic.clone(), panic);
    let other = ExitReason::Other(String::from("lost"));
    assert_eq!(other.clone(), other);
}

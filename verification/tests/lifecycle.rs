use erlang_actors_rust::lifecycle::{actor_step, ActorAction, ActorEvent};

#[test]
fn actor_lives_from_started_to_stopping() {
    let mut mailbox = vec![1u32, 2, 3].into_iter();
    let mut trace: Vec<ActorAction<u32>> = Vec::new();
    let mut event = ActorEvent::Spawned;
    loop {
        let action = actor_step(event);
        event = match &action {
            ActorAction::RunStarted => ActorEvent::Started,
            ActorAction::Receive => match mailbox.next() {
                Some(msg) => ActorEvent::Received(msg),
                None => ActorEvent::MailboxClosed,
            },
            ActorAction::Handle(_) => ActorEvent::Handled,
            ActorAction::RunStopping => ActorEvent::Stopped,
            ActorAction::Finish => {
                trace.push(action);
                break;
            }
        };
        trace.push(action);
    }
    assert_eq!(
        trace,
        vec![
            ActorAction::RunStarted,
            ActorAction::Receive,
            ActorAction::Handle(1),
            ActorAction::Receive,
            ActorAction::Handle(2),
            ActorAction::Receive,
            ActorAction::Handle(3),
            ActorAction::Receive,
            ActorAction::RunStopping,
            ActorAction::Finish,
        ]
    );
}

#[test]
fn actor_without_messages_starts_and_stops() {
    assert_eq!(actor_step::<u8>(ActorEvent::Spawned), ActorAction::RunStarted);
    assert_eq!(actor_step::<u8>(ActorEvent::Started), ActorAction::Receive);
    assert_eq!(
        actor_step::<u8>(ActorEvent::MailboxClosed),
        ActorAction::RunStopping
    );
    assert_eq!(actor_step::<u8>(ActorEvent::Stopped), ActorAction::Finish);
}

/// What the task does in a life that a teardown cuts short after `steps` events.
fn torn_down_after(steps: usize) -> Vec<ActorAction<u8>> {
    let mut mailbox = vec![1u8].into_iter();
    let mut trace = vec![actor_step(ActorEvent::Spawned)];
    for _ in 1..steps {
        let event = match trace[trace.len() - 1] {
            ActorAction::RunStarted => ActorEvent::Started,
            ActorAction::Receive => match mailbox.next() {
                Some(msg) => ActorEvent::Received(msg),
                None => ActorEvent::MailboxClosed,
            },
            ActorAction::Handle(_) => ActorEvent::Handled,
            ActorAction::RunStopping | ActorAction::Finish => break,
        };
        trace.push(actor_step(event));
    }
    if !matches!(
        trace[trace.len() - 1],
        ActorAction::RunStopping | ActorAction::Finish
    ) {
        trace.push(actor_step(ActorEvent::TornDown));
    }
    trace.push(actor_step(ActorEvent::Stopped));
    trace
}

#[test]
fn torn_down_actor_runs_stopping_once_wherever_it_is() {
    assert_eq!(
        torn_down_after(1),
        vec![
            ActorAction::RunStarted,
            ActorAction::RunStopping,
            ActorAction::Finish
        ]
    );
    assert_eq!(
        torn_down_after(3),
        vec![
            ActorAction::RunStarted,
            ActorAction::Receive,
            ActorAction::Handle(1),
            ActorAction::RunStopping,
            ActorAction::Finish
        ]
    );
    for steps in 1..8 {
        let trace = torn_down_after(steps);
        let stops = trace
            .iter()
            .filter(|a| **a == ActorAction::RunStopping)
            .count();
        assert_eq!(stops, 1);
        assert_eq!(trace[trace.len() - 2], ActorAction::RunStopping);
        assert_eq!(trace[trace.len() - 1], ActorAction::Finish);
    }
}

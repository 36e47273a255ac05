//! The life of an actor's task.
//!
//! The task runs the actor's `started` callback, then takes messages from the
//! mailbox and handles them one at a time, and runs the `stopping` callback
//! when the mailbox has closed or when the task is torn down, whichever comes
//! first. Each piece of work ends in an [`ActorEvent`], and [`actor_step`] says
//! what comes next.

use vstd::prelude::*;

verus! {

/// What has just happened to an actor's task.
#[derive(Debug, PartialEq, Eq)]
pub enum ActorEvent<M> {
    /// The task began.
    Spawned,
    /// The callback `started` returned.
    Started,
    /// A message came out of the mailbox.
    Received(M),
    /// The message has been handled.
    Handled,
    /// The mailbox is closed and empty.
    MailboxClosed,
    /// The task is torn down: it was aborted, or a callback panicked.
    TornDown,
    /// The callback `stopping` returned.
    Stopped,
}

/// What the task does next.
#[derive(Debug, PartialEq, Eq)]
pub enum ActorAction<M> {
    /// Run the callback `started`.
    RunStarted,
    /// Wait for a message.
    Receive,
    /// Handle a message.
    Handle(M),
    /// Run the callback `stopping`.
    RunStopping,
    /// The task ends normally.
    Finish,
}

/// What comes after `event`.
pub open spec fn actor_next<M>(event: ActorEvent<M>) -> ActorAction<M> {
    match event {
        ActorEvent::Spawned => ActorAction::RunStarted,
        ActorEvent::Started => ActorAction::Receive,
        ActorEvent::Received(msg) => ActorAction::Handle(msg),
        ActorEvent::Handled => ActorAction::Receive,
        ActorEvent::MailboxClosed => ActorAction::RunStopping,
        ActorEvent::TornDown => ActorAction::RunStopping,
        ActorEvent::Stopped => ActorAction::Finish,
    }
}

/// What comes after `event`.
pub fn actor_step<M>(event: ActorEvent<M>) -> (action: ActorAction<M>)
    ensures
        action == actor_next(event),
        action is RunStarted <==> event is Spawned,
        action is Receive <==> event is Started || event is Handled,
        event matches ActorEvent::Received(msg) ==> action == ActorAction::Handle(msg),
        action is Handle ==> event is Received,
        action is RunStopping <==> event is MailboxClosed || event is TornDown,
        action is Finish <==> event is Stopped,
{
    match event {
        ActorEvent::Spawned => ActorAction::RunStarted,
        ActorEvent::Started => ActorAction::Receive,
        ActorEvent::Received(msg) => ActorAction::Handle(msg),
        ActorEvent::Handled => ActorAction::Receive,
        ActorEvent::MailboxClosed => ActorAction::RunStopping,
        ActorEvent::TornDown => ActorAction::RunStopping,
        ActorEvent::Stopped => ActorAction::Finish,
    }
}

/// Whether carrying out `action` can end in `event`.
///
/// A teardown can cut short everything up to the callback `stopping`. One that
/// comes while `stopping` runs ends the life there.
pub open spec fn can_end_in<M>(action: ActorAction<M>, event: ActorEvent<M>) -> bool {
    match action {
        ActorAction::RunStarted => event is Started || event is TornDown,
        ActorAction::Receive => event is Received || event is MailboxClosed || event is TornDown,
        ActorAction::Handle(_) => event is Handled || event is TornDown,
        ActorAction::RunStopping => event is Stopped,
        ActorAction::Finish => false,
    }
}

/// Whether `events` can happen to one actor's task, in this order.
pub open spec fn is_life<M>(events: Seq<ActorEvent<M>>) -> bool {
    &&& events.len() > 0 ==> events[0] is Spawned
    &&& forall|i: int|
        0 <= i && i + 1 < events.len() ==> can_end_in(
            actor_next(#[trigger] events[i]),
            events[i + 1],
        )
}

/// What the task does in a life.
pub open spec fn actions_of<M>(events: Seq<ActorEvent<M>>) -> Seq<ActorAction<M>> {
    events.map_values(|e: ActorEvent<M>| actor_next(e))
}

/// Where in a life each kind of event can stand.
proof fn lemma_life_shape<M>(events: Seq<ActorEvent<M>>, i: int)
    requires
        is_life(events),
        0 <= i < events.len(),
    ensures
        events[i] is Spawned <==> i == 0,
        events[i] is Started ==> i == 1,
        events[i] is Received ==> i >= 2 && i % 2 == 0,
        events[i] is Handled ==> i >= 3 && i % 2 == 1,
        events[i] is MailboxClosed ==> i >= 2 && i % 2 == 0,
        events[i] is TornDown ==> i >= 1,
        events[i] is Stopped ==> i >= 2 && (events[i - 1] is MailboxClosed || events[i
            - 1] is TornDown),
    decreases i,
{
    if i > 0 {
        lemma_life_shape(events, i - 1);
        assert(can_end_in(actor_next(events[i - 1]), events[i]));
    }
}

/// The callback `started` runs once, before anything else.
pub proof fn law_started_runs_first<M>(events: Seq<ActorEvent<M>>, i: int)
    requires
        is_life(events),
        0 <= i < events.len(),
    ensures
        actions_of(events)[i] is RunStarted <==> i == 0,
{
    lemma_life_shape(events, i);
}

/// Messages are handled one at a time, in the order in which they came: each
/// message that is received is handled next, nothing else is ever handled, and
/// only a teardown can come before the handling is over.
pub proof fn law_messages_handled_in_order<M>(events: Seq<ActorEvent<M>>, i: int)
    requires
        is_life(events),
        0 <= i < events.len(),
    ensures
        events[i] matches ActorEvent::Received(msg) ==> actions_of(events)[i]
            == ActorAction::Handle(msg),
        actions_of(events)[i] matches ActorAction::Handle(msg) ==> events[i]
            == ActorEvent::Received(msg),
        events[i] is Received && i + 1 < events.len() ==> events[i + 1] is Handled || events[i
            + 1] is TornDown,
{
    if i + 1 < events.len() {
        assert(can_end_in(actor_next(events[i]), events[i + 1]));
    }
}

/// The callback `stopping` runs when the mailbox has closed or the task is torn
/// down, and after it the task handles nothing more and ends. The task ends
/// normally in no other way.
pub proof fn law_stopping_runs_last<M>(events: Seq<ActorEvent<M>>, i: int)
    requires
        is_life(events),
        0 <= i < events.len(),
    ensures
        actions_of(events)[i] is RunStopping <==> events[i] is MailboxClosed
            || events[i] is TornDown,
        actions_of(events)[i] is RunStopping ==> events.len() <= i + 2,
        actions_of(events)[i] is RunStopping && i + 1 < events.len() ==> actions_of(events)[i
            + 1] is Finish,
        actions_of(events)[i] is Finish ==> i > 0 && actions_of(events)[i - 1] is RunStopping,
{
    lemma_life_shape(events, i);
    if actions_of(events)[i] is RunStopping && i + 1 < events.len() {
        assert(can_end_in(actor_next(events[i]), events[i + 1]));
        if i + 2 < events.len() {
            assert(can_end_in(actor_next(events[i + 1]), events[i + 2]));
        }
    }
}

/// The callback `stopping` runs at most once in a life.
pub proof fn law_stopping_runs_once<M>(events: Seq<ActorEvent<M>>, i: int, j: int)
    requires
        is_life(events),
        0 <= i < events.len(),
        0 <= j < events.len(),
        actions_of(events)[i] is RunStopping,
        actions_of(events)[j] is RunStopping,
    ensures
        i == j,
{
    law_stopping_runs_last(events, i);
    law_stopping_runs_last(events, j);
}

/// A task that is torn down runs the callback `stopping`, wherever in its life
/// it is, unless that callback has begun already.
pub proof fn law_teardown_runs_stopping<M>(events: Seq<ActorEvent<M>>)
    requires
        is_life(events),
        events.len() > 0,
        !(actions_of(events).last() is RunStopping),
        !(actions_of(events).last() is Finish),
    ensures
        is_life(events.push(ActorEvent::TornDown)),
        actions_of(events.push(ActorEvent::TornDown)).last() is RunStopping,
{
    let all = events.push(ActorEvent::TornDown);
    assert forall|i: int| 0 <= i && i + 1 < all.len() implies can_end_in(
        actor_next(#[trigger] all[i]),
        all[i + 1],
    ) by {
        if i + 1 < events.len() {
            assert(can_end_in(actor_next(events[i]), events[i + 1]));
        } else {
            assert(actions_of(events).last() == actor_next(events[i]));
        }
    }
}

/// What the task does next depends on what just happened, and on nothing else:
/// it starts what was spawned, waits for a message when it is free, handles
/// exactly the message that came, stops when the mailbox has closed or the task
/// is torn down, and finishes once it has stopped.
pub proof fn law_actor_follows_its_events<M>(
    event: ActorEvent<M>,
    action: ActorAction<M>,
    msg: M,
)
    requires
        call_ensures(actor_step::<M>, (event,), action),
    ensures
        action is RunStarted <==> event is Spawned,
        action is Receive <==> event is Started || event is Handled,
        action == ActorAction::Handle(msg) <==> event == ActorEvent::Received(msg),
        action is RunStopping <==> event is MailboxClosed || event is TornDown,
        action is Finish <==> event is Stopped,
{
}

/// An actor that has started or has handled a message goes on to the next one.
pub proof fn law_actor_goes_on<M>(events: Seq<ActorEvent<M>>, i: int)
    requires
        is_life(events),
        0 <= i < events.len(),
    ensures
        actions_of(events)[i] is Receive <==> events[i] is Started || events[i] is Handled,
        actions_of(events)[i] is Finish <==> events[i] is Stopped,
{
}

} // verus!

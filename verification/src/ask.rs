//! Request and reply with a bounded wait.
//!
//! The caller puts a message that carries a reply channel into the mailbox,
//! waiting for room if there is none, and then waits for the reply. One
//! deadline, `dur` after the start, covers both waits. Each wait ends in an
//! [`AskEvent`], and [`ask_step`] says what comes next.

use std::time::Duration;

use vstd::prelude::*;

use crate::actor::AskError;

verus! {

/// How a wait of a request ended.
#[derive(Debug, PartialEq, Eq)]
pub enum AskEvent<R> {
    /// The message is in the mailbox.
    Sent,
    /// The mailbox is closed.
    MailboxClosed,
    /// The reply came.
    Replied(R),
    /// The reply channel was dropped without a reply.
    ReplyDropped,
    /// The deadline passed.
    Elapsed,
}

/// What a request does next.
#[derive(Debug, PartialEq, Eq)]
pub enum AskStep<R> {
    /// Wait for the reply.
    AwaitReply,
    /// Hand the result to the caller.
    Done(Result<R, AskError>),
}

/// What comes after `event` in a request that may take `dur`.
pub open spec fn ask_next<R>(event: AskEvent<R>, dur: Duration) -> AskStep<R> {
    match event {
        AskEvent::Sent => AskStep::AwaitReply,
        AskEvent::MailboxClosed => AskStep::Done(Err(AskError::Closed)),
        AskEvent::Replied(reply) => AskStep::Done(Ok(reply)),
        AskEvent::ReplyDropped => AskStep::Done(Err(AskError::Closed)),
        AskEvent::Elapsed => AskStep::Done(Err(AskError::Timeout(dur))),
    }
}

/// What comes after `event` in a request that may take `dur`.
pub fn ask_step<R>(event: AskEvent<R>, dur: Duration) -> (step: AskStep<R>)
    ensures
        step == ask_next(event, dur),
        step is AwaitReply <==> event is Sent,
        event matches AskEvent::Replied(reply) ==> step == AskStep::<R>::Done(Ok(reply)),
        step matches AskStep::Done(Ok(_)) ==> event is Replied,
        step == AskStep::<R>::Done(Err(AskError::Timeout(dur))) <==> event is Elapsed,
        step == AskStep::<R>::Done(Err(AskError::Closed)) <==> event is MailboxClosed
            || event is ReplyDropped,
{
    match event {
        AskEvent::Sent => AskStep::AwaitReply,
        AskEvent::MailboxClosed => AskStep::Done(Err(AskError::Closed)),
        AskEvent::Replied(reply) => AskStep::Done(Ok(reply)),
        AskEvent::ReplyDropped => AskStep::Done(Err(AskError::Closed)),
        AskEvent::Elapsed => AskStep::Done(Err(AskError::Timeout(dur))),
    }
}

/// Whether `event` can end the wait for room in the mailbox.
pub open spec fn ends_sending<R>(event: AskEvent<R>) -> bool {
    event is Sent || event is MailboxClosed || event is Elapsed
}

/// Whether `event` can end the wait for the reply.
pub open spec fn ends_waiting<R>(event: AskEvent<R>) -> bool {
    event is Replied || event is ReplyDropped || event is Elapsed
}

/// The result of a request whose first wait ended in `sending`, and whose
/// second, if there is one, ends in `waiting`.
pub open spec fn ask_result<R>(
    sending: AskEvent<R>,
    waiting: AskEvent<R>,
    dur: Duration,
) -> AskStep<R> {
    if ask_next(sending, dur) is AwaitReply {
        ask_next(waiting, dur)
    } else {
        ask_next(sending, dur)
    }
}

/// Every request ends: with the reply that came, with a timeout exactly when
/// the deadline passed in either wait, and as closed exactly when the mailbox
/// or the reply channel was gone.
pub proof fn law_every_ask_ends<R>(sending: AskEvent<R>, waiting: AskEvent<R>, dur: Duration)
    requires
        ends_sending(sending),
        ends_waiting(waiting),
    ensures
        ask_result(sending, waiting, dur) matches AskStep::Done(result) && {
            let replied = sending is Sent && waiting is Replied;
            &&& replied ==> result == Ok::<R, AskError>(waiting->Replied_0)
            &&& !replied ==> result is Err
            &&& result == Err::<R, AskError>(AskError::Timeout(dur)) <==> {
                sending is Elapsed || (sending is Sent && waiting is Elapsed)
            }
            &&& result == Err::<R, AskError>(AskError::Closed) <==> {
                sending is MailboxClosed || (sending is Sent && waiting is ReplyDropped)
            }
        },
{
}

/// What a request does next, whatever came: it waits on exactly once its
/// message is in the mailbox, it hands over a reply exactly when one came and
/// that very reply, and otherwise it fails, by the deadline with the time that
/// was allowed, or as closed because nobody is there to reply.
pub proof fn law_ask_follows_its_events<R>(
    event: AskEvent<R>,
    dur: Duration,
    step: AskStep<R>,
    reply: R,
    error: AskError,
)
    requires
        call_ensures(ask_step::<R>, (event, dur), step),
    ensures
        step is AwaitReply <==> event is Sent,
        step == AskStep::<R>::Done(Ok(reply)) <==> event == AskEvent::Replied(reply),
        step == AskStep::<R>::Done(Err(error)) <==> {
            ||| event is Elapsed && error == AskError::Timeout(dur)
            ||| (event is MailboxClosed || event is ReplyDropped) && error is Closed
        },
{
}

/// A request whose message went into the mailbox and that was answered in time
/// gives that answer; no other request succeeds.
pub proof fn law_ask_gives_the_reply<R>(
    sending: AskEvent<R>,
    first: AskStep<R>,
    waiting: AskEvent<R>,
    second: AskStep<R>,
    dur: Duration,
    reply: R,
)
    requires
        call_ensures(ask_step::<R>, (sending, dur), first),
        call_ensures(ask_step::<R>, (waiting, dur), second),
        sending is Sent || sending is MailboxClosed || sending is Elapsed,
        waiting is Replied || waiting is ReplyDropped || waiting is Elapsed,
    ensures
        (first is AwaitReply && second == AskStep::<R>::Done(Ok(reply))) <==> (sending is Sent
            && waiting == AskEvent::Replied(reply)),
        !(first matches AskStep::Done(Ok(_))),
        !(second is AwaitReply),
        sending is Elapsed ==> first == AskStep::<R>::Done(Err(AskError::Timeout(dur))),
        waiting is Elapsed ==> second == AskStep::<R>::Done(Err(AskError::Timeout(dur))),
{
}

} // verus!

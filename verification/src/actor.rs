//! Actor addresses, bounded mailboxes and the decisions around them.
//!
//! An actor owns its state and drains a bounded mailbox; an [`Addr`] is the
//! handle through which messages reach it. When the mailbox is full,
//! [`Addr::tell`] says so at once and the caller decides what to do.
//!
//! A mailbox stays open as long as an address holds it. The address that an
//! actor has of itself does not: once all other addresses are dropped the
//! mailbox closes, and the actor stops. A clone of that address holds the
//! mailbox like any other.

use std::sync::Arc;
use std::time::Duration;

use tokio::sync::mpsc;
use vstd::prelude::*;
use vstd::string::StringExecFns;

use crate::text;

verus! {

/// The sending half of a bounded channel. Verus sees nothing inside it.
#[verifier::external_type_specification]
#[verifier::external_body]
#[verifier::reject_recursive_types(T)]
pub struct ExSender<T>(mpsc::Sender<T>);

/// A sending half that does not keep the channel open. Verus sees nothing inside it.
#[verifier::external_type_specification]
#[verifier::external_body]
#[verifier::reject_recursive_types(T)]
pub struct ExWeakSender<T>(mpsc::WeakSender<T>);

/// The receiving half of a bounded channel. Verus sees nothing inside it.
#[verifier::external_type_specification]
#[verifier::external_body]
#[verifier::reject_recursive_types(T)]
pub struct ExReceiver<T>(mpsc::Receiver<T>);

/// The largest capacity that a channel can have.
pub open spec fn max_mailbox() -> int {
    usize::MAX as int / 8
}

/// Whether a mailbox can have this capacity.
pub fn valid_mailbox_bound(mailbox_bound: usize) -> (valid: bool)
    ensures
        valid == (0 < mailbox_bound <= max_mailbox()),
        valid <==> mailbox_bound != 0 && mailbox_bound <= usize::MAX / 8,
{
    0 < mailbox_bound && mailbox_bound <= usize::MAX / 8
}

/// `mpsc::channel`: it panics on a capacity of zero and on one above the limit
/// of its semaphore. That the channel buffers `buffer` messages is not stated:
/// the halves are opaque.
pub assume_specification<T>[ mpsc::channel::<T> ](buffer: usize) -> (halves: (
    mpsc::Sender<T>,
    mpsc::Receiver<T>,
))
    requires
        0 < buffer <= max_mailbox(),
;

/// `Sender::downgrade`: nothing is stated of the weak sender, which is opaque.
pub assume_specification<T>[ mpsc::Sender::<T>::downgrade ](sender: &mpsc::Sender<T>) -> (weak:
    mpsc::WeakSender<T>)
;

/// `WeakSender::upgrade`: whether there is still a sender depends on what other
/// tasks hold, so nothing is stated.
pub assume_specification<T>[ mpsc::WeakSender::<T>::upgrade ](weak: &mpsc::WeakSender<T>) -> (
sender: Option<mpsc::Sender<T>>)
;

/// What became of a message that was to be sent without waiting.
#[derive(Debug, PartialEq, Eq)]
pub enum SendOutcome<M> {
    /// It is in the mailbox.
    Sent,
    /// The mailbox is full; the message is handed back.
    Full(M),
    /// The mailbox is closed; the message is handed back.
    Closed(M),
}

/// Calls `Sender::try_send`. Which outcome it has depends on what other tasks
/// do to the channel; a message that was not sent comes back as it was.
#[verifier::external_body]
fn try_send<M>(sender: &mpsc::Sender<M>, msg: M) -> (outcome: SendOutcome<M>)
    ensures
        outcome matches SendOutcome::Full(m) ==> m == msg,
        outcome matches SendOutcome::Closed(m) ==> m == msg,
{
    match sender.try_send(msg) {
        Ok(()) => SendOutcome::Sent,
        Err(mpsc::error::TrySendError::Full(m)) => SendOutcome::Full(m),
        Err(mpsc::error::TrySendError::Closed(m)) => SendOutcome::Closed(m),
    }
}

/// Whether `outcome` can be what sending `msg` through `sender` without waiting comes to.
pub closed spec fn can_send<M>(
    sender: mpsc::Sender<M>,
    msg: M,
    outcome: SendOutcome<M>,
) -> bool {
    call_ensures(try_send::<M>, (&sender, msg), outcome)
}

/// The error of a message that could not be delivered without waiting.
///
/// This is the backpressure signal: drop, log or shed load, and do not retry
/// forever in silence.
#[derive(Debug, Clone, Copy, PartialEq, Eq, Structural)]
pub enum MailboxFull {
    /// The mailbox is full.
    Dropped { capacity: usize },
    /// The actor is no longer running.
    Gone,
}

/// The errors of a request with a reply.
#[derive(Debug, Clone, Copy, PartialEq, Eq)]
pub enum AskError {
    /// No reply within the time allowed.
    Timeout(Duration),
    /// The caller must shed load or back off.
    MailboxFull,
    /// The actor exited before it replied.
    Closed,
    /// The actor panicked while it handled the request.
    Panic,
}

impl MailboxFull {
    /// The error's message.
    pub fn message(&self) -> (text: String)
        ensures
            *self matches MailboxFull::Dropped { capacity } ==> text@
                == "mailbox full (capacity="@ + text::decimal(capacity as nat)
                + "), message dropped"@,
            *self is Gone ==> text@ == "actor is no longer running"@,
    {
        match self {
            MailboxFull::Dropped { capacity } => "mailbox full (capacity=".to_owned().concat(
                text::number(*capacity).as_str(),
            ).concat("), message dropped"),
            MailboxFull::Gone => "actor is no longer running".to_owned(),
        }
    }
}

impl AskError {
    /// The error's message.
    pub fn message(&self) -> (text: String)
        ensures
            *self matches AskError::Timeout(dur) ==> text@ == "ask timed out after "@
                + text::duration_text(dur),
            *self is MailboxFull ==> text@ == "mailbox full"@,
            *self is Closed ==> text@ == "actor exited before replying"@,
            *self is Panic ==> text@ == "actor panicked while handling the request"@,
    {
        match self {
            AskError::Timeout(dur) => "ask timed out after ".to_owned().concat(
                text::duration_debug(dur).as_str(),
            ),
            AskError::MailboxFull => "mailbox full".to_owned(),
            AskError::Closed => "actor exited before replying".to_owned(),
            AskError::Panic => "actor panicked while handling the request".to_owned(),
        }
    }
}

/// What `tell` answers for each outcome of the send.
pub open spec fn told<M>(outcome: SendOutcome<M>, capacity: usize) -> Result<(), MailboxFull> {
    match outcome {
        SendOutcome::Sent => Ok(()),
        SendOutcome::Full(_) => Err(MailboxFull::Dropped { capacity }),
        SendOutcome::Closed(_) => Err(MailboxFull::Gone),
    }
}

/// What `tell` answers, given what became of the message. A message that was
/// handed back is dropped.
pub fn tell_result<M>(outcome: SendOutcome<M>, capacity: usize) -> (result: Result<
    (),
    MailboxFull,
>)
    ensures
        result == told(outcome, capacity),
        result is Ok <==> outcome is Sent,
        result == Err::<(), MailboxFull>(MailboxFull::Dropped { capacity }) <==> outcome is Full,
        result == Err::<(), MailboxFull>(MailboxFull::Gone) <==> outcome is Closed,
{
    match outcome {
        SendOutcome::Sent => Ok(()),
        SendOutcome::Full(_) => Err(MailboxFull::Dropped { capacity }),
        SendOutcome::Closed(_) => Err(MailboxFull::Gone),
    }
}

/// How an address reaches the mailbox.
#[derive(Debug)]
#[verifier::reject_recursive_types(M)]
enum Link<M> {
    /// Keeps the mailbox open.
    Holding(Arc<mpsc::Sender<M>>),
    /// Reaches the mailbox as long as some other address holds it.
    Watching(mpsc::WeakSender<M>),
    /// The mailbox was found closed.
    Closed,
}

/// A handle to an actor. Cheap to clone.
#[derive(Debug)]
#[verifier::reject_recursive_types(M)]
pub struct Addr<M: Send + 'static> {
    link: Link<M>,
    capacity: usize,
    name: Arc<str>,
}

impl<M: Send + 'static> Addr<M> {
    /// The name of the actor.
    pub closed spec fn label(&self) -> Arc<str> {
        self.name
    }

    /// The capacity of the mailbox.
    pub closed spec fn bound(&self) -> usize {
        self.capacity
    }

    /// The sending half that this address keeps, if it keeps the mailbox open.
    pub closed spec fn held(&self) -> Option<mpsc::Sender<M>> {
        match self.link {
            Link::Holding(sender) => Some(*sender),
            Link::Watching(_) => None,
            Link::Closed => None,
        }
    }

    /// The weak half through which this address reaches a mailbox that others hold.
    pub closed spec fn watched(&self) -> Option<mpsc::WeakSender<M>> {
        match self.link {
            Link::Holding(_) => None,
            Link::Watching(weak) => Some(weak),
            Link::Closed => None,
        }
    }

    /// Whether this address keeps the mailbox open.
    pub open spec fn holds_mailbox(&self) -> bool {
        self.held() is Some
    }

    /// Whether this address knows that the mailbox is closed.
    pub open spec fn knows_closed(&self) -> bool {
        self.held() is None && self.watched() is None
    }

    /// Whether `sender` can be what this address reaches when it looks: the
    /// sending half that it keeps, what its weak half is upgraded to, or nothing.
    pub open spec fn reaches(&self, sender: Option<mpsc::Sender<M>>) -> bool {
        match (self.held(), self.watched()) {
            (Some(held), _) => sender == Some(held),
            (None, Some(weak)) => call_ensures(
                mpsc::WeakSender::<M>::upgrade,
                (&weak,),
                sender,
            ),
            (None, None) => sender is None,
        }
    }

    /// Whether `result` can be what `tell` answers: the message goes to what
    /// the address reaches, and the outcome of that is answered.
    pub open spec fn answers(&self, msg: M, result: Result<(), MailboxFull>) -> bool {
        exists|sender: Option<mpsc::Sender<M>>, outcome: SendOutcome<M>|
            {
                &&& #[trigger] self.reaches(sender)
                &&& match sender {
                    Some(tx) => can_send(tx, msg, outcome),
                    None => outcome == SendOutcome::Closed(msg),
                }
                &&& result == #[trigger] told(outcome, self.bound())
            }
    }

    /// A new mailbox for at most `mailbox_bound` messages: an address that
    /// holds it and the end at which messages come out.
    pub fn mailbox<I: Into<Arc<str>>>(name: I, mailbox_bound: usize) -> (halves: (
        Self,
        mpsc::Receiver<M>,
    ))
        requires
            0 < mailbox_bound <= max_mailbox(),
        ensures
            call_ensures(<I as Into<Arc<str>>>::into, (name,), halves.0.label()),
            halves.0.bound() == mailbox_bound,
            halves.0.held() matches Some(tx) && call_ensures(
                mpsc::channel::<M>,
                (mailbox_bound,),
                (tx, halves.1),
            ),
    {
        let (tx, rx) = mpsc::channel::<M>(mailbox_bound);
        let addr = Addr {
            link: Link::Holding(Arc::new(tx)),
            capacity: mailbox_bound,
            name: name.into(),
        };
        (addr, rx)
    }

    /// The name shown in traces. All addresses of one actor share it.
    pub fn name(&self) -> (name: &str)
        ensures
            name@ == (*self.label())@,
    {
        &self.name
    }

    /// Mailbox capacity.
    pub fn capacity(&self) -> (capacity: usize)
        ensures
            capacity == self.bound(),
    {
        self.capacity
    }

    /// The sending half of the mailbox, if it is still open as far as this
    /// address can tell.
    pub fn sender(&self) -> (sender: Option<Arc<mpsc::Sender<M>>>)
        ensures
            self.reaches(
                match sender {
                    Some(tx) => Some(*tx),
                    None => None,
                },
            ),
            self.held() matches Some(tx) ==> (sender matches Some(found) && *found == tx),
            self.watched() matches Some(weak) ==> call_ensures(
                mpsc::WeakSender::<M>::upgrade,
                (&weak,),
                match sender {
                    Some(tx) => Some(*tx),
                    None => None,
                },
            ),
            self.knows_closed() ==> sender is None,
    {
        match &self.link {
            Link::Holding(sender) => Some(Arc::clone(sender)),
            Link::Watching(weak) => match weak.upgrade() {
                Some(sender) => Some(Arc::new(sender)),
                None => None,
            },
            Link::Closed => None,
        }
    }

    /// The same address, except that it does not keep the mailbox open.
    pub fn watching(&self) -> (addr: Self)
        ensures
            addr.label() == self.label(),
            addr.bound() == self.bound(),
            !addr.holds_mailbox(),
            self.held() matches Some(tx) ==> (addr.watched() matches Some(weak) && call_ensures(
                mpsc::Sender::<M>::downgrade,
                (&tx,),
                weak,
            )),
            self.knows_closed() ==> addr.knows_closed(),
            exists|sender: Option<mpsc::Sender<M>>|
                #[trigger] self.reaches(sender) && match sender {
                    Some(tx) => addr.watched() matches Some(weak) && call_ensures(
                        mpsc::Sender::<M>::downgrade,
                        (&tx,),
                        weak,
                    ),
                    None => addr.knows_closed(),
                },
    {
        let link = match self.sender() {
            Some(sender) => {
                assert(self.reaches(Some(*sender)));
                Link::Watching(sender.downgrade())
            },
            None => {
                assert(self.reaches(None));
                Link::Closed
            },
        };
        Addr { link, capacity: self.capacity, name: Arc::clone(&self.name) }
    }

    /// Send a message without waiting.
    ///
    /// Fails if the mailbox is full or the actor is gone; the message is
    /// dropped then. Which of the three comes back is up to the channel:
    /// [`tell_result`] says what is answered for each.
    pub fn tell(&self, msg: M) -> (result: Result<(), MailboxFull>)
        ensures
            self.answers(msg, result),
            result matches Err(MailboxFull::Dropped { capacity }) ==> capacity == self.bound(),
            self.knows_closed() ==> result == Err::<(), MailboxFull>(MailboxFull::Gone),
            self.held() matches Some(tx) ==> exists|outcome: SendOutcome<M>|
                {
                    &&& #[trigger] can_send(tx, msg, outcome)
                    &&& result is Ok <==> outcome is Sent
                    &&& result == Err::<(), MailboxFull>(
                        MailboxFull::Dropped { capacity: self.bound() },
                    ) <==> outcome is Full
                    &&& result == Err::<(), MailboxFull>(MailboxFull::Gone) <==> outcome is Closed
                },
            self.watched() matches Some(weak) ==> exists|
                sender: Option<mpsc::Sender<M>>,
                outcome: SendOutcome<M>,
            |
                #![trigger call_ensures(mpsc::WeakSender::<M>::upgrade, (&weak,), sender), told(
                    outcome,
                    self.bound(),
                )]
                {
                    &&& call_ensures(mpsc::WeakSender::<M>::upgrade, (&weak,), sender)
                    &&& match sender {
                        Some(tx) => can_send(tx, msg, outcome),
                        None => outcome == SendOutcome::Closed(msg),
                    }
                    &&& result is Ok <==> outcome is Sent
                    &&& result == Err::<(), MailboxFull>(
                        MailboxFull::Dropped { capacity: self.bound() },
                    ) <==> outcome is Full
                    &&& result == Err::<(), MailboxFull>(MailboxFull::Gone) <==> outcome is Closed
                },
    {
        let ghost sent = msg;
        let outcome = match self.sender() {
            Some(sender) => {
                assert(self.reaches(Some(*sender)));
                let outcome = try_send(&sender, msg);
                assert(can_send(*sender, sent, outcome));
                outcome
            },
            None => {
                assert(self.reaches(None));
                SendOutcome::Closed(msg)
            },
        };
        let ghost came = outcome;
        let result = tell_result(outcome, self.capacity);
        assert(result == told(came, self.bound()));
        result
    }
}

impl<M: Send + 'static> Clone for Addr<M> {
    /// A clone has the name and the capacity of the original, and holds the
    /// mailbox that the original reaches, unless that is closed.
    fn clone(&self) -> (copy: Self)
        ensures
            copy.label() == self.label(),
            copy.bound() == self.bound(),
            self.reaches(copy.held()),
            copy.holds_mailbox() || copy.knows_closed(),
            self.held() is Some ==> copy.held() == self.held(),
            self.watched() matches Some(weak) ==> call_ensures(
                mpsc::WeakSender::<M>::upgrade,
                (&weak,),
                copy.held(),
            ),
            self.knows_closed() ==> copy.knows_closed(),
    {
        let link = match self.sender() {
            Some(sender) => Link::Holding(sender),
            None => Link::Closed,
        };
        Addr { link, capacity: self.capacity, name: Arc::clone(&self.name) }
    }
}

/// What an actor's callbacks are given.
#[verifier::reject_recursive_types(M)]
pub struct Context<M: Send + 'static> {
    /// The actor's own address. It does not keep the mailbox open.
    pub self_addr: Addr<M>,
}

impl<M: Send + 'static> Context<M> {
    /// The context of the actor that `addr` reaches.
    pub fn new(addr: &Addr<M>) -> (ctx: Self)
        ensures
            ctx.self_addr.label() == addr.label(),
            ctx.self_addr.bound() == addr.bound(),
            !ctx.self_addr.holds_mailbox(),
            addr.held() matches Some(tx) ==> (ctx.self_addr.watched() matches Some(weak)
                && call_ensures(mpsc::Sender::<M>::downgrade, (&tx,), weak)),
            addr.knows_closed() ==> ctx.self_addr.knows_closed(),
            exists|sender: Option<mpsc::Sender<M>>| #[trigger]
                addr.reaches(sender) && match sender {
                    Some(tx) => ctx.self_addr.watched() matches Some(weak) && call_ensures(
                        mpsc::Sender::<M>::downgrade,
                        (&tx,),
                        weak,
                    ),
                    None => ctx.self_addr.knows_closed(),
                },
    {
        Context { self_addr: addr.watching() }
    }

    /// Send a message to ourselves.
    pub fn tell_self(&self, msg: M) -> (result: Result<(), MailboxFull>)
        ensures
            self.self_addr.answers(msg, result),
            result matches Err(MailboxFull::Dropped { capacity }) ==> capacity
                == self.self_addr.bound(),
            self.self_addr.knows_closed() ==> result == Err::<(), MailboxFull>(MailboxFull::Gone),
            self.self_addr.held() matches Some(tx) ==> exists|outcome: SendOutcome<M>|
                {
                    &&& #[trigger] can_send(tx, msg, outcome)
                    &&& result is Ok <==> outcome is Sent
                    &&& result == Err::<(), MailboxFull>(
                        MailboxFull::Dropped { capacity: self.self_addr.bound() },
                    ) <==> outcome is Full
                    &&& result == Err::<(), MailboxFull>(MailboxFull::Gone) <==> outcome is Closed
                },
            self.self_addr.watched() matches Some(weak) ==> exists|
                sender: Option<mpsc::Sender<M>>,
                outcome: SendOutcome<M>,
            |
                #![trigger call_ensures(mpsc::WeakSender::<M>::upgrade, (&weak,), sender), told(
                    outcome,
                    self.self_addr.bound(),
                )]
                {
                    &&& call_ensures(mpsc::WeakSender::<M>::upgrade, (&weak,), sender)
                    &&& match sender {
                        Some(tx) => can_send(tx, msg, outcome),
                        None => outcome == SendOutcome::Closed(msg),
                    }
                    &&& result is Ok <==> outcome is Sent
                    &&& result == Err::<(), MailboxFull>(
                        MailboxFull::Dropped { capacity: self.self_addr.bound() },
                    ) <==> outcome is Full
                    &&& result == Err::<(), MailboxFull>(MailboxFull::Gone) <==> outcome is Closed
                },
    {
        self.self_addr.tell(msg)
    }
}

/// The sender learns what became of a message: it is told that the message was
/// delivered exactly when the message went into the mailbox, that it was
/// dropped, with the capacity of the mailbox, exactly when the mailbox was
/// full, and that the actor is gone exactly when the mailbox was closed.
pub proof fn law_tell_answers_what_happened<M>(
    outcome: SendOutcome<M>,
    capacity: usize,
    result: Result<(), MailboxFull>,
)
    requires
        call_ensures(tell_result::<M>, (outcome, capacity), result),
    ensures
        result is Ok <==> outcome is Sent,
        (result matches Err(error) && error is Dropped) <==> outcome is Full,
        (result matches Err(error) && error is Gone) <==> outcome is Closed,
        result matches Err(MailboxFull::Dropped { capacity: told_capacity }) ==> told_capacity
            == capacity,
{
}

/// What `tell` may answer is what the channel says: through an address that
/// holds the mailbox, the message is offered to that mailbox, a delivery is
/// claimed only of a message that went in, and a message that went in is never
/// reported lost.
pub proof fn law_tell_is_answered_by_the_mailbox<M: Send + 'static>(
    addr: Addr<M>,
    msg: M,
    result: Result<(), MailboxFull>,
)
    requires
        addr.answers(msg, result),
        addr.held() is Some,
    ensures
        exists|outcome: SendOutcome<M>|
            {
                &&& #[trigger] can_send(addr.held()->0, msg, outcome)
                &&& result is Ok <==> outcome is Sent
                &&& result == Err::<(), MailboxFull>(
                    MailboxFull::Dropped { capacity: addr.bound() },
                ) <==> outcome is Full
                &&& result == Err::<(), MailboxFull>(MailboxFull::Gone) <==> outcome is Closed
            },
{
}

/// What sending without waiting can come to is up to the channel alone.
proof fn lemma_sending_is_up_to_the_channel<M>(
    sender: mpsc::Sender<M>,
    msg: M,
    outcome: SendOutcome<M>,
)
    ensures
        can_send(sender, msg, outcome) <==> call_ensures(
            try_send::<M>,
            (&sender, msg),
            outcome,
        ),
{
}

/// A message that is not delivered is the one that was to be sent.
pub proof fn law_refused_message_comes_back<M>(
    sender: mpsc::Sender<M>,
    msg: M,
    outcome: SendOutcome<M>,
)
    requires
        can_send(sender, msg, outcome),
    ensures
        outcome is Sent || outcome == SendOutcome::Full(msg) || outcome == SendOutcome::Closed(msg),
{
    lemma_sending_is_up_to_the_channel(sender, msg, outcome);
}

/// A mailbox can have every capacity from one up to an eighth of the range of `usize`.
pub proof fn law_mailbox_capacities(bound: usize)
    ensures
        0 < bound <= max_mailbox() <==> bound != 0 && bound <= usize::MAX / 8,
{
}

} // verus!

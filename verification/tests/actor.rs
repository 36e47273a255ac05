use std::sync::Arc;
use std::time::Duration;

use erlang_actors_rust::actor::{tell_result, valid_mailbox_bound, SendOutcome};
use erlang_actors_rust::{Addr, AskError, Context, MailboxFull};
use tokio::sync::mpsc::error::TryRecvError;

#[test]
fn tell_puts_messages_into_the_mailbox_in_order() {
    let (addr, mut rx) = Addr::<u32>::mailbox("counter", 2);
    assert_eq!(addr.name(), "counter");
    assert_eq!(addr.capacity(), 2);
    assert_eq!(addr.tell(1), Ok(()));
    assert_eq!(addr.tell(2), Ok(()));
    assert_eq!(rx.try_recv(), Ok(1));
    assert_eq!(rx.try_recv(), Ok(2));
    assert_eq!(rx.try_recv(), Err(TryRecvError::Empty));
}

#[test]
fn tell_to_a_full_mailbox_drops_the_message() {
    let (addr, mut rx) = Addr::<u32>::mailbox("busy", 1);
    assert_eq!(addr.tell(1), Ok(()));
    assert_eq!(addr.tell(2), Err(MailboxFull::Dropped { capacity: 1 }));
    assert_eq!(rx.try_recv(), Ok(1));
    assert_eq!(addr.tell(3), Ok(()));
    assert_eq!(rx.try_recv(), Ok(3));
}

#[test]
fn tell_to_a_gone_actor_fails() {
    let (addr, rx) = Addr::<u32>::mailbox("gone", 1);
    drop(rx);
    assert_eq!(addr.tell(1), Err(MailboxFull::Gone));
}

#[test]
fn tell_answers_each_outcome_of_the_send() {
    assert_eq!(tell_result::<u8>(SendOutcome::Sent, 3), Ok(()));
    assert_eq!(
        tell_result(SendOutcome::Full(9u8), 3),
        Err(MailboxFull::Dropped { capacity: 3 })
    );
    assert_eq!(
        tell_result(SendOutcome::Closed(9u8), 3),
        Err(MailboxFull::Gone)
    );
}

#[test]
fn clones_share_name_capacity_and_mailbox() {
    let (addr, mut rx) = Addr::<u32>::mailbox(String::from("shared"), 4);
    let copy = addr.clone();
    assert_eq!(copy.name(), "shared");
    assert_eq!(copy.capacity(), 4);
    drop(addr);
    assert_eq!(copy.tell(5), Ok(()));
    assert_eq!(rx.try_recv(), Ok(5));
    assert_eq!(rx.try_recv(), Err(TryRecvError::Empty));
    drop(copy);
    assert_eq!(rx.try_recv(), Err(TryRecvError::Disconnected));
}

#[test]
fn mailbox_takes_a_shared_name() {
    let name: Arc<str> = Arc::from("worker-3");
    let (addr, _rx) = Addr::<u32>::mailbox(Arc::clone(&name), 1);
    assert_eq!(addr.name(), "worker-3");
    assert_eq!(Context::new(&addr).self_addr.name(), "worker-3");
}

#[test]
fn context_reaches_the_own_mailbox_without_holding_it() {
    let (addr, mut rx) = Addr::<u32>::mailbox("selfish", 1);
    let ctx = Context::new(&addr);
    assert_eq!(ctx.self_addr.name(), "selfish");
    assert_eq!(ctx.self_addr.capacity(), 1);
    assert_eq!(ctx.tell_self(7), Ok(()));
    assert_eq!(ctx.tell_self(8), Err(MailboxFull::Dropped { capacity: 1 }));
    assert_eq!(rx.try_recv(), Ok(7));
    drop(addr);
    assert_eq!(rx.try_recv(), Err(TryRecvError::Disconnected));
    assert_eq!(ctx.tell_self(9), Err(MailboxFull::Gone));
    assert!(ctx.self_addr.sender().is_none());
    assert_eq!(ctx.self_addr.clone().tell(9), Err(MailboxFull::Gone));
    assert_eq!(ctx.self_addr.watching().tell(9), Err(MailboxFull::Gone));
}

#[test]
fn clone_of_the_own_address_holds_the_mailbox() {
    let (addr, mut rx) = Addr::<u32>::mailbox("handed_out", 1);
    let ctx = Context::new(&addr);
    let reply_to = ctx.self_addr.clone();
    drop(addr);
    assert_eq!(rx.try_recv(), Err(TryRecvError::Empty));
    assert_eq!(reply_to.tell(1), Ok(()));
    assert_eq!(rx.try_recv(), Ok(1));
    drop(reply_to);
    assert_eq!(rx.try_recv(), Err(TryRecvError::Disconnected));
}

#[test]
fn sender_is_that_of_the_mailbox() {
    let (addr, mut rx) = Addr::<u32>::mailbox("raw", 6);
    let sender = addr.sender().unwrap();
    assert_eq!(sender.max_capacity(), 6);
    sender.try_send(3).unwrap();
    assert_eq!(rx.try_recv(), Ok(3));
}

#[test]
fn mailbox_bounds() {
    assert!(!valid_mailbox_bound(0));
    assert!(valid_mailbox_bound(1));
    assert!(valid_mailbox_bound(tokio::sync::Semaphore::MAX_PERMITS));
    assert!(!valid_mailbox_bound(tokio::sync::Semaphore::MAX_PERMITS + 1));
}

#[test]
fn mailbox_error_messages() {
    assert_eq!(
        MailboxFull::Dropped { capacity: 128 }.message(),
        "mailbox full (capacity=128), message dropped"
    );
    assert_eq!(MailboxFull::Gone.message(), "actor is no longer running");
}

#[test]
fn ask_error_messages() {
    assert_eq!(
        AskError::Timeout(Duration::from_millis(1500)).message(),
        "ask timed out after 1.5s"
    );
    assert_eq!(AskError::MailboxFull.message(), "mailbox full");
    assert_eq!(AskError::Closed.message(), "actor exited before replying");
    assert_eq!(
        AskError::Panic.message(),
        "actor panicked while handling the request"
    );
}

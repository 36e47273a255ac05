use std::time::Duration;

use erlang_actors_rust::ask::{ask_step, AskEvent, AskStep};
use erlang_actors_rust::AskError;

const DUR: Duration = Duration::from_secs(2);

#[test]
fn sent_message_awaits_its_reply() {
    assert_eq!(ask_step::<u64>(AskEvent::Sent, DUR), AskStep::AwaitReply);
    assert_eq!(
        ask_step(AskEvent::Replied(42u64), DUR),
        AskStep::Done(Ok(42))
    );
}

#[test]
fn closed_mailbox_and_lost_reply_are_closed() {
    assert_eq!(
        ask_step::<u64>(AskEvent::MailboxClosed, DUR),
        AskStep::Done(Err(AskError::Closed))
    );
    assert_eq!(
        ask_step::<u64>(AskEvent::ReplyDropped, DUR),
        AskStep::Done(Err(AskError::Closed))
    );
}

#[test]
fn deadline_gives_a_timeout_with_its_duration() {
    assert_eq!(
        ask_step::<u64>(AskEvent::Elapsed, DUR),
        AskStep::Done(Err(AskError::Timeout(DUR)))
    );
}

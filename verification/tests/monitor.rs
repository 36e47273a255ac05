use erlang_actors_rust::monitor::{DownReason, Heartbeat, HeartbeatAction, PingReply};
use erlang_actors_rust::MailboxFull;

fn down() -> HeartbeatAction {
    HeartbeatAction::Report(DownReason::HeartbeatTimeout)
}

fn full() -> Result<(), MailboxFull> {
    Err(MailboxFull::Dropped { capacity: 1 })
}

#[test]
fn answered_pings_go_on_forever() {
    let mut heartbeat = Heartbeat::new(3);
    for _ in 0..100 {
        assert_eq!(heartbeat.on_send(Ok(())), HeartbeatAction::AwaitReply);
        assert_eq!(
            heartbeat.on_reply(PingReply::Answered),
            HeartbeatAction::Sleep
        );
    }
}

#[test]
fn consecutive_misses_report_the_actor_down() {
    let mut heartbeat = Heartbeat::new(3);
    assert_eq!(
        heartbeat.on_reply(PingReply::TimedOut),
        HeartbeatAction::Sleep
    );
    assert_eq!(heartbeat.on_send(full()), HeartbeatAction::Sleep);
    assert_eq!(heartbeat.on_reply(PingReply::TimedOut), down());
}

#[test]
fn full_mailbox_counts_as_a_miss() {
    let mut heartbeat = Heartbeat::new(2);
    assert_eq!(heartbeat.on_send(full()), HeartbeatAction::Sleep);
    assert_eq!(heartbeat.on_send(full()), down());
}

#[test]
fn answer_starts_the_count_again() {
    let mut heartbeat = Heartbeat::new(2);
    for _ in 0..10 {
        assert_eq!(
            heartbeat.on_reply(PingReply::TimedOut),
            HeartbeatAction::Sleep
        );
        assert_eq!(
            heartbeat.on_reply(PingReply::Answered),
            HeartbeatAction::Sleep
        );
    }
    assert_eq!(
        heartbeat.on_reply(PingReply::TimedOut),
        HeartbeatAction::Sleep
    );
    assert_eq!(heartbeat.on_reply(PingReply::TimedOut), down());
}

#[test]
fn thresholds_of_zero_and_one_report_the_first_miss() {
    assert_eq!(Heartbeat::new(1).on_reply(PingReply::TimedOut), down());
    assert_eq!(Heartbeat::new(0).on_reply(PingReply::TimedOut), down());
    assert_eq!(Heartbeat::new(0).on_send(full()), down());
}

#[test]
fn gone_actor_is_reported_at_once() {
    let mut heartbeat = Heartbeat::new(100);
    assert_eq!(
        heartbeat.on_send(Err(MailboxFull::Gone)),
        HeartbeatAction::Report(DownReason::Other(String::from("actor exited")))
    );
    assert_eq!(
        heartbeat.on_reply(PingReply::Dropped),
        HeartbeatAction::Report(DownReason::Other(String::from("reply channel closed")))
    );
}

#[test]
fn down_reasons_clone_with_their_text() {
    for reason in [
        DownReason::Normal,
        DownReason::Panic(String::from("boom")),
        DownReason::Aborted,
        DownReason::HeartbeatTimeout,
        DownReason::Other(String::from("lost")),
    ] {
        assert_eq!(reason.clone(), reason);
    }
}

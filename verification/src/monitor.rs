//! Monitors: one-way watchers of an actor.
//!
//! A monitor that has the actor's task waits for it to end and delivers a
//! [`DownReason`]; see [`crate::join::down_outcome`]. One that has only an
//! address sends pings and counts the misses: that is [`Heartbeat`].

use vstd::prelude::*;

use crate::actor::MailboxFull;

verus! {

/// Why the watched actor went down.
#[derive(Debug, PartialEq, Eq)]
pub enum DownReason {
    /// Returned cleanly.
    Normal,
    /// Task panicked. Holds the panic message.
    Panic(String),
    /// Task was aborted.
    Aborted,
    /// Too many pings in a row were missed.
    HeartbeatTimeout,
    /// Anything else.
    Other(String),
}

impl Clone for DownReason {
    fn clone(&self) -> (copy: Self)
        ensures
            copy == *self,
    {
        match self {
            DownReason::Normal => DownReason::Normal,
            DownReason::Panic(text) => DownReason::Panic(text.clone()),
            DownReason::Aborted => DownReason::Aborted,
            DownReason::HeartbeatTimeout => DownReason::HeartbeatTimeout,
            DownReason::Other(text) => DownReason::Other(text.clone()),
        }
    }
}

/// How the wait for the answer to a ping ended.
#[derive(Debug, Clone, Copy, PartialEq, Eq, Structural)]
pub enum PingReply {
    /// The actor answered.
    Answered,
    /// The actor dropped the reply channel.
    Dropped,
    /// The time for the answer ran out.
    TimedOut,
}

/// What a heartbeat monitor does next.
#[derive(Debug, PartialEq, Eq)]
pub enum HeartbeatAction {
    /// Wait for the answer to the ping.
    AwaitReply,
    /// Sleep for the ping interval, then ping again.
    Sleep,
    /// Deliver the reason and end.
    Report(DownReason),
}

/// What a ping comes to.
pub enum PingOutcome {
    /// The actor answered in time.
    Answered,
    /// The mailbox was full, or no answer came in time.
    Missed,
    /// The actor dropped the reply channel.
    ReplyDropped,
    /// The actor's mailbox is closed.
    Gone,
}

/// The misses in a row after a ping, given those before it.
pub open spec fn misses_after(misses: int, outcome: PingOutcome) -> int {
    match outcome {
        PingOutcome::Answered => 0,
        PingOutcome::Missed => misses + 1,
        PingOutcome::ReplyDropped => misses,
        PingOutcome::Gone => misses,
    }
}

/// Whether `action` is what follows a ping, given the misses in a row before it.
pub open spec fn follows_ping(
    action: HeartbeatAction,
    misses: int,
    threshold: int,
    outcome: PingOutcome,
) -> bool {
    match outcome {
        PingOutcome::Answered => action is Sleep,
        PingOutcome::Missed => if misses + 1 >= threshold {
            action == HeartbeatAction::Report(DownReason::HeartbeatTimeout)
        } else {
            action is Sleep
        },
        PingOutcome::ReplyDropped => action matches HeartbeatAction::Report(DownReason::Other(text))
            && text@ == "reply channel closed"@,
        PingOutcome::Gone => action matches HeartbeatAction::Report(DownReason::Other(text))
            && text@ == "actor exited"@,
    }
}

/// The state of a heartbeat monitor: the misses in a row, and how many of them
/// mean that the actor is down.
pub struct Heartbeat {
    misses: u32,
    miss_threshold: u32,
}

impl Heartbeat {
    /// The misses in a row.
    pub closed spec fn misses(&self) -> int {
        self.misses as int
    }

    /// How many misses in a row mean that the actor is down.
    pub closed spec fn threshold(&self) -> int {
        self.miss_threshold as int
    }

    /// As long as the actor is not reported down, the threshold has not been reached.
    pub open spec fn valid(&self) -> bool {
        0 <= self.misses() && (self.misses() == 0 || self.misses() < self.threshold())
    }

    /// A monitor that has not sent a ping yet.
    pub fn new(miss_threshold: u32) -> (heartbeat: Self)
        ensures
            heartbeat.valid(),
            heartbeat.misses() == 0,
            heartbeat.threshold() == miss_threshold,
    {
        Heartbeat { misses: 0, miss_threshold }
    }

    /// Count a miss. The count stays where it is if the actor is down now.
    fn miss(&mut self) -> (action: HeartbeatAction)
        requires
            old(self).valid(),
        ensures
            final(self).valid(),
            final(self).threshold() == old(self).threshold(),
            follows_ping(
                action,
                old(self).misses(),
                old(self).threshold(),
                PingOutcome::Missed,
            ),
            action is Sleep ==> final(self).misses() == misses_after(
                old(self).misses(),
                PingOutcome::Missed,
            ),
            action is Report ==> final(self).misses() == old(self).misses(),
            action is Report <==> old(self).misses() + 1 >= old(self).threshold(),
            action is Report ==> action == HeartbeatAction::Report(DownReason::HeartbeatTimeout),
            action is Report || action is Sleep,
            action is Sleep ==> final(self).misses() == old(self).misses() + 1,
    {
        if self.miss_threshold == 0 || self.misses >= self.miss_threshold - 1 {
            HeartbeatAction::Report(DownReason::HeartbeatTimeout)
        } else {
            self.misses = self.misses + 1;
            HeartbeatAction::Sleep
        }
    }

    /// What to do once a ping has been sent, or could not be.
    pub fn on_send(&mut self, sent: Result<(), MailboxFull>) -> (action: HeartbeatAction)
        requires
            old(self).valid(),
        ensures
            final(self).valid(),
            final(self).threshold() == old(self).threshold(),
            sent is Ok ==> action is AwaitReply && final(self).misses() == old(self).misses(),
            sent matches Err(error) ==> follows_ping(
                action,
                old(self).misses(),
                old(self).threshold(),
                if error is Gone {
                    PingOutcome::Gone
                } else {
                    PingOutcome::Missed
                },
            ),
            action is Sleep ==> final(self).misses() == misses_after(
                old(self).misses(),
                PingOutcome::Missed,
            ),
            action is Report ==> final(self).misses() == old(self).misses(),
            action is AwaitReply <==> sent is Ok,
            sent matches Err(MailboxFull::Gone) ==> (action matches HeartbeatAction::Report(
                DownReason::Other(text),
            ) && text@ == "actor exited"@),
            sent matches Err(MailboxFull::Dropped { .. }) ==> {
                &&& action is Report <==> old(self).misses() + 1 >= old(self).threshold()
                &&& action is Report ==> action == HeartbeatAction::Report(
                    DownReason::HeartbeatTimeout,
                )
                &&& action is Sleep ==> final(self).misses() == old(self).misses() + 1
            },
    {
        match sent {
            Ok(()) => HeartbeatAction::AwaitReply,
            Err(MailboxFull::Dropped { capacity: _ }) => self.miss(),
            Err(MailboxFull::Gone) => HeartbeatAction::Report(
                DownReason::Other("actor exited".to_owned()),
            ),
        }
    }

    /// What a reply makes of a ping.
    pub open spec fn outcome_of(reply: PingReply) -> PingOutcome {
        match reply {
            PingReply::Answered => PingOutcome::Answered,
            PingReply::Dropped => PingOutcome::ReplyDropped,
            PingReply::TimedOut => PingOutcome::Missed,
        }
    }

    /// What to do once the wait for the answer has ended.
    pub fn on_reply(&mut self, reply: PingReply) -> (action: HeartbeatAction)
        requires
            old(self).valid(),
        ensures
            final(self).valid(),
            final(self).threshold() == old(self).threshold(),
            follows_ping(
                action,
                old(self).misses(),
                old(self).threshold(),
                Self::outcome_of(reply),
            ),
            action is Sleep ==> final(self).misses() == misses_after(
                old(self).misses(),
                Self::outcome_of(reply),
            ),
            action is Report ==> final(self).misses() == old(self).misses(),
            !(action is AwaitReply),
            reply is Answered ==> action is Sleep && final(self).misses() == 0,
            reply is Dropped ==> (action matches HeartbeatAction::Report(DownReason::Other(text))
                && text@ == "reply channel closed"@),
            reply is TimedOut ==> {
                &&& action is Report <==> old(self).misses() + 1 >= old(self).threshold()
                &&& action is Report ==> action == HeartbeatAction::Report(
                    DownReason::HeartbeatTimeout,
                )
                &&& action is Sleep ==> final(self).misses() == old(self).misses() + 1
            },
    {
        match reply {
            PingReply::Answered => {
                self.misses = 0;
                HeartbeatAction::Sleep
            },
            PingReply::Dropped => HeartbeatAction::Report(
                DownReason::Other("reply channel closed".to_owned()),
            ),
            PingReply::TimedOut => self.miss(),
        }
    }
}

/// The misses at the end of `outcomes`, counted from the last one that was answered.
pub open spec fn trailing_misses(outcomes: Seq<PingOutcome>) -> int
    decreases outcomes.len(),
{
    if outcomes.len() == 0 {
        0
    } else {
        misses_after(trailing_misses(outcomes.drop_last()), outcomes.last())
    }
}

/// Whether a ping after `before` makes the monitor report the actor down.
pub open spec fn reports(before: Seq<PingOutcome>, outcome: PingOutcome, threshold: int) -> bool {
    exists|action: HeartbeatAction|
        action is Report && #[trigger] follows_ping(
            action,
            trailing_misses(before),
            threshold,
            outcome,
        )
}

proof fn lemma_trailing_misses(outcomes: Seq<PingOutcome>, n: int)
    requires
        forall|k: int|
            0 <= k < outcomes.len() ==> (#[trigger] outcomes[k] is Missed || outcomes[k] is Answered),
        0 <= n <= outcomes.len(),
    ensures
        trailing_misses(outcomes) >= 0,
        trailing_misses(outcomes) >= n <==> forall|k: int|
            outcomes.len() - n <= k < outcomes.len() ==> #[trigger] outcomes[k] is Missed,
    decreases outcomes.len(),
{
    if outcomes.len() > 0 {
        let before = outcomes.drop_last();
        assert forall|k: int| 0 <= k < before.len() implies (#[trigger] before[k] is Missed
            || before[k] is Answered) by {
            assert(before[k] == outcomes[k]);
        }
        if n > 0 {
            lemma_trailing_misses(before, n - 1);
            assert(forall|k: int| 0 <= k < before.len() ==> before[k] == #[trigger] outcomes[k]);
            assert(outcomes[outcomes.len() - 1] == outcomes.last());
        } else {
            lemma_trailing_misses(before, 0);
        }
    }
}

/// How many misses in a row it takes to report an actor down: the threshold,
/// where zero counts as one.
pub open spec fn needed_misses(threshold: u32) -> int {
    if threshold == 0 {
        1
    } else {
        threshold as int
    }
}

/// An actor that answers or misses pings is reported down exactly when as many
/// pings in a row as the threshold says were missed, the last one being the
/// one that is reported; an answer starts the count again.
pub proof fn law_down_after_consecutive_misses(outcomes: Seq<PingOutcome>, threshold: u32)
    requires
        outcomes.len() > 0,
        forall|k: int|
            0 <= k < outcomes.len() ==> (#[trigger] outcomes[k] is Missed || outcomes[k] is Answered),
    ensures
        reports(outcomes.drop_last(), outcomes.last(), threshold as int) <==> {
            &&& outcomes.len() >= needed_misses(threshold)
            &&& forall|k: int|
                outcomes.len() - needed_misses(threshold) <= k < outcomes.len() ==> #[trigger] outcomes[k] is Missed
        },
{
    let before = outcomes.drop_last();
    let timeout = HeartbeatAction::Report(DownReason::HeartbeatTimeout);
    assert(outcomes[outcomes.len() - 1] == outcomes.last());
    if outcomes.len() >= needed_misses(threshold) {
        lemma_trailing_misses(outcomes, needed_misses(threshold));
    }
    lemma_trailing_misses_bound(before);
    if outcomes.last() is Missed && trailing_misses(before) + 1 >= threshold {
        assert(follows_ping(timeout, trailing_misses(before), threshold as int, outcomes.last()));
    }
}

proof fn lemma_trailing_misses_bound(outcomes: Seq<PingOutcome>)
    ensures
        0 <= trailing_misses(outcomes) <= outcomes.len(),
    decreases outcomes.len(),
{
    if outcomes.len() > 0 {
        lemma_trailing_misses_bound(outcomes.drop_last());
    }
}

/// An actor whose mailbox is closed, or that drops a ping's reply channel, is
/// reported down at once.
pub proof fn law_gone_is_reported_at_once(
    before: Seq<PingOutcome>,
    outcome: PingOutcome,
    threshold: u32,
    action: HeartbeatAction,
)
    requires
        outcome is Gone || outcome is ReplyDropped,
        follows_ping(action, trailing_misses(before), threshold as int, outcome),
    ensures
        action matches HeartbeatAction::Report(reason) && reason is Other,
{
}

/// An actor that misses a ping is reported as timed out, and as nothing else,
/// once the misses in a row have come to the threshold; before that the monitor
/// sleeps and pings again. An answer never leads to a report.
pub proof fn law_missed_pings_report_a_timeout(
    misses: int,
    threshold: int,
    outcome: PingOutcome,
    action: HeartbeatAction,
)
    requires
        outcome is Missed || outcome is Answered,
        follows_ping(action, misses, threshold, outcome),
    ensures
        action is Report <==> outcome is Missed && misses + 1 >= threshold,
        action matches HeartbeatAction::Report(reason) ==> reason is HeartbeatTimeout,
        action is Report || action is Sleep,
{
}

/// Over a whole run of pings that are answered or missed, the last one makes
/// the monitor report a timeout exactly when as many pings in a row as the
/// threshold says, the last one among them, were missed, where a threshold of
/// zero counts as one; otherwise the monitor sleeps and pings again.
pub proof fn law_timeout_after_consecutive_misses(
    outcomes: Seq<PingOutcome>,
    threshold: u32,
    action: HeartbeatAction,
)
    requires
        outcomes.len() > 0,
        forall|k: int|
            0 <= k < outcomes.len() ==> (#[trigger] outcomes[k] is Missed || outcomes[k] is Answered),
        follows_ping(
            action,
            trailing_misses(outcomes.drop_last()),
            threshold as int,
            outcomes.last(),
        ),
    ensures
        ({
            let needed = if threshold == 0 {
                1int
            } else {
                threshold as int
            };
            let down = outcomes.len() >= needed && forall|k: int|
                outcomes.len() - needed <= k < outcomes.len() ==> #[trigger] outcomes[k] is Missed;
            &&& down ==> action == HeartbeatAction::Report(DownReason::HeartbeatTimeout)
            &&& !down ==> action is Sleep
        }),
{
    law_down_after_consecutive_misses(outcomes, threshold);
    if action is Report {
        assert(reports(outcomes.drop_last(), outcomes.last(), threshold as int));
    }
}

/// What a heartbeat counts: an answer starts the count again, and a miss adds one.
pub proof fn law_misses_are_counted(outcomes: Seq<PingOutcome>, outcome: PingOutcome)
    ensures
        outcome is Answered ==> trailing_misses(outcomes.push(outcome)) == 0,
        outcome is Missed ==> trailing_misses(outcomes.push(outcome)) == trailing_misses(outcomes)
            + 1,
        trailing_misses(Seq::empty()) == 0,
{
    assert(outcomes.push(outcome).drop_last() =~= outcomes);
}

/// An actor that is gone is reported at once, for what was seen of it.
pub proof fn law_gone_is_reported_for_its_reason(
    misses: int,
    threshold: int,
    action: HeartbeatAction,
    outcome: PingOutcome,
)
    requires
        follows_ping(action, misses, threshold, outcome),
    ensures
        outcome is Gone ==> (action matches HeartbeatAction::Report(DownReason::Other(text))
            && text@ == "actor exited"@),
        outcome is ReplyDropped ==> (action matches HeartbeatAction::Report(
            DownReason::Other(text),
        ) && text@ == "reply channel closed"@),
{
}

} // verus!

//! How a finished task is read: the one place that looks into a
//! [`JoinError`].

use tokio::task::JoinError;
use vstd::prelude::*;

use crate::monitor::DownReason;
use crate::supervisor::ExitReason;

verus! {

/// The error with which awaiting a task's handle fails. Verus sees nothing inside it.
#[verifier::external_type_specification]
#[verifier::external_body]
pub struct ExJoinError(JoinError);

/// What `JoinError::is_panic` answers.
pub uninterp spec fn is_panic_error(error: JoinError) -> bool;

/// The message in the payload that `JoinError::into_panic` hands out, if the
/// payload is a string.
pub uninterp spec fn panic_message(error: JoinError) -> Option<Seq<char>>;

/// What `JoinError` displays.
pub uninterp spec fn join_error_text(error: JoinError) -> Seq<char>;

/// `JoinError::is_panic`: it depends on the error alone.
pub assume_specification[ JoinError::is_panic ](error: &JoinError) -> (panicked: bool)
    ensures
        panicked == is_panic_error(*error),
;

/// `JoinError::is_cancelled`: a join error is either that of a panic or that of
/// a cancellation, so this is the opposite of `is_panic`.
pub assume_specification[ JoinError::is_cancelled ](error: &JoinError) -> (cancelled: bool)
    ensures
        cancelled == !is_panic_error(*error),
;

/// Calls `JoinError::into_panic`, which panics on an error that is not that of
/// a panic, and downcasts the payload to the two types in which `panic!` hands
/// a message on, `String` and `&'static str`. The message depends on the error
/// alone. That it is the one the task panicked with is not stated: Verus does
/// not see the task.
#[verifier::external_body]
fn panic_payload(error: JoinError) -> (text: Option<String>)
    requires
        is_panic_error(error),
    ensures
        text is Some <==> panic_message(error) is Some,
        text matches Some(t) ==> Some(t@) == panic_message(error),
{
    match error.into_panic().downcast::<String>() {
        Ok(text) => Some(*text),
        Err(payload) => match payload.downcast::<&'static str>() {
            Ok(text) => Some(String::from(*text)),
            Err(_) => None,
        },
    }
}

/// Calls the `Display` impl of `JoinError`. The text depends on the error alone.
#[verifier::external_body]
fn join_error_message(error: &JoinError) -> (text: String)
    ensures
        text@ == join_error_text(*error),
{
    format!("{error}")
}

/// How a task failed to run to its end, in plain values.
#[derive(Debug, PartialEq, Eq)]
pub enum JoinFailure {
    /// It panicked; holds the text of the panic.
    Panicked(String),
    /// It was aborted.
    Cancelled,
    /// Anything else; holds the error's message.
    Other(String),
}

/// The kinds of failure that a join error tells apart.
#[derive(Debug, Clone, Copy, PartialEq, Eq, Structural)]
pub enum FailureKind {
    Panic,
    Cancelled,
    Other,
}

/// The kind of a failure, from what the join error answers. A panic comes
/// first, then a cancellation.
pub fn failure_kind(is_panic: bool, is_cancelled: bool) -> (kind: FailureKind)
    ensures
        kind == FailureKind::Panic <==> is_panic,
        kind == FailureKind::Cancelled <==> !is_panic && is_cancelled,
        kind == FailureKind::Other <==> !is_panic && !is_cancelled,
{
    if is_panic {
        FailureKind::Panic
    } else if is_cancelled {
        FailureKind::Cancelled
    } else {
        FailureKind::Other
    }
}

/// The text of a panic: its message, or, where the payload is no string, what
/// an opaque value shows.
pub open spec fn text_of_panic(message: Option<Seq<char>>) -> Seq<char> {
    match message {
        Some(text) => text,
        None => "Any { .. }"@,
    }
}

/// The text of the panic that `error` reports.
pub open spec fn panic_payload_text(error: JoinError) -> Seq<char> {
    text_of_panic(panic_message(error))
}

/// The text of a panic, from its message.
pub fn panic_text(message: Option<String>) -> (text: String)
    ensures
        message matches Some(m) ==> text@ == text_of_panic(Some(m@)),
        message is None ==> text@ == text_of_panic(None),
        message matches Some(m) ==> text@ == m@,
        message is None ==> text@ == "Any { .. }"@,
{
    match message {
        Some(text) => text,
        None => "Any { .. }".to_owned(),
    }
}

/// What a join error says, in plain values.
pub fn join_failure(error: JoinError) -> (failure: JoinFailure)
    ensures
        is_panic_error(error) ==> (failure matches JoinFailure::Panicked(text) && text@
            == panic_payload_text(error)),
        !is_panic_error(error) ==> failure is Cancelled,
        is_panic_error(error) ==> (failure matches JoinFailure::Panicked(text) && text@ == match panic_message(error) {
            Some(message) => message,
            None => "Any { .. }"@,
        }),
{
    match failure_kind(error.is_panic(), error.is_cancelled()) {
        FailureKind::Panic => JoinFailure::Panicked(panic_text(panic_payload(error))),
        FailureKind::Cancelled => JoinFailure::Cancelled,
        FailureKind::Other => JoinFailure::Other(join_error_message(&error)),
    }
}

/// The outcome of a task, in plain values.
fn task_outcome(result: Result<(), JoinError>) -> (outcome: Result<(), JoinFailure>)
    ensures
        result is Ok ==> outcome is Ok,
        result matches Err(error) ==> (outcome matches Err(failure) && {
            &&& is_panic_error(error) ==> (failure matches JoinFailure::Panicked(text) && text@
                == panic_payload_text(error))
            &&& !is_panic_error(error) ==> failure is Cancelled
        }),
{
    match result {
        Ok(()) => Ok(()),
        Err(error) => Err(join_failure(error)),
    }
}

/// The exit reason that a supervisor sees.
pub open spec fn exit_reason_of(outcome: Result<(), JoinFailure>) -> ExitReason {
    match outcome {
        Ok(()) => ExitReason::Normal,
        Err(JoinFailure::Panicked(text)) => ExitReason::Panic(text),
        Err(JoinFailure::Cancelled) => ExitReason::Aborted,
        Err(JoinFailure::Other(text)) => ExitReason::Other(text),
    }
}

/// The reason that a monitor delivers.
pub open spec fn down_reason_of(outcome: Result<(), JoinFailure>) -> DownReason {
    match outcome {
        Ok(()) => DownReason::Normal,
        Err(JoinFailure::Panicked(text)) => DownReason::Panic(text),
        Err(JoinFailure::Cancelled) => DownReason::Aborted,
        Err(JoinFailure::Other(text)) => DownReason::Other(text),
    }
}

/// The exit reason that a supervisor sees when a task ends with `outcome`.
pub fn exit_reason(outcome: Result<(), JoinFailure>) -> (reason: ExitReason)
    ensures
        reason == exit_reason_of(outcome),
        outcome is Ok ==> reason is Normal,
        outcome matches Err(JoinFailure::Panicked(text)) ==> reason == ExitReason::Panic(text),
        outcome matches Err(JoinFailure::Cancelled) ==> reason is Aborted,
        outcome matches Err(JoinFailure::Other(text)) ==> reason == ExitReason::Other(text),
{
    match outcome {
        Ok(()) => ExitReason::Normal,
        Err(JoinFailure::Panicked(text)) => ExitReason::Panic(text),
        Err(JoinFailure::Cancelled) => ExitReason::Aborted,
        Err(JoinFailure::Other(text)) => ExitReason::Other(text),
    }
}

/// The reason that a monitor delivers when a task ends with `outcome`.
pub fn down_reason(outcome: Result<(), JoinFailure>) -> (reason: DownReason)
    ensures
        reason == down_reason_of(outcome),
        outcome is Ok ==> reason is Normal,
        outcome matches Err(JoinFailure::Panicked(text)) ==> reason == DownReason::Panic(text),
        outcome matches Err(JoinFailure::Cancelled) ==> reason is Aborted,
        outcome matches Err(JoinFailure::Other(text)) ==> reason == DownReason::Other(text),
{
    match outcome {
        Ok(()) => DownReason::Normal,
        Err(JoinFailure::Panicked(text)) => DownReason::Panic(text),
        Err(JoinFailure::Cancelled) => DownReason::Aborted,
        Err(JoinFailure::Other(text)) => DownReason::Other(text),
    }
}

/// The exit reason of a task whose handle has been awaited with `result`.
pub fn join_outcome(result: Result<(), JoinError>) -> (reason: ExitReason)
    ensures
        result is Ok ==> reason is Normal,
        result matches Err(error) ==> {
            &&& is_panic_error(error) ==> (reason matches ExitReason::Panic(text) && text@
                == panic_payload_text(error))
            &&& is_panic_error(error) ==> (reason matches ExitReason::Panic(text) && text@ == match panic_message(error) {
                Some(message) => message,
                None => "Any { .. }"@,
            })
            &&& !is_panic_error(error) ==> reason is Aborted
        },
{
    exit_reason(task_outcome(result))
}

/// The down reason of a task whose handle has been awaited with `result`.
pub fn down_outcome(result: Result<(), JoinError>) -> (reason: DownReason)
    ensures
        result is Ok ==> reason is Normal,
        result matches Err(error) ==> {
            &&& is_panic_error(error) ==> (reason matches DownReason::Panic(text) && text@
                == panic_payload_text(error))
            &&& is_panic_error(error) ==> (reason matches DownReason::Panic(text) && text@ == match panic_message(error) {
                Some(message) => message,
                None => "Any { .. }"@,
            })
            &&& !is_panic_error(error) ==> reason is Aborted
        },
{
    down_reason(task_outcome(result))
}

/// A monitor and a supervisor see the same end of the same task.
pub proof fn law_monitor_agrees_with_supervisor(outcome: Result<(), JoinFailure>)
    ensures
        exit_reason_of(outcome) is Normal <==> down_reason_of(outcome) is Normal,
        exit_reason_of(outcome) is Aborted <==> down_reason_of(outcome) is Aborted,
        forall|text: String| #![auto]
            exit_reason_of(outcome) == ExitReason::Panic(text) <==> down_reason_of(outcome)
                == DownReason::Panic(text),
        forall|text: String| #![auto]
            exit_reason_of(outcome) == ExitReason::Other(text) <==> down_reason_of(outcome)
                == DownReason::Other(text),
        !(down_reason_of(outcome) is HeartbeatTimeout),
{
}

/// A supervisor and a monitor learn how a task ended: normally exactly when it
/// returned, with the message of the panic exactly when it panicked, and as
/// aborted exactly when it was cancelled.
pub proof fn law_end_of_a_task_is_told(
    result: Result<(), JoinError>,
    exit: ExitReason,
    down: DownReason,
)
    requires
        call_ensures(join_outcome, (result,), exit),
        call_ensures(down_outcome, (result,), down),
    ensures
        exit is Normal <==> result is Ok,
        down is Normal <==> result is Ok,
        exit is Panic <==> (result matches Err(error) && is_panic_error(error)),
        down is Panic <==> (result matches Err(error) && is_panic_error(error)),
        exit is Aborted <==> (result matches Err(error) && !is_panic_error(error)),
        down is Aborted <==> (result matches Err(error) && !is_panic_error(error)),
        exit matches ExitReason::Panic(text) ==> text@ == match panic_message(result->Err_0) {
            Some(message) => message,
            None => "Any { .. }"@,
        },
        down matches DownReason::Panic(text) ==> text@ == match panic_message(result->Err_0) {
            Some(message) => message,
            None => "Any { .. }"@,
        },
{
}

} // verus!

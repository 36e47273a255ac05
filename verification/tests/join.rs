use erlang_actors_rust::join::{
    down_outcome, down_reason, exit_reason, failure_kind, join_failure, join_outcome, panic_text,
    FailureKind, JoinFailure,
};
use erlang_actors_rust::monitor::DownReason;
use erlang_actors_rust::supervisor::ExitReason;
use tokio::runtime::{Builder, Runtime};
use tokio::task::JoinError;

fn runtime() -> Runtime {
    Builder::new_current_thread().enable_time().build().unwrap()
}

fn panic_error() -> JoinError {
    runtime().block_on(async {
        tokio::spawn(async { panic!("boom") })
            .await
            .map(|_: ()| ())
            .unwrap_err()
    })
}

fn formatted_panic_error(id: u32, job: u64) -> JoinError {
    runtime().block_on(async {
        tokio::spawn(async move { panic!("worker {id} simulating crash on payload {job}") })
            .await
            .map(|_: ()| ())
            .unwrap_err()
    })
}

fn cancel_error() -> JoinError {
    runtime().block_on(async {
        let handle = tokio::spawn(std::future::pending::<()>());
        handle.abort();
        handle.await.unwrap_err()
    })
}

#[test]
fn task_that_returns_ends_normally() {
    let result = runtime().block_on(async { tokio::spawn(async {}).await });
    assert_eq!(join_outcome(result), ExitReason::Normal);
    assert_eq!(down_outcome(Ok(())), DownReason::Normal);
}

#[test]
fn task_that_panics_ends_with_its_payload() {
    let text = String::from("boom");
    assert_eq!(
        join_outcome(Err(panic_error())),
        ExitReason::Panic(text.clone())
    );
    assert_eq!(
        down_outcome(Err(panic_error())),
        DownReason::Panic(text.clone())
    );
    assert_eq!(join_failure(panic_error()), JoinFailure::Panicked(text));
}

#[test]
fn task_that_panics_with_a_formatted_message_ends_with_it() {
    let text = String::from("worker 3 simulating crash on payload 25");
    assert_eq!(
        join_outcome(Err(formatted_panic_error(3, 25))),
        ExitReason::Panic(text.clone())
    );
    assert_eq!(
        down_outcome(Err(formatted_panic_error(3, 25))),
        DownReason::Panic(text)
    );
}

#[test]
fn panic_without_a_message_shows_as_an_opaque_value() {
    assert_eq!(panic_text(Some(String::from("boom"))), "boom");
    assert_eq!(panic_text(Some(String::new())), "");
    assert_eq!(panic_text(None), "Any { .. }");
    let payload: Box<dyn std::any::Any + Send> = Box::new(7u8);
    assert_eq!(panic_text(None), format!("{:?}", payload));
}

#[test]
fn task_that_is_aborted_ends_aborted() {
    assert_eq!(join_outcome(Err(cancel_error())), ExitReason::Aborted);
    assert_eq!(down_outcome(Err(cancel_error())), DownReason::Aborted);
    assert_eq!(join_failure(cancel_error()), JoinFailure::Cancelled);
}

#[test]
fn failure_kinds_put_a_panic_first() {
    assert_eq!(failure_kind(true, false), FailureKind::Panic);
    assert_eq!(failure_kind(true, true), FailureKind::Panic);
    assert_eq!(failure_kind(false, true), FailureKind::Cancelled);
    assert_eq!(failure_kind(false, false), FailureKind::Other);
}

#[test]
fn monitor_and_supervisor_agree() {
    let text = String::from("t");
    assert_eq!(exit_reason(Ok(())), ExitReason::Normal);
    assert_eq!(down_reason(Ok(())), DownReason::Normal);
    assert_eq!(
        exit_reason(Err(JoinFailure::Panicked(text.clone()))),
        ExitReason::Panic(text.clone())
    );
    assert_eq!(
        down_reason(Err(JoinFailure::Panicked(text.clone()))),
        DownReason::Panic(text.clone())
    );
    assert_eq!(
        exit_reason(Err(JoinFailure::Cancelled)),
        ExitReason::Aborted
    );
    assert_eq!(
        down_reason(Err(JoinFailure::Cancelled)),
        DownReason::Aborted
    );
    assert_eq!(
        exit_reason(Err(JoinFailure::Other(text.clone()))),
        ExitReason::Other(text.clone())
    );
    assert_eq!(
        down_reason(Err(JoinFailure::Other(text.clone()))),
        DownReason::Other(text)
    );
}

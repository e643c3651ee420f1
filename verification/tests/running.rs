//! How the process runs and stops.

use otel_logger::server::{
    join_result, merge_task_result, Listener, Phase, Server, ServerAction, ServerError,
    ServerEvent, Stage, TaskOutcome, MAX_CONCURRENT_STREAMS, OTLP_MAX_REQUEST_BYTES,
    SHUTDOWN_GRACE_MS,
};

fn ended(listener: Listener, outcome: TaskOutcome) -> ServerEvent {
    ServerEvent::Ended { listener, outcome }
}

fn message(r: &Result<(), ServerError>) -> Option<String> {
    r.as_ref().err().map(|e| e.message())
}

#[test]
fn the_limits_are_as_documented() {
    assert_eq!(OTLP_MAX_REQUEST_BYTES, 32 * 1024 * 1024);
    assert_eq!(SHUTDOWN_GRACE_MS, 10_000);
    assert_eq!(MAX_CONCURRENT_STREAMS, 16);
}

#[test]
fn a_clean_stop_drains_flushes_and_succeeds() {
    let mut s = Server::new();
    assert_eq!(s.on_event(ServerEvent::Signal), ServerAction::StopListeners);
    assert_eq!(
        s.on_event(ended(Listener::Http, TaskOutcome::Completed)),
        ServerAction::Wait
    );
    assert_eq!(
        s.on_event(ended(Listener::Grpc, TaskOutcome::Completed)),
        ServerAction::Flush { abort: false }
    );
    assert_eq!(s.on_event(ServerEvent::Flushed(Ok(()))), ServerAction::Exit);
    assert_eq!(s.phase, Phase::Done);
    assert!(s.result.is_ok());
}

#[test]
fn a_second_signal_abandons_requests_under_way() {
    let mut s = Server::new();
    assert_eq!(s.on_event(ServerEvent::Signal), ServerAction::StopListeners);
    assert_eq!(s.on_event(ServerEvent::Signal), ServerAction::Flush { abort: true });
    assert_eq!(s.on_event(ServerEvent::Flushed(Ok(()))), ServerAction::Exit);
}

#[test]
fn a_signal_after_a_failed_listener_is_the_first_one() {
    let mut s = Server::new();
    assert_eq!(
        s.on_event(ended(Listener::Grpc, TaskOutcome::Failed("bind".into()))),
        ServerAction::StopListeners
    );
    assert_eq!(s.on_event(ServerEvent::Signal), ServerAction::Wait);
    assert_eq!(s.on_event(ServerEvent::Signal), ServerAction::Flush { abort: true });
}

#[test]
fn the_grace_period_ends_the_wait() {
    let mut s = Server::new();
    s.on_event(ServerEvent::Signal);
    assert_eq!(s.on_event(ServerEvent::GraceOver), ServerAction::Flush { abort: true });
    assert_eq!(
        s.on_event(ServerEvent::Flushed(Err("no space".into()))),
        ServerAction::Exit
    );
    assert_eq!(message(&s.result), Some("flush JSONL sink: no space".into()));
}

#[test]
fn the_first_error_is_kept_and_later_ones_are_reported() {
    let mut s = Server::new();
    s.on_event(ended(Listener::Http, TaskOutcome::Failed("address in use".into())));
    assert_eq!(
        s.on_event(ended(Listener::Grpc, TaskOutcome::Panicked("boom".into()))),
        ServerAction::Flush { abort: false }
    );
    s.on_event(ServerEvent::Flushed(Err("no space".into())));
    assert_eq!(message(&s.result), Some("HTTP task: address in use".into()));
    let reports: Vec<String> = s.take_reports().iter().map(|e| e.message()).collect();
    assert_eq!(reports, vec!["gRPC task: task panicked: boom", "flush JSONL sink: no space"]);
    assert!(s.take_reports().is_empty());
}

#[test]
fn errors_of_a_drain_that_is_cut_short_are_left_out() {
    let mut s = Server::new();
    s.on_event(ServerEvent::Signal);
    s.on_event(ended(Listener::Grpc, TaskOutcome::Failed("late".into())));
    assert_eq!(s.on_event(ServerEvent::GraceOver), ServerAction::Flush { abort: true });
    s.on_event(ServerEvent::Flushed(Ok(())));
    assert!(s.result.is_ok());
}

#[test]
fn results_are_joined_and_merged() {
    assert!(join_result(Listener::Grpc, TaskOutcome::Completed).is_ok());
    let mut r = join_result(Listener::Grpc, TaskOutcome::Failed("x".into()));
    assert_eq!(message(&r), Some("gRPC task: x".into()));
    let other = Err(ServerError { stage: Stage::Http, cause: "y".into() });
    let reported = merge_task_result(&mut r, other);
    assert_eq!(reported.map(|e| e.message()), Some("HTTP task: y".into()));
    assert_eq!(message(&r), Some("gRPC task: x".into()));
    let mut fine: Result<(), ServerError> = Ok(());
    let other = Err(ServerError { stage: Stage::Http, cause: "y".into() });
    assert!(merge_task_result(&mut fine, other).is_none());
    assert_eq!(message(&fine), Some("HTTP task: y".into()));
}

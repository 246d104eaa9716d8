use msghasher::source_poller::{
    Delivery, ErrNoUpdate, FetchAttempt, FetchError, LogLine, LogRecord, Logger, NextAction,
    PollEvent, PollPhase, PollStep, SourcePoller,
};
use std::cell::RefCell;

struct Recorder {
    lines: RefCell<Vec<String>>,
}

impl Logger for Recorder {
    fn debugw(&self, message: &str) {
        self.lines.borrow_mut().push(format!("debug: {}", message));
    }

    fn errorw(&self, message: &str, error: &FetchError) {
        self.lines.borrow_mut().push(format!("error: {} ({:?})", message, error));
    }
}

fn started(capacity: usize) -> SourcePoller<u32> {
    let mut p = SourcePoller::new(1000, 250, capacity);
    p.step(PollEvent::Started);
    p
}

#[test]
fn no_update_has_its_text() {
    assert_eq!(ErrNoUpdate.to_string(), "no update available");
    assert!(FetchError::NoUpdate(ErrNoUpdate).is_no_update());
    assert!(!FetchError::Failed("down".to_string()).is_no_update());
}

#[test]
fn new_poller_is_idle_and_empty() {
    let mut p: SourcePoller<u32> = SourcePoller::new(1000, 250, 4);
    assert_eq!(p.phase(), PollPhase::Idle);
    assert_eq!(p.pending(), 0);
    assert_eq!(p.updates(), Vec::<u32>::new());
}

#[test]
fn start_logs_and_asks_for_the_first_fetch() {
    let mut p: SourcePoller<u32> = SourcePoller::new(1000, 250, 4);
    let s = p.step(PollEvent::Started);
    assert_eq!(
        s,
        PollStep {
            log: Some(LogRecord::Debug(LogLine::PollerStarted)),
            delivery: Delivery::Nothing,
            next: NextAction::Fetch { timeout_ms: 250 },
        }
    );
    assert_eq!(p.phase(), PollPhase::InitialFetch);
}

#[test]
fn fetched_update_is_queued_and_the_poller_waits() {
    let mut p = started(4);
    let s = p.step(PollEvent::Fetched(FetchAttempt::Completed(Ok(7))));
    assert_eq!(
        s,
        PollStep { log: None, delivery: Delivery::Queued, next: NextAction::Sleep { ms: 1000 } }
    );
    assert_eq!(p.phase(), PollPhase::Waiting);
    assert_eq!(p.pending(), 1);
    let s = p.step(PollEvent::TimerFired);
    assert_eq!(
        s,
        PollStep {
            log: None,
            delivery: Delivery::Nothing,
            next: NextAction::Fetch { timeout_ms: 250 },
        }
    );
    assert_eq!(p.phase(), PollPhase::Fetching);
    p.step(PollEvent::Fetched(FetchAttempt::Completed(Ok(8))));
    assert_eq!(p.updates(), vec![7, 8]);
    assert_eq!(p.pending(), 0);
}

#[test]
fn timeout_is_no_update_at_low_severity() {
    let mut p = started(4);
    let s = p.step(PollEvent::Fetched(FetchAttempt::TimedOut));
    assert_eq!(s.log, Some(LogRecord::Debug(LogLine::NoUpdateOnInitialFetch)));
    assert_eq!(s.delivery, Delivery::Nothing);
    assert_eq!(s.next, NextAction::Sleep { ms: 1000 });
    assert_eq!(p.pending(), 0);
    p.step(PollEvent::TimerFired);
    let s = p.step(PollEvent::Fetched(FetchAttempt::TimedOut));
    assert_eq!(s.log, Some(LogRecord::Debug(LogLine::NoUpdate)));
    assert_eq!(p.pending(), 0);
}

#[test]
fn source_reporting_no_update_is_logged_like_a_timeout() {
    let mut p = started(4);
    let s = p.step(PollEvent::Fetched(FetchAttempt::Completed(Err(FetchError::NoUpdate(
        ErrNoUpdate,
    )))));
    assert_eq!(s.log, Some(LogRecord::Debug(LogLine::NoUpdateOnInitialFetch)));
}

#[test]
fn other_failure_is_an_error_with_its_cause() {
    let mut p = started(4);
    let cause = FetchError::Failed("connection refused".to_string());
    let s = p.step(PollEvent::Fetched(FetchAttempt::Completed(Err(cause.clone()))));
    assert_eq!(s.log, Some(LogRecord::Error(LogLine::InitialFetchFailed, cause.clone())));
    assert_eq!(s.delivery, Delivery::Nothing);
    assert_eq!(p.pending(), 0);
    p.step(PollEvent::TimerFired);
    let s = p.step(PollEvent::Fetched(FetchAttempt::Completed(Err(cause.clone()))));
    assert_eq!(s.log, Some(LogRecord::Error(LogLine::FetchFailed, cause)));
    assert_eq!(p.pending(), 0);
}

#[test]
fn failed_attempts_leave_waiting_updates_alone() {
    let mut p = started(4);
    p.step(PollEvent::Fetched(FetchAttempt::Completed(Ok(1))));
    p.step(PollEvent::TimerFired);
    p.step(PollEvent::Fetched(FetchAttempt::TimedOut));
    assert_eq!(p.pending(), 1);
    p.step(PollEvent::TimerFired);
    p.step(PollEvent::Fetched(FetchAttempt::Completed(Err(FetchError::Failed(
        "boom".to_string(),
    )))));
    assert_eq!(p.pending(), 1);
    assert_eq!(p.updates(), vec![1]);
}

#[test]
fn update_is_dropped_when_the_buffer_is_full() {
    let mut p = started(1);
    assert_eq!(
        p.step(PollEvent::Fetched(FetchAttempt::Completed(Ok(1)))).delivery,
        Delivery::Queued
    );
    p.step(PollEvent::TimerFired);
    assert_eq!(
        p.step(PollEvent::Fetched(FetchAttempt::Completed(Ok(2)))).delivery,
        Delivery::Dropped
    );
    assert_eq!(p.updates(), vec![1]);
    p.step(PollEvent::TimerFired);
    assert_eq!(
        p.step(PollEvent::Fetched(FetchAttempt::Completed(Ok(3)))).delivery,
        Delivery::Queued
    );
    assert_eq!(p.updates(), vec![3]);
}

#[test]
fn buffer_without_capacity_drops_everything() {
    let mut p = started(0);
    assert_eq!(
        p.step(PollEvent::Fetched(FetchAttempt::Completed(Ok(1)))).delivery,
        Delivery::Dropped
    );
    assert_eq!(p.pending(), 0);
}

#[test]
fn event_that_does_not_fit_the_phase_is_ignored() {
    let ignored =
        PollStep { log: None, delivery: Delivery::Nothing, next: NextAction::Ignore };
    let mut p: SourcePoller<u32> = SourcePoller::new(1000, 250, 4);
    assert_eq!(p.step(PollEvent::TimerFired), ignored);
    assert_eq!(p.step(PollEvent::Fetched(FetchAttempt::Completed(Ok(1)))), ignored);
    assert_eq!(p.phase(), PollPhase::Idle);
    assert_eq!(p.pending(), 0);
    p.step(PollEvent::Started);
    assert_eq!(p.step(PollEvent::Started), ignored);
    assert_eq!(p.step(PollEvent::TimerFired), ignored);
    assert_eq!(p.phase(), PollPhase::InitialFetch);
    p.step(PollEvent::Fetched(FetchAttempt::TimedOut));
    assert_eq!(p.step(PollEvent::Fetched(FetchAttempt::Completed(Ok(1)))), ignored);
    assert_eq!(p.phase(), PollPhase::Waiting);
    assert_eq!(p.pending(), 0);
}

#[test]
fn fetch_attempt_becomes_a_result() {
    assert_eq!(SourcePoller::<u32>::execute_fetch(FetchAttempt::Completed(Ok(5))), Ok(5));
    assert_eq!(
        SourcePoller::<u32>::execute_fetch(FetchAttempt::TimedOut),
        Err(FetchError::NoUpdate(ErrNoUpdate))
    );
    assert_eq!(
        SourcePoller::<u32>::execute_fetch(FetchAttempt::Completed(Err(FetchError::Failed(
            "x".to_string()
        )))),
        Err(FetchError::Failed("x".to_string()))
    );
}

#[test]
fn records_reach_the_logger_at_their_severity() {
    let log = Recorder { lines: RefCell::new(Vec::new()) };
    LogRecord::Debug(LogLine::PollerStarted).emit(&log);
    LogRecord::Debug(LogLine::NoUpdateOnInitialFetch).emit(&log);
    LogRecord::Debug(LogLine::NoUpdate).emit(&log);
    LogRecord::Error(LogLine::InitialFetchFailed, FetchError::Failed("a".to_string())).emit(&log);
    LogRecord::Error(LogLine::FetchFailed, FetchError::Failed("b".to_string())).emit(&log);
    assert_eq!(
        *log.lines.borrow(),
        vec![
            "debug: poller started".to_string(),
            "debug: no update found on initial fetch".to_string(),
            "debug: no update found".to_string(),
            "error: failed initial fetch (Failed(\"a\"))".to_string(),
            "error: failed to fetch from source (Failed(\"b\"))".to_string(),
        ]
    );
}

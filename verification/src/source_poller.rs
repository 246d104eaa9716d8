//! The decisions of a poller that fetches updates from a source at a fixed
//! interval and hands them to one consumer.
//!
//! The poller here performs no fetch, no sleep and no logging itself. It is
//! told what happened and answers what to do next; the caller carries that
//! out and reports back. One fetch is in flight at a time, and each is
//! bounded by the fetch timeout.
//!
//! Updates wait for the consumer in a bounded first-in first-out buffer. The
//! poller never blocks on it: an update that arrives while the buffer holds
//! `buffer_capacity` updates is dropped, and the step says so.

use vstd::prelude::*;

verus! {

/// Outcome of a fetch that found nothing new within its timeout. It is
/// expected, and not a failure of the source.
#[derive(Debug, Clone, Copy, PartialEq, Eq)]
pub struct ErrNoUpdate;

impl ErrNoUpdate {
    /// The text of this outcome.
    pub fn to_string(&self) -> (s: String)
        ensures
            s@ == "no update available"@,
    {
        "no update available".to_owned()
    }
}

/// Why a fetch handed over no update.
#[derive(Debug, Clone, PartialEq, Eq)]
pub enum FetchError {
    /// Nothing new yet.
    NoUpdate(ErrNoUpdate),
    /// The source failed; the text is its own account of why.
    Failed(String),
}

impl FetchError {
    /// Whether this is the expected "nothing new yet".
    pub fn is_no_update(&self) -> (b: bool)
        ensures
            b == (*self is NoUpdate),
    {
        match self {
            FetchError::NoUpdate(_) => true,
            FetchError::Failed(_) => false,
        }
    }
}

/// Sink for the poller's diagnostics.
pub trait Logger {
    fn debugw(&self, message: &str);

    fn errorw(&self, message: &str, error: &FetchError);
}

/// Marks a component that produces updates for a consumer.
pub trait Updater {

}

/// How a fetch ended: the source answered in time, or the timeout ran out
/// first.
#[derive(Debug, PartialEq, Eq)]
pub enum FetchAttempt<T> {
    Completed(Result<T, FetchError>),
    TimedOut,
}

/// What the poller is told.
#[derive(Debug, PartialEq, Eq)]
pub enum PollEvent<T> {
    /// The poller was set running.
    Started,
    /// The fetch that the poller asked for has ended.
    Fetched(FetchAttempt<T>),
    /// The wait that the poller asked for is over.
    TimerFired,
}

/// Where the poller stands.
#[derive(Debug, Clone, Copy, PartialEq, Eq)]
pub enum PollPhase {
    /// Not running yet.
    Idle,
    /// The first fetch is in flight.
    InitialFetch,
    /// Between two fetches.
    Waiting,
    /// A later fetch is in flight.
    Fetching,
}

/// A line for the log.
#[derive(Debug, Clone, PartialEq, Eq)]
pub enum LogRecord {
    /// Low severity.
    Debug(LogLine),
    /// An error, with its cause.
    Error(LogLine, FetchError),
}

/// The texts that the poller logs.
#[derive(Debug, Clone, Copy, PartialEq, Eq)]
pub enum LogLine {
    PollerStarted,
    NoUpdateOnInitialFetch,
    NoUpdate,
    InitialFetchFailed,
    FetchFailed,
}

/// What became of the result of a fetch.
#[derive(Debug, Clone, Copy, PartialEq, Eq)]
pub enum Delivery {
    /// There was no update to hand over.
    Nothing,
    /// The update waits in the buffer.
    Queued,
    /// The buffer was full and the update was dropped.
    Dropped,
}

/// What the caller does next.
#[derive(Debug, Clone, Copy, PartialEq, Eq)]
pub enum NextAction {
    /// Fetch from the source, giving up after `timeout_ms` milliseconds, and
    /// report the attempt.
    Fetch { timeout_ms: u64 },
    /// Report a timer event after `ms` milliseconds.
    Sleep { ms: u64 },
    /// The event did not fit the phase and was ignored.
    Ignore,
}

/// The poller's answer to an event.
#[derive(Debug, Clone, PartialEq, Eq)]
pub struct PollStep {
    pub log: Option<LogRecord>,
    pub delivery: Delivery,
    pub next: NextAction,
}

/// What a poller is, as mathematics.
pub struct PollerView<T> {
    pub poll_interval_ms: u64,
    pub fetch_timeout_ms: u64,
    pub buffer_capacity: usize,
    pub phase: PollPhase,
    pub updates: Seq<T>,
}

/// The result of a fetch attempt: running out of time counts as "nothing
/// new yet", every other outcome is the source's own.
pub open spec fn attempt_result<T>(attempt: FetchAttempt<T>) -> Result<T, FetchError> {
    match attempt {
        FetchAttempt::Completed(r) => r,
        FetchAttempt::TimedOut => Err(FetchError::NoUpdate(ErrNoUpdate)),
    }
}

/// The line to log for the result of a fetch, if any; `initial` tells the
/// first fetch from the later ones.
pub open spec fn log_for<T>(result: Result<T, FetchError>, initial: bool) -> Option<LogRecord> {
    match result {
        Ok(_) => None,
        Err(FetchError::NoUpdate(_)) => Some(
            LogRecord::Debug(
                if initial {
                    LogLine::NoUpdateOnInitialFetch
                } else {
                    LogLine::NoUpdate
                },
            ),
        ),
        Err(FetchError::Failed(cause)) => Some(
            LogRecord::Error(
                if initial {
                    LogLine::InitialFetchFailed
                } else {
                    LogLine::FetchFailed
                },
                FetchError::Failed(cause),
            ),
        ),
    }
}

/// The buffer after the result of a fetch: an update is appended where
/// there is room, and nothing else ever changes the buffer.
pub open spec fn updates_after<T>(updates: Seq<T>, capacity: usize, result: Result<T, FetchError>)
    -> Seq<T> {
    match result {
        Ok(update) => if updates.len() < capacity {
            updates.push(update)
        } else {
            updates
        },
        Err(_) => updates,
    }
}

/// What became of the result of a fetch.
pub open spec fn delivery_of<T>(updates: Seq<T>, capacity: usize, result: Result<T, FetchError>)
    -> Delivery {
    match result {
        Ok(_) => if updates.len() < capacity {
            Delivery::Queued
        } else {
            Delivery::Dropped
        },
        Err(_) => Delivery::Nothing,
    }
}

/// The poller after `event`.
pub open spec fn next_state<T>(p: PollerView<T>, event: PollEvent<T>) -> PollerView<T> {
    match (p.phase, event) {
        (PollPhase::Idle, PollEvent::Started) => PollerView {
            phase: PollPhase::InitialFetch,
            ..p
        },
        (PollPhase::InitialFetch, PollEvent::Fetched(attempt)) => PollerView {
            phase: PollPhase::Waiting,
            updates: updates_after(p.updates, p.buffer_capacity, attempt_result(attempt)),
            ..p
        },
        (PollPhase::Fetching, PollEvent::Fetched(attempt)) => PollerView {
            phase: PollPhase::Waiting,
            updates: updates_after(p.updates, p.buffer_capacity, attempt_result(attempt)),
            ..p
        },
        (PollPhase::Waiting, PollEvent::TimerFired) => PollerView {
            phase: PollPhase::Fetching,
            ..p
        },
        _ => p,
    }
}

/// Whether the buffer holds no more than its capacity.
pub open spec fn within_capacity<T>(p: PollerView<T>) -> bool {
    p.updates.len() <= p.buffer_capacity
}

/// The poller's answer to `event`.
pub open spec fn answer<T>(p: PollerView<T>, event: PollEvent<T>) -> PollStep {
    match (p.phase, event) {
        (PollPhase::Idle, PollEvent::Started) => PollStep {
            log: Some(LogRecord::Debug(LogLine::PollerStarted)),
            delivery: Delivery::Nothing,
            next: NextAction::Fetch { timeout_ms: p.fetch_timeout_ms },
        },
        (PollPhase::InitialFetch, PollEvent::Fetched(attempt)) => PollStep {
            log: log_for(attempt_result(attempt), true),
            delivery: delivery_of(p.updates, p.buffer_capacity, attempt_result(attempt)),
            next: NextAction::Sleep { ms: p.poll_interval_ms },
        },
        (PollPhase::Fetching, PollEvent::Fetched(attempt)) => PollStep {
            log: log_for(attempt_result(attempt), false),
            delivery: delivery_of(p.updates, p.buffer_capacity, attempt_result(attempt)),
            next: NextAction::Sleep { ms: p.poll_interval_ms },
        },
        (PollPhase::Waiting, PollEvent::TimerFired) => PollStep {
            log: None,
            delivery: Delivery::Nothing,
            next: NextAction::Fetch { timeout_ms: p.fetch_timeout_ms },
        },
        _ => PollStep { log: None, delivery: Delivery::Nothing, next: NextAction::Ignore },
    }
}

impl LogLine {
    /// The text of the line.
    pub fn text(&self) -> (s: &'static str)
        ensures
            s@ == match *self {
                LogLine::PollerStarted => "poller started"@,
                LogLine::NoUpdateOnInitialFetch => "no update found on initial fetch"@,
                LogLine::NoUpdate => "no update found"@,
                LogLine::InitialFetchFailed => "failed initial fetch"@,
                LogLine::FetchFailed => "failed to fetch from source"@,
            },
    {
        match self {
            LogLine::PollerStarted => "poller started",
            LogLine::NoUpdateOnInitialFetch => "no update found on initial fetch",
            LogLine::NoUpdate => "no update found",
            LogLine::InitialFetchFailed => "failed initial fetch",
            LogLine::FetchFailed => "failed to fetch from source",
        }
    }
}

impl LogRecord {
    /// Writes the record to `log`: a debug record at low severity, an error
    /// record as an error with its cause.
    pub fn emit<L: Logger + ?Sized>(&self, log: &L) {
        match self {
            LogRecord::Debug(line) => log.debugw(line.text()),
            LogRecord::Error(line, cause) => log.errorw(line.text(), cause),
        }
    }
}

/// The poller: its settings, its phase and the updates that wait for the
/// consumer.
pub struct SourcePoller<T> {
    poll_interval_ms: u64,
    fetch_timeout_ms: u64,
    buffer_capacity: usize,
    phase: PollPhase,
    updates: Vec<T>,
}

impl<T> View for SourcePoller<T> {
    type V = PollerView<T>;

    closed spec fn view(&self) -> PollerView<T> {
        PollerView {
            poll_interval_ms: self.poll_interval_ms,
            fetch_timeout_ms: self.fetch_timeout_ms,
            buffer_capacity: self.buffer_capacity,
            phase: self.phase,
            updates: self.updates@,
        }
    }
}

impl<T> Updater for SourcePoller<T> {

}

impl<T> SourcePoller<T> {
    /// A poller that is not running yet and holds no update.
    pub fn new(poll_interval_ms: u64, fetch_timeout_ms: u64, buffer_capacity: usize) -> (p: Self)
        ensures
            p@ == (PollerView::<T> {
                poll_interval_ms,
                fetch_timeout_ms,
                buffer_capacity,
                phase: PollPhase::Idle,
                updates: Seq::empty(),
            }),
            within_capacity(p@),
    {
        SourcePoller {
            poll_interval_ms,
            fetch_timeout_ms,
            buffer_capacity,
            phase: PollPhase::Idle,
            updates: Vec::new(),
        }
    }

    /// The result of a fetch attempt: a timeout is "nothing new yet", never
    /// an error of the source.
    pub fn execute_fetch(attempt: FetchAttempt<T>) -> (r: Result<T, FetchError>)
        ensures
            r == attempt_result(attempt),
    {
        match attempt {
            FetchAttempt::Completed(r) => r,
            FetchAttempt::TimedOut => Err(FetchError::NoUpdate(ErrNoUpdate)),
        }
    }

    /// Takes in `event` and answers what to do next.
    pub fn step(&mut self, event: PollEvent<T>) -> (s: PollStep)
        ensures
            final(self)@ == next_state(old(self)@, event),
            s == answer(old(self)@, event),
    {
        match (self.phase, event) {
            (PollPhase::Idle, PollEvent::Started) => {
                self.phase = PollPhase::InitialFetch;
                PollStep {
                    log: Some(LogRecord::Debug(LogLine::PollerStarted)),
                    delivery: Delivery::Nothing,
                    next: NextAction::Fetch { timeout_ms: self.fetch_timeout_ms },
                }
            },
            (PollPhase::InitialFetch, PollEvent::Fetched(attempt)) => {
                self.phase = PollPhase::Waiting;
                self.take_in(Self::execute_fetch(attempt), true)
            },
            (PollPhase::Fetching, PollEvent::Fetched(attempt)) => {
                self.phase = PollPhase::Waiting;
                self.take_in(Self::execute_fetch(attempt), false)
            },
            (PollPhase::Waiting, PollEvent::TimerFired) => {
                self.phase = PollPhase::Fetching;
                PollStep {
                    log: None,
                    delivery: Delivery::Nothing,
                    next: NextAction::Fetch { timeout_ms: self.fetch_timeout_ms },
                }
            },
            _ => PollStep { log: None, delivery: Delivery::Nothing, next: NextAction::Ignore },
        }
    }

    /// Files the result of a fetch: an update goes to the buffer or is
    /// dropped, anything else becomes a log record.
    fn take_in(&mut self, result: Result<T, FetchError>, initial: bool) -> (s: PollStep)
        ensures
            final(self)@ == (PollerView {
                updates: updates_after(old(self)@.updates, old(self)@.buffer_capacity, result),
                ..old(self)@
            }),
            s == (PollStep {
                log: log_for(result, initial),
                delivery: delivery_of(old(self)@.updates, old(self)@.buffer_capacity, result),
                next: NextAction::Sleep { ms: old(self)@.poll_interval_ms },
            }),
    {
        let next = NextAction::Sleep { ms: self.poll_interval_ms };
        match result {
            Ok(update) => {
                if self.updates.len() < self.buffer_capacity {
                    self.updates.push(update);
                    PollStep { log: None, delivery: Delivery::Queued, next }
                } else {
                    PollStep { log: None, delivery: Delivery::Dropped, next }
                }
            },
            Err(FetchError::NoUpdate(_)) => {
                let line = if initial {
                    LogLine::NoUpdateOnInitialFetch
                } else {
                    LogLine::NoUpdate
                };
                PollStep { log: Some(LogRecord::Debug(line)), delivery: Delivery::Nothing, next }
            },
            Err(FetchError::Failed(cause)) => {
                let line = if initial {
                    LogLine::InitialFetchFailed
                } else {
                    LogLine::FetchFailed
                };
                PollStep {
                    log: Some(LogRecord::Error(line, FetchError::Failed(cause))),
                    delivery: Delivery::Nothing,
                    next,
                }
            },
        }
    }

    /// Hands the consumer every update that waits, oldest first, and empties
    /// the buffer.
    pub fn updates(&mut self) -> (taken: Vec<T>)
        ensures
            taken@ == old(self)@.updates,
            final(self)@ == (PollerView { updates: Seq::empty(), ..old(self)@ }),
    {
        let mut taken: Vec<T> = Vec::new();
        std::mem::swap(&mut self.updates, &mut taken);
        taken
    }

    /// Where the poller stands.
    pub fn phase(&self) -> (phase: PollPhase)
        ensures
            phase == self@.phase,
    {
        self.phase
    }

    /// Number of updates that wait for the consumer.
    pub fn pending(&self) -> (n: usize)
        ensures
            n == self@.updates.len(),
    {
        self.updates.len()
    }
}


/// A buffer within its capacity stays within it, whatever happens; the
/// settings never change.
pub proof fn lemma_step_keeps_capacity<T>(p: PollerView<T>, event: PollEvent<T>)
    requires
        within_capacity(p),
    ensures
        within_capacity(next_state(p, event)),
        next_state(p, event).buffer_capacity == p.buffer_capacity,
        next_state(p, event).poll_interval_ms == p.poll_interval_ms,
        next_state(p, event).fetch_timeout_ms == p.fetch_timeout_ms,
{
}

/// A fetch that runs out of time is logged at low severity as "no update",
/// a fetch that fails otherwise is logged as an error with its cause, and
/// neither touches the buffer.
pub proof fn lemma_failed_fetch_leaves_buffer<T>(p: PollerView<T>, attempt: FetchAttempt<T>)
    requires
        p.phase is InitialFetch || p.phase is Fetching,
        attempt_result(attempt) is Err,
    ensures
        next_state(p, PollEvent::Fetched(attempt)).updates == p.updates,
        answer(p, PollEvent::Fetched(attempt)).delivery == Delivery::Nothing,
        attempt is TimedOut ==> answer(p, PollEvent::Fetched(attempt)).log == Some(
            LogRecord::Debug(
                if p.phase is InitialFetch {
                    LogLine::NoUpdateOnInitialFetch
                } else {
                    LogLine::NoUpdate
                },
            ),
        ),
        attempt matches FetchAttempt::Completed(Err(FetchError::Failed(cause))) ==> answer(
            p,
            PollEvent::Fetched(attempt),
        ).log == Some(
            LogRecord::Error(
                if p.phase is InitialFetch {
                    LogLine::InitialFetchFailed
                } else {
                    LogLine::FetchFailed
                },
                FetchError::Failed(cause),
            ),
        ),
{
}

/// At most one fetch is in flight: the poller asks for a fetch only
/// where none is outstanding, and then one is.
pub proof fn lemma_one_fetch_in_flight<T>(p: PollerView<T>, event: PollEvent<T>)
    ensures
        answer(p, event).next is Fetch ==> (p.phase is Idle || p.phase is Waiting) && (next_state(
            p,
            event,
        ).phase is InitialFetch || next_state(p, event).phase is Fetching),
        (p.phase is InitialFetch || p.phase is Fetching) ==> !(answer(p, event).next is Fetch),
{
}

} // verus!

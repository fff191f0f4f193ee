use vstd::prelude::*;

verus! {

use crate::coverage::{TimeRange, ActivityCoverage, MAX_TS, add_spec, points_of, range_points};
use crate::strutil::concat_strs;

/// Delay before the trace stream is reconnected after an interruption.
pub const TRACE_RETRY_WAIT_SECS: u64 = 5;

/// The trace streamer's phase.
#[derive(Clone, Copy, Debug, PartialEq, Eq, Structural)]
pub enum TracePhase {
    /// Waiting for readiness before anything is attempted.
    WaitingReady,
    /// Readiness observed; a connection attempt is under way.
    Connecting,
    /// A trace session is streaming; records are appended since `started_at`.
    Streaming { started_at: u64 },
    /// A write or serialization failure: the streamer stops for good.
    Failed,
}

/// What the streamer observed.
#[derive(Clone, Copy, Debug, PartialEq, Eq, Structural)]
pub enum TraceEvent {
    /// The readiness signal was read at the top of the loop.
    ReadyObserved { ready: bool },
    /// The trace session started at `now`.
    ConnectOk { now: u64 },
    /// Connecting failed or hit the outer cap.
    ConnectFailed,
    /// One record arrived and was appended.
    LogRecord,
    /// Readiness fell at `dropped_at` and has risen again: the device came
    /// back, the session must be rebuilt.
    ReadinessCycled { dropped_at: u64 },
    /// The session broke at `now` (connection lost or timed out).
    TransportFailed { now: u64 },
    /// A record could not be written out: the streamer stops for good.
    WriteFailed,
}

/// What the streamer does in response.
#[derive(Clone, Copy, Debug, PartialEq, Eq)]
pub struct TraceStep {
    pub next: TracePhase,
    /// Open a connection now.
    pub connect: bool,
    /// Merge this interval into the Coverage Set and persist it.
    pub merge: Option<TimeRange>,
    pub sleep_secs: u64,
    /// The task returns with an error.
    pub fatal: bool,
}

/// One transition of the trace streamer: it connects only on observed
/// readiness; while streaming, a readiness cycle or a transport failure
/// ends the interval and merges `[started_at, end)` into the coverage;
/// a write failure is fatal.
pub open spec fn trace_step_spec(phase: TracePhase, event: TraceEvent) -> TraceStep {
    let stay = TraceStep { next: phase, connect: false, merge: None, sleep_secs: 0, fatal: false };
    match (phase, event) {
        (TracePhase::WaitingReady, TraceEvent::ReadyObserved { ready }) => if ready {
            TraceStep {
                next: TracePhase::Connecting,
                connect: true,
                merge: None,
                sleep_secs: 0,
                fatal: false,
            }
        } else {
            TraceStep {
                next: TracePhase::WaitingReady,
                connect: false,
                merge: None,
                sleep_secs: TRACE_RETRY_WAIT_SECS,
                fatal: false,
            }
        },
        (TracePhase::Connecting, TraceEvent::ConnectOk { now }) => TraceStep {
            next: TracePhase::Streaming { started_at: now },
            connect: false,
            merge: None,
            sleep_secs: 0,
            fatal: false,
        },
        (TracePhase::Connecting, TraceEvent::ConnectFailed) => TraceStep {
            next: TracePhase::WaitingReady,
            connect: false,
            merge: None,
            sleep_secs: TRACE_RETRY_WAIT_SECS,
            fatal: false,
        },
        (TracePhase::Streaming { .. }, TraceEvent::LogRecord) => stay,
        (TracePhase::Streaming { started_at }, TraceEvent::ReadinessCycled { dropped_at }) =>
            TraceStep {
            next: TracePhase::WaitingReady,
            connect: false,
            merge: Some((TimeRange { start: started_at, end: dropped_at })),
            sleep_secs: TRACE_RETRY_WAIT_SECS,
            fatal: false,
        },
        (TracePhase::Streaming { started_at }, TraceEvent::TransportFailed { now }) => TraceStep {
            next: TracePhase::WaitingReady,
            connect: false,
            merge: Some((TimeRange { start: started_at, end: now })),
            sleep_secs: TRACE_RETRY_WAIT_SECS,
            fatal: false,
        },
        (_, TraceEvent::WriteFailed) => TraceStep {
            next: TracePhase::Failed,
            connect: false,
            merge: None,
            sleep_secs: 0,
            fatal: true,
        },
        _ => stay,
    }
}

/// Decide the streamer's response to one event.
pub fn trace_step(phase: TracePhase, event: TraceEvent) -> (r: TraceStep)
    ensures
        r == trace_step_spec(phase, event),
{
    let stay = TraceStep { next: phase, connect: false, merge: None, sleep_secs: 0, fatal: false };
    match (phase, event) {
        (TracePhase::WaitingReady, TraceEvent::ReadyObserved { ready }) => if ready {
            TraceStep {
                next: TracePhase::Connecting,
                connect: true,
                merge: None,
                sleep_secs: 0,
                fatal: false,
            }
        } else {
            TraceStep {
                next: TracePhase::WaitingReady,
                connect: false,
                merge: None,
                sleep_secs: TRACE_RETRY_WAIT_SECS,
                fatal: false,
            }
        },
        (TracePhase::Connecting, TraceEvent::ConnectOk { now }) => TraceStep {
            next: TracePhase::Streaming { started_at: now },
            connect: false,
            merge: None,
            sleep_secs: 0,
            fatal: false,
        },
        (TracePhase::Connecting, TraceEvent::ConnectFailed) => TraceStep {
            next: TracePhase::WaitingReady,
            connect: false,
            merge: None,
            sleep_secs: TRACE_RETRY_WAIT_SECS,
            fatal: false,
        },
        (TracePhase::Streaming { .. }, TraceEvent::LogRecord) => stay,
        (TracePhase::Streaming { started_at }, TraceEvent::ReadinessCycled { dropped_at }) =>
            TraceStep {
            next: TracePhase::WaitingReady,
            connect: false,
            merge: Some(TimeRange { start: started_at, end: dropped_at }),
            sleep_secs: TRACE_RETRY_WAIT_SECS,
            fatal: false,
        },
        (TracePhase::Streaming { started_at }, TraceEvent::TransportFailed { now }) => TraceStep {
            next: TracePhase::WaitingReady,
            connect: false,
            merge: Some(TimeRange { start: started_at, end: now }),
            sleep_secs: TRACE_RETRY_WAIT_SECS,
            fatal: false,
        },
        (_, TraceEvent::WriteFailed) => TraceStep {
            next: TracePhase::Failed,
            connect: false,
            merge: None,
            sleep_secs: 0,
            fatal: true,
        },
        _ => stay,
    }
}

/// A collector connects only on an observed `ready == true`: while
/// readiness is `false`, no step of the streamer opens a connection.
pub proof fn lemma_trace_connects_only_when_ready(phase: TracePhase, event: TraceEvent)
    ensures
        trace_step_spec(phase, event).connect ==> event == (TraceEvent::ReadyObserved {
            ready: true,
        }),
{
}

/// A readiness cycle while streaming merges exactly one interval, from the
/// stream start to the moment readiness dropped, and leaves the streaming
/// phase; outside the streaming phase no step merges anything.
pub proof fn lemma_cycle_merges_once(started_at: u64, dropped_at: u64)
    ensures
        trace_step_spec(
            TracePhase::Streaming { started_at },
            TraceEvent::ReadinessCycled { dropped_at },
        ).merge == Some((TimeRange { start: started_at, end: dropped_at })),
        !(trace_step_spec(
            TracePhase::Streaming { started_at },
            TraceEvent::ReadinessCycled { dropped_at },
        ).next matches TracePhase::Streaming { .. }),
        forall|phase: TracePhase, event: TraceEvent|
            !(phase matches TracePhase::Streaming { .. }) ==> #[trigger] trace_step_spec(
                phase,
                event,
            ).merge is None,
{
}

/// Apply a merge decided by a step to the Coverage Set.
pub fn apply_merge(coverage: &mut ActivityCoverage, merge: Option<TimeRange>)
    requires
        old(coverage).wf(),
        merge matches Some(r) ==> r.end <= MAX_TS,
    ensures
        final(coverage).wf(),
        match merge {
            Some(r) => final(coverage)@ == add_spec(old(coverage)@, r) && points_of(
                final(coverage)@,
            ) == points_of(old(coverage)@) + range_points(r),
            None => final(coverage)@ == old(coverage)@,
        },
{
    match merge {
        Some(r) => coverage.add_range(r),
        None => {},
    }
}

/// One NDJSON line: the serialized record followed by a newline.
pub fn frame_record(line: &str) -> (r: String)
    ensures
        r@ == line@ + "\n"@,
{
    concat_strs(line, "\n")
}

} // verus!

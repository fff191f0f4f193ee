use vstd::prelude::*;

verus! {

use crate::coverage::MAX_TS;
use crate::timefmt::{rfc3339_of, format_rfc3339};
use crate::jsoncodec::{json_of_string, encode_string};

/// Delay before a failed heartbeat connection is retried.
pub const HEARTBEAT_RECONNECT_WAIT_SECS: u64 = 30;

/// If no heartbeat session is established within this time, readiness is
/// published optimistically.
pub const HEARTBEAT_SOFT_TIMEOUT_SECS: u64 = 7;

/// How long a device is treated as alive without heartbeat confirmation.
pub const HEARTBEAT_OPTIMISTIC_WINDOW_SECS: u64 = 420;

/// Slack added to the device's announced message interval before a read is
/// considered timed out.
pub const HEARTBEAT_MARCO_SLACK_SECS: u64 = 5;

/// The last time a heartbeat session was established, in seconds since the
/// Unix epoch; zero when none ever was.
#[derive(Clone, Copy, Debug, PartialEq, Eq, Structural)]
pub struct HeartBeat {
    pub last_established: u64,
}

impl HeartBeat {
    pub fn new() -> (r: HeartBeat)
        ensures
            r.last_established == 0,
    {
        HeartBeat { last_established: 0 }
    }

    /// Remember the time the session was (re-)established.
    pub fn update_last_established(&mut self, now: u64)
        ensures
            final(self).last_established == now,
    {
        self.last_established = now;
    }
}

/// The JSON text persisted for the last-established timestamp: a single
/// JSON string holding the RFC 3339 time.
pub open spec fn heartbeat_record_of(now: u64) -> Seq<char> {
    json_of_string(rfc3339_of(now))
}

pub fn heartbeat_record_json(now: u64) -> (r: String)
    requires
        now <= MAX_TS,
    ensures
        r@ == heartbeat_record_of(now),
{
    encode_string(&format_rfc3339(now))
}

/// The heartbeat supervisor's phase.
#[derive(Clone, Copy, Debug, PartialEq, Eq, Structural)]
pub enum HbPhase {
    /// No session; a connection attempt is under way or about to start.
    Disconnected,
    /// A session is live; the next marco is awaited within the deadline.
    Connected { read_deadline_secs: u64 },
    /// No session, but the device is treated as alive for a bounded window.
    OptimisticReady { until: u64 },
}

/// What the supervisor observed.
#[derive(Clone, Copy, Debug, PartialEq, Eq, Structural)]
pub enum HbEvent {
    /// The heartbeat session was established at `now`.
    ConnectOk { now: u64 },
    /// The connection attempt failed.
    ConnectFailed,
    /// The connection attempt did not return within the soft timeout.
    SoftTimeout { now: u64 },
    /// A liveness message arrived, carrying the next interval hint.
    Marco { hint_secs: u64 },
    /// Reading the liveness message failed or timed out.
    MarcoFailed,
    /// Answering the liveness message failed.
    PoloFailed,
    /// The optimistic window ran out without a session.
    OptimisticWindowElapsed,
}

/// What the supervisor does in response: the next phase, a readiness value
/// to publish, a timestamp to persist, whether to answer with a polo, and
/// how long to sleep before going on.
#[derive(Clone, Copy, Debug, PartialEq, Eq)]
pub struct HbStep {
    pub next: HbPhase,
    pub publish: Option<bool>,
    pub persist_timestamp: Option<u64>,
    pub send_polo: bool,
    pub sleep_secs: u64,
}

/// Addition capped at the largest representable value.
pub open spec fn sat_add(a: u64, b: u64) -> u64 {
    if a + b <= u64::MAX {
        (a + b) as u64
    } else {
        u64::MAX
    }
}

/// One transition of the heartbeat supervisor, as described by its state
/// machine: a fresh session publishes readiness and persists the time; a
/// lost one publishes `false` and backs off; the soft timeout opens a
/// bounded optimistic window, at whose end readiness drops.
pub open spec fn hb_step_spec(phase: HbPhase, event: HbEvent, refresh_secs: u64) -> HbStep {
    match event {
        HbEvent::ConnectOk { now } => HbStep {
            next: HbPhase::Connected { read_deadline_secs: refresh_secs },
            publish: Some(true),
            persist_timestamp: Some(now),
            send_polo: false,
            sleep_secs: 0,
        },
        HbEvent::ConnectFailed => HbStep {
            next: HbPhase::Disconnected,
            publish: Some(false),
            persist_timestamp: None,
            send_polo: false,
            sleep_secs: HEARTBEAT_RECONNECT_WAIT_SECS,
        },
        HbEvent::SoftTimeout { now } => HbStep {
            next: HbPhase::OptimisticReady { until: sat_add(now, HEARTBEAT_OPTIMISTIC_WINDOW_SECS) },
            publish: Some(true),
            persist_timestamp: None,
            send_polo: false,
            sleep_secs: HEARTBEAT_OPTIMISTIC_WINDOW_SECS,
        },
        HbEvent::Marco { hint_secs } => match phase {
            HbPhase::Connected { .. } => HbStep {
                next: HbPhase::Connected {
                    read_deadline_secs: sat_add(hint_secs, HEARTBEAT_MARCO_SLACK_SECS),
                },
                publish: None,
                persist_timestamp: None,
                send_polo: true,
                sleep_secs: 0,
            },
            _ => HbStep {
                next: phase,
                publish: None,
                persist_timestamp: None,
                send_polo: false,
                sleep_secs: 0,
            },
        },
        HbEvent::MarcoFailed => match phase {
            HbPhase::Connected { .. } => HbStep {
                next: HbPhase::Disconnected,
                publish: Some(false),
                persist_timestamp: None,
                send_polo: false,
                sleep_secs: HEARTBEAT_RECONNECT_WAIT_SECS,
            },
            _ => HbStep {
                next: phase,
                publish: None,
                persist_timestamp: None,
                send_polo: false,
                sleep_secs: 0,
            },
        },
        HbEvent::PoloFailed => HbStep {
            next: phase,
            publish: None,
            persist_timestamp: None,
            send_polo: false,
            sleep_secs: 0,
        },
        HbEvent::OptimisticWindowElapsed => match phase {
            HbPhase::OptimisticReady { .. } => HbStep {
                next: HbPhase::Disconnected,
                publish: Some(false),
                persist_timestamp: None,
                send_polo: false,
                sleep_secs: 0,
            },
            _ => HbStep {
                next: phase,
                publish: None,
                persist_timestamp: None,
                send_polo: false,
                sleep_secs: 0,
            },
        },
    }
}

/// Decide the supervisor's response to one event.
pub fn hb_step(phase: HbPhase, event: HbEvent, refresh_secs: u64) -> (r: HbStep)
    ensures
        r == hb_step_spec(phase, event, refresh_secs),
{
    match event {
        HbEvent::ConnectOk { now } => HbStep {
            next: HbPhase::Connected { read_deadline_secs: refresh_secs },
            publish: Some(true),
            persist_timestamp: Some(now),
            send_polo: false,
            sleep_secs: 0,
        },
        HbEvent::ConnectFailed => HbStep {
            next: HbPhase::Disconnected,
            publish: Some(false),
            persist_timestamp: None,
            send_polo: false,
            sleep_secs: HEARTBEAT_RECONNECT_WAIT_SECS,
        },
        HbEvent::SoftTimeout { now } => {
            let until = if now <= u64::MAX - HEARTBEAT_OPTIMISTIC_WINDOW_SECS {
                now + HEARTBEAT_OPTIMISTIC_WINDOW_SECS
            } else {
                u64::MAX
            };
            HbStep {
                next: HbPhase::OptimisticReady { until },
                publish: Some(true),
                persist_timestamp: None,
                send_polo: false,
                sleep_secs: HEARTBEAT_OPTIMISTIC_WINDOW_SECS,
            }
        },
        HbEvent::Marco { hint_secs } => match phase {
            HbPhase::Connected { .. } => {
                let deadline = if hint_secs <= u64::MAX - HEARTBEAT_MARCO_SLACK_SECS {
                    hint_secs + HEARTBEAT_MARCO_SLACK_SECS
                } else {
                    u64::MAX
                };
                HbStep {
                    next: HbPhase::Connected { read_deadline_secs: deadline },
                    publish: None,
                    persist_timestamp: None,
                    send_polo: true,
                    sleep_secs: 0,
                }
            },
            _ => HbStep {
                next: phase,
                publish: None,
                persist_timestamp: None,
                send_polo: false,
                sleep_secs: 0,
            },
        },
        HbEvent::MarcoFailed => match phase {
            HbPhase::Connected { .. } => HbStep {
                next: HbPhase::Disconnected,
                publish: Some(false),
                persist_timestamp: None,
                send_polo: false,
                sleep_secs: HEARTBEAT_RECONNECT_WAIT_SECS,
            },
            _ => HbStep {
                next: phase,
                publish: None,
                persist_timestamp: None,
                send_polo: false,
                sleep_secs: 0,
            },
        },
        HbEvent::PoloFailed => HbStep {
            next: phase,
            publish: None,
            persist_timestamp: None,
            send_polo: false,
            sleep_secs: 0,
        },
        HbEvent::OptimisticWindowElapsed => match phase {
            HbPhase::OptimisticReady { .. } => HbStep {
                next: HbPhase::Disconnected,
                publish: Some(false),
                persist_timestamp: None,
                send_polo: false,
                sleep_secs: 0,
            },
            _ => HbStep {
                next: phase,
                publish: None,
                persist_timestamp: None,
                send_polo: false,
                sleep_secs: 0,
            },
        },
    }
}

/// Readiness is published `false` exactly on a failed connection, a failed
/// liveness read, or an elapsed optimistic window; it is published `true`
/// exactly on an established session or the soft timeout.
pub proof fn lemma_hb_publishes(phase: HbPhase, event: HbEvent, refresh_secs: u64)
    ensures
        hb_step_spec(phase, event, refresh_secs).publish == Some(true) <==> (event matches
            HbEvent::ConnectOk { .. } || event matches HbEvent::SoftTimeout { .. }),
        hb_step_spec(phase, event, refresh_secs).publish == Some(false) <==> (event
            == HbEvent::ConnectFailed || (event == HbEvent::MarcoFailed && phase matches
            HbPhase::Connected { .. }) || (event == HbEvent::OptimisticWindowElapsed
            && phase matches HbPhase::OptimisticReady { .. })),
{
}

} // verus!

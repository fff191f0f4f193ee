//! A per-device supervisor for harvesting diagnostic artifacts from an
//! attached mobile device over an unreliable, session-oriented transport:
//! a heartbeat supervisor publishes a readiness signal, and three
//! collectors gated on it download crash reports, stream OS-trace records,
//! and backfill coverage gaps with archives. The Known-Set of downloaded
//! paths and the Coverage Set of streamed time intervals survive restarts
//! through persisted JSON state.

pub mod backfill;
pub mod codec;
pub mod config;
pub mod coverage;
pub mod crashes;
pub mod device;
pub mod errors;
pub mod heartbeat;
pub mod jsoncodec;
pub mod readiness;
pub mod strutil;
pub mod timefmt;
pub mod trace;

//! The probe engine and the statistics of a concurrent ICMP reachability
//! probe.
//!
//! The library decides and computes; it performs no input or output. Its
//! owner sends the frames, keeps the time and draws the views.
//!
//! * `checksum` and `codec`: the Internet checksum, building echo requests
//!   and reading echo replies.
//! * `coordinator`: the pacing interval, the number of probes per target and
//!   the identifier and sequence range of every target.
//! * `session`: the probe session of one target, as a state machine.
//! * `event`: what sessions, probers and the consumer of updates exchange.
//! * `window` and `metrics`: the rolling window of samples of a target and
//!   the statistics over it.
//! * `model`: the records that the views read, and the log of recent errors,
//!   as the consumer of the update pipeline keeps them.
//! * `targets` and `resolve`: the list of targets and the choice among the
//!   addresses of a host.
//! * `view`: what the views decide before anything is drawn.
//!
//! Round-trip times are whole microseconds, intervals whole milliseconds,
//! and loss rates hundredths of a percent.

pub mod checksum;
pub mod codec;
pub mod coordinator;
pub mod event;
pub mod metrics;
pub mod model;
pub mod resolve;
pub mod session;
pub mod targets;
pub mod text;
pub mod view;
pub mod window;

//! UDP hole punching toward a peer whose NAT hands out external ports in
//! sequence.
//!
//! - [`window`] predicts, from a few sampled ports, where the peer's next
//!   external ports lie.
//! - [`sample`] decides how one port sample is taken from a rendezvous server.
//! - [`punch`] is the punch itself, as a state machine: the caller does the
//!   sending and receiving and tells the machine what happened.
//! - [`laws`] states what holds of them together, and [`answers`] what each answer
//!   is, in numbers.
//!
//! Clock readings are nanoseconds on any monotonic clock of the caller's.

pub mod addr;
pub mod answers;
pub mod clock;
pub mod laws;
pub mod limits;
pub mod payload;
pub mod punch;
pub mod sample;
pub mod window;

pub use addr::{IpAddress, PeerAddr};
pub use limits::{MAX_PACKETS, MAX_STEP, SEND_INTERVAL_MS, SOCKETS, TIMEOUT_MS, WINDOW};
pub use punch::{
    punch_udp_predictive, Datagram, Drain, Drained, PredictCtx, Punch, PunchAction, PunchError,
    PunchEvent, PunchOutcome,
};
pub use sample::{sample_udp_port, PortSampler, Reception, SampleStep};
pub use window::predict_port_window;

//! A UDP message transport: background reception into an ordered stream,
//! one-shot sends to a configured peer, and timed retransmission of a payload
//! that stops once a cancellation flag is observed.
//!
//! This crate holds the transport's decisions, each with a contract. The
//! socket, the background tasks and the shared flag are driven by a thin
//! runtime layer that performs the actions these functions return.
pub mod config;
pub mod receive;
pub mod timers;
pub mod transport;

pub use config::{Address, Config, FromArguments, FromDefault, FromEnv, IpAddress};
pub use transport::Polygon;

//! Address-space expansion and scan scheduling for a TCP connect scanner.
//!
//! The crate turns textual target and port descriptions into concrete
//! address and port lists, decides what every connection attempt amounts
//! to, and schedules the attempts of one address under a fixed cap on the
//! number that run at once. It performs no I/O itself: a driver opens the
//! sockets and reports back what happened.

pub mod address;
pub mod attempt;
pub mod batch;
pub mod error;
pub mod outcome;
pub mod ports;
pub mod report;
pub mod targets;
pub mod text;

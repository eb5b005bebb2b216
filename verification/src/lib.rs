//! Round-trip latency benchmarking over TCP and UDP, together with the paired
//! echo endpoint's decision logic.
//!
//! The library holds everything that can be stated and proved about the
//! benchmark: the message codec that tiles a little-endian index pattern
//! across a payload, the per-reply acceptance rules of a transport session,
//! the test runner that folds per-message results into ordered outcomes, the
//! result aggregator, and the echo service's per-iteration decisions. The
//! caller owns the sockets, clocks and threads; it hands the library plain
//! values (bytes read, source addresses, elapsed nanoseconds) and performs
//! the actions the library's verdicts call for.

pub mod addr;
pub mod codec;
pub mod echo;
pub mod outcome;
pub mod server;
pub mod session;

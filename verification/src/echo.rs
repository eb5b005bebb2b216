//! Per-iteration decisions of the echo service. The service runs two
//! independent concurrent loops, one per transport; the caller owns the
//! sockets, the threads and the stop notifications, and asks these functions
//! what each iteration does: what to write back, whether to keep looping,
//! and how to report each loop's shutdown — always both loops, each judged
//! on its own, so one loop's failure never hides the other's outcome.

use vstd::prelude::*;

use crate::addr::NetAddress;

verus! {

/// What one TCP loop iteration does with the bytes it read from the open
/// connection.
pub enum TcpEchoAction {
    /// A zero-length read: the peer closed, resume accepting connections.
    CloseConnection,
    /// Write these bytes back, unchanged and in order.
    Echo(Vec<u8>),
}

/// Decides one TCP echo iteration. Everything read is written back
/// identically and in order; only a zero-length read closes the connection.
pub fn tcp_echo_step(buffer: &Vec<u8>, n_read: usize) -> (r: TcpEchoAction)
    requires
        n_read <= buffer@.len(),
    ensures
        n_read == 0 ==> r is CloseConnection,
        n_read > 0 ==> r is Echo && r->Echo_0@ == buffer@.take(n_read as int),
{
    if n_read == 0 {
        TcpEchoAction::CloseConnection
    } else {
        TcpEchoAction::Echo(copy_prefix(buffer, n_read))
    }
}

/// Decides one UDP echo iteration: every received datagram is echoed
/// verbatim, as one datagram, to the single configured destination — not to
/// the datagram's own source; this is a point-to-point design for exactly
/// one benchmarking peer.
pub fn udp_echo_step(buffer: &Vec<u8>, n_read: usize, destination: &NetAddress) -> (r: (
    Vec<u8>,
    NetAddress,
))
    requires
        n_read <= buffer@.len(),
    ensures
        r.0@ == buffer@.take(n_read as int),
        r.1 == *destination,
{
    (copy_prefix(buffer, n_read), *destination)
}

fn copy_prefix(buffer: &Vec<u8>, n: usize) -> (r: Vec<u8>)
    requires
        n <= buffer@.len(),
    ensures
        r@ == buffer@.take(n as int),
{
    let mut r: Vec<u8> = Vec::new();
    let mut i: usize = 0;
    while i < n
        invariant
            i <= n <= buffer@.len(),
            r@ == buffer@.take(i as int),
        decreases n - i,
    {
        r.push(buffer[i]);
        proof {
            assert(buffer@.take(i as int) + seq![buffer@[i as int]] =~= buffer@.take(i + 1));
        }
        i = i + 1;
    }
    r
}

/// Whether an echo loop runs one more iteration: it keeps looping exactly
/// until its one-shot stop notification has fired, so signaling the
/// notification ends the loop after at most the current iteration.
pub fn echo_loop_continues(stop_signaled: bool) -> (r: bool)
    ensures
        r == !stop_signaled,
{
    !stop_signaled
}

/// How joining one echo loop ended, as the controller observed it.
#[derive(Clone, Copy, PartialEq, Eq, Structural, Debug)]
pub enum JoinOutcome {
    /// The loop was joined and had stopped cleanly.
    JoinedClean,
    /// The loop was joined but had ended with an error of its own.
    JoinedWithError,
    /// The loop could not be joined at all.
    JoinFailed,
}

/// The controller's verdict on one loop's shutdown.
#[derive(Clone, Copy, PartialEq, Eq, Structural, Debug)]
pub enum LoopVerdict {
    CleanStop,
    LoopError,
    ShutdownJoinError,
}

/// The shutdown report: one verdict per loop, each judged independently.
#[derive(Clone, Copy, PartialEq, Eq, Structural, Debug)]
pub struct ShutdownReport {
    pub tcp: LoopVerdict,
    pub udp: LoopVerdict,
}

/// Judges one loop's shutdown from how its join ended.
pub fn loop_shutdown_verdict(join: JoinOutcome) -> (r: LoopVerdict)
    ensures
        r is CleanStop <==> join is JoinedClean,
        r is LoopError <==> join is JoinedWithError,
        r is ShutdownJoinError <==> join is JoinFailed,
{
    match join {
        JoinOutcome::JoinedClean => LoopVerdict::CleanStop,
        JoinOutcome::JoinedWithError => LoopVerdict::LoopError,
        JoinOutcome::JoinFailed => LoopVerdict::ShutdownJoinError,
    }
}

/// Builds the whole shutdown report. Each loop's verdict depends on that
/// loop's join outcome alone: however the TCP loop ended, the UDP loop's
/// outcome is still judged and reported, and the other way round.
pub fn shutdown_report(tcp_join: JoinOutcome, udp_join: JoinOutcome) -> (r: ShutdownReport)
    ensures
        r.tcp is CleanStop <==> tcp_join is JoinedClean,
        r.tcp is LoopError <==> tcp_join is JoinedWithError,
        r.tcp is ShutdownJoinError <==> tcp_join is JoinFailed,
        r.udp is CleanStop <==> udp_join is JoinedClean,
        r.udp is LoopError <==> udp_join is JoinedWithError,
        r.udp is ShutdownJoinError <==> udp_join is JoinFailed,
{
    ShutdownReport {
        tcp: loop_shutdown_verdict(tcp_join),
        udp: loop_shutdown_verdict(udp_join),
    }
}

} // verus!

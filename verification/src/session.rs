//! Per-reply decisions of a transport session. The caller owns the socket
//! and the clock; it hands every reply it reads to these functions, which
//! decide whether the reply completes the pending message, is discarded, or
//! whether the attempt is abandoned. Only the wall-clock deadline ends an
//! attempt: a corrupt reply, or a UDP reply from a stranger, is discarded
//! and receiving continues.

use vstd::prelude::*;

use crate::addr::NetAddress;
use crate::codec::matches_pattern;
use crate::codec::verify_prefix;

verus! {

/// True iff the attempt's wall-clock deadline has passed. A pending receive
/// is abandoned exactly when more than `timeout_nanos` have elapsed since
/// the message was sent.
pub fn deadline_exceeded(elapsed_nanos: u64, timeout_nanos: u64) -> (r: bool)
    ensures
        r == (elapsed_nanos > timeout_nanos),
{
    elapsed_nanos > timeout_nanos
}

/// Judges one UDP reply datagram: it answers the pending message exactly
/// when it came from the configured peer, is full length, and every byte
/// matches the pattern for the expected index. A datagram from any other
/// source is never accepted, whatever it holds.
pub fn udp_reply_matches(
    datagram: &Vec<u8>,
    n_read: usize,
    src: &NetAddress,
    peer: &NetAddress,
    expected_len: usize,
    expected_index: u32,
) -> (r: bool)
    requires
        n_read <= datagram@.len(),
    ensures
        r == (*src == *peer && n_read == expected_len && matches_pattern(
            datagram@.take(n_read as int),
            expected_index,
        )),
{
    if *src != *peer {
        return false;
    }
    if n_read != expected_len {
        return false;
    }
    verify_prefix(datagram, n_read, expected_index)
}

/// Accumulates the partial reads of one TCP reply until exactly the expected
/// number of bytes has been collected, and only then lets the content be
/// judged.
pub struct TcpReceiver {
    /// How many bytes one full reply holds.
    pub expected_len: usize,
    /// What has been read of the pending reply so far.
    pub buf: Vec<u8>,
}

impl TcpReceiver {
    /// Starts collecting a reply of `expected_len` bytes.
    pub fn new(expected_len: usize) -> (r: TcpReceiver)
        ensures
            r.expected_len == expected_len,
            r.buf@ == Seq::<u8>::empty(),
    {
        TcpReceiver { expected_len, buf: Vec::new() }
    }

    /// Appends the low `n_read` bytes of one chunk read from the stream;
    /// returns whether the reply is now complete. The caller reads at most
    /// the bytes still missing.
    pub fn push_chunk(&mut self, chunk: &Vec<u8>, n_read: usize) -> (complete: bool)
        requires
            n_read <= chunk@.len(),
            old(self).buf@.len() + n_read <= old(self).expected_len,
        ensures
            final(self).expected_len == old(self).expected_len,
            final(self).buf@ == old(self).buf@ + chunk@.take(n_read as int),
            complete == (final(self).buf@.len() == final(self).expected_len),
    {
        let mut i: usize = 0;
        while i < n_read
            invariant
                i <= n_read <= chunk@.len(),
                self.expected_len == old(self).expected_len,
                self.buf@ == old(self).buf@ + chunk@.take(i as int),
            decreases n_read - i,
        {
            self.buf.push(chunk[i]);
            proof {
                assert(old(self).buf@ + chunk@.take(i as int) + seq![chunk@[i as int]] =~= old(
                    self,
                ).buf@ + chunk@.take(i + 1));
            }
            i = i + 1;
        }
        self.buf.len() == self.expected_len
    }

    /// How many bytes of the pending reply are still missing.
    pub fn missing(&self) -> (r: usize)
        requires
            self.buf@.len() <= self.expected_len,
        ensures
            r == self.expected_len - self.buf@.len(),
    {
        self.expected_len - self.buf.len()
    }

    /// After a complete reply: true iff its content matches the pattern for
    /// the expected index. Either way the collected bytes are discarded, so
    /// that on a mismatch the caller keeps receiving the next reply toward
    /// the same deadline.
    pub fn check_and_reset(&mut self, expected_index: u32) -> (r: bool)
        requires
            old(self).buf@.len() == old(self).expected_len,
        ensures
            r == matches_pattern(old(self).buf@, expected_index),
            final(self).expected_len == old(self).expected_len,
            final(self).buf@ == Seq::<u8>::empty(),
    {
        let n = self.buf.len();
        let r = verify_prefix(&self.buf, n, expected_index);
        proof {
            assert(self.buf@.take(n as int) =~= self.buf@);
        }
        self.buf.clear();
        r
    }
}

} // verus!

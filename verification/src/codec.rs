//! Message codec: a payload carries its own message index, tiled across the
//! buffer as the 4-byte little-endian representation of the index. Embedding
//! the index in the payload gives stateless integrity checking without a
//! header, which matters for UDP where datagrams can arrive out of order, be
//! duplicated, or be stray traffic.

use vstd::prelude::*;

verus! {

/// Byte `p` of the tiled pattern for `index`: byte `p % 4` of the
/// little-endian representation of `index`.
pub open spec fn pattern_byte(index: u32, p: int) -> u8 {
    let k = p % 4;
    if k == 0 {
        (index & 0xff) as u8
    } else if k == 1 {
        ((index >> 8) & 0xff) as u8
    } else if k == 2 {
        ((index >> 16) & 0xff) as u8
    } else {
        ((index >> 24) & 0xff) as u8
    }
}

/// The whole payload for `index` over `length` bytes. For `length < 4` this
/// is exactly the low `length` bytes of the 4-byte pattern.
pub open spec fn pattern_seq(index: u32, length: nat) -> Seq<u8> {
    Seq::new(length, |p: int| pattern_byte(index, p))
}

/// True iff every byte of `b` equals the corresponding tiled byte for
/// `index`. A buffer shorter than 4 bytes is compared against the low bytes
/// of the pattern only.
pub open spec fn matches_pattern(b: Seq<u8>, index: u32) -> bool {
    forall|p: int| 0 <= p < b.len() ==> b[p] == pattern_byte(index, p)
}

/// Builds the payload for message `index`: the 4-byte little-endian
/// representation of `index`, tiled across `length` bytes and truncated to
/// the low bytes when `length < 4`.
pub fn encode(index: u32, length: usize) -> (r: Vec<u8>)
    ensures
        r@ == pattern_seq(index, length as nat),
{
    let b0: u8 = (index & 0xff) as u8;
    let b1: u8 = ((index >> 8) & 0xff) as u8;
    let b2: u8 = ((index >> 16) & 0xff) as u8;
    let b3: u8 = ((index >> 24) & 0xff) as u8;
    let mut r: Vec<u8> = Vec::new();
    let mut p: usize = 0;
    while p < length
        invariant
            p <= length,
            r@.len() == p,
            forall|q: int| 0 <= q < p ==> r@[q] == pattern_byte(index, q),
            b0 == (index & 0xff) as u8,
            b1 == ((index >> 8) & 0xff) as u8,
            b2 == ((index >> 16) & 0xff) as u8,
            b3 == ((index >> 24) & 0xff) as u8,
        decreases length - p,
    {
        let k = p % 4;
        let byte = if k == 0 {
            b0
        } else if k == 1 {
            b1
        } else if k == 2 {
            b2
        } else {
            b3
        };
        r.push(byte);
        p = p + 1;
    }
    proof {
        assert(r@ =~= pattern_seq(index, length as nat));
    }
    r
}

/// True iff the low `n` bytes of `buffer` all match the tiled pattern for
/// `index`.
pub fn verify_prefix(buffer: &Vec<u8>, n: usize, index: u32) -> (r: bool)
    requires
        n <= buffer@.len(),
    ensures
        r == matches_pattern(buffer@.take(n as int), index),
{
    let b0: u8 = (index & 0xff) as u8;
    let b1: u8 = ((index >> 8) & 0xff) as u8;
    let b2: u8 = ((index >> 16) & 0xff) as u8;
    let b3: u8 = ((index >> 24) & 0xff) as u8;
    let mut p: usize = 0;
    while p < n
        invariant
            p <= n <= buffer@.len(),
            forall|q: int| 0 <= q < p ==> buffer@[q] == pattern_byte(index, q),
            b0 == (index & 0xff) as u8,
            b1 == ((index >> 8) & 0xff) as u8,
            b2 == ((index >> 16) & 0xff) as u8,
            b3 == ((index >> 24) & 0xff) as u8,
        decreases n - p,
    {
        let k = p % 4;
        let expected = if k == 0 {
            b0
        } else if k == 1 {
            b1
        } else if k == 2 {
            b2
        } else {
            b3
        };
        if buffer[p] != expected {
            proof {
                assert(buffer@.take(n as int)[p as int] != pattern_byte(index, p as int));
            }
            return false;
        }
        p = p + 1;
    }
    proof {
        assert forall|q: int| 0 <= q < buffer@.take(n as int).len() implies buffer@.take(
            n as int,
        )[q] == pattern_byte(index, q) by {
            assert(buffer@.take(n as int)[q] == buffer@[q]);
        }
    }
    true
}

/// True iff every byte of `buffer` equals the corresponding tiled byte for
/// `index`.
pub fn verify(buffer: &Vec<u8>, index: u32) -> (r: bool)
    ensures
        r == matches_pattern(buffer@, index),
{
    let n = buffer.len();
    let r = verify_prefix(buffer, n, index);
    proof {
        assert(buffer@.take(n as int) =~= buffer@);
    }
    r
}

/// Round trip: for every index and length, the encoded payload verifies
/// against the index it was encoded for.
pub proof fn lemma_encode_verify_round_trip(index: u32, length: nat)
    ensures
        matches_pattern(pattern_seq(index, length), index),
{
    assert forall|p: int| 0 <= p < pattern_seq(index, length).len() implies pattern_seq(
        index,
        length,
    )[p] == pattern_byte(index, p) by {}
}

/// Truncation safety: a shorter payload for the same index is exactly a
/// prefix of a longer one, so for `length < 4` the payload uses only the low
/// `length` bytes of the 4-byte pattern, and verification of such a buffer
/// compares only those bytes.
pub proof fn lemma_pattern_prefix(index: u32, short: nat, long: nat)
    requires
        short <= long,
    ensures
        pattern_seq(index, short) == pattern_seq(index, long).take(short as int),
{
    assert(pattern_seq(index, short) =~= pattern_seq(index, long).take(short as int));
}

} // verus!

use echo_bench::addr::NetAddress;
use echo_bench::codec::encode;
use echo_bench::session::TcpReceiver;
use echo_bench::session::deadline_exceeded;
use echo_bench::session::udp_reply_matches;

fn peer() -> NetAddress {
    NetAddress { octet0: 10, octet1: 0, octet2: 0, octet3: 2, port: 12710 }
}

fn stranger() -> NetAddress {
    NetAddress { octet0: 10, octet1: 0, octet2: 0, octet3: 3, port: 12710 }
}

#[test]
fn test_udp_accepts_matching_reply_from_peer() {
    let datagram = encode(7, 32);
    assert!(udp_reply_matches(&datagram, 32, &peer(), &peer(), 32, 7));
}

#[test]
fn test_udp_source_filtering() {
    // A verbatim echo of the right payload from the wrong source is never
    // accepted.
    let datagram = encode(7, 32);
    assert!(!udp_reply_matches(&datagram, 32, &stranger(), &peer(), 32, 7));
    // The same source address with a different port is a stranger too.
    let mut other_port = peer();
    other_port.port = 9;
    assert!(!udp_reply_matches(&datagram, 32, &other_port, &peer(), 32, 7));
}

#[test]
fn test_udp_rejects_wrong_length() {
    let datagram = encode(7, 32);
    assert!(!udp_reply_matches(&datagram, 16, &peer(), &peer(), 32, 7));
}

#[test]
fn test_udp_rejects_corrupt_content() {
    let mut datagram = encode(7, 32);
    datagram[3] ^= 1;
    assert!(!udp_reply_matches(&datagram, 32, &peer(), &peer(), 32, 7));
}

#[test]
fn test_tcp_receiver_accumulates_partial_reads() {
    let full = encode(258, 6);
    let mut receiver = TcpReceiver::new(6);
    assert!(!receiver.push_chunk(&full[0..2].to_vec(), 2));
    assert!(!receiver.push_chunk(&full[2..5].to_vec(), 3));
    assert!(receiver.push_chunk(&full[5..6].to_vec(), 1));
    assert!(receiver.check_and_reset(258));
    // The receiver is ready for the next reply afterwards.
    assert_eq!(receiver.buf.len(), 0);
    assert_eq!(receiver.missing(), 6);
}

#[test]
fn test_tcp_receiver_discards_corrupt_reply_and_restarts() {
    let mut corrupt = encode(258, 4);
    corrupt[0] ^= 0xff;
    let mut receiver = TcpReceiver::new(4);
    assert!(receiver.push_chunk(&corrupt, 4));
    assert!(!receiver.check_and_reset(258));
    // The corrupt bytes are gone; a clean reply still gets through.
    assert!(receiver.push_chunk(&encode(258, 4), 4));
    assert!(receiver.check_and_reset(258));
}

#[test]
fn test_deadline_is_strictly_after_timeout() {
    assert!(!deadline_exceeded(0, 10));
    assert!(!deadline_exceeded(10, 10));
    assert!(deadline_exceeded(11, 10));
}

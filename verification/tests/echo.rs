use echo_bench::addr::NetAddress;
use echo_bench::echo::JoinOutcome;
use echo_bench::echo::LoopVerdict;
use echo_bench::echo::TcpEchoAction;
use echo_bench::echo::echo_loop_continues;
use echo_bench::echo::loop_shutdown_verdict;
use echo_bench::echo::shutdown_report;
use echo_bench::echo::tcp_echo_step;
use echo_bench::echo::udp_echo_step;

fn destination() -> NetAddress {
    NetAddress { octet0: 192, octet1: 168, octet2: 1, octet3: 2, port: 12710 }
}

#[test]
fn test_tcp_echo_returns_bytes_identically() {
    let buffer = vec![9u8, 8, 7, 6, 5, 0, 0, 0];
    match tcp_echo_step(&buffer, 5) {
        TcpEchoAction::Echo(bytes) => assert_eq!(bytes, vec![9u8, 8, 7, 6, 5]),
        TcpEchoAction::CloseConnection => panic!("a non-empty read must be echoed"),
    }
}

#[test]
fn test_tcp_echo_closes_on_zero_length_read() {
    let buffer = vec![1u8, 2, 3];
    assert!(matches!(tcp_echo_step(&buffer, 0), TcpEchoAction::CloseConnection));
}

#[test]
fn test_udp_echo_one_datagram_to_configured_destination() {
    let buffer = vec![4u8, 3, 2, 1, 0, 0];
    let (payload, target) = udp_echo_step(&buffer, 4, &destination());
    assert_eq!(payload, vec![4u8, 3, 2, 1]);
    assert_eq!(target, destination());
}

#[test]
fn test_echo_loop_runs_until_stop_signal() {
    assert!(echo_loop_continues(false));
    assert!(!echo_loop_continues(true));
}

#[test]
fn test_loop_shutdown_verdicts() {
    assert_eq!(loop_shutdown_verdict(JoinOutcome::JoinedClean), LoopVerdict::CleanStop);
    assert_eq!(loop_shutdown_verdict(JoinOutcome::JoinedWithError), LoopVerdict::LoopError);
    assert_eq!(loop_shutdown_verdict(JoinOutcome::JoinFailed), LoopVerdict::ShutdownJoinError);
}

#[test]
fn test_shutdown_reports_each_loop_independently() {
    // A failed TCP join never hides the UDP loop's outcome, and the other
    // way round.
    let report = shutdown_report(JoinOutcome::JoinFailed, JoinOutcome::JoinedClean);
    assert_eq!(report.tcp, LoopVerdict::ShutdownJoinError);
    assert_eq!(report.udp, LoopVerdict::CleanStop);

    let report = shutdown_report(JoinOutcome::JoinedClean, JoinOutcome::JoinedWithError);
    assert_eq!(report.tcp, LoopVerdict::CleanStop);
    assert_eq!(report.udp, LoopVerdict::LoopError);
}

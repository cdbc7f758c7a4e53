use rusty_socket_wrench::{
    any_ready, bytes_read, AcceptOutcome, Action, Event, Fault, ReadOutcome, Relay, Side,
    WriteOutcome,
};

const WAIT: i32 = 500;
const CAP: usize = 2048;

fn polled(ret: i32, input_ready: bool, output_ready: bool) -> Event {
    Event::Polled { ret, input_ready, output_ready }
}

#[test]
fn idle_relay_polls_for_ever_with_the_wait() {
    let mut relay = Relay::new(false, false, WAIT, CAP);
    assert_eq!(relay.pending(), Action::Poll { timeout_ms: WAIT });
    for _ in 0..10_000 {
        let a = relay.step(polled(0, false, false));
        assert_eq!(a, Action::Poll { timeout_ms: WAIT });
    }
}

#[test]
fn idle_udp_listener_never_stops() {
    // udpin:9001 relayed to stdio, with no sender ever showing up
    let mut relay = Relay::new(false, false, WAIT, CAP);
    for _ in 0..1000 {
        assert!(!matches!(relay.step(polled(0, false, false)), Action::Abort(_)));
    }
    assert_eq!(relay.pending(), Action::Poll { timeout_ms: WAIT });
}

#[test]
fn idle_servers_accept_each_pass() {
    let mut relay = Relay::new(true, true, WAIT, CAP);
    assert_eq!(relay.pending(), Action::Accept(Side::Input));
    for _ in 0..100 {
        assert_eq!(relay.step(Event::Accepted(AcceptOutcome::WouldBlock)), Action::Accept(Side::Output));
        assert_eq!(relay.step(Event::Accepted(AcceptOutcome::Accepted)), Action::Poll { timeout_ms: WAIT });
        assert_eq!(relay.step(polled(0, false, false)), Action::Accept(Side::Input));
    }
}

#[test]
fn output_server_alone_is_accepted_on() {
    let mut relay = Relay::new(false, true, WAIT, CAP);
    assert_eq!(relay.pending(), Action::Accept(Side::Output));
    assert_eq!(relay.step(Event::Accepted(AcceptOutcome::WouldBlock)), Action::Poll { timeout_ms: WAIT });
}

#[test]
fn would_block_read_is_zero_bytes() {
    assert_eq!(bytes_read(ReadOutcome::WouldBlock), Some(0));
    assert_eq!(bytes_read(ReadOutcome::Bytes(7)), Some(7));
    assert_eq!(bytes_read(ReadOutcome::Failed), None);
    let mut relay = Relay::new(false, false, WAIT, CAP);
    assert_eq!(relay.step(polled(1, true, false)), Action::Read(Side::Input));
    assert_eq!(relay.step(Event::Read(ReadOutcome::WouldBlock)), Action::Poll { timeout_ms: WAIT });
}

#[test]
fn console_to_tcp_client_relays_both_ways() {
    // stdio -> tcpout:127.0.0.1:9000
    let mut relay = Relay::new(false, false, WAIT, CAP);
    assert_eq!(relay.step(polled(1, true, false)), Action::Read(Side::Input));
    assert_eq!(relay.step(Event::Read(ReadOutcome::Bytes(6))), Action::Write { to: Side::Output, len: 6 });
    assert_eq!(relay.step(Event::Wrote(WriteOutcome::Done)), Action::Poll { timeout_ms: WAIT });
    assert_eq!(relay.step(polled(1, false, true)), Action::Read(Side::Output));
    assert_eq!(relay.step(Event::Read(ReadOutcome::Bytes(4))), Action::Write { to: Side::Input, len: 4 });
    assert_eq!(relay.step(Event::Wrote(WriteOutcome::Done)), Action::Poll { timeout_ms: WAIT });
}

#[test]
fn both_ready_reads_input_first_and_writes_output_first() {
    let mut relay = Relay::new(false, false, WAIT, CAP);
    assert_eq!(relay.step(polled(2, true, true)), Action::Read(Side::Input));
    assert_eq!(relay.step(Event::Read(ReadOutcome::Bytes(3))), Action::Read(Side::Output));
    assert_eq!(relay.step(Event::Read(ReadOutcome::Bytes(9))), Action::Write { to: Side::Output, len: 3 });
    assert_eq!(relay.step(Event::Wrote(WriteOutcome::Done)), Action::Write { to: Side::Input, len: 9 });
    assert_eq!(relay.step(Event::Wrote(WriteOutcome::Done)), Action::Poll { timeout_ms: WAIT });
}

#[test]
fn an_empty_read_is_not_written() {
    let mut relay = Relay::new(false, false, WAIT, CAP);
    relay.step(polled(2, true, true));
    assert_eq!(relay.step(Event::Read(ReadOutcome::Bytes(0))), Action::Read(Side::Output));
    assert_eq!(relay.step(Event::Read(ReadOutcome::Bytes(5))), Action::Write { to: Side::Input, len: 5 });
}

#[test]
fn ready_poll_without_ready_channel_starts_over() {
    let mut relay = Relay::new(true, false, WAIT, CAP);
    relay.step(Event::Accepted(AcceptOutcome::WouldBlock));
    assert_eq!(relay.step(polled(1, false, false)), Action::Accept(Side::Input));
}

#[test]
fn a_full_buffer_is_forwarded_whole() {
    let mut relay = Relay::new(false, false, WAIT, CAP);
    relay.step(polled(1, true, false));
    assert_eq!(relay.step(Event::Read(ReadOutcome::Bytes(CAP))), Action::Write { to: Side::Output, len: CAP });
}

#[test]
fn faults_stop_the_relay() {
    let mut relay = Relay::new(true, false, WAIT, CAP);
    assert_eq!(relay.step(Event::Accepted(AcceptOutcome::Failed)), Action::Abort(Fault::AcceptFailed(Side::Input)));
    assert_eq!(relay.step(polled(0, false, false)), Action::Abort(Fault::AcceptFailed(Side::Input)));

    let mut relay = Relay::new(false, false, WAIT, CAP);
    assert_eq!(relay.step(polled(-1, false, false)), Action::Abort(Fault::PollFailed));

    let mut relay = Relay::new(false, false, WAIT, CAP);
    relay.step(polled(1, false, true));
    assert_eq!(relay.step(Event::Read(ReadOutcome::Failed)), Action::Abort(Fault::ReadFailed(Side::Output)));

    let mut relay = Relay::new(false, false, WAIT, CAP);
    relay.step(polled(1, true, false));
    assert_eq!(relay.step(Event::Read(ReadOutcome::Bytes(CAP + 1))), Action::Abort(Fault::Overlong(Side::Input)));

    let mut relay = Relay::new(false, false, WAIT, CAP);
    relay.step(polled(1, true, false));
    relay.step(Event::Read(ReadOutcome::Bytes(1)));
    assert_eq!(relay.step(Event::Wrote(WriteOutcome::Failed)), Action::Abort(Fault::WriteFailed(Side::Output)));

    let mut relay = Relay::new(false, false, WAIT, CAP);
    assert_eq!(relay.step(Event::Wrote(WriteOutcome::Done)), Action::Abort(Fault::OutOfOrder));
}

#[test]
fn readiness_ors_the_descriptors() {
    let pollin: i16 = 1;
    assert!(!any_ready(&[], pollin));
    assert!(!any_ready(&[0, 4, 0], pollin));
    assert!(any_ready(&[0, 4, 1], pollin));
    assert!(any_ready(&[1 | 16], pollin));
}

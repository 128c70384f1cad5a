use acs::rtt::{build_settings, parse_xbee_rtt_args, ResolvedXbeeRttPort, XbeeRttSettings};
use acs::rtt_round::RoundTerms;
use acs::rtt_run::{PeerSession, SessionStep};
use acs::rtt_session::{
    aggregate_local_pair, local_pair_result_lines, single_result_lines, LocalPeer, PeerRunResult,
};
use acs::rtt_wire::{FrameKind, ProtocolFrame};
use std::collections::VecDeque;

const MILLI: u64 = 1_000_000;

fn settings(assignments: &str) -> XbeeRttSettings {
    let args = ["--config", assignments].map(String::from).to_vec();
    let found = vec![Ok(String::from("/dev/ttyUSB0"))];
    build_settings(parse_xbee_rtt_args(args).unwrap(), found).unwrap()
}

/// A session with the frames that are on their way to it.
struct Side {
    session: PeerSession,
    incoming: VecDeque<ProtocolFrame>,
    /// Until when it waits.
    until: u64,
    result: Option<Result<PeerRunResult, String>>,
}

fn side(port: &str, nonce: u64, settings: &XbeeRttSettings) -> Side {
    let port = ResolvedXbeeRttPort { port: String::from(port), baud_rate: 115_200 };
    let peer = LocalPeer::new(port, nonce, settings.spec());
    Side {
        session: PeerSession::new(peer, RoundTerms::new(settings), 0),
        incoming: VecDeque::new(),
        until: 0,
        result: None,
    }
}

impl Side {
    /// What the side sends at the time, up to the next wait.
    fn turn(&mut self, now: u64) -> Vec<ProtocolFrame> {
        let mut sent = Vec::new();
        if self.result.is_some() {
            return sent;
        }
        if let Some(frame) = self.incoming.pop_front() {
            match self.session.hear(&frame, now) {
                Ok(answer) => sent.extend(answer),
                Err(error) => {
                    self.result = Some(Err(error));
                    return sent;
                }
            }
        } else if now < self.until {
            return sent;
        }
        loop {
            match self.session.poll(now) {
                Ok(SessionStep::Continue) => {}
                Ok(SessionStep::Send(frame)) => sent.push(frame),
                Ok(SessionStep::Wait { send, until }) => {
                    assert!(now < until);
                    sent.extend(send);
                    self.until = until;
                    return sent;
                }
                Ok(SessionStep::Finished(result)) => {
                    self.result = Some(Ok(result));
                    return sent;
                }
                Err(error) => {
                    self.result = Some(Err(error));
                    return sent;
                }
            }
        }
    }
}

/// Runs two sides in steps of a millisecond; `pass` says whether a frame arrives.
fn run(a: &mut Side, b: &mut Side, mut pass: impl FnMut(&mut ProtocolFrame) -> bool) {
    let mut now = 0;
    while (a.result.is_none() || b.result.is_none()) && now < 600_000 * MILLI {
        for mut frame in a.turn(now) {
            if pass(&mut frame) {
                b.incoming.push_back(frame);
            }
        }
        for mut frame in b.turn(now) {
            if pass(&mut frame) {
                a.incoming.push_back(frame);
            }
        }
        now += MILLI;
    }
}

fn done(side: &mut Side) -> PeerRunResult {
    side.result.take().unwrap().unwrap()
}

#[test]
fn two_peers_measure_both_directions() {
    let settings = settings("PAYLOAD_SIZE=8,COUNT=3,INTERVAL_MS=10");
    let mut a = side("/dev/ttyUSB0", 0x22, &settings);
    let mut b = side("/dev/ttyUSB1", 0x11, &settings);
    let mut probes = 0;
    run(&mut a, &mut b, |frame| {
        probes += (frame.kind == FrameKind::Probe) as u32;
        true
    });
    assert_eq!(probes, 6);
    let (a, b) = (done(&mut a), done(&mut b));
    assert!(a.is_clean() && b.is_clean());
    assert_eq!(a.session_id, b.session_id);
    assert_eq!(a.first_initiator_nonce, 0x11);
    assert!(!a.first_initiator_is_local() && b.first_initiator_is_local());
    assert_eq!(a.outbound.success_count, 3);
    assert_eq!(a.outbound.initiator_nonce, 0x22);
    assert_eq!(a.inbound.initiator_nonce, 0x11);
    assert_eq!(a.inbound.average_rtt, b.outbound.average_rtt);
    assert_eq!((a.payload_size, a.probe_count, a.interval_ms), (8, 3, 10));
    let pair = aggregate_local_pair(a, b).unwrap();
    assert!(pair.summaries_match);
}

#[test]
fn lost_and_altered_probes_are_counted() {
    let settings = settings("PAYLOAD_SIZE=8,COUNT=4,INTERVAL_MS=1,PROBE_TIMEOUT_MS=20");
    let mut a = side("/dev/ttyUSB0", 0x11, &settings);
    let mut b = side("/dev/ttyUSB1", 0x22, &settings);
    run(&mut a, &mut b, |frame| {
        let echo = frame.kind == FrameKind::ProbeEcho;
        if echo && frame.seq == 2 {
            frame.payload[0] ^= 0xFF;
        }
        !(echo && frame.seq == 3)
    });
    let (a, b) = (done(&mut a), done(&mut b));
    for outcome in [&a.outbound, &a.inbound, &b.outbound, &b.inbound] {
        assert_eq!(outcome.probe_count, 4);
        assert_eq!(outcome.success_count, 2);
        assert_eq!(outcome.mismatch_count, 1);
        assert_eq!(outcome.timeout_count, 1);
    }
    assert!(!a.is_clean());
}

#[test]
fn control_frames_are_sent_again() {
    let settings = settings("PAYLOAD_SIZE=4,COUNT=1,INTERVAL_MS=1");
    let mut a = side("/dev/ttyUSB0", 0x11, &settings);
    let mut b = side("/dev/ttyUSB1", 0x22, &settings);
    let mut starts = 0;
    let mut results = 0;
    run(&mut a, &mut b, |frame| {
        if frame.kind == FrameKind::MeasureStart && frame.round_id == 1 {
            starts += 1;
            return starts > 2;
        }
        if frame.kind == FrameKind::Result && frame.round_id == 1 {
            results += 1;
            return results > 1;
        }
        true
    });
    assert!(done(&mut a).is_clean() && done(&mut b).is_clean());
    assert_eq!((starts, results), (3, 2));
}

#[test]
fn a_silent_peer_ends_the_session() {
    let settings = settings("CONNECT_TIMEOUT_MS=300");
    let mut a = side("/dev/ttyUSB0", 0x11, &settings);
    let mut b = side("/dev/ttyUSB1", 0x22, &settings);
    let mut hellos = 0;
    run(&mut a, &mut b, |_| {
        hellos += 1;
        false
    });
    assert_eq!(hellos, 4);
    assert_eq!(
        a.result.unwrap().unwrap_err(),
        "xbee-rtt connectivity check timed out on /dev/ttyUSB0 before the peer handshake completed"
    );
}

#[test]
fn an_unconfirmed_round_ends_the_session() {
    for (lost, initiator, responder) in [
        (
            FrameKind::MeasureAck,
            "xbee-rtt failed to synchronize round-1 on /dev/ttyUSB0 within 300 ms",
            "xbee-rtt timed out on /dev/ttyUSB1 while waiting for the peer to finish round-1",
        ),
        (
            FrameKind::Result,
            "xbee-rtt failed to exchange round-1 result on /dev/ttyUSB0 within 300 ms",
            "xbee-rtt timed out on /dev/ttyUSB1 while waiting for the peer to finish round-1",
        ),
    ] {
        let settings = settings("COUNT=1,CONNECT_TIMEOUT_MS=300,PROBE_TIMEOUT_MS=10");
        let mut a = side("/dev/ttyUSB0", 0x11, &settings);
        let mut b = side("/dev/ttyUSB1", 0x22, &settings);
        run(&mut a, &mut b, |frame| frame.kind != lost);
        assert_eq!(a.result.unwrap().unwrap_err(), initiator);
        assert_eq!(b.result.unwrap().unwrap_err(), responder);
    }
}

#[test]
fn a_run_is_reported_line_by_line() {
    let settings = settings("PAYLOAD_SIZE=8,COUNT=1,INTERVAL_MS=10");
    let mut a = side("/dev/ttyUSB0", 0x22, &settings);
    let mut b = side("/dev/ttyUSB1", 0x11, &settings);
    run(&mut a, &mut b, |_| true);
    let (a, b) = (done(&mut a), done(&mut b));
    let session = a.session_id;
    let (times, other_times) = (("1 ms", "2 ms", "3 ms"), ("4 ms", "5 ms", "6 ms"));
    let probe = "probe payload=8B count=1 interval=10ms probe-timeout=1000ms \
                 connect-timeout=3000ms frame-overhead=15B round-trip-wire=46B";
    assert_eq!(
        single_result_lines(&a, times, other_times),
        vec![
            format!("status=ok protocol=xbee-rtt/2 mode=single-port session=0x{session:08x}"),
            String::from("local=/dev/ttyUSB0@115200 nonce=0x0000000000000022"),
            String::from("peer nonce=0x0000000000000011 first-initiator=peer"),
            String::from(probe),
            String::from("local->peer avg=1 ms min=2 ms max=3 ms success=1/1 timeout=0 mismatch=0"),
            String::from("peer->local avg=4 ms min=5 ms max=6 ms success=1/1 timeout=0 mismatch=0"),
        ]
    );
    let mut pair = aggregate_local_pair(a, b).unwrap();
    pair.summaries_match = false;
    assert_eq!(
        local_pair_result_lines(&pair, times, other_times),
        vec![
            format!("status=degraded protocol=xbee-rtt/2 mode=local-pair session=0x{session:08x}"),
            String::from("port[0]=/dev/ttyUSB0@115200 nonce=0x0000000000000022"),
            String::from("port[1]=/dev/ttyUSB1@115200 nonce=0x0000000000000011"),
            String::from("first-initiator=port[1] cross-check=mismatch"),
            String::from(probe),
            String::from(
                "/dev/ttyUSB0->/dev/ttyUSB1 avg=1 ms min=2 ms max=3 ms success=1/1 timeout=0 mismatch=0"
            ),
            String::from(
                "/dev/ttyUSB1->/dev/ttyUSB0 avg=4 ms min=5 ms max=6 ms success=1/1 timeout=0 mismatch=0"
            ),
        ]
    );
}

use acs::rtt::{
    build_probe_payload, build_settings, first_initiator_nonce, nonce_from, parse_xbee_rtt_args,
    ResolvedXbeeRttPort, ROUND_ID_FIRST,
};
use acs::rtt_report::{format_duration, round_label};
use acs::rtt_session::{ConnectStep, Handshake, LocalPeer, ResponderStep};
use acs::rtt_wire::{
    FrameDecoder, FrameKind, HelloWire, MeasurementSpecWire, MeasurementSummaryWire, ProtocolFrame,
};

const SPEC: MeasurementSpecWire = MeasurementSpecWire {
    payload_size: 4,
    probe_count: 2,
    interval_ms: 10,
    probe_timeout_ms: 100,
};

fn peer(port: &str, nonce: u64) -> LocalPeer {
    LocalPeer::new(
        ResolvedXbeeRttPort { port: String::from(port), baud_rate: 115_200 },
        nonce,
        SPEC,
    )
}

fn words(list: &[&str]) -> Vec<String> {
    list.iter().map(|word| String::from(*word)).collect()
}

fn connected() -> (LocalPeer, LocalPeer) {
    let mut a = peer("/dev/ttyUSB0", 0x11);
    let mut b = peer("/dev/ttyUSB1", 0x22);
    let answer = match b.handle_hello_or_ack(&a.send_hello()) {
        Ok(Handshake::Answer(frame)) => frame,
        other => panic!("no answer: {other:?}"),
    };
    assert!(matches!(a.handle_hello_or_ack(&answer), Ok(Handshake::Noted)));
    let answer = match a.handle_hello_or_ack(&b.send_hello()) {
        Ok(Handshake::Answer(frame)) => frame,
        other => panic!("no answer: {other:?}"),
    };
    assert!(matches!(b.handle_hello_or_ack(&answer), Ok(Handshake::Noted)));
    (a, b)
}

#[test]
fn greetings_make_one_session() {
    let (a, b) = connected();
    assert!(a.is_connected() && b.is_connected());
    assert_eq!(a.session_id(), b.session_id());
    assert_eq!(a.peer_nonce(), Ok(0x22));
    assert_eq!(b.peer_nonce(), Ok(0x11));
    assert_eq!(first_initiator_nonce(0x11, 0x22), first_initiator_nonce(0x22, 0x11));
    assert!(first_initiator_nonce(0x11, 0x11).is_err());
}

#[test]
fn a_peer_waits_until_its_deadline() {
    let a = peer("/dev/ttyUSB0", 0x11);
    assert!(a.session_id().is_err() && a.peer_nonce().is_err());
    match a.run_connectivity_check(0, 1_000, 0) {
        Ok(ConnectStep::Wait { hello: Some(frame), .. }) => {
            assert_eq!(frame.kind, FrameKind::Hello);
            assert_eq!(HelloWire::decode(&frame.payload).unwrap().nonce, 0x11);
        }
        other => panic!("unexpected step: {other:?}"),
    }
    assert!(a.run_connectivity_check(1_000, 1_000, 1_200).is_err());
}

#[test]
fn a_probe_comes_back() {
    let (a, b) = connected();
    let session = a.session_id().unwrap();
    let start = a.send_measure_start(ROUND_ID_FIRST, SPEC).unwrap();
    match b.run_responder_round(&start, ROUND_ID_FIRST, SPEC, 4, false) {
        Ok(ResponderStep::Start(ack)) => assert!(a.wait_for_measure_ack(&ack, ROUND_ID_FIRST)),
        other => panic!("unexpected step: {other:?}"),
    }
    let payload = build_probe_payload(session, ROUND_ID_FIRST, 0, 4);
    let probe = a.send_probe(ROUND_ID_FIRST, 0, payload.clone()).unwrap();
    match b.run_responder_round(&probe, ROUND_ID_FIRST, SPEC, 4, true) {
        Ok(ResponderStep::Echo(echo)) => {
            assert_eq!(a.wait_for_probe_echo(&echo, ROUND_ID_FIRST, 0, &payload), Some(true));
            assert_eq!(a.wait_for_probe_echo(&echo, ROUND_ID_FIRST, 1, &payload), None);
            let other = vec![0u8; 4];
            assert_eq!(a.wait_for_probe_echo(&echo, ROUND_ID_FIRST, 0, &other), Some(false));
        }
        other => panic!("unexpected step: {other:?}"),
    }
    let summary = MeasurementSummaryWire {
        probe_count: 2,
        success_count: 2,
        timeout_count: 0,
        mismatch_count: 0,
        payload_size: 4,
        mean_rtt_us: 10,
        min_rtt_us: 9,
        max_rtt_us: 11,
    };
    let result = a.send_result(ROUND_ID_FIRST, summary).unwrap();
    match b.run_responder_round(&result, ROUND_ID_FIRST, SPEC, 4, true) {
        Ok(ResponderStep::Finish(ack, seen)) => {
            assert!(a.wait_for_result_ack(&ack, ROUND_ID_FIRST));
            assert_eq!(seen, summary);
        }
        other => panic!("unexpected step: {other:?}"),
    }
}

#[test]
fn frames_are_found_however_the_bytes_come() {
    let frame = ProtocolFrame {
        kind: FrameKind::Probe,
        session_id: 7,
        round_id: 1,
        seq: 3,
        payload: vec![0x58, 0x52, 2, 0],
    };
    let mut stream = vec![0x58, 0x00, 0x58];
    stream.extend_from_slice(&frame.encode());
    stream.extend_from_slice(&frame.encode());
    let mut decoder = FrameDecoder::default();
    let mut found = Vec::new();
    for byte in &stream {
        found.extend(decoder.push(&[*byte]));
    }
    assert_eq!(found, FrameDecoder::default().push(&stream));
    assert_eq!(found.len(), 2);
    let mut broken = frame.encode();
    broken[14] ^= 1;
    assert!(FrameDecoder::default().push(&broken).is_empty());
}

#[test]
fn settings_out_of_range_are_refused() {
    let error = |args: &[&str], ports: &[&str]| {
        let found = ports.iter().map(|port| Ok(String::from(*port))).collect();
        build_settings(parse_xbee_rtt_args(words(args)).unwrap(), found).unwrap_err()
    };
    let one = ["/dev/ttyUSB0"];
    assert_eq!(error(&["--payload-size", "4097"], &one), "--payload-size must be <= 4096");
    assert_eq!(error(&["--count", "0"], &one), "--count must be greater than 0");
    assert_eq!(error(&["--count", "65536"], &one), "--count must be <= 65535");
    assert_eq!(
        error(&["--connect-timeout-ms", "0"], &one),
        "--connect-timeout-ms must be greater than 0"
    );
    assert_eq!(
        error(&["--probe-timeout-ms", "0"], &one),
        "--probe-timeout-ms must be greater than 0"
    );
    assert_eq!(
        error(&["-p", "0", "-p", "/dev/ttyUSB0"], &["/dev/ttyUSB0", "/dev/ttyUSB0"]),
        "xbee-rtt local-pair mode requires two different ports"
    );
    assert_eq!(
        error(&["-p", "a", "-p", "b", "-p", "c"], &["a", "b", "c"]),
        "xbee-rtt accepts at most two `--port PORT[@BAUD]` options"
    );
}

#[test]
fn nonces_are_never_zero_and_labels_are_fixed() {
    assert_ne!(nonce_from(0, 0), 0);
    assert_ne!(nonce_from(1, 1), nonce_from(2, 1));
    assert_eq!(format_duration(Some(12_345)), "12.345 ms");
    assert_ne!(round_label(1), round_label(2));
}

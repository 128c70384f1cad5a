use acs::rtt::{
    build_probe_payload, derive_session_id, parse_xbee_rtt_args, parse_xbee_rtt_port_binding,
    XbeeRttPortBinding, DEFAULT_CONNECT_TIMEOUT_MS, DEFAULT_INTERVAL_MS, DEFAULT_PAYLOAD_SIZE,
    DEFAULT_PROBE_COUNT, DEFAULT_PROBE_TIMEOUT_MS,
};
use acs::rtt_report::{
    format_protocol_frame, format_trace_chunk, format_wire_bytes, TraceKind, WireDirection,
};
use acs::rtt_wire::{
    FrameDecoder, FrameKind, HelloAckWire, HelloWire, MeasurementSpecWire,
    MeasurementSummaryWire, ProtocolFrame,
};

#[test]
fn parse_xbee_rtt_args_accepts_one_or_two_ports_and_options() {
    let options = parse_xbee_rtt_args(vec![
        String::from("--port"),
        String::from("/dev/ttyUSB0@921600"),
        String::from("--port"),
        String::from("/dev/ttyUSB1"),
        String::from("--payload-size"),
        String::from("48"),
        String::from("--count"),
        String::from("12"),
        String::from("--interval-ms"),
        String::from("25"),
        String::from("--connect-timeout-ms"),
        String::from("5000"),
        String::from("--probe-timeout-ms"),
        String::from("750"),
    ])
    .expect("should parse");

    assert_eq!(options.ports.len(), 2);
    assert_eq!(
        options.ports[0],
        XbeeRttPortBinding {
            port: String::from("/dev/ttyUSB0"),
            baud: Some(921_600),
        }
    );
    assert_eq!(
        options.ports[1],
        XbeeRttPortBinding {
            port: String::from("/dev/ttyUSB1"),
            baud: None,
        }
    );
    assert_eq!(options.payload_size, Some(48));
    assert_eq!(options.probe_count, Some(12));
    assert_eq!(options.interval_ms, Some(25));
    assert_eq!(options.connect_timeout_ms, Some(5_000));
    assert_eq!(options.probe_timeout_ms, Some(750));
    assert!(!options.show_wire);
    assert!(!options.show_protocol);
}

#[test]
fn parse_xbee_rtt_args_accepts_show_wire() {
    let options = parse_xbee_rtt_args(vec![String::from("--show-wire")]).expect("should parse");
    assert!(options.show_wire);
    assert!(!options.show_protocol);
}

#[test]
fn parse_xbee_rtt_args_accepts_show_protocol() {
    let options =
        parse_xbee_rtt_args(vec![String::from("--show-protocol")]).expect("should parse");
    assert!(options.show_protocol);
    assert!(!options.show_wire);
}

#[test]
fn parse_xbee_rtt_args_accepts_config_aliases() {
    let options = parse_xbee_rtt_args(vec![
        String::from("--port"),
        String::from("/dev/ttyUSB0@921600"),
        String::from("--config"),
        String::from(
            "PAYLOAD_SIZE=64,COUNT=20,INTERVAL_MS=50,CONNECT_TIMEOUT_MS=5000,PROBE_TIMEOUT_MS=750",
        ),
    ])
    .expect("should parse");

    assert_eq!(options.ports.len(), 1);
    assert_eq!(options.ports[0].port, "/dev/ttyUSB0");
    assert_eq!(options.ports[0].baud, Some(921_600));
    assert_eq!(options.payload_size, Some(64));
    assert_eq!(options.probe_count, Some(20));
    assert_eq!(options.interval_ms, Some(50));
    assert_eq!(options.connect_timeout_ms, Some(5_000));
    assert_eq!(options.probe_timeout_ms, Some(750));
}

#[test]
fn parse_xbee_rtt_port_binding_rejects_display_override() {
    let error = parse_xbee_rtt_port_binding("/dev/ttyUSB0,hex").expect_err("should reject");
    assert_eq!(
        error,
        "xbee-rtt uses a fixed binary protocol; omit `,DISPLAY` from --port"
    );
}

#[test]
fn protocol_frame_round_trip_survives_noise() {
    let frame = ProtocolFrame {
        kind: FrameKind::Probe,
        session_id: 0x1122_3344,
        round_id: 1,
        seq: 7,
        payload: vec![1, 2, 3, 4, 5],
    };
    let mut stream = vec![0x00, 0xFF, 0x10];
    stream.extend_from_slice(&frame.encode());
    stream.extend_from_slice(&[0x99, 0x88]);

    let mut decoder = FrameDecoder::default();
    let decoded = decoder.push(&stream);

    assert_eq!(decoded, vec![frame]);
}

#[test]
fn wire_structs_round_trip() {
    let spec = MeasurementSpecWire {
        payload_size: 32,
        probe_count: 10,
        interval_ms: 100,
        probe_timeout_ms: 1_000,
    };
    assert_eq!(MeasurementSpecWire::decode(&spec.encode()).unwrap(), spec);

    let hello = HelloWire {
        nonce: 0x1122_3344_5566_7788,
        spec,
    };
    assert_eq!(HelloWire::decode(&hello.encode()).unwrap(), hello);

    let ack = HelloAckWire {
        ack_nonce: 0x8877_6655_4433_2211,
    };
    assert_eq!(HelloAckWire::decode(&ack.encode()).unwrap(), ack);

    let summary = MeasurementSummaryWire {
        probe_count: 10,
        success_count: 9,
        timeout_count: 1,
        mismatch_count: 0,
        payload_size: 32,
        mean_rtt_us: 12_345,
        min_rtt_us: 11_000,
        max_rtt_us: 14_000,
    };
    assert_eq!(
        MeasurementSummaryWire::decode(&summary.encode()).unwrap(),
        summary
    );
}

#[test]
fn build_probe_payload_is_deterministic() {
    assert_eq!(
        build_probe_payload(0x1234_5678, 1, 2, 8),
        build_probe_payload(0x1234_5678, 1, 2, 8)
    );
    assert_ne!(
        build_probe_payload(0x1234_5678, 1, 2, 8),
        build_probe_payload(0x1234_5678, 2, 2, 8)
    );
}

#[test]
fn derive_session_id_is_symmetric() {
    assert_eq!(
        derive_session_id(0x1111, 0x2222),
        derive_session_id(0x2222, 0x1111)
    );
}

#[test]
fn defaults_are_expected() {
    assert_eq!(DEFAULT_PAYLOAD_SIZE, 32);
    assert_eq!(DEFAULT_PROBE_COUNT, 10);
    assert_eq!(DEFAULT_INTERVAL_MS, 100);
    assert_eq!(DEFAULT_CONNECT_TIMEOUT_MS, 3_000);
    assert_eq!(DEFAULT_PROBE_TIMEOUT_MS, 1_000);
}

#[test]
fn format_wire_bytes_is_fixed_hex() {
    assert_eq!(format_wire_bytes(b"OK\r\n"), "4F 4B 0D 0A");
}

#[test]
fn format_wire_bytes_falls_back_to_hex_for_binary() {
    assert_eq!(format_wire_bytes(&[0x58, 0x52, 0x02, 0x00]), "58 52 02 00");
}

#[test]
fn format_trace_chunk_includes_kind_and_local_pair_label() {
    let chunk = format_trace_chunk(TraceKind::Wire, Some("1"), WireDirection::Rx, "01 02");
    assert!(chunk.contains("wire[1<] 01 02"));
    assert!(chunk.starts_with("\u{1b}[31m"));
    assert!(chunk.ends_with("\u{1b}[0m "));
}

#[test]
fn format_protocol_frame_describes_result_summary() {
    let frame = ProtocolFrame {
        kind: FrameKind::Result,
        session_id: 0x1122_3344,
        round_id: 2,
        seq: 0,
        payload: MeasurementSummaryWire {
            probe_count: 10,
            success_count: 9,
            timeout_count: 1,
            mismatch_count: 0,
            payload_size: 32,
            mean_rtt_us: 12_345,
            min_rtt_us: 11_000,
            max_rtt_us: 14_000,
        }
        .encode(),
    };

    assert_eq!(
        format_protocol_frame(&frame),
        "RESULT(session=0x11223344, round=round-2, payload=32B, success=9/10, timeout=1, mismatch=0, avg=12.345 ms, min=11.000 ms, max=14.000 ms)"
    );
}

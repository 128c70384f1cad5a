use acs::command_line::{
    format_io_input_binding, parse_output_format_list, resolve_display_mode,
};
use acs::display::{LineBreakMode, PortDisplayMode};
use acs::format::OutputFormat;
use acs::io_command::{
    build_io_executed_command, format_io_output_binding, IoCommandInput, IoCommandOutput,
};
use acs::observe::ObservedInput;
use acs::outputs::{estimated_output_line_bps, realign_output_schedule, OutputSchedule};
use acs::packet::{matches_rover_down_packet, MixedFormatDecoder};
use acs::send::{
    parse_io_args, parse_send_args, parse_send_monitor_binding, parse_send_output_binding,
};
use acs::send_settings::{
    resolve_monitor_line_break_mode, validate_output_port_loads, SendOutputSettings,
};
use acs::session::SessionOutputSpec;

#[test]
fn parse_send_args_accepts_port_baud_and_format() {
    let options = parse_send_args(vec![
        String::from("--port"),
        String::from("/dev/ttyUSB0"),
        String::from("--baud"),
        String::from("921600"),
        String::from("--rate"),
        String::from("100"),
        String::from("--format"),
        String::from("PacketACv6"),
        String::from("--monitor"),
        String::from("/dev/ttyUSB1"),
    ])
    .expect("should parse");

    assert_eq!(
        options.port.as_ref().map(|port| port.port.as_str()),
        Some("/dev/ttyUSB0")
    );
    assert_eq!(options.baud, Some(921_600));
    assert_eq!(options.rate_hz, Some(100));
    assert_eq!(options.format.as_deref(), Some("PacketACv6"));
    assert_eq!(options.monitor_ports.len(), 1);
    assert_eq!(options.monitor_ports[0].port, "/dev/ttyUSB1");
    assert_eq!(options.monitor_ports[0].baud, None);
    assert!(options.monitor_ports[0].formats.is_empty());
}

#[test]
fn parse_send_monitor_binding_accepts_format_and_packet_mode() {
    let binding =
        parse_send_monitor_binding("/dev/ttyUSB1@115200,utf8+line,packetjfv1").unwrap();

    assert_eq!(binding.port, "/dev/ttyUSB1");
    assert_eq!(binding.baud, Some(115_200));
    assert_eq!(binding.formats, vec![String::from("packetjfv1")]);
    assert_eq!(binding.display_mode, Some(PortDisplayMode::Utf8));
    assert_eq!(binding.line_break_mode, Some(LineBreakMode::Line));
}

#[test]
fn parse_send_monitor_binding_accepts_multiple_formats() {
    let binding =
        parse_send_monitor_binding("/dev/ttyUSB1,packetacv6+packetmv1+packetjfv1").unwrap();

    assert_eq!(binding.port, "/dev/ttyUSB1");
    assert_eq!(
        binding.formats,
        vec![
            String::from("packetacv6"),
            String::from("packetmv1"),
            String::from("packetjfv1"),
        ]
    );
}

#[test]
fn monitor_without_format_defaults_to_wrap_mode() {
    assert_eq!(
        resolve_monitor_line_break_mode(None, false, LineBreakMode::Line),
        LineBreakMode::Wrap
    );
}

#[test]
fn monitor_with_format_uses_configured_line_break_mode() {
    assert_eq!(
        resolve_monitor_line_break_mode(None, true, LineBreakMode::Packet),
        LineBreakMode::Packet
    );
    assert_eq!(
        resolve_monitor_line_break_mode(
            Some(LineBreakMode::Line),
            false,
            LineBreakMode::Packet
        ),
        LineBreakMode::Line
    );
}

#[test]
fn parse_send_output_binding_accepts_id_format_and_packet_mode() {
    let binding =
        parse_send_output_binding("main=/dev/ttyUSB0@921600,hex+packet,packetacv6,100")
            .unwrap();

    assert_eq!(binding.id, "main");
    assert_eq!(binding.port, "/dev/ttyUSB0");
    assert_eq!(binding.baud, Some(921_600));
    assert_eq!(binding.rate_hz, Some(100));
    assert_eq!(binding.format.as_deref(), Some("packetacv6"));
    assert_eq!(binding.display_mode, Some(PortDisplayMode::Hex));
    assert_eq!(binding.line_break_mode, Some(LineBreakMode::Packet));
}

#[test]
fn parse_send_args_accepts_display_and_log_dir() {
    let options = parse_send_args(vec![
        String::from("--display"),
        String::from("output:default=hex"),
        String::from("--log-dir"),
        String::from("tmp/send-logs"),
        String::from("--no-log"),
    ])
    .expect("should parse");

    assert_eq!(
        options.display.resolve_output("/dev/ttyUSB0"),
        PortDisplayMode::Hex
    );
    assert_eq!(
        options.log_dir,
        Some(String::from("tmp/send-logs"))
    );
    assert!(options.no_log);
}

#[test]
fn parse_send_args_accepts_config_aliases() {
    let options = parse_send_args(vec![
        String::from("--port"),
        String::from("/dev/ttyUSB0@921600"),
        String::from("--config"),
        String::from(
            "FORMAT=PacketACv6,RATE=100,DISPLAY=output:default=hex,LOG_DIR=tmp/send-logs",
        ),
        String::from("--interactive"),
    ])
    .expect("should parse");

    assert_eq!(
        options.port.as_ref().map(|port| port.port.as_str()),
        Some("/dev/ttyUSB0")
    );
    assert_eq!(
        options.port.as_ref().and_then(|port| port.baud),
        Some(921_600)
    );
    assert_eq!(options.rate_hz, Some(100));
    assert_eq!(options.format.as_deref(), Some("PacketACv6"));
    assert_eq!(
        options.log_dir,
        Some(String::from("tmp/send-logs"))
    );
    assert!(options.interactive);
}

#[test]
fn send_parse_io_args_accepts_input_output_values_and_defaults_rate() {
    let options = parse_io_args(vec![
        String::from("-i"),
        String::from("/dev/ttyUSB1@115200,utf8,packetjfv1"),
        String::from("-o"),
        String::from("main=/dev/ttyUSB0@921600,hex,packetacv6,100"),
        String::from("--no-log"),
    ])
    .expect("should parse");

    assert_eq!(options.inputs.len(), 1);
    assert_eq!(options.outputs.len(), 1);
    assert_eq!(options.send_options.rate_hz, Some(10));
    assert!(options.send_options.allow_receive_only);
    assert!(options.send_options.no_log);
}

#[test]
fn send_parse_io_args_accepts_bare_input_output_for_prompting() {
    let options =
        parse_io_args(vec![String::from("-i"), String::from("-o")]).expect("should parse");

    assert_eq!(options.inputs.len(), 1);
    assert_eq!(options.outputs.len(), 1);
}

#[test]
fn io_binding_format_matches_send_parsers() {
    let input = format_io_input_binding(
        "/dev/ttyUSB1",
        115_200,
        Some("utf8+packet"),
        Some("packetacv6+packetjfv1"),
    );
    let output =
        format_io_output_binding("/dev/ttyUSB0", 921_600, Some("hex"), "packetacv6", "10");

    let input = parse_send_monitor_binding(&input).expect("input binding should parse");
    let output = parse_send_output_binding(&output).expect("output binding should parse");

    assert_eq!(input.port, "/dev/ttyUSB1");
    assert_eq!(input.baud, Some(115_200));
    assert_eq!(
        input.formats,
        vec![String::from("packetacv6"), String::from("packetjfv1")]
    );
    assert_eq!(input.display_mode, Some(PortDisplayMode::Utf8));
    assert_eq!(input.line_break_mode, Some(LineBreakMode::Packet));
    assert_eq!(output.port, "/dev/ttyUSB0");
    assert_eq!(output.baud, Some(921_600));
    assert_eq!(output.format.as_deref(), Some("packetacv6"));
    assert_eq!(output.rate_hz, Some(10));
}

#[test]
fn send_io_executed_command_includes_resolved_ports_defaults_and_flags() {
    let command = build_io_executed_command(
        &vec![IoCommandInput {
            port: String::from("/dev/ttyUSB1"),
            baud_rate: 115_200,
            display_mode: PortDisplayMode::Utf8,
            line_break_mode: LineBreakMode::Packet,
            formats: vec![OutputFormat::PacketAcV6, OutputFormat::PacketJfV1],
        }],
        &vec![IoCommandOutput {
            id: String::from("ac"),
            port: String::from("/dev/ttyUSB0"),
            baud_rate: 921_600,
            display_mode: PortDisplayMode::Hex,
            format: OutputFormat::PacketAcV6,
            rate: String::from("10"),
        }],
        Some("tmp/io logs"),
        true,
        true,
    );

    assert_eq!(
        command,
        "acs io -i /dev/ttyUSB1@115200,utf8+packet,packetacv6+packetjfv1 -o ac=/dev/ttyUSB0@921600,hex,packetacv6,10 --log-dir 'tmp/io logs' --no-log --s3b"
    );
}

#[test]
fn send_mixed_decoder_recovers_packet_boundaries_across_chunks() {
    let ac = OutputFormat::PacketAcV6
        .encode_dummy_payload()
        .expect("packetacv6 dummy payload");
    let m = OutputFormat::PacketMv1
        .encode_dummy_payload()
        .expect("packetmv1 dummy payload");
    let up = OutputFormat::RoverUpGeneral
        .encode_dummy_payload()
        .expect("roverupgeneral dummy payload");
    let mut decoder = MixedFormatDecoder::with_rule(&vec![
        OutputFormat::PacketAcV6,
        OutputFormat::PacketMv1,
        OutputFormat::RoverUpGeneral,
    ], false);

    assert!(decoder.push(&ac[..7]).is_empty());

    let mut decoded = decoder.push(&[&ac[7..], &m[..4]].concat());
    assert_eq!(decoded.len(), 1);
    assert_eq!(decoded[0].format, OutputFormat::PacketAcV6);
    assert_eq!(decoded[0].bytes, ac);

    decoded = decoder.push(&[&m[4..], &up[..5]].concat());
    assert_eq!(decoded.len(), 1);
    assert_eq!(decoded[0].format, OutputFormat::PacketMv1);
    assert_eq!(decoded[0].bytes, m);

    decoded = decoder.push(&up[5..]);
    assert_eq!(decoded.len(), 1);
    assert_eq!(decoded[0].format, OutputFormat::RoverUpGeneral);
    assert_eq!(decoded[0].bytes, up);
}

#[test]
fn send_observed_input_forces_rover_up_receive_display_to_ascii() {
    let packet = OutputFormat::RoverUpGeneral
        .encode_dummy_payload()
        .expect("roverupgeneral dummy payload");
    let mut observed = ObservedInput::with_rule(
        String::from("monitor-up"),
        String::from("/dev/ttyUSB1"),
        vec![OutputFormat::RoverUpGeneral],
        false,
        None,
        false,
    );

    let batch = observed.observe(&packet, &Vec::new(), 1_000_000_000u64);

    assert_eq!(batch.valid_packet_count, 1);
    assert_eq!(batch.valid_byte_len, packet.len());
    assert_eq!(observed.display_queue().pending(), 1);
    let queued = observed.display_queue().front()
        .expect("queued roverup packet");
    assert_eq!(queued.display_mode, Some(PortDisplayMode::Ascii));
    assert!(!queued.preserve_line_breaks);
    assert_eq!(queued.bytes, packet);
}

#[test]
fn send_estimated_output_line_bps_uses_packet_length_and_rate() {
    assert_eq!(
        estimated_output_line_bps(OutputFormat::PacketAcV6, 100),
        39_000
    );
    assert_eq!(
        estimated_output_line_bps(OutputFormat::RoverUpGeneral, 100),
        12_000
    );
}

#[test]
fn send_validate_output_port_loads_rejects_oversubscribed_shared_port() {
    let outputs = vec![
        SendOutputSettings {
            session: SessionOutputSpec {
                id: String::from("arm"),
                port: String::from("/dev/ttyUSB0"),
                baud_rate: 115_200,
                format_name: String::from("packetacv6"),
                display_mode: PortDisplayMode::Hex,
            },
            format: OutputFormat::PacketAcV6,
            rate_hz: 1_000,
        },
        SendOutputSettings {
            session: SessionOutputSpec {
                id: String::from("rover"),
                port: String::from("/dev/ttyUSB0"),
                baud_rate: 115_200,
                format_name: String::from("roverupgeneral"),
                display_mode: PortDisplayMode::Ascii,
            },
            format: OutputFormat::RoverUpGeneral,
            rate_hz: 1_000,
        },
    ];

    let error = validate_output_port_loads(&outputs).expect_err("should reject");
    assert!(error.contains("exceeds serial capacity"));
    assert!(error.contains("510000 bps"));
}

#[test]
fn send_realign_output_schedule_discards_backlog_after_long_stall() {
    let started_at = 1_000_000_000u64;
    let mut schedule = OutputSchedule {
        next_send_at: started_at,
        period: 10_000_000,
    };

    realign_output_schedule(
        &mut schedule,
        started_at + 55_000_000,
    );

    assert_eq!(
        schedule.next_send_at - started_at,
        50_000_000
    );
}

#[test]
fn send_rover_down_validator_accepts_documented_dummy_payload() {
    let payload = OutputFormat::RoverDownGeneral
        .encode_dummy_payload()
        .expect("roverdowngeneral dummy payload");

    assert!(matches_rover_down_packet(&payload));
}

#[test]
fn send_rover_down_validator_accepts_0x3xx_and_0x4xx_lines_with_arbitrary_data() {
    assert!(matches_rover_down_packet(b"0x300,OK\r\n"));
    assert!(matches_rover_down_packet(b"0x4A2,TEMP=21.10;MODE=A\r\n"));
    assert!(!matches_rover_down_packet(b"400,21.10\r\n"));
    assert!(!matches_rover_down_packet(b"0x500,21.10\r\n"));
    assert!(!matches_rover_down_packet(b"0x400,\r\n"));
}

#[test]
fn send_mixed_decoder_accepts_variable_length_rover_down_lines() {
    let mut decoder = MixedFormatDecoder::with_rule(&vec![OutputFormat::RoverDownGeneral], false);

    assert!(decoder.push(b"noise0x4A2,TEMP=21.10").is_empty());
    let decoded = decoder.push(b"\r\n0x300,OK\r\n");

    assert_eq!(decoded.len(), 2);
    assert_eq!(decoded[0].format, OutputFormat::RoverDownGeneral);
    assert_eq!(decoded[0].bytes, b"0x4A2,TEMP=21.10\r\n");
    assert_eq!(decoded[1].bytes, b"0x300,OK\r\n");
}

#[test]
fn send_parse_output_format_list_returns_none_for_display_modes() {
    assert_eq!(parse_output_format_list("utf8+line"), None);
    assert_eq!(parse_output_format_list("hex"), None);
}

#[test]
fn send_resolve_display_mode_prefers_explicit_then_configured_then_builtin() {
    assert_eq!(
        resolve_display_mode(
            Some(PortDisplayMode::Utf8),
            Some(PortDisplayMode::Hex),
            Some(OutputFormat::PacketAcV6.default_display_mode()),
        ),
        PortDisplayMode::Utf8
    );
    assert_eq!(
        resolve_display_mode(
            None,
            Some(PortDisplayMode::HexAscii),
            Some(OutputFormat::RoverUpGeneral.default_display_mode()),
        ),
        PortDisplayMode::HexAscii
    );
    assert_eq!(
        resolve_display_mode(
            None,
            None,
            Some(OutputFormat::RoverDownGeneral.default_display_mode()),
        ),
        PortDisplayMode::Ascii
    );
}

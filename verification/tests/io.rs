use acs::bytes::crc16_ccitt_false;
use acs::command_line::{
    format_io_input_binding, parse_output_format_list, resolve_display_mode,
    resolve_input_line_break_mode,
};
use acs::display::{LineBreakMode, PortDisplayMode};
use acs::format::OutputFormat;
use acs::io::{
    parse_io_args, parse_io_input_binding, parse_io_output_binding, rate_number, IoCliOptions,
    IoOutputBinding, IoRuntimeOptions, IoSendRate, NumberReading, NumberReadings, RateUnit,
};
use acs::io_command::{
    build_io_executed_command, format_io_output_binding, IoCommandInput, IoCommandOutput,
};
use acs::io_prompt::{IoPromptBindingPreview, IoPromptCommand, IoPromptPortPosition};
use acs::io_settings::{validate_output_port_loads, IoOutputSettings, RateFigures};
use acs::observe::ObservedInput;
use acs::outputs::{realign_output_schedule, OutputSchedule};
use acs::packet::{matches_reduced_ac_packet, matches_rover_down_packet, MixedFormatDecoder};
use acs::session::SessionOutputSpec;

fn read_number(text: &str) -> NumberReading {
    match text.parse::<f64>() {
        Ok(value) if value.is_finite() && value > 0.0 => NumberReading::Positive,
        Ok(_) => NumberReading::NotPositive,
        Err(_) => NumberReading::NotANumber,
    }
}

fn readings(values: &[&str]) -> NumberReadings {
    let mut all = Vec::new();
    for value in values {
        for piece in value.split(',') {
            let number = rate_number(piece);
            let reading = read_number(&number);
            all.push((number, reading));
        }
    }
    all
}

fn parse_output(value: &str) -> Result<IoOutputBinding, String> {
    parse_io_output_binding(value, &readings(&[value]))
}

fn parse_args(args: Vec<String>) -> Result<IoCliOptions, String> {
    let texts = args.iter().map(|arg| arg.as_str()).collect::<Vec<_>>();
    let known = readings(&texts);
    parse_io_args(args, known)
}

fn hz_of(rate: &Option<IoSendRate>) -> Option<f64> {
    let rate = rate.as_ref()?;
    let number = rate.number.parse::<f64>().ok()?;
    Some(match rate.unit {
        RateUnit::Hz => number,
        RateUnit::Seconds => 1.0 / number,
    })
}

fn close_integer(value: f64) -> Option<u64> {
    let rounded = value.round();
    if (value - rounded).abs() < 0.000_000_001 {
        Some(rounded as u64)
    } else {
        None
    }
}

fn decimal(value: f64) -> String {
    let text = format!("{value:.6}");
    String::from(text.trim_end_matches('0').trim_end_matches('.'))
}

fn rate_value(hz: f64) -> String {
    match (close_integer(hz), close_integer(1.0 / hz)) {
        (Some(whole), _) if whole >= 1 => whole.to_string(),
        (_, Some(seconds)) if seconds >= 1 => format!("{seconds}s"),
        _ => decimal(hz),
    }
}

fn rate_label(hz: f64) -> String {
    match (close_integer(hz), close_integer(1.0 / hz)) {
        (Some(whole), _) if whole >= 1 => format!("{whole} Hz"),
        (_, Some(seconds)) if seconds >= 1 => format!("every {seconds}s ({} Hz)", decimal(hz)),
        _ => format!("{} Hz", decimal(hz)),
    }
}

fn line_bps(format: OutputFormat, hz: f64) -> u64 {
    (format.packet_len() as f64 * 10.0 * hz).ceil() as u64
}

fn figures(format: OutputFormat, hz: f64) -> RateFigures {
    RateFigures {
        value: rate_value(hz),
        label: rate_label(hz),
        line_bps: line_bps(format, hz),
        period: (1_000_000_000.0 / hz) as u64,
    }
}

fn build_uf_v2_packet(seq: u8, flags: u8, chunk_index: u8, payload: &[u8]) -> Vec<u8> {
    assert!(payload.len() <= 32);
    let mut packet = vec![0u8; 40];
    packet[0..2].copy_from_slice(b"UF");
    packet[2] = seq;
    packet[3] = flags;
    packet[4] = chunk_index;
    packet[5] = payload.len() as u8;
    packet[6..6 + payload.len()].copy_from_slice(payload);
    let crc = crc16_ccitt_false(&packet[..38]).to_le_bytes();
    packet[38] = crc[0];
    packet[39] = crc[1];
    packet
}

#[test]
fn parse_io_input_binding_accepts_format_and_packet_mode() {
    let binding = parse_io_input_binding("/dev/ttyUSB1@115200,utf8+line,packetjfv1").unwrap();

    assert_eq!(binding.port, "/dev/ttyUSB1");
    assert_eq!(binding.baud, Some(115_200));
    assert_eq!(binding.formats, vec![String::from("packetjfv1")]);
    assert_eq!(binding.display_mode, Some(PortDisplayMode::Utf8));
    assert_eq!(binding.line_break_mode, Some(LineBreakMode::Line));
}

#[test]
fn parse_io_input_binding_accepts_ascii_crlf_mode() {
    let binding =
        parse_io_input_binding("/dev/ttyUSB1@115200,ascii+crlf,roverdowngeneral").unwrap();

    assert_eq!(binding.port, "/dev/ttyUSB1");
    assert_eq!(binding.baud, Some(115_200));
    assert_eq!(binding.formats, vec![String::from("roverdowngeneral")]);
    assert_eq!(binding.display_mode, Some(PortDisplayMode::Ascii));
    assert_eq!(binding.line_break_mode, Some(LineBreakMode::Crlf));
}

#[test]
fn parse_io_input_binding_accepts_packetufv2_format() {
    let binding = parse_io_input_binding("/dev/ttyUSB1@921600,hex+packet,PacketUFv2").unwrap();

    assert_eq!(binding.port, "/dev/ttyUSB1");
    assert_eq!(binding.baud, Some(921_600));
    assert_eq!(binding.formats, vec![String::from("packetufv2")]);
    assert_eq!(binding.display_mode, Some(PortDisplayMode::Hex));
    assert_eq!(binding.line_break_mode, Some(LineBreakMode::Packet));
}

#[test]
fn parse_io_input_binding_accepts_multiple_formats() {
    let binding =
        parse_io_input_binding("/dev/ttyUSB1,packetacv6+packetmv1+packetjfv1").unwrap();

    assert_eq!(binding.port, "/dev/ttyUSB1");
    assert_eq!(
        binding.formats,
        vec![
            String::from("packetacv6"),
            String::from("packetmv1"),
            String::from("packetjfv1"),
        ]
    );
}

#[test]
fn input_without_format_defaults_to_wrap_mode() {
    assert_eq!(
        resolve_input_line_break_mode(None, false, None),
        LineBreakMode::Wrap
    );
}

#[test]
fn input_with_format_uses_configured_line_break_mode() {
    assert_eq!(
        resolve_input_line_break_mode(None, true, Some(LineBreakMode::Packet)),
        LineBreakMode::Packet
    );
    assert_eq!(
        resolve_input_line_break_mode(
            Some(LineBreakMode::Line),
            false,
            Some(LineBreakMode::Packet)
        ),
        LineBreakMode::Line
    );
}

#[test]
fn configured_input_line_break_mode_applies_without_format() {
    assert_eq!(
        resolve_input_line_break_mode(None, false, Some(LineBreakMode::Crlf)),
        LineBreakMode::Crlf
    );
}

#[test]
fn parse_io_output_binding_accepts_id_format_and_packet_mode() {
    let binding =
        parse_output("main=/dev/ttyUSB0@921600,hex+packet,packetacv6,100").unwrap();

    assert_eq!(binding.id, "main");
    assert_eq!(binding.port, "/dev/ttyUSB0");
    assert_eq!(binding.baud, Some(921_600));
    assert_eq!(hz_of(&binding.rate_hz), Some(100.0));
    assert_eq!(binding.format.as_deref(), Some("packetacv6"));
    assert_eq!(binding.display_mode, Some(PortDisplayMode::Hex));
}

#[test]
fn parse_io_output_binding_accepts_period_rate() {
    let binding =
        parse_output("main=/dev/ttyUSB0@921600,hex,packetacv6,2s").unwrap();

    assert_eq!(binding.id, "main");
    assert_eq!(binding.format.as_deref(), Some("packetacv6"));
    assert_eq!(hz_of(&binding.rate_hz), Some(0.5));
}

#[test]
fn parse_io_output_binding_accepts_fractional_hz_rate() {
    let binding =
        parse_output("main=/dev/ttyUSB0@921600,hex,packetacv6,0.333").unwrap();

    assert_eq!(binding.id, "main");
    assert_eq!(binding.format.as_deref(), Some("packetacv6"));
    assert_eq!(hz_of(&binding.rate_hz), Some(0.333));
}

#[test]
fn parse_io_args_accepts_period_rate_option() {
    let options = parse_args(vec![
        String::from("-o"),
        String::from("main=/dev/ttyUSB0@921600,hex,packetacv6"),
        String::from("--rate"),
        String::from("3s"),
    ])
    .expect("should parse");

    assert_eq!(options.outputs.len(), 1);
    assert_eq!(
        hz_of(&options.runtime_options.rate_hz), Some(1.0 / 3.0)
    );
}

#[test]
fn parse_io_output_binding_rejects_zero_rate() {
    let error = parse_output("main=/dev/ttyUSB0@921600,hex,packetacv6,0")
        .expect_err("should reject");

    assert_eq!(error, "io output rate must be greater than 0");
}

#[test]
fn parse_io_output_binding_accepts_packetacv6usb_format() {
    let binding =
        parse_output("main=/dev/ttyUSB0@921600,hex,PacketACv6USB,10").unwrap();

    assert_eq!(binding.id, "main");
    assert_eq!(binding.format.as_deref(), Some("PacketACv6USB"));
    assert_eq!(hz_of(&binding.rate_hz), Some(10.0));
}

#[test]
fn io_parse_io_args_accepts_input_output_values_and_defaults_rate() {
    let options = parse_args(vec![
        String::from("-i"),
        String::from("/dev/ttyUSB1@115200,utf8,packetjfv1"),
        String::from("-o"),
        String::from("main=/dev/ttyUSB0@921600,hex,packetacv6,100"),
        String::from("--no-log"),
    ])
    .expect("should parse");

    assert_eq!(options.inputs.len(), 1);
    assert_eq!(options.outputs.len(), 1);
    assert_eq!(hz_of(&options.runtime_options.rate_hz), Some(10.0));
    assert!(options.runtime_options.no_log);
}

#[test]
fn io_parse_io_args_accepts_bare_input_output_for_prompting() {
    let options =
        parse_args(vec![String::from("-i"), String::from("-o")]).expect("should parse");

    assert_eq!(options.inputs.len(), 1);
    assert_eq!(options.outputs.len(), 1);
}

#[test]
fn io_binding_format_matches_io_parsers() {
    let input = format_io_input_binding(
        "/dev/ttyUSB1",
        115_200,
        Some("utf8+packet"),
        Some("packetacv6+packetjfv1"),
    );
    let output = format_io_output_binding(
        "/dev/ttyUSB0",
        921_600,
        Some("hex"),
        "packetacv6",
        &rate_value(10.0),
    );

    let input = parse_io_input_binding(&input).expect("input binding should parse");
    let output = parse_output(&output).expect("output binding should parse");

    assert_eq!(input.port, "/dev/ttyUSB1");
    assert_eq!(input.baud, Some(115_200));
    assert_eq!(
        input.formats,
        vec![String::from("packetacv6"), String::from("packetjfv1")]
    );
    assert_eq!(input.display_mode, Some(PortDisplayMode::Utf8));
    assert_eq!(input.line_break_mode, Some(LineBreakMode::Packet));
    assert_eq!(output.port, "/dev/ttyUSB0");
    assert_eq!(output.baud, Some(921_600));
    assert_eq!(output.format.as_deref(), Some("packetacv6"));
    assert_eq!(hz_of(&output.rate_hz), Some(10.0));
}

#[test]
fn io_io_executed_command_includes_resolved_ports_defaults_and_flags() {
    let command = build_io_executed_command(
        &vec![IoCommandInput {
            port: String::from("/dev/ttyUSB1"),
            baud_rate: 115_200,
            display_mode: PortDisplayMode::Utf8,
            line_break_mode: LineBreakMode::Packet,
            formats: vec![OutputFormat::PacketAcV6, OutputFormat::PacketJfV1],
        }],
        &vec![IoCommandOutput {
            id: String::from("ac"),
            port: String::from("/dev/ttyUSB0"),
            baud_rate: 921_600,
            display_mode: PortDisplayMode::Hex,
            format: OutputFormat::PacketAcV6,
            rate: rate_value(10.0),
        }],
        Some("tmp/io logs"),
        true,
        true,
    );

    assert_eq!(
        command,
        "acs io -i /dev/ttyUSB1@115200,utf8+packet,packetacv6+packetjfv1 -o ac=/dev/ttyUSB0@921600,hex,packetacv6,10 --log-dir 'tmp/io logs' --no-log --s3b"
    );
}

#[test]
fn io_prompt_command_renders_current_candidate() {
    let options = IoRuntimeOptions {
        log_dir: Some(String::from("tmp/io logs")),
        no_log: true,
        s3b: true,
        ..IoRuntimeOptions::new(Vec::new())
    };
    let mut command = IoPromptCommand::new(&options);
    command.push_input(String::from("/dev/ttyUSB1@115200,utf8+packet,packetacv6"));

    assert_eq!(
        command.render(Some(IoPromptBindingPreview::Output(
            "/dev/ttyUSB0@921600,hex,packetmv1,50"
        ))),
        "acs io -i /dev/ttyUSB1@115200,utf8+packet,packetacv6 -o /dev/ttyUSB0@921600,hex,packetmv1,50 --log-dir 'tmp/io logs' --no-log --s3b"
    );
}

#[test]
fn io_prompt_port_position_labels_only_multiple_ports() {
    assert_eq!(
        IoPromptPortPosition::input(1, 1).label("受信ポートを選択"),
        "受信ポートを選択"
    );
    assert_eq!(
        IoPromptPortPosition::input(2, 3).label("受信ボーレート"),
        "受信ボーレート (受信ポート 2/3)"
    );
    assert_eq!(
        IoPromptPortPosition::output(1, 2).label("送信ボーレート"),
        "送信ボーレート (送信ポート 1/2)"
    );
}

#[test]
fn io_mixed_decoder_recovers_packet_boundaries_across_chunks() {
    let ac = OutputFormat::PacketAcV6
        .encode_dummy_payload()
        .expect("packetacv6 dummy payload");
    let m = OutputFormat::PacketMv1
        .encode_dummy_payload()
        .expect("packetmv1 dummy payload");
    let up = OutputFormat::RoverUpGeneral
        .encode_dummy_payload()
        .expect("roverupgeneral dummy payload");
    let mut decoder = MixedFormatDecoder::new(vec![
        OutputFormat::PacketAcV6,
        OutputFormat::PacketMv1,
        OutputFormat::RoverUpGeneral,
    ]);

    assert!(decoder.push(&ac[..7]).is_empty());

    let mut decoded = decoder.push(&[&ac[7..], &m[..4]].concat());
    assert_eq!(decoded.len(), 1);
    assert_eq!(decoded[0].format, OutputFormat::PacketAcV6);
    assert_eq!(decoded[0].bytes, ac);

    decoded = decoder.push(&[&m[4..], &up[..5]].concat());
    assert_eq!(decoded.len(), 1);
    assert_eq!(decoded[0].format, OutputFormat::PacketMv1);
    assert_eq!(decoded[0].bytes, m);

    decoded = decoder.push(&up[5..]);
    assert_eq!(decoded.len(), 1);
    assert_eq!(decoded[0].format, OutputFormat::RoverUpGeneral);
    assert_eq!(decoded[0].bytes, up);
}

#[test]
fn mixed_decoder_accepts_packetacv6usb_packets() {
    let packet = OutputFormat::PacketAcV6Usb
        .encode_dummy_payload()
        .expect("packetacv6usb dummy payload");
    let mut decoder = MixedFormatDecoder::new(vec![OutputFormat::PacketAcV6Usb]);

    let decoded = decoder.push(&packet);

    assert_eq!(decoded.len(), 1);
    assert_eq!(decoded[0].format, OutputFormat::PacketAcV6Usb);
    assert_eq!(decoded[0].bytes, packet);
}

#[test]
fn mixed_decoder_accepts_packetufv2_packets() {
    let packet = OutputFormat::PacketUfV2
        .encode_dummy_payload()
        .expect("packetufv2 dummy payload");
    let mut decoder = MixedFormatDecoder::new(vec![OutputFormat::PacketUfV2]);

    assert!(decoder.push(&packet[..5]).is_empty());
    let decoded = decoder.push(&packet[5..]);

    assert_eq!(decoded.len(), 1);
    assert_eq!(decoded[0].format, OutputFormat::PacketUfV2);
    assert_eq!(decoded[0].bytes, packet);
}

#[test]
fn mixed_decoder_excludes_legacy_uf_packets() {
    let packet = OutputFormat::PacketUfV2
        .encode_dummy_payload()
        .expect("packetufv2 dummy payload");
    let mut legacy = [0u8; 14];
    legacy[0..2].copy_from_slice(b"UF");
    legacy[2] = 1;
    legacy[3] = 3;
    legacy[4..8].copy_from_slice(&356_812_362i32.to_le_bytes());
    legacy[8..12].copy_from_slice(&1_397_671_248i32.to_le_bytes());
    let crc = crc16_ccitt_false(&legacy[..12]).to_le_bytes();
    legacy[12] = crc[0];
    legacy[13] = crc[1];
    let mut decoder = MixedFormatDecoder::new(vec![OutputFormat::PacketUfV2]);

    assert!(decoder.push(&legacy).is_empty());
    let decoded = decoder.push(&packet);

    assert_eq!(decoded.len(), 1);
    assert_eq!(decoded[0].format, OutputFormat::PacketUfV2);
    assert_eq!(decoded[0].bytes, packet);
}

#[test]
fn observed_input_displays_packetufv2_complete_text_as_utf8() {
    let packet = OutputFormat::PacketUfV2
        .encode_dummy_payload()
        .expect("packetufv2 dummy payload");
    let mut observed = ObservedInput::new(
        String::from("input-uf"),
        String::from("/dev/ttyUSB1"),
        vec![OutputFormat::PacketUfV2],
        None,
        false,
    );

    let batch = observed.observe(&packet, &Vec::new(), 1_000_000_000u64);

    assert_eq!(batch.valid_packet_count, 1);
    assert_eq!(batch.valid_byte_len, packet.len());
    assert_eq!(observed.display_queue().pending(), 1);
    let queued = observed.display_queue().front()
        .expect("queued uf packet");
    assert_eq!(queued.display_mode, Some(PortDisplayMode::Utf8));
    assert!(queued.preserve_line_breaks);
    assert_eq!(
        String::from_utf8_lossy(&queued.bytes),
        "38.12345, -110.98765\n"
    );
}

#[test]
fn observed_input_reassembles_packetufv2_chunks() {
    let first = build_uf_v2_packet(1, 0x03, 0, b"hello ");
    let second = build_uf_v2_packet(2, 0x13, 1, b"world\n");
    let mut observed = ObservedInput::new(
        String::from("input-uf"),
        String::from("/dev/ttyUSB1"),
        vec![OutputFormat::PacketUfV2],
        None,
        false,
    );
    let now = 1_000_000_000u64;

    let first_batch = observed.observe(&first, &Vec::new(), now);
    let second_batch = observed.observe(&second, &Vec::new(), now + 1_000_000);

    assert_eq!(first_batch.valid_packet_count, 1);
    assert_eq!(second_batch.valid_packet_count, 1);
    assert_eq!(observed.display_queue().pending(), 1);
    let queued = observed.display_queue().front()
        .expect("queued uf text");
    assert_eq!(queued.display_mode, Some(PortDisplayMode::Utf8));
    assert_eq!(String::from_utf8_lossy(&queued.bytes), "hello world\n");
}

#[test]
fn observed_input_reports_packetufv2_chunk_gap() {
    let packet = build_uf_v2_packet(1, 0x13, 1, b"world\n");
    let mut observed = ObservedInput::new(
        String::from("input-uf"),
        String::from("/dev/ttyUSB1"),
        vec![OutputFormat::PacketUfV2],
        None,
        false,
    );

    let batch = observed.observe(&packet, &Vec::new(), 1_000_000_000u64);

    assert_eq!(batch.valid_packet_count, 1);
    assert_eq!(observed.display_queue().pending(), 1);
    let queued = observed.display_queue().front()
        .expect("queued uf status");
    assert_eq!(queued.display_mode, Some(PortDisplayMode::Ascii));
    assert_eq!(
        String::from_utf8_lossy(&queued.bytes),
        "UFv2 seq=1 status=incomplete expected_chunk=0 got_chunk=1 discarded=0 bytes"
    );
}

#[test]
fn observed_input_expires_packetufv2_incomplete_text() {
    let packet = build_uf_v2_packet(1, 0x03, 0, b"hello ");
    let mut observed = ObservedInput::new(
        String::from("input-uf"),
        String::from("/dev/ttyUSB1"),
        vec![OutputFormat::PacketUfV2],
        None,
        false,
    );
    let now = 1_000_000_000u64;

    observed.observe(&packet, &Vec::new(), now);
    observed.expire_pending_transfers(now + 6_000_000_000);

    assert_eq!(observed.display_queue().pending(), 1);
    let queued = observed.display_queue().front()
        .expect("queued uf timeout");
    assert_eq!(queued.display_mode, Some(PortDisplayMode::Ascii));
    assert_eq!(
        String::from_utf8_lossy(&queued.bytes),
        "UFv2 status=timeout expected_chunk=1 discarded=6 bytes"
    );
}

#[test]
fn reduced_ac_packet_matcher_checks_crc() {
    let mut packet = OutputFormat::PacketMv1
        .encode_dummy_payload()
        .expect("packetmv1 dummy payload");

    assert!(matches_reduced_ac_packet(
        &packet,
        b'M',
        OutputFormat::PacketMv1.packet_len()
    ));

    packet[2] ^= 0x01;
    assert!(!matches_reduced_ac_packet(
        &packet,
        b'M',
        OutputFormat::PacketMv1.packet_len()
    ));
}

#[test]
fn io_observed_input_forces_rover_up_receive_display_to_ascii() {
    let packet = OutputFormat::RoverUpGeneral
        .encode_dummy_payload()
        .expect("roverupgeneral dummy payload");
    let mut observed = ObservedInput::new(
        String::from("input-up"),
        String::from("/dev/ttyUSB1"),
        vec![OutputFormat::RoverUpGeneral],
        None,
        false,
    );

    let batch = observed.observe(&packet, &Vec::new(), 1_000_000_000u64);

    assert_eq!(batch.valid_packet_count, 1);
    assert_eq!(batch.valid_byte_len, packet.len());
    assert_eq!(observed.display_queue().pending(), 1);
    let queued = observed.display_queue().front()
        .expect("queued roverup packet");
    assert_eq!(queued.display_mode, Some(PortDisplayMode::Ascii));
    assert!(!queued.preserve_line_breaks);
    assert_eq!(queued.bytes, packet);
}

#[test]
fn observed_input_preserves_line_breaks_when_requested() {
    let packet = OutputFormat::RoverUpGeneral
        .encode_dummy_payload()
        .expect("roverupgeneral dummy payload");
    let mut observed = ObservedInput::new(
        String::from("input-up"),
        String::from("/dev/ttyUSB1"),
        vec![OutputFormat::RoverUpGeneral],
        None,
        true,
    );

    let batch = observed.observe(&packet, &Vec::new(), 1_000_000_000u64);

    assert_eq!(batch.valid_packet_count, 1);
    let queued = observed.display_queue().front()
        .expect("queued roverup packet");
    assert!(queued.preserve_line_breaks);
    assert_eq!(queued.display_mode, Some(PortDisplayMode::Ascii));
}

#[test]
fn io_estimated_output_line_bps_uses_packet_length_and_rate() {
    assert_eq!(
        line_bps(OutputFormat::PacketAcV6, 100.0),
        39_000
    );
    assert_eq!(
        line_bps(OutputFormat::PacketAcV6Usb, 100.0),
        39_000
    );
    assert_eq!(
        line_bps(OutputFormat::PacketUfV2, 100.0),
        40_000
    );
    assert_eq!(
        line_bps(OutputFormat::RoverUpGeneral, 100.0),
        12_000
    );
    assert_eq!(
        line_bps(OutputFormat::PacketAcV6, 0.5),
        195
    );
}

#[test]
fn io_validate_output_port_loads_rejects_oversubscribed_shared_port() {
    let outputs = vec![
        IoOutputSettings {
            session: SessionOutputSpec {
                id: String::from("arm"),
                port: String::from("/dev/ttyUSB0"),
                baud_rate: 115_200,
                format_name: String::from("packetacv6"),
                display_mode: PortDisplayMode::Hex,
            },
            format: OutputFormat::PacketAcV6,
            rate_hz: figures(OutputFormat::PacketAcV6, 1_000.0),
        },
        IoOutputSettings {
            session: SessionOutputSpec {
                id: String::from("rover"),
                port: String::from("/dev/ttyUSB0"),
                baud_rate: 115_200,
                format_name: String::from("roverupgeneral"),
                display_mode: PortDisplayMode::Ascii,
            },
            format: OutputFormat::RoverUpGeneral,
            rate_hz: figures(OutputFormat::RoverUpGeneral, 1_000.0),
        },
    ];

    let error = validate_output_port_loads(&outputs).expect_err("should reject");
    assert!(error.contains("exceeds serial capacity"));
    assert!(error.contains("510000 bps"));
}

#[test]
fn io_realign_output_schedule_discards_backlog_after_long_stall() {
    let started_at = 1_000_000_000u64;
    let mut schedule = OutputSchedule {
        next_send_at: started_at,
        period: 10_000_000,
    };

    realign_output_schedule(
        &mut schedule,
        started_at + 55_000_000,
    );

    assert_eq!(
        schedule.next_send_at - started_at,
        50_000_000
    );
}

#[test]
fn io_rover_down_validator_accepts_documented_dummy_payload() {
    let payload = OutputFormat::RoverDownGeneral
        .encode_dummy_payload()
        .expect("roverdowngeneral dummy payload");

    assert!(matches_rover_down_packet(&payload));
}

#[test]
fn io_rover_down_validator_accepts_0x3xx_and_0x4xx_lines_with_arbitrary_data() {
    assert!(matches_rover_down_packet(b"0x300,OK\r\n"));
    assert!(matches_rover_down_packet(b"0x4A2,TEMP=21.10;MODE=A\r\n"));
    assert!(!matches_rover_down_packet(b"400,21.10\r\n"));
    assert!(!matches_rover_down_packet(b"0x500,21.10\r\n"));
    assert!(!matches_rover_down_packet(b"0x400,\r\n"));
}

#[test]
fn io_mixed_decoder_accepts_variable_length_rover_down_lines() {
    let mut decoder = MixedFormatDecoder::new(vec![OutputFormat::RoverDownGeneral]);

    assert!(decoder.push(b"noise0x4A2,TEMP=21.10").is_empty());
    let decoded = decoder.push(b"\r\n0x300,OK\r\n");

    assert_eq!(decoded.len(), 2);
    assert_eq!(decoded[0].format, OutputFormat::RoverDownGeneral);
    assert_eq!(decoded[0].bytes, b"0x4A2,TEMP=21.10\r\n");
    assert_eq!(decoded[1].bytes, b"0x300,OK\r\n");
}

#[test]
fn io_parse_output_format_list_returns_none_for_display_modes() {
    assert_eq!(parse_output_format_list("utf8+line"), None);
    assert_eq!(parse_output_format_list("hex"), None);
}

#[test]
fn io_resolve_display_mode_prefers_explicit_then_configured_then_builtin() {
    assert_eq!(
        resolve_display_mode(
            Some(PortDisplayMode::Utf8),
            Some(PortDisplayMode::Hex),
            Some(OutputFormat::PacketAcV6.default_display_mode()),
        ),
        PortDisplayMode::Utf8
    );
    assert_eq!(
        resolve_display_mode(
            None,
            Some(PortDisplayMode::HexAscii),
            Some(OutputFormat::RoverUpGeneral.default_display_mode()),
        ),
        PortDisplayMode::HexAscii
    );
    assert_eq!(
        resolve_display_mode(
            None,
            None,
            Some(OutputFormat::RoverDownGeneral.default_display_mode()),
        ),
        PortDisplayMode::Ascii
    );
}

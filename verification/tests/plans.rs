use acs::format::OutputFormat;
use acs::io::{parse_io_args, NumberReading};
use acs::io_prompt::{resolve_io_options, IoResolution};
use acs::io_settings::{IoRuntimeSettings, RateFigures};
use acs::mock_state::{
    format_rx_result, mock_flush_turns, mock_header_lines, FlushTurn, MockReport, RxCounts,
};
use acs::monitor::{monitor_header_lines, parse_monitor_args};
use acs::ports::resolve_port;
use acs::route::{parse_route_args, parse_route_port_binding};
use acs::route_pipeline::{
    available_template_lines, builtin_route_templates, route_header_lines,
};
use acs::send::parse_send_args;
use acs::xbee_mock::{parse_xbee_mock_args, XbeeMockRole, XbeeTestMode};
use acs::xbee_mock_driver::{
    format_mock_result, format_tx_result, mock_session_input, mock_session_outputs, rx_summary,
    tx_summary, GenericXbeeMockDriver,
};
use acs::xbee_mock_plan::{build_mock_settings, XbeeMockSettings};
use acs::xbee_talk::{build_header_lines, message_bytes, parse_xbee_talk_args};

fn words(list: &[&str]) -> Vec<String> {
    list.iter().map(|word| String::from(*word)).collect()
}

fn found(list: &[&str]) -> Vec<Result<String, String>> {
    list.iter().map(|port| Ok(String::from(*port))).collect()
}

fn figures(label: &str, line_bps: u64) -> RateFigures {
    RateFigures {
        value: String::from("10"),
        label: String::from(label),
        line_bps,
        period: 100_000_000,
    }
}

fn io(args: &[&str], outputs: &[&str], inputs: &[&str]) -> Result<IoRuntimeSettings, String> {
    let readings = vec![(String::from("10"), NumberReading::Positive)];
    let options = match resolve_io_options(parse_io_args(words(args), readings)?, &Vec::new())? {
        IoResolution::Ready(options) => options,
        other => panic!("unexpected resolution: {other:?}"),
    };
    let rates = outputs.iter().map(|_| figures("10 Hz", 3_900)).collect();
    acs::io_settings::build_settings(
        options,
        &found(outputs),
        &rates,
        &found(inputs),
        Some("/home/user"),
    )
}

#[test]
fn io_sums_its_settings_up_in_a_command() {
    let settings = io(
        &["-i", "/dev/ttyUSB1,packetjfv1+packetacv6", "-o", "ac=/dev/ttyUSB0@921600,packetacv6"],
        &["/dev/ttyUSB0"],
        &["/dev/ttyUSB1"],
    )
    .unwrap();
    assert_eq!(
        settings.executed_command,
        "acs io -i /dev/ttyUSB1@115200,hex+line,packetjfv1+packetacv6 -o ac=/dev/ttyUSB0@921600,hex,packetacv6,10"
    );
    assert_eq!(settings.log_dir, "/home/user/logs");
    assert!(settings.logging_enabled);
    assert_eq!(settings.observed_inputs.len(), 1);
    assert_eq!(
        settings.observed_inputs[0].formats,
        vec![OutputFormat::PacketAcV6, OutputFormat::PacketJfV1]
    );
}

#[test]
fn io_refuses_outputs_that_do_not_fit() {
    assert_eq!(
        io(
            &["-o", "a=/dev/ttyUSB0", "-o", "a=/dev/ttyUSB1"],
            &["/dev/ttyUSB0", "/dev/ttyUSB1"],
            &[]
        )
        .unwrap_err(),
        "duplicate io output id: a"
    );
    assert_eq!(
        io(
            &["-o", "a=/dev/ttyUSB0@9600", "-o", "b=/dev/ttyUSB0@115200"],
            &["/dev/ttyUSB0", "/dev/ttyUSB0"],
            &[]
        )
        .unwrap_err(),
        "io output port `/dev/ttyUSB0` cannot use multiple baud rates (9600 and 115200)"
    );
    assert!(io(&["-o", "/dev/ttyUSB0,packetacv6,0"], &["/dev/ttyUSB0"], &[]).is_err());
    assert_eq!(
        parse_io_args(words(&["--no-log"]), Vec::new()).unwrap_err(),
        "io requires at least one -i/--input or -o/--output"
    );
    assert_eq!(
        parse_io_args(words(&["-i", "a", "--fast"]), Vec::new()).unwrap_err(),
        "unknown option for io: --fast"
    );
}

#[test]
fn a_port_that_is_not_found_ends_the_plan() {
    let options = parse_monitor_args(words(&["-p", "7"])).unwrap();
    let missing = vec![Err(String::from("port not found"))];
    assert_eq!(
        acs::monitor::build_settings(options, &missing, None).unwrap_err(),
        "port not found"
    );
}

#[test]
fn monitors_watch_each_port_once_at_the_default_baud() {
    let options = parse_monitor_args(words(&["-p", "0", "-p", "/dev/ttyUSB0@9600"])).unwrap();
    let settings =
        acs::monitor::build_settings(options, &found(&["/dev/ttyUSB0", "/dev/ttyUSB0"]), None)
            .unwrap();
    assert_eq!(settings.inputs.len(), 1);
    assert_eq!(settings.inputs[0].baud_rate, 115_200);
    assert_eq!(settings.log_dir, "./logs");
    assert_eq!(
        monitor_header_lines(&settings, "/tmp/x.log"),
        [
            "ports: /dev/ttyUSB0@115200",
            "log: /tmp/x.log",
            "Space で表示を一時停止/再開  Ctrl-C で終了",
        ]
    );
    let alone = parse_monitor_args(Vec::new()).unwrap();
    let settings = acs::monitor::build_settings(alone, &found(&["/dev/ttyACM0"]), None).unwrap();
    assert_eq!(settings.inputs[0].port, "/dev/ttyACM0");
    assert_eq!(
        parse_monitor_args(words(&["--fast"])).unwrap_err(),
        "unknown option for monitor: --fast"
    );
    assert_eq!(
        parse_monitor_args(words(&["--config", "BAUD=1"])).unwrap_err(),
        "unknown monitor config key: BAUD"
    );
}

#[test]
fn talk_reads_the_port_that_it_sends_to() {
    let options = parse_xbee_talk_args(words(&["-p", "/dev/ttyUSB0@9600", "-m", "1,utf8"])).unwrap();
    let settings = acs::xbee_talk::build_settings(
        options,
        &Ok(String::from("/dev/ttyUSB0")),
        &found(&["/dev/ttyUSB1"]),
        None,
    )
    .unwrap();
    assert_eq!(
        build_header_lines(&settings, ""),
        [
            "output: /dev/ttyUSB0 @ 9600 baud",
            "input: /dev/ttyUSB0@9600, /dev/ttyUSB1@115200",
            "log: ",
            "Enter で送信 (\\r\\n を末尾に付加)  Ctrl-C で終了",
        ]
    );
    let twice = parse_xbee_talk_args(words(&["-p", "/dev/ttyUSB0@9600", "-m", "0"])).unwrap();
    assert_eq!(
        acs::xbee_talk::build_settings(
            twice,
            &Ok(String::from("/dev/ttyUSB0")),
            &found(&["/dev/ttyUSB0"]),
            None,
        )
        .unwrap_err(),
        "xbee-talk input port `/dev/ttyUSB0` cannot use multiple baud rates"
    );
    assert_eq!(message_bytes("é".as_bytes().to_vec()), "é\r\n".as_bytes());
    assert_eq!(
        parse_xbee_talk_args(words(&["--fast"])).unwrap_err(),
        "unknown option for xbee-talk: --fast"
    );
    assert_eq!(
        parse_xbee_talk_args(words(&["--config", "RATE=1"])).unwrap_err(),
        "unknown xbee-talk config key: RATE"
    );
}

#[test]
fn routes_need_known_inputs_and_outputs() {
    let options = parse_route_args(words(&[
        "merge",
        "-i",
        "in_a=/dev/ttyUSB0",
        "-o",
        "out_main=/dev/ttyUSB1",
        "--no-log",
    ]))
    .unwrap();
    let settings = acs::route_pipeline::build_settings(
        options,
        &found(&["/dev/ttyUSB0"]),
        &found(&["/dev/ttyUSB1"]),
        None,
    )
    .unwrap();
    assert_eq!(settings.pipeline.pipelines.len(), 1);
    assert_eq!(settings.pipeline.pipelines[0].inputs, vec![String::from("in_a")]);
    assert!(route_header_lines(&settings, "").contains(&String::from("log: disabled (--no-log)")));
    let unknown =
        parse_route_args(words(&["fly", "-i", "a=/dev/ttyUSB0", "-o", "b=/dev/ttyUSB1"])).unwrap();
    assert!(acs::route_pipeline::build_settings(
        unknown,
        &found(&["/dev/ttyUSB0"]),
        &found(&["/dev/ttyUSB1"]),
        None,
    )
    .is_err());
    assert_eq!(
        parse_route_port_binding("=x").unwrap_err(),
        "invalid route port binding: =x"
    );
    assert_eq!(
        parse_route_port_binding("").unwrap_err(),
        "route port binding must not be empty"
    );
}

#[test]
fn send_refuses_rates_of_nothing() {
    let options = parse_send_args(words(&["--rate", "0"])).unwrap();
    let port = Ok(String::from("/dev/ttyUSB0"));
    assert_eq!(
        acs::send_settings::build_settings(
            options,
            &port,
            &found(&["/dev/ttyUSB0"]),
            &Vec::new(),
            None,
        )
        .unwrap_err(),
        "--rate must be greater than 0"
    );
    assert_eq!(
        parse_send_args(words(&["--fast"])).unwrap_err(),
        "unknown option for send: --fast"
    );
}

#[test]
fn config_and_flags_agree() {
    let by_config = parse_send_args(words(&["--config", "RATE=20,LOG_DIR=tmp"])).unwrap();
    let by_flags = parse_send_args(words(&["--rate", "20", "--log-dir", "tmp"])).unwrap();
    assert_eq!(by_config.rate_hz, by_flags.rate_hz);
    assert_eq!(by_config.log_dir, by_flags.log_dir);
}

fn mock(args: &[&str]) -> Result<XbeeMockSettings, String> {
    build_mock_settings(
        parse_xbee_mock_args(words(args))?,
        &Ok(String::from("/dev/ttyUSB0")),
        &Ok(String::from("/dev/ttyUSB0")),
        None,
    )
}

#[test]
fn a_mock_plays_one_side() {
    let settings = mock(&[
        "base",
        "-p",
        "/dev/ttyUSB0",
        "--config",
        "TX_FORMAT=packetacv6@100+roverupgeneral,RX_FORMAT=packetjfv1,TRAFFIC_PATTERN=flood",
    ])
    .unwrap();
    assert_eq!(settings.role, XbeeMockRole::Base);
    assert_eq!(settings.traffic_pattern, XbeeTestMode::Flood);
    assert_eq!(settings.tx_port().port, "/dev/ttyUSB0");
    assert_eq!(settings.tx_port().baud_rate, 115_200);
    assert_eq!(mock_session_outputs(&settings).unwrap().len(), 2);
    assert_eq!(mock_session_input(&settings).port, "/dev/ttyUSB0");
    assert!(tx_summary(&settings.tx_formats).contains("100"));
    let driver = GenericXbeeMockDriver::new(&settings);
    assert_eq!(driver.rx_format_specs(&settings.rx_formats).len(), 1);
}

#[test]
fn mocks_refuse_traffic_of_the_other_side() {
    let error = |args: &[&str]| mock(args).unwrap_err();
    assert_eq!(error(&["-p", "0"]), "xbee-mock requires a role: `base` or `remote`");
    assert_eq!(
        error(&["base", "-p", "0", "--config", "PAIR=3"]),
        "xbee-mock PAIR must be 1 or 2"
    );
    assert_eq!(error(&["base", "-p", "0", "--config", "TRAFFIC_PATTERN=flood"]), "xbee-mock requires TX_FORMAT");
    assert_eq!(
        error(&["base", "-p", "0", "--config", "TRAFFIC_PATTERN=flood,TX_FORMAT=packetacv6"]),
        "xbee-mock requires RX_FORMAT"
    );
    assert_eq!(
        error(&["base"]),
        "xbee-mock requires at least one `-p PORT` (optional `@BAUD`, default: 115200)"
    );
    assert!(mock(&[
        "base",
        "-p",
        "0",
        "--config",
        "TRAFFIC_PATTERN=flood,TX_FORMAT=packetjfv1,RX_FORMAT=packetjfv1",
    ])
    .is_err());
    assert_eq!(
        error(&[
            "base",
            "-p",
            "0",
            "--config",
            "TRAFFIC_PATTERN=flood,TX_FORMAT=pollgreeting,RX_FORMAT=packetjfv1",
        ]),
        "PollGreeting/PollResponse require TRAFFIC_PATTERN=polling"
    );
    assert!(parse_xbee_mock_args(words(&["--config", "TX_FORMAT=packetacv6@0"])).is_err());
    assert!(parse_xbee_mock_args(words(&["--config", "RX_FORMAT=packetacv6+packetacv6"])).is_err());
}

#[test]
fn a_running_mock_tells_what_it_does() {
    let settings = mock(&[
        "remote",
        "-p",
        "/dev/ttyUSB0@9600",
        "--no-log",
        "--config",
        "TX_FORMAT=packetjfv1@80,RX_FORMAT=packetacv6+roverupgeneral,TRAFFIC_PATTERN=ping-pong",
    ])
    .unwrap();
    let driver = GenericXbeeMockDriver::new(&settings);
    let received = driver.rx_format_specs(&settings.rx_formats);
    let report = MockReport {
        display_fps: String::from("30.0"),
        sender_lines: words(&["sent"]),
        status_lines: words(&["heard"]),
        output_backlog: 1,
        input_backlog: 2,
        overflow: 3,
    };
    let lines = mock_header_lines(&settings, &received, &report, "", "keys");
    assert_eq!(lines[0], "role=remote  pair=1  pattern=ping-pong  display=30.0 fps");
    assert_eq!(lines[1], "up=/dev/ttyUSB0@9600  down=/dev/ttyUSB0@9600");
    assert_eq!(lines[2], "tx-port=/dev/ttyUSB0@9600  rx-port=/dev/ttyUSB0@9600");
    assert_eq!(
        lines[4..],
        words(&[
            "sent",
            "heard",
            "display backlog  out=1  in=2  overflow=3",
            "log: disabled (--no-log)",
            "keys",
        ])[..]
    );
    assert_eq!(driver.target_rates().len(), 1);
    let counts = vec![7u64; driver.lanes.len()];
    let results = driver.tx_results(&counts, &counts);
    assert_eq!(results.len(), 1);
    assert_eq!((results[0].rate_hz, results[0].sent_packets), (80, 7));
    let heard = RxCounts {
        matched: 1,
        missing: 2,
        invalid: 3,
        unexpected: 4,
        overflow: 5,
        error_percent: String::from("6.00"),
        target_rate: String::from("80.0"),
    };
    assert!(format_rx_result(settings.rx_formats[0], true, &heard)
        .ends_with(": matched=1 err=6.00% target=80.0Hz miss=2 bad=3 unexp=4 overflow=5"));
    assert!(format_rx_result(settings.rx_formats[0], false, &heard)
        .ends_with(": valid=1 bad=3 overflow=5 track=passive"));
    assert!(format_mock_result(&settings).starts_with("role=remote pair=1 pattern=ping-pong up="));
    assert!(format_tx_result(settings.tx_formats[0], 9, 1).ends_with("@80Hz: sent=9 tx_err=1"));
    assert!(rx_summary(&received).contains(", "));
}

#[test]
fn a_mock_shows_both_directions_in_turn() {
    let turn = |sent: bool, count: usize| FlushTurn { sent, count };
    assert_eq!(
        mock_flush_turns(40, 5),
        [turn(true, 32), turn(false, 5), turn(true, 8)]
    );
    assert!(mock_flush_turns(0, 0).is_empty());
    let full = mock_flush_turns(1_000, 1_000);
    assert_eq!(full.iter().map(|turn| turn.count).sum::<usize>(), 256);
    assert_eq!(full.iter().filter(|turn| turn.sent).count(), 4);
}

#[test]
fn templates_are_listed_with_examples() {
    let lines = available_template_lines(&builtin_route_templates(), "acs");
    assert_eq!(lines[0], "利用可能なルートテンプレート:");
    assert!(lines[1].starts_with("  merge            "));
    assert!(lines.contains(&String::from(
        "  acs route merge -i in_a=/dev/ttyUSB0 -i in_b=/dev/ttyUSB1 -o out_main=/dev/ttyUSB2"
    )));
}

#[test]
fn a_port_is_meant_by_number_or_name() {
    let names = words(&["/dev/ttyUSB0", "/dev/ttyUSB1"]);
    assert_eq!(resolve_port(Some("1"), &names), Ok(String::from("/dev/ttyUSB1")));
    assert_eq!(resolve_port(Some("/dev/ttyACM9"), &names), Ok(String::from("/dev/ttyACM9")));
    assert_eq!(
        resolve_port(Some("2"), &names),
        Err(String::from("serial port index out of range: 2"))
    );
    assert_eq!(
        resolve_port(None, &names),
        Err(String::from("several serial ports found; name one with --port"))
    );
    assert_eq!(resolve_port(None, &words(&["/dev/ttyS0"])), Ok(String::from("/dev/ttyS0")));
    assert_eq!(resolve_port(None, &words(&[])), Err(String::from("no serial ports found")));
}

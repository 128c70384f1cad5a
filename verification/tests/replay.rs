use acs::control::parse_control_args;
use acs::control_prompt::{resolve_control_options, ControlAnswers, ControlResolution};
use acs::control_settings::build_control_executed_command;
use acs::display::{LineBreakMode, PortDisplayMode};
use acs::format::OutputFormat;
use acs::help::{parse_action, Action, Subcommand};
use acs::io::{parse_io_args, NumberReading};
use acs::io_command::{build_io_executed_command, IoCommandInput, IoCommandOutput};
use acs::io_prompt::{resolve_io_options, IoResolution};
use acs::session::SessionOutputSpec;

/// The words of a command line with single quotes and backslashes.
fn split(line: &str) -> Vec<String> {
    let mut words = Vec::new();
    let mut word = None::<String>;
    let mut quotes = false;
    let mut chars = line.chars();
    while let Some(c) = chars.next() {
        if c == '\'' {
            word.get_or_insert_default();
            quotes = !quotes;
        } else if quotes || (c != '\\' && c != ' ') {
            word.get_or_insert_default().push(c);
        } else if c == '\\' {
            word.get_or_insert_default().extend(chars.next());
        } else {
            words.extend(word.take());
        }
    }
    words.extend(word);
    words
}

/// The arguments behind the name of the command.
fn arguments(line: &str, expected: Subcommand) -> Vec<String> {
    let words = split(line);
    assert_eq!(words[0], "acs");
    match parse_action(&words[1..].to_vec()) {
        Action::Run(command, args) => {
            assert_eq!(command, expected);
            args
        }
        other => panic!("unexpected action: {other:?}"),
    }
}

fn input(port: &str, formats: Vec<OutputFormat>) -> IoCommandInput {
    IoCommandInput {
        port: String::from(port),
        baud_rate: 9_600,
        display_mode: PortDisplayMode::Utf8,
        line_break_mode: LineBreakMode::Packet,
        formats,
    }
}

#[test]
fn a_control_command_reads_back() {
    let output = SessionOutputSpec {
        id: String::from("main"),
        port: String::from("/dev/tty USB0"),
        baud_rate: 921_600,
        format_name: String::from("packetmv1"),
        display_mode: PortDisplayMode::HexUtf8,
    };
    let monitors = vec![
        input("/dev/ttyUSB1", vec![OutputFormat::PacketAcV6, OutputFormat::PacketJfV1]),
        input("it's", Vec::new()),
    ];
    let line = build_control_executed_command(
        &output,
        OutputFormat::PacketMv1,
        40,
        &monitors,
        Some("-1"),
        Some("a dir\\ 'x'"),
        true,
        true,
    );
    let options = parse_control_args(arguments(&line, Subcommand::Control)).unwrap();
    assert_eq!(options.rate_hz, Some(40));
    assert_eq!(options.controller.as_deref(), Some("-1"));
    assert_eq!(options.log_dir.as_deref(), Some("a dir\\ 'x'"));
    assert!(options.no_log && options.s3b);
    let answers = ControlAnswers { format: None, output: None, rate_hz: None, monitors: vec![] };
    let run = match resolve_control_options(options, &answers) {
        Ok(ControlResolution::Ready(run)) => run,
        other => panic!("unexpected resolution: {other:?}"),
    };
    let port = run.port.unwrap();
    assert_eq!(port.port, "/dev/tty USB0");
    assert_eq!(port.baud, Some(921_600));
    assert_eq!(port.display_mode, Some(PortDisplayMode::HexUtf8));
    assert_eq!(run.format.as_deref(), Some("packetmv1"));
    assert_eq!(run.monitor_ports.len(), 2);
    assert_eq!(run.monitor_ports[0].formats, ["packetacv6", "packetjfv1"]);
    assert_eq!(run.monitor_ports[1].port, "it's");
    assert_eq!(run.monitor_ports[1].line_break_mode, Some(LineBreakMode::Packet));
}

#[test]
fn an_io_command_reads_back() {
    let outputs = vec![IoCommandOutput {
        id: String::from("ac"),
        port: String::from("/dev/ttyUSB0"),
        baud_rate: 115_200,
        display_mode: PortDisplayMode::Hex,
        format: OutputFormat::RoverUpGeneral,
        rate: String::from("2s"),
    }];
    let inputs = vec![input("/dev/ttyUSB1", vec![OutputFormat::PacketBv1])];
    let line = build_io_executed_command(&inputs, &outputs, Some(""), false, true);
    let readings = vec![
        (String::from("10"), NumberReading::Positive),
        (String::from("2"), NumberReading::Positive),
    ];
    let options = parse_io_args(arguments(&line, Subcommand::Io), readings).unwrap();
    let run = match resolve_io_options(options, &Vec::new()) {
        Ok(IoResolution::Ready(run)) => run,
        other => panic!("unexpected resolution: {other:?}"),
    };
    assert_eq!(run.log_dir.as_deref(), Some(""));
    assert!(!run.no_log && run.s3b);
    assert_eq!(run.inputs.len(), 1);
    assert_eq!(run.inputs[0].port, "/dev/ttyUSB1");
    assert_eq!(run.inputs[0].baud, Some(9_600));
    assert_eq!(run.inputs[0].formats, ["packetbv1"]);
    assert_eq!(run.outputs.len(), 1);
    assert_eq!(run.outputs[0].id, "ac");
    assert_eq!(run.outputs[0].format.as_deref(), Some("roverupgeneral"));
    assert_eq!(run.outputs[0].rate_hz.as_ref().unwrap().number, "2");
}

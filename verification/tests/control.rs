use acs::control::{
    parse_control_args, parse_control_monitor_binding, ControlFormatArg, ControlMonitorArg,
    ControlPortArg, ControlRuntimeOptions,
};
use acs::control_prompt::{
    default_control_rate_hz, ControlPromptCandidate, ControlPromptCommand,
};
use acs::control_settings::build_control_pipeline_spec;
use acs::display::{LineBreakMode, PortDisplayMode};
use acs::format::OutputFormat;
use acs::pipeline::TransformModuleConfig;

#[test]
fn parse_control_args_accepts_config_and_no_log() {
    let options = parse_control_args(vec![
        String::from("--port"),
        String::from("/dev/ttyUSB0@921600"),
        String::from("--config"),
        String::from("FORMAT=PacketACv6,RATE=100,CONTROLLER=0,DISPLAY=input:default=utf8+packet,LOG_DIR=tmp/control-logs"),
        String::from("--monitor"),
        String::from("/dev/ttyUSB1@115200,hex"),
        String::from("--no-log"),
    ])
    .expect("should parse");

    assert_eq!(
        options.port,
        Some(ControlPortArg::Provided(String::from(
            "/dev/ttyUSB0@921600"
        )))
    );
    assert_eq!(options.controller.as_deref(), Some("0"));
    assert_eq!(
        options.format,
        Some(ControlFormatArg::Provided(String::from("PacketACv6")))
    );
    assert_eq!(options.rate_hz, Some(100));
    assert_eq!(options.monitor_ports.len(), 1);
    assert_eq!(
        options.monitor_ports[0],
        ControlMonitorArg::Provided(String::from("/dev/ttyUSB1@115200,hex"))
    );
    assert_eq!(options.log_dir, Some(String::from("tmp/control-logs")));
    assert!(options.no_log);
}

#[test]
fn parse_control_args_accepts_bare_port_and_monitor_for_prompting() {
    let options =
        parse_control_args(vec![String::from("-p"), String::from("-m")]).expect("should parse");

    assert_eq!(options.port, Some(ControlPortArg::Prompt));
    assert_eq!(options.monitor_ports, vec![ControlMonitorArg::Prompt]);
}

#[test]
fn parse_control_args_accepts_bare_format_for_prompting() {
    let options = parse_control_args(vec![String::from("-f")]).expect("should parse");

    assert_eq!(options.format, Some(ControlFormatArg::Prompt));
}

#[test]
fn parse_control_monitor_binding_accepts_format_and_packet_mode() {
    let binding =
        parse_control_monitor_binding("/dev/ttyUSB1@115200,utf8+packet,packetjfv1").unwrap();

    assert_eq!(binding.port, "/dev/ttyUSB1");
    assert_eq!(binding.baud, Some(115_200));
    assert_eq!(binding.formats, vec![String::from("packetjfv1")]);
    assert_eq!(binding.display_mode, Some(PortDisplayMode::Utf8));
    assert_eq!(binding.line_break_mode, Some(LineBreakMode::Packet));
}

#[test]
fn parse_control_monitor_binding_accepts_ascii_crlf_mode() {
    let binding =
        parse_control_monitor_binding("/dev/ttyUSB1@115200,ascii+crlf,roverupgeneral").unwrap();

    assert_eq!(binding.port, "/dev/ttyUSB1");
    assert_eq!(binding.baud, Some(115_200));
    assert_eq!(binding.formats, vec![String::from("roverupgeneral")]);
    assert_eq!(binding.display_mode, Some(PortDisplayMode::Ascii));
    assert_eq!(binding.line_break_mode, Some(LineBreakMode::Crlf));
}

#[test]
fn parse_control_args_accepts_packetmv1_format() {
    let options = parse_control_args(vec![
        String::from("--config"),
        String::from("FORMAT=PacketMv1"),
    ])
    .expect("should parse");

    assert_eq!(
        options.format,
        Some(ControlFormatArg::Provided(String::from("PacketMv1")))
    );
}

#[test]
fn parse_control_args_accepts_rate_option() {
    let options = parse_control_args(vec![String::from("--rate"), String::from("20")])
        .expect("should parse");

    assert_eq!(options.rate_hz, Some(20));
}

#[test]
fn default_control_rates_match_formats() {
    assert_eq!(default_control_rate_hz(OutputFormat::PacketAcV6), 100);
    assert_eq!(default_control_rate_hz(OutputFormat::PacketMv1), 100);
    assert_eq!(default_control_rate_hz(OutputFormat::PacketGcV1), 20);
}

#[test]
fn control_prompt_command_renders_current_candidate() {
    let options = ControlRuntimeOptions {
        controller: Some(String::from("0")),
        log_dir: Some(String::from("tmp/control logs")),
        no_log: true,
        s3b: true,
        ..ControlRuntimeOptions::default()
    };
    let mut command = ControlPromptCommand::new(&options);
    command.set_output(String::from("/dev/ttyUSB0@921600,hex"));
    command.set_format(String::from("packetacv6"));

    assert_eq!(
        command.render(Some(ControlPromptCandidate::Monitor(
            "/dev/ttyUSB1@115200,utf8+packet,packetjfv1"
        ))),
        "acs control -p /dev/ttyUSB0@921600,hex --format packetacv6 --controller 0 -m /dev/ttyUSB1@115200,utf8+packet,packetjfv1 --log-dir 'tmp/control logs' --no-log --s3b"
    );
}

#[test]
fn control_pipeline_accepts_packetmv1_format() {
    let spec = build_control_pipeline_spec("ds4_main", OutputFormat::PacketMv1);

    assert_eq!(spec.pipelines.len(), 1);
    assert_eq!(spec.pipelines[0].inputs, vec![String::from("ds4_main")]);
    match spec.pipelines[0].transform.modules.last() {
        Some(TransformModuleConfig::OutputEncode { format }) => {
            assert_eq!(*format, OutputFormat::PacketMv1);
        }
        other => panic!("unexpected transform module: {other:?}"),
    }
}

#[test]
fn control_pipeline_accepts_packetgcv1_format() {
    let spec = build_control_pipeline_spec("ds4_main", OutputFormat::PacketGcV1);

    assert_eq!(spec.pipelines.len(), 1);
    assert_eq!(spec.pipelines[0].inputs, vec![String::from("ds4_main")]);
    match spec.pipelines[0].transform.modules.last() {
        Some(TransformModuleConfig::OutputEncode { format }) => {
            assert_eq!(*format, OutputFormat::PacketGcV1);
        }
        other => panic!("unexpected transform module: {other:?}"),
    }
}

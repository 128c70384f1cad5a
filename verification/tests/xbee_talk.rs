use acs::display::{LineBreakMode, PortDisplayMode};
use acs::session::SessionInputSpec;
use acs::xbee_talk::{add_unique_input, parse_xbee_talk_args};

#[test]
fn parse_xbee_talk_args_accepts_legacy_interactive_flag() {
    let options = parse_xbee_talk_args(vec![
        String::from("-i"),
        String::from("--port"),
        String::from("/dev/ttyUSB0@921600,utf8"),
        String::from("--monitor"),
        String::from("/dev/ttyUSB1@115200,hex+packet"),
        String::from("--no-log"),
    ])
    .expect("should parse");

    let port = options.port.expect("port");
    assert_eq!(port.port, "/dev/ttyUSB0");
    assert_eq!(port.baud, Some(921_600));
    assert_eq!(port.display_mode, Some(PortDisplayMode::Utf8));
    assert_eq!(options.inputs.len(), 1);
    assert_eq!(options.inputs[0].port, "/dev/ttyUSB1");
    assert!(options.no_log);
}

#[test]
fn parse_xbee_talk_config_accepts_display_and_log_dir() {
    let options = parse_xbee_talk_args(vec![
        String::from("--config"),
        String::from("BAUD=921600,DISPLAY=input:default=utf8+line,LOG_DIR=tmp/talk"),
    ])
    .expect("should parse");

    assert_eq!(options.baud, Some(921_600));
    assert_eq!(
        options.display.resolve_input("/dev/ttyUSB0"),
        PortDisplayMode::Utf8
    );
    assert_eq!(options.log_dir, Some(String::from("tmp/talk")));
}

#[test]
fn a_port_is_read_at_one_baud_rate() {
    let input = |baud_rate: u32| SessionInputSpec {
        id: String::from("a"),
        port: String::from("a"),
        baud_rate,
        display_mode: PortDisplayMode::Hex,
        line_break_mode: LineBreakMode::Wrap,
    };
    let mut inputs = Vec::new();
    assert_eq!(add_unique_input(&mut inputs, input(9_600)), Ok(()));
    assert_eq!(add_unique_input(&mut inputs, input(9_600)), Ok(()));
    assert_eq!(
        add_unique_input(&mut inputs, input(115_200)),
        Err(String::from("xbee-talk input port `a` cannot use multiple baud rates"))
    );
    assert_eq!(inputs.len(), 1);
    assert_eq!(inputs[0].baud_rate, 9_600);
}

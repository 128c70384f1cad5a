use acs::args::{parse_key_value_args, parse_port_spec, KeyValueArg, PortSpec};
use acs::display::{LineBreakMode, PortDisplayMode};

#[test]
fn parse_port_spec_accepts_baud_and_display_suffixes() {
    assert_eq!(
        parse_port_spec("--port", "/dev/ttyUSB0@921600,utf8").unwrap(),
        PortSpec {
            port: String::from("/dev/ttyUSB0"),
            baud: Some(921_600),
            display_mode: Some(PortDisplayMode::Utf8),
            line_break_mode: None,
        }
    );
    assert_eq!(
        parse_port_spec("--port", "/dev/ttyUSB1,hex+ascii").unwrap(),
        PortSpec {
            port: String::from("/dev/ttyUSB1"),
            baud: None,
            display_mode: Some(PortDisplayMode::HexAscii),
            line_break_mode: None,
        }
    );
    assert_eq!(
        parse_port_spec("--port", "/dev/ttyUSB2,hex+packet").unwrap(),
        PortSpec {
            port: String::from("/dev/ttyUSB2"),
            baud: None,
            display_mode: Some(PortDisplayMode::Hex),
            line_break_mode: Some(LineBreakMode::Packet),
        }
    );
    assert_eq!(
        parse_port_spec("--port", "0@460800,hex").unwrap(),
        PortSpec {
            port: String::from("0"),
            baud: Some(460_800),
            display_mode: Some(PortDisplayMode::Hex),
            line_break_mode: None,
        }
    );
}

#[test]
fn port_spec_normalized_skips_empty_port_names() {
    assert_eq!(
        PortSpec {
            port: String::from(" "),
            baud: Some(115_200),
            display_mode: None,
            line_break_mode: None,
        }
        .normalized(),
        None
    );
    assert_eq!(
        PortSpec {
            port: String::from("/dev/ttyUSB0"),
            baud: Some(921_600),
            display_mode: Some(PortDisplayMode::Hex),
            line_break_mode: Some(LineBreakMode::Packet),
        }
        .normalized(),
        Some(PortSpec {
            port: String::from("/dev/ttyUSB0"),
            baud: Some(921_600),
            display_mode: Some(PortDisplayMode::Hex),
            line_break_mode: Some(LineBreakMode::Packet),
        })
    );
}

#[test]
fn parse_key_value_args_accepts_csv_assignments() {
    assert_eq!(
        parse_key_value_args("--config", "FORMAT=PacketACv6,RATE=100,DISPLAY=input:default=utf8+packet")
            .unwrap(),
        vec![
            KeyValueArg {
                key: String::from("FORMAT"),
                value: String::from("PacketACv6"),
            },
            KeyValueArg {
                key: String::from("RATE"),
                value: String::from("100"),
            },
            KeyValueArg {
                key: String::from("DISPLAY"),
                value: String::from("input:default=utf8+packet"),
            },
        ]
    );
}

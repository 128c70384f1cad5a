use acs::format::OutputFormat;
use acs::xbee_mock::{
    parse_xbee_mock_args, parse_xbee_mock_port_binding, XbeeMockPortBinding, XbeeMockPortId,
    XbeeMockRole, XbeeTestFrameKind,
};
use acs::xbee_mock_plan::resolve_xbee_mock_ports;

#[test]
fn parse_xbee_mock_args_accepts_positional_role_and_port() {
    let options = parse_xbee_mock_args(vec![
        String::from("remote"),
        String::from("-p"),
        String::from("up=/dev/ttyUSB2@460800"),
        String::from("-p"),
        String::from("down=/dev/ttyUSB3@115200"),
        String::from("--config"),
        String::from(
            "PAIR=2,TX_FORMAT=packetjfv1@80+roverdowngeneral@70,RX_FORMAT=packetacv6+roverupgeneral,TRAFFIC_PATTERN=ping-pong,LOG_DIR=tmp/logs",
        ),
        String::from("--no-log"),
    ])
    .expect("should parse");

    assert_eq!(options.role.as_deref(), Some("remote"));
    assert_eq!(options.ports.len(), 2);
    assert_eq!(options.ports[0].id, Some(XbeeMockPortId::Up));
    assert_eq!(options.ports[0].port, "/dev/ttyUSB2");
    assert_eq!(options.ports[0].baud, Some(460_800));
    assert_eq!(options.ports[1].id, Some(XbeeMockPortId::Down));
    assert_eq!(options.ports[1].port, "/dev/ttyUSB3");
    assert_eq!(options.ports[1].baud, Some(115_200));
    assert_eq!(options.pair_number, Some(2));
    assert_eq!(options.traffic_pattern.as_deref(), Some("ping-pong"));
    assert_eq!(
        options.tx_formats.as_ref().map(|formats| formats.len()),
        Some(2)
    );
    assert_eq!(
        options.tx_formats.as_ref().map(|formats| formats[0].kind),
        Some(XbeeTestFrameKind::Format(OutputFormat::PacketJfV1))
    );
    assert_eq!(
        options
            .tx_formats
            .as_ref()
            .map(|formats| formats[0].rate_hz),
        Some(80)
    );
    assert_eq!(
        options.rx_formats.as_ref().map(|formats| formats.clone()),
        Some(vec![
            XbeeTestFrameKind::Format(OutputFormat::PacketAcV6),
            XbeeTestFrameKind::Format(OutputFormat::RoverUpGeneral),
        ])
    );
    assert_eq!(options.log_dir, Some(String::from("tmp/logs")));
    assert!(options.no_log);
}

#[test]
fn parse_xbee_mock_args_accepts_ports_without_baud() {
    let options = parse_xbee_mock_args(vec![
        String::from("base"),
        String::from("-p"),
        String::from("up=/dev/ttyUSB2"),
        String::from("-p"),
        String::from("down=/dev/ttyUSB3"),
        String::from("--option"),
        String::from(
            "PAIR=2,TX_FORMAT=packetacv6@100,RX_FORMAT=packetjfv1,TRAFFIC_PATTERN=flood",
        ),
    ])
    .expect("should parse");

    assert_eq!(options.role.as_deref(), Some("base"));
    assert_eq!(options.ports.len(), 2);
    assert_eq!(options.ports[0].baud, None);
    assert_eq!(options.ports[1].baud, None);
}

#[test]
fn parse_xbee_mock_args_accepts_role_via_config() {
    let options = parse_xbee_mock_args(vec![
        String::from("--config"),
        String::from(
            "ROLE=base,PAIR=1,TX_FORMAT=packetacv6@100,RX_FORMAT=packetjfv1,TRAFFIC_PATTERN=flood",
        ),
        String::from("-p"),
        String::from("/dev/ttyUSB0@921600"),
    ])
    .expect("should parse");

    assert_eq!(options.role.as_deref(), Some("base"));
    assert_eq!(options.pair_number, Some(1));
    assert_eq!(options.ports.len(), 1);
    assert_eq!(options.ports[0].baud, Some(921_600));
}

#[test]
fn parse_xbee_mock_port_rejects_display_override() {
    let error =
        parse_xbee_mock_port_binding("/dev/ttyUSB0@921600,hex").expect_err("should reject");
    assert!(error.contains("display"));
}

#[test]
fn resolve_xbee_mock_ports_pair1_shares_single_port() {
    let (up, down) = resolve_xbee_mock_ports(
        1,
        vec![XbeeMockPortBinding {
            id: None,
            port: String::from("/dev/ttyUSB0"),
            baud: Some(921_600),
        }],
    )
    .expect("should resolve");

    assert_eq!(up.port, "/dev/ttyUSB0");
    assert_eq!(up.baud, Some(921_600));
    assert_eq!(down.port, "/dev/ttyUSB0");
    assert_eq!(down.baud, Some(921_600));
}

#[test]
fn resolve_xbee_mock_ports_pair1_rejects_multiple_ports() {
    let error = resolve_xbee_mock_ports(
        1,
        vec![
            XbeeMockPortBinding {
                id: None,
                port: String::from("/dev/ttyUSB0"),
                baud: Some(921_600),
            },
            XbeeMockPortBinding {
                id: None,
                port: String::from("/dev/ttyUSB1"),
                baud: Some(115_200),
            },
        ],
    )
    .expect_err("should reject");

    assert!(error.contains("PAIR=1 requires exactly one"));
}

#[test]
fn resolve_xbee_mock_ports_pair2_requires_labeled_up_and_down() {
    let unlabeled_error = resolve_xbee_mock_ports(
        2,
        vec![XbeeMockPortBinding {
            id: None,
            port: String::from("/dev/ttyUSB0"),
            baud: Some(921_600),
        }],
    )
    .expect_err("should reject unlabeled binding");
    assert!(unlabeled_error.contains("requires labeled ports"));

    let missing_down_error = resolve_xbee_mock_ports(
        2,
        vec![XbeeMockPortBinding {
            id: Some(XbeeMockPortId::Up),
            port: String::from("/dev/ttyUSB0"),
            baud: Some(921_600),
        }],
    )
    .expect_err("should reject missing down");
    assert!(missing_down_error.contains("requires `-p down=PORT`"));
}

#[test]
fn resolve_xbee_mock_ports_pair2_uses_labeled_up_and_down() {
    let (up, down) = resolve_xbee_mock_ports(
        2,
        vec![
            XbeeMockPortBinding {
                id: Some(XbeeMockPortId::Up),
                port: String::from("/dev/ttyUSB0"),
                baud: Some(921_600),
            },
            XbeeMockPortBinding {
                id: Some(XbeeMockPortId::Down),
                port: String::from("/dev/ttyUSB1"),
                baud: Some(115_200),
            },
        ],
    )
    .expect("should resolve");

    assert_eq!(up.port, "/dev/ttyUSB0");
    assert_eq!(up.baud, Some(921_600));
    assert_eq!(down.port, "/dev/ttyUSB1");
    assert_eq!(down.baud, Some(115_200));
}

#[test]
fn xbee_mock_role_parse_accepts_base_and_remote() {
    assert_eq!(
        XbeeMockRole::parse("base").expect("role"),
        XbeeMockRole::Base
    );
    assert_eq!(
        XbeeMockRole::parse("remote").expect("role"),
        XbeeMockRole::Remote
    );
}

use acs::control::{apply_control_config_args, parse_control_args, ControlCliOptions};
use acs::monitor::parse_monitor_args;
use acs::route::parse_route_args;
use acs::rtt::parse_xbee_rtt_args;
use acs::send::parse_send_args;
use acs::xbee_mock::parse_xbee_mock_args;
use acs::xbee_talk::parse_xbee_talk_args;

fn words(list: &[&str]) -> Vec<String> {
    list.iter().map(|word| String::from(*word)).collect()
}

#[test]
fn a_control_setting_is_given_either_way() {
    for (assignment, flag, value) in [
        ("CONTROLLER=/dev/hidraw0", "--controller", "/dev/hidraw0"),
        ("FORMAT=PacketACv6", "--format", "PacketACv6"),
        ("RATE=50", "--rate", "50"),
        ("DISPLAY=input:utf8", "--display", "input:utf8"),
        ("LOG_DIR=a=b", "--log-dir", "a=b"),
    ] {
        let by_config = parse_control_args(words(&["--config", assignment]));
        let by_flag = parse_control_args(words(&[flag, value]));
        assert_eq!(by_config.is_ok(), by_flag.is_ok());
        if let (Ok(a), Ok(b)) = (by_config, by_flag) {
            assert_eq!(format!("{a:?}"), format!("{b:?}"));
        }
    }
    let dashed = parse_control_args(words(&["--config", "FORMAT=-x"])).unwrap();
    assert!(format!("{:?}", dashed.format).contains("-x"));
    assert!(parse_control_args(words(&["--format", "-x"])).is_err());
}

#[test]
fn an_rtt_setting_is_given_either_way() {
    for (assignment, flag, value) in [
        ("PAYLOAD_SIZE=64", "--payload-size", "64"),
        ("COUNT=20", "--count", "20"),
        ("INTERVAL_MS=50", "--interval-ms", "50"),
        ("CONNECT_TIMEOUT_MS=7", "--connect-timeout-ms", "7"),
        ("PROBE_TIMEOUT_MS=8", "--probe-timeout-ms", "8"),
    ] {
        let by_config = parse_xbee_rtt_args(words(&["--config", assignment])).unwrap();
        let by_flag = parse_xbee_rtt_args(words(&[flag, value])).unwrap();
        assert_eq!(format!("{by_config:?}"), format!("{by_flag:?}"));
        assert!(parse_xbee_rtt_args(words(&[flag, "many"])).is_err());
    }
    assert!(parse_xbee_rtt_args(words(&["--config", "COUNT=many"])).is_err());
}

#[test]
fn a_log_directory_is_given_either_way() {
    let by_config = words(&["--config", "LOG_DIR=/tmp/logs"]);
    let by_flag = words(&["--log-dir", "/tmp/logs"]);
    let expected = Some(String::from("/tmp/logs"));
    assert_eq!(parse_send_args(by_config.clone()).unwrap().log_dir, expected);
    assert_eq!(parse_send_args(by_flag.clone()).unwrap().log_dir, expected);
    assert_eq!(parse_monitor_args(by_config.clone()).unwrap().log_dir, expected);
    assert_eq!(parse_monitor_args(by_flag.clone()).unwrap().log_dir, expected);
    assert_eq!(parse_route_args(by_config.clone()).unwrap().log_dir, expected);
    assert_eq!(parse_route_args(by_flag.clone()).unwrap().log_dir, expected);
    assert_eq!(parse_xbee_mock_args(by_config.clone()).unwrap().log_dir, expected);
    assert_eq!(parse_xbee_mock_args(by_flag.clone()).unwrap().log_dir, expected);
    assert_eq!(parse_xbee_talk_args(by_config).unwrap().log_dir, expected);
    assert_eq!(parse_xbee_talk_args(by_flag).unwrap().log_dir, expected);
}

#[test]
fn what_stands_before_a_refused_assignment_stays() {
    let mut options = ControlCliOptions::default();
    assert_eq!(
        apply_control_config_args(&mut options, "rate=100,FOO=1,LOG_DIR=x"),
        Err(String::from("unknown control config key: FOO"))
    );
    assert_eq!(options.rate_hz, Some(100));
    assert_eq!(options.log_dir, None);
    let mut options = ControlCliOptions::default();
    assert!(apply_control_config_args(&mut options, "RATE=100,FOO").is_err());
    assert_eq!(options.rate_hz, None);
}

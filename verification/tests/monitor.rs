use acs::monitor::parse_monitor_args;

#[test]
fn parse_monitor_args_accepts_config_and_no_log() {
    let options = parse_monitor_args(vec![
        String::from("--port"),
        String::from("/dev/ttyUSB0@921600,utf8"),
        String::from("--config"),
        String::from("DISPLAY=input:default=hex+packet,LOG_DIR=tmp/monitor-logs"),
        String::from("--no-log"),
    ])
    .expect("should parse");

    assert_eq!(options.ports.len(), 1);
    assert_eq!(options.ports[0].port, "/dev/ttyUSB0");
    assert_eq!(options.ports[0].baud, Some(921_600));
    assert_eq!(options.log_dir, Some(String::from("tmp/monitor-logs")));
    assert!(options.no_log);
}

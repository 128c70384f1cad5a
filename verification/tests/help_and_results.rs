use acs::commands::{format_device_line, format_output_port, DeviceInfo, PortInfo, PortKind, UsbInfo};
use acs::format::OutputFormat;
use acs::help::{
    any_help_flag, help_topic, is_help_flag, parse_action, unknown_command, unknown_topic, Action,
    HelpTopic, Subcommand,
};
use acs::help_text::{fill, help_text, usage_text};
use acs::results::{
    format_control_result, format_io_result, format_log_entry, format_send_result,
    format_talk_result, format_whole_rate_io_result, OutputRunResult,
};
use acs::update::{
    cargo_candidates, cargo_command, format_command_failure, parse_update_args, repo_url,
    resolve_requested_tag, resolve_update_step, UpdateAction, UpdateStep,
};
use acs::version::{resolve_build_info, version_line, BuildEnvironment, BuildInfo, GitState};

fn words(list: &[&str]) -> Vec<String> {
    list.iter().map(|word| String::from(*word)).collect()
}

#[test]
fn commands_are_found_by_name() {
    assert!(matches!(parse_action(&words(&[])), Action::Help));
    assert!(matches!(parse_action(&words(&["-h"])), Action::Help));
    assert!(matches!(parse_action(&words(&["-V"])), Action::Version));
    assert!(matches!(parse_action(&words(&["ports"])), Action::Ports));
    match parse_action(&words(&["io", "-i", "-o"])) {
        Action::Run(command, args) => {
            assert_eq!(command, Subcommand::Io);
            assert_eq!(args, words(&["-i", "-o"]));
        }
        other => panic!("unexpected action: {other:?}"),
    }
    match parse_action(&words(&["send", "--port", "0"])) {
        Action::Run(command, args) => {
            assert_eq!(command, Subcommand::Send);
            assert_eq!(args, words(&["--port", "0"]));
        }
        other => panic!("unexpected action: {other:?}"),
    }
    match parse_action(&words(&["monitor"])) {
        Action::Run(command, args) => {
            assert_eq!(command, Subcommand::Monitor);
            assert!(args.is_empty());
        }
        other => panic!("unexpected action: {other:?}"),
    }
    match parse_action(&words(&["help", "route"])) {
        Action::Topic(topic) => assert_eq!(topic.as_deref(), Some("route")),
        other => panic!("unexpected action: {other:?}"),
    }
    match parse_action(&words(&["fly"])) {
        Action::Unknown(name) => assert_eq!(name, "fly"),
        other => panic!("unexpected action: {other:?}"),
    }
    assert_eq!(unknown_command("fly"), "不明なサブコマンドです: fly");
    assert_eq!(unknown_topic("fly"), "不明なヘルプトピックです: fly");
}

#[test]
fn every_command_has_a_topic() {
    for name in [
        "control", "io", "monitor", "route", "send", "xbee-talk", "xbee-mock", "xbee-rtt",
        "xbee-test", "update",
    ] {
        assert!(usage_text("acs").contains(&format!("\n  {name} ")));
        assert!(help_text(HelpTopic::Overview, "acs").contains(&format!("\n  {name} ")));
        match (parse_action(&words(&[name])), help_topic(Some(name))) {
            (Action::Run(command, _), HelpTopic::Command(topic)) => assert_eq!(command, topic),
            other => panic!("unexpected topic: {other:?}"),
        }
        assert!(help_text(help_topic(Some(name)), "acs").contains(&format!("acs {name}")));
    }
    assert_eq!(help_topic(None), HelpTopic::Overview);
    assert_eq!(help_topic(Some("fly")), HelpTopic::Unknown);
}

#[test]
fn help_names_the_program() {
    assert_eq!(fill("% a %b", "acs"), "acs a acsb");
    assert!(help_text(HelpTopic::Ports, "/bin/acs").starts_with("使い方: /bin/acs ports\n\n"));
    assert!(!help_text(HelpTopic::Overview, "acs").contains('%'));
    assert!(usage_text("acs").starts_with("使い方: acs <コマンド>\n"));
    assert!(is_help_flag("--help") && is_help_flag("-h") && !is_help_flag("help"));
    assert!(any_help_flag(&words(&["-i", "-h"])));
    assert!(!any_help_flag(&words(&["-i", "--helpful"])));
}

#[test]
fn devices_and_ports_are_listed() {
    let device = DeviceInfo {
        transport: String::from("usb"),
        vendor_id: 0x054C,
        product_id: 0x09CC,
        interface_number: -1,
        product_name: None,
        path: String::from("/dev/hidraw0"),
    };
    assert_eq!(
        format_device_line(2, &device),
        "[2] transport=usb vid=0x054c pid=0x09cc interface=-1 product=unknown path=/dev/hidraw0"
    );
    let port = PortInfo {
        name: String::from("/dev/ttyUSB0"),
        kind: PortKind::Usb(UsbInfo {
            vendor_id: 0x0403,
            product_id: 0x6001,
            manufacturer: Some(String::from("FTDI")),
            product: None,
            serial_number: Some(String::from("A1")),
        }),
    };
    assert_eq!(
        format_output_port(0, &port),
        "[0] /dev/ttyUSB0 type=usb vid=0x0403 pid=0x6001 manufacturer=FTDI product=unknown serial=A1"
    );
    let plain = PortInfo { name: String::from("COM1"), kind: PortKind::Pci };
    assert_eq!(format_output_port(1, &plain), "[1] COM1 type=pci");
}

#[test]
fn updates_need_a_tag_that_exists() {
    let tags = words(&["v1.2.3", "v1.2.2"]);
    assert_eq!(
        resolve_update_step(&UpdateAction::Latest, "url", &tags),
        Ok(UpdateStep::Install(String::from("v1.2.3")))
    );
    assert_eq!(resolve_update_step(&UpdateAction::List, "url", &tags), Ok(UpdateStep::Show));
    assert_eq!(
        resolve_update_step(&UpdateAction::Version(String::from(" 1.2.2 ")), "url", &tags),
        Ok(UpdateStep::Install(String::from("v1.2.2")))
    );
    assert_eq!(
        resolve_update_step(&UpdateAction::List, "url", &Vec::new()),
        Err(String::from("GitHub 上に利用可能な tag がありません: url"))
    );
    assert_eq!(resolve_requested_tag("  ", &tags).unwrap_err(), "更新する VERSION が空です");
    assert_eq!(
        resolve_requested_tag("V1.2.2", &tags).unwrap_err(),
        "指定された VERSION は GitHub tag にありません: V1.2.2"
    );
    assert_eq!(
        parse_update_args(words(&["--force"])).unwrap_err(),
        "unknown option for update: --force"
    );
    assert!(parse_update_args(words(&[" "])).is_err());
}

#[test]
fn updates_come_from_the_repository_that_is_set() {
    assert_eq!(repo_url(None), "https://github.com/andmatcha/acs.git");
    assert_eq!(repo_url(Some("  ")), "https://github.com/andmatcha/acs.git");
    assert_eq!(repo_url(Some(" /srv/acs.git ")), "/srv/acs.git");
    assert_eq!(format_command_failure("clone", " \n"), "clone: command failed");
    assert_eq!(format_command_failure("clone", " no route \n"), "clone: no route");
}

#[test]
fn cargo_is_the_first_that_is_there() {
    let paths = cargo_candidates(Some("/opt/cargo"), Some("/home/user"), "cargo");
    assert_eq!(paths, words(&["/opt/cargo/bin/cargo", "/home/user/.cargo/bin/cargo"]));
    assert_eq!(cargo_command(Some("/x/cargo"), &paths, &vec![true, true], "cargo"), "/x/cargo");
    assert_eq!(
        cargo_command(Some(""), &paths, &vec![false, true], "cargo"),
        "/home/user/.cargo/bin/cargo"
    );
    assert_eq!(cargo_command(None, &paths, &vec![false, false], "cargo"), "cargo");
}

#[test]
fn a_build_says_where_it_comes_from() {
    let env = BuildEnvironment {
        commit: None,
        branch: Some(" "),
        dirty: None,
        source_kind: None,
        source_ref: None,
    };
    let git = GitState {
        commit: Some("1234567890abcdef\n"),
        branch: Some("HEAD\n"),
        status: Some(" M src/lib.rs\n"),
    };
    let build = resolve_build_info(&env, &git);
    assert_eq!(
        version_line("acs", "1.2.3", &build),
        "acs 1.2.3 (commit 1234567890ab, branch detached, source working-tree, dirty)"
    );
    let unknown = BuildInfo {
        commit: String::from("unknown"),
        branch: String::from("unknown"),
        dirty: String::from("clean"),
        source_kind: String::from("unknown"),
        source_ref: String::from("unknown"),
    };
    assert_eq!(version_line("acs", "1.2.3", &unknown), "acs 1.2.3 (source unknown, clean)");
}

fn result(id: &str, sent_count: u64) -> OutputRunResult {
    OutputRunResult {
        id: String::from(id),
        port: String::from("/dev/ttyUSB0"),
        baud_rate: 115_200,
        format: OutputFormat::PacketAcV6,
        target: String::from("10 Hz"),
        sent_count,
        payload_len: 39,
    }
}

#[test]
fn sessions_are_summed_up() {
    assert_eq!(
        format_io_result(&Vec::new(), false, "", None),
        words(&["io session finished (receive only)"])
    );
    assert_eq!(
        format_io_result(&vec![result("main", 5)], true, "/tmp/x.log", Some("acs io -o")),
        words(&[
            "sent 5 packets (39 bytes each) to /dev/ttyUSB0 @ 115200 baud, format=packetacv6, target=10 Hz",
            "log saved to /tmp/x.log",
            "Command:",
            "acs io -o",
        ])
    );
    assert_eq!(
        format_whole_rate_io_result(&vec![result("main", 5)], true, "/tmp/x.log", Some("acs io -o")),
        words(&[
            "sent 5 packets (39 bytes each) to /dev/ttyUSB0 @ 115200 baud, format=packetacv6, target=10 Hz",
            "log saved to /tmp/x.log",
            "実行コマンド: acs io -o",
        ])
    );
    assert_eq!(
        format_whole_rate_io_result(&Vec::new(), false, "", None),
        words(&["io session finished (receive only)"])
    );
    assert_eq!(
        format_send_result(false, 0, &vec![result("a", 1), result("b", 2)], false, "")[..2],
        words(&[
            "sent dummy packets to 2 outputs",
            "  a: 1 packets (39 bytes each) to /dev/ttyUSB0 @ 115200 baud, format=packetacv6, target=10 Hz",
        ])[..]
    );
    assert_eq!(
        format_send_result(true, 3, &vec![result("a", 3), result("b", 2)], false, ""),
        words(&[
            "sent 3 messages to 2 outputs",
            "  a: 3 writes to /dev/ttyUSB0 @ 115200 baud",
            "  b: 2 writes to /dev/ttyUSB0 @ 115200 baud",
        ])
    );
    assert_eq!(
        format_talk_result(4, &result("main", 4)),
        "sent 4 messages to /dev/ttyUSB0 @ 115200 baud"
    );
    assert_eq!(format_control_result(false, "", None), words(&[]));
    assert_eq!(
        format_log_entry("T", "input", "p", Some(("41", "A")), None),
        "ts=T kind=input port=p hex=41 ascii=A"
    );
    assert_eq!(
        format_log_entry("T", "status", "p", None, Some("gone")),
        "ts=T kind=status port=p message=gone"
    );
}

use acs::commands::{DeviceInfo, PortInfo, PortKind};
use acs::control::{parse_control_args, ControlRuntimeOptions};
use acs::control_prompt::{
    resolve_control_options, ControlAnswers, ControlPromptCommand, ControlResolution,
};
use acs::control_questions::{
    format_controller_choice, prompt_control_monitor_binding, prompt_control_output_binding,
    prompt_control_output_format, prompt_control_output_rate,
};
use acs::format::OutputFormat;
use acs::io::{parse_io_args, IoRuntimeOptions, NumberReading};
use acs::io_prompt::{resolve_io_options, IoPromptCommand, IoPromptPortPosition, IoResolution};
use acs::io_questions::{prompt_io_input_binding, prompt_io_output_binding};
use acs::send_prompt::SendResolution;
use acs::menu::{
    choose_from_numbered_prompt, entered_text, format_serial_port_choice, menu_escape, menu_key,
    menu_start, prompt_u32_choice_with_preview, render_menu,
    render_numbered_menu, render_plain_menu, MenuKey, NoPreview, Question, Reply,
    Step,
};

fn ports() -> Vec<PortInfo> {
    vec![
        PortInfo { name: String::from("/dev/ttyUSB0"), kind: PortKind::Unknown },
        PortInfo { name: String::from("/dev/ttyUSB1"), kind: PortKind::Bluetooth },
    ]
}

fn io_command() -> IoPromptCommand {
    IoPromptCommand::new(&IoRuntimeOptions::new(Vec::new()))
}

fn control_command() -> ControlPromptCommand {
    ControlPromptCommand::new(&ControlRuntimeOptions::default())
}

fn asked<T: std::fmt::Debug>(step: Result<Step<T>, String>) -> Question {
    match step {
        Ok(Step::Ask(question)) => question,
        other => panic!("nothing is asked: {other:?}"),
    }
}

fn menu(question: Question) -> (String, Vec<String>, Vec<Option<String>>) {
    match question {
        Question::Menu { title, labels, previews } => (title, labels, previews),
        other => panic!("no menu: {other:?}"),
    }
}

fn done<T: std::fmt::Debug>(step: Result<Step<T>, String>) -> T {
    match step {
        Ok(Step::Done(value, _)) => value,
        other => panic!("not done: {other:?}"),
    }
}

#[test]
fn an_input_is_asked_for_part_by_part() {
    let command = io_command();
    let position = IoPromptPortPosition::input(1, 2);
    let mut replies = Vec::new();
    let (title, labels, previews) =
        menu(asked(prompt_io_input_binding(&command, position, &ports(), &replies)));
    assert_eq!(title, "受信ポートを選択 (受信ポート 1/2)");
    assert_eq!(labels, ["[0] /dev/ttyUSB0", "[1] /dev/ttyUSB1  bluetooth", "[2] 手入力..."]);
    assert_eq!(previews[1].as_deref(), Some("acs io -i /dev/ttyUSB1"));
    assert_eq!(previews[2].as_deref(), Some("acs io -i PORT"));

    replies.push(Reply::Selected(1));
    let (title, labels, previews) =
        menu(asked(prompt_io_input_binding(&command, position, &ports(), &replies)));
    assert_eq!(title, "受信ボーレート (受信ポート 1/2)");
    assert_eq!(labels[0], "115200");
    assert_eq!(labels.len(), 8);
    assert_eq!(previews[1].as_deref(), Some("acs io -i /dev/ttyUSB1@921600"));

    replies.push(Reply::Selected(1));
    let (title, labels, previews) =
        menu(asked(prompt_io_input_binding(&command, position, &ports(), &replies)));
    assert_eq!(title, "受信フォーマット (受信ポート 1/2)");
    assert_eq!(labels[0], "raw (フォーマット指定なし)");
    assert_eq!(labels.len(), 12);
    assert_eq!(previews[0].as_deref(), Some("acs io -i /dev/ttyUSB1@921600"));
    assert_eq!(previews[11].as_deref(), Some("acs io -i /dev/ttyUSB1@921600,FORMAT"));

    replies.push(Reply::Selected(1));
    let (title, labels, previews) =
        menu(asked(prompt_io_input_binding(&command, position, &ports(), &replies)));
    assert_eq!(title, "受信表示形式 (受信ポート 1/2)");
    assert_eq!(labels.len(), 11);
    assert_eq!(previews[0].as_deref(), Some("acs io -i /dev/ttyUSB1@921600,hex,packetacv6"));

    replies.push(Reply::Selected(8));
    assert_eq!(
        done(prompt_io_input_binding(&command, position, &ports(), &replies)),
        "/dev/ttyUSB1@921600,utf8+packet,packetacv6"
    );
}

#[test]
fn an_output_may_be_typed() {
    let command = io_command();
    let position = IoPromptPortPosition::output(1, 1);
    let mut replies = vec![
        Reply::Selected(2),
        Reply::Typed(String::from("  /dev/pts/3 \n")),
        Reply::Selected(7),
        Reply::Typed(String::from("57600\n")),
        Reply::Selected(5),
        Reply::Typed(String::from("\n")),
        Reply::Selected(0),
    ];
    let (title, labels, previews) =
        menu(asked(prompt_io_output_binding(&command, position, &ports(), &replies)));
    assert_eq!(title, "送信レート (Hz)");
    assert_eq!(
        labels,
        [
            "10 Hz",
            "50 Hz",
            "100 Hz",
            "20 Hz",
            "1 Hz",
            "every 2s (0.5 Hz)",
            "every 3s (0.333333 Hz)",
            "every 5s (0.2 Hz)",
            "手入力...",
        ]
    );
    assert_eq!(previews[8], previews[0]);
    replies.push(Reply::Selected(8));
    replies.push(Reply::Typed(String::from("0.25")));
    match asked(prompt_io_output_binding(&command, position, &ports(), &replies)) {
        Question::Rate { text } => assert_eq!(text, "0.25"),
        other => panic!("unexpected question: {other:?}"),
    }
    replies.push(Reply::Rate { reading: NumberReading::Positive, value: String::from("4s") });
    assert_eq!(
        done(prompt_io_output_binding(&command, position, &ports(), &replies)),
        "/dev/pts/3@57600,hex,packetacv6,4s"
    );
}

#[test]
fn replies_that_are_no_values_are_refused() {
    let choices = [10u32, 50, 10];
    let typed = |text: &str| {
        let replies = vec![Reply::Selected(3), Reply::Typed(String::from(text))];
        prompt_u32_choice_with_preview("Hz", 100, &choices, &NoPreview, &replies, 0)
    };
    assert_eq!(done(typed("7")), 7);
    assert_eq!(done(typed(" ")), 100);
    assert_eq!(typed("0").unwrap_err(), "Hz must be greater than 0");
    assert!(typed("x").is_err());
    let outside = vec![Reply::Selected(4)];
    let (_, labels, previews) = menu(asked(prompt_u32_choice_with_preview(
        "Hz", 100, &choices, &NoPreview, &outside, 0,
    )));
    assert_eq!(labels, ["100", "10", "50", "手入力..."]);
    assert_eq!(previews, [None, None, None, None]);

    let command = io_command();
    let position = IoPromptPortPosition::input(1, 1);
    let formats = vec![
        Reply::Typed(String::from("/dev/pts/3")),
        Reply::Selected(0),
        Reply::Selected(11),
        Reply::Typed(String::from("packetacv6+hex")),
    ];
    assert_eq!(
        prompt_io_input_binding(&command, position, &Vec::new(), &formats).unwrap_err(),
        "invalid input format list: packetacv6+hex"
    );
    let empty = vec![Reply::Typed(String::from(" "))];
    assert_eq!(
        prompt_io_input_binding(&command, position, &Vec::new(), &empty).unwrap_err(),
        "empty value"
    );
    let display = vec![
        Reply::Selected(0),
        Reply::Selected(0),
        Reply::Selected(0),
        Reply::Selected(10),
        Reply::Typed(String::from("octal")),
    ];
    assert!(prompt_io_input_binding(&command, position, &ports(), &display).is_err());
}

#[test]
fn an_output_of_control_is_asked_for_with_its_format() {
    let command = control_command();
    let mut replies = vec![Reply::Selected(0), Reply::Selected(0), Reply::Selected(4)];
    let (title, labels, previews) =
        menu(asked(prompt_control_output_binding(&command, true, &ports(), &replies)));
    assert_eq!(title, "送信フォーマット");
    assert_eq!(labels, ["PacketACv6", "PacketMv1", "PacketGCv1"]);
    assert_eq!(
        previews[2].as_deref(),
        Some("acs control -p /dev/ttyUSB0@115200,hex+utf8 --format packetgcv1")
    );
    replies.push(Reply::Selected(1));
    assert_eq!(
        done(prompt_control_output_binding(&command, true, &ports(), &replies)),
        (String::from("/dev/ttyUSB0@115200,hex+utf8"), Some(String::from("packetmv1")))
    );
    assert_eq!(
        done(prompt_control_output_binding(&command, false, &ports(), &replies)),
        (String::from("/dev/ttyUSB0@115200,hex+utf8"), None)
    );
    assert_eq!(done(prompt_control_output_format(&command, &vec![Reply::Selected(2)], 0)), "packetgcv1");
    let (_, labels, previews) = menu(asked(prompt_control_output_rate(
        &command,
        OutputFormat::PacketGcV1,
        &Vec::new(),
        0,
    )));
    assert_eq!(labels, ["20", "10", "50", "100", "1", "手入力..."]);
    assert_eq!(previews[0].as_deref(), Some("acs control --rate 20"));
    let monitor = vec![
        Reply::Selected(1),
        Reply::Selected(0),
        Reply::Selected(0),
        Reply::Selected(2),
    ];
    assert_eq!(
        done(prompt_control_monitor_binding(&command, &ports(), &monitor)),
        "/dev/ttyUSB1@115200,utf8"
    );
}

#[test]
fn control_asks_only_for_what_is_open() {
    let nothing = ControlAnswers { format: None, output: None, rate_hz: None, monitors: Vec::new() };
    let parse = |words: &[&str]| {
        parse_control_args(words.iter().map(|word| String::from(*word)).collect()).unwrap()
    };
    assert!(matches!(
        resolve_control_options(parse(&["-f"]), &nothing),
        Ok(ControlResolution::AskFormat(_))
    ));
    assert!(matches!(
        resolve_control_options(parse(&[]), &nothing),
        Ok(ControlResolution::AskOutput { with_format: true, .. })
    ));
    assert!(matches!(
        resolve_control_options(parse(&["-f", "packetmv1"]), &nothing),
        Ok(ControlResolution::AskOutput { with_format: false, .. })
    ));
    assert!(matches!(
        resolve_control_options(parse(&["-p", "/dev/ttyUSB0", "-m"]), &nothing),
        Ok(ControlResolution::AskMonitor(_))
    ));
    let output = ControlAnswers {
        format: None,
        output: Some((String::from("/dev/ttyUSB0@9600"), Some(String::from("packetgcv1")))),
        rate_hz: None,
        monitors: Vec::new(),
    };
    assert!(matches!(
        resolve_control_options(parse(&[]), &output),
        Ok(ControlResolution::AskRate { format: OutputFormat::PacketGcV1, .. })
    ));
    match resolve_control_options(parse(&["-r", "5"]), &output) {
        Ok(ControlResolution::Ready(options)) => {
            assert_eq!(options.rate_hz, Some(5));
            assert_eq!(options.format.as_deref(), Some("packetgcv1"));
        }
        other => panic!("unexpected resolution: {other:?}"),
    }
}

#[test]
fn io_asks_for_inputs_before_outputs() {
    let options = || {
        parse_io_args(
            ["-o", "-i", "-i=/dev/ttyUSB5"].iter().map(|word| String::from(*word)).collect(),
            vec![(String::from("10"), NumberReading::Positive)],
        )
        .unwrap()
    };
    match resolve_io_options(options(), &Vec::new()) {
        Ok(IoResolution::Ask { position, .. }) => {
            assert_eq!(position, IoPromptPortPosition::input(1, 2));
        }
        other => panic!("unexpected resolution: {other:?}"),
    }
    let one = vec![String::from("/dev/ttyUSB1@9600")];
    match resolve_io_options(options(), &one) {
        Ok(IoResolution::Ask { position, command }) => {
            assert_eq!(position, IoPromptPortPosition::output(1, 1));
            assert_eq!(command.render(None), "acs io -i /dev/ttyUSB1@9600 -i /dev/ttyUSB5");
        }
        other => panic!("unexpected resolution: {other:?}"),
    }
    let two = vec![String::from("/dev/ttyUSB1@9600"), String::from("a=/dev/ttyUSB2,packetmv1,10")];
    match resolve_io_options(options(), &two) {
        Ok(IoResolution::Ready(options)) => {
            assert_eq!(options.inputs.len(), 2);
            assert_eq!(options.outputs[0].id, "a");
        }
        other => panic!("unexpected resolution: {other:?}"),
    }
}

#[test]
fn send_asks_without_previews() {
    let replies = vec![
        Reply::Selected(0),
        Reply::Selected(0),
        Reply::Selected(0),
        Reply::Selected(6),
        Reply::Selected(2),
    ];
    assert_eq!(
        done(acs::send_prompt::prompt_io_output_binding(&ports(), &replies)),
        "/dev/ttyUSB0@115200,roverdowngeneral,100"
    );
    let (_, labels, previews) =
        menu(asked(acs::send_prompt::prompt_io_input_binding(&ports(), &Vec::new())));
    assert_eq!(labels, ["/dev/ttyUSB0", "/dev/ttyUSB1  bluetooth", "手入力..."]);
    assert_eq!(previews, [None, None, None]);
    let options = || {
        acs::send::parse_io_args(vec![String::from("-i"), String::from("-o")]).unwrap()
    };
    assert!(matches!(
        acs::send_prompt::resolve_io_options(options(), &Vec::new()),
        Ok(SendResolution::AskInput)
    ));
    assert!(matches!(
        acs::send_prompt::resolve_io_options(options(), &vec![String::from("/dev/ttyUSB1")]),
        Ok(SendResolution::AskOutput)
    ));
}

#[test]
fn menus_follow_the_keys() {
    assert_eq!(menu_start("x", 0, 0).unwrap_err(), "x: no choices available");
    assert_eq!(menu_start("x", 3, 7), Ok(2));
    assert_eq!(menu_key(0, 3, b'\r'), MenuKey::Chosen);
    assert_eq!(menu_key(0, 3, 3), MenuKey::Interrupted);
    assert_eq!(menu_key(0, 3, b'k'), MenuKey::Moved(0));
    assert_eq!(menu_key(0, 3, b'j'), MenuKey::Moved(1));
    assert_eq!(menu_key(2, 3, b'j'), MenuKey::Moved(2));
    assert_eq!(menu_key(2, 3, 0x1b), MenuKey::Escape);
    assert_eq!(menu_key(2, 3, b'x'), MenuKey::Moved(2));
    assert_eq!(menu_escape(1, 3, b'[', b'A'), 0);
    assert_eq!(menu_escape(1, 3, b'[', b'B'), 2);
    assert_eq!(menu_escape(1, 3, b'O', b'B'), 1);
    assert_eq!(choose_from_numbered_prompt("2", 2), Ok(1));
    assert_eq!(choose_from_numbered_prompt("3", 2).unwrap_err(), "selection out of range: 3");
    assert_eq!(choose_from_numbered_prompt("0", 2).unwrap_err(), "selection out of range: 0");
    assert_eq!(choose_from_numbered_prompt("b", 2).unwrap_err(), "invalid selection: b");
    assert_eq!(entered_text(" \n", Some("1")).unwrap(), "1");
    assert_eq!(
        render_menu("p", &vec![String::from("a"), String::from("b")], 1, Some("acs io")),
        [
            "\x1b[47m\x1b[30m p\x1b[K\x1b[0m",
            "↑/↓ で選択、Enter で決定",
            "",
            "現在のコマンド:",
            "  acs io",
            "",
            "  a",
            "\x1b[48;5;218m\x1b[30m  b\x1b[K\x1b[0m",
        ]
    );
    assert_eq!(
        render_plain_menu("p", &vec![String::from("a"), String::from("b")], 1),
        ["p", "↑/↓ で選択、Enter で決定", "  a", "\x1b[48;5;218m\x1b[30m> b\x1b[0m"]
    );
    assert_eq!(
        render_plain_menu("p", &vec![String::from("a")], 3),
        ["p", "↑/↓ で選択、Enter で決定", "  a"]
    );
    let ten = (0..10).map(|n| format!("c{n}")).collect::<Vec<_>>();
    let numbered = render_numbered_menu("p", &ten, Some("acs io"));
    assert_eq!(numbered[0], "p");
    assert_eq!(numbered[1], "  1. c0");
    assert_eq!(numbered[10], "  10. c9");
    assert_eq!(numbered[11..], ["現在のコマンド:", "  acs io"]);
    assert_eq!(render_numbered_menu("p", &vec![String::from("a")], None), ["p", "  1. a"]);
    assert_eq!(format_serial_port_choice(1, &ports()[1]), "[1] /dev/ttyUSB1  bluetooth");
    let device = DeviceInfo {
        transport: String::from("bluetooth"),
        vendor_id: 1,
        product_id: 2,
        interface_number: 0,
        product_name: Some(String::from("pad")),
        path: String::from("p"),
    };
    assert_eq!(
        format_controller_choice(0, &device),
        "[0] transport=bluetooth vid=0x0001 pid=0x0002 interface=0 product=pad path=p"
    );
}

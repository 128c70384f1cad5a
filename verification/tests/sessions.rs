use acs::commands::DeviceInfo;
use acs::control::{parse_control_args, ControlRuntimeOptions};
use acs::control_prompt::{resolve_control_options, ControlAnswers, ControlResolution};
use acs::control_settings::{
    build_settings, dispatch_control_report, record_control_write, ControlSending,
    ControlSettings, ControllerPoll, Dispatch,
};
use acs::display::PortDisplayMode;
use acs::format::OutputFormat;
use acs::observe::{ObservedInput, PacketDecoding, PacketDisplayQueue, PacketRateTracker};
use acs::outputs::{failed_run, realign_send_time, OutputRun};
use acs::packet::DecodedPacket;
use acs::runtime::ObservedInputs;
use acs::session::ObservedInputSpec;
use acs::dashboard::{error_status, input_status, output_status, Dashboard};
use acs::send_run::{OutputChange, SendRun};
use acs::states::{format_monitor_formats, ControlRuntimeState, SendRuntimeState};
use acs::ufv2::DisplayedPacket;

const MS: u64 = 1_000_000;

fn spec(id: &str, format: OutputFormat) -> ObservedInputSpec {
    ObservedInputSpec {
        input_id: String::from(id),
        port: format!("/dev/{id}"),
        formats: vec![format],
        per_format_display_modes: None,
        preserve_line_breaks: false,
    }
}

fn sample(format: OutputFormat) -> Vec<u8> {
    format.encode_dummy_payload().unwrap()
}

#[test]
fn inputs_take_turns_for_the_display() {
    let mut inputs = ObservedInputs::new(
        &vec![spec("b", OutputFormat::PacketMv1), spec("a", OutputFormat::PacketAcV6)],
        true,
    );
    let ac = sample(OutputFormat::PacketAcV6).repeat(300);
    let record = inputs.handle_input("a", &ac, &Vec::new(), 0).expect("packets");
    assert_eq!(record.port, "/dev/a");
    assert_eq!(record.batch.valid_packet_count, 300);
    assert_eq!(record.batch.total(OutputFormat::PacketAcV6), (300 * 39, 300));
    inputs.handle_input("b", &sample(OutputFormat::PacketMv1).repeat(40), &Vec::new(), 0).expect("packets");
    assert!(inputs.handle_input("c", &ac, &Vec::new(), 0).is_none());
    assert!(inputs.handle_input("b", b"noise", &Vec::new(), 0).is_none());

    let first = inputs.flush_display_queues();
    let order = first.iter().map(|batch| (batch.port.as_str(), batch.entries.len())).collect::<Vec<_>>();
    assert_eq!(
        order,
        [
            ("/dev/a", 32),
            ("/dev/b", 32),
            ("/dev/a", 32),
            ("/dev/b", 8),
            ("/dev/a", 32),
            ("/dev/a", 32),
            ("/dev/a", 32),
            ("/dev/a", 32),
            ("/dev/a", 24),
        ]
    );
    let second = inputs.flush_display_queues();
    assert_eq!(second.iter().map(|batch| batch.entries.len()).sum::<usize>(), 300 - 216);
    assert!(inputs.flush_display_queues().is_empty());
}

fn ascii(text: &[u8]) -> DisplayedPacket {
    DisplayedPacket {
        bytes: text.to_vec(),
        display_mode: Some(PortDisplayMode::Ascii),
        preserve_line_breaks: true,
    }
}

#[test]
fn what_decoding_gave_is_shown() {
    let mut inputs = ObservedInputs::new(
        &vec![ObservedInputSpec {
            input_id: String::from("a"),
            port: String::from("/dev/a"),
            formats: vec![OutputFormat::PacketMv1, OutputFormat::PacketAcV6],
            per_format_display_modes: Some(vec![(OutputFormat::PacketMv1, PortDisplayMode::Hex)]),
            preserve_line_breaks: false,
        }],
        true,
    );
    let (m, ac) = (sample(OutputFormat::PacketMv1), sample(OutputFormat::PacketAcV6));
    assert!(inputs.handle_input("a", &m[..3], &Vec::new(), 0).is_none());
    let rest = [&m[3..], &ac[..]].concat();
    let completed = inputs.packets_completed_by("a", &rest);
    let found = completed.iter().map(|packet| (packet.format, packet.bytes.clone())).collect::<Vec<_>>();
    assert_eq!(found, [(OutputFormat::PacketMv1, m.clone()), (OutputFormat::PacketAcV6, ac.clone())]);
    assert!(inputs.packets_completed_by("b", &rest).is_empty());

    let mut outcomes = vec![Ok(Some(b"x=1\n".to_vec())), Err(String::from("bad length"))].into_iter();
    let mut decodings = Vec::new();
    for packet in completed {
        decodings.push(PacketDecoding { packet, decoded: outcomes.next().unwrap() });
    }
    let record = inputs.handle_input("a", &rest, &decodings, 1).expect("packets");
    assert_eq!(record.batch.valid_packet_count, 2);
    let flushed = inputs.flush_display_queues();
    assert_eq!(flushed.len(), 1);
    assert_eq!(flushed[0].entries, [ascii(b"x=1\n"), ascii(b"PacketACv6 decode error: bad length")]);

    inputs.handle_input("a", &m, &Vec::new(), 2).expect("packets");
    assert_eq!(
        inputs.flush_display_queues()[0].entries,
        [DisplayedPacket {
            bytes: m,
            display_mode: Some(PortDisplayMode::Hex),
            preserve_line_breaks: false,
        }]
    );
}

#[test]
fn a_packet_is_shown_by_the_outcome_for_it() {
    let mut input = ObservedInput::new(
        String::from("a"),
        String::from("/dev/a"),
        vec![OutputFormat::PacketMv1, OutputFormat::PacketUfV2],
        None,
        true,
    );
    let bytes = sample(OutputFormat::PacketMv1);
    let packet = DecodedPacket { format: OutputFormat::PacketMv1, bytes: bytes.clone() };
    let text = Ok(Some(b"text".to_vec()));
    assert_eq!(input.display_entries_for_packet(&packet, &text, 0), [ascii(b"text")]);
    assert_eq!(
        input.display_entries_for_packet(&packet, &Err(String::from("no")), 0),
        [ascii(b"PacketMv1 decode error: no")]
    );
    assert_eq!(
        input.display_entries_for_packet(&packet, &Ok(None), 0),
        [DisplayedPacket { bytes: bytes.clone(), display_mode: None, preserve_line_breaks: true }]
    );

    let other = DecodedPacket { format: OutputFormat::PacketMv1, bytes: vec![1] };
    let decodings = vec![
        PacketDecoding { packet: other, decoded: Err(String::from("other")) },
        PacketDecoding { packet, decoded: text },
    ];
    assert_eq!(input.observe(&bytes, &decodings, 0).valid_packet_count, 1);
    assert_eq!(input.flush_display_batch(9), [ascii(b"text")]);

    let chunk = DecodedPacket { format: OutputFormat::PacketUfV2, bytes: vec![0] };
    let shown = input.display_entries_for_packet(&chunk, &Ok(Some(b"unused".to_vec())), 0);
    assert_eq!(shown.len(), 1);
    assert!(shown[0].bytes.starts_with(b"UFv2 decode error: "));
}

#[test]
fn packets_are_counted_for_a_second() {
    let mut inputs = ObservedInputs::new(&vec![spec("a", OutputFormat::PacketMv1)], true);
    inputs.handle_input("a", &sample(OutputFormat::PacketMv1).repeat(3), &Vec::new(), 1_000 * MS);
    assert_eq!(inputs.rx_rate_hz("/dev/a", OutputFormat::PacketMv1, 1_500 * MS), Some(3));
    assert_eq!(inputs.rx_rate_hz("/dev/a", OutputFormat::PacketMv1, 2_001 * MS), Some(0));
    assert_eq!(inputs.rx_rate_hz("/dev/a", OutputFormat::PacketAcV6, 2_001 * MS), None);
    assert_eq!(inputs.rx_rate_hz("/dev/b", OutputFormat::PacketMv1, 2_001 * MS), None);

    let mut tracker = PacketRateTracker::new();
    tracker.record(0);
    tracker.record(900 * MS);
    assert_eq!(tracker.packets_per_second(1_000 * MS), 2);
    assert_eq!(tracker.packets_per_second(1_000 * MS + 1), 1);
}

#[test]
fn a_full_queue_drops_the_oldest() {
    let mut queue = PacketDisplayQueue::new();
    for n in 0..65_540u32 {
        queue.enqueue(n.to_le_bytes().to_vec(), None, false);
    }
    assert_eq!(queue.pending(), 65_536);
    assert_eq!(queue.front().expect("entry").bytes, 4u32.to_le_bytes().to_vec());
    assert_eq!(queue.flush_input_batch(2).len(), 2);
    assert_eq!(queue.front().expect("entry").bytes, 6u32.to_le_bytes().to_vec());
}

fn control_settings(words: &[&str], monitors: usize) -> ControlSettings {
    let args = words.iter().map(|word| String::from(*word)).collect();
    let answers = ControlAnswers { format: None, output: None, rate_hz: None, monitors: Vec::new() };
    let options: ControlRuntimeOptions =
        match resolve_control_options(parse_control_args(args).unwrap(), &answers) {
            Ok(ControlResolution::Ready(options)) => options,
            other => panic!("unexpected resolution: {other:?}"),
        };
    let found = (0..monitors).map(|_| Ok(String::from("/dev/ttyUSB1"))).collect();
    build_settings(
        options,
        &Ok(String::from("/dev/ttyUSB0")),
        &found,
        Ok(1),
        Ok(0),
        Some("/home/user"),
    )
    .unwrap()
}

#[test]
fn control_shows_what_it_sends_and_hears() {
    let settings = control_settings(
        &["-p", "/dev/ttyUSB0", "-m", "/dev/ttyUSB1@9600,packetmv1", "--no-log"],
        1,
    );
    let device = DeviceInfo {
        transport: String::from("usb"),
        vendor_id: 0,
        product_id: 0,
        interface_number: 0,
        product_name: None,
        path: String::from("/dev/hidraw0"),
    };
    let started = 10_000 * MS;
    let mut state = ControlRuntimeState::new(&settings, &device, String::new(), started);
    let setups = state.configure_session();
    assert_eq!(setups.len(), 1);
    assert_eq!(setups[0].port, "/dev/ttyUSB1");
    assert_eq!(setups[0].known_formats, ["PacketMv1"]);
    let header = state.on_tick(started).header.expect("first header");
    assert_eq!(
        header,
        [
            "controller: unknown controller (/dev/hidraw0)",
            "output: /dev/ttyUSB0 @ 115200 baud, format=packetacv6, tx_target=100 Hz",
            "monitor: /dev/ttyUSB1 @ 9600 baud, rx_format=packetmv1, packetmv1=0.0 Hz",
            "log: disabled (--no-log)",
            "Space で表示を一時停止/再開  R で READ USB  Ctrl-C で終了",
        ]
    );
    let packet = sample(OutputFormat::PacketMv1);
    assert!(state.handle_input("/dev/ttyUSB1", &packet, &Vec::new(), started + MS).is_some());
    let early = state.on_tick(started + 100 * MS);
    assert!(early.header.is_none());
    assert_eq!(early.flushed.len(), 1);
    assert_eq!(early.flushed[0].entries[0].bytes, packet);
    let later = state.on_tick(started + 200 * MS).header.expect("changed header");
    assert!(later[2].ends_with("packetmv1=1.0 Hz"));
    assert!(state.on_tick(started + 400 * MS).header.is_none());
    assert_eq!(format_monitor_formats(&Vec::new()), "raw");
}

#[test]
fn send_shows_formats_that_it_does_not_send() {
    let args = [
        "-o",
        "main=/dev/ttyUSB0,packetacv6,20",
        "--monitor",
        "/dev/ttyUSB0,packetacv6+packetjfv1",
    ];
    let options =
        acs::send::parse_send_args(args.iter().map(|word| String::from(*word)).collect()).unwrap();
    let settings = acs::send_settings::build_settings(
        options,
        &Ok(String::from("/dev/ttyUSB0")),
        &vec![Ok(String::from("/dev/ttyUSB0"))],
        &vec![Ok(String::from("/dev/ttyUSB0"))],
        Some("/home/user"),
    )
    .unwrap();
    let mut state = SendRuntimeState::new(&settings, String::from("/tmp/x.log"), 10_000 * MS);
    assert_eq!(
        state.build_header_lines(10_000 * MS),
        [
            "output[main]: /dev/ttyUSB0 @ 115200 baud, format=packetacv6, tx_target=20 Hz, rx=0.0 Hz, payload=39 bytes",
            "input[/dev/ttyUSB0:packetjfv1]: rx=0.0 Hz",
            "log: /tmp/x.log",
            "Space で表示を一時停止/再開  Ctrl-C で終了",
        ]
    );
}

#[test]
fn a_run_fails_only_where_nothing_went_out() {
    let mut a = OutputRun::new(String::from("a"), 0, 10 * MS);
    let mut b = OutputRun::new(String::from("b"), 0, 10 * MS);
    assert!(a.due(0));
    assert!(!a.record(Err(String::from("gone"))));
    a.advance();
    assert!(!a.due(5 * MS));
    assert!(!b.record(Err(String::from("busy"))));
    let mut runs = vec![b, a];
    assert_eq!(failed_run(&runs).as_deref(), Some("gone"));
    assert!(runs[0].record(Ok(())));
    assert_eq!(failed_run(&runs), None);
    assert_eq!(runs[0].sent_count, 1);
}

#[test]
fn schedules_skip_what_they_missed() {
    assert_eq!(realign_send_time(0, 10, 9), 0);
    assert_eq!(realign_send_time(0, 10, 10), 10);
    assert_eq!(realign_send_time(0, 10, 55), 50);
    assert_eq!(realign_send_time(0, 0, 55), 0);
    assert_eq!(realign_send_time(60, 10, 55), 60);
}

#[test]
fn a_read_request_reaches_a_report() {
    let mut sending = ControlSending::new(0, 100 * MS);
    assert_eq!(sending.tick(0, true, ControllerPoll::Nothing), None);
    assert_eq!(sending.tick(100 * MS, false, ControllerPoll::Report), Some(true));
    assert_eq!(sending.tick(200 * MS, false, ControllerPoll::Nothing), Some(true));
    assert_eq!(sending.tick(300 * MS, false, ControllerPoll::Nothing), Some(false));
    assert_eq!(sending.tick(400 * MS, false, ControllerPoll::Failed), None);
}

#[test]
fn reports_that_do_not_convert_are_passed_over() {
    let dispatch = |bytes: &[u8]| Dispatch { output_id: String::from("main"), bytes: bytes.to_vec() };
    let sent = dispatch_control_report(
        Ok(vec![dispatch(&[1, 2])]),
        OutputFormat::PacketAcV6,
        true,
    );
    assert_eq!(sent.writes.len(), 1);
    assert!(sent.read_usb);
    let other = dispatch_control_report(Ok(vec![dispatch(&[1])]), OutputFormat::PacketMv1, true);
    assert!(!other.read_usb);
    let ignored = dispatch_control_report(
        Err(String::from("failed to convert DS4 report: short")),
        OutputFormat::PacketAcV6,
        false,
    );
    assert!(ignored.writes.is_empty() && ignored.status.is_none());
    let failed =
        dispatch_control_report(Err(String::from("no route")), OutputFormat::PacketAcV6, false);
    assert_eq!(failed.status.as_deref(), Some("pipeline error: no route"));
}

#[test]
fn writes_of_reports_set_and_clear_errors() {
    let write = Dispatch { output_id: String::from("main"), bytes: vec![1] };
    assert_eq!(
        record_control_write(&write, Err(String::from("gone"))),
        (String::from("main"), OutputChange::ShowError(String::from("gone")))
    );
    assert_eq!(
        record_control_write(&write, Ok(())),
        (String::from("main"), OutputChange::ClearError)
    );
}

#[test]
fn outputs_are_due_once_per_period() {
    let ids = vec![String::from("a"), String::from("b")];
    let mut run = SendRun::new(&ids, &vec![10 * MS, 30 * MS], 0);
    assert_eq!(run.due(0), [0, 1]);
    assert!(run.due(0).is_empty());
    assert_eq!(run.due(10 * MS), [0]);
    assert_eq!(run.due(55 * MS), [0, 1]);
    assert!(run.due(59 * MS).is_empty());
    assert_eq!(run.due(60 * MS), [0, 1]);

    assert_eq!(
        run.record(1, Err(String::from("gone"))),
        OutputChange::ShowError(String::from("gone"))
    );
    assert_eq!(run.finish(), Err(String::from("gone")));
    assert_eq!(run.record(1, Ok(())), OutputChange::ClearError);
    assert_eq!(run.record(1, Ok(())), OutputChange::Nothing);
    assert_eq!(run.finish(), Ok(()));
    assert_eq!((run.sent_count(0), run.sent_count(1)), (0, 2));
}

#[test]
fn a_talk_counts_what_was_typed() {
    let mut run = SendRun::new(&vec![String::from("main")], &vec![0], 0);
    assert_eq!(run.finish_talk(0), Ok(()));
    run.take_message();
    run.record(0, Err(String::from("gone")));
    assert_eq!(run.message_count(), 1);
    assert_eq!(run.finish_talk(0), Ok(()));
}

#[test]
fn a_dashboard_pauses_and_resumes() {
    let mut dashboard = Dashboard::new();
    assert_eq!(dashboard.toggle_pause(), "paused (space: resume)");
    assert!(dashboard.paused);
    assert_eq!(dashboard.toggle_pause(), "resumed");
    assert_eq!(input_status(9600), "baud=9600");
    assert_eq!(output_status(9600, "bytes"), "baud=9600 format=bytes");
    assert_eq!(error_status("gone"), "error: gone");
}

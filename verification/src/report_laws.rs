//! Laws of the lines that report a run: every figure stands behind the name that it goes by.
use crate::format::format_name;
use crate::mock_state::{backlog_line, mock_head, mock_header, rx_result_text, MockReport, RxCounts};
use crate::results::{
    command_line, command_lines, io_ended, log_entry, message_lines, packets_text, saved_lines,
    send_ended, sent_lines, write_lines, OutputResultModel,
};
use crate::rtt::{MeasurementOutcome, TraceSettings};
use crate::rtt_report::{
    duration_text, frame_text, probe_part, round_name, session_part, spec_text, summary_part,
    summary_time, three_digits, trace_chunk, trace_heading, TraceKind, WireDirection,
};
use crate::rtt_session::{
    collision_text, connect_timeout_text, cross_check_text, measurement_text, mismatch_text,
    nonce_text, not_paired_text, pair_lines, peer_text, port_text, probe_settings_text,
    result_timeout_text, round_timeout_text, several_peers_text, single_lines, status_text,
    sync_timeout_text, LocalPairRunResult, PeerRunModel, TimeTexts,
};
use crate::rtt_wire::{
    FrameKind, FrameModel, HelloWire, MeasurementSpecWire, MeasurementSummaryWire,
};
use crate::text::{decimal, group_holds, hex_fixed, holds, is_digit, lemma_decimal, number};
use crate::text_laws::{law_numbers, lemma_zero_before};
use crate::xbee_mock::{mode_name, role_name, XbeeTestFrameKind};
use crate::xbee_mock_driver::port_at;
use crate::xbee_mock_plan::MockSettingsModel;
use vstd::prelude::*;

verus! {

broadcast use group_holds;

// ---------------------------------------------------------------------------
// Outputs
// ---------------------------------------------------------------------------

/// The line of an output tells how many packets of how many bytes went to which port at which
/// baud rate, in which format and to which target.
pub proof fn law_packets_line(o: OutputResultModel)
    ensures
        ({
            let line = packets_text(o);
            &&& holds(line, decimal(o.sent_count as nat) + " packets ("@)
            &&& holds(line, " packets ("@ + decimal(o.payload_len))
            &&& holds(line, decimal(o.payload_len))
            &&& holds(line, o.port + " @ "@ + decimal(o.baud_rate as nat) + " baud"@)
            &&& holds(line, ", format="@ + format_name(o.format))
            &&& holds(line, ", target="@ + o.target)
        }),
{
}

/// One output is told of in one line; several are told of in a line each, under their names,
/// below a line that counts them.
pub proof fn law_sent_lines(outputs: Seq<OutputResultModel>, i: int)
    ensures
        outputs.len() == 1 ==> sent_lines(outputs) == seq!["sent "@ + packets_text(outputs[0])],
        outputs.len() != 1 ==> {
            &&& sent_lines(outputs).len() == outputs.len() + 1
            &&& holds(sent_lines(outputs)[0], decimal(outputs.len()))
            &&& 0 <= i < outputs.len() ==> sent_lines(outputs)[i + 1] == "  "@ + outputs[i].id
                + ": "@ + packets_text(outputs[i])
        },
{
}

/// The messages of a talk are counted, with the port where there is one, else with the writes to
/// each port.
pub proof fn law_message_lines(count: u64, outputs: Seq<OutputResultModel>, i: int)
    ensures
        ({
            let lines = message_lines(count, outputs);
            &&& holds(lines[0], "sent "@ + decimal(count as nat))
            &&& outputs.len() == 1 ==> lines.len() == 1 && holds(
                lines[0],
                outputs[0].port + " @ "@ + decimal(outputs[0].baud_rate as nat) + " baud"@,
            )
            &&& outputs.len() != 1 ==> lines.len() == outputs.len() + 1 && holds(
                lines[0],
                decimal(outputs.len()),
            )
            &&& outputs.len() != 1 && 0 <= i < outputs.len() ==> {
                let line = write_lines(outputs)[i];
                &&& lines[i + 1] == line
                &&& holds(line, outputs[i].id + ": "@)
                &&& holds(line, ": "@ + decimal(outputs[i].sent_count as nat))
                &&& holds(
                    line,
                    outputs[i].port + " @ "@ + decimal(outputs[i].baud_rate as nat) + " baud"@,
                )
            }
        }),
{
    if outputs.len() != 1 && 0 <= i < outputs.len() {
        assert(message_lines(count, outputs)[i + 1] == write_lines(outputs)[i]);
    }
}

/// Where the log is saved is told exactly where one is kept.
pub proof fn law_saved_lines(logging_enabled: bool, log_path: Seq<char>)
    ensures
        saved_lines(logging_enabled, log_path).len() == if logging_enabled {
            1nat
        } else {
            0
        },
        logging_enabled ==> holds(saved_lines(logging_enabled, log_path)[0], log_path),
{
}

/// An entry of the log tells when, what kind, which port, and the bytes and the message that
/// there are.
pub proof fn law_log_entry(
    at: Seq<char>,
    kind: Seq<char>,
    port: Seq<char>,
    bytes: Option<(Seq<char>, Seq<char>)>,
    message: Option<Seq<char>>,
)
    ensures
        ({
            let line = log_entry(at, kind, port, bytes, message);
            &&& holds(line, "ts="@ + at)
            &&& holds(line, " kind="@ + kind)
            &&& holds(line, " port="@ + port)
            &&& bytes matches Some(b) ==> holds(line, " hex="@ + b.0) && holds(
                line,
                " ascii="@ + b.1,
            )
            &&& message matches Some(message) ==> holds(line, " message="@ + message)
        }),
{
}

// ---------------------------------------------------------------------------
// Round trips
// ---------------------------------------------------------------------------

/// A time is written in milliseconds with three decimals: the digits without the point are its
/// microseconds.
pub proof fn law_duration_text(us: u64)
    ensures
        ({
            let whole = (us / 1000) as nat;
            let thousandths = three_digits((us % 1000) as nat);
            &&& duration_text(Some(us)) == decimal(whole) + "."@ + thousandths + " ms"@
            &&& thousandths.len() == 3
            &&& number(thousandths) is Some
            &&& whole * 1000 + number(thousandths)->0 == us
            &&& duration_text(None) == "n/a"@
        }),
{
    let n = (us % 1000) as nat;
    reveal_strlit("00");
    reveal_strlit("0");
    reveal_strlit("");
    lemma_decimal(n);
    law_numbers(Seq::empty(), n, n);
    if n < 10 {
        assert(decimal(n).len() == 1);
        let once = seq!['0'] + decimal(n);
        assert(three_digits(n) =~= seq!['0'] + once);
        lemma_zero_is_nothing(once, n);
    } else if n < 100 {
        assert(decimal(n / 10).len() == 1);
        assert(three_digits(n) =~= seq!['0'] + decimal(n));
    } else {
        assert(decimal(n / 10 / 10).len() == 1);
        assert(decimal(n / 10).len() == 2);
        assert(three_digits(n) =~= decimal(n));
    }
}

proof fn lemma_zero_is_nothing(s: Seq<char>, n: nat)
    requires
        number(s) == Some(n),
        s.len() > 0,
        s[0] == '0',
    ensures
        number(seq!['0'] + s) == Some(n),
{
    let all = seq!['0'] + s;
    assert forall|i: int| 0 <= i < all.len() implies is_digit(#[trigger] all[i]) by {
        if i > 0 {
            assert(is_digit(s[i - 1]));
        }
    }
    lemma_zero_before(s);
}

/// The line of a round names its direction, its times, how many of how many probes were answered,
/// and how many were lost or came back changed.
pub proof fn law_measurement_line(label: Seq<char>, o: MeasurementOutcome, times: TimeTexts)
    ensures
        ({
            let line = measurement_text(label, o, times);
            &&& holds(line, label)
            &&& holds(line, " avg="@ + times.0)
            &&& holds(line, " min="@ + times.1)
            &&& holds(line, " max="@ + times.2)
            &&& holds(line, " success="@ + decimal(o.success_count as nat))
            &&& holds(line, "/"@ + decimal(o.probe_count as nat))
            &&& holds(line, " timeout="@ + decimal(o.timeout_count as nat))
            &&& holds(line, " mismatch="@ + decimal(o.mismatch_count as nat))
        }),
{
    reveal(measurement_text);
}

/// The lines of one peer tell whether all went well, of the port and both nonces, of the settings,
/// and of both rounds: what was measured here first.
pub proof fn law_single_lines(r: PeerRunModel, outbound: TimeTexts, inbound: TimeTexts)
    ensures
        ({
            let lines = single_lines(r, outbound, inbound);
            &&& lines.len() == 6
            &&& holds(
                lines[0],
                "status="@ + (if r.outbound.clean() && r.inbound.clean() {
                    "ok"@
                } else {
                    "degraded"@
                }),
            )
            &&& holds(lines[0], " session=0x"@ + hex_fixed(r.session_id as nat, 8))
            &&& holds(lines[1], "local"@ + "="@ + r.local_port.port)
            &&& holds(lines[1], "@"@ + decimal(r.local_port.baud_rate as nat))
            &&& holds(lines[1], " nonce="@ + nonce_text(r.local_nonce))
            &&& holds(lines[2], "peer nonce="@ + nonce_text(r.peer_nonce))
            &&& holds(
                lines[2],
                " first-initiator="@ + (if r.first_initiator_nonce == r.local_nonce {
                    "local"@
                } else {
                    "peer"@
                }),
            )
            &&& holds(lines[3], "probe payload="@ + decimal(r.payload_size as nat))
            &&& holds(lines[3], "B count="@ + decimal(r.probe_count as nat))
            &&& holds(lines[3], " interval="@ + decimal(r.interval_ms as nat))
            &&& holds(lines[3], "ms probe-timeout="@ + decimal(r.probe_timeout_ms as nat))
            &&& holds(lines[3], "ms connect-timeout="@ + decimal(r.connect_timeout_ms as nat))
            &&& holds(
                lines[3],
                "ms frame-overhead=15B round-trip-wire="@ + decimal(
                    ((r.payload_size + 15) * 2) as nat,
                ),
            )
            &&& lines[4] == measurement_text("local->peer"@, r.outbound, outbound)
            &&& lines[5] == measurement_text("peer->local"@, r.inbound, inbound)
        }),
{
    reveal(status_text);
    reveal(port_text);
    reveal(peer_text);
    reveal(probe_settings_text);
}

/// The lines of a pair tell whether all went well and both sides agree, of both ports, of the
/// settings, and of both directions.
pub proof fn law_pair_lines(r: LocalPairRunResult, forth: TimeTexts, back: TimeTexts)
    ensures
        ({
            let lines = pair_lines(r, forth, back);
            &&& lines.len() == 7
            &&& holds(
                lines[0],
                "status="@ + (if r.first_to_second.clean() && r.second_to_first.clean()
                    && r.summaries_match {
                    "ok"@
                } else {
                    "degraded"@
                }),
            )
            &&& holds(lines[0], " session=0x"@ + hex_fixed(r.session_id as nat, 8))
            &&& holds(lines[1], "port[0]"@ + "="@ + r.first_port.port@)
            &&& holds(lines[1], "@"@ + decimal(r.first_port.baud_rate as nat))
            &&& holds(lines[1], " nonce="@ + nonce_text(r.first_nonce))
            &&& holds(lines[2], "port[1]"@ + "="@ + r.second_port.port@)
            &&& holds(lines[2], "@"@ + decimal(r.second_port.baud_rate as nat))
            &&& holds(lines[2], " nonce="@ + nonce_text(r.second_nonce))
            &&& holds(
                lines[3],
                "first-initiator="@ + (if r.first_initiator_nonce == r.first_nonce {
                    "port[0]"@
                } else {
                    "port[1]"@
                }),
            )
            &&& holds(
                lines[3],
                " cross-check="@ + (if r.summaries_match {
                    "ok"@
                } else {
                    "mismatch"@
                }),
            )
            &&& holds(lines[4], "probe payload="@ + decimal(r.payload_size as nat))
            &&& holds(lines[4], "B count="@ + decimal(r.probe_count as nat))
            &&& holds(lines[4], " interval="@ + decimal(r.interval_ms as nat))
            &&& holds(lines[4], "ms probe-timeout="@ + decimal(r.probe_timeout_ms as nat))
            &&& holds(lines[4], "ms connect-timeout="@ + decimal(r.connect_timeout_ms as nat))
            &&& lines[5] == measurement_text(
                r.first_port.port@ + "->"@ + r.second_port.port@,
                r.first_to_second,
                forth,
            )
            &&& lines[6] == measurement_text(
                r.second_port.port@ + "->"@ + r.first_port.port@,
                r.second_to_first,
                back,
            )
        }),
{
    reveal(status_text);
    reveal(port_text);
    reveal(cross_check_text);
    reveal(probe_settings_text);
}

/// The summary of a result names each count and each time.
pub proof fn law_summary_text(s: MeasurementSummaryWire)
    ensures
        ({
            let text = summary_part(s);
            &&& holds(text, "payload="@ + decimal(s.payload_size as nat))
            &&& holds(text, "B, success="@ + decimal(s.success_count as nat))
            &&& holds(text, "/"@ + decimal(s.probe_count as nat))
            &&& holds(text, ", timeout="@ + decimal(s.timeout_count as nat))
            &&& holds(text, ", mismatch="@ + decimal(s.mismatch_count as nat))
            &&& holds(text, ", avg="@ + summary_time(s.mean_rtt_us))
            &&& holds(text, ", min="@ + summary_time(s.min_rtt_us))
            &&& holds(text, ", max="@ + summary_time(s.max_rtt_us))
            &&& s.mean_rtt_us > 0 ==> summary_time(s.mean_rtt_us) == duration_text(
                Some(s.mean_rtt_us as u64),
            )
            &&& summary_time(0) == "n/a"@
        }),
{
    reveal(summary_part);
}

/// What is agreed on is written with all its values.
pub proof fn law_spec_text(spec: MeasurementSpecWire)
    ensures
        holds(spec_text(spec), "payload="@ + decimal(spec.payload_size as nat)),
        holds(spec_text(spec), "B,count="@ + decimal(spec.probe_count as nat)),
        holds(spec_text(spec), ",interval="@ + decimal(spec.interval_ms as nat)),
        holds(spec_text(spec), "ms,probe-timeout="@ + decimal(spec.probe_timeout_ms as nat)),
{
    reveal(spec_text);
}

/// A trace of the protocol tells of a frame by the name of its kind and by what it carries: the
/// session and the round, the number and the length of a probe, and what a greeting, a start or a
/// result says.
pub proof fn law_frame_text(
    f: FrameModel,
    hello: HelloWire,
    spec: MeasurementSpecWire,
    summary: MeasurementSummaryWire,
)
    ensures
        f.kind == FrameKind::Hello && f.payload == hello.wire() ==> holds(
            frame_text(f),
            "nonce=0x"@ + hex_fixed(hello.nonce as nat, 16),
        ) && holds(frame_text(f), spec_text(hello.spec)) && holds(frame_text(f), "HELLO("@),
        f.kind == FrameKind::MeasureStart ==> holds(frame_text(f), "MEASURE_START("@),
        f.kind == FrameKind::MeasureStart && f.payload == spec.wire() ==> holds(
            frame_text(f),
            spec_text(spec),
        ),
        f.kind == FrameKind::Result ==> holds(frame_text(f), "RESULT("@),
        f.kind == FrameKind::Result && f.payload == summary.wire() ==> holds(
            frame_text(f),
            summary_part(summary),
        ),
        f.kind == FrameKind::Probe ==> holds(frame_text(f), "PROBE("@),
        f.kind == FrameKind::ProbeEcho ==> holds(frame_text(f), "PROBE_ECHO("@),
        f.kind == FrameKind::MeasureAck ==> holds(frame_text(f), "MEASURE_ACK("@),
        f.kind == FrameKind::ResultAck ==> holds(frame_text(f), "RESULT_ACK("@),
        f.kind == FrameKind::HelloAck ==> holds(frame_text(f), "HELLO_ACK("@),
        f.kind == FrameKind::Probe || f.kind == FrameKind::ProbeEcho ==> holds(
            frame_text(f),
            ", seq="@ + decimal(f.seq as nat),
        ) && holds(frame_text(f), ", bytes="@ + decimal(f.payload.len())),
        f.kind != FrameKind::Hello && f.kind != FrameKind::HelloAck ==> holds(
            frame_text(f),
            "session=0x"@ + hex_fixed(f.session_id as nat, 8),
        ) && (f.round_id == 1 ==> holds(frame_text(f), ", round="@ + "round-1"@)) && (f.round_id == 2
            ==> holds(frame_text(f), ", round="@ + "round-2"@)),
{
    reveal(session_part);
    reveal(probe_part);
    hello.law_round_trip();
    spec.law_round_trip();
    summary.law_round_trip();
}

/// A trace marks what is sent and what is received, by color and by arrow, and what it shows.
pub proof fn law_trace_chunk(
    kind: TraceKind,
    label: Seq<char>,
    d: WireDirection,
    body: Seq<char>,
)
    ensures
        ({
            let text = trace_chunk(kind, Some(label), d, body);
            &&& holds(text, "] "@ + body)
            &&& holds(text, label + (if d == WireDirection::Tx { ">"@ } else { "<"@ }))
            &&& holds(
                text,
                (if d == WireDirection::Tx { "\u{1b}[34m"@ } else { "\u{1b}[31m"@ }) + (if kind
                    == TraceKind::Wire { "wire"@ } else { "proto"@ }),
            )
        }),
{
    reveal(trace_chunk);
}

/// What ends a session with an error names the port.
pub proof fn law_errors_name_the_port(
    port: Seq<char>,
    nonce: u64,
    other: u64,
    local: MeasurementSpecWire,
    peer: MeasurementSpecWire,
    what: Seq<char>,
)
    ensures
        holds(collision_text(port, nonce), port) && holds(
            collision_text(port, nonce),
            nonce_text(nonce),
        ),
        holds(several_peers_text(port, nonce, other), port) && holds(
            several_peers_text(port, nonce, other),
            " ("@ + nonce_text(nonce),
        ) && holds(several_peers_text(port, nonce, other), " and "@ + nonce_text(other)),
        holds(mismatch_text(what, port, local, peer), port) && holds(
            mismatch_text(what, port, local, peer),
            ": local="@ + spec_text(local),
        ) && holds(mismatch_text(what, port, local, peer), " peer="@ + spec_text(peer)),
        holds(connect_timeout_text(port), port),
{
    reveal(collision_text);
    reveal(several_peers_text);
    reveal(mismatch_text);
    reveal(connect_timeout_text);
}

// ---------------------------------------------------------------------------
// Mocks
// ---------------------------------------------------------------------------

/// A lane that is followed tells its matched, missing, invalid, unexpected and lost packets, and
/// one that is not how many were valid, invalid and lost.
pub proof fn law_rx_result(kind: XbeeTestFrameKind, followed: bool, c: RxCounts)
    ensures
        ({
            let line = rx_result_text(kind, followed, c);
            &&& followed ==> {
                &&& holds(line, ": matched="@ + decimal(c.matched as nat))
                &&& holds(line, " err="@ + c.error_percent@)
                &&& holds(line, c.target_rate@ + "Hz miss="@ + decimal(c.missing as nat))
                &&& holds(line, " bad="@ + decimal(c.invalid as nat))
                &&& holds(line, " unexp="@ + decimal(c.unexpected as nat))
                &&& holds(line, " overflow="@ + decimal(c.overflow as nat))
            }
            &&& !followed ==> {
                &&& holds(line, ": valid="@ + decimal(c.matched as nat))
                &&& holds(line, " bad="@ + decimal(c.invalid as nat))
                &&& holds(line, decimal(c.overflow as nat) + " track=passive"@)
            }
        }),
{
    reveal(rx_result_text);
}

/// What waits to be shown is told by direction.
pub proof fn law_backlog_line(output: u64, input: u64, overflow: u64)
    ensures
        holds(
            backlog_line(output, input, overflow),
            "display backlog  out="@ + decimal(output as nat),
        ),
        holds(backlog_line(output, input, overflow), "  in="@ + decimal(input as nat)),
        holds(backlog_line(output, input, overflow), "  overflow="@ + decimal(overflow as nat)),
{
}

/// The head of the mock tells its role, its pair and its pattern, which port carries which
/// direction, and on which it sends and receives.
pub proof fn law_mock_head(
    s: MockSettingsModel,
    received: Seq<(XbeeTestFrameKind, bool)>,
    fps: Seq<char>,
)
    ensures
        ({
            let lines = mock_head(s, received, fps);
            &&& lines.len() == 4
            &&& holds(lines[0], "role="@ + role_name(s.role))
            &&& holds(lines[0], "  pair="@ + decimal(s.pair_number as nat))
            &&& holds(lines[0], mode_name(s.traffic_pattern))
            &&& holds(lines[1], "up="@ + port_at(s.uplink_port))
            &&& holds(lines[1], "  down="@ + port_at(s.downlink_port))
            &&& holds(lines[2], "tx-port="@ + port_at(s.sending_port()))
            &&& holds(lines[2], "  rx-port="@ + port_at(s.receiving_port()))
        }),
{
    reveal(mock_head);
}

// ---------------------------------------------------------------------------
// Ends
// ---------------------------------------------------------------------------

/// `io` ends with the lines of what it sent, or with one that says that it only received, and then
/// with the place of the log where one is kept.
pub proof fn law_io_ends(
    outputs: Seq<OutputResultModel>,
    logging_enabled: bool,
    log_path: Seq<char>,
    i: int,
)
    ensures
        ({
            let lines = io_ended(outputs, logging_enabled, log_path);
            let n = if outputs.len() <= 1 { 1 } else { outputs.len() + 1 };
            &&& lines.len() == n + if logging_enabled { 1int } else { 0 }
            &&& outputs.len() == 0 ==> holds(lines[0], "io session finished (receive only)"@)
            &&& outputs.len() == 1 ==> holds(lines[0], packets_text(outputs[0]))
            &&& outputs.len() > 1 && 0 <= i < outputs.len() ==> holds(
                lines[i + 1],
                packets_text(outputs[i]),
            )
            &&& logging_enabled ==> holds(lines.last(), log_path)
        }),
{
    law_sent_lines(outputs, i);
    let lines = io_ended(outputs, logging_enabled, log_path);
    if outputs.len() == 1 {
        assert(lines[0] == sent_lines(outputs)[0]);
    }
    if outputs.len() > 1 && 0 <= i < outputs.len() {
        assert(lines[i + 1] == sent_lines(outputs)[i + 1]);
    }
    if logging_enabled {
        assert(lines.last() == saved_lines(logging_enabled, log_path)[0]);
    }
}

/// `send` ends with the messages where it was typed into and with the packets where it was not,
/// and then with the place of the log where one is kept.
pub proof fn law_send_ends(
    message_count: u64,
    outputs: Seq<OutputResultModel>,
    logging_enabled: bool,
    log_path: Seq<char>,
)
    ensures
        ({
            let typed = send_ended(true, message_count, outputs, logging_enabled, log_path);
            let sent = send_ended(false, message_count, outputs, logging_enabled, log_path);
            &&& holds(typed[0], "sent "@ + decimal(message_count as nat))
            &&& outputs.len() == 1 ==> holds(sent[0], packets_text(outputs[0]))
            &&& logging_enabled ==> holds(typed.last(), log_path) && holds(sent.last(), log_path)
            &&& sent == io_ended(outputs, logging_enabled, log_path) || outputs.len() == 0
        }),
{
    law_message_lines(message_count, outputs, 0);
    law_sent_lines(outputs, 0);
    let typed = send_ended(true, message_count, outputs, logging_enabled, log_path);
    let sent = send_ended(false, message_count, outputs, logging_enabled, log_path);
    let end = saved_lines(logging_enabled, log_path);
    assert(typed[0] == message_lines(message_count, outputs)[0]);
    if outputs.len() == 1 {
        assert(sent[0] == sent_lines(outputs)[0]);
    }
    if logging_enabled {
        assert(typed.last() == end[0] && sent.last() == end[0]);
    }
}

/// The command that was run is told in full, exactly where there is one to tell.
pub proof fn law_command_is_told(command: Option<Seq<char>>)
    ensures
        command is None ==> command_lines(command).len() == 0 && command_line(command).len() == 0,
        command matches Some(text) ==> command_lines(command).len() == 2 && command_lines(
            command,
        )[1] == text && command_line(command).len() == 1 && holds(command_line(command)[0], text),
{
}

/// The heading of a trace names what is traced.
pub proof fn law_trace_heading(t: TraceSettings)
    ensures
        t.show_wire && t.show_protocol ==> holds(trace_heading(t), "wire=hex protocol=decoded"@),
        t.show_wire && !t.show_protocol ==> holds(trace_heading(t), "wire=hex"@),
        !t.show_wire && t.show_protocol ==> holds(trace_heading(t), "protocol=decoded"@),
        t.local_pair ==> holds(trace_heading(t), " local-pair prefixes [0>] / [1<]"@),
{
    reveal(trace_heading);
}

/// Two ports that did not meet are both named, with the nonces that they met instead.
pub proof fn law_not_paired_text(
    first_port: Seq<char>,
    first_peer: u64,
    second_port: Seq<char>,
    second_peer: u64,
)
    ensures
        ({
            let text = not_paired_text(first_port, first_peer, second_port, second_peer);
            &&& holds(text, first_port) && holds(text, second_port)
            &&& holds(text, " -> "@ + nonce_text(first_peer))
            &&& holds(text, " -> "@ + nonce_text(second_peer))
        }),
{
    reveal(not_paired_text);
}

/// The times that a round gave up after are told with the round and the port.
pub proof fn law_timeouts_are_told(round_id: u8, port: Seq<char>, limit_ms: u32)
    ensures
        holds(sync_timeout_text(round_id, port, limit_ms), port),
        holds(sync_timeout_text(round_id, port, limit_ms), round_name(round_id)),
        holds(sync_timeout_text(round_id, port, limit_ms), decimal(limit_ms as nat)),
        holds(result_timeout_text(round_id, port, limit_ms), port),
        holds(result_timeout_text(round_id, port, limit_ms), round_name(round_id)),
        holds(result_timeout_text(round_id, port, limit_ms), decimal(limit_ms as nat)),
        holds(round_timeout_text(round_id, port), port),
        holds(round_timeout_text(round_id, port), round_name(round_id)),
        round_name(1) == "round-1"@ && round_name(2) == "round-2"@,
{
    reveal(sync_timeout_text);
    reveal(result_timeout_text);
    reveal(round_timeout_text);
}

/// The header of the mock is its head, what it says of senders and statuses, what waits to be
/// shown, and the log.
pub proof fn law_mock_header(
    s: MockSettingsModel,
    received: Seq<(XbeeTestFrameKind, bool)>,
    report: MockReport,
    log_path: Seq<char>,
    hint: Seq<char>,
)
    ensures
        ({
            let lines = mock_header(s, received, report, log_path, hint);
            let n = (report.sender_lines@.len() + report.status_lines@.len()) as int;
            &&& lines.len() == 7 + n
            &&& lines.take(4) == mock_head(s, received, report.display_fps@)
            &&& lines[4 + n] == backlog_line(
                report.output_backlog,
                report.input_backlog,
                report.overflow,
            )
            &&& s.logging_enabled ==> holds(lines[5 + n], log_path)
            &&& lines.last() == hint
        }),
{
    let lines = mock_header(s, received, report, log_path, hint);
    reveal(mock_head);
    assert(lines.take(4) =~= mock_head(s, received, report.display_fps@));
}

} // verus!

//! Laws of running sessions: when what is due is sent, what is shown of what comes in, how it is
//! counted, and when the header is drawn.
use crate::dashboard::Dashboard;
use crate::display::PortDisplayMode;
use crate::format::{format_label, OutputFormat};
use crate::observe::{
    decoded_entry, format_bytes, format_count, law_recent_samples, mode_for, newest, recent,
    repeated, PacketDecodingModel, ShowRule,
};
use crate::outputs::{on_line, overloaded, same_line, total_bps, LoadModel, RunModel};
use crate::packet::{matchers, PacketModel};
use crate::runtime::{
    fresh_inputs, id_from, input_handled, law_flush_keeps_order, place_of, queues_flushed, slice_of,
    taken_count, InputsModel, ObservedModel,
};
use crate::send_run::{change_of, due_places, fresh_run, is_due, passed, ChangeModel, SendRunModel};
use crate::session::ObservedSpecModel;
use crate::table::{found, law_insert, lemma_before_irreflexive, ordered};
use crate::text::{decimal, group_holds, hex_byte, holds};
use crate::ufv2::{
    expired, flag_text, gap_status, packet_status, packet_taken, status_entry, text_entry,
    timeout_status, uf_packet, DisplayedModel, ReassemblerModel, UfPacketModel,
};
use crate::xbee_talk::message_of;
use vstd::prelude::*;

verus! {

// ---------------------------------------------------------------------------
// Sending
// ---------------------------------------------------------------------------

/// An output is due from the start of the run, and then whenever its time has come; what is not
/// due keeps its time.
pub proof fn law_outputs_become_due(id: Seq<char>, started_at: u64, period: u64, now: u64)
    ensures
        is_due(fresh_run(id, started_at, period), now) <==> now >= started_at,
        now < started_at ==> passed(fresh_run(id, started_at, period), now) == fresh_run(
            id,
            started_at,
            period,
        ),
        fresh_run(id, started_at, period).sent_count == 0,
        fresh_run(id, started_at, period).last_error is None,
{
}

/// An output that is served in time is due again one period after it was due, not after it was
/// served.
pub proof fn law_next_send_is_a_period_later(run: RunModel, now: u64)
    requires
        run.schedule.period > 0,
        run.schedule.next_send_at <= now < run.schedule.next_send_at + run.schedule.period,
        run.schedule.next_send_at + run.schedule.period <= u64::MAX,
    ensures
        passed(run, now).schedule.next_send_at == run.schedule.next_send_at + run.schedule.period,
        passed(run, now).schedule.period == run.schedule.period,
        passed(run, now).id == run.id && passed(run, now).sent_count == run.sent_count
            && passed(run, now).last_error == run.last_error,
{
    let late = now - run.schedule.next_send_at;
    let period = run.schedule.period as int;
    assert(late / period == 0) by (nonlinear_arith)
        requires
            0 <= late < period,
    ;
    assert(period * 0 == 0);
}

/// The outputs that are due are served in their order, each once, and no other.
pub proof fn law_due_outputs_are_served(runs: Seq<RunModel>, now: u64)
    requires
        runs.len() <= usize::MAX,
    ensures
        forall|i: int|
            0 <= i < runs.len() ==> (is_due(#[trigger] runs[i], now) <==> due_places(
                runs,
                now,
            ).contains(i as usize)),
        forall|k: int|
            0 <= k < due_places(runs, now).len() ==> (#[trigger] due_places(runs, now)[k])
                < runs.len(),
        forall|j: int, k: int|
            0 <= j < k < due_places(runs, now).len() ==> (#[trigger] due_places(runs, now)[j]) < (
            #[trigger] due_places(runs, now)[k]),
    decreases runs.len(),
{
    if runs.len() > 0 {
        let rest = runs.drop_last();
        law_due_outputs_are_served(rest, now);
        let before = due_places(rest, now);
        let all = due_places(runs, now);
        let last = (runs.len() - 1) as usize;
        if is_due(runs.last(), now) {
            assert(all == before.push(last));
            assert(all[before.len() as int] == last);
        } else {
            assert(all == before);
        }
        assert forall|i: int| 0 <= i < runs.len() implies (is_due(#[trigger] runs[i], now)
            <==> all.contains(i as usize)) by {
            if i < rest.len() {
                assert(rest[i] == runs[i]);
                if before.contains(i as usize) {
                    let k = before.index_of(i as usize);
                    assert(all[k] == i);
                }
                if all.contains(i as usize) {
                    let k = all.index_of(i as usize);
                    assert(k < before.len());
                    assert(before[k] == i);
                }
            } else if !is_due(runs.last(), now) && all.contains(i as usize) {
                let k = before.index_of(i as usize);
                assert(before[k] < rest.len());
            }
        }
    }
}

/// A write that succeeds counts and clears an error; one that fails leaves the count and keeps
/// its message.
pub proof fn law_writes_are_counted(run: RunModel, error: Seq<char>)
    requires
        run.wf(),
        run.sent_count < u64::MAX,
    ensures
        run.written(Ok(())).sent_count == run.sent_count + 1,
        run.written(Ok(())).last_error is None,
        run.written(Err(error)).sent_count == run.sent_count,
        run.written(Err(error)).last_error == Some(error),
        run.written(Ok(())).wf() && run.written(Err(error)).wf(),
        run.written(Ok(())).schedule == run.schedule && run.written(Err(error)).schedule
            == run.schedule,
        change_of(run, Err(error)) == ChangeModel::ShowError(error),
        change_of(run, Ok(())) == ChangeModel::ClearError <==> run.last_error is Some,
        change_of(run, Ok(())) == ChangeModel::Nothing <==> run.last_error is None,
        change_of(run.written(Err(error)), Ok(())) == ChangeModel::ClearError,
{
}

/// Two loads stand on one line exactly where they have the port and the baud rate in common, and a
/// line is overloaded exactly where its loads together are above its baud rate.
pub proof fn law_overloaded_line(loads: Seq<LoadModel>, line: LoadModel)
    requires
        loads.filter(|l: LoadModel| same_line(l, line)).fold_left(
            0int,
            |sum: int, l: LoadModel| sum + l.line_bps,
        ) <= u64::MAX,
    ensures
        overloaded(loads, line) <==> loads.filter(|l: LoadModel| same_line(l, line)).fold_left(
            0int,
            |sum: int, l: LoadModel| sum + l.line_bps,
        ) > line.baud_rate,
{
    let shared = loads.filter(|l: LoadModel| same_line(l, line));
    lemma_total_bps(shared);
    assert(on_line(loads, line) == shared);
}

proof fn lemma_total_bps(loads: Seq<LoadModel>)
    ensures
        ({
            let sum = loads.fold_left(0int, |sum: int, l: LoadModel| sum + l.line_bps);
            &&& sum >= 0
            &&& sum <= u64::MAX ==> total_bps(loads) == sum
            &&& sum > u64::MAX ==> total_bps(loads) == u64::MAX
        }),
    decreases loads.len(),
{
    if loads.len() > 0 {
        lemma_total_bps(loads.drop_last());
    }
}

// ---------------------------------------------------------------------------
// What comes in
// ---------------------------------------------------------------------------

/// The times do not go back.
pub open spec fn in_time_order(samples: Seq<u64>) -> bool {
    forall|i: int, j: int| 0 <= i <= j < samples.len() ==> samples[i] <= samples[j]
}

/// The rate of a format counts its packets of the last second, neither older nor fewer.
pub proof fn law_rate_is_of_the_last_second(
    input: ObservedModel,
    format: OutputFormat,
    now: u64,
    i: int,
)
    requires
        place_of(input.formats, format) == Some(i),
        0 <= i < input.trackers.len(),
        in_time_order(input.trackers[i].1),
    ensures
        ({
            let samples = input.trackers[i].1;
            let rate = input.rated(format, now).1->0;
            &&& input.rated(format, now).1 is Some
            &&& rate <= samples.len()
            &&& forall|k: int|
                0 <= k < samples.len() ==> (samples.len() - rate <= k <==> now - #[trigger] samples[k]
                    <= 1_000_000_000)
        }),
{
    law_recent_samples(input.trackers[i].1, now);
    let samples = input.trackers[i].1;
    let kept = recent(samples, now);
    let dropped = samples.len() - kept.len();
    assert forall|k: int| 0 <= k < samples.len() implies (dropped <= k <==> now
        - #[trigger] samples[k] <= 1_000_000_000) by {
        if dropped <= k {
            assert(kept[0] == samples[dropped]);
        }
    }
}

/// Only formats that an input knows have a rate, and each of them has one.
pub proof fn law_known_formats_have_a_rate(input: ObservedModel, format: OutputFormat, now: u64)
    ensures
        input.rated(format, now).1 is Some <==> input.formats.contains(format),
{
    lemma_place_of(input.formats, format);
}

proof fn lemma_place_of(formats: Seq<OutputFormat>, format: OutputFormat)
    ensures
        place_of(formats, format) is Some <==> formats.contains(format),
        place_of(formats, format) matches Some(i) ==> 0 <= i < formats.len() && formats[i] == format,
    decreases formats.len(),
{
    if formats.len() > 0 {
        let rest = formats.drop_last();
        lemma_place_of(rest, format);
        if formats.contains(format) {
            let i = formats.index_of(format);
            if i < rest.len() {
                assert(rest[i] == format);
            }
        }
        if place_of(formats, format) is Some {
            assert(formats[place_of(formats, format)->0] == format);
        }
    }
}

proof fn lemma_recent_with_new(samples: Seq<u64>, at: u64, n: nat)
    ensures
        recent(samples + repeated(at, n), at) == recent(samples, at) + repeated(at, n),
    decreases samples.len(),
{
    let all = samples + repeated(at, n);
    if samples.len() == 0 {
        assert(all =~= repeated(at, n));
        assert(recent(samples, at) + repeated(at, n) =~= repeated(at, n));
        if n > 0 {
            assert(all[0] == at);
        }
    } else if at - samples[0] > 1_000_000_000 {
        assert(all[0] == samples[0]);
        assert(all.skip(1) =~= samples.skip(1) + repeated(at, n));
        lemma_recent_with_new(samples.skip(1), at, n);
    } else {
        assert(all[0] == samples[0]);
    }
}

/// The packets that received bytes complete are counted at once, each for its format.
pub proof fn law_received_packets_are_counted(
    input: ObservedModel,
    bytes: Seq<u8>,
    table: Seq<PacketDecodingModel>,
    at: u64,
    format: OutputFormat,
)
    requires
        input.wf(),
        input.formats.contains(format),
    ensures
        input.observed(bytes, table, at).rated(format, at).1->0 == input.rated(format, at).1->0
            + format_count(input.found(bytes), format),
{
    lemma_place_of(input.formats, format);
    let i = place_of(input.formats, format)->0;
    let n = format_count(input.found(bytes), format);
    assert(input.trackers[i].0 == format);
    let next = input.observed(bytes, table, at);
    assert(next.trackers[i].1 == input.trackers[i].1 + repeated(at, n));
    lemma_recent_with_new(input.trackers[i].1, at, n);
}

/// Bytes go to the input that they came in at and to no other, and are recorded under its port
/// exactly where they complete a packet.
pub proof fn law_bytes_go_to_their_input(
    inputs: InputsModel,
    id: Seq<char>,
    bytes: Seq<u8>,
    table: Seq<PacketDecodingModel>,
    at: u64,
    i: int,
    other: int,
)
    requires
        ordered(inputs),
        0 <= i < inputs.len(),
        0 <= other < inputs.len(),
        inputs[i].0 == id,
        other != i,
    ensures
        ({
            let (next, record) = input_handled(inputs, id, bytes, table, at);
            &&& next.len() == inputs.len()
            &&& next[i] == (id, inputs[i].1.observed(bytes, table, at))
            &&& next[other] == inputs[other]
            &&& record is Some <==> inputs[i].1.found(bytes).len() > 0
            &&& record is Some ==> record->0.port == inputs[i].1.port && record->0.packets
                == inputs[i].1.found(bytes)
        }),
{
    lemma_id_from(inputs, id, 0, i);
}

proof fn lemma_id_from(inputs: InputsModel, id: Seq<char>, k: int, i: int)
    requires
        ordered(inputs),
        0 <= k <= i < inputs.len(),
        inputs[i].0 == id,
    ensures
        id_from(inputs, id, k) == Some(i),
    decreases i - k,
{
    if k < i {
        lemma_before_irreflexive(id);
        assert(crate::table::before(inputs[k].0, inputs[i].0));
        lemma_id_from(inputs, id, k + 1, i);
    }
}

/// Bytes that come in at no input change nothing.
pub proof fn law_unknown_input(
    inputs: InputsModel,
    id: Seq<char>,
    bytes: Seq<u8>,
    table: Seq<PacketDecodingModel>,
    at: u64,
)
    requires
        forall|i: int| 0 <= i < inputs.len() ==> (#[trigger] inputs[i]).0 != id,
    ensures
        input_handled(inputs, id, bytes, table, at).0 == inputs,
        input_handled(inputs, id, bytes, table, at).1 is None,
{
    lemma_no_id(inputs, id, 0);
}

proof fn lemma_no_id(inputs: InputsModel, id: Seq<char>, k: int)
    requires
        0 <= k,
        forall|i: int| 0 <= i < inputs.len() ==> (#[trigger] inputs[i]).0 != id,
    ensures
        id_from(inputs, id, k) is None,
    decreases inputs.len() - k,
{
    if k < inputs.len() {
        lemma_no_id(inputs, id, k + 1);
    }
}

/// Every input of a session is there from the start under its own name, with its port and its
/// formats, and with nothing received yet.
pub proof fn law_inputs_are_set_up(specs: Seq<ObservedSpecModel>, reduced_crc: bool, i: int)
    requires
        0 <= i < specs.len(),
        forall|j: int, k: int|
            0 <= j < k < specs.len() ==> (#[trigger] specs[j]).input_id != (
            #[trigger] specs[k]).input_id,
    ensures
        ordered(fresh_inputs(specs, reduced_crc)),
        ({
            let input = found(fresh_inputs(specs, reduced_crc), specs[i].input_id);
            &&& input is Some
            &&& input->0.id == specs[i].input_id
            &&& input->0.port == specs[i].port
            &&& input->0.formats == specs[i].formats
            &&& input->0.matchers == matchers(specs[i].formats, reduced_crc)
            &&& input->0.rule.per_format_display_modes == specs[i].per_format_display_modes
            &&& input->0.rule.preserve_line_breaks == specs[i].preserve_line_breaks
            &&& input->0.pending.len() == 0 && input->0.queue.len() == 0
            &&& !input->0.text.active && input->0.text.buffer.len() == 0
        }),
    decreases specs.len(),
{
    let rest = specs.drop_last();
    let before = fresh_inputs(rest, reduced_crc);
    if rest.len() > 0 {
        law_inputs_are_set_up(
            rest,
            reduced_crc,
            if i < rest.len() {
                i
            } else {
                0
            },
        );
    }
    law_insert(
        before,
        specs.last().input_id,
        ObservedModel::fresh(specs.last(), reduced_crc),
        specs[i].input_id,
    );
}

/// A packet without a text of its own is shown as the bytes that it is: a line of the rover as
/// ASCII, any other as its format is to be shown. A decoded text is shown in its lines, and an
/// error as one line that tells it.
pub proof fn law_packets_are_shown(
    rule: ShowRule,
    p: PacketModel,
    text: Seq<u8>,
    mode: PortDisplayMode,
    error: Seq<char>,
)
    ensures
        decoded_entry(rule, p, Ok(None)).bytes == p.bytes,
        decoded_entry(rule, p, Ok(None)).preserve_line_breaks == rule.preserve_line_breaks,
        p.format == OutputFormat::RoverUpGeneral ==> decoded_entry(rule, p, Ok(None)).display_mode
            == Some(PortDisplayMode::Ascii),
        p.format != OutputFormat::RoverUpGeneral && rule.per_format_display_modes is None
            ==> decoded_entry(rule, p, Ok(None)).display_mode is None,
        p.format != OutputFormat::RoverUpGeneral && rule.per_format_display_modes is Some
            && rule.per_format_display_modes->0.contains((p.format, mode)) && (forall|k: int|
            0 <= k < rule.per_format_display_modes->0.len() && (
            #[trigger] rule.per_format_display_modes->0[k]).0 == p.format
                ==> rule.per_format_display_modes->0[k].1 == mode) ==> decoded_entry(
            rule,
            p,
            Ok(None),
        ).display_mode == Some(mode),
        decoded_entry(rule, p, Ok(Some(text))).bytes == text,
        decoded_entry(rule, p, Ok(Some(text))).preserve_line_breaks,
        decoded_entry(rule, p, Ok(Some(text))).display_mode == Some(PortDisplayMode::Ascii),
        exists|message: Seq<char>|
            decoded_entry(rule, p, Err(error)) == #[trigger] status_entry(message) && holds(
                message,
                error,
            ) && holds(message, format_label(p.format)),
{
    broadcast use group_holds;

    if let Some(modes) = rule.per_format_display_modes {
        if modes.contains((p.format, mode)) && (forall|k: int|
            0 <= k < modes.len() && (#[trigger] modes[k]).0 == p.format ==> modes[k].1 == mode) {
            lemma_mode_for(modes, p.format, mode);
        }
    }
    let message = format_label(p.format) + " decode error: "@ + error;
    assert(decoded_entry(rule, p, Err(error)) == status_entry(message));
    assert(holds(message, error));
}

proof fn lemma_mode_for(
    modes: Seq<(OutputFormat, PortDisplayMode)>,
    format: OutputFormat,
    mode: PortDisplayMode,
)
    requires
        modes.contains((format, mode)),
        forall|k: int| 0 <= k < modes.len() && (#[trigger] modes[k]).0 == format ==> modes[k].1 == mode,
    ensures
        mode_for(modes, format) == Some(mode),
    decreases modes.len(),
{
    let rest = modes.drop_last();
    if modes.last().0 != format {
        let i = modes.index_of((format, mode));
        assert(rest[i] == (format, mode));
        assert forall|k: int| 0 <= k < rest.len() && (#[trigger] rest[k]).0 == format implies rest[k].1
            == mode by {
            assert(modes[k] == rest[k]);
        }
        lemma_mode_for(rest, format, mode);
    } else {
        assert(modes[modes.len() - 1].1 == mode);
    }
}

/// At most 256 entries are shown at a time, 32 of one input before the next has its turn, and
/// 65536 wait at most.
pub proof fn law_display_limits(
    inputs: InputsModel,
    i: int,
    budget: nat,
    waiting: nat,
    q: Seq<DisplayedModel>,
)
    requires
        0 <= i < inputs.len(),
    ensures
        taken_count(queues_flushed(inputs).out) <= 256,
        taken_count(queues_flushed(inputs).out) < 256 ==> queues_flushed(inputs).inputs[i].1.queue.len()
            == 0,
        slice_of(budget, waiting) <= 32 && slice_of(budget, waiting) <= budget && slice_of(
            budget,
            waiting,
        ) <= waiting,
        slice_of(budget, waiting) == 32 || slice_of(budget, waiting) == budget || slice_of(
            budget,
            waiting,
        ) == waiting,
        newest(q).len() == if q.len() < 65_536 {
            q.len()
        } else {
            65_536
        },
        newest(q) == q.skip(q.len() - newest(q).len()),
{
    law_flush_keeps_order(inputs, i);
    assert(q.skip(0) =~= q);
}

// ---------------------------------------------------------------------------
// Texts in chunks
// ---------------------------------------------------------------------------

/// A flag as a bit.
pub open spec fn bit(flag: bool) -> int {
    if flag {
        1
    } else {
        0
    }
}

/// From the lowest bit on, the flags say: valid, at USB, reading, error, end; three bits are
/// reserved. The payload is as long as its length says, at most 32 bytes, behind six bytes.
pub proof fn law_uf_packet(b: Seq<u8>, p: UfPacketModel)
    ensures
        p.flags == bit(p.valid()) + 2 * bit(p.usb_present()) + 4 * bit(p.read_busy()) + 8 * bit(
            p.read_error(),
        ) + 16 * bit(p.end()) + p.reserved_flags(),
        p.reserved_flags() % 32 == 0,
        uf_packet(b) matches Ok(q) ==> {
            &&& b.len() == 40 && b[0] == 'U' as u8 && b[1] == 'F' as u8
            &&& q.seq == b[2] && q.flags == b[3] && q.chunk_index == b[4] && q.payload_len == b[5]
            &&& q.payload.len() == q.payload_len && q.payload_len <= 32
            &&& q.payload == b.skip(6).take(q.payload_len as int)
        },
{
    let f = p.flags;
    assert(f == f % 2 + 2 * (f / 2 % 2) + 4 * (f / 4 % 2) + 8 * (f / 8 % 2) + 16 * (f / 16 % 2) + (f
        - f % 32)) by (bit_vector);
    assert((f - f % 32) % 32 == 0) by (bit_vector);
    assert(f % 2 < 2 && f / 2 % 2 < 2 && f / 4 % 2 < 2 && f / 8 % 2 < 2 && f / 16 % 2 < 2)
        by (bit_vector);
    if uf_packet(b) is Ok {
        let n = b[5] as int;
        assert(b.skip(6).take(n) =~= b.subrange(6, 6 + n));
    }
}

/// A text that gets no chunk for five seconds is given up, with a line that says how much was
/// lost, and not before.
pub proof fn law_text_is_given_up(r: ReassemblerModel, now: u64)
    requires
        r.active,
        r.last_valid_at is Some,
        now >= r.last_valid_at->0,
    ensures
        now - r.last_valid_at->0 < 5_000_000_000 ==> expired(r, now).0 == r && expired(
            r,
            now,
        ).1 is None,
        now - r.last_valid_at->0 >= 5_000_000_000 ==> {
            &&& !expired(r, now).0.active
            &&& expired(r, now).0.buffer.len() == 0
            &&& expired(r, now).0.expected_chunk_index == 0
            &&& expired(r, now).1 == Some(
                status_entry(timeout_status(r.expected_chunk_index, r.buffer.len())),
            )
        },
{
}

/// What a chunk does: an error gives the text up; a busy or idle reader and a chunk out of turn
/// are told of, and the latter gives the text up; the chunk in turn is added, and the last one
/// shows the text.
pub proof fn law_chunk_is_taken(r: ReassemblerModel, p: UfPacketModel, at: u64)
    ensures
        ({
            let (next, shown) = packet_taken(r, p, at);
            let in_turn = p.valid() && !p.read_busy() && !p.read_error() && p.chunk_index
                == r.expected_chunk_index;
            let given_up = !next.active && next.buffer.len() == 0 && next.expected_chunk_index == 0;
            &&& p.read_error() ==> given_up && shown == Some(
                status_entry(packet_status(p, "error"@)),
            )
            &&& !p.read_error() && p.read_busy() ==> next == r && shown == Some(
                status_entry(packet_status(p, "busy"@)),
            )
            &&& !p.read_error() && !p.read_busy() && !p.valid() ==> next == r && shown == Some(
                status_entry(packet_status(p, "idle"@)),
            )
            &&& !p.read_error() && !p.read_busy() && p.valid() && !in_turn ==> given_up && shown
                == Some(
                status_entry(
                    gap_status(p.seq, r.expected_chunk_index, p.chunk_index, r.buffer.len()),
                ),
            )
            &&& in_turn && p.end() ==> given_up && shown == Some(text_entry(r.buffer + p.payload))
            &&& in_turn && !p.end() ==> {
                &&& shown is None
                &&& next.buffer == r.buffer + p.payload
                &&& next.expected_chunk_index == (r.expected_chunk_index + 1) % 256
                &&& next.last_valid_at == Some(at)
                &&& next.active
            }
        }),
{
}

/// The lines that tell of chunks hold the numbers that they are about.
pub proof fn law_chunk_lines(
    p: UfPacketModel,
    status: Seq<char>,
    expected: u8,
    buffered: nat,
)
    ensures
        ({
            let line = packet_status(p, status);
            &&& holds(line, "UFv2 seq="@ + decimal(p.seq as nat))
            &&& holds(line, " status="@ + status)
            &&& holds(line, " flags=0x"@ + hex_byte(p.flags))
            &&& holds(line, "(valid="@ + flag_text(p.valid()))
            &&& holds(line, ", usb_present="@ + flag_text(p.usb_present()))
            &&& holds(line, ", read_busy="@ + flag_text(p.read_busy()))
            &&& holds(line, ", read_error="@ + flag_text(p.read_error()))
            &&& holds(line, ", end="@ + flag_text(p.end()))
            &&& holds(line, ") chunk="@ + decimal(p.chunk_index as nat))
            &&& holds(line, " len="@ + decimal(p.payload_len as nat))
            &&& flag_text(true) == decimal(1) && flag_text(false) == decimal(0)
        }),
        holds(
            timeout_status(expected, buffered),
            "UFv2 status=timeout expected_chunk="@ + decimal(expected as nat),
        ),
        holds(timeout_status(expected, buffered), " discarded="@ + decimal(buffered)),
        ({
            let line = gap_status(p.seq, expected, p.chunk_index, buffered);
            &&& holds(line, "UFv2 seq="@ + decimal(p.seq as nat))
            &&& holds(line, " status=incomplete expected_chunk="@ + decimal(expected as nat))
            &&& holds(line, " got_chunk="@ + decimal(p.chunk_index as nat))
            &&& holds(line, " discarded="@ + decimal(buffered))
        }),
{
    broadcast use group_holds;

    reveal(packet_status);
    reveal(timeout_status);
    reveal(gap_status);
}

// ---------------------------------------------------------------------------
// Messages
// ---------------------------------------------------------------------------

/// A message is its text and the end of a line.
pub proof fn law_message_ends_its_line(text: Seq<u8>, other: Seq<u8>)
    ensures
        message_of(text).len() == text.len() + 2,
        message_of(text).take(text.len() as int) == text,
        message_of(text)[text.len() as int] == 0x0D && message_of(text).last() == 0x0A,
        message_of(text) == message_of(other) ==> text == other,
{
    assert(message_of(text).take(text.len() as int) =~= text);
    assert(message_of(other).take(other.len() as int) =~= other);
}

/// Each message counts once, and leaves the outputs as they are. A talk fails exactly where its
/// output has an error and nothing was typed.
pub proof fn law_talk(run: SendRunModel, place: int)
    requires
        0 <= place < run.runs.len(),
        run.message_count < u64::MAX,
    ensures
        run.with_message().message_count == run.message_count + 1,
        run.with_message().runs == run.runs,
        run.talked(place) is Err <==> run.runs[place].last_error is Some && run.message_count == 0,
        run.talked(place) matches Err(e) ==> run.runs[place].last_error == Some(e),
        run.with_message().talked(place) is Ok,
{
}

/// An output moves on by its period and keeps everything else.
pub proof fn law_schedule_moves_on(run: RunModel)
    requires
        run.schedule.next_send_at + run.schedule.period <= u64::MAX,
    ensures
        run.advanced().schedule.next_send_at - run.schedule.next_send_at == run.schedule.period,
        run.advanced().schedule.period == run.schedule.period,
        run.advanced().id == run.id && run.advanced().sent_count == run.sent_count
            && run.advanced().last_error == run.last_error && run.advanced().has_error
            == run.has_error,
{
}

/// Pausing twice goes on, and pausing once does not.
pub proof fn law_pause(d: Dashboard)
    ensures
        d.toggled().toggled() == d,
        d.toggled().paused != d.paused,
{
}

/// Packets and their bytes are counted for their format and for no other, one packet after the
/// other.
pub proof fn law_counts_of_a_format(ps: Seq<PacketModel>, p: PacketModel, format: OutputFormat)
    ensures
        format_count(Seq::empty(), format) == 0,
        format_bytes(Seq::empty(), format) == 0,
        p.format == format ==> format_count(ps.push(p), format)
            == format_count(ps, format) + 1 && format_bytes(
            ps.push(p),
            format,
        ) == format_bytes(ps, format) + p.bytes.len(),
        p.format != format ==> format_count(ps.push(p), format)
            == format_count(ps, format) && format_bytes(
            ps.push(p),
            format,
        ) == format_bytes(ps, format),
{
    assert(ps.push(p).drop_last() =~= ps);
}

} // verus!

//! Running sessions: what their headers say, and what happens when bytes come in and time goes
//! by. Times are in nanoseconds.
use crate::commands::DeviceInfo;
use crate::control_settings::{ControlSettings, ControlSettingsModel};
use crate::format::{format_name, format_packet_len, OutputFormat};
use crate::io_command::{CommandInputModel, IoCommandInput};
use crate::io_settings::{FiguresModel, IoRuntimeSettings, IoSettingsModel};
use crate::observe::{PacketDecoding, PacketDecodingModel};
use crate::output_plan::{OutputSettings, OutputSettingsModel};
use crate::packet::DecodedPacket;
use crate::route::copy_texts;
use crate::route_pipeline::{format_log_line, log_line};
use crate::runtime::{
    all_expired, copy_list, found_for, fresh_inputs, input_handled, input_setup, inputs_wf,
    queues_flushed, rated_on, FlushedBatch, FlushedModel, InputRecord, InputSetup, InputsModel,
    ObservedInputs, ObservedModel, RecordModel,
};
use crate::send_settings::{SendSettings, SendSettingsModel};
use crate::session::ObservedSpecModel;
use crate::text::{cat2, cat3, cat4, cat5, decimal, decimal_text, join, joined, same, texts};
use vstd::prelude::*;

verus! {

/// How long a header stays as it is.
pub const STATUS_INTERVAL: u64 = 200_000_000;

/// When the header of a session that starts was last made: long enough ago to make it anew.
pub open spec fn before_start(started_at: u64) -> u64 {
    if started_at >= STATUS_INTERVAL {
        (started_at - STATUS_INTERVAL) as u64
    } else {
        started_at
    }
}

fn start_of_status(started_at: u64) -> (at: u64)
    ensures
        at == before_start(started_at),
{
    if started_at >= STATUS_INTERVAL {
        started_at - STATUS_INTERVAL
    } else {
        started_at
    }
}

/// The header is old enough to make it anew.
pub open spec fn status_due(last: u64, now: u64) -> bool {
    now - last >= STATUS_INTERVAL
}

fn is_status_due(last: u64, now: u64) -> (r: bool)
    ensures
        r == status_due(last, now),
{
    now >= last && now - last >= STATUS_INTERVAL
}

/// Two lists hold the same lines.
fn same_lines(a: &Vec<String>, b: &Vec<String>) -> (r: bool)
    ensures
        r == (a.deep_view() == b.deep_view()),
{
    if a.len() != b.len() {
        assert(a.deep_view().len() != b.deep_view().len());
        return false;
    }
    let mut i: usize = 0;
    while i < a.len()
        invariant
            i <= a.len(),
            a.len() == b.len(),
            forall|k: int| 0 <= k < i ==> (#[trigger] a@[k])@ == b@[k]@,
        decreases a.len() - i,
    {
        if !same(a[i].as_str(), b[i].as_str()) {
            assert(a.deep_view()[i as int] != b.deep_view()[i as int]);
            return false;
        }
        i += 1;
    }
    assert(a.deep_view() =~= b.deep_view());
    true
}

fn copy_lines(lines: &Vec<String>) -> (copy: Vec<String>)
    ensures
        copy.deep_view() == lines.deep_view(),
{
    copy_texts(lines)
}

// ---------------------------------------------------------------------------
// Header lines
// ---------------------------------------------------------------------------

/// What goes out to an output, as its line says it.
#[derive(Debug)]
pub struct Sending {
    pub target: String,
    pub payload_len: usize,
}

#[verifier::ext_equal]
pub struct SendingModel {
    pub target: Seq<char>,
    pub payload_len: nat,
}

impl DeepView for Sending {
    type V = SendingModel;

    open spec fn deep_view(&self) -> SendingModel {
        SendingModel { target: self.target@, payload_len: self.payload_len as nat }
    }
}

/// An output in the header; nothing is sent to it on its own in an interactive session.
#[derive(Debug)]
pub struct HeaderOutput {
    pub id: String,
    pub port: String,
    pub baud_rate: u32,
    pub format: OutputFormat,
    pub sending: Option<Sending>,
}

#[verifier::ext_equal]
pub struct HeaderOutputModel {
    pub id: Seq<char>,
    pub port: Seq<char>,
    pub baud_rate: u32,
    pub format: OutputFormat,
    pub sending: Option<SendingModel>,
}

impl DeepView for HeaderOutput {
    type V = HeaderOutputModel;

    open spec fn deep_view(&self) -> HeaderOutputModel {
        HeaderOutputModel {
            id: self.id@,
            port: self.port@,
            baud_rate: self.baud_rate,
            format: self.format,
            sending: self.sending.deep_view(),
        }
    }
}

/// A rate of so many packets per second.
pub open spec fn rate_text(rate: nat) -> Seq<char> {
    decimal(rate) + ".0 Hz"@
}

fn format_rate(rate: usize) -> (r: String)
    ensures
        r@ == rate_text(rate as nat),
{
    let digits = decimal_text(rate as u64);
    cat2(digits.as_str(), ".0 Hz")
}

/// The rate that is shown where packets are not counted.
pub open spec fn or_zero(rate: Option<nat>) -> nat {
    match rate {
        Some(rate) => rate,
        None => 0,
    }
}

pub open spec fn output_line(o: HeaderOutputModel, rate: nat) -> Seq<char> {
    let head = "output["@ + o.id + "]: "@ + o.port + " @ "@ + (decimal(o.baud_rate as nat)
        + " baud, format="@ + format_name(o.format));
    match o.sending {
        Some(s) => head + (", tx_target="@ + s.target + ", rx="@ + rate_text(rate) + ", payload="@)
            + (decimal(s.payload_len) + " bytes"@),
        None => head + (", rx="@ + rate_text(rate)),
    }
}

fn format_output_line(output: &HeaderOutput, rate: usize) -> (r: String)
    ensures
        r@ == output_line(output.deep_view(), rate as nat),
{
    let front = cat5("output[", output.id.as_str(), "]: ", output.port.as_str(), " @ ");
    let baud = decimal_text(output.baud_rate as u64);
    let middle = cat3(baud.as_str(), " baud, format=", output.format.as_str());
    let head = cat2(front.as_str(), middle.as_str());
    let rx = format_rate(rate);
    match &output.sending {
        Some(sending) => {
            let target = cat5(
                ", tx_target=",
                sending.target.as_str(),
                ", rx=",
                rx.as_str(),
                ", payload=",
            );
            let len = decimal_text(sending.payload_len as u64);
            let tail = cat2(len.as_str(), " bytes");
            cat3(head.as_str(), target.as_str(), tail.as_str())
        },
        None => {
            let tail = cat2(", rx=", rx.as_str());
            cat2(head.as_str(), tail.as_str())
        },
    }
}

/// The inputs after the packets of outputs were counted, and a line for each output.
pub open spec fn output_lines(inputs: InputsModel, outputs: Seq<HeaderOutputModel>, now: u64) -> (
    InputsModel,
    Seq<Seq<char>>,
)
    decreases outputs.len(),
{
    if outputs.len() == 0 {
        (inputs, Seq::empty())
    } else {
        let before = output_lines(inputs, outputs.drop_last(), now);
        let output = outputs.last();
        let counted = rated_on(before.0, output.port, output.format, now);
        (counted.0, before.1.push(output_line(output, or_zero(counted.1))))
    }
}

fn push_output_lines(
    inputs: &mut ObservedInputs,
    outputs: &Vec<HeaderOutput>,
    now: u64,
    lines: &mut Vec<String>,
)
    requires
        old(inputs).wf(),
    ensures
        final(inputs).wf(),
        final(inputs).deep_view() == output_lines(
            old(inputs).deep_view(),
            outputs.deep_view(),
            now,
        ).0,
        final(lines).deep_view() == old(lines).deep_view() + output_lines(
            old(inputs).deep_view(),
            outputs.deep_view(),
            now,
        ).1,
{
    let ghost start = inputs.deep_view();
    let ghost first = lines.deep_view();
    let ghost all = outputs.deep_view();
    let mut i: usize = 0;
    assert(all.take(0) =~= Seq::<HeaderOutputModel>::empty());
    assert(first + Seq::<Seq<char>>::empty() =~= first);
    while i < outputs.len()
        invariant
            i <= outputs.len(),
            inputs.wf(),
            all == outputs.deep_view(),
            inputs.deep_view() == output_lines(start, all.take(i as int), now).0,
            lines.deep_view() == first + output_lines(start, all.take(i as int), now).1,
        decreases outputs.len() - i,
    {
        let ghost before = lines.deep_view();
        let output = &outputs[i];
        proof {
            assert(all.take(i + 1).drop_last() == all.take(i as int));
            assert(all.take(i + 1).last() == output.deep_view());
        }
        let rate: usize = match inputs.rx_rate_hz(output.port.as_str(), output.format, now) {
            Some(rate) => rate,
            None => 0,
        };
        let line = format_output_line(output, rate);
        let ghost m = line@;
        lines.push(line);
        assert(lines.deep_view() =~= before.push(m));
        assert(lines.deep_view() =~= first + output_lines(start, all.take(i + 1), now).1);
        i += 1;
    }
    assert(all.take(i as int) == all);
}

/// A format that is looked for on a port.
#[derive(Debug)]
pub struct HeaderFormat {
    pub port: String,
    pub format: OutputFormat,
}

#[verifier::ext_equal]
pub struct HeaderFormatModel {
    pub port: Seq<char>,
    pub format: OutputFormat,
}

impl DeepView for HeaderFormat {
    type V = HeaderFormatModel;

    open spec fn deep_view(&self) -> HeaderFormatModel {
        HeaderFormatModel { port: self.port@, format: self.format }
    }
}

pub open spec fn format_line(f: HeaderFormatModel, rate: nat) -> Seq<char> {
    "input["@ + f.port + ":"@ + format_name(f.format) + "]: rx="@ + rate_text(rate)
}

/// The inputs after the packets of formats were counted, and a line for each format.
pub open spec fn format_lines(inputs: InputsModel, formats: Seq<HeaderFormatModel>, now: u64) -> (
    InputsModel,
    Seq<Seq<char>>,
)
    decreases formats.len(),
{
    if formats.len() == 0 {
        (inputs, Seq::empty())
    } else {
        let before = format_lines(inputs, formats.drop_last(), now);
        let f = formats.last();
        let counted = rated_on(before.0, f.port, f.format, now);
        (counted.0, before.1.push(format_line(f, or_zero(counted.1))))
    }
}

fn push_format_lines(
    inputs: &mut ObservedInputs,
    formats: &Vec<HeaderFormat>,
    now: u64,
    lines: &mut Vec<String>,
)
    requires
        old(inputs).wf(),
    ensures
        final(inputs).wf(),
        final(inputs).deep_view() == format_lines(
            old(inputs).deep_view(),
            formats.deep_view(),
            now,
        ).0,
        final(lines).deep_view() == old(lines).deep_view() + format_lines(
            old(inputs).deep_view(),
            formats.deep_view(),
            now,
        ).1,
{
    let ghost start = inputs.deep_view();
    let ghost first = lines.deep_view();
    let ghost all = formats.deep_view();
    let mut i: usize = 0;
    assert(all.take(0) =~= Seq::<HeaderFormatModel>::empty());
    assert(first + Seq::<Seq<char>>::empty() =~= first);
    while i < formats.len()
        invariant
            i <= formats.len(),
            inputs.wf(),
            all == formats.deep_view(),
            inputs.deep_view() == format_lines(start, all.take(i as int), now).0,
            lines.deep_view() == first + format_lines(start, all.take(i as int), now).1,
        decreases formats.len() - i,
    {
        let ghost before = lines.deep_view();
        let f = &formats[i];
        proof {
            assert(all.take(i + 1).drop_last() == all.take(i as int));
            assert(all.take(i + 1).last() == f.deep_view());
        }
        let rate: usize = match inputs.rx_rate_hz(f.port.as_str(), f.format, now) {
            Some(rate) => rate,
            None => 0,
        };
        let rx = format_rate(rate);
        let front = cat4("input[", f.port.as_str(), ":", f.format.as_str());
        let line = cat3(front.as_str(), "]: rx=", rx.as_str());
        let ghost m = line@;
        lines.push(line);
        assert(m == format_line(f.deep_view(), rate as nat));
        assert(lines.deep_view() =~= before.push(m));
        assert(lines.deep_view() =~= first + format_lines(start, all.take(i + 1), now).1);
        i += 1;
    }
    assert(all.take(i as int) == all);
}

// ---------------------------------------------------------------------------
// Sessions that send
// ---------------------------------------------------------------------------

/// A session that sends sample packets or lines of text, and shows what comes in.
#[derive(Debug)]
pub struct SendingState {
    interactive: bool,
    logging_enabled: bool,
    log_path: String,
    outputs: Vec<HeaderOutput>,
    formats: Vec<HeaderFormat>,
    inputs: ObservedInputs,
    last_status_update: u64,
    header_lines: Vec<String>,
}

#[verifier::ext_equal]
pub struct SendingStateModel {
    pub interactive: bool,
    pub logging_enabled: bool,
    pub log_path: Seq<char>,
    pub outputs: Seq<HeaderOutputModel>,
    pub formats: Seq<HeaderFormatModel>,
    pub inputs: InputsModel,
    pub last_status_update: u64,
    pub header_lines: Seq<Seq<char>>,
}

impl DeepView for SendingState {
    type V = SendingStateModel;

    closed spec fn deep_view(&self) -> SendingStateModel {
        SendingStateModel {
            interactive: self.interactive,
            logging_enabled: self.logging_enabled,
            log_path: self.log_path@,
            outputs: self.outputs.deep_view(),
            formats: self.formats.deep_view(),
            inputs: self.inputs.deep_view(),
            last_status_update: self.last_status_update,
            header_lines: self.header_lines.deep_view(),
        }
    }
}

pub open spec fn control_lines(interactive: bool) -> Seq<Seq<char>> {
    if interactive {
        seq!["Enter で全出力ポートへ送信 (\\r\\n を末尾に付加)"@, "Ctrl-C で終了"@]
    } else {
        seq!["Space で表示を一時停止/再開  Ctrl-C で終了"@]
    }
}

/// What a tick of a session brings.
#[derive(Debug)]
pub struct TickOutcome {
    /// What is shown next.
    pub flushed: Vec<FlushedBatch>,
    /// The header, where it changes.
    pub header: Option<Vec<String>>,
}

#[verifier::ext_equal]
pub struct TickModel {
    pub flushed: Seq<FlushedModel>,
    pub header: Option<Seq<Seq<char>>>,
}

impl DeepView for TickOutcome {
    type V = TickModel;

    open spec fn deep_view(&self) -> TickModel {
        TickModel { flushed: self.flushed.deep_view(), header: self.header.deep_view() }
    }
}

impl SendingStateModel {
    pub open spec fn wf(self) -> bool {
        inputs_wf(self.inputs)
    }

    /// The inputs after their packets were counted, and the header.
    pub open spec fn header(self, now: u64) -> (InputsModel, Seq<Seq<char>>) {
        let outputs = output_lines(self.inputs, self.outputs, now);
        let formats = format_lines(outputs.0, self.formats, now);
        (
            formats.0,
            outputs.1 + formats.1 + seq![log_line(self.logging_enabled, self.log_path)]
                + control_lines(self.interactive),
        )
    }

    /// The session after its header was made, and the header where it changed.
    pub open spec fn status_made(self, now: u64) -> (SendingStateModel, Option<Seq<Seq<char>>>) {
        if status_due(self.last_status_update, now) {
            let (inputs, lines) = self.header(now);
            (
                SendingStateModel {
                    inputs,
                    last_status_update: now,
                    header_lines: lines,
                    ..self
                },
                if lines != self.header_lines {
                    Some(lines)
                } else {
                    None
                },
            )
        } else {
            (self, None)
        }
    }

    /// The session after a tick, and what the tick brings. Texts that wait too long are given up
    /// in some sessions.
    pub open spec fn ticked(self, expire: bool, now: u64) -> (SendingStateModel, TickModel) {
        let inputs = if expire {
            all_expired(self.inputs, now)
        } else {
            self.inputs
        };
        let flushing = queues_flushed(inputs);
        let (next, header) = SendingStateModel { inputs: flushing.inputs, ..self }.status_made(
            now,
        );
        (next, TickModel { flushed: flushing.out, header })
    }
}

impl SendingState {
    fn build_header_lines(&mut self, now: u64) -> (lines: Vec<String>)
        requires
            old(self).deep_view().wf(),
        ensures
            final(self).deep_view() == (SendingStateModel {
                inputs: old(self).deep_view().header(now).0,
                ..old(self).deep_view()
            }),
            final(self).deep_view().wf(),
            lines.deep_view() == old(self).deep_view().header(now).1,
    {
        let ghost m = self.deep_view();
        let mut lines: Vec<String> = Vec::new();
        assert(lines.deep_view() =~= Seq::<Seq<char>>::empty());
        push_output_lines(&mut self.inputs, &self.outputs, now, &mut lines);
        push_format_lines(&mut self.inputs, &self.formats, now, &mut lines);
        lines.push(format_log_line(self.logging_enabled, self.log_path.as_str()));
        if self.interactive {
            lines.push("Enter で全出力ポートへ送信 (\\r\\n を末尾に付加)".to_owned());
            lines.push("Ctrl-C で終了".to_owned());
        } else {
            lines.push("Space で表示を一時停止/再開  Ctrl-C で終了".to_owned());
        }
        assert(lines.deep_view() =~= m.header(now).1);
        lines
    }

    fn make_status(&mut self, now: u64) -> (header: Option<Vec<String>>)
        requires
            old(self).deep_view().wf(),
        ensures
            final(self).deep_view() == old(self).deep_view().status_made(now).0,
            final(self).deep_view().wf(),
            header.deep_view() == old(self).deep_view().status_made(now).1,
    {
        if !is_status_due(self.last_status_update, now) {
            return None;
        }
        self.last_status_update = now;
        let lines = self.build_header_lines(now);
        if same_lines(&lines, &self.header_lines) {
            return None;
        }
        self.header_lines = copy_lines(&lines);
        Some(lines)
    }

    fn tick(&mut self, expire: bool, now: u64) -> (r: TickOutcome)
        requires
            old(self).deep_view().wf(),
        ensures
            final(self).deep_view() == old(self).deep_view().ticked(expire, now).0,
            final(self).deep_view().wf(),
            r.deep_view() == old(self).deep_view().ticked(expire, now).1,
    {
        if expire {
            self.inputs.expire_pending_transfers(now);
        }
        let flushed = self.inputs.flush_display_queues();
        let header = self.make_status(now);
        TickOutcome { flushed, header }
    }
}

// ---------------------------------------------------------------------------
// `io`
// ---------------------------------------------------------------------------

/// An output of `io` in the header.
pub open spec fn io_header_output(o: OutputSettingsModel<FiguresModel>) -> HeaderOutputModel {
    HeaderOutputModel {
        id: o.session.id,
        port: o.session.port,
        baud_rate: o.session.baud_rate,
        format: o.format,
        sending: Some(
            SendingModel { target: o.rate_hz.label, payload_len: format_packet_len(o.format) },
        ),
    }
}

/// A session of `io` that starts.
pub open spec fn io_started(s: IoSettingsModel, log_path: Seq<char>, started_at: u64) -> SendingStateModel {
    SendingStateModel {
        interactive: false,
        logging_enabled: s.logging_enabled,
        log_path,
        outputs: s.outputs.map_values(
            |o: OutputSettingsModel<FiguresModel>| io_header_output(o),
        ),
        formats: Seq::empty(),
        inputs: fresh_inputs(s.observed_inputs, true),
        last_status_update: before_start(started_at),
        header_lines: Seq::empty(),
    }
}

/// A running session of `io`.
#[derive(Debug)]
pub struct IoRuntimeState {
    pub state: SendingState,
}

impl DeepView for IoRuntimeState {
    type V = SendingStateModel;

    open spec fn deep_view(&self) -> SendingStateModel {
        self.state.deep_view()
    }
}

impl IoRuntimeState {
    pub fn new(settings: &IoRuntimeSettings, log_path_display: String, started_at: u64) -> (state:
        IoRuntimeState)
        ensures
            state.deep_view() == io_started(settings.deep_view(), log_path_display@, started_at),
            state.deep_view().wf(),
    {
        let ghost all = settings.outputs.deep_view();
        let mut outputs: Vec<HeaderOutput> = Vec::new();
        let mut i: usize = 0;
        while i < settings.outputs.len()
            invariant
                i <= settings.outputs.len(),
                all == settings.outputs.deep_view(),
                outputs.len() == i,
                forall|k: int|
                    0 <= k < i ==> (#[trigger] outputs@[k]).deep_view() == io_header_output(all[k]),
            decreases settings.outputs.len() - i,
        {
            let output = &settings.outputs[i];
            let header = HeaderOutput {
                id: output.session.id.clone(),
                port: output.session.port.clone(),
                baud_rate: output.session.baud_rate,
                format: output.format,
                sending: Some(
                    Sending {
                        target: output.rate_hz.label.clone(),
                        payload_len: output.format.packet_len(),
                    },
                ),
            };
            assert(header.deep_view() =~= io_header_output(all[i as int]));
            outputs.push(header);
            i += 1;
        }
        assert(outputs.deep_view() =~= all.map_values(
            |o: OutputSettingsModel<FiguresModel>| io_header_output(o),
        ));
        let state = SendingState {
            interactive: false,
            logging_enabled: settings.logging_enabled,
            log_path: log_path_display,
            outputs,
            formats: Vec::new(),
            inputs: ObservedInputs::new(&settings.observed_inputs, true),
            last_status_update: start_of_status(started_at),
            header_lines: Vec::new(),
        };
        proof {
            assert(state.formats.deep_view() =~= Seq::<HeaderFormatModel>::empty());
            assert(state.header_lines.deep_view() =~= Seq::<Seq<char>>::empty());
        }
        IoRuntimeState { state }
    }

    /// What the session is told of its inputs before it runs.
    pub fn configure_session(&self) -> (setups: Vec<InputSetup>)
        ensures
            setups.deep_view() == self.deep_view().inputs.map_values(
                |e: (Seq<char>, ObservedModel)| input_setup(e.1),
            ),
    {
        self.state.inputs.setups()
    }

    /// The packets that received bytes would complete.
    pub fn packets_completed_by(&self, input_id: &str, bytes: &[u8]) -> (packets: Vec<
        DecodedPacket,
    >)
        ensures
            packets.deep_view() == found_for(self.deep_view().inputs, input_id@, bytes@),
    {
        self.state.inputs.packets_completed_by(input_id, bytes)
    }

    /// Takes received bytes in, with what decoding their packets for the display gave. Tells what
    /// to record, where there were packets.
    pub fn handle_input(
        &mut self,
        input_id: &str,
        bytes: &[u8],
        decodings: &Vec<PacketDecoding>,
        at: u64,
    ) -> (r: Option<InputRecord>)
        requires
            old(self).deep_view().wf(),
        ensures
            final(self).deep_view().wf(),
            ({
                let handled = input_handled(
                    old(self).deep_view().inputs,
                    input_id@,
                    bytes@,
                    decodings.deep_view(),
                    at,
                );
                &&& recorded(r, handled.1)
                &&& final(self).deep_view() == (SendingStateModel {
                    inputs: handled.0,
                    ..old(self).deep_view()
                })
            }),
    {
        self.state.inputs.handle_input(input_id, bytes, decodings, at)
    }

    pub fn on_tick(&mut self, now: u64) -> (r: TickOutcome)
        requires
            old(self).deep_view().wf(),
        ensures
            final(self).deep_view() == old(self).deep_view().ticked(true, now).0,
            final(self).deep_view().wf(),
            r.deep_view() == old(self).deep_view().ticked(true, now).1,
    {
        self.state.tick(true, now)
    }

    pub fn flush_display_queues(&mut self) -> (out: Vec<FlushedBatch>)
        requires
            old(self).deep_view().wf(),
        ensures
            final(self).deep_view().wf(),
            final(self).deep_view() == (SendingStateModel {
                inputs: queues_flushed(old(self).deep_view().inputs).inputs,
                ..old(self).deep_view()
            }),
            out.deep_view() == queues_flushed(old(self).deep_view().inputs).out,
    {
        self.state.inputs.flush_display_queues()
    }

    pub fn build_header_lines(&mut self, now: u64) -> (lines: Vec<String>)
        requires
            old(self).deep_view().wf(),
        ensures
            final(self).deep_view() == (SendingStateModel {
                inputs: old(self).deep_view().header(now).0,
                ..old(self).deep_view()
            }),
            final(self).deep_view().wf(),
            lines.deep_view() == old(self).deep_view().header(now).1,
    {
        self.state.build_header_lines(now)
    }
}

/// What is recorded is what came in.
pub open spec fn recorded(r: Option<InputRecord>, m: Option<RecordModel>) -> bool {
    match r {
        Some(record) => m matches Some(m) && record.port@ == m.port && record.batch.counts(
            m.packets,
        ),
        None => m is None,
    }
}

// ---------------------------------------------------------------------------
// `send`
// ---------------------------------------------------------------------------

/// An output of `send` in the header.
pub open spec fn send_header_output(o: OutputSettingsModel<u32>, interactive: bool) -> HeaderOutputModel {
    HeaderOutputModel {
        id: o.session.id,
        port: o.session.port,
        baud_rate: o.session.baud_rate,
        format: o.format,
        sending: if interactive {
            None
        } else {
            Some(
                SendingModel {
                    target: decimal(o.rate_hz as nat) + " Hz"@,
                    payload_len: format_packet_len(o.format),
                },
            )
        },
    }
}

/// An output sends the format on the port.
pub open spec fn is_sent(
    outputs: Seq<OutputSettingsModel<u32>>,
    port: Seq<char>,
    format: OutputFormat,
) -> bool {
    exists|i: int|
        0 <= i < outputs.len() && (#[trigger] outputs[i]).session.port == port && outputs[i].format
            == format
}

/// The formats of an input that have a line of their own: those that no output sends on its port.
pub open spec fn lines_of_input(
    outputs: Seq<OutputSettingsModel<u32>>,
    port: Seq<char>,
    formats: Seq<OutputFormat>,
) -> Seq<HeaderFormatModel>
    decreases formats.len(),
{
    if formats.len() == 0 {
        Seq::empty()
    } else {
        let rest = lines_of_input(outputs, port, formats.drop_last());
        if is_sent(outputs, port, formats.last()) {
            rest
        } else {
            rest.push(HeaderFormatModel { port, format: formats.last() })
        }
    }
}

pub open spec fn lines_of_inputs(
    outputs: Seq<OutputSettingsModel<u32>>,
    inputs: Seq<ObservedSpecModel>,
) -> Seq<HeaderFormatModel>
    decreases inputs.len(),
{
    if inputs.len() == 0 {
        Seq::empty()
    } else {
        lines_of_inputs(outputs, inputs.drop_last()) + lines_of_input(
            outputs,
            inputs.last().port,
            inputs.last().formats,
        )
    }
}

/// A session of `send` that starts.
pub open spec fn send_started(s: SendSettingsModel, log_path: Seq<char>, started_at: u64) -> SendingStateModel {
    SendingStateModel {
        interactive: s.interactive,
        logging_enabled: s.logging_enabled,
        log_path,
        outputs: s.outputs.map_values(
            |o: OutputSettingsModel<u32>| send_header_output(o, s.interactive),
        ),
        formats: lines_of_inputs(s.outputs, s.observed_inputs),
        inputs: fresh_inputs(s.observed_inputs, false),
        last_status_update: before_start(started_at),
        header_lines: Seq::empty(),
    }
}

fn sends(outputs: &Vec<OutputSettings<u32>>, port: &str, format: OutputFormat) -> (r: bool)
    ensures
        r == is_sent(outputs.deep_view(), port@, format),
{
    let ghost all = outputs.deep_view();
    let mut i: usize = 0;
    while i < outputs.len()
        invariant
            i <= outputs.len(),
            all == outputs.deep_view(),
            forall|k: int|
                0 <= k < i ==> !((#[trigger] all[k]).session.port == port@ && all[k].format
                    == format),
        decreases outputs.len() - i,
    {
        assert(all[i as int] == outputs@[i as int].deep_view());
        if outputs[i].format == format && same(outputs[i].session.port.as_str(), port) {
            return true;
        }
        i += 1;
    }
    false
}

fn push_lines_of_input(
    lines: &mut Vec<HeaderFormat>,
    outputs: &Vec<OutputSettings<u32>>,
    port: &str,
    formats: &Vec<OutputFormat>,
)
    ensures
        final(lines).deep_view() == old(lines).deep_view() + lines_of_input(
            outputs.deep_view(),
            port@,
            formats@,
        ),
{
    let ghost first = lines.deep_view();
    let ghost all = outputs.deep_view();
    let mut i: usize = 0;
    assert(formats@.take(0) =~= Seq::<OutputFormat>::empty());
    assert(first + Seq::<HeaderFormatModel>::empty() =~= first);
    while i < formats.len()
        invariant
            i <= formats.len(),
            all == outputs.deep_view(),
            lines.deep_view() == first + lines_of_input(all, port@, formats@.take(i as int)),
        decreases formats.len() - i,
    {
        let ghost before = lines.deep_view();
        assert(formats@.take(i + 1).drop_last() == formats@.take(i as int));
        if !sends(outputs, port, formats[i]) {
            lines.push(HeaderFormat { port: port.to_owned(), format: formats[i] });
            assert(lines.deep_view() =~= before.push(
                HeaderFormatModel { port: port@, format: formats@[i as int] },
            ));
        }
        assert(lines.deep_view() =~= first + lines_of_input(all, port@, formats@.take(i + 1)));
        i += 1;
    }
    assert(formats@.take(i as int) == formats@);
}

/// A running session of `send`.
#[derive(Debug)]
pub struct SendRuntimeState {
    pub state: SendingState,
}

impl DeepView for SendRuntimeState {
    type V = SendingStateModel;

    open spec fn deep_view(&self) -> SendingStateModel {
        self.state.deep_view()
    }
}

impl SendRuntimeState {
    pub fn new(settings: &SendSettings, log_path_display: String, started_at: u64) -> (state:
        SendRuntimeState)
        ensures
            state.deep_view() == send_started(settings.deep_view(), log_path_display@, started_at),
            state.deep_view().wf(),
    {
        let ghost all = settings.outputs.deep_view();
        let interactive = settings.interactive;
        let mut outputs: Vec<HeaderOutput> = Vec::new();
        let mut i: usize = 0;
        while i < settings.outputs.len()
            invariant
                i <= settings.outputs.len(),
                all == settings.outputs.deep_view(),
                outputs.len() == i,
                forall|k: int|
                    0 <= k < i ==> (#[trigger] outputs@[k]).deep_view() == send_header_output(
                        all[k],
                        interactive,
                    ),
            decreases settings.outputs.len() - i,
        {
            let output = &settings.outputs[i];
            let sending: Option<Sending> = if interactive {
                None
            } else {
                let digits = decimal_text(output.rate_hz as u64);
                Some(
                    Sending {
                        target: cat2(digits.as_str(), " Hz"),
                        payload_len: output.format.packet_len(),
                    },
                )
            };
            let header = HeaderOutput {
                id: output.session.id.clone(),
                port: output.session.port.clone(),
                baud_rate: output.session.baud_rate,
                format: output.format,
                sending,
            };
            assert(header.deep_view() =~= send_header_output(all[i as int], interactive));
            outputs.push(header);
            i += 1;
        }
        assert(outputs.deep_view() =~= all.map_values(
            |o: OutputSettingsModel<u32>| send_header_output(o, interactive),
        ));
        let ghost observed = settings.observed_inputs.deep_view();
        let mut formats: Vec<HeaderFormat> = Vec::new();
        let mut k: usize = 0;
        assert(observed.take(0) =~= Seq::<ObservedSpecModel>::empty());
        assert(formats.deep_view() =~= Seq::<HeaderFormatModel>::empty());
        while k < settings.observed_inputs.len()
            invariant
                k <= settings.observed_inputs.len(),
                observed == settings.observed_inputs.deep_view(),
                all == settings.outputs.deep_view(),
                formats.deep_view() == lines_of_inputs(all, observed.take(k as int)),
            decreases settings.observed_inputs.len() - k,
        {
            let spec = &settings.observed_inputs[k];
            proof {
                assert(observed.take(k + 1).drop_last() == observed.take(k as int));
                assert(observed.take(k + 1).last() == spec.deep_view());
            }
            push_lines_of_input(
                &mut formats,
                &settings.outputs,
                spec.port.as_str(),
                &spec.formats,
            );
            k += 1;
        }
        assert(observed.take(k as int) == observed);
        let state = SendingState {
            interactive,
            logging_enabled: settings.logging_enabled,
            log_path: log_path_display,
            outputs,
            formats,
            inputs: ObservedInputs::new(&settings.observed_inputs, false),
            last_status_update: start_of_status(started_at),
            header_lines: Vec::new(),
        };
        assert(state.header_lines.deep_view() =~= Seq::<Seq<char>>::empty());
        SendRuntimeState { state }
    }

    /// What the session is told of its inputs before it runs.
    pub fn configure_session(&self) -> (setups: Vec<InputSetup>)
        ensures
            setups.deep_view() == self.deep_view().inputs.map_values(
                |e: (Seq<char>, ObservedModel)| input_setup(e.1),
            ),
    {
        self.state.inputs.setups()
    }

    /// Takes received bytes in. Their packets are shown as they are. Tells what to record, where
    /// there were packets.
    pub fn handle_input(&mut self, input_id: &str, bytes: &[u8], at: u64) -> (r: Option<InputRecord>)
        requires
            old(self).deep_view().wf(),
        ensures
            final(self).deep_view().wf(),
            ({
                let handled = input_handled(
                    old(self).deep_view().inputs,
                    input_id@,
                    bytes@,
                    Seq::empty(),
                    at,
                );
                &&& recorded(r, handled.1)
                &&& final(self).deep_view() == (SendingStateModel {
                    inputs: handled.0,
                    ..old(self).deep_view()
                })
            }),
    {
        let none: Vec<PacketDecoding> = Vec::new();
        assert(none.deep_view() =~= Seq::<PacketDecodingModel>::empty());
        self.state.inputs.handle_input(input_id, bytes, &none, at)
    }

    pub fn on_tick(&mut self, now: u64) -> (r: TickOutcome)
        requires
            old(self).deep_view().wf(),
        ensures
            final(self).deep_view() == old(self).deep_view().ticked(false, now).0,
            final(self).deep_view().wf(),
            r.deep_view() == old(self).deep_view().ticked(false, now).1,
    {
        self.state.tick(false, now)
    }

    pub fn build_header_lines(&mut self, now: u64) -> (lines: Vec<String>)
        requires
            old(self).deep_view().wf(),
        ensures
            final(self).deep_view() == (SendingStateModel {
                inputs: old(self).deep_view().header(now).0,
                ..old(self).deep_view()
            }),
            final(self).deep_view().wf(),
            lines.deep_view() == old(self).deep_view().header(now).1,
    {
        self.state.build_header_lines(now)
    }
}

// ---------------------------------------------------------------------------
// `control`
// ---------------------------------------------------------------------------

/// A monitor in the header.
#[derive(Debug)]
pub struct HeaderMonitor {
    pub port: String,
    pub baud_rate: u32,
    pub formats: Vec<OutputFormat>,
}

#[verifier::ext_equal]
pub struct HeaderMonitorModel {
    pub port: Seq<char>,
    pub baud_rate: u32,
    pub formats: Seq<OutputFormat>,
}

impl DeepView for HeaderMonitor {
    type V = HeaderMonitorModel;

    open spec fn deep_view(&self) -> HeaderMonitorModel {
        HeaderMonitorModel { port: self.port@, baud_rate: self.baud_rate, formats: self.formats@ }
    }
}

/// The formats of a monitor by their names.
pub open spec fn formats_text(formats: Seq<OutputFormat>) -> Seq<char> {
    if formats.len() == 0 {
        "raw"@
    } else {
        joined(formats.map_values(|f: OutputFormat| format_name(f)), "+"@)
    }
}

pub fn format_monitor_formats(formats: &Vec<OutputFormat>) -> (r: String)
    ensures
        r@ == formats_text(formats@),
{
    if formats.len() == 0 {
        return "raw".to_owned();
    }
    let mut names: Vec<String> = Vec::new();
    let mut i: usize = 0;
    while i < formats.len()
        invariant
            i <= formats.len(),
            names.len() == i,
            forall|k: int| 0 <= k < i ==> (#[trigger] names@[k])@ == format_name(formats@[k]),
        decreases formats.len() - i,
    {
        names.push(formats[i].as_str().to_owned());
        i += 1;
    }
    assert(texts(names@) =~= formats@.map_values(|f: OutputFormat| format_name(f)));
    join(&names, "+")
}

/// The inputs after the formats of a port were counted, and the rates of those that are looked
/// for.
pub open spec fn monitor_rates(
    inputs: InputsModel,
    port: Seq<char>,
    formats: Seq<OutputFormat>,
    now: u64,
) -> (InputsModel, Seq<Seq<char>>)
    decreases formats.len(),
{
    if formats.len() == 0 {
        (inputs, Seq::empty())
    } else {
        let before = monitor_rates(inputs, port, formats.drop_last(), now);
        let counted = rated_on(before.0, port, formats.last(), now);
        match counted.1 {
            Some(rate) => (
                counted.0,
                before.1.push(format_name(formats.last()) + "="@ + rate_text(rate)),
            ),
            None => (counted.0, before.1),
        }
    }
}

pub open spec fn monitor_line(m: HeaderMonitorModel, rates: Seq<Seq<char>>) -> Seq<char> {
    let head = "monitor: "@ + m.port + " @ "@ + decimal(m.baud_rate as nat) + " baud, rx_format="@
        + formats_text(m.formats);
    if rates.len() == 0 {
        head
    } else {
        head + (", "@ + joined(rates, ", "@))
    }
}

/// The inputs after the packets of monitors were counted, and a line for each monitor.
pub open spec fn monitor_lines(inputs: InputsModel, monitors: Seq<HeaderMonitorModel>, now: u64) -> (
    InputsModel,
    Seq<Seq<char>>,
)
    decreases monitors.len(),
{
    if monitors.len() == 0 {
        (inputs, Seq::empty())
    } else {
        let before = monitor_lines(inputs, monitors.drop_last(), now);
        let m = monitors.last();
        let rates = monitor_rates(before.0, m.port, m.formats, now);
        (rates.0, before.1.push(monitor_line(m, rates.1)))
    }
}

fn rates_of_monitor(
    inputs: &mut ObservedInputs,
    port: &str,
    formats: &Vec<OutputFormat>,
    now: u64,
) -> (rates: Vec<String>)
    requires
        old(inputs).wf(),
    ensures
        final(inputs).wf(),
        final(inputs).deep_view() == monitor_rates(
            old(inputs).deep_view(),
            port@,
            formats@,
            now,
        ).0,
        texts(rates@) == monitor_rates(old(inputs).deep_view(), port@, formats@, now).1,
{
    let ghost start = inputs.deep_view();
    let mut rates: Vec<String> = Vec::new();
    let mut i: usize = 0;
    assert(formats@.take(0) =~= Seq::<OutputFormat>::empty());
    assert(texts(rates@) =~= Seq::<Seq<char>>::empty());
    while i < formats.len()
        invariant
            i <= formats.len(),
            inputs.wf(),
            inputs.deep_view() == monitor_rates(start, port@, formats@.take(i as int), now).0,
            texts(rates@) == monitor_rates(start, port@, formats@.take(i as int), now).1,
        decreases formats.len() - i,
    {
        let ghost before = texts(rates@);
        assert(formats@.take(i + 1).drop_last() == formats@.take(i as int));
        if let Some(rate) = inputs.rx_rate_hz(port, formats[i], now) {
            let rx = format_rate(rate);
            let text = cat3(formats[i].as_str(), "=", rx.as_str());
            let ghost m = text@;
            rates.push(text);
            assert(texts(rates@) =~= before.push(m));
        }
        i += 1;
    }
    assert(formats@.take(i as int) == formats@);
    rates
}

fn push_monitor_lines(
    inputs: &mut ObservedInputs,
    monitors: &Vec<HeaderMonitor>,
    now: u64,
    lines: &mut Vec<String>,
)
    requires
        old(inputs).wf(),
    ensures
        final(inputs).wf(),
        final(inputs).deep_view() == monitor_lines(
            old(inputs).deep_view(),
            monitors.deep_view(),
            now,
        ).0,
        final(lines).deep_view() == old(lines).deep_view() + monitor_lines(
            old(inputs).deep_view(),
            monitors.deep_view(),
            now,
        ).1,
{
    let ghost start = inputs.deep_view();
    let ghost first = lines.deep_view();
    let ghost all = monitors.deep_view();
    let mut i: usize = 0;
    assert(all.take(0) =~= Seq::<HeaderMonitorModel>::empty());
    assert(first + Seq::<Seq<char>>::empty() =~= first);
    while i < monitors.len()
        invariant
            i <= monitors.len(),
            inputs.wf(),
            all == monitors.deep_view(),
            inputs.deep_view() == monitor_lines(start, all.take(i as int), now).0,
            lines.deep_view() == first + monitor_lines(start, all.take(i as int), now).1,
        decreases monitors.len() - i,
    {
        let ghost before = lines.deep_view();
        let monitor = &monitors[i];
        proof {
            assert(all.take(i + 1).drop_last() == all.take(i as int));
            assert(all.take(i + 1).last() == monitor.deep_view());
        }
        let rates = rates_of_monitor(inputs, monitor.port.as_str(), &monitor.formats, now);
        let baud = decimal_text(monitor.baud_rate as u64);
        let formats = format_monitor_formats(&monitor.formats);
        let front = cat5(
            "monitor: ",
            monitor.port.as_str(),
            " @ ",
            baud.as_str(),
            " baud, rx_format=",
        );
        let head = cat2(front.as_str(), formats.as_str());
        assert(texts(rates@).len() == rates.len());
        let line = if rates.len() == 0 {
            head
        } else {
            let list = join(&rates, ", ");
            let tail = cat2(", ", list.as_str());
            cat2(head.as_str(), tail.as_str())
        };
        let ghost m = line@;
        lines.push(line);
        assert(m == monitor_line(monitor.deep_view(), texts(rates@)));
        assert(lines.deep_view() =~= before.push(m));
        assert(lines.deep_view() =~= first + monitor_lines(start, all.take(i + 1), now).1);
        i += 1;
    }
    assert(all.take(i as int) == all);
}

/// A running session of `control`.
#[derive(Debug)]
pub struct ControlRuntimeState {
    logging_enabled: bool,
    log_path: String,
    controller_line: String,
    output_line: String,
    read_usb_enabled: bool,
    monitors: Vec<HeaderMonitor>,
    inputs: ObservedInputs,
    last_status_update: u64,
    header_lines: Vec<String>,
}

#[verifier::ext_equal]
pub struct ControlStateModel {
    pub logging_enabled: bool,
    pub log_path: Seq<char>,
    pub controller_line: Seq<char>,
    pub output_line: Seq<char>,
    pub read_usb_enabled: bool,
    pub monitors: Seq<HeaderMonitorModel>,
    pub inputs: InputsModel,
    pub last_status_update: u64,
    pub header_lines: Seq<Seq<char>>,
}

impl DeepView for ControlRuntimeState {
    type V = ControlStateModel;

    closed spec fn deep_view(&self) -> ControlStateModel {
        ControlStateModel {
            logging_enabled: self.logging_enabled,
            log_path: self.log_path@,
            controller_line: self.controller_line@,
            output_line: self.output_line@,
            read_usb_enabled: self.read_usb_enabled,
            monitors: self.monitors.deep_view(),
            inputs: self.inputs.deep_view(),
            last_status_update: self.last_status_update,
            header_lines: self.header_lines.deep_view(),
        }
    }
}

/// A monitor as its header shows it.
pub open spec fn header_monitor(m: CommandInputModel) -> HeaderMonitorModel {
    HeaderMonitorModel { port: m.port, baud_rate: m.baud_rate, formats: m.formats }
}

pub open spec fn controller_line(product: Option<Seq<char>>, path: Seq<char>) -> Seq<char> {
    "controller: "@ + (match product {
        Some(product) => product,
        None => "unknown controller"@,
    }) + " ("@ + path + ")"@
}

pub open spec fn control_output_line(s: ControlSettingsModel) -> Seq<char> {
    "output: "@ + s.plan.output.port + " @ "@ + decimal(s.plan.output.baud_rate as nat)
        + " baud, format="@ + (format_name(s.plan.format) + ", tx_target="@ + decimal(
        s.plan.rate_hz as nat,
    ) + " Hz"@)
}

/// A session of `control` that starts.
pub open spec fn control_started(
    s: ControlSettingsModel,
    product: Option<Seq<char>>,
    path: Seq<char>,
    log_path: Seq<char>,
    started_at: u64,
) -> ControlStateModel {
    ControlStateModel {
        logging_enabled: s.logging_enabled,
        log_path,
        controller_line: controller_line(product, path),
        output_line: control_output_line(s),
        read_usb_enabled: s.plan.format == OutputFormat::PacketAcV6,
        monitors: s.plan.monitors.map_values(|m: CommandInputModel| header_monitor(m)),
        inputs: fresh_inputs(s.plan.observed_inputs, true),
        last_status_update: before_start(started_at),
        header_lines: Seq::empty(),
    }
}

impl ControlStateModel {
    pub open spec fn wf(self) -> bool {
        inputs_wf(self.inputs)
    }

    /// The inputs after their packets were counted, and the header.
    pub open spec fn header(self, now: u64) -> (InputsModel, Seq<Seq<char>>) {
        let monitors = monitor_lines(self.inputs, self.monitors, now);
        (
            monitors.0,
            seq![self.controller_line, self.output_line] + monitors.1 + seq![
                log_line(self.logging_enabled, self.log_path),
                if self.read_usb_enabled {
                    "Space で表示を一時停止/再開  R で READ USB  Ctrl-C で終了"@
                } else {
                    "Space で表示を一時停止/再開  Ctrl-C で終了"@
                },
            ],
        )
    }

    /// The session after its header was made, and the header where it changed.
    pub open spec fn status_made(self, now: u64) -> (ControlStateModel, Option<Seq<Seq<char>>>) {
        if status_due(self.last_status_update, now) {
            let (inputs, lines) = self.header(now);
            (
                ControlStateModel {
                    inputs,
                    last_status_update: now,
                    header_lines: lines,
                    ..self
                },
                if lines != self.header_lines {
                    Some(lines)
                } else {
                    None
                },
            )
        } else {
            (self, None)
        }
    }

    /// The session after a tick, and what the tick brings.
    pub open spec fn ticked(self, now: u64) -> (ControlStateModel, TickModel) {
        let flushing = queues_flushed(self.inputs);
        let (next, header) = ControlStateModel { inputs: flushing.inputs, ..self }.status_made(
            now,
        );
        (next, TickModel { flushed: flushing.out, header })
    }
}

impl ControlRuntimeState {
    pub fn new(
        settings: &ControlSettings,
        controller_info: &DeviceInfo,
        log_path_display: String,
        started_at: u64,
    ) -> (state: ControlRuntimeState)
        ensures
            state.deep_view() == control_started(
                settings.deep_view(),
                controller_info.product_name.deep_view(),
                controller_info.path@,
                log_path_display@,
                started_at,
            ),
            state.deep_view().wf(),
    {
        let ghost all = settings.plan.monitors.deep_view();
        let mut monitors: Vec<HeaderMonitor> = Vec::new();
        let mut i: usize = 0;
        while i < settings.plan.monitors.len()
            invariant
                i <= settings.plan.monitors.len(),
                all == settings.plan.monitors.deep_view(),
                monitors.len() == i,
                forall|k: int|
                    0 <= k < i ==> (#[trigger] monitors@[k]).deep_view() == header_monitor(all[k]),
            decreases settings.plan.monitors.len() - i,
        {
            let monitor: &IoCommandInput = &settings.plan.monitors[i];
            let header = HeaderMonitor {
                port: monitor.port.clone(),
                baud_rate: monitor.baud_rate,
                formats: copy_list(&monitor.formats),
            };
            assert(header.deep_view() =~= header_monitor(all[i as int]));
            monitors.push(header);
            i += 1;
        }
        assert(monitors.deep_view() =~= all.map_values(
            |m: CommandInputModel| header_monitor(m),
        ));
        let product: &str = match &controller_info.product_name {
            Some(product) => product.as_str(),
            None => "unknown controller",
        };
        let controller_line = cat5("controller: ", product, " (", controller_info.path.as_str(), ")");
        let plan = &settings.plan;
        let baud = decimal_text(plan.output.baud_rate as u64);
        let front = cat5(
            "output: ",
            plan.output.port.as_str(),
            " @ ",
            baud.as_str(),
            " baud, format=",
        );
        let rate = decimal_text(plan.rate_hz as u64);
        let back = cat4(plan.format.as_str(), ", tx_target=", rate.as_str(), " Hz");
        let output_line = cat2(front.as_str(), back.as_str());
        let state = ControlRuntimeState {
            logging_enabled: settings.logging_enabled,
            log_path: log_path_display,
            controller_line,
            output_line,
            read_usb_enabled: plan.format == OutputFormat::PacketAcV6,
            monitors,
            inputs: ObservedInputs::new(&plan.observed_inputs, true),
            last_status_update: start_of_status(started_at),
            header_lines: Vec::new(),
        };
        assert(state.header_lines.deep_view() =~= Seq::<Seq<char>>::empty());
        state
    }

    /// What the session is told of its inputs before it runs.
    pub fn configure_session(&self) -> (setups: Vec<InputSetup>)
        ensures
            setups.deep_view() == self.deep_view().inputs.map_values(
                |e: (Seq<char>, ObservedModel)| input_setup(e.1),
            ),
    {
        self.inputs.setups()
    }

    /// The packets that received bytes would complete.
    pub fn packets_completed_by(&self, input_id: &str, bytes: &[u8]) -> (packets: Vec<
        DecodedPacket,
    >)
        ensures
            packets.deep_view() == found_for(self.deep_view().inputs, input_id@, bytes@),
    {
        self.inputs.packets_completed_by(input_id, bytes)
    }

    /// Takes received bytes in, with what decoding their packets for the display gave. Tells what
    /// to record, where there were packets.
    pub fn handle_input(
        &mut self,
        input_id: &str,
        bytes: &[u8],
        decodings: &Vec<PacketDecoding>,
        at: u64,
    ) -> (r: Option<InputRecord>)
        requires
            old(self).deep_view().wf(),
        ensures
            final(self).deep_view().wf(),
            ({
                let handled = input_handled(
                    old(self).deep_view().inputs,
                    input_id@,
                    bytes@,
                    decodings.deep_view(),
                    at,
                );
                &&& recorded(r, handled.1)
                &&& final(self).deep_view() == (ControlStateModel {
                    inputs: handled.0,
                    ..old(self).deep_view()
                })
            }),
    {
        self.inputs.handle_input(input_id, bytes, decodings, at)
    }

    pub fn on_tick(&mut self, now: u64) -> (r: TickOutcome)
        requires
            old(self).deep_view().wf(),
        ensures
            final(self).deep_view() == old(self).deep_view().ticked(now).0,
            final(self).deep_view().wf(),
            r.deep_view() == old(self).deep_view().ticked(now).1,
    {
        let flushed = self.flush_display_queues();
        let mut header: Option<Vec<String>> = None;
        if is_status_due(self.last_status_update, now) {
            self.last_status_update = now;
            let lines = self.build_header_lines(now);
            if !same_lines(&lines, &self.header_lines) {
                self.header_lines = copy_lines(&lines);
                header = Some(lines);
            }
        }
        TickOutcome { flushed, header }
    }

    /// Takes entries out of the queues for the display.
    pub fn flush_display_queues(&mut self) -> (out: Vec<FlushedBatch>)
        requires
            old(self).deep_view().wf(),
        ensures
            final(self).deep_view().wf(),
            final(self).deep_view() == (ControlStateModel {
                inputs: queues_flushed(old(self).deep_view().inputs).inputs,
                ..old(self).deep_view()
            }),
            out.deep_view() == queues_flushed(old(self).deep_view().inputs).out,
    {
        self.inputs.flush_display_queues()
    }

    pub fn build_header_lines(&mut self, now: u64) -> (lines: Vec<String>)
        requires
            old(self).deep_view().wf(),
        ensures
            final(self).deep_view() == (ControlStateModel {
                inputs: old(self).deep_view().header(now).0,
                ..old(self).deep_view()
            }),
            final(self).deep_view().wf(),
            lines.deep_view() == old(self).deep_view().header(now).1,
    {
        let ghost m = self.deep_view();
        let mut lines: Vec<String> = Vec::new();
        lines.push(self.controller_line.clone());
        lines.push(self.output_line.clone());
        assert(lines.deep_view() =~= seq![m.controller_line, m.output_line]);
        push_monitor_lines(&mut self.inputs, &self.monitors, now, &mut lines);
        lines.push(format_log_line(self.logging_enabled, self.log_path.as_str()));
        if self.read_usb_enabled {
            lines.push("Space で表示を一時停止/再開  R で READ USB  Ctrl-C で終了".to_owned());
        } else {
            lines.push("Space で表示を一時停止/再開  Ctrl-C で終了".to_owned());
        }
        assert(lines.deep_view() =~= m.header(now).1);
        lines
    }
}

} // verus!

//! `xbee-rtt`: the texts that trace the protocol and report what was measured.
use crate::rtt::TraceSettings;
use crate::rtt_wire::{
    FrameKind, FrameModel, HelloAckWire, HelloWire, MeasurementSpecWire, MeasurementSummaryWire,
    ProtocolFrame,
};
use crate::text::{
    cat2, cat3, cat4, cat5, decimal, decimal_text, format_bytes_hex, hex_bytes, hex_fixed, hex_text,
};
use vstd::prelude::*;
use vstd::string::*;

verus! {

// ---------------------------------------------------------------------------
// Small parts
// ---------------------------------------------------------------------------

pub open spec fn round_name(round_id: u8) -> Seq<char> {
    if round_id == 1 {
        "round-1"@
    } else if round_id == 2 {
        "round-2"@
    } else {
        "unknown-round"@
    }
}

pub fn round_label(round_id: u8) -> (label: &'static str)
    ensures
        label@ == round_name(round_id),
{
    if round_id == 1 {
        "round-1"
    } else if round_id == 2 {
        "round-2"
    } else {
        "unknown-round"
    }
}

/// In a trace, round 0 is the handshake.
pub open spec fn trace_round_name(round_id: u8) -> Seq<char> {
    if round_id == 0 {
        "control"@
    } else {
        round_name(round_id)
    }
}

pub fn trace_round_label(round_id: u8) -> (label: &'static str)
    ensures
        label@ == trace_round_name(round_id),
{
    if round_id == 0 {
        "control"
    } else {
        round_label(round_id)
    }
}

#[verifier::opaque]
pub open spec fn spec_text(spec: MeasurementSpecWire) -> Seq<char> {
    "payload="@ + decimal(spec.payload_size as nat) + "B,count="@ + decimal(spec.probe_count as nat)
        + ",interval="@ + decimal(spec.interval_ms as nat) + "ms,probe-timeout="@ + decimal(
        spec.probe_timeout_ms as nat,
    ) + "ms"@
}

pub fn format_spec(spec: MeasurementSpecWire) -> (r: String)
    ensures
        r@ == spec_text(spec),
{
    reveal(spec_text);
    let mut s = cat3("payload=", decimal_text(spec.payload_size as u64).as_str(), "B,count=");
    s.append(decimal_text(spec.probe_count as u64).as_str());
    s.append(",interval=");
    s.append(decimal_text(spec.interval_ms as u64).as_str());
    s.append("ms,probe-timeout=");
    s.append(decimal_text(spec.probe_timeout_ms as u64).as_str());
    s.append("ms");
    s
}

/// Three decimal digits of a number below 1000.
pub open spec fn three_digits(n: nat) -> Seq<char> {
    (if n < 10 {
        "00"@
    } else if n < 100 {
        "0"@
    } else {
        ""@
    }) + decimal(n)
}

/// Microseconds as milliseconds with three decimals.
pub open spec fn duration_text(micros: Option<u64>) -> Seq<char> {
    match micros {
        Some(us) => decimal((us / 1000) as nat) + "."@ + three_digits((us % 1000) as nat) + " ms"@,
        None => "n/a"@,
    }
}

pub fn format_duration(micros: Option<u64>) -> (r: String)
    ensures
        r@ == duration_text(micros),
{
    match micros {
        Some(us) => {
            let rest: u64 = us % 1000;
            let zeros = if rest < 10 {
                "00"
            } else if rest < 100 {
                "0"
            } else {
                ""
            };
            let fraction = cat2(zeros, decimal_text(rest).as_str());
            cat4(decimal_text(us / 1000).as_str(), ".", fraction.as_str(), " ms")
        },
        None => "n/a".to_owned(),
    }
}

/// A round-trip time of a summary, where 0 is none.
pub open spec fn summary_time(micros: u32) -> Seq<char> {
    duration_text(
        if micros == 0 {
            None
        } else {
            Some(micros as u64)
        },
    )
}

fn format_summary_time(micros: u32) -> (r: String)
    ensures
        r@ == summary_time(micros),
{
    if micros == 0 {
        format_duration(None)
    } else {
        format_duration(Some(micros as u64))
    }
}

// ---------------------------------------------------------------------------
// Traces
// ---------------------------------------------------------------------------

#[derive(Debug, Clone, Copy, PartialEq, Eq, Structural)]
pub enum WireDirection {
    Tx,
    Rx,
}

#[derive(Debug, Clone, Copy, PartialEq, Eq, Structural)]
pub enum TraceKind {
    Wire,
    Protocol,
}

/// Sent bytes are blue, received ones red.
pub open spec fn direction_color(d: WireDirection) -> Seq<char> {
    match d {
        WireDirection::Tx => "\u{1b}[34m"@,
        WireDirection::Rx => "\u{1b}[31m"@,
    }
}

pub open spec fn direction_marker(d: WireDirection) -> Seq<char> {
    match d {
        WireDirection::Tx => ">"@,
        WireDirection::Rx => "<"@,
    }
}

pub open spec fn trace_label(kind: TraceKind) -> Seq<char> {
    match kind {
        TraceKind::Wire => "wire"@,
        TraceKind::Protocol => "proto"@,
    }
}

impl WireDirection {
    pub fn color(self) -> (r: &'static str)
        ensures
            r@ == direction_color(self),
    {
        match self {
            WireDirection::Tx => "\u{1b}[34m",
            WireDirection::Rx => "\u{1b}[31m",
        }
    }

    pub fn marker(self) -> (r: &'static str)
        ensures
            r@ == direction_marker(self),
    {
        match self {
            WireDirection::Tx => ">",
            WireDirection::Rx => "<",
        }
    }
}

impl TraceKind {
    pub fn label(self) -> (r: &'static str)
        ensures
            r@ == trace_label(self),
    {
        match self {
            TraceKind::Wire => "wire",
            TraceKind::Protocol => "proto",
        }
    }
}

/// A coloured piece of trace: what it is, which port and direction, and the body.
#[verifier::opaque]
pub open spec fn trace_chunk(
    kind: TraceKind,
    stream: Option<Seq<char>>,
    d: WireDirection,
    body: Seq<char>,
) -> Seq<char> {
    direction_color(d) + trace_label(kind) + "["@ + (match stream {
        Some(label) => label,
        None => ""@,
    }) + direction_marker(d) + "] "@ + body + "\u{1b}[0m"@ + " "@
}

pub fn format_trace_chunk(
    kind: TraceKind,
    stream_label: Option<&str>,
    direction: WireDirection,
    body: &str,
) -> (r: String)
    ensures
        r@ == trace_chunk(kind, stream_label.deep_view(), direction, body@),
{
    reveal(trace_chunk);
    let label = match stream_label {
        Some(label) => label,
        None => "",
    };
    let mut s = cat4(direction.color(), kind.label(), "[", label);
    s.append(direction.marker());
    s.append("] ");
    s.append(body);
    s.append("\u{1b}[0m");
    s.append(" ");
    s
}

pub fn format_wire_bytes(bytes: &[u8]) -> (r: String)
    ensures
        r@ == hex_bytes(bytes@),
{
    format_bytes_hex(bytes)
}

/// The line above a trace.
#[verifier::opaque]
pub open spec fn trace_heading(t: TraceSettings) -> Seq<char> {
    "live trace: tx=blue rx=red "@ + (if t.show_wire && t.show_protocol {
        "wire=hex protocol=decoded"@
    } else if t.show_wire {
        "wire=hex"@
    } else if t.show_protocol {
        "protocol=decoded"@
    } else {
        ""@
    }) + (if t.local_pair {
        " local-pair prefixes [0>] / [1<]"@
    } else {
        ""@
    })
}

pub fn format_trace_heading(t: TraceSettings) -> (r: String)
    ensures
        r@ == trace_heading(t),
{
    reveal(trace_heading);
    let modes = if t.show_wire && t.show_protocol {
        "wire=hex protocol=decoded"
    } else if t.show_wire {
        "wire=hex"
    } else if t.show_protocol {
        "protocol=decoded"
    } else {
        ""
    };
    let pair = if t.local_pair {
        " local-pair prefixes [0>] / [1<]"
    } else {
        ""
    };
    cat3("live trace: tx=blue rx=red ", modes, pair)
}

/// What is printed of a trace: a heading before the first piece, the pieces that were asked for,
/// and a line break at the end where a piece was printed since the last one.
#[derive(Debug)]
pub struct LiveTraceTap {
    settings: TraceSettings,
    heading_printed: bool,
    stream_open: bool,
}

impl LiveTraceTap {
    pub closed spec fn settings(&self) -> TraceSettings {
        self.settings
    }

    pub closed spec fn heading_printed(&self) -> bool {
        self.heading_printed
    }

    pub closed spec fn stream_open(&self) -> bool {
        self.stream_open
    }

    pub fn new(settings: TraceSettings) -> (tap: LiveTraceTap)
        ensures
            tap.settings() == settings,
            !tap.heading_printed(),
            !tap.stream_open(),
    {
        LiveTraceTap { settings, heading_printed: false, stream_open: false }
    }

    /// The text to print for a piece of trace: the heading with a line break where it has not
    /// been printed yet, and the piece.
    fn piece(&mut self, chunk: &str) -> (r: String)
        ensures
            r@ == (if old(self).heading_printed() {
                chunk@
            } else {
                trace_heading(old(self).settings()) + "\n"@ + chunk@
            }),
            final(self).heading_printed(),
            final(self).stream_open(),
            final(self).settings() == old(self).settings(),
    {
        let printed = self.heading_printed;
        self.heading_printed = true;
        self.stream_open = true;
        if printed {
            chunk.to_owned()
        } else {
            cat3(format_trace_heading(self.settings).as_str(), "\n", chunk)
        }
    }

    /// What to print for bytes on the wire.
    pub fn record_wire(
        &mut self,
        stream_label: Option<&str>,
        direction: WireDirection,
        bytes: &[u8],
    ) -> (r: Option<String>)
        ensures
            final(self).settings() == old(self).settings(),
            !old(self).settings().show_wire || bytes@.len() == 0 ==> r is None
                && final(self).heading_printed() == old(self).heading_printed()
                && final(self).stream_open() == old(self).stream_open(),
            old(self).settings().show_wire && bytes@.len() > 0 ==> ({
                let chunk = trace_chunk(
                    TraceKind::Wire,
                    stream_label.deep_view(),
                    direction,
                    hex_bytes(bytes@),
                );
                &&& r is Some
                &&& r->0@ == (if old(self).heading_printed() {
                    chunk
                } else {
                    trace_heading(old(self).settings()) + "\n"@ + chunk
                })
                &&& final(self).heading_printed()
                &&& final(self).stream_open()
            }),
    {
        if !self.settings.show_wire || bytes.len() == 0 {
            return None;
        }
        let body = format_wire_bytes(bytes);
        let chunk = format_trace_chunk(TraceKind::Wire, stream_label, direction, body.as_str());
        Some(self.piece(chunk.as_str()))
    }

    /// What to print for a frame.
    pub fn record_protocol(
        &mut self,
        stream_label: Option<&str>,
        direction: WireDirection,
        frame: &ProtocolFrame,
    ) -> (r: Option<String>)
        ensures
            final(self).settings() == old(self).settings(),
            !old(self).settings().show_protocol ==> r is None && final(self).heading_printed()
                == old(self).heading_printed() && final(self).stream_open() == old(
                self,
            ).stream_open(),
            old(self).settings().show_protocol ==> ({
                let chunk = trace_chunk(
                    TraceKind::Protocol,
                    stream_label.deep_view(),
                    direction,
                    frame_text(frame.deep_view()),
                );
                &&& r is Some
                &&& r->0@ == (if old(self).heading_printed() {
                    chunk
                } else {
                    trace_heading(old(self).settings()) + "\n"@ + chunk
                })
                &&& final(self).heading_printed()
                &&& final(self).stream_open()
            }),
    {
        if !self.settings.show_protocol {
            return None;
        }
        let body = format_protocol_frame(frame);
        let chunk = format_trace_chunk(TraceKind::Protocol, stream_label, direction, body.as_str());
        Some(self.piece(chunk.as_str()))
    }

    /// Whether a line break is due at the end.
    pub fn finish_line(&mut self) -> (due: bool)
        ensures
            due == old(self).stream_open(),
            !final(self).stream_open(),
            final(self).settings() == old(self).settings(),
            final(self).heading_printed() == old(self).heading_printed(),
    {
        let due = self.stream_open;
        self.stream_open = false;
        due
    }
}

// ---------------------------------------------------------------------------
// Frames in words
// ---------------------------------------------------------------------------

/// `session=0x........, round=...`, which most frames start with.
#[verifier::opaque]
pub open spec fn session_part(f: FrameModel) -> Seq<char> {
    "session=0x"@ + hex_fixed(f.session_id as nat, 8) + ", round="@ + trace_round_name(f.round_id)
}

fn format_session_part(frame: &ProtocolFrame) -> (r: String)
    ensures
        r@ == session_part(frame.deep_view()),
{
    reveal(session_part);
    cat4(
        "session=0x",
        hex_text(frame.session_id as u64, 8).as_str(),
        ", round=",
        trace_round_label(frame.round_id),
    )
}

/// A payload that has the wrong length.
pub open spec fn wrong_length(f: FrameModel) -> Seq<char> {
    "invalid-payload-len="@ + decimal(f.payload.len())
}

fn format_wrong_length(frame: &ProtocolFrame) -> (r: String)
    ensures
        r@ == wrong_length(frame.deep_view()),
{
    cat2("invalid-payload-len=", decimal_text(frame.payload.len() as u64).as_str())
}

#[verifier::opaque]
pub open spec fn summary_part(s: MeasurementSummaryWire) -> Seq<char> {
    "payload="@ + decimal(s.payload_size as nat) + "B, success="@ + decimal(s.success_count as nat)
        + "/"@ + decimal(s.probe_count as nat) + ", timeout="@ + decimal(s.timeout_count as nat)
        + ", mismatch="@ + decimal(s.mismatch_count as nat) + ", avg="@ + summary_time(
        s.mean_rtt_us,
    ) + ", min="@ + summary_time(s.min_rtt_us) + ", max="@ + summary_time(s.max_rtt_us)
}

fn format_summary_part(s: MeasurementSummaryWire) -> (r: String)
    ensures
        r@ == summary_part(s),
{
    reveal(summary_part);
    let mut t = cat3("payload=", decimal_text(s.payload_size as u64).as_str(), "B, success=");
    t.append(decimal_text(s.success_count as u64).as_str());
    t.append("/");
    t.append(decimal_text(s.probe_count as u64).as_str());
    t.append(", timeout=");
    t.append(decimal_text(s.timeout_count as u64).as_str());
    t.append(", mismatch=");
    t.append(decimal_text(s.mismatch_count as u64).as_str());
    t.append(", avg=");
    t.append(format_summary_time(s.mean_rtt_us).as_str());
    t.append(", min=");
    t.append(format_summary_time(s.min_rtt_us).as_str());
    t.append(", max=");
    t.append(format_summary_time(s.max_rtt_us).as_str());
    t
}

#[verifier::opaque]
pub open spec fn probe_part(f: FrameModel) -> Seq<char> {
    session_part(f) + ", seq="@ + decimal(f.seq as nat) + ", bytes="@ + decimal(f.payload.len())
}

fn format_probe_part(frame: &ProtocolFrame) -> (r: String)
    ensures
        r@ == probe_part(frame.deep_view()),
{
    reveal(probe_part);
    cat5(
        format_session_part(frame).as_str(),
        ", seq=",
        decimal_text(frame.seq as u64).as_str(),
        ", bytes=",
        decimal_text(frame.payload.len() as u64).as_str(),
    )
}

/// A frame in words: its kind, and in brackets what it carries.
pub open spec fn frame_text(f: FrameModel) -> Seq<char> {
    match f.kind {
        FrameKind::Hello => "HELLO("@ + (match HelloWire::read(f.payload) {
            Ok(hello) => "nonce=0x"@ + hex_fixed(hello.nonce as nat, 16) + ", "@ + spec_text(
                hello.spec,
            ),
            Err(_) => wrong_length(f),
        }) + ")"@,
        FrameKind::HelloAck => "HELLO_ACK("@ + (match HelloAckWire::read(f.payload) {
            Ok(ack) => "ack=0x"@ + hex_fixed(ack.ack_nonce as nat, 16),
            Err(_) => wrong_length(f),
        }) + ")"@,
        FrameKind::MeasureStart => "MEASURE_START("@ + session_part(f) + ", "@ + (
        match MeasurementSpecWire::read(f.payload) {
            Ok(spec) => spec_text(spec),
            Err(_) => wrong_length(f),
        }) + ")"@,
        FrameKind::MeasureAck => "MEASURE_ACK("@ + session_part(f) + ")"@,
        FrameKind::Probe => "PROBE("@ + probe_part(f) + ")"@,
        FrameKind::ProbeEcho => "PROBE_ECHO("@ + probe_part(f) + ")"@,
        FrameKind::Result => "RESULT("@ + session_part(f) + ", "@ + (
        match MeasurementSummaryWire::read(f.payload) {
            Ok(summary) => summary_part(summary),
            Err(_) => wrong_length(f),
        }) + ")"@,
        FrameKind::ResultAck => "RESULT_ACK("@ + session_part(f) + ")"@,
    }
}

pub fn format_protocol_frame(frame: &ProtocolFrame) -> (r: String)
    ensures
        r@ == frame_text(frame.deep_view()),
{
    let payload = frame.payload.as_slice();
    match frame.kind {
        FrameKind::Hello => {
            let body = match HelloWire::decode(payload) {
                Ok(hello) => cat4(
                    "nonce=0x",
                    hex_text(hello.nonce, 16).as_str(),
                    ", ",
                    format_spec(hello.spec).as_str(),
                ),
                Err(_) => format_wrong_length(frame),
            };
            cat3("HELLO(", body.as_str(), ")")
        },
        FrameKind::HelloAck => {
            let body = match HelloAckWire::decode(payload) {
                Ok(ack) => cat2("ack=0x", hex_text(ack.ack_nonce, 16).as_str()),
                Err(_) => format_wrong_length(frame),
            };
            cat3("HELLO_ACK(", body.as_str(), ")")
        },
        FrameKind::MeasureStart => {
            let body = match MeasurementSpecWire::decode(payload) {
                Ok(spec) => format_spec(spec),
                Err(_) => format_wrong_length(frame),
            };
            cat5("MEASURE_START(", format_session_part(frame).as_str(), ", ", body.as_str(), ")")
        },
        FrameKind::MeasureAck => cat3("MEASURE_ACK(", format_session_part(frame).as_str(), ")"),
        FrameKind::Probe => cat3("PROBE(", format_probe_part(frame).as_str(), ")"),
        FrameKind::ProbeEcho => cat3("PROBE_ECHO(", format_probe_part(frame).as_str(), ")"),
        FrameKind::Result => {
            let body = match MeasurementSummaryWire::decode(payload) {
                Ok(summary) => format_summary_part(summary),
                Err(_) => format_wrong_length(frame),
            };
            cat5("RESULT(", format_session_part(frame).as_str(), ", ", body.as_str(), ")")
        },
        FrameKind::ResultAck => cat3("RESULT_ACK(", format_session_part(frame).as_str(), ")"),
    }
}

} // verus!

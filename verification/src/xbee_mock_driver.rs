//! `xbee-mock`: what each lane of the traffic does, and the lines that tell of it.
use crate::args::{collected, lemma_collected_error};
use crate::display::{LineBreakMode, PortDisplayMode};
use crate::format::{format_name, OutputFormat};
use crate::session::{InputSpecModel, OutputSpecModel, SessionInputSpec, SessionOutputSpec};
use crate::text::{cat2, cat3, cat4, cat5, decimal, decimal_text, join, joined, texts, viewed};
use crate::xbee_mock::{
    has_kind, kind_label, mode_name, role_name, XbeeMockRole, XbeeMockTxFormat, XbeeTestFrameKind,
    XbeeTestMode,
};
use crate::xbee_mock_plan::{
    may_receive, may_send, other_side, MockSettingsModel, ResolvedTestPortModel,
    ResolvedXbeeTestPort, XbeeMockSettings,
};
use vstd::prelude::*;
use vstd::string::*;

verus! {

// ---------------------------------------------------------------------------
// Lanes
// ---------------------------------------------------------------------------

/// A lane of the traffic: what goes one way, and what answers it.
#[derive(Debug, Clone, Copy, PartialEq, Eq, Structural)]
pub enum Lane {
    Packets,
    Rover,
    Polling,
}

/// The lanes in their order.
pub open spec fn lanes() -> Seq<Lane> {
    seq![Lane::Packets, Lane::Rover, Lane::Polling]
}

/// What the base sends on a lane.
pub open spec fn lane_up(lane: Lane) -> XbeeTestFrameKind {
    match lane {
        Lane::Packets => XbeeTestFrameKind::Format(OutputFormat::PacketAcV6),
        Lane::Rover => XbeeTestFrameKind::Format(OutputFormat::RoverUpGeneral),
        Lane::Polling => XbeeTestFrameKind::PollGreeting,
    }
}

/// What the remote side sends on a lane.
pub open spec fn lane_down(lane: Lane) -> XbeeTestFrameKind {
    match lane {
        Lane::Packets => XbeeTestFrameKind::Format(OutputFormat::PacketJfV1),
        Lane::Rover => XbeeTestFrameKind::Format(OutputFormat::RoverDownGeneral),
        Lane::Polling => XbeeTestFrameKind::PollResponse,
    }
}

pub open spec fn lane_sent(role: XbeeMockRole, lane: Lane) -> XbeeTestFrameKind {
    match role {
        XbeeMockRole::Base => lane_up(lane),
        XbeeMockRole::Remote => lane_down(lane),
    }
}

pub open spec fn lane_received(role: XbeeMockRole, lane: Lane) -> XbeeTestFrameKind {
    match role {
        XbeeMockRole::Base => lane_down(lane),
        XbeeMockRole::Remote => lane_up(lane),
    }
}

/// The output that a side sends a lane to.
pub open spec fn lane_output(role: XbeeMockRole, lane: Lane) -> Seq<char> {
    match (role, lane) {
        (XbeeMockRole::Base, Lane::Packets) => "base_au"@,
        (XbeeMockRole::Base, Lane::Rover) => "base_ru"@,
        (XbeeMockRole::Base, Lane::Polling) => "base_poll"@,
        (XbeeMockRole::Remote, Lane::Packets) => "remote_ad"@,
        (XbeeMockRole::Remote, Lane::Rover) => "remote_rd"@,
        (XbeeMockRole::Remote, Lane::Polling) => "remote_poll"@,
    }
}

/// What one side sends on a lane is what the other receives on it.
pub proof fn law_lanes_meet(role: XbeeMockRole, lane: Lane)
    ensures
        lane_sent(role, lane) == lane_received(other_side(role), lane),
        may_send(role, lane_sent(role, lane)),
        may_receive(role, lane_received(role, lane)),
{
}

fn sent_on(role: XbeeMockRole, lane: Lane) -> (kind: XbeeTestFrameKind)
    ensures
        kind == lane_sent(role, lane),
{
    match (role, lane) {
        (XbeeMockRole::Base, Lane::Packets) => XbeeTestFrameKind::Format(OutputFormat::PacketAcV6),
        (XbeeMockRole::Base, Lane::Rover) => XbeeTestFrameKind::Format(
            OutputFormat::RoverUpGeneral,
        ),
        (XbeeMockRole::Base, Lane::Polling) => XbeeTestFrameKind::PollGreeting,
        (XbeeMockRole::Remote, Lane::Packets) => XbeeTestFrameKind::Format(
            OutputFormat::PacketJfV1,
        ),
        (XbeeMockRole::Remote, Lane::Rover) => XbeeTestFrameKind::Format(
            OutputFormat::RoverDownGeneral,
        ),
        (XbeeMockRole::Remote, Lane::Polling) => XbeeTestFrameKind::PollResponse,
    }
}

fn received_on(role: XbeeMockRole, lane: Lane) -> (kind: XbeeTestFrameKind)
    ensures
        kind == lane_received(role, lane),
{
    match role {
        XbeeMockRole::Base => sent_on(XbeeMockRole::Remote, lane),
        XbeeMockRole::Remote => sent_on(XbeeMockRole::Base, lane),
    }
}

pub fn lane_output_id(role: XbeeMockRole, lane: Lane) -> (id: &'static str)
    ensures
        id@ == lane_output(role, lane),
{
    match (role, lane) {
        (XbeeMockRole::Base, Lane::Packets) => "base_au",
        (XbeeMockRole::Base, Lane::Rover) => "base_ru",
        (XbeeMockRole::Base, Lane::Polling) => "base_poll",
        (XbeeMockRole::Remote, Lane::Packets) => "remote_ad",
        (XbeeMockRole::Remote, Lane::Rover) => "remote_rd",
        (XbeeMockRole::Remote, Lane::Polling) => "remote_poll",
    }
}

/// The side that is heard on an input.
pub fn xbee_mock_input_source_id(role: XbeeMockRole) -> (id: &'static str)
    ensures
        id@ == role_name(other_side(role)),
{
    match role {
        XbeeMockRole::Base => "remote",
        XbeeMockRole::Remote => "base",
    }
}

/// The rate of a kind among the formats to send.
pub open spec fn rate_of(formats: Seq<XbeeMockTxFormat>, kind: XbeeTestFrameKind) -> Option<u32>
    decreases formats.len(),
{
    if formats.len() == 0 {
        None
    } else if formats.last().kind == kind {
        Some(formats.last().rate_hz)
    } else {
        rate_of(formats.drop_last(), kind)
    }
}

fn find_rate(formats: &Vec<XbeeMockTxFormat>, kind: XbeeTestFrameKind) -> (r: Option<u32>)
    ensures
        r == rate_of(formats@, kind),
{
    let mut n: usize = formats.len();
    assert(formats@.take(n as int) == formats@);
    while n > 0
        invariant
            n <= formats.len(),
            rate_of(formats@, kind) == rate_of(formats@.take(n as int), kind),
        decreases n,
    {
        assert(formats@.take(n as int).last() == formats@[n - 1]);
        assert(formats@.take(n as int).drop_last() == formats@.take(n - 1));
        if formats[n - 1].kind == kind {
            return Some(formats[n - 1].rate_hz);
        }
        n -= 1;
    }
    None
}

/// A lane of a side: at what rate it sends, and at what rate answers are expected.
#[derive(Debug, Clone, Copy, PartialEq, Eq, Structural)]
pub struct XbeeMockLane {
    pub lane: Lane,
    pub tx_kind: XbeeTestFrameKind,
    pub rx_kind: XbeeTestFrameKind,
    pub tx_rate_hz: Option<u32>,
    pub expected_rate_hz: Option<u32>,
}

/// A lane sends what the side has a rate for, and expects answers where the side looks for them.
pub open spec fn lane_of(s: MockSettingsModel, lane: Lane) -> XbeeMockLane {
    let sent = lane_sent(s.role, lane);
    let received = lane_received(s.role, lane);
    XbeeMockLane {
        lane,
        tx_kind: sent,
        rx_kind: received,
        tx_rate_hz: rate_of(s.tx_formats, sent),
        expected_rate_hz: if s.rx_formats.contains(received) {
            rate_of(s.tx_formats, sent)
        } else {
            None
        },
    }
}

/// What answers are expected in one round.
#[derive(Debug, Clone, Copy, PartialEq, Eq, Structural)]
pub enum Expectation {
    /// None.
    Nothing,
    /// Those that are due at their rate.
    Due,
    /// One for each packet that was sent.
    PerPacket,
}

/// What a lane does in one round.
#[derive(Debug, Clone, Copy, PartialEq, Eq, Structural)]
pub struct LaneRound {
    pub send_due: bool,
    pub expect: Expectation,
}

/// A flood goes both ways at the rates. Otherwise the base sends at its rates and expects an
/// answer to each packet; the remote side only answers, and expects what is due.
pub open spec fn lane_round(role: XbeeMockRole, pattern: XbeeTestMode, lane: XbeeMockLane) -> LaneRound {
    LaneRound {
        send_due: lane.tx_rate_hz is Some && (role == XbeeMockRole::Base || pattern
            == XbeeTestMode::Flood),
        expect: if lane.expected_rate_hz is None {
            Expectation::Nothing
        } else if role == XbeeMockRole::Base && pattern != XbeeTestMode::Flood {
            Expectation::PerPacket
        } else {
            Expectation::Due
        },
    }
}

/// How many packets a lane sends in answer to received ones.
pub open spec fn lane_answers(
    role: XbeeMockRole,
    pattern: XbeeTestMode,
    lane: XbeeMockLane,
    received: nat,
) -> nat {
    if role == XbeeMockRole::Remote && pattern != XbeeTestMode::Flood && lane.tx_rate_hz is Some {
        received
    } else {
        0
    }
}

/// Unless traffic floods, a pair of sides that look for each other's packets keeps step: the base
/// expects as many answers as the remote side sends to the packets that reach it.
pub proof fn law_answers_meet_expectations(
    pattern: XbeeTestMode,
    base: XbeeMockLane,
    remote: XbeeMockLane,
    sent: nat,
)
    requires
        pattern != XbeeTestMode::Flood,
        base.expected_rate_hz is Some,
        remote.tx_rate_hz is Some,
    ensures
        lane_round(XbeeMockRole::Base, pattern, base).expect == Expectation::PerPacket,
        !lane_round(XbeeMockRole::Remote, pattern, remote).send_due,
        lane_answers(XbeeMockRole::Remote, pattern, remote, sent) == sent,
{
}

#[derive(Debug)]
pub struct GenericXbeeMockDriver {
    pub role: XbeeMockRole,
    pub lanes: Vec<XbeeMockLane>,
}

fn make_lane(settings: &XbeeMockSettings, lane: Lane) -> (r: XbeeMockLane)
    ensures
        r == lane_of(settings.deep_view(), lane),
{
    let tx_kind = sent_on(settings.role, lane);
    let rx_kind = received_on(settings.role, lane);
    let tx_rate_hz = find_rate(&settings.tx_formats, tx_kind);
    let expected_rate_hz: Option<u32> = if has_kind(&settings.rx_formats, rx_kind) {
        tx_rate_hz
    } else {
        None
    };
    XbeeMockLane { lane, tx_kind, rx_kind, tx_rate_hz, expected_rate_hz }
}

/// The first lane on which a kind is received.
pub open spec fn lane_for(all: Seq<XbeeMockLane>, kind: XbeeTestFrameKind) -> Option<XbeeMockLane>
    decreases all.len(),
{
    if all.len() == 0 {
        None
    } else if all[0].rx_kind == kind {
        Some(all[0])
    } else {
        lane_for(all.skip(1), kind)
    }
}

/// Packets of a kind are held against what is expected.
pub open spec fn is_followed(all: Seq<XbeeMockLane>, kind: XbeeTestFrameKind) -> bool {
    match lane_for(all, kind) {
        Some(lane) => lane.expected_rate_hz is Some,
        None => false,
    }
}

impl GenericXbeeMockDriver {
    pub fn new(settings: &XbeeMockSettings) -> (driver: GenericXbeeMockDriver)
        ensures
            driver.role == settings.role,
            driver.lanes@ == lanes().map_values(
                |lane: Lane| lane_of(settings.deep_view(), lane),
            ),
    {
        let mut all: Vec<XbeeMockLane> = Vec::new();
        all.push(make_lane(settings, Lane::Packets));
        all.push(make_lane(settings, Lane::Rover));
        all.push(make_lane(settings, Lane::Polling));
        assert(all@ =~= lanes().map_values(|lane: Lane| lane_of(settings.deep_view(), lane)));
        GenericXbeeMockDriver { role: settings.role, lanes: all }
    }

    /// What the lane at `i` does in one round.
    pub fn on_tick(&self, pattern: XbeeTestMode, i: usize) -> (r: LaneRound)
        requires
            i < self.lanes.len(),
        ensures
            r == lane_round(self.role, pattern, self.lanes@[i as int]),
    {
        match self.role {
            XbeeMockRole::Base => self.on_tick_base(pattern, i),
            XbeeMockRole::Remote => self.on_tick_remote(pattern, i),
        }
    }

    pub fn on_tick_base(&self, pattern: XbeeTestMode, i: usize) -> (r: LaneRound)
        requires
            i < self.lanes.len(),
        ensures
            r == lane_round(XbeeMockRole::Base, pattern, self.lanes@[i as int]),
    {
        let lane = self.lanes[i];
        let expect = if lane.expected_rate_hz.is_none() {
            Expectation::Nothing
        } else if pattern == XbeeTestMode::Flood {
            Expectation::Due
        } else {
            Expectation::PerPacket
        };
        LaneRound { send_due: lane.tx_rate_hz.is_some(), expect }
    }

    pub fn on_tick_remote(&self, pattern: XbeeTestMode, i: usize) -> (r: LaneRound)
        requires
            i < self.lanes.len(),
        ensures
            r == lane_round(XbeeMockRole::Remote, pattern, self.lanes@[i as int]),
    {
        let lane = self.lanes[i];
        let expect = if lane.expected_rate_hz.is_none() {
            Expectation::Nothing
        } else {
            Expectation::Due
        };
        LaneRound {
            send_due: lane.tx_rate_hz.is_some() && pattern == XbeeTestMode::Flood,
            expect,
        }
    }

    /// How many packets the lane at `i` sends in answer to received ones.
    pub fn handle_input(&self, pattern: XbeeTestMode, i: usize, received: usize) -> (n: usize)
        requires
            i < self.lanes.len(),
        ensures
            n == lane_answers(self.role, pattern, self.lanes@[i as int], received as nat),
    {
        if self.role != XbeeMockRole::Remote || pattern == XbeeTestMode::Flood {
            return 0;
        }
        if self.lanes[i].tx_rate_hz.is_some() {
            received
        } else {
            0
        }
    }

    fn follows(&self, kind: XbeeTestFrameKind) -> (r: bool)
        ensures
            r == is_followed(self.lanes@, kind),
    {
        let ghost all = self.lanes@;
        let mut i: usize = 0;
        assert(all.skip(0) == all);
        while i < self.lanes.len()
            invariant
                i <= self.lanes.len(),
                all == self.lanes@,
                lane_for(all, kind) == lane_for(all.skip(i as int), kind),
            decreases self.lanes.len() - i,
        {
            assert(all.skip(i as int)[0] == all[i as int]);
            if self.lanes[i].rx_kind == kind {
                return self.lanes[i].expected_rate_hz.is_some();
            }
            assert(all.skip(i as int).skip(1) == all.skip(i + 1));
            i += 1;
        }
        false
    }

    /// Which of the received kinds are held against what is expected.
    pub fn rx_format_specs(&self, selected: &Vec<XbeeTestFrameKind>) -> (r: Vec<
        (XbeeTestFrameKind, bool),
    >)
        ensures
            r@ == selected@.map_values(
                |kind: XbeeTestFrameKind| (kind, is_followed(self.lanes@, kind)),
            ),
    {
        let ghost f = |kind: XbeeTestFrameKind| (kind, is_followed(self.lanes@, kind));
        let mut specs: Vec<(XbeeTestFrameKind, bool)> = Vec::new();
        let mut i: usize = 0;
        assert(specs@ =~= selected@.take(0).map_values(f));
        while i < selected.len()
            invariant
                i <= selected.len(),
                f == (|kind: XbeeTestFrameKind| (kind, is_followed(self.lanes@, kind))),
                specs@ == selected@.take(i as int).map_values(f),
            decreases selected.len() - i,
        {
            specs.push((selected[i], self.follows(selected[i])));
            assert(selected@.take(i + 1).map_values(f) =~= selected@.take(i as int).map_values(
                f,
            ).push(f(selected@[i as int])));
            i += 1;
        }
        assert(selected@.take(i as int) == selected@);
        specs
    }
}

// ---------------------------------------------------------------------------
// The session
// ---------------------------------------------------------------------------

/// The name of a format in a session.
pub open spec fn session_name(kind: XbeeTestFrameKind) -> Seq<char> {
    match kind {
        XbeeTestFrameKind::Format(format) => format_name(format),
        XbeeTestFrameKind::PollGreeting => "pollgreeting"@,
        XbeeTestFrameKind::PollResponse => "pollresponse"@,
    }
}

fn session_format_name(kind: XbeeTestFrameKind) -> (name: &'static str)
    ensures
        name@ == session_name(kind),
{
    match kind {
        XbeeTestFrameKind::Format(format) => format.as_str(),
        XbeeTestFrameKind::PollGreeting => "pollgreeting",
        XbeeTestFrameKind::PollResponse => "pollresponse",
    }
}

/// The lane on which a side sends a kind.
pub open spec fn lane_sending(role: XbeeMockRole, kind: XbeeTestFrameKind) -> Option<Lane> {
    if lane_sent(role, Lane::Packets) == kind {
        Some(Lane::Packets)
    } else if lane_sent(role, Lane::Rover) == kind {
        Some(Lane::Rover)
    } else if lane_sent(role, Lane::Polling) == kind {
        Some(Lane::Polling)
    } else {
        None
    }
}

fn find_lane(role: XbeeMockRole, kind: XbeeTestFrameKind) -> (r: Option<Lane>)
    ensures
        r == lane_sending(role, kind),
{
    if sent_on(role, Lane::Packets) == kind {
        Some(Lane::Packets)
    } else if sent_on(role, Lane::Rover) == kind {
        Some(Lane::Rover)
    } else if sent_on(role, Lane::Polling) == kind {
        Some(Lane::Polling)
    } else {
        None
    }
}

pub open spec fn mock_output_reader(s: MockSettingsModel) -> spec_fn(XbeeMockTxFormat) -> Result<
    Option<OutputSpecModel>,
    Seq<char>,
> {
    |f: XbeeMockTxFormat|
        match lane_sending(s.role, f.kind) {
            None => Err("missing xbee-mock output mapping for "@ + kind_label(f.kind)),
            Some(lane) => Ok(
                Some(
                    OutputSpecModel {
                        id: lane_output(s.role, lane),
                        port: s.sending_port().port,
                        baud_rate: s.sending_port().baud_rate,
                        format_name: session_name(f.kind),
                        display_mode: PortDisplayMode::Hex,
                    },
                ),
            ),
        }
}

/// The outputs of the session, one for each format that has a lane.
pub open spec fn mock_outputs(s: MockSettingsModel) -> Result<Seq<OutputSpecModel>, Seq<char>> {
    collected(mock_output_reader(s), s.tx_formats)
}

pub fn mock_session_outputs(settings: &XbeeMockSettings) -> (r: Result<
    Vec<SessionOutputSpec>,
    String,
>)
    ensures
        viewed(r) == mock_outputs(settings.deep_view()),
{
    let ghost s = settings.deep_view();
    let ghost read = mock_output_reader(s);
    let ghost all = settings.tx_formats@;
    let mut outputs: Vec<SessionOutputSpec> = Vec::new();
    let mut i: usize = 0;
    assert(all.take(0) =~= Seq::<XbeeMockTxFormat>::empty());
    assert(outputs.deep_view() =~= Seq::<OutputSpecModel>::empty());
    while i < settings.tx_formats.len()
        invariant
            i <= settings.tx_formats.len(),
            s == settings.deep_view(),
            all == settings.tx_formats@,
            read == mock_output_reader(s),
            collected(read, all.take(i as int)) == Ok::<Seq<OutputSpecModel>, Seq<char>>(
                outputs.deep_view(),
            ),
        decreases settings.tx_formats.len() - i,
    {
        proof {
            assert(all.take(i + 1).drop_last() == all.take(i as int));
            assert(all.take(i + 1).last() == all[i as int]);
        }
        let kind = settings.tx_formats[i].kind;
        match find_lane(settings.role, kind) {
            None => {
                let e = cat2("missing xbee-mock output mapping for ", kind.display_name());
                proof {
                    lemma_collected_error(read, all, i + 1, e@);
                }
                return Err(e);
            },
            Some(lane) => {
                let ghost before = outputs.deep_view();
                let output = SessionOutputSpec {
                    id: lane_output_id(settings.role, lane).to_owned(),
                    port: settings.tx_port().port.clone(),
                    baud_rate: settings.tx_port().baud_rate,
                    format_name: session_format_name(kind).to_owned(),
                    display_mode: PortDisplayMode::Hex,
                };
                let ghost m = output.deep_view();
                outputs.push(output);
                assert(outputs.deep_view() =~= before.push(m));
            },
        }
        i += 1;
    }
    assert(all.take(i as int) == all);
    Ok(outputs)
}

/// The input of a mock: the port that it receives on, shown in hexadecimal packet by packet.
pub open spec fn mock_input(s: MockSettingsModel) -> InputSpecModel {
    InputSpecModel {
        id: role_name(s.role),
        port: s.receiving_port().port,
        baud_rate: s.receiving_port().baud_rate,
        display_mode: PortDisplayMode::Hex,
        line_break_mode: LineBreakMode::Packet,
    }
}

pub fn mock_session_input(settings: &XbeeMockSettings) -> (input: SessionInputSpec)
    ensures
        input.deep_view() == mock_input(settings.deep_view()),
        input.deep_view() == (InputSpecModel {
            id: role_name(settings.role),
            port: settings.deep_view().receiving_port().port,
            baud_rate: settings.deep_view().receiving_port().baud_rate,
            display_mode: PortDisplayMode::Hex,
            line_break_mode: LineBreakMode::Packet,
        }),
{
    SessionInputSpec {
        id: settings.role.as_str().to_owned(),
        port: settings.rx_port().port.clone(),
        baud_rate: settings.rx_port().baud_rate,
        display_mode: PortDisplayMode::Hex,
        line_break_mode: LineBreakMode::Packet,
    }
}

// ---------------------------------------------------------------------------
// Lines
// ---------------------------------------------------------------------------

/// A port with its baud rate.
pub open spec fn port_at(p: ResolvedTestPortModel) -> Seq<char> {
    p.port + "@"@ + decimal(p.baud_rate as nat)
}

pub fn port_at_text(port: &ResolvedXbeeTestPort) -> (r: String)
    ensures
        r@ == port_at(port.deep_view()),
{
    let baud = decimal_text(port.baud_rate as u64);
    cat3(port.port.as_str(), "@", baud.as_str())
}

pub open spec fn tx_label(f: XbeeMockTxFormat) -> Seq<char> {
    kind_label(f.kind) + "@"@ + decimal(f.rate_hz as nat) + "Hz"@
}

pub open spec fn rx_label(kind: XbeeTestFrameKind, followed: bool) -> Seq<char> {
    if followed {
        kind_label(kind)
    } else {
        kind_label(kind) + "(passive)"@
    }
}

/// The formats that are sent, with their rates.
pub fn tx_summary(formats: &Vec<XbeeMockTxFormat>) -> (r: String)
    ensures
        r@ == joined(formats@.map_values(|f: XbeeMockTxFormat| tx_label(f)), ", "@),
{
    let ghost f = |f: XbeeMockTxFormat| tx_label(f);
    let mut labels: Vec<String> = Vec::new();
    let mut i: usize = 0;
    assert(texts(labels@) =~= formats@.take(0).map_values(f));
    while i < formats.len()
        invariant
            i <= formats.len(),
            f == (|f: XbeeMockTxFormat| tx_label(f)),
            texts(labels@) == formats@.take(i as int).map_values(f),
        decreases formats.len() - i,
    {
        let ghost before = texts(labels@);
        let rate = decimal_text(formats[i].rate_hz as u64);
        labels.push(cat4(formats[i].kind.display_name(), "@", rate.as_str(), "Hz"));
        proof {
            assert(texts(labels@) =~= before.push(tx_label(formats@[i as int])));
            assert(formats@.take(i + 1).map_values(f) =~= formats@.take(i as int).map_values(
                f,
            ).push(tx_label(formats@[i as int])));
        }
        i += 1;
    }
    assert(formats@.take(i as int) == formats@);
    join(&labels, ", ")
}

/// The formats that are received; those that are not held against anything are passive.
pub fn rx_summary(formats: &Vec<(XbeeTestFrameKind, bool)>) -> (r: String)
    ensures
        r@ == joined(
            formats@.map_values(|f: (XbeeTestFrameKind, bool)| rx_label(f.0, f.1)),
            ", "@,
        ),
{
    let ghost f = |f: (XbeeTestFrameKind, bool)| rx_label(f.0, f.1);
    let mut labels: Vec<String> = Vec::new();
    let mut i: usize = 0;
    assert(texts(labels@) =~= formats@.take(0).map_values(f));
    while i < formats.len()
        invariant
            i <= formats.len(),
            f == (|f: (XbeeTestFrameKind, bool)| rx_label(f.0, f.1)),
            texts(labels@) == formats@.take(i as int).map_values(f),
        decreases formats.len() - i,
    {
        let ghost before = texts(labels@);
        let (kind, followed) = formats[i];
        if followed {
            labels.push(kind.display_name().to_owned());
        } else {
            labels.push(cat2(kind.display_name(), "(passive)"));
        }
        proof {
            assert(texts(labels@) =~= before.push(rx_label(kind, followed)));
            assert(formats@.take(i + 1).map_values(f) =~= formats@.take(i as int).map_values(
                f,
            ).push(rx_label(kind, followed)));
        }
        i += 1;
    }
    assert(formats@.take(i as int) == formats@);
    join(&labels, ", ")
}

/// The line that tells what was run.
#[verifier::opaque]
pub open spec fn mock_result_text(s: MockSettingsModel) -> Seq<char> {
    "role="@ + role_name(s.role) + " pair="@ + decimal(s.pair_number as nat) + " pattern="@
        + mode_name(s.traffic_pattern) + " up="@ + port_at(s.uplink_port) + " down="@ + port_at(
        s.downlink_port,
    )
}

pub fn format_mock_result(settings: &XbeeMockSettings) -> (r: String)
    ensures
        r@ == mock_result_text(settings.deep_view()),
{
    reveal(mock_result_text);
    let pair = decimal_text(settings.pair_number as u64);
    let up = port_at_text(&settings.uplink_port);
    let down = port_at_text(&settings.downlink_port);
    let mut r = cat5("role=", settings.role.as_str(), " pair=", pair.as_str(), " pattern=");
    r.append(settings.traffic_pattern.as_str());
    r.append(" up=");
    r.append(up.as_str());
    r.append(" down=");
    r.append(down.as_str());
    r
}

/// The line that tells what became of a format that was sent.
pub open spec fn tx_result_text(f: XbeeMockTxFormat, sent: u64, errors: u64) -> Seq<char> {
    "  tx "@ + tx_label(f) + ": sent="@ + decimal(sent as nat) + " tx_err="@ + decimal(
        errors as nat,
    )
}

pub fn format_tx_result(format: XbeeMockTxFormat, sent: u64, errors: u64) -> (r: String)
    ensures
        r@ == tx_result_text(format, sent, errors),
{
    let rate = decimal_text(format.rate_hz as u64);
    let label = cat4(format.kind.display_name(), "@", rate.as_str(), "Hz");
    let sent_text = decimal_text(sent);
    let error_text = decimal_text(errors);
    let mut r = cat5("  tx ", label.as_str(), ": sent=", sent_text.as_str(), " tx_err=");
    r.append(error_text.as_str());
    r
}

} // verus!

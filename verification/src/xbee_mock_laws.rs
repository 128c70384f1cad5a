//! Laws of `xbee-mock`: who sends what, when, at which rate and on which port.
use crate::args::{applied, collected};
use crate::display::{LineBreakMode, PortDisplayMode};
use crate::format::{parsed_format, OutputFormat};
use crate::mock_state::{expected_rates, sent_by_lanes};
use crate::ports::Lookup;
use crate::text::{
    cut_at_last, decimal, is_digit, lemma_decimal, lemma_last_at, lemma_number_of_decimal, lower,
    trimmed,
};
use crate::text_laws::law_cut_at_last;
use crate::xbee_mock::{
    frame_kind, mode_name, mode_named, port_id_named, role_name, role_named, rx_format_added,
    tx_format_added, tx_kinds, MockOptionsModel, MockPortModel, XbeeMockPortId, XbeeMockRole,
    XbeeMockTxFormat, XbeeTestFrameKind, XbeeTestMode,
};
use crate::xbee_mock_driver::{
    is_followed, lane_answers, lane_for, lane_of, lane_output, lane_received, lane_round,
    lane_sending, lane_sent, lanes, mock_input, mock_output_reader, mock_outputs, rate_of,
    Expectation, Lane, XbeeMockLane,
};
use crate::xbee_mock_plan::{
    first_not_receivable, first_not_sendable, may_receive, may_send, mock_line_step, mock_ports,
    mock_settings, other_side, traffic_checked, MockLines, MockSettingsModel,
};
use vstd::prelude::*;

verus! {

// ---------------------------------------------------------------------------
// Rounds
// ---------------------------------------------------------------------------

/// In a flood each side sends what is due on every lane that it has a rate for, and expects what
/// is due where it expects anything; nothing is sent in answer.
pub proof fn law_flood_goes_both_ways(role: XbeeMockRole, lane: XbeeMockLane, received: nat)
    ensures
        lane_round(role, XbeeTestMode::Flood, lane).send_due <==> lane.tx_rate_hz is Some,
        lane_round(role, XbeeTestMode::Flood, lane).expect == Expectation::Due
            <==> lane.expected_rate_hz is Some,
        lane_round(role, XbeeTestMode::Flood, lane).expect != Expectation::PerPacket,
        lane_answers(role, XbeeTestMode::Flood, lane, received) == 0,
{
}

/// In every pattern a lane with a rate either sends what is due or answers each received packet,
/// never both; a lane without one does neither.
pub proof fn law_lane_sends_or_answers(
    role: XbeeMockRole,
    pattern: XbeeTestMode,
    lane: XbeeMockLane,
    received: nat,
)
    requires
        received > 0,
    ensures
        lane.tx_rate_hz is Some ==> (lane_round(role, pattern, lane).send_due <==> lane_answers(
            role,
            pattern,
            lane,
            received,
        ) == 0),
        lane_answers(role, pattern, lane, received) == received || lane_answers(
            role,
            pattern,
            lane,
            received,
        ) == 0,
        lane.tx_rate_hz is None ==> !lane_round(role, pattern, lane).send_due && lane_answers(
            role,
            pattern,
            lane,
            received,
        ) == 0,
        lane.expected_rate_hz is None <==> lane_round(role, pattern, lane).expect
            == Expectation::Nothing,
{
}

/// Ping-pong and polling start at the base: it sends what is due and expects an answer to each
/// packet, and the remote side sends in answer only.
pub proof fn law_base_leads(pattern: XbeeTestMode, lane: XbeeMockLane, received: nat)
    requires
        pattern != XbeeTestMode::Flood,
        lane.tx_rate_hz is Some,
        lane.expected_rate_hz is Some,
    ensures
        lane_round(XbeeMockRole::Base, pattern, lane).send_due,
        lane_round(XbeeMockRole::Base, pattern, lane).expect == Expectation::PerPacket,
        lane_answers(XbeeMockRole::Base, pattern, lane, received) == 0,
        !lane_round(XbeeMockRole::Remote, pattern, lane).send_due,
        lane_round(XbeeMockRole::Remote, pattern, lane).expect == Expectation::Due,
        lane_answers(XbeeMockRole::Remote, pattern, lane, received) == received,
{
}

// ---------------------------------------------------------------------------
// Lanes
// ---------------------------------------------------------------------------

proof fn lemma_rate_of(formats: Seq<XbeeMockTxFormat>, i: int)
    requires
        0 <= i < formats.len(),
        forall|k: int| i < k < formats.len() ==> (#[trigger] formats[k]).kind != formats[i].kind,
    ensures
        rate_of(formats, formats[i].kind) == Some(formats[i].rate_hz),
    decreases formats.len(),
{
    if i < formats.len() - 1 {
        let init = formats.drop_last();
        assert(formats[formats.len() - 1].kind != formats[i].kind);
        assert forall|k: int| i < k < init.len() implies (#[trigger] init[k]).kind
            != init[i].kind by {
            assert(init[k] == formats[k]);
        }
        lemma_rate_of(init, i);
    }
}

proof fn lemma_no_rate(formats: Seq<XbeeMockTxFormat>, kind: XbeeTestFrameKind)
    requires
        forall|k: int| 0 <= k < formats.len() ==> (#[trigger] formats[k]).kind != kind,
    ensures
        rate_of(formats, kind) is None,
    decreases formats.len(),
{
    if formats.len() > 0 {
        assert(formats[formats.len() - 1].kind != kind);
        let init = formats.drop_last();
        assert forall|k: int| 0 <= k < init.len() implies (#[trigger] init[k]).kind != kind by {
            assert(init[k] == formats[k]);
        }
        lemma_no_rate(init, kind);
    }
}

/// The lane of a format that a side is to send sends it at the rate that was given with it. It
/// expects its counterpart at that rate where the side looks for it. A lane whose format is not
/// to be sent has neither rate.
pub proof fn law_lane_has_the_given_rate(s: MockSettingsModel, lane: Lane, i: int)
    ensures
        0 <= i < s.tx_formats.len() && s.tx_formats[i].kind == lane_sent(s.role, lane) && (forall|
            k: int,
        |
            0 <= k < s.tx_formats.len() && k != i ==> (#[trigger] s.tx_formats[k]).kind
                != s.tx_formats[i].kind) ==> {
            let l = lane_of(s, lane);
            &&& l.tx_rate_hz == Some(s.tx_formats[i].rate_hz)
            &&& l.tx_kind == s.tx_formats[i].kind
            &&& s.rx_formats.contains(l.rx_kind) ==> l.expected_rate_hz == Some(
                s.tx_formats[i].rate_hz,
            )
            &&& !s.rx_formats.contains(l.rx_kind) ==> l.expected_rate_hz is None
        },
        (forall|k: int|
            0 <= k < s.tx_formats.len() ==> (#[trigger] s.tx_formats[k]).kind != lane_sent(
                s.role,
                lane,
            )) ==> lane_of(s, lane).tx_rate_hz is None && lane_of(s, lane).expected_rate_hz is None,
{
    if 0 <= i < s.tx_formats.len() && s.tx_formats[i].kind == lane_sent(s.role, lane) && (forall|
        k: int,
    |
        0 <= k < s.tx_formats.len() && k != i ==> (#[trigger] s.tx_formats[k]).kind
            != s.tx_formats[i].kind) {
        lemma_rate_of(s.tx_formats, i);
    }
    if forall|k: int|
        0 <= k < s.tx_formats.len() ==> (#[trigger] s.tx_formats[k]).kind != lane_sent(
            s.role,
            lane,
        ) {
        lemma_no_rate(s.tx_formats, lane_sent(s.role, lane));
    }
}

/// The base sends PacketACv6, RoverUpGeneral and greetings, each on a lane of its own, and the
/// remote side sends PacketJFv1, RoverDownGeneral and responses. The outputs of the lanes all
/// differ.
pub proof fn law_lanes_carry_their_formats()
    ensures
        lanes().len() == 3,
        lanes().map_values(|l: Lane| lane_sent(XbeeMockRole::Base, l)) == seq![
            XbeeTestFrameKind::Format(OutputFormat::PacketAcV6),
            XbeeTestFrameKind::Format(OutputFormat::RoverUpGeneral),
            XbeeTestFrameKind::PollGreeting,
        ],
        lanes().map_values(|l: Lane| lane_sent(XbeeMockRole::Remote, l)) == seq![
            XbeeTestFrameKind::Format(OutputFormat::PacketJfV1),
            XbeeTestFrameKind::Format(OutputFormat::RoverDownGeneral),
            XbeeTestFrameKind::PollResponse,
        ],
        lanes().map_values(|l: Lane| lane_received(XbeeMockRole::Remote, l)) == lanes().map_values(
            |l: Lane| lane_sent(XbeeMockRole::Base, l),
        ),
        lanes().map_values(|l: Lane| lane_received(XbeeMockRole::Base, l)) == lanes().map_values(
            |l: Lane| lane_sent(XbeeMockRole::Remote, l),
        ),
        forall|r: XbeeMockRole, q: XbeeMockRole, l: Lane, m: Lane| #[trigger]
            lane_output(r, l) == #[trigger] lane_output(q, m) ==> r == q && l == m,
{
    reveal_strlit("base_au");
    reveal_strlit("base_ru");
    reveal_strlit("base_poll");
    reveal_strlit("remote_ad");
    reveal_strlit("remote_rd");
    reveal_strlit("remote_poll");
    assert(lanes().map_values(|l: Lane| lane_sent(XbeeMockRole::Base, l)) =~= seq![
        XbeeTestFrameKind::Format(OutputFormat::PacketAcV6),
        XbeeTestFrameKind::Format(OutputFormat::RoverUpGeneral),
        XbeeTestFrameKind::PollGreeting,
    ]);
    assert(lanes().map_values(|l: Lane| lane_sent(XbeeMockRole::Remote, l)) =~= seq![
        XbeeTestFrameKind::Format(OutputFormat::PacketJfV1),
        XbeeTestFrameKind::Format(OutputFormat::RoverDownGeneral),
        XbeeTestFrameKind::PollResponse,
    ]);
    assert("base_au"@[5] != "base_ru"@[5]);
    assert("base_au"@[0] != "remote_ad"@[0]);
    assert("remote_ad"@[7] != "remote_rd"@[7]);
    assert("remote_poll"@[7] != "remote_rd"@[7]);
    assert("remote_poll"@[7] != "remote_ad"@[7]);
    assert("base_poll"@[5] != "base_ru"@[5]);
    assert("base_poll"@[5] != "base_au"@[5]);
    assert("base_au"@.len() != "remote_ad"@.len());
    assert("base_au"@[0] == 'b' && "base_ru"@[0] == 'b' && "base_poll"@[0] == 'b');
    assert("remote_ad"@[0] == 'r' && "remote_rd"@[0] == 'r' && "remote_poll"@[0] == 'r');
}

/// A received format is held against what is expected exactly where its lane expects anything.
pub proof fn law_followed_where_expected(s: MockSettingsModel, lane: Lane)
    ensures
        ({
            let all = lanes().map_values(|l: Lane| lane_of(s, l));
            is_followed(all, lane_received(s.role, lane)) <==> lane_of(
                s,
                lane,
            ).expected_rate_hz is Some
        }),
{
    let all = lanes().map_values(|l: Lane| lane_of(s, l));
    let kind = lane_received(s.role, lane);
    reveal_with_fuel(lane_for, 4);
    assert(all[0] == lane_of(s, Lane::Packets));
    assert(all.skip(1)[0] == lane_of(s, Lane::Rover));
    assert(all.skip(1).skip(1)[0] == lane_of(s, Lane::Polling));
}

/// The rates that are expected are those of the lanes that expect anything, with the formats
/// that these receive; the results tell of the lanes that send, with their counts.
pub proof fn law_results_tell_of_the_lanes(
    lanes: Seq<XbeeMockLane>,
    sent: Seq<u64>,
    errors: Seq<u64>,
    i: int,
)
    requires
        0 <= i < lanes.len(),
    ensures
        lanes[i].expected_rate_hz matches Some(rate) ==> expected_rates(lanes).contains(
            (lanes[i].rx_kind, rate),
        ),
        lanes[i].tx_rate_hz matches Some(rate) ==> exists|k: int|
            0 <= k < sent_by_lanes(lanes, sent, errors).len() && {
                let r = #[trigger] sent_by_lanes(lanes, sent, errors)[k];
                r.kind == lanes[i].tx_kind && r.rate_hz == rate && r.sent_packets == sent[i]
                    && r.write_errors == errors[i]
            },
    decreases lanes.len(),
{
    let init = lanes.drop_last();
    let rates = expected_rates(lanes);
    let results = sent_by_lanes(lanes, sent, errors);
    if i == lanes.len() - 1 {
        if lanes[i].expected_rate_hz is Some {
            assert(rates[rates.len() - 1] == (lanes[i].rx_kind, lanes[i].expected_rate_hz->0));
        }
        if lanes[i].tx_rate_hz is Some {
            assert(results[results.len() - 1].kind == lanes[i].tx_kind);
        }
    } else {
        assert(init[i] == lanes[i]);
        law_results_tell_of_the_lanes(init, sent, errors, i);
        let init_rates = expected_rates(init);
        let init_results = sent_by_lanes(init, sent, errors);
        assert(forall|k: int| 0 <= k < init_rates.len() ==> init_rates[k] == rates[k]);
        assert(forall|k: int| 0 <= k < init_results.len() ==> init_results[k] == results[k]);
        if let Some(rate) = lanes[i].expected_rate_hz {
            let k = choose|k: int|
                0 <= k < init_rates.len() && init_rates[k] == (lanes[i].rx_kind, rate);
            assert(rates[k] == (lanes[i].rx_kind, rate));
        }
        if let Some(rate) = lanes[i].tx_rate_hz {
            let k = choose|k: int|
                0 <= k < init_results.len() && {
                    let r = #[trigger] init_results[k];
                    r.kind == lanes[i].tx_kind && r.rate_hz == rate && r.sent_packets == sent[i]
                        && r.write_errors == errors[i]
                };
            assert(results[k] == init_results[k]);
        }
    }
}

// ---------------------------------------------------------------------------
// Traffic
// ---------------------------------------------------------------------------

/// The formats that go from the base to the remote side.
pub open spec fn up_formats() -> Seq<OutputFormat> {
    seq![
        OutputFormat::PacketAcV6,
        OutputFormat::PacketAcV6Usb,
        OutputFormat::PacketMv1,
        OutputFormat::PacketIv1,
        OutputFormat::PacketBv1,
        OutputFormat::RoverUpGeneral,
    ]
}

/// The formats that go from the remote side to the base.
pub open spec fn down_formats() -> Seq<OutputFormat> {
    seq![OutputFormat::PacketJfV1, OutputFormat::RoverDownGeneral]
}

proof fn lemma_all_sendable(role: XbeeMockRole, tx: Seq<XbeeMockTxFormat>)
    ensures
        first_not_sendable(role, tx) is None <==> forall|i: int|
            0 <= i < tx.len() ==> may_send(role, (#[trigger] tx[i]).kind),
    decreases tx.len(),
{
    if tx.len() > 0 {
        let rest = tx.skip(1);
        lemma_all_sendable(role, rest);
        assert(forall|i: int| 0 <= i < rest.len() ==> #[trigger] rest[i] == tx[i + 1]);
        if first_not_sendable(role, tx) is None {
            assert forall|i: int| 0 <= i < tx.len() implies may_send(
                role,
                (#[trigger] tx[i]).kind,
            ) by {
                if i > 0 {
                    assert(rest[i - 1] == tx[i]);
                }
            }
        } else if may_send(role, tx[0].kind) {
            let i = choose|i: int|
                0 <= i < rest.len() && !may_send(
                    role,
                    (#[trigger] rest[i]).kind,
                );
            assert(tx[i + 1] == rest[i]);
        }
    }
}

proof fn lemma_all_receivable(role: XbeeMockRole, rx: Seq<XbeeTestFrameKind>)
    ensures
        first_not_receivable(role, rx) is None <==> forall|i: int|
            0 <= i < rx.len() ==> may_receive(role, #[trigger] rx[i]),
    decreases rx.len(),
{
    if rx.len() > 0 {
        let rest = rx.skip(1);
        lemma_all_receivable(role, rest);
        assert(forall|i: int| 0 <= i < rest.len() ==> #[trigger] rest[i] == rx[i + 1]);
        if first_not_receivable(role, rx) is None {
            assert forall|i: int| 0 <= i < rx.len() implies may_receive(
                role,
                #[trigger] rx[i],
            ) by {
                if i > 0 {
                    assert(rest[i - 1] == rx[i]);
                }
            }
        } else if may_receive(role, rx[0]) {
            let i = choose|i: int|
                0 <= i < rest.len() && !may_receive(
                    role,
                    #[trigger] rest[i],
                );
            assert(rx[i + 1] == rest[i]);
        }
    }
}

/// In a flood or a ping-pong a side may send any formats that go its way and look for any that go
/// the other way, and no others.
pub proof fn law_traffic_goes_its_way(
    role: XbeeMockRole,
    pattern: XbeeTestMode,
    tx: Seq<XbeeMockTxFormat>,
    rx: Seq<XbeeTestFrameKind>,
)
    requires
        pattern != XbeeTestMode::Polling,
    ensures
        ({
            let (sent, received) = match role {
                XbeeMockRole::Base => (up_formats(), down_formats()),
                XbeeMockRole::Remote => (down_formats(), up_formats()),
            };
            traffic_checked(role, pattern, tx, rx) is Ok <==> {
                &&& forall|i: int|
                    0 <= i < tx.len() ==> ((#[trigger] tx[i]).kind matches
                        XbeeTestFrameKind::Format(f) && sent.contains(f))
                &&& forall|i: int|
                    0 <= i < rx.len() ==> ((#[trigger] rx[i]) matches XbeeTestFrameKind::Format(f)
                        && received.contains(f))
            }
        }),
{
    lemma_all_sendable(role, tx);
    lemma_all_receivable(role, rx);
    let up = up_formats();
    let down = down_formats();
    assert(up[0] == OutputFormat::PacketAcV6 && up[1] == OutputFormat::PacketAcV6Usb && up[2]
        == OutputFormat::PacketMv1 && up[3] == OutputFormat::PacketIv1 && up[4]
        == OutputFormat::PacketBv1 && up[5] == OutputFormat::RoverUpGeneral);
    assert(down[0] == OutputFormat::PacketJfV1 && down[1] == OutputFormat::RoverDownGeneral);
    let (sent, received) = match role {
        XbeeMockRole::Base => (up, down),
        XbeeMockRole::Remote => (down, up),
    };
    let fits = (forall|i: int|
        0 <= i < tx.len() ==> ((#[trigger] tx[i]).kind matches XbeeTestFrameKind::Format(f)
            && sent.contains(f))) && (forall|i: int|
        0 <= i < rx.len() ==> ((#[trigger] rx[i]) matches XbeeTestFrameKind::Format(f)
            && received.contains(f)));
    if traffic_checked(role, pattern, tx, rx) is Ok {
        assert forall|i: int| 0 <= i < tx.len() implies ((#[trigger] tx[i]).kind matches
            XbeeTestFrameKind::Format(f) && sent.contains(f)) by {
            assert(may_send(role, tx[i].kind));
        }
        assert forall|i: int| 0 <= i < rx.len() implies ((#[trigger] rx[i]) matches
            XbeeTestFrameKind::Format(f) && received.contains(f)) by {
            assert(may_receive(role, rx[i]));
        }
    }
    if fits {
        assert forall|i: int| 0 <= i < tx.len() implies may_send(
            role,
            (#[trigger] tx[i]).kind,
        ) by {
            let f = tx[i].kind->Format_0;
            assert(sent.contains(f));
        }
        assert forall|i: int| 0 <= i < rx.len() implies may_receive(
            role,
            #[trigger] rx[i],
        ) by {
            let f = rx[i]->Format_0;
            assert(received.contains(f));
        }
    }
}

/// Polling has exactly one format each way: greetings from the base, responses to it.
pub proof fn law_polling_has_its_two_frames(
    role: XbeeMockRole,
    tx: Seq<XbeeMockTxFormat>,
    rx: Seq<XbeeTestFrameKind>,
)
    ensures
        ({
            let greeting = XbeeTestFrameKind::PollGreeting;
            let response = XbeeTestFrameKind::PollResponse;
            traffic_checked(role, XbeeTestMode::Polling, tx, rx) is Ok <==> tx.len() == 1
                && rx.len() == 1 && (match role {
                XbeeMockRole::Base => tx[0].kind == greeting && rx[0] == response,
                XbeeMockRole::Remote => tx[0].kind == response && rx[0] == greeting,
            })
        }),
{
    lemma_all_sendable(role, tx);
    lemma_all_receivable(role, rx);
}

/// What one side sends and the other looks for goes together with what the other sends and the
/// first looks for: traffic that suits one side, turned round, suits the other.
pub proof fn law_traffic_turned_round(
    role: XbeeMockRole,
    pattern: XbeeTestMode,
    tx: Seq<XbeeMockTxFormat>,
    rx: Seq<XbeeTestFrameKind>,
    rate_hz: u32,
)
    requires
        traffic_checked(role, pattern, tx, rx) is Ok,
    ensures
        traffic_checked(
            other_side(role),
            pattern,
            rx.map_values(|kind: XbeeTestFrameKind| XbeeMockTxFormat { kind, rate_hz }),
            tx.map_values(|f: XbeeMockTxFormat| f.kind),
        ) is Ok,
{
    let back_tx = rx.map_values(|kind: XbeeTestFrameKind| XbeeMockTxFormat { kind, rate_hz });
    let back_rx = tx.map_values(|f: XbeeMockTxFormat| f.kind);
    lemma_all_sendable(role, tx);
    lemma_all_receivable(role, rx);
    lemma_all_sendable(other_side(role), back_tx);
    lemma_all_receivable(other_side(role), back_rx);
    assert forall|i: int| 0 <= i < back_tx.len() implies may_send(
        other_side(role),
        (#[trigger] back_tx[i]).kind,
    ) by {
        assert(may_receive(role, rx[i]));
    }
    assert forall|i: int| 0 <= i < back_rx.len() implies may_receive(
        other_side(role),
        #[trigger] back_rx[i],
    ) by {
        assert(may_send(role, tx[i].kind));
    }
}

// ---------------------------------------------------------------------------
// Ports
// ---------------------------------------------------------------------------

/// Where the two directions share a port, it is both; where each has its own, the labels tell
/// which is which, in whatever order they are given. A baud rate that is named stays.
pub proof fn law_ports_by_direction(one: MockPortModel, other: MockPortModel)
    ensures
        mock_ports(1, seq![one]) matches Ok((up, down)) && up.port == one.port && up.baud
            == one.baud && down.port == one.port && down.baud == one.baud,
        one.id == Some(XbeeMockPortId::Up) && other.id == Some(XbeeMockPortId::Down) ==> {
            &&& mock_ports(2, seq![one, other]) matches Ok((up, down)) && up.port == one.port
                && up.baud == one.baud && down.port == other.port && down.baud == other.baud
            &&& mock_ports(2, seq![other, one]) == mock_ports(2, seq![one, other])
        },
        one.id == other.id ==> mock_ports(2, seq![one, other]) is Err,
        mock_ports(1, seq![one, other]) is Err,
        mock_ports(2, seq![one]) is Err,
        mock_ports(1, seq![]) is Err,
{
    lemma_two_lines(one, other);
    lemma_two_lines(other, one);
    let start: MockLines = (None, None);
    assert(seq![one].drop_last() =~= Seq::<MockPortModel>::empty());
    reveal_with_fuel(applied, 3);
}

proof fn lemma_two_lines(one: MockPortModel, other: MockPortModel)
    ensures
        applied(mock_line_step(), (None, None), seq![one, other]) == (match mock_line_step()(
            (None, None),
            one,
        ) {
            Ok(lines) => mock_line_step()(lines, other),
            Err(e) => Err(e),
        }),
{
    let all = seq![one, other];
    assert(all.drop_last() =~= seq![one]);
    assert(seq![one].drop_last() =~= Seq::<MockPortModel>::empty());
    reveal_with_fuel(applied, 3);
}

/// The base sends on the port for up and receives on the port for down; the remote side the other
/// way round. A port is opened at the baud rate that was given with it, or at 115200.
pub proof fn law_sides_meet_on_the_ports(
    o: MockOptionsModel,
    up_port: Lookup,
    down_port: Lookup,
    current_dir: Option<Seq<char>>,
)
    requires
        mock_settings(o, up_port, down_port, current_dir) is Ok,
    ensures
        ({
            let s = mock_settings(o, up_port, down_port, current_dir)->Ok_0;
            let pair_number = match o.pair_number {
                Some(n) => n,
                None => 1,
            };
            let (sent, received) = match s.role {
                XbeeMockRole::Base => (s.uplink_port, s.downlink_port),
                XbeeMockRole::Remote => (s.downlink_port, s.uplink_port),
            };
            &&& s.pair_number == pair_number
            &&& pair_number == 1 || pair_number == 2
            &&& s.sending_port() == sent
            &&& s.receiving_port() == received
            &&& up_port == Ok::<Seq<char>, Seq<char>>(s.uplink_port.port)
            &&& down_port == Ok::<Seq<char>, Seq<char>>(s.downlink_port.port)
            &&& mock_ports(pair_number, o.ports) matches Ok((up, down)) && s.uplink_port.baud_rate
                == (if up.baud is Some {
                up.baud->0
            } else {
                115_200
            }) && s.downlink_port.baud_rate == (if down.baud is Some {
                down.baud->0
            } else {
                115_200
            })
            &&& o.tx_formats == Some(s.tx_formats)
            &&& o.rx_formats == Some(s.rx_formats)
            &&& traffic_checked(s.role, s.traffic_pattern, s.tx_formats, s.rx_formats) is Ok
            &&& o.traffic_pattern is None ==> s.traffic_pattern == XbeeTestMode::Flood
            &&& s.logging_enabled == !o.no_log
            &&& s.s3b == o.s3b
        }),
{
}

/// Every output of a session stands on the port that the side sends on, at its baud rate.
pub proof fn law_outputs_stand_on_the_sending_port(s: MockSettingsModel, n: int, i: int)
    requires
        0 <= n <= s.tx_formats.len(),
        collected(mock_output_reader(s), s.tx_formats.take(n)) is Ok,
        0 <= i < n,
    ensures
        ({
            let outputs = collected(
                mock_output_reader(s),
                s.tx_formats.take(n),
            )->Ok_0;
            &&& outputs.len() == n
            &&& outputs[i].port == (match s.role {
                XbeeMockRole::Base => s.uplink_port.port,
                XbeeMockRole::Remote => s.downlink_port.port,
            })
            &&& outputs[i].baud_rate == (match s.role {
                XbeeMockRole::Base => s.uplink_port.baud_rate,
                XbeeMockRole::Remote => s.downlink_port.baud_rate,
            })
            &&& exists|lane: Lane|
                lane_sent(s.role, lane) == s.tx_formats[i].kind && outputs[i].id
                    == #[trigger] lane_output(s.role, lane)
        }),
        n == s.tx_formats.len() ==> mock_outputs(s) is Ok,
    decreases n,
{
    let all = s.tx_formats;
    assert(all.take(n).drop_last() == all.take(n - 1));
    assert(all.take(n).last() == all[n - 1]);
    if n == all.len() {
        assert(all.take(n) == all);
    }
    if n > 1 {
        law_outputs_stand_on_the_sending_port(s, n - 1, if i < n - 1 { i } else { 0 });
    } else {
        assert(all.take(0) =~= Seq::<XbeeMockTxFormat>::empty());
    }
    if i == n - 1 {
        let lane = lane_sending(s.role, all[i].kind)->0;
        assert(lane_sent(s.role, lane) == all[i].kind);
        let id = lane_output(s.role, lane);
    }
}

// ---------------------------------------------------------------------------
// Names and ports
// ---------------------------------------------------------------------------

/// A mock watches the port that it receives on, and shows what comes in in hexadecimal, packet by
/// packet.
pub proof fn law_mock_watches_its_port(s: MockSettingsModel)
    ensures
        mock_input(s).port == s.receiving_port().port,
        mock_input(s).baud_rate == s.receiving_port().baud_rate,
        mock_input(s).id == role_name(s.role),
        mock_input(s).display_mode == PortDisplayMode::Hex,
        mock_input(s).line_break_mode == LineBreakMode::Packet,
{
}

/// There are two roles, `base` and `remote`, in capital letters or small ones.
pub proof fn law_role_names(value: Seq<char>, role: XbeeMockRole)
    ensures
        role_named(value) == Ok::<XbeeMockRole, Seq<char>>(XbeeMockRole::Base) <==> lower(
            trimmed(value),
        ) == "base"@,
        role_named(value) == Ok::<XbeeMockRole, Seq<char>>(XbeeMockRole::Remote) <==> lower(
            trimmed(value),
        ) == "remote"@,
        role_named(value) == Ok::<XbeeMockRole, Seq<char>>(role) <==> lower(trimmed(value))
            == role_name(role),
{
    reveal_strlit("base");
    reveal_strlit("remote");
    assert("base"@.len() != "remote"@.len());
}

/// There are three patterns of traffic and two directions, each under its own name.
pub proof fn law_pattern_and_port_names(value: Seq<char>)
    ensures
        ({
            let name = lower(trimmed(value));
            let mode = |m: XbeeTestMode| Ok::<XbeeTestMode, Seq<char>>(m);
            let port = |p: XbeeMockPortId| Ok::<XbeeMockPortId, Seq<char>>(p);
            &&& mode_named(value) == mode(XbeeTestMode::Flood) <==> name == "flood"@
            &&& mode_named(value) == mode(XbeeTestMode::PingPong) <==> name == "ping-pong"@
            &&& mode_named(value) == mode(XbeeTestMode::Polling) <==> name == "polling"@
            &&& port_id_named(value) == port(XbeeMockPortId::Up) <==> name == "up"@
            &&& port_id_named(value) == port(XbeeMockPortId::Down) <==> name == "down"@
        }),
        mode_named(value) matches Ok(m) ==> mode_name(m) == lower(trimmed(value)),
{
    reveal_strlit("flood");
    reveal_strlit("ping-pong");
    reveal_strlit("polling");
    reveal_strlit("up");
    reveal_strlit("down");
    assert("flood"@.len() == 5 && "ping-pong"@.len() == 9 && "polling"@.len() == 7);
    assert("up"@.len() == 2 && "down"@.len() == 4);
}

/// A format of the list to send stands with its rate behind `@`, or with 100 Hz where it has none;
/// a rate of 0 and a format that is there already are refused.
pub proof fn law_format_to_send(
    list: Seq<XbeeMockTxFormat>,
    piece: Seq<char>,
    name: Seq<char>,
    n: u32,
    kind: XbeeTestFrameKind,
)
    requires
        frame_kind(name) == Ok::<XbeeTestFrameKind, Seq<char>>(kind),
        !name.contains('@'),
        name.len() > 0,
    ensures
        ({
            let r = tx_format_added(list, piece);
            let known = exists|i: int| 0 <= i < list.len() && (#[trigger] list[i]).kind == kind;
            &&& trimmed(piece) == name && !known ==> r == Ok::<Seq<XbeeMockTxFormat>, Seq<char>>(
                list.push(XbeeMockTxFormat { kind, rate_hz: 100 }),
            )
            &&& trimmed(piece) == name + seq!['@'] + decimal(n as nat) && !known && n > 0 ==> r
                == Ok::<Seq<XbeeMockTxFormat>, Seq<char>>(
                list.push(XbeeMockTxFormat { kind, rate_hz: n }),
            )
            &&& trimmed(piece) == name + seq!['@'] + decimal(0) ==> r is Err
            &&& trimmed(piece) == name && known ==> r is Err
        }),
{
    let known = exists|i: int| 0 <= i < list.len() && (#[trigger] list[i]).kind == kind;
    let kinds = tx_kinds(list);
    if kinds.contains(kind) {
        let i = kinds.index_of(kind);
        assert(list[i].kind == kind);
    }
    if known {
        let i = choose|i: int| 0 <= i < list.len() && (#[trigger] list[i]).kind == kind;
        assert(kinds[i] == kind);
    }
    law_cut_at_last(name, '@');
    lemma_cut_behind(name, decimal(n as nat), n as nat);
    lemma_cut_behind(name, decimal(0), 0);
    lemma_number_of_decimal(n as nat);
    lemma_number_of_decimal(0);
}

proof fn lemma_cut_behind(name: Seq<char>, digits: Seq<char>, n: nat)
    requires
        digits == decimal(n),
    ensures
        cut_at_last(name + seq!['@'] + digits, '@') == Some((name, digits)),
{
    let text = name + seq!['@'] + digits;
    lemma_decimal(n);
    assert forall|i: int| name.len() < i < text.len() implies #[trigger] text[i] != '@' by {
        assert(text[i] == digits[i - name.len() - 1]);
        assert(is_digit(digits[i - name.len() - 1]));
    }
    lemma_last_at(text, '@', name.len() as int);
    assert(text.take(name.len() as int) =~= name);
    assert(text.skip(name.len() as int + 1) =~= digits);
}

/// A format of the list to receive has no rate, and stands there once.
pub proof fn law_format_to_receive(
    list: Seq<XbeeTestFrameKind>,
    piece: Seq<char>,
    kind: XbeeTestFrameKind,
)
    requires
        frame_kind(trimmed(piece)) == Ok::<XbeeTestFrameKind, Seq<char>>(kind),
        trimmed(piece).len() > 0,
    ensures
        rx_format_added(list, piece) is Ok <==> !list.contains(kind) && !trimmed(piece).contains(
            '@',
        ),
        rx_format_added(list, piece) matches Ok(all) ==> all == list.push(kind),
{
}

/// The two frames of polling go by their names, and any other name is that of a format.
pub proof fn law_frame_names(value: Seq<char>, format: OutputFormat)
    ensures
        lower(trimmed(value)) == "pollgreeting"@ ==> frame_kind(value) == Ok::<
            XbeeTestFrameKind,
            Seq<char>,
        >(XbeeTestFrameKind::PollGreeting),
        lower(trimmed(value)) == "pollresponse"@ ==> frame_kind(value) == Ok::<
            XbeeTestFrameKind,
            Seq<char>,
        >(XbeeTestFrameKind::PollResponse),
        frame_kind(value) == Ok::<XbeeTestFrameKind, Seq<char>>(XbeeTestFrameKind::Format(format))
            ==> parsed_format(value) == Ok::<OutputFormat, Seq<char>>(format),
{
    reveal_strlit("pollgreeting");
    reveal_strlit("poll-greeting");
    reveal_strlit("poll_greeting");
    reveal_strlit("pollresponse");
    reveal_strlit("poll-response");
    reveal_strlit("poll_response");
    assert("pollgreeting"@[4] == 'g' && "pollresponse"@[4] == 'r');
    assert("poll-greeting"@.len() == 13 && "poll_greeting"@.len() == 13 && "pollresponse"@.len()
        == 12);
}

} // verus!

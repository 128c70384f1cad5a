//! A running `xbee-mock`: its header, what goes to its display, and what it sent.
use crate::route_pipeline::{format_log_line, log_line};
use crate::runtime::{slice_of, DISPLAY_FLUSH_PACKET_BUDGET, DISPLAY_FLUSH_SLICE};
use crate::text::{cat2, cat3, cat4, cat5, decimal, decimal_text, joined, texts};
use crate::xbee_mock::{kind_label, mode_name, role_name, XbeeMockTxFormat, XbeeTestFrameKind};
use crate::xbee_mock_driver::{
    port_at, port_at_text, rx_label, rx_summary, tx_label, tx_summary, GenericXbeeMockDriver,
    XbeeMockLane,
};
use crate::xbee_mock_plan::{MockSettingsModel, XbeeMockSettings};
use vstd::prelude::*;

verus! {

/// What a running side has to say of itself.
#[derive(Debug)]
pub struct MockReport {
    /// How often the display is drawn anew, with one decimal.
    pub display_fps: String,
    /// A line for each format that is sent.
    pub sender_lines: Vec<String>,
    /// A line for each format that is received.
    pub status_lines: Vec<String>,
    pub output_backlog: u64,
    pub input_backlog: u64,
    pub overflow: u64,
}

#[verifier::opaque]
pub open spec fn mock_head(
    s: MockSettingsModel,
    received: Seq<(XbeeTestFrameKind, bool)>,
    fps: Seq<char>,
) -> Seq<Seq<char>> {
    seq![
        "role="@ + role_name(s.role) + "  pair="@ + decimal(s.pair_number as nat) + "  pattern="@
            + (mode_name(s.traffic_pattern) + "  display="@ + fps + " fps"@),
        "up="@ + port_at(s.uplink_port) + "  down="@ + port_at(s.downlink_port),
        "tx-port="@ + port_at(s.sending_port()) + "  rx-port="@ + port_at(s.receiving_port()),
        "tx="@ + joined(s.tx_formats.map_values(|f: XbeeMockTxFormat| tx_label(f)), ", "@) + "  rx="@
            + joined(
            received.map_values(|f: (XbeeTestFrameKind, bool)| rx_label(f.0, f.1)),
            ", "@,
        ),
    ]
}

pub open spec fn backlog_line(output: u64, input: u64, overflow: u64) -> Seq<char> {
    "display backlog  out="@ + decimal(output as nat) + "  in="@ + decimal(input as nat)
        + "  overflow="@ + decimal(overflow as nat)
}

/// The lines above the display; the last one says which keys there are.
pub open spec fn mock_header(
    s: MockSettingsModel,
    received: Seq<(XbeeTestFrameKind, bool)>,
    report: MockReport,
    log_path: Seq<char>,
    hint: Seq<char>,
) -> Seq<Seq<char>> {
    mock_head(s, received, report.display_fps@) + texts(report.sender_lines@) + texts(
        report.status_lines@,
    ) + seq![
        backlog_line(report.output_backlog, report.input_backlog, report.overflow),
        log_line(s.logging_enabled, log_path),
        hint,
    ]
}

fn push_all(lines: &mut Vec<String>, more: &Vec<String>)
    ensures
        texts(final(lines)@) == texts(old(lines)@) + texts(more@),
{
    let ghost first = texts(lines@);
    let mut i: usize = 0;
    assert(texts(lines@) =~= first + texts(more@).take(0));
    while i < more.len()
        invariant
            i <= more.len(),
            texts(lines@) == first + texts(more@).take(i as int),
        decreases more.len() - i,
    {
        let ghost before = texts(lines@);
        lines.push(more[i].as_str().to_owned());
        assert(texts(lines@) =~= before.push(texts(more@)[i as int]));
        assert(texts(lines@) =~= first + texts(more@).take(i + 1));
        i += 1;
    }
    assert(texts(more@).take(i as int) == texts(more@));
}

fn head_lines(
    settings: &XbeeMockSettings,
    received: &Vec<(XbeeTestFrameKind, bool)>,
    fps: &str,
) -> (lines: Vec<String>)
    ensures
        texts(lines@) == mock_head(settings.deep_view(), received@, fps@),
{
    reveal(mock_head);
    let pair = decimal_text(settings.pair_number as u64);
    let front = cat5("role=", settings.role.as_str(), "  pair=", pair.as_str(), "  pattern=");
    let back = cat4(settings.traffic_pattern.as_str(), "  display=", fps, " fps");
    let up = port_at_text(&settings.uplink_port);
    let down = port_at_text(&settings.downlink_port);
    let tx = port_at_text(settings.tx_port());
    let rx = port_at_text(settings.rx_port());
    let sent = tx_summary(&settings.tx_formats);
    let heard = rx_summary(received);
    let mut lines: Vec<String> = Vec::new();
    lines.push(cat2(front.as_str(), back.as_str()));
    lines.push(cat4("up=", up.as_str(), "  down=", down.as_str()));
    lines.push(cat4("tx-port=", tx.as_str(), "  rx-port=", rx.as_str()));
    lines.push(cat4("tx=", sent.as_str(), "  rx=", heard.as_str()));
    assert(texts(lines@) =~= mock_head(settings.deep_view(), received@, fps@));
    lines
}

/// The lines above the display of a running side.
pub fn mock_header_lines(
    settings: &XbeeMockSettings,
    received: &Vec<(XbeeTestFrameKind, bool)>,
    report: &MockReport,
    log_path: &str,
    hint: &str,
) -> (lines: Vec<String>)
    ensures
        texts(lines@) == mock_header(settings.deep_view(), received@, *report, log_path@, hint@),
{
    let mut lines = head_lines(settings, received, report.display_fps.as_str());
    push_all(&mut lines, &report.sender_lines);
    push_all(&mut lines, &report.status_lines);
    let ghost before = texts(lines@);
    let output = decimal_text(report.output_backlog);
    let input = decimal_text(report.input_backlog);
    let overflow = decimal_text(report.overflow);
    let front = cat4("display backlog  out=", output.as_str(), "  in=", input.as_str());
    lines.push(cat3(front.as_str(), "  overflow=", overflow.as_str()));
    lines.push(format_log_line(settings.logging_enabled, log_path));
    lines.push(hint.to_owned());
    assert(texts(lines@) =~= before + seq![
        backlog_line(report.output_backlog, report.input_backlog, report.overflow),
        log_line(settings.logging_enabled, log_path@),
        hint@,
    ]);
    lines
}

// ---------------------------------------------------------------------------
// The display
// ---------------------------------------------------------------------------

/// So many entries go to the display, of what was sent or of what was received.
#[derive(Debug, Clone, Copy, PartialEq, Eq, Structural)]
pub struct FlushTurn {
    pub sent: bool,
    pub count: usize,
}

/// What waits, and how much of it still may go.
pub struct MockFlushing {
    pub sent: nat,
    pub received: nat,
    pub budget: nat,
    pub turns: Seq<FlushTurn>,
}

pub open spec fn flush_turn(s: MockFlushing, sent: bool) -> MockFlushing {
    let waiting = if sent {
        s.sent
    } else {
        s.received
    };
    let n = slice_of(s.budget, waiting);
    if n == 0 {
        s
    } else {
        MockFlushing {
            sent: if sent {
                (s.sent - n) as nat
            } else {
                s.sent
            },
            received: if sent {
                s.received
            } else {
                (s.received - n) as nat
            },
            budget: (s.budget - n) as nat,
            turns: s.turns.push(FlushTurn { sent, count: n as usize }),
        }
    }
}

/// What was sent and what was received take turns until the budget is used up or nothing waits.
pub open spec fn mock_flushed(s: MockFlushing) -> MockFlushing
    decreases s.budget,
{
    let next = flush_turn(flush_turn(s, true), false);
    if next.budget >= s.budget {
        next
    } else {
        mock_flushed(next)
    }
}

pub open spec fn mock_flushing(sent: nat, received: nat, budget: nat, turns: Seq<FlushTurn>) -> MockFlushing {
    MockFlushing { sent, received, budget, turns }
}

fn slice(budget: usize, waiting: usize) -> (n: usize)
    ensures
        n == slice_of(budget as nat, waiting as nat),
{
    let most: usize = if budget < DISPLAY_FLUSH_SLICE {
        budget
    } else {
        DISPLAY_FLUSH_SLICE
    };
    if most < waiting {
        most
    } else {
        waiting
    }
}

/// The turns of one tick, where so many entries wait.
pub fn mock_flush_turns(sent_waiting: usize, received_waiting: usize) -> (turns: Vec<FlushTurn>)
    ensures
        turns@ == mock_flushed(
            mock_flushing(
                sent_waiting as nat,
                received_waiting as nat,
                DISPLAY_FLUSH_PACKET_BUDGET as nat,
                Seq::empty(),
            ),
        ).turns,
{
    let mut sent: usize = sent_waiting;
    let mut received: usize = received_waiting;
    let mut budget: usize = DISPLAY_FLUSH_PACKET_BUDGET;
    let mut turns: Vec<FlushTurn> = Vec::new();
    let ghost start = mock_flushing(sent as nat, received as nat, budget as nat, turns@);
    loop
        invariant
            start == mock_flushing(
                sent_waiting as nat,
                received_waiting as nat,
                DISPLAY_FLUSH_PACKET_BUDGET as nat,
                Seq::empty(),
            ),
            mock_flushed(start) == mock_flushed(
                mock_flushing(sent as nat, received as nat, budget as nat, turns@),
            ),
        decreases budget,
    {
        let before: usize = budget;
        let n: usize = slice(budget, sent);
        if n > 0 {
            sent = sent - n;
            budget = budget - n;
            turns.push(FlushTurn { sent: true, count: n });
        }
        let n: usize = slice(budget, received);
        if n > 0 {
            received = received - n;
            budget = budget - n;
            turns.push(FlushTurn { sent: false, count: n });
        }
        if budget >= before {
            return turns;
        }
    }
}

pub open spec fn turned(turns: Seq<FlushTurn>, sent: bool) -> nat
    decreases turns.len(),
{
    if turns.len() == 0 {
        0
    } else {
        turned(turns.drop_last(), sent) + if turns.last().sent == sent {
            turns.last().count as nat
        } else {
            0
        }
    }
}

spec fn flush_adds_up(sent: nat, received: nat, budget: nat, s: MockFlushing) -> bool {
    &&& turned(s.turns, true) + s.sent == sent
    &&& turned(s.turns, false) + s.received == received
    &&& turned(s.turns, true) + turned(s.turns, false) + s.budget == budget
}

proof fn lemma_turn_adds_up(sent: nat, received: nat, budget: nat, s: MockFlushing, of_sent: bool)
    requires
        flush_adds_up(sent, received, budget, s),
    ensures
        flush_adds_up(sent, received, budget, flush_turn(s, of_sent)),
        flush_turn(s, of_sent).budget <= s.budget,
        flush_turn(s, of_sent).budget == s.budget && s.budget > 0 ==> (if of_sent {
            s.sent
        } else {
            s.received
        }) == 0,
{
    let t = flush_turn(s, of_sent);
    if t.turns != s.turns {
        assert(t.turns.drop_last() == s.turns);
    }
}

proof fn lemma_flush_adds_up(sent: nat, received: nat, budget: nat, s: MockFlushing)
    requires
        flush_adds_up(sent, received, budget, s),
    ensures
        flush_adds_up(sent, received, budget, mock_flushed(s)),
        mock_flushed(s).budget > 0 ==> mock_flushed(s).sent == 0 && mock_flushed(s).received == 0,
    decreases s.budget,
{
    lemma_turn_adds_up(sent, received, budget, s, true);
    let half = flush_turn(s, true);
    lemma_turn_adds_up(sent, received, budget, half, false);
    let next = flush_turn(half, false);
    if next.budget < s.budget {
        lemma_flush_adds_up(sent, received, budget, next);
    }
}

/// In one tick no more than the budget goes to the display, and less only where nothing is left.
pub proof fn law_mock_flush(sent: nat, received: nat)
    ensures
        ({
            let done = mock_flushed(
                mock_flushing(sent, received, DISPLAY_FLUSH_PACKET_BUDGET as nat, Seq::empty()),
            );
            let total = turned(done.turns, true) + turned(done.turns, false);
            &&& turned(done.turns, true) <= sent
            &&& turned(done.turns, false) <= received
            &&& total <= DISPLAY_FLUSH_PACKET_BUDGET
            &&& total < DISPLAY_FLUSH_PACKET_BUDGET ==> total == sent + received
        }),
{
    lemma_flush_adds_up(
        sent,
        received,
        DISPLAY_FLUSH_PACKET_BUDGET as nat,
        mock_flushing(sent, received, DISPLAY_FLUSH_PACKET_BUDGET as nat, Seq::empty()),
    );
}

// ---------------------------------------------------------------------------
// Results
// ---------------------------------------------------------------------------

/// The rates at which answers are expected, lane by lane.
pub open spec fn expected_rates(lanes: Seq<XbeeMockLane>) -> Seq<(XbeeTestFrameKind, u32)>
    decreases lanes.len(),
{
    if lanes.len() == 0 {
        Seq::empty()
    } else {
        let rest = expected_rates(lanes.drop_last());
        match lanes.last().expected_rate_hz {
            Some(rate) => rest.push((lanes.last().rx_kind, rate)),
            None => rest,
        }
    }
}

/// What a lane sent.
#[derive(Debug, Clone, Copy, PartialEq, Eq, Structural)]
pub struct XbeeMockTxRunResult {
    pub kind: XbeeTestFrameKind,
    pub rate_hz: u32,
    pub sent_packets: u64,
    pub write_errors: u64,
}

/// What the lanes sent that send at all; counts are given lane by lane.
pub open spec fn sent_by_lanes(lanes: Seq<XbeeMockLane>, sent: Seq<u64>, errors: Seq<u64>) -> Seq<
    XbeeMockTxRunResult,
>
    decreases lanes.len(),
{
    if lanes.len() == 0 {
        Seq::empty()
    } else {
        let last = lanes.len() - 1;
        let rest = sent_by_lanes(lanes.drop_last(), sent, errors);
        match lanes[last].tx_rate_hz {
            Some(rate_hz) => rest.push(
                XbeeMockTxRunResult {
                    kind: lanes[last].tx_kind,
                    rate_hz,
                    sent_packets: sent[last],
                    write_errors: errors[last],
                },
            ),
            None => rest,
        }
    }
}

impl GenericXbeeMockDriver {
    pub fn target_rates(&self) -> (rates: Vec<(XbeeTestFrameKind, u32)>)
        ensures
            rates@ == expected_rates(self.lanes@),
    {
        let mut rates: Vec<(XbeeTestFrameKind, u32)> = Vec::new();
        let mut i: usize = 0;
        assert(self.lanes@.take(0) =~= Seq::<XbeeMockLane>::empty());
        while i < self.lanes.len()
            invariant
                i <= self.lanes.len(),
                rates@ == expected_rates(self.lanes@.take(i as int)),
            decreases self.lanes.len() - i,
        {
            assert(self.lanes@.take(i + 1).drop_last() == self.lanes@.take(i as int));
            let lane = self.lanes[i];
            if let Some(rate) = lane.expected_rate_hz {
                rates.push((lane.rx_kind, rate));
            }
            i += 1;
        }
        assert(self.lanes@.take(i as int) == self.lanes@);
        rates
    }

    pub fn tx_results(&self, sent: &Vec<u64>, errors: &Vec<u64>) -> (results: Vec<
        XbeeMockTxRunResult,
    >)
        requires
            sent.len() == self.lanes.len(),
            errors.len() == self.lanes.len(),
        ensures
            results@ == sent_by_lanes(self.lanes@, sent@, errors@),
    {
        let mut results: Vec<XbeeMockTxRunResult> = Vec::new();
        let mut i: usize = 0;
        assert(self.lanes@.take(0) =~= Seq::<XbeeMockLane>::empty());
        while i < self.lanes.len()
            invariant
                i <= self.lanes.len(),
                sent.len() == self.lanes.len(),
                errors.len() == self.lanes.len(),
                results@ == sent_by_lanes(self.lanes@.take(i as int), sent@, errors@),
            decreases self.lanes.len() - i,
        {
            assert(self.lanes@.take(i + 1).drop_last() == self.lanes@.take(i as int));
            let lane = self.lanes[i];
            if let Some(rate_hz) = lane.tx_rate_hz {
                results.push(
                    XbeeMockTxRunResult {
                        kind: lane.tx_kind,
                        rate_hz,
                        sent_packets: sent[i],
                        write_errors: errors[i],
                    },
                );
            }
            i += 1;
        }
        assert(self.lanes@.take(i as int) == self.lanes@);
        results
    }
}

/// What a side received of a format; rates are given as they are shown.
#[derive(Debug)]
pub struct RxCounts {
    pub matched: u64,
    pub missing: u64,
    pub invalid: u64,
    pub unexpected: u64,
    pub overflow: u64,
    pub error_percent: String,
    pub target_rate: String,
}

/// The line that tells what became of a format that was received.
#[verifier::opaque]
pub open spec fn rx_result_text(kind: XbeeTestFrameKind, followed: bool, c: RxCounts) -> Seq<char> {
    let head = "  rx "@ + kind_label(kind);
    if followed {
        head + (": matched="@ + decimal(c.matched as nat) + " err="@ + c.error_percent@ + "% target="@)
            + (c.target_rate@ + "Hz miss="@ + decimal(c.missing as nat) + " bad="@ + decimal(
            c.invalid as nat,
        )) + (" unexp="@ + decimal(c.unexpected as nat) + " overflow="@ + decimal(
            c.overflow as nat,
        ))
    } else {
        head + (": valid="@ + decimal(c.matched as nat) + " bad="@ + decimal(c.invalid as nat)
            + " overflow="@) + (decimal(c.overflow as nat) + " track=passive"@)
    }
}

pub fn format_rx_result(kind: XbeeTestFrameKind, followed: bool, counts: &RxCounts) -> (r: String)
    ensures
        r@ == rx_result_text(kind, followed, *counts),
{
    reveal(rx_result_text);
    let head = cat2("  rx ", kind.display_name());
    let matched = decimal_text(counts.matched);
    let invalid = decimal_text(counts.invalid);
    let overflow = decimal_text(counts.overflow);
    if followed {
        let missing = decimal_text(counts.missing);
        let unexpected = decimal_text(counts.unexpected);
        let first = cat5(
            ": matched=",
            matched.as_str(),
            " err=",
            counts.error_percent.as_str(),
            "% target=",
        );
        let second = cat5(
            counts.target_rate.as_str(),
            "Hz miss=",
            missing.as_str(),
            " bad=",
            invalid.as_str(),
        );
        let third = cat4(" unexp=", unexpected.as_str(), " overflow=", overflow.as_str());
        cat4(head.as_str(), first.as_str(), second.as_str(), third.as_str())
    } else {
        let first = cat5(": valid=", matched.as_str(), " bad=", invalid.as_str(), " overflow=");
        let second = cat2(overflow.as_str(), " track=passive");
        cat3(head.as_str(), first.as_str(), second.as_str())
    }
}

} // verus!

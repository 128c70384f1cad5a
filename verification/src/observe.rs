//! What is received on an input: its packets, their rates, and what there is to show of them.
use crate::bytes::{bytes_equal, sub_bytes};
use crate::display::PortDisplayMode;
use crate::format::{format_label, OutputFormat};
use crate::packet::{
    matchers, packet_bytes, stream_packets, DecodedPacket, MixedFormatDecoder, PacketMatcher,
    PacketModel,
};
use crate::text::cat3;
use crate::ufv2::{
    bytes_taken, expired, idle, option_seq, status_entry, uf_v2_status_entry, DisplayedModel,
    DisplayedPacket, ReassemblerModel, UfV2TextReassembler,
};
use std::collections::VecDeque;
use vstd::prelude::*;

verus! {

/// One second, in nanoseconds.
pub const RATE_WINDOW: u64 = 1_000_000_000;

/// How many entries wait for the display at most.
pub const DISPLAY_QUEUE_LIMIT: usize = 65_536;

// ---------------------------------------------------------------------------
// Packet rates
// ---------------------------------------------------------------------------

/// The arrival times of packets, in nanoseconds.
#[derive(Debug)]
pub struct PacketRateTracker {
    samples: VecDeque<u64>,
}

/// The samples without those at the front that are older than the window.
pub open spec fn recent(samples: Seq<u64>, now: u64) -> Seq<u64>
    decreases samples.len(),
{
    if samples.len() > 0 && now - samples[0] > RATE_WINDOW {
        recent(samples.skip(1), now)
    } else {
        samples
    }
}

impl View for PacketRateTracker {
    type V = Seq<u64>;

    closed spec fn view(&self) -> Seq<u64> {
        self.samples@
    }
}

impl PacketRateTracker {
    pub fn new() -> (tracker: PacketRateTracker)
        ensures
            tracker@ == Seq::<u64>::empty(),
    {
        PacketRateTracker { samples: VecDeque::new() }
    }

    /// Notes that a packet arrived.
    pub fn record(&mut self, at: u64)
        ensures
            final(self)@ == old(self)@.push(at),
    {
        self.samples.push_back(at);
    }

    pub fn prune(&mut self, now: u64)
        ensures
            final(self)@ == recent(old(self)@, now),
    {
        while self.samples.len() > 0 && now.saturating_sub(self.samples[0]) > RATE_WINDOW
            invariant
                recent(old(self)@, now) == recent(self@, now),
            decreases self@.len(),
        {
            let ghost before = self@;
            let _ = self.samples.pop_front();
            assert(self@ == before.skip(1));
        }
    }

    /// How many packets arrived within the last second.
    pub fn packets_per_second(&mut self, now: u64) -> (count: usize)
        ensures
            final(self)@ == recent(old(self)@, now),
            count == recent(old(self)@, now).len(),
    {
        self.prune(now);
        self.samples.len()
    }
}

/// What is dropped from the samples has left the window, and what comes first stays in it.
pub proof fn law_recent_samples(samples: Seq<u64>, now: u64)
    ensures
        ({
            let kept = recent(samples, now);
            let dropped = samples.len() - kept.len();
            &&& kept.len() <= samples.len()
            &&& kept == samples.skip(dropped)
            &&& forall|i: int| 0 <= i < dropped ==> now - #[trigger] samples[i] > RATE_WINDOW
            &&& kept.len() > 0 ==> now - kept[0] <= RATE_WINDOW
        }),
    decreases samples.len(),
{
    if samples.len() > 0 && now - samples[0] > RATE_WINDOW {
        let t = samples.skip(1);
        law_recent_samples(t, now);
        let kept = recent(samples, now);
        let dropped = samples.len() - kept.len();
        assert(kept == samples.skip(dropped));
        assert forall|i: int| 0 <= i < dropped implies now - #[trigger] samples[i] > RATE_WINDOW by {
            if i > 0 {
                assert(t[i - 1] == samples[i]);
            }
        }
    } else {
        assert(samples.skip(0) == samples);
    }
}

// ---------------------------------------------------------------------------
// The display queue
// ---------------------------------------------------------------------------

/// Entries that wait for the display, oldest first.
#[derive(Debug)]
pub struct PacketDisplayQueue {
    pending_packets: VecDeque<DisplayedPacket>,
}

/// The entries by their models.
pub open spec fn displayed(entries: Seq<DisplayedPacket>) -> Seq<DisplayedModel> {
    entries.map_values(|p: DisplayedPacket| p.deep_view())
}

proof fn lemma_displayed_tail(entries: Seq<DisplayedPacket>)
    requires
        entries.len() > 0,
    ensures
        displayed(entries.subrange(1, entries.len() as int)) == displayed(entries).skip(1),
{
    assert(displayed(entries.subrange(1, entries.len() as int)) =~= displayed(entries).skip(1));
}

/// The newest entries that the queue holds.
pub open spec fn newest(q: Seq<DisplayedModel>) -> Seq<DisplayedModel> {
    if q.len() > DISPLAY_QUEUE_LIMIT {
        q.skip(q.len() - DISPLAY_QUEUE_LIMIT)
    } else {
        q
    }
}

/// The queue after entries came in one after the other.
pub open spec fn enqueued(q: Seq<DisplayedModel>, entries: Seq<DisplayedModel>) -> Seq<
    DisplayedModel,
>
    decreases entries.len(),
{
    if entries.len() == 0 {
        q
    } else {
        newest(enqueued(q, entries.drop_last()).push(entries.last()))
    }
}

/// A queue within its limit stays so, and holds the newest of its entries and the new ones.
pub proof fn law_queue_keeps_the_newest(q: Seq<DisplayedModel>, entries: Seq<DisplayedModel>)
    requires
        q.len() <= DISPLAY_QUEUE_LIMIT,
    ensures
        enqueued(q, entries) == newest(q + entries),
        enqueued(q, entries).len() <= DISPLAY_QUEUE_LIMIT,
    decreases entries.len(),
{
    if entries.len() == 0 {
        assert(q + entries == q);
    } else {
        let init = entries.drop_last();
        law_queue_keeps_the_newest(q, init);
        assert(q + entries == (q + init).push(entries.last()));
        assert(newest(newest(q + init).push(entries.last())) == newest(
            (q + init).push(entries.last()),
        ));
    }
}

impl PacketDisplayQueue {
    pub closed spec fn packets(&self) -> Seq<DisplayedPacket> {
        self.pending_packets@
    }

    pub open spec fn entries(&self) -> Seq<DisplayedModel> {
        displayed(self.packets())
    }

    pub fn new() -> (q: PacketDisplayQueue)
        ensures
            q.entries() == Seq::<DisplayedModel>::empty(),
    {
        let q = PacketDisplayQueue { pending_packets: VecDeque::new() };
        assert(q.entries() =~= Seq::<DisplayedModel>::empty());
        q
    }

    /// Adds an entry; the oldest ones leave where there are too many.
    pub fn enqueue_entry(&mut self, packet: DisplayedPacket)
        ensures
            final(self).entries() == newest(old(self).entries().push(packet.deep_view())),
    {
        let ghost all = self.entries().push(packet.deep_view());
        self.pending_packets.push_back(packet);
        assert(self.entries() =~= all);
        assert(all.skip(0) == all);
        let ghost mut dropped: int = 0;
        while self.pending_packets.len() > DISPLAY_QUEUE_LIMIT
            invariant
                0 <= dropped <= all.len(),
                self.entries() == all.skip(dropped),
                dropped > 0 ==> all.len() - dropped >= DISPLAY_QUEUE_LIMIT,
                self.entries().len() == self.packets().len(),
            decreases self.packets().len(),
        {
            let ghost before = self.packets();
            let _ = self.pending_packets.pop_front();
            proof {
                lemma_displayed_tail(before);
                assert(all.skip(dropped).skip(1) =~= all.skip(dropped + 1));
                dropped = dropped + 1;
            }
        }
    }

    /// Adds bytes with the way to show them.
    pub fn enqueue(
        &mut self,
        packet: Vec<u8>,
        display_mode: Option<PortDisplayMode>,
        preserve_line_breaks: bool,
    )
        ensures
            final(self).entries() == newest(
                old(self).entries().push(
                    (DisplayedModel { bytes: packet@, display_mode, preserve_line_breaks }),
                ),
            ),
    {
        self.enqueue_entry(DisplayedPacket::new(packet, display_mode, preserve_line_breaks));
    }

    /// Takes up to `max_packets` entries out, oldest first.
    pub fn flush_input_batch(&mut self, max_packets: usize) -> (batch: Vec<DisplayedPacket>)
        ensures
            ({
                let n = if max_packets < old(self).entries().len() {
                    max_packets as int
                } else {
                    old(self).entries().len() as int
                };
                &&& batch.deep_view() == old(self).entries().take(n)
                &&& final(self).entries() == old(self).entries().skip(n)
            }),
    {
        let mut batch: Vec<DisplayedPacket> = Vec::new();
        let ghost all = self.entries();
        assert(all.skip(0) == all);
        while batch.len() < max_packets
            invariant
                all == old(self).entries(),
                batch.len() <= max_packets,
                batch.len() <= all.len(),
                batch.deep_view() == all.take(batch.len() as int),
                self.entries() == all.skip(batch.len() as int),
                self.packets().len() == all.len() - batch.len(),
            decreases max_packets - batch.len(),
        {
            let ghost before = self.packets();
            match self.pending_packets.pop_front() {
                None => {
                    assert(all.len() == batch.len());
                    return batch;
                },
                Some(packet) => {
                    proof {
                        lemma_displayed_tail(before);
                        assert(packet == before[0]);
                        assert(displayed(before)[0] == packet.deep_view());
                        assert(all.skip(batch.len() as int)[0] == all[batch.len() as int]);
                        assert(all.skip(batch.len() as int).skip(1) =~= all.skip(batch.len() + 1));
                    }
                    batch.push(packet);
                    assert(batch.deep_view() =~= all.take(batch.len() as int));
                },
            }
        }
        batch
    }

    /// How many entries wait.
    pub fn pending(&self) -> (count: usize)
        ensures
            count == self.entries().len(),
    {
        self.pending_packets.len()
    }

    /// The entry that waits longest.
    pub fn front(&self) -> (entry: Option<&DisplayedPacket>)
        ensures
            entry.deep_view() == (if self.entries().len() > 0 {
                Some(self.entries()[0])
            } else {
                None
            }),
    {
        if self.pending_packets.len() == 0 {
            None
        } else {
            Some(&self.pending_packets[0])
        }
    }
}

// ---------------------------------------------------------------------------
// Observed inputs
// ---------------------------------------------------------------------------

/// How many packets of a format there are.
pub open spec fn format_count(ps: Seq<PacketModel>, format: OutputFormat) -> nat
    decreases ps.len(),
{
    if ps.len() == 0 {
        0
    } else if ps.last().format == format {
        format_count(ps.drop_last(), format) + 1
    } else {
        format_count(ps.drop_last(), format)
    }
}

/// The bytes of the packets of a format.
pub open spec fn format_bytes(ps: Seq<PacketModel>, format: OutputFormat) -> nat
    decreases ps.len(),
{
    if ps.len() == 0 {
        0
    } else if ps.last().format == format {
        format_bytes(ps.drop_last(), format) + ps.last().bytes.len()
    } else {
        format_bytes(ps.drop_last(), format)
    }
}

proof fn lemma_format_totals_bound(ps: Seq<PacketModel>, format: OutputFormat)
    ensures
        format_count(ps, format) <= ps.len(),
        format_bytes(ps, format) <= packet_bytes(ps),
    decreases ps.len(),
{
    if ps.len() > 0 {
        lemma_format_totals_bound(ps.drop_last(), format);
    }
}

proof fn lemma_packet_bytes_prefix(ps: Seq<PacketModel>, k: int)
    requires
        0 <= k <= ps.len(),
    ensures
        packet_bytes(ps.take(k)) <= packet_bytes(ps),
    decreases ps.len(),
{
    if k == ps.len() {
        assert(ps.take(k) == ps);
    } else {
        lemma_packet_bytes_prefix(ps.drop_last(), k);
        assert(ps.drop_last().take(k) == ps.take(k));
    }
}

/// The bytes and the packets of one format.
#[derive(Debug, Clone, Copy, PartialEq, Eq)]
pub struct FormatTotal {
    pub format: OutputFormat,
    pub byte_len: usize,
    pub packet_count: usize,
}

/// There is a total for the format.
pub open spec fn has_total(totals: Seq<FormatTotal>, format: OutputFormat) -> bool {
    exists|i: int| 0 <= i < totals.len() && (#[trigger] totals[i]).format == format
}

/// The totals hold each format of the packets once, with its bytes and its packets.
pub open spec fn totals_of(totals: Seq<FormatTotal>, ps: Seq<PacketModel>) -> bool {
    &&& forall|i: int|
        0 <= i < totals.len() ==> (#[trigger] totals[i]).packet_count == format_count(
            ps,
            totals[i].format,
        ) && totals[i].byte_len == format_bytes(ps, totals[i].format) && totals[i].packet_count > 0
    &&& forall|i: int, j: int|
        0 <= i < j < totals.len() ==> (#[trigger] totals[i]).format != (#[trigger] totals[j]).format
    &&& forall|f: OutputFormat| #[trigger] format_count(ps, f) > 0 ==> has_total(totals, f)
}

/// What one chunk of received bytes brought.
#[derive(Debug)]
pub struct ObservedInputBatch {
    pub valid_byte_len: usize,
    pub valid_packet_count: usize,
    pub per_format_totals: Vec<FormatTotal>,
}

impl ObservedInputBatch {
    /// The batch counts exactly these packets.
    pub open spec fn counts(&self, ps: Seq<PacketModel>) -> bool {
        &&& self.valid_byte_len == packet_bytes(ps)
        &&& self.valid_packet_count == ps.len()
        &&& totals_of(self.per_format_totals@, ps)
    }

    /// The bytes and the packets of a format.
    pub fn total(&self, format: OutputFormat) -> (r: (usize, usize))
        ensures
            forall|ps: Seq<PacketModel>| #[trigger]
                self.counts(ps) ==> r == (
                    format_bytes(ps, format) as usize,
                    format_count(ps, format) as usize,
                ),
    {
        let mut i: usize = 0;
        while i < self.per_format_totals.len()
            invariant
                i <= self.per_format_totals.len(),
                forall|k: int| 0 <= k < i ==> (#[trigger] self.per_format_totals@[k]).format != format,
            decreases self.per_format_totals.len() - i,
        {
            let total = self.per_format_totals[i];
            if total.format == format {
                return (total.byte_len, total.packet_count);
            }
            i += 1;
        }
        proof {
            assert forall|ps: Seq<PacketModel>| #[trigger] self.counts(ps) implies format_bytes(
                ps,
                format,
            ) == 0 && format_count(ps, format) == 0 by {
                if format_count(ps, format) > 0 {
                    assert(has_total(self.per_format_totals@, format));
                }
                lemma_no_packets_no_bytes(ps, format);
            }
        }
        (0, 0)
    }
}

proof fn lemma_no_packets_no_bytes(ps: Seq<PacketModel>, format: OutputFormat)
    ensures
        format_count(ps, format) == 0 ==> format_bytes(ps, format) == 0,
    decreases ps.len(),
{
    if ps.len() > 0 {
        lemma_no_packets_no_bytes(ps.drop_last(), format);
    }
}

fn add_to_totals(totals: &mut Vec<FormatTotal>, packet: &DecodedPacket, Ghost(ps): Ghost<
    Seq<PacketModel>,
>)
    requires
        totals_of(old(totals)@, ps),
        packet_bytes(ps) + packet.bytes@.len() <= usize::MAX,
        ps.len() < usize::MAX,
    ensures
        totals_of(final(totals)@, ps.push(packet.deep_view())),
{
    let ghost p = packet.deep_view();
    let ghost next = ps.push(p);
    proof {
        assert(next.drop_last() == ps);
        assert(next.last() == p);
        lemma_format_totals_bound(ps, p.format);
        lemma_no_packets_no_bytes(ps, p.format);
    }
    let mut i: usize = 0;
    while i < totals.len()
        invariant
            i <= totals.len(),
            totals@ == old(totals)@,
            totals_of(totals@, ps),
            p == packet.deep_view(),
            next == ps.push(p),
            next.drop_last() == ps,
            next.last() == p,
            packet_bytes(ps) + packet.bytes@.len() <= usize::MAX,
            ps.len() < usize::MAX,
            format_count(ps, p.format) <= ps.len(),
            format_bytes(ps, p.format) <= packet_bytes(ps),
            forall|k: int| 0 <= k < i ==> (#[trigger] totals@[k]).format != p.format,
        decreases totals.len() - i,
    {
        let total = totals[i];
        if total.format == packet.format {
            let updated = FormatTotal {
                format: total.format,
                byte_len: total.byte_len + packet.bytes.len(),
                packet_count: total.packet_count + 1,
            };
            totals.set(i, updated);
            proof {
                assert forall|k: int| 0 <= k < totals@.len() implies (
                #[trigger] totals@[k]).packet_count == format_count(next, totals@[k].format)
                    && totals@[k].byte_len == format_bytes(next, totals@[k].format)
                    && totals@[k].packet_count > 0 by {
                    assert(totals@[k].format == old(totals)@[k].format);
                    if k != i {
                        assert(totals@[k].format != p.format);
                    }
                }
                assert forall|f: OutputFormat| #[trigger] format_count(next, f) > 0 implies has_total(
                    totals@,
                    f,
                ) by {
                    if f == p.format {
                        assert(totals@[i as int].format == f);
                    } else {
                        assert(format_count(ps, f) == format_count(next, f));
                        let k = choose|k: int|
                            0 <= k < old(totals)@.len() && (#[trigger] old(totals)@[k]).format == f;
                        assert(totals@[k].format == f);
                    }
                }
            }
            return ;
        }
        i += 1;
    }
    totals.push(
        FormatTotal { format: packet.format, byte_len: packet.bytes.len(), packet_count: 1 },
    );
    proof {
        let n = old(totals)@.len() as int;
        assert(format_count(ps, p.format) == 0) by {
            if format_count(ps, p.format) > 0 {
                assert(has_total(old(totals)@, p.format));
            }
        }
        assert forall|k: int| 0 <= k < totals@.len() implies (
        #[trigger] totals@[k]).packet_count == format_count(next, totals@[k].format)
            && totals@[k].byte_len == format_bytes(next, totals@[k].format)
            && totals@[k].packet_count > 0 by {
            if k < n {
                assert(totals@[k] == old(totals)@[k]);
            }
        }
        assert forall|f: OutputFormat| #[trigger] format_count(next, f) > 0 implies has_total(
            totals@,
            f,
        ) by {
            if f == p.format {
                assert(totals@[n].format == f);
            } else {
                assert(format_count(ps, f) == format_count(next, f));
                let k = choose|k: int|
                    0 <= k < old(totals)@.len() && (#[trigger] old(totals)@[k]).format == f;
                assert(totals@[k].format == f);
            }
        }
    }
}

/// A display mode for each of some formats; the last entry of a format counts.
pub open spec fn mode_for(modes: Seq<(OutputFormat, PortDisplayMode)>, format: OutputFormat) -> Option<
    PortDisplayMode,
>
    decreases modes.len(),
{
    if modes.len() == 0 {
        None
    } else if modes.last().0 == format {
        Some(modes.last().1)
    } else {
        mode_for(modes.drop_last(), format)
    }
}

fn find_mode(modes: &Vec<(OutputFormat, PortDisplayMode)>, format: OutputFormat) -> (r: Option<
    PortDisplayMode,
>)
    ensures
        r == mode_for(modes@, format),
{
    let mut i: usize = modes.len();
    assert(modes@.take(i as int) == modes@);
    while i > 0
        invariant
            i <= modes.len(),
            mode_for(modes@, format) == mode_for(modes@.take(i as int), format),
        decreases i,
    {
        assert(modes@.take(i as int).drop_last() == modes@.take(i - 1));
        let entry = modes[i - 1];
        if entry.0 == format {
            return Some(entry.1);
        }
        i -= 1;
    }
    None
}

/// The settings of an input that decide how its packets are shown.
#[verifier::ext_equal]
pub struct ShowRule {
    pub per_format_display_modes: Option<Seq<(OutputFormat, PortDisplayMode)>>,
    pub preserve_line_breaks: bool,
}

/// How the bytes of a packet are shown as they are: `RoverUpGeneral` always as ASCII, the other
/// formats as set for them.
pub open spec fn plain_mode(rule: ShowRule, format: OutputFormat) -> Option<PortDisplayMode> {
    if format == OutputFormat::RoverUpGeneral {
        Some(PortDisplayMode::Ascii)
    } else {
        match rule.per_format_display_modes {
            Some(modes) => mode_for(modes, format),
            None => None,
        }
    }
}

/// What to show of a packet for each outcome of decoding it for the display: the decoded text,
/// the error, or where the format has no such decoding, the bytes themselves.
pub open spec fn decoded_entry(
    rule: ShowRule,
    p: PacketModel,
    decoded: DisplayDecodingModel,
) -> DisplayedModel {
    match decoded {
        Ok(Some(text)) => DisplayedModel {
            bytes: text,
            display_mode: Some(PortDisplayMode::Ascii),
            preserve_line_breaks: true,
        },
        Err(error) => status_entry(format_label(p.format) + " decode error: "@ + error),
        Ok(None) => DisplayedModel {
            bytes: p.bytes,
            display_mode: plain_mode(rule, p.format),
            preserve_line_breaks: rule.preserve_line_breaks,
        },
    }
}

/// What decoding a packet for the display gave: a text, nothing where the format has no such
/// decoding, or an error.
pub type DisplayDecoding = Result<Option<Vec<u8>>, String>;

pub type DisplayDecodingModel = Result<Option<Seq<u8>>, Seq<char>>;

pub open spec fn decoding_model(decoded: DisplayDecoding) -> DisplayDecodingModel {
    match decoded {
        Ok(Some(text)) => Ok(Some(text@)),
        Ok(None) => Ok(None),
        Err(error) => Err(error@),
    }
}

/// A packet and what decoding it for the display gave.
#[derive(Debug)]
pub struct PacketDecoding {
    pub packet: DecodedPacket,
    pub decoded: DisplayDecoding,
}

#[verifier::ext_equal]
pub struct PacketDecodingModel {
    pub packet: PacketModel,
    pub decoded: DisplayDecodingModel,
}

impl DeepView for PacketDecoding {
    type V = PacketDecodingModel;

    open spec fn deep_view(&self) -> PacketDecodingModel {
        PacketDecodingModel {
            packet: self.packet.deep_view(),
            decoded: decoding_model(self.decoded),
        }
    }
}

/// What decoding a packet gave, by the first entry of the table from `i` on that is about it;
/// nothing where there is none.
pub open spec fn decoding_from(table: Seq<PacketDecodingModel>, p: PacketModel, i: int) ->
    DisplayDecodingModel
    decreases table.len() - i,
{
    if i < 0 || i >= table.len() {
        Ok(None)
    } else if table[i].packet == p {
        table[i].decoded
    } else {
        decoding_from(table, p, i + 1)
    }
}

/// What decoding a packet gave, by a table.
pub open spec fn decoding_of(table: Seq<PacketDecodingModel>, p: PacketModel) ->
    DisplayDecodingModel {
    decoding_from(table, p, 0)
}

/// What one packet does to the text that is being collected, and the entries that it gives. The
/// chunks of a UFv2 text are collected; of any other packet, what decoding it gave is shown.
pub open spec fn packet_shown(
    rule: ShowRule,
    r: ReassemblerModel,
    p: PacketModel,
    decoded: DisplayDecodingModel,
    at: u64,
) -> (ReassemblerModel, Seq<DisplayedModel>) {
    if p.format == OutputFormat::PacketUfV2 {
        bytes_taken(r, p.bytes, at)
    } else {
        (r, seq![decoded_entry(rule, p, decoded)])
    }
}

/// What packets do one after the other.
pub open spec fn packets_shown(
    rule: ShowRule,
    r: ReassemblerModel,
    ps: Seq<PacketModel>,
    table: Seq<PacketDecodingModel>,
    at: u64,
) -> (ReassemblerModel, Seq<DisplayedModel>)
    decreases ps.len(),
{
    if ps.len() == 0 {
        (r, seq![])
    } else {
        let before = packets_shown(rule, r, ps.drop_last(), table, at);
        let last = packet_shown(rule, before.0, ps.last(), decoding_of(table, ps.last()), at);
        (last.0, before.1 + last.1)
    }
}

/// Where no packet is a chunk of a UFv2 text, each packet gives one entry, in the order in which
/// the packets came, by what decoding it gave; a text that is being collected stays as it is.
pub proof fn law_each_packet_gives_one_entry(
    rule: ShowRule,
    r: ReassemblerModel,
    ps: Seq<PacketModel>,
    table: Seq<PacketDecodingModel>,
    at: u64,
)
    requires
        forall|i: int|
            0 <= i < ps.len() ==> (#[trigger] ps[i]).format != OutputFormat::PacketUfV2,
    ensures
        packets_shown(rule, r, ps, table, at).0 == r,
        packets_shown(rule, r, ps, table, at).1 == ps.map_values(
            |p: PacketModel| decoded_entry(rule, p, decoding_of(table, p)),
        ),
    decreases ps.len(),
{
    let shown = |p: PacketModel| decoded_entry(rule, p, decoding_of(table, p));
    if ps.len() > 0 {
        law_each_packet_gives_one_entry(rule, r, ps.drop_last(), table, at);
        assert(ps.last().format != OutputFormat::PacketUfV2);
        assert(ps.map_values(shown) =~= ps.drop_last().map_values(shown) + seq![shown(ps.last())]);
    } else {
        assert(ps.map_values(shown) =~= Seq::<DisplayedModel>::empty());
    }
}

/// What decoding a packet gave, where the table has an entry about it.
fn find_decoding<'a>(table: &'a Vec<PacketDecoding>, packet: &DecodedPacket) -> (r: Option<
    &'a DisplayDecoding,
>)
    ensures
        decoding_of(table.deep_view(), packet.deep_view()) == (match r {
            Some(decoded) => decoding_model(*decoded),
            None => Ok(None),
        }),
{
    let ghost all = table.deep_view();
    let mut i: usize = 0;
    while i < table.len()
        invariant
            i <= table.len(),
            all == table.deep_view(),
            decoding_of(all, packet.deep_view()) == decoding_from(
                all,
                packet.deep_view(),
                i as int,
            ),
        decreases table.len() - i,
    {
        let entry = &table[i];
        assert(all[i as int] == entry.deep_view());
        if entry.packet.format == packet.format && bytes_equal(
            entry.packet.bytes.as_slice(),
            packet.bytes.as_slice(),
        ) {
            return Some(&entry.decoded);
        }
        i += 1;
    }
    None
}

proof fn lemma_enqueued_concat(
    q: Seq<DisplayedModel>,
    a: Seq<DisplayedModel>,
    b: Seq<DisplayedModel>,
)
    ensures
        enqueued(enqueued(q, a), b) == enqueued(q, a + b),
    decreases b.len(),
{
    if b.len() == 0 {
        assert(a + b == a);
    } else {
        lemma_enqueued_concat(q, a, b.drop_last());
        assert((a + b).drop_last() == a + b.drop_last());
    }
}

/// An arrival time repeated for each of `n` packets.
pub open spec fn repeated(at: u64, n: nat) -> Seq<u64> {
    Seq::new(n, |i: int| at)
}

/// An input whose packets are looked for. Times are in nanoseconds.
#[derive(Debug)]
pub struct ObservedInput {
    input_id: String,
    port: String,
    formats: Vec<OutputFormat>,
    decoder: MixedFormatDecoder,
    display_queue: PacketDisplayQueue,
    uf_v2_reassembler: UfV2TextReassembler,
    rate_trackers: Vec<(OutputFormat, PacketRateTracker)>,
    per_format_display_modes: Option<Vec<(OutputFormat, PortDisplayMode)>>,
    preserve_line_breaks: bool,
}

impl ObservedInput {
    pub closed spec fn id(&self) -> Seq<char> {
        self.input_id@
    }

    pub closed spec fn port(&self) -> Seq<char> {
        self.port@
    }

    pub closed spec fn formats(&self) -> Seq<OutputFormat> {
        self.formats@
    }

    pub closed spec fn matchers(&self) -> Seq<PacketMatcher> {
        self.decoder.matchers()
    }

    /// The received bytes that wait for more.
    pub closed spec fn pending_bytes(&self) -> Seq<u8> {
        self.decoder.pending()
    }

    /// The entries that wait for the display.
    pub closed spec fn queue(&self) -> Seq<DisplayedModel> {
        self.display_queue.entries()
    }

    pub closed spec fn collected_text(&self) -> ReassemblerModel {
        self.uf_v2_reassembler.deep_view()
    }

    pub closed spec fn rule(&self) -> ShowRule {
        ShowRule {
            per_format_display_modes: match self.per_format_display_modes {
                Some(modes) => Some(modes@),
                None => None,
            },
            preserve_line_breaks: self.preserve_line_breaks,
        }
    }

    /// The arrival times that the trackers hold, tracker by tracker.
    pub closed spec fn trackers(&self) -> Seq<(OutputFormat, Seq<u64>)> {
        self.rate_trackers@.map_values(
            |t: (OutputFormat, PacketRateTracker)| (t.0, t.1@),
        )
    }

    /// There is one tracker for each format, in the order of the formats.
    pub open spec fn wf(&self) -> bool {
        &&& self.trackers().len() == self.formats().len()
        &&& forall|i: int|
            0 <= i < self.formats().len() ==> (#[trigger] self.trackers()[i]).0 == self.formats()[i]
    }

    /// What does not change after the input was made.
    pub open spec fn same_settings(&self, other: &ObservedInput) -> bool {
        &&& self.id() == other.id()
        &&& self.port() == other.port()
        &&& self.formats() == other.formats()
        &&& self.matchers() == other.matchers()
        &&& self.rule() == other.rule()
    }

    pub fn new(
        input_id: String,
        port: String,
        formats: Vec<OutputFormat>,
        per_format_display_modes: Option<Vec<(OutputFormat, PortDisplayMode)>>,
        preserve_line_breaks: bool,
    ) -> (input: ObservedInput)
        ensures
            input.wf(),
            input.id() == input_id@,
            input.port() == port@,
            input.formats() == formats@,
            input.matchers() == matchers(formats@, true),
            input.pending_bytes() == Seq::<u8>::empty(),
            input.queue() == Seq::<DisplayedModel>::empty(),
            input.collected_text() == idle(),
            input.rule() == (ShowRule {
                per_format_display_modes: match per_format_display_modes {
                    Some(modes) => Some(modes@),
                    None => None,
                },
                preserve_line_breaks,
            }),
            forall|i: int|
                0 <= i < formats@.len() ==> (#[trigger] input.trackers()[i]).1 == Seq::<
                    u64,
                >::empty(),
    {
        ObservedInput::with_rule(
            input_id,
            port,
            formats,
            true,
            per_format_display_modes,
            preserve_line_breaks,
        )
    }

    /// An input that says whether the one-letter packets carry a checksum.
    pub fn with_rule(
        input_id: String,
        port: String,
        formats: Vec<OutputFormat>,
        reduced_crc: bool,
        per_format_display_modes: Option<Vec<(OutputFormat, PortDisplayMode)>>,
        preserve_line_breaks: bool,
    ) -> (input: ObservedInput)
        ensures
            input.wf(),
            input.id() == input_id@,
            input.port() == port@,
            input.formats() == formats@,
            input.matchers() == matchers(formats@, reduced_crc),
            input.pending_bytes() == Seq::<u8>::empty(),
            input.queue() == Seq::<DisplayedModel>::empty(),
            input.collected_text() == idle(),
            input.rule() == (ShowRule {
                per_format_display_modes: match per_format_display_modes {
                    Some(modes) => Some(modes@),
                    None => None,
                },
                preserve_line_breaks,
            }),
            forall|i: int|
                0 <= i < formats@.len() ==> (#[trigger] input.trackers()[i]).1 == Seq::<
                    u64,
                >::empty(),
    {
        let mut rate_trackers: Vec<(OutputFormat, PacketRateTracker)> = Vec::new();
        let mut i: usize = 0;
        while i < formats.len()
            invariant
                i <= formats.len(),
                rate_trackers.len() == i,
                forall|k: int|
                    0 <= k < i ==> (#[trigger] rate_trackers@[k]).0 == formats@[k]
                        && rate_trackers@[k].1@ == Seq::<u64>::empty(),
            decreases formats.len() - i,
        {
            rate_trackers.push((formats[i], PacketRateTracker::new()));
            i += 1;
        }
        let decoder = MixedFormatDecoder::with_rule(&formats, reduced_crc);
        ObservedInput {
            input_id,
            port,
            formats,
            decoder,
            display_queue: PacketDisplayQueue::new(),
            uf_v2_reassembler: UfV2TextReassembler::new(),
            rate_trackers,
            per_format_display_modes,
            preserve_line_breaks,
        }
    }

    /// The packets that received bytes would complete.
    pub fn packets_completed_by(&self, bytes: &[u8]) -> (packets: Vec<DecodedPacket>)
        ensures
            packets.deep_view() == stream_packets(self.matchers(), self.pending_bytes() + bytes@).0,
    {
        self.decoder.peek(bytes)
    }

    /// Takes received bytes in: counts the packets in them, notes their arrival, and queues what
    /// there is to show of them, by what decoding them gave.
    pub fn observe(&mut self, bytes: &[u8], decodings: &Vec<PacketDecoding>, at: u64) -> (batch:
        ObservedInputBatch)
        requires
            old(self).wf(),
        ensures
            final(self).wf(),
            final(self).same_settings(old(self)),
            ({
                let found = stream_packets(
                    old(self).matchers(),
                    old(self).pending_bytes() + bytes@,
                );
                let shown = packets_shown(
                    old(self).rule(),
                    old(self).collected_text(),
                    found.0,
                    decodings.deep_view(),
                    at,
                );
                &&& batch.counts(found.0)
                &&& final(self).pending_bytes() == found.1
                &&& final(self).collected_text() == shown.0
                &&& final(self).queue() == enqueued(old(self).queue(), shown.1)
                &&& final(self).trackers() == old(self).trackers().map_values(
                    |t: (OutputFormat, Seq<u64>)|
                        (t.0, t.1 + repeated(at, format_count(found.0, t.0))),
                )
            }),
    {
        let packets = self.decoder.push(bytes);
        let ghost ps = packets.deep_view();
        let mut valid_byte_len: usize = 0;
        let mut totals: Vec<FormatTotal> = Vec::new();
        let ghost none = Seq::<PacketModel>::empty();
        proof {
            assert(ps.take(0) == none);
            assert(self.trackers() =~= old(self).trackers().map_values(
                |t: (OutputFormat, Seq<u64>)| (t.0, t.1 + repeated(at, format_count(none, t.0))),
            )) by {
                assert forall|i: int| 0 <= i < self.trackers().len() implies (
                #[trigger] self.trackers()[i]).1 == self.trackers()[i].1 + repeated(
                    at,
                    format_count(none, self.trackers()[i].0),
                ) by {
                    assert(self.trackers()[i].1 + repeated(at, 0) =~= self.trackers()[i].1);
                }
            }
        }
        let mut i: usize = 0;
        while i < packets.len()
            invariant
                i <= packets.len(),
                ps == packets.deep_view(),
                packet_bytes(ps) <= usize::MAX,
                self.wf(),
                self.same_settings(old(self)),
                self.pending_bytes() == stream_packets(
                    old(self).matchers(),
                    old(self).pending_bytes() + bytes@,
                ).1,
                valid_byte_len == packet_bytes(ps.take(i as int)),
                totals_of(totals@, ps.take(i as int)),
                self.collected_text() == packets_shown(
                    old(self).rule(),
                    old(self).collected_text(),
                    ps.take(i as int),
                    decodings.deep_view(),
                    at,
                ).0,
                self.queue() == enqueued(
                    old(self).queue(),
                    packets_shown(
                        old(self).rule(),
                        old(self).collected_text(),
                        ps.take(i as int),
                        decodings.deep_view(),
                        at,
                    ).1,
                ),
                self.trackers() == old(self).trackers().map_values(
                    |t: (OutputFormat, Seq<u64>)|
                        (t.0, t.1 + repeated(at, format_count(ps.take(i as int), t.0))),
                ),
            decreases packets.len() - i,
        {
            let packet = &packets[i];
            let ghost p = packet.deep_view();
            let ghost done = ps.take(i as int);
            let ghost next = ps.take(i + 1);
            proof {
                assert(next.drop_last() == done);
                assert(next.last() == p);
                assert(next == done.push(p));
                lemma_packet_bytes_prefix(ps, i + 1);
            }
            valid_byte_len += packet.bytes.len();
            add_to_totals(&mut totals, packet, Ghost(done));
            let ghost trackers_before = self.trackers();
            self.record_arrival(packet.format, at);
            proof {
                assert(self.trackers() =~= old(self).trackers().map_values(
                    |t: (OutputFormat, Seq<u64>)|
                        (t.0, t.1 + repeated(at, format_count(next, t.0))),
                )) by {
                    assert forall|k: int| 0 <= k < self.trackers().len() implies (
                    #[trigger] self.trackers()[k]).1 == old(self).trackers()[k].1 + repeated(
                        at,
                        format_count(next, self.trackers()[k].0),
                    ) by {
                        let f = self.trackers()[k].0;
                        if f == p.format {
                            assert(old(self).trackers()[k].1 + repeated(at, format_count(next, f))
                                =~= (old(self).trackers()[k].1 + repeated(
                                at,
                                format_count(done, f),
                            )).push(at));
                        }
                    }
                }
            }
            let ghost before = packets_shown(
                old(self).rule(),
                old(self).collected_text(),
                done,
                decodings.deep_view(),
                at,
            );
            let ghost decoded = decoding_of(decodings.deep_view(), p);
            let ghost shown = packet_shown(old(self).rule(), before.0, p, decoded, at);
            let nothing: DisplayDecoding = Ok(None);
            let entries = match find_decoding(decodings, packet) {
                Some(known) => self.display_entries_for_packet(packet, known, at),
                None => self.display_entries_for_packet(packet, &nothing, at),
            };
            let ghost queue_before = self.queue();
            assert(entries.deep_view() == shown.1);
            self.enqueue_all(entries);
            proof {
                lemma_enqueued_concat(old(self).queue(), before.1, shown.1);
            }
            i += 1;
        }
        assert(ps.take(i as int) == ps);
        ObservedInputBatch {
            valid_byte_len,
            valid_packet_count: packets.len(),
            per_format_totals: totals,
        }
    }

    fn enqueue_all(&mut self, entries: Vec<DisplayedPacket>)
        requires
            old(self).wf(),
        ensures
            final(self).wf(),
            final(self).same_settings(old(self)),
            final(self).pending_bytes() == old(self).pending_bytes(),
            final(self).collected_text() == old(self).collected_text(),
            final(self).trackers() == old(self).trackers(),
            final(self).queue() == enqueued(old(self).queue(), entries.deep_view()),
    {
        let ghost all = entries.deep_view();
        let mut rest = entries;
        let ghost mut done: int = 0;
        assert(all.take(0) == Seq::<DisplayedModel>::empty());
        assert(displayed(rest@) =~= all.skip(0));
        while rest.len() > 0
            invariant
                0 <= done <= all.len(),
                displayed(rest@) == all.skip(done),
                self.wf(),
                self.same_settings(old(self)),
                self.pending_bytes() == old(self).pending_bytes(),
                self.collected_text() == old(self).collected_text(),
                self.trackers() == old(self).trackers(),
                self.queue() == enqueued(old(self).queue(), all.take(done)),
            decreases rest.len(),
        {
            let ghost before = rest@;
            let entry = rest.remove(0);
            proof {
                assert(displayed(before).len() == before.len());
                assert(displayed(before)[0] == entry.deep_view());
                assert(all.skip(done)[0] == all[done]);
                assert(all.take(done + 1).drop_last() == all.take(done));
                assert(rest@ =~= before.subrange(1, before.len() as int));
                lemma_displayed_tail(before);
                assert(all.skip(done).skip(1) =~= all.skip(done + 1));
                done = done + 1;
            }
            self.display_queue.enqueue_entry(entry);
        }
        assert(displayed(rest@).len() == 0);
        assert(all.take(done) == all);
    }

    fn record_arrival(&mut self, format: OutputFormat, at: u64)
        requires
            old(self).wf(),
        ensures
            final(self).wf(),
            final(self).same_settings(old(self)),
            final(self).pending_bytes() == old(self).pending_bytes(),
            final(self).collected_text() == old(self).collected_text(),
            final(self).queue() == old(self).queue(),
            final(self).trackers() == old(self).trackers().map_values(
                |t: (OutputFormat, Seq<u64>)|
                    if t.0 == format {
                        (t.0, t.1.push(at))
                    } else {
                        t
                    },
            ),
    {
        let ghost before = self.trackers();
        let mut trackers: Vec<(OutputFormat, PacketRateTracker)> = Vec::new();
        std::mem::swap(&mut trackers, &mut self.rate_trackers);
        let ghost given = trackers@;
        let mut i: usize = 0;
        while i < trackers.len()
            invariant
                i <= trackers.len(),
                trackers.len() == given.len(),
                forall|k: int|
                    i <= k < given.len() ==> (#[trigger] trackers@[k]) == given[k],
                forall|k: int|
                    0 <= k < i ==> (#[trigger] trackers@[k]).0 == given[k].0 && trackers@[k].1@ == (
                    if given[k].0 == format {
                        given[k].1@.push(at)
                    } else {
                        given[k].1@
                    }),
            decreases trackers.len() - i,
        {
            if trackers[i].0 == format {
                trackers[i].1.record(at);
            }
            i += 1;
        }
        self.rate_trackers = trackers;
        assert(self.trackers() =~= before.map_values(
            |t: (OutputFormat, Seq<u64>)|
                if t.0 == format {
                    (t.0, t.1.push(at))
                } else {
                    t
                },
        ));
    }

    /// The entries of one packet, by what decoding it gave.
    pub fn display_entries_for_packet(
        &mut self,
        packet: &DecodedPacket,
        decoded: &DisplayDecoding,
        at: u64,
    ) -> (entries: Vec<DisplayedPacket>)
        requires
            old(self).wf(),
        ensures
            final(self).wf(),
            final(self).same_settings(old(self)),
            final(self).pending_bytes() == old(self).pending_bytes(),
            final(self).queue() == old(self).queue(),
            final(self).trackers() == old(self).trackers(),
            ({
                let shown = packet_shown(
                    old(self).rule(),
                    old(self).collected_text(),
                    packet.deep_view(),
                    decoding_model(*decoded),
                    at,
                );
                &&& final(self).collected_text() == shown.0
                &&& entries.deep_view() == shown.1
            }),
    {
        if packet.format == OutputFormat::PacketUfV2 {
            return self.uf_v2_reassembler.observe(packet.bytes.as_slice(), at);
        }
        let mut entries: Vec<DisplayedPacket> = Vec::new();
        entries.push(self.entry_for_decoded(packet, decoded));
        assert(entries.deep_view() =~= seq![
            decoded_entry(self.rule(), packet.deep_view(), decoding_model(*decoded)),
        ]);
        entries
    }

    /// The entry for each outcome of decoding a packet for the display.
    pub fn entry_for_decoded(&self, packet: &DecodedPacket, decoded: &DisplayDecoding) -> (entry:
        DisplayedPacket)
        ensures
            entry.deep_view() == decoded_entry(
                self.rule(),
                packet.deep_view(),
                decoding_model(*decoded),
            ),
    {
        match decoded {
            Ok(Some(text)) => {
                let bytes = sub_bytes(text.as_slice(), 0, text.len());
                assert(bytes@ =~= text@);
                DisplayedPacket::new(bytes, Some(PortDisplayMode::Ascii), true)
            },
            Err(error) => uf_v2_status_entry(
                cat3(packet.format.display_name(), " decode error: ", error.as_str()),
            ),
            Ok(None) => {
                let mode = if packet.format == OutputFormat::RoverUpGeneral {
                    Some(PortDisplayMode::Ascii)
                } else {
                    match &self.per_format_display_modes {
                        Some(modes) => find_mode(modes, packet.format),
                        None => None,
                    }
                };
                let bytes = sub_bytes(packet.bytes.as_slice(), 0, packet.bytes.len());
                assert(bytes@ =~= packet.bytes@);
                DisplayedPacket::new(bytes, mode, self.preserve_line_breaks)
            },
        }
    }

    /// Takes up to `max_packets` entries out of the display queue, oldest first.
    pub fn flush_display_batch(&mut self, max_packets: usize) -> (batch: Vec<DisplayedPacket>)
        requires
            old(self).wf(),
        ensures
            final(self).wf(),
            final(self).same_settings(old(self)),
            final(self).pending_bytes() == old(self).pending_bytes(),
            final(self).collected_text() == old(self).collected_text(),
            final(self).trackers() == old(self).trackers(),
            ({
                let n = if max_packets < old(self).queue().len() {
                    max_packets as int
                } else {
                    old(self).queue().len() as int
                };
                &&& batch.deep_view() == old(self).queue().take(n)
                &&& final(self).queue() == old(self).queue().skip(n)
            }),
    {
        self.display_queue.flush_input_batch(max_packets)
    }

    /// Drops a text that has waited too long for its next chunk, and says so on the display.
    pub fn expire_pending_transfers(&mut self, now: u64)
        requires
            old(self).wf(),
        ensures
            final(self).wf(),
            final(self).same_settings(old(self)),
            final(self).pending_bytes() == old(self).pending_bytes(),
            final(self).trackers() == old(self).trackers(),
            final(self).collected_text() == expired(old(self).collected_text(), now).0,
            final(self).queue() == enqueued(
                old(self).queue(),
                option_seq(expired(old(self).collected_text(), now).1),
            ),
    {
        let ghost note = expired(self.collected_text(), now).1;
        if let Some(entry) = self.uf_v2_reassembler.expire(now) {
            self.display_queue.enqueue_entry(entry);
            proof {
                let notes = option_seq(note);
                assert(notes.drop_last() == Seq::<DisplayedModel>::empty());
                assert(notes.last() == note->0);
                assert(enqueued(old(self).queue(), notes.drop_last()) == old(self).queue());
            }
        }
    }

    /// How many packets of a format arrived within the last second; nothing where the format is
    /// not looked for.
    pub fn packet_rate_hz(&mut self, format: OutputFormat, now: u64) -> (r: Option<usize>)
        requires
            old(self).wf(),
        ensures
            final(self).wf(),
            final(self).same_settings(old(self)),
            final(self).pending_bytes() == old(self).pending_bytes(),
            final(self).collected_text() == old(self).collected_text(),
            final(self).queue() == old(self).queue(),
            r is Some <==> old(self).formats().contains(format),
            r is None ==> final(self).trackers() == old(self).trackers(),
            r is Some ==> exists|i: int|
                0 <= i < old(self).formats().len() && (#[trigger] old(self).formats()[i]) == format
                    && !old(self).formats().take(i).contains(format) && r->0 == recent(
                    old(self).trackers()[i].1,
                    now,
                ).len() && final(self).trackers() == old(self).trackers().update(
                    i,
                    (format, recent(old(self).trackers()[i].1, now)),
                ),
    {
        let ghost before = self.trackers();
        let mut trackers: Vec<(OutputFormat, PacketRateTracker)> = Vec::new();
        std::mem::swap(&mut trackers, &mut self.rate_trackers);
        let ghost given = trackers@;
        assert forall|k: int| 0 <= k < given.len() implies (#[trigger] given[k]).0
            == old(self).formats()[k] by {
            assert(before[k].0 == old(self).formats()[k]);
        }
        let mut i: usize = 0;
        while i < trackers.len()
            invariant
                i <= trackers.len(),
                trackers@ == given,
                given.len() == old(self).formats().len(),
                forall|k: int|
                    0 <= k < given.len() ==> (#[trigger] given[k]).0 == old(self).formats()[k],
                forall|k: int| 0 <= k < i ==> (#[trigger] given[k]).0 != format,
                before == old(self).trackers(),
                before.len() == given.len(),
                forall|k: int|
                    0 <= k < given.len() ==> (#[trigger] before[k]) == (given[k].0, given[k].1@),
                self.rate_trackers@.len() == 0,
                self.id() == old(self).id(),
                self.port() == old(self).port(),
                self.formats() == old(self).formats(),
                self.matchers() == old(self).matchers(),
                self.rule() == old(self).rule(),
                self.pending_bytes() == old(self).pending_bytes(),
                self.collected_text() == old(self).collected_text(),
                self.queue() == old(self).queue(),
                old(self).wf(),
            decreases trackers.len() - i,
        {
            if trackers[i].0 == format {
                let count: usize = trackers[i].1.packets_per_second(now);
                self.rate_trackers = trackers;
                proof {
                    let k = i as int;
                    assert(old(self).formats()[k] == format);
                    assert(self.trackers() =~= before.update(
                        k,
                        (format, recent(before[k].1, now)),
                    ));
                    assert forall|j: int| 0 <= j < k implies old(self).formats().take(k)[j]
                        != format by {
                        assert(given[j].0 != format);
                    }
                    assert(self.wf());
                }
                return Some(count);
            }
            i += 1;
        }
        self.rate_trackers = trackers;
        assert(self.trackers() =~= before);
        assert(!old(self).formats().contains(format)) by {
            if old(self).formats().contains(format) {
                let k = choose|k: int|
                    0 <= k < old(self).formats().len() && old(self).formats()[k] == format;
                assert(given[k].0 != format);
            }
        }
        None
    }

    pub fn input_id(&self) -> (id: &str)
        ensures
            id@ == self.id(),
    {
        self.input_id.as_str()
    }

    pub fn port_name(&self) -> (port: &str)
        ensures
            port@ == self.port(),
    {
        self.port.as_str()
    }

    pub fn known_formats(&self) -> (formats: &[OutputFormat])
        ensures
            formats@ == self.formats(),
    {
        self.formats.as_slice()
    }

    /// The entries that wait for the display.
    pub fn display_queue(&self) -> (queue: &PacketDisplayQueue)
        ensures
            queue.entries() == self.queue(),
    {
        &self.display_queue
    }
}

} // verus!

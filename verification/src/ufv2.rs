//! Text that arrives in UFv2 packets, put together from its chunks.
use crate::bytes::{push_bytes, sub_bytes};
use crate::display::PortDisplayMode;
use crate::packet::{is_crc_packet, matches_crc_packet};
use crate::text::{
    cat3, decimal, decimal_text, hex_byte, hex_byte_text, hex_short, hex_short_text, viewed,
};
use vstd::prelude::*;
use vstd::string::*;
use vstd::utf8::encode_utf8;

verus! {

/// Five seconds, in nanoseconds.
pub const UF_V2_REASSEMBLY_TIMEOUT: u64 = 5_000_000_000;

// ---------------------------------------------------------------------------
// Entries for the display
// ---------------------------------------------------------------------------

/// Bytes to show, how to show them, and whether their line breaks stay.
#[derive(Debug, Clone, PartialEq, Eq)]
pub struct DisplayedPacket {
    pub bytes: Vec<u8>,
    pub display_mode: Option<PortDisplayMode>,
    pub preserve_line_breaks: bool,
}

#[verifier::ext_equal]
pub struct DisplayedModel {
    pub bytes: Seq<u8>,
    pub display_mode: Option<PortDisplayMode>,
    pub preserve_line_breaks: bool,
}

impl DeepView for DisplayedPacket {
    type V = DisplayedModel;

    open spec fn deep_view(&self) -> DisplayedModel {
        DisplayedModel {
            bytes: self.bytes@,
            display_mode: self.display_mode,
            preserve_line_breaks: self.preserve_line_breaks,
        }
    }
}

impl DisplayedPacket {
    pub fn new(
        bytes: Vec<u8>,
        display_mode: Option<PortDisplayMode>,
        preserve_line_breaks: bool,
    ) -> (packet: DisplayedPacket)
        ensures
            packet.deep_view() == (DisplayedModel {
                bytes: bytes@,
                display_mode,
                preserve_line_breaks,
            }),
    {
        DisplayedPacket { bytes, display_mode, preserve_line_breaks }
    }
}

/// A message is shown as ASCII with its line breaks.
pub open spec fn status_entry(message: Seq<char>) -> DisplayedModel {
    DisplayedModel {
        bytes: encode_utf8(message),
        display_mode: Some(PortDisplayMode::Ascii),
        preserve_line_breaks: true,
    }
}

/// A finished text is shown as UTF-8 with its line breaks.
pub open spec fn text_entry(text: Seq<u8>) -> DisplayedModel {
    DisplayedModel {
        bytes: text,
        display_mode: Some(PortDisplayMode::Utf8),
        preserve_line_breaks: true,
    }
}

pub fn uf_v2_status_entry(message: String) -> (entry: DisplayedPacket)
    ensures
        entry.deep_view() == status_entry(message@),
{
    DisplayedPacket::new(message.as_str().as_bytes_vec(), Some(PortDisplayMode::Ascii), true)
}

// ---------------------------------------------------------------------------
// Packets
// ---------------------------------------------------------------------------

/// A UFv2 packet with the used part of its payload.
#[derive(Debug, Clone, PartialEq, Eq)]
pub struct PacketUfV2Packet {
    pub seq: u8,
    pub flags: u8,
    pub chunk_index: u8,
    pub payload_len: u8,
    pub payload: Vec<u8>,
}

#[verifier::ext_equal]
pub struct UfPacketModel {
    pub seq: u8,
    pub flags: u8,
    pub chunk_index: u8,
    pub payload_len: u8,
    pub payload: Seq<u8>,
}

impl DeepView for PacketUfV2Packet {
    type V = UfPacketModel;

    open spec fn deep_view(&self) -> UfPacketModel {
        UfPacketModel {
            seq: self.seq,
            flags: self.flags,
            chunk_index: self.chunk_index,
            payload_len: self.payload_len,
            payload: self.payload@,
        }
    }
}

impl UfPacketModel {
    pub open spec fn valid(self) -> bool {
        self.flags % 2 == 1
    }

    pub open spec fn usb_present(self) -> bool {
        self.flags / 2 % 2 == 1
    }

    pub open spec fn read_busy(self) -> bool {
        self.flags / 4 % 2 == 1
    }

    pub open spec fn read_error(self) -> bool {
        self.flags / 8 % 2 == 1
    }

    pub open spec fn end(self) -> bool {
        self.flags / 16 % 2 == 1
    }

    /// The three highest bits of the flags.
    pub open spec fn reserved_flags(self) -> u8 {
        (self.flags - self.flags % 32) as u8
    }
}

/// The packet in 40 bytes: `UF`, sequence number, flags, chunk index, payload length, 32 bytes of
/// payload and a checksum.
pub open spec fn uf_packet(b: Seq<u8>) -> Result<UfPacketModel, Seq<char>> {
    if !is_crc_packet(b, 0x55, 0x46, 38) {
        Err("not a UFv2 packet"@)
    } else if b[5] > 32 {
        Err("payload length "@ + decimal(b[5] as nat) + " exceeds 32 bytes"@)
    } else {
        Ok(
            UfPacketModel {
                seq: b[2],
                flags: b[3],
                chunk_index: b[4],
                payload_len: b[5],
                payload: b.subrange(6, 6 + b[5]),
            },
        )
    }
}

pub fn decode_packet_ufv2(bytes: &[u8]) -> (r: Result<PacketUfV2Packet, String>)
    ensures
        viewed(r) == uf_packet(bytes@),
{
    if !matches_crc_packet(bytes, &[0x55, 0x46], 38) {
        return Err("not a UFv2 packet".to_owned());
    }
    let payload_len: u8 = bytes[5];
    if payload_len > 32 {
        return Err(
            cat3(
                "payload length ",
                decimal_text(payload_len as u64).as_str(),
                " exceeds 32 bytes",
            ),
        );
    }
    Ok(
        PacketUfV2Packet {
            seq: bytes[2],
            flags: bytes[3],
            chunk_index: bytes[4],
            payload_len,
            payload: sub_bytes(bytes, 6, 6 + payload_len as usize),
        },
    )
}

impl PacketUfV2Packet {
    pub fn valid(&self) -> (r: bool)
        ensures
            r == self.deep_view().valid(),
    {
        self.flags % 2 == 1
    }

    pub fn usb_present(&self) -> (r: bool)
        ensures
            r == self.deep_view().usb_present(),
    {
        self.flags / 2 % 2 == 1
    }

    pub fn read_busy(&self) -> (r: bool)
        ensures
            r == self.deep_view().read_busy(),
    {
        self.flags / 4 % 2 == 1
    }

    pub fn read_error(&self) -> (r: bool)
        ensures
            r == self.deep_view().read_error(),
    {
        self.flags / 8 % 2 == 1
    }

    pub fn end(&self) -> (r: bool)
        ensures
            r == self.deep_view().end(),
    {
        self.flags / 16 % 2 == 1
    }

    pub fn reserved_flags(&self) -> (r: u8)
        ensures
            r == self.deep_view().reserved_flags(),
    {
        self.flags - self.flags % 32
    }
}

pub fn flag_value(enabled: bool) -> (r: u8)
    ensures
        r == (if enabled {
            1u8
        } else {
            0u8
        }),
{
    if enabled {
        1
    } else {
        0
    }
}

pub open spec fn flag_text(enabled: bool) -> Seq<char> {
    decimal(
        if enabled {
            1
        } else {
            0
        },
    )
}

/// The status line of a packet that carries no text.
#[verifier::opaque]
pub open spec fn packet_status(p: UfPacketModel, status: Seq<char>) -> Seq<char> {
    "UFv2 seq="@ + decimal(p.seq as nat) + " status="@ + status + " flags=0x"@ + hex_byte(p.flags)
        + "(valid="@ + flag_text(p.valid()) + ", usb_present="@ + flag_text(p.usb_present())
        + ", read_busy="@ + flag_text(p.read_busy()) + ", read_error="@ + flag_text(p.read_error())
        + ", end="@ + flag_text(p.end()) + ", reserved=0x"@ + hex_short(p.reserved_flags())
        + ") chunk="@ + decimal(p.chunk_index as nat) + " len="@ + decimal(p.payload_len as nat)
}

pub fn format_uf_v2_packet_status(packet: &PacketUfV2Packet, status: &str) -> (line: String)
    ensures
        line@ == packet_status(packet.deep_view(), status@),
{
    reveal(packet_status);
    let mut line = cat3("UFv2 seq=", decimal_text(packet.seq as u64).as_str(), " status=");
    line.append(status);
    line.append(" flags=0x");
    line.append(hex_byte_text(packet.flags).as_str());
    line.append("(valid=");
    line.append(decimal_text(flag_value(packet.valid()) as u64).as_str());
    line.append(", usb_present=");
    line.append(decimal_text(flag_value(packet.usb_present()) as u64).as_str());
    line.append(", read_busy=");
    line.append(decimal_text(flag_value(packet.read_busy()) as u64).as_str());
    line.append(", read_error=");
    line.append(decimal_text(flag_value(packet.read_error()) as u64).as_str());
    line.append(", end=");
    line.append(decimal_text(flag_value(packet.end()) as u64).as_str());
    line.append(", reserved=0x");
    line.append(hex_short_text(packet.reserved_flags()).as_str());
    line.append(") chunk=");
    line.append(decimal_text(packet.chunk_index as u64).as_str());
    line.append(" len=");
    line.append(decimal_text(packet.payload_len as u64).as_str());
    line
}

/// The message that an unfinished text was dropped for waiting too long.
#[verifier::opaque]
pub open spec fn timeout_status(expected: u8, buffered: nat) -> Seq<char> {
    "UFv2 status=timeout expected_chunk="@ + decimal(expected as nat) + " discarded="@ + decimal(
        buffered,
    ) + " bytes"@
}

/// The message that an unfinished text was dropped for a missing chunk.
#[verifier::opaque]
pub open spec fn gap_status(seq: u8, expected: u8, got: u8, buffered: nat) -> Seq<char> {
    "UFv2 seq="@ + decimal(seq as nat) + " status=incomplete expected_chunk="@ + decimal(
        expected as nat,
    ) + " got_chunk="@ + decimal(got as nat) + " discarded="@ + decimal(buffered) + " bytes"@
}

fn timeout_message(expected: u8, buffered: usize) -> (message: String)
    ensures
        message@ == timeout_status(expected, buffered as nat),
{
    reveal(timeout_status);
    let mut message = cat3(
        "UFv2 status=timeout expected_chunk=",
        decimal_text(expected as u64).as_str(),
        " discarded=",
    );
    message.append(decimal_text(buffered as u64).as_str());
    message.append(" bytes");
    message
}

fn gap_message(seq: u8, expected: u8, got: u8, buffered: usize) -> (message: String)
    ensures
        message@ == gap_status(seq, expected, got, buffered as nat),
{
    reveal(gap_status);
    let mut message = cat3(
        "UFv2 seq=",
        decimal_text(seq as u64).as_str(),
        " status=incomplete expected_chunk=",
    );
    message.append(decimal_text(expected as u64).as_str());
    message.append(" got_chunk=");
    message.append(decimal_text(got as u64).as_str());
    message.append(" discarded=");
    message.append(decimal_text(buffered as u64).as_str());
    message.append(" bytes");
    message
}

// ---------------------------------------------------------------------------
// Reassembly
// ---------------------------------------------------------------------------

/// Collects the chunks of one text. Times are in nanoseconds.
#[derive(Debug)]
pub struct UfV2TextReassembler {
    buffer: Vec<u8>,
    expected_chunk_index: u8,
    active: bool,
    last_valid_at: Option<u64>,
}

#[verifier::ext_equal]
pub struct ReassemblerModel {
    pub buffer: Seq<u8>,
    pub expected_chunk_index: u8,
    pub active: bool,
    pub last_valid_at: Option<u64>,
}

impl DeepView for UfV2TextReassembler {
    type V = ReassemblerModel;

    closed spec fn deep_view(&self) -> ReassemblerModel {
        ReassemblerModel {
            buffer: self.buffer@,
            expected_chunk_index: self.expected_chunk_index,
            active: self.active,
            last_valid_at: self.last_valid_at,
        }
    }
}

/// Nothing has been collected.
pub open spec fn idle() -> ReassemblerModel {
    ReassemblerModel {
        buffer: Seq::empty(),
        expected_chunk_index: 0,
        active: false,
        last_valid_at: None,
    }
}

/// An unfinished text has waited for its next chunk for the whole time limit.
pub open spec fn has_expired(r: ReassemblerModel, now: u64) -> bool {
    r.active && r.last_valid_at is Some && now - r.last_valid_at->0 >= UF_V2_REASSEMBLY_TIMEOUT
}

/// What is left of an unfinished text as time passes, and the message that it was dropped.
pub open spec fn expired(r: ReassemblerModel, now: u64) -> (
    ReassemblerModel,
    Option<DisplayedModel>,
) {
    if has_expired(r, now) {
        (
            idle(),
            Some(
                status_entry(timeout_status(r.expected_chunk_index, r.buffer.len())),
            ),
        )
    } else {
        (r, None)
    }
}

/// What one packet does to the collected text, and what there is to show.
pub open spec fn packet_taken(r: ReassemblerModel, p: UfPacketModel, at: u64) -> (
    ReassemblerModel,
    Option<DisplayedModel>,
) {
    if p.read_error() {
        (idle(), Some(status_entry(packet_status(p, "error"@))))
    } else if p.read_busy() {
        (r, Some(status_entry(packet_status(p, "busy"@))))
    } else if !p.valid() {
        (r, Some(status_entry(packet_status(p, "idle"@))))
    } else if p.chunk_index != r.expected_chunk_index {
        (
            idle(),
            Some(
                status_entry(
                    gap_status(p.seq, r.expected_chunk_index, p.chunk_index, r.buffer.len()),
                ),
            ),
        )
    } else if p.end() {
        (idle(), Some(text_entry(r.buffer + p.payload)))
    } else {
        (
            ReassemblerModel {
                buffer: r.buffer + p.payload,
                expected_chunk_index: ((r.expected_chunk_index + 1) % 256) as u8,
                active: true,
                last_valid_at: Some(at),
            },
            None,
        )
    }
}

pub open spec fn option_seq<T>(o: Option<T>) -> Seq<T> {
    match o {
        Some(x) => seq![x],
        None => seq![],
    }
}

/// What received bytes do: time passes first, then the packet in them counts.
pub open spec fn bytes_taken(r: ReassemblerModel, b: Seq<u8>, at: u64) -> (
    ReassemblerModel,
    Seq<DisplayedModel>,
) {
    let (fresh, dropped) = expired(r, at);
    match uf_packet(b) {
        Err(error) => (fresh, option_seq(dropped) + seq![status_entry(
            "UFv2 decode error: "@ + error,
        )]),
        Ok(p) => {
            let (next, shown) = packet_taken(fresh, p, at);
            (next, option_seq(dropped) + option_seq(shown))
        },
    }
}

impl UfV2TextReassembler {
    pub fn new() -> (r: UfV2TextReassembler)
        ensures
            r.deep_view() == idle(),
    {
        UfV2TextReassembler {
            buffer: Vec::new(),
            expected_chunk_index: 0,
            active: false,
            last_valid_at: None,
        }
    }

    pub fn reset(&mut self)
        ensures
            final(self).deep_view() == idle(),
    {
        self.buffer.clear();
        self.expected_chunk_index = 0;
        self.active = false;
        self.last_valid_at = None;
    }

    pub fn expire(&mut self, now: u64) -> (entry: Option<DisplayedPacket>)
        ensures
            final(self).deep_view() == expired(old(self).deep_view(), now).0,
            entry.deep_view() == expired(old(self).deep_view(), now).1,
    {
        if !self.active {
            return None;
        }
        let last_valid_at: u64 = match self.last_valid_at {
            Some(at) => at,
            None => {
                return None;
            },
        };
        if now.saturating_sub(last_valid_at) < UF_V2_REASSEMBLY_TIMEOUT {
            return None;
        }
        let expected: u8 = self.expected_chunk_index;
        let buffered_len: usize = self.buffer.len();
        self.reset();
        Some(uf_v2_status_entry(timeout_message(expected, buffered_len)))
    }

    fn take_packet(&mut self, packet: &PacketUfV2Packet, at: u64) -> (entry: Option<
        DisplayedPacket,
    >)
        ensures
            final(self).deep_view() == packet_taken(old(self).deep_view(), packet.deep_view(), at).0,
            entry.deep_view() == packet_taken(old(self).deep_view(), packet.deep_view(), at).1,
    {
        if packet.read_error() {
            self.reset();
            return Some(uf_v2_status_entry(format_uf_v2_packet_status(packet, "error")));
        }
        if packet.read_busy() {
            return Some(uf_v2_status_entry(format_uf_v2_packet_status(packet, "busy")));
        }
        if !packet.valid() {
            return Some(uf_v2_status_entry(format_uf_v2_packet_status(packet, "idle")));
        }
        if packet.chunk_index != self.expected_chunk_index {
            let expected: u8 = self.expected_chunk_index;
            let buffered_len: usize = self.buffer.len();
            self.reset();
            return Some(
                uf_v2_status_entry(
                    gap_message(packet.seq, expected, packet.chunk_index, buffered_len),
                ),
            );
        }
        push_bytes(&mut self.buffer, packet.payload.as_slice());
        if packet.end() {
            let text = sub_bytes(self.buffer.as_slice(), 0, self.buffer.len());
            assert(text@ =~= self.buffer@);
            self.reset();
            Some(DisplayedPacket::new(text, Some(PortDisplayMode::Utf8), true))
        } else {
            self.active = true;
            self.last_valid_at = Some(at);
            self.expected_chunk_index = if self.expected_chunk_index == 255 {
                0
            } else {
                self.expected_chunk_index + 1
            };
            None
        }
    }

    pub fn observe(&mut self, bytes: &[u8], at: u64) -> (entries: Vec<DisplayedPacket>)
        ensures
            final(self).deep_view() == bytes_taken(old(self).deep_view(), bytes@, at).0,
            entries.deep_view() == bytes_taken(old(self).deep_view(), bytes@, at).1,
    {
        let mut entries: Vec<DisplayedPacket> = Vec::new();
        let ghost dropped = expired(self.deep_view(), at).1;
        if let Some(entry) = self.expire(at) {
            entries.push(entry);
        }
        assert(entries.deep_view() =~= option_seq(dropped));
        match decode_packet_ufv2(bytes) {
            Err(error) => {
                let entry = uf_v2_status_entry(
                    crate::text::cat2("UFv2 decode error: ", error.as_str()),
                );
                let ghost shown = entry.deep_view();
                entries.push(entry);
                assert(entries.deep_view() =~= option_seq(dropped) + seq![shown]);
                entries
            },
            Ok(packet) => {
                let ghost shown = packet_taken(self.deep_view(), packet.deep_view(), at).1;
                if let Some(entry) = self.take_packet(&packet, at) {
                    entries.push(entry);
                }
                assert(entries.deep_view() =~= option_seq(dropped) + option_seq(shown));
                entries
            },
        }
    }
}

// ---------------------------------------------------------------------------
// The law of reassembly
// ---------------------------------------------------------------------------

/// What one packet does at its time: an unfinished text may expire first.
#[verifier::opaque]
pub open spec fn packet_taken_at(r: ReassemblerModel, p: UfPacketModel, at: u64) -> (
    ReassemblerModel,
    Seq<DisplayedModel>,
) {
    let (fresh, dropped) = expired(r, at);
    let (next, shown) = packet_taken(fresh, p, at);
    (next, option_seq(dropped) + option_seq(shown))
}

/// What a run of packets does, one after the other.
pub open spec fn packets_taken(r: ReassemblerModel, ps: Seq<UfPacketModel>, at: Seq<u64>) -> (
    ReassemblerModel,
    Seq<DisplayedModel>,
)
    decreases ps.len(),
{
    if ps.len() == 0 {
        (r, seq![])
    } else {
        let before = packets_taken(r, ps.drop_last(), at);
        let last = packet_taken_at(before.0, ps.last(), at[ps.len() - 1]);
        (last.0, before.1 + last.1)
    }
}

/// The payloads one after the other.
pub open spec fn whole_text(ps: Seq<UfPacketModel>) -> Seq<u8>
    decreases ps.len(),
{
    if ps.len() == 0 {
        seq![]
    } else {
        whole_text(ps.drop_last()) + ps.last().payload
    }
}

/// The packet at `i` came within the time limit of the one before.
pub open spec fn in_time(at: Seq<u64>, i: int) -> bool {
    at[i] - at[i - 1] < UF_V2_REASSEMBLY_TIMEOUT
}

/// Chunks in order, numbered from 0 and again from 0 after 255, each valid and within the time
/// limit of the one before.
pub open spec fn in_order(ps: Seq<UfPacketModel>, at: Seq<u64>) -> bool {
    &&& at.len() == ps.len()
    &&& forall|i: int|
        0 <= i < ps.len() ==> (#[trigger] ps[i]).valid() && !ps[i].read_error()
            && !ps[i].read_busy() && ps[i].chunk_index == i % 256
    &&& forall|i: int| 0 < i < ps.len() ==> #[trigger] in_time(at, i)
}

/// One chunk in order is collected and shows nothing.
proof fn lemma_chunk_collected(r: ReassemblerModel, p: UfPacketModel, at: u64)
    requires
        p.valid(),
        !p.read_error(),
        !p.read_busy(),
        !p.end(),
        p.chunk_index == r.expected_chunk_index,
        !has_expired(r, at),
    ensures
        packet_taken_at(r, p, at).1 == Seq::<DisplayedModel>::empty(),
        packet_taken_at(r, p, at).0.buffer == r.buffer + p.payload,
        packet_taken_at(r, p, at).0.expected_chunk_index == (r.expected_chunk_index + 1) % 256,
        packet_taken_at(r, p, at).0.last_valid_at == Some(at),
{
    reveal(packet_taken_at);
}

proof fn lemma_partial_text(ps: Seq<UfPacketModel>, at: Seq<u64>, n: int)
    requires
        in_order(ps, at),
        0 <= n <= ps.len(),
        forall|i: int| 0 <= i < n ==> !(#[trigger] ps[i]).end(),
    ensures
        packets_taken(idle(), ps.take(n), at).1 == Seq::<DisplayedModel>::empty(),
        packets_taken(idle(), ps.take(n), at).0.buffer == whole_text(ps.take(n)),
        packets_taken(idle(), ps.take(n), at).0.expected_chunk_index == n % 256,
        n > 0 ==> packets_taken(idle(), ps.take(n), at).0.last_valid_at == Some(at[n - 1]),
        n == 0 ==> !packets_taken(idle(), ps.take(n), at).0.active,
    decreases n,
{
    if n > 0 {
        lemma_partial_text(ps, at, n - 1);
        let t = ps.take(n);
        let last = ps[n - 1];
        let before = packets_taken(idle(), ps.take(n - 1), at);
        assert(t.drop_last() == ps.take(n - 1));
        assert(t.last() == last && t.len() == n);
        assert(last.valid() && !last.end());
        if n > 1 {
            assert(in_time(at, n - 1));
        }
        lemma_chunk_collected(before.0, last, at[n - 1]);
        let none = Seq::<DisplayedModel>::empty();
        assert(none + none == none);
    }
}

/// Chunks in order, of which only the last one ends the text, give one entry: the whole text.
pub proof fn law_chunks_give_the_text(ps: Seq<UfPacketModel>, at: Seq<u64>)
    requires
        ps.len() > 0,
        in_order(ps, at),
        forall|i: int| 0 <= i < ps.len() - 1 ==> !(#[trigger] ps[i]).end(),
        ps.last().end(),
    ensures
        packets_taken(idle(), ps, at).1 == seq![text_entry(whole_text(ps))],
        packets_taken(idle(), ps, at).0 == idle(),
{
    let n = ps.len() - 1;
    lemma_partial_text(ps, at, n);
    assert(ps.take(n) == ps.drop_last());
    assert(ps.last() == ps[n]);
    assert(ps[n].valid());
    if n > 0 {
        assert(in_time(at, n));
    }
    reveal(packet_taken_at);
    let none = Seq::<DisplayedModel>::empty();
    let text = text_entry(whole_text(ps));
    assert(none + (none + seq![text]) == seq![text]);
}

} // verus!

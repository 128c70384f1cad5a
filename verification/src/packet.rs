//! Recognising packets in a byte stream that mixes formats and may hold noise.
use crate::bytes::{
    crc16, crc16_range, drop_front, le16, lemma_value16, push_bytes, read_u16, sub_bytes, value16,
};
use crate::format::{
    format_packet_len, sample_packet, sample_position, with_crc, zeros, OutputFormat,
};
use vstd::prelude::*;
use vstd::slice::slice_subrange;

verus! {

pub const ROVER_DOWN_GENERAL_PREFIX_LEN: usize = 6;

pub const ROVER_DOWN_GENERAL_MAX_PACKET_LEN: usize = 256;

// ---------------------------------------------------------------------------
// What a packet is
// ---------------------------------------------------------------------------

/// A packet with a two-byte header and a checksum over its first `payload_len` bytes.
pub open spec fn is_crc_packet(b: Seq<u8>, h0: u8, h1: u8, payload_len: int) -> bool {
    &&& b.len() == payload_len + 2
    &&& b.len() >= 2
    &&& b[0] == h0
    &&& b[1] == h1
    &&& crc16(b.take(payload_len)) == value16(b, payload_len)
}

/// Fewer bytes than a packet, which agree with the header as far as they go.
pub open spec fn starts_crc_packet(b: Seq<u8>, h0: u8, h1: u8, packet_len: int) -> bool {
    &&& b.len() < packet_len
    &&& b.len() > 0 ==> b[0] == h0
    &&& b.len() > 1 ==> b[1] == h1
}

/// A packet with a one-byte header and, where `checked`, a checksum at its end.
pub open spec fn is_reduced_packet(b: Seq<u8>, header: u8, packet_len: int, checked: bool) -> bool {
    &&& b.len() == packet_len
    &&& b.len() > 0
    &&& b[0] == header
    &&& checked ==> crc16(b.take(packet_len - 2)) == value16(b, packet_len - 2)
}

pub open spec fn starts_reduced_packet(b: Seq<u8>, header: u8, packet_len: int) -> bool {
    0 < b.len() < packet_len && b[0] == header
}

pub open spec fn is_decimal_byte(byte: u8) -> bool {
    0x30 <= byte <= 0x39
}

pub open spec fn is_hex_byte(byte: u8) -> bool {
    is_decimal_byte(byte) || 0x41 <= byte <= 0x46 || 0x61 <= byte <= 0x66
}

/// The line `0x3hh,dddd` with carriage return and line feed, byte by byte.
pub open spec fn rover_up_byte(index: int, byte: u8) -> bool {
    if index == 0 {
        byte == 0x30
    } else if index == 1 {
        byte == 0x78
    } else if index == 2 {
        byte == 0x33
    } else if index == 3 || index == 4 {
        is_hex_byte(byte)
    } else if index == 5 {
        byte == 0x2C
    } else if 6 <= index <= 9 {
        is_decimal_byte(byte)
    } else if index == 10 {
        byte == 0x0D
    } else if index == 11 {
        byte == 0x0A
    } else {
        false
    }
}

pub open spec fn starts_rover_up(b: Seq<u8>) -> bool {
    b.len() <= 12 && forall|i: int| 0 <= i < b.len() ==> rover_up_byte(i, #[trigger] b[i])
}

pub open spec fn is_rover_up(b: Seq<u8>) -> bool {
    b.len() == 12 && starts_rover_up(b)
}

/// The start `0x3hh,` or `0x4hh,` of a line, byte by byte.
pub open spec fn rover_down_header_byte(index: int, byte: u8) -> bool {
    if index == 0 {
        byte == 0x30
    } else if index == 1 {
        byte == 0x78
    } else if index == 2 {
        byte == 0x33 || byte == 0x34
    } else if index == 3 || index == 4 {
        is_hex_byte(byte)
    } else if index == 5 {
        byte == 0x2C
    } else {
        false
    }
}

/// The first six bytes, or all of fewer, agree with the start of a line.
pub open spec fn agrees_with_rover_down_header(b: Seq<u8>) -> bool {
    forall|i: int| 0 <= i < b.len() && i < 6 ==> rover_down_header_byte(i, #[trigger] b[i])
}

/// A line of at most 256 bytes: the header, one byte or more that are neither carriage return
/// nor line feed, and then these two.
pub open spec fn is_rover_down(b: Seq<u8>) -> bool {
    &&& 9 <= b.len() <= 256
    &&& agrees_with_rover_down_header(b)
    &&& b[b.len() - 2] == 0x0D
    &&& b[b.len() - 1] == 0x0A
    &&& forall|i: int| 6 <= i < b.len() - 2 ==> #[trigger] b[i] != 0x0D && b[i] != 0x0A
}

/// At most 256 bytes that a line can start with, or a whole line.
pub open spec fn starts_rover_down(b: Seq<u8>) -> bool {
    ||| is_rover_down(b)
    ||| {
        &&& b.len() <= 256
        &&& agrees_with_rover_down_header(b)
        &&& forall|i: int|
            6 <= i < b.len() ==> #[trigger] b[i] != 0x0A && (b[i] == 0x0D ==> i == b.len() - 1)
    }
}

/// What a matcher looks for: a format, and whether the one-letter packets carry a checksum.
#[derive(Debug, Clone, Copy, PartialEq, Eq, Structural)]
pub struct PacketMatcher {
    pub format: OutputFormat,
    pub reduced_crc: bool,
}

/// `b` is one whole packet.
pub open spec fn is_packet(m: PacketMatcher, b: Seq<u8>) -> bool {
    match m.format {
        OutputFormat::PacketAcV6 => is_crc_packet(b, 0x41, 0x43, 37),
        OutputFormat::PacketAcV6Usb => is_crc_packet(b, 0x41, 0x43, 37),
        OutputFormat::PacketMv1 => is_reduced_packet(b, 0x4D, 19, m.reduced_crc),
        OutputFormat::PacketIv1 => is_reduced_packet(b, 0x49, 19, m.reduced_crc),
        OutputFormat::PacketBv1 => is_reduced_packet(b, 0x42, 15, m.reduced_crc),
        OutputFormat::PacketGcV1 => is_crc_packet(b, 0x47, 0x43, 7),
        OutputFormat::PacketJfV1 => is_crc_packet(b, 0x4A, 0x46, 14),
        OutputFormat::PacketUfV2 => is_crc_packet(b, 0x55, 0x46, 38),
        OutputFormat::RoverUpGeneral => is_rover_up(b),
        OutputFormat::RoverDownGeneral => is_rover_down(b),
    }
}

/// `b` is not empty and more bytes may make it a packet.
pub open spec fn may_start_packet(m: PacketMatcher, b: Seq<u8>) -> bool {
    b.len() > 0 && match m.format {
        OutputFormat::PacketAcV6 => starts_crc_packet(b, 0x41, 0x43, 39),
        OutputFormat::PacketAcV6Usb => starts_crc_packet(b, 0x41, 0x43, 39),
        OutputFormat::PacketMv1 => starts_reduced_packet(b, 0x4D, 19),
        OutputFormat::PacketIv1 => starts_reduced_packet(b, 0x49, 19),
        OutputFormat::PacketBv1 => starts_reduced_packet(b, 0x42, 15),
        OutputFormat::PacketGcV1 => starts_crc_packet(b, 0x47, 0x43, 9),
        OutputFormat::PacketJfV1 => starts_crc_packet(b, 0x4A, 0x46, 16),
        OutputFormat::PacketUfV2 => starts_crc_packet(b, 0x55, 0x46, 40),
        OutputFormat::RoverUpGeneral => starts_rover_up(b),
        OutputFormat::RoverDownGeneral => starts_rover_down(b),
    }
}

/// The position of the first carriage return with line feed, or the length where there is none.
pub open spec fn crlf_at(b: Seq<u8>) -> nat
    decreases b.len(),
{
    if b.len() < 2 {
        b.len()
    } else if b[0] == 0x0D && b[1] == 0x0A {
        0
    } else {
        1 + crlf_at(b.skip(1))
    }
}

/// The length of the packet that `b` starts with.
pub open spec fn packet_at_front(m: PacketMatcher, b: Seq<u8>) -> Option<nat> {
    if m.format == OutputFormat::RoverDownGeneral {
        let data = b.skip(6);
        let n = 6 + crlf_at(data) + 2;
        if b.len() >= 6 && crlf_at(data) < data.len() && is_rover_down(b.take(n as int)) {
            Some(n)
        } else {
            None
        }
    } else {
        let n = format_packet_len(m.format);
        if b.len() >= n && is_packet(m, b.take(n as int)) {
            Some(n)
        } else {
            None
        }
    }
}

// ---------------------------------------------------------------------------
// Laws of single packets
// ---------------------------------------------------------------------------

proof fn lemma_crlf_at(b: Seq<u8>)
    ensures
        crlf_at(b) <= b.len(),
        crlf_at(b) < b.len() ==> crlf_at(b) + 1 < b.len() && b[crlf_at(b) as int] == 0x0D
            && b[crlf_at(b) as int + 1] == 0x0A,
        forall|i: int|
            0 <= i < crlf_at(b) && i + 1 < b.len() ==> !(#[trigger] b[i] == 0x0D && b[i + 1]
                == 0x0A),
    decreases b.len(),
{
    if b.len() >= 2 && !(b[0] == 0x0D && b[1] == 0x0A) {
        let t = b.skip(1);
        lemma_crlf_at(t);
        assert forall|i: int| 0 <= i < crlf_at(b) && i + 1 < b.len() implies !(#[trigger] b[i]
            == 0x0D && b[i + 1] == 0x0A) by {
            if i > 0 {
                assert(t[i - 1] == b[i]);
                assert(t[i] == b[i + 1]);
            }
        }
    }
}

proof fn lemma_crlf_is_at(b: Seq<u8>, k: int)
    requires
        0 <= k <= b.len(),
        forall|i: int|
            0 <= i < k && i + 1 < b.len() ==> !(#[trigger] b[i] == 0x0D && b[i + 1] == 0x0A),
        k < b.len() ==> k + 1 < b.len() && b[k] == 0x0D && b[k + 1] == 0x0A,
    ensures
        crlf_at(b) == k,
{
    lemma_crlf_at(b);
    let m = crlf_at(b) as int;
    if m < k {
        assert(b[m] == 0x0D);
    } else if k < m {
        assert(b[k] == 0x0D);
    }
}

/// A packet at the front of `b` is a prefix of `b` that is a whole packet, and every such prefix
/// is found: there is never more than one.
pub proof fn law_front_packet(m: PacketMatcher, b: Seq<u8>, n: nat)
    ensures
        packet_at_front(m, b) == Some(n) <==> n <= b.len() && is_packet(m, b.take(n as int)),
        packet_at_front(m, b) == Some(n) ==> n > 0,
{
    if m.format == OutputFormat::RoverDownGeneral {
        let data = b.skip(6);
        lemma_crlf_at(data);
        if n <= b.len() && is_packet(m, b.take(n as int)) {
            let p = b.take(n as int);
            assert forall|i: int| 0 <= i < n - 8 && i + 1 < data.len() implies !(#[trigger] data[i]
                == 0x0D && data[i + 1] == 0x0A) by {
                assert(data[i] == p[i + 6]);
            }
            assert(data[n - 8] == p[n - 2]);
            assert(data[n - 7] == p[n - 1]);
            lemma_crlf_is_at(data, n - 8);
        }
        if packet_at_front(m, b) is Some {
            let k = crlf_at(data) as int;
            assert(data[k] == 0x0D);
        }
    } else {
        if n <= b.len() && is_packet(m, b.take(n as int)) {
            assert(b.take(n as int).len() == n);
        }
    }
}

/// More bytes behind a packet do not change it.
pub proof fn law_front_packet_is_stable(m: PacketMatcher, b: Seq<u8>, c: Seq<u8>, n: nat)
    requires
        n <= b.len(),
    ensures
        packet_at_front(m, b + c) == Some(n) <==> packet_at_front(m, b) == Some(n),
{
    law_front_packet(m, b, n);
    law_front_packet(m, b + c, n);
    assert((b + c).take(n as int) == b.take(n as int));
}

/// Bytes that more bytes complete to a packet are never given up.
pub proof fn law_started_packet_is_kept(m: PacketMatcher, b: Seq<u8>, c: Seq<u8>, n: nat)
    requires
        0 < b.len() < n,
        packet_at_front(m, b + c) == Some(n),
    ensures
        may_start_packet(m, b),
{
    law_front_packet(m, b + c, n);
    let p = (b + c).take(n as int);
    assert forall|i: int| 0 <= i < b.len() implies #[trigger] b[i] == p[i] by {}
    assert(p[0] == b[0]);
    if b.len() > 1 {
        assert(p[1] == b[1]);
    }
}

/// What cannot start a packet cannot do so with more bytes behind it.
pub proof fn law_start_is_prefix_closed(m: PacketMatcher, b: Seq<u8>, c: Seq<u8>)
    requires
        b.len() > 0,
        may_start_packet(m, b + c),
    ensures
        may_start_packet(m, b),
{
    let p = b + c;
    assert forall|i: int| 0 <= i < b.len() implies #[trigger] b[i] == p[i] by {}
    assert(p[0] == b[0]);
    if b.len() > 1 {
        assert(p[1] == b[1]);
    }
    if m.format == OutputFormat::RoverDownGeneral {
        if c.len() == 0 {
            assert(p == b);
        }
    }
}

/// Two matchers that find a packet at the same place find packets of the same length.
pub proof fn law_front_packets_agree(
    m: PacketMatcher,
    o: PacketMatcher,
    b: Seq<u8>,
    i: nat,
    j: nat,
)
    requires
        packet_at_front(m, b) == Some(i),
        packet_at_front(o, b) == Some(j),
    ensures
        i == j,
{
    law_front_packet(m, b, i);
    law_front_packet(o, b, j);
    let p = b.take(i as int);
    let q = b.take(j as int);
    assert(p.len() == i && q.len() == j);
    assert(p[0] == b[0] && q[0] == b[0]);
    if m.format == OutputFormat::RoverUpGeneral && o.format == OutputFormat::RoverDownGeneral {
        lemma_up_down_same_length(b, i, j);
    }
    if o.format == OutputFormat::RoverUpGeneral && m.format == OutputFormat::RoverDownGeneral {
        lemma_up_down_same_length(b, j, i);
    }
    if m.format == OutputFormat::RoverDownGeneral && o.format == OutputFormat::RoverDownGeneral {
        law_front_packet(m, b, j);
    }
}

proof fn lemma_up_down_same_length(b: Seq<u8>, up: nat, down: nat)
    requires
        up <= b.len(),
        down <= b.len(),
        is_rover_up(b.take(up as int)),
        is_rover_down(b.take(down as int)),
    ensures
        up == down,
{
    let p = b.take(up as int);
    let q = b.take(down as int);
    assert(up == 12 && down >= 9);
    assert(p[10] == b[10] && p[11] == b[11]);
    assert(q[down - 2] == b[down - 2] && q[down - 1] == b[down - 1]);
    if down < 12 {
        assert(p[down - 2] == b[down - 2]);
        assert(rover_up_byte(down - 2, p[down - 2]));
        assert(rover_up_byte(down - 1, p[down - 1]));
    } else if down > 12 {
        assert(rover_up_byte(10, p[10]));
        assert(rover_up_byte(11, p[11]));
        assert(q[10] == b[10] && q[11] == b[11]);
    }
}

proof fn lemma_with_crc(x: Seq<u8>)
    ensures
        with_crc(x).len() == x.len() + 2,
        with_crc(x).take(x.len() as int) == x,
        value16(with_crc(x), x.len() as int) == crc16(x),
{
    let b = with_crc(x);
    let n = x.len() as int;
    assert(b.take(n) == x);
    assert(b.subrange(n, n + 2) == le16(crc16(x)));
    lemma_value16(b, n, crc16(x));
}

/// The sample packet of a format is a packet of that format.
pub proof fn law_sample_is_packet(format: OutputFormat, reduced_crc: bool)
    ensures
        is_packet((PacketMatcher { format, reduced_crc }), sample_packet(format)),
{
    match format {
        OutputFormat::PacketAcV6 | OutputFormat::PacketAcV6Usb => {
            lemma_with_crc(seq![0x41u8, 0x43] + zeros(35));
        },
        OutputFormat::PacketMv1 => {
            lemma_with_crc(seq![0x4Du8] + zeros(16));
        },
        OutputFormat::PacketIv1 => {
            lemma_with_crc(seq![0x49u8] + zeros(16));
        },
        OutputFormat::PacketBv1 => {
            lemma_with_crc(seq![0x42u8] + zeros(12));
        },
        OutputFormat::PacketGcV1 => {
            lemma_with_crc(seq![0x47u8, 0x43] + zeros(5));
        },
        OutputFormat::PacketJfV1 => {
            lemma_with_crc(seq![0x4Au8, 0x46] + zeros(12));
        },
        OutputFormat::PacketUfV2 => {
            lemma_with_crc(seq![0x55u8, 0x46, 0, 0x13, 0, 21] + sample_position() + zeros(11));
        },
        _ => {},
    }
}

// ---------------------------------------------------------------------------
// Streams
// ---------------------------------------------------------------------------

#[derive(Debug, Clone, PartialEq, Eq)]
pub struct DecodedPacket {
    pub format: OutputFormat,
    pub bytes: Vec<u8>,
}

/// A packet of a stream: its format and its bytes.
#[verifier::ext_equal]
pub struct PacketModel {
    pub format: OutputFormat,
    pub bytes: Seq<u8>,
}

impl DeepView for DecodedPacket {
    type V = PacketModel;

    open spec fn deep_view(&self) -> PacketModel {
        PacketModel { format: self.format, bytes: self.bytes@ }
    }
}

/// The first of the matchers from `i` on that finds a packet at the front of `b`.
pub open spec fn first_match(ms: Seq<PacketMatcher>, b: Seq<u8>, i: int) -> Option<PacketModel>
    decreases ms.len() - i,
{
    if i < 0 || i >= ms.len() {
        None
    } else {
        match packet_at_front(ms[i], b) {
            Some(n) => Some(PacketModel { format: ms[i].format, bytes: b.take(n as int) }),
            None => first_match(ms, b, i + 1),
        }
    }
}

/// Some matcher waits for more bytes.
pub open spec fn some_may_start(ms: Seq<PacketMatcher>, b: Seq<u8>) -> bool {
    exists|i: int| 0 <= i < ms.len() && may_start_packet(#[trigger] ms[i], b)
}

proof fn lemma_first_match(ms: Seq<PacketMatcher>, b: Seq<u8>, i: int)
    requires
        0 <= i,
    ensures
        first_match(ms, b, i) matches Some(p) ==> 0 < p.bytes.len() <= b.len() && p.bytes == b.take(
            p.bytes.len() as int,
        ) && exists|k: int|
            i <= k < ms.len() && packet_at_front(#[trigger] ms[k], b) == Some(p.bytes.len())
                && ms[k].format == p.format,
        first_match(ms, b, i) is None ==> forall|k: int|
            i <= k < ms.len() ==> packet_at_front(#[trigger] ms[k], b) is None,
    decreases ms.len() - i,
{
    if i < ms.len() {
        if packet_at_front(ms[i], b) is Some {
            let n = packet_at_front(ms[i], b)->0;
            law_front_packet(ms[i], b, n);
        } else {
            lemma_first_match(ms, b, i + 1);
        }
    }
}

/// The packets in a byte stream, and the bytes at its end that wait for more. At each place the
/// first matcher that finds a packet takes it; where none finds one and none may find one with
/// more bytes, one byte is noise.
pub open spec fn stream_packets(ms: Seq<PacketMatcher>, b: Seq<u8>) -> (Seq<PacketModel>, Seq<u8>)
    decreases b.len(),
{
    if b.len() == 0 {
        (seq![], b)
    } else {
        match first_match(ms, b, 0) {
            Some(p) => if 0 < p.bytes.len() <= b.len() {
                let (later, rest) = stream_packets(ms, b.skip(p.bytes.len() as int));
                (seq![p] + later, rest)
            } else {
                (seq![], b)
            },
            None => if some_may_start(ms, b) {
                (seq![], b)
            } else {
                stream_packets(ms, b.skip(1))
            },
        }
    }
}

/// The bytes of all packets together.
pub open spec fn packet_bytes(ps: Seq<PacketModel>) -> nat
    decreases ps.len(),
{
    if ps.len() == 0 {
        0
    } else {
        packet_bytes(ps.drop_last()) + ps.last().bytes.len()
    }
}

proof fn lemma_packet_bytes_cons(p: PacketModel, ps: Seq<PacketModel>)
    ensures
        packet_bytes(seq![p] + ps) == p.bytes.len() + packet_bytes(ps),
    decreases ps.len(),
{
    let all = seq![p] + ps;
    if ps.len() == 0 {
        assert(all.drop_last() == Seq::<PacketModel>::empty());
        assert(packet_bytes(all.drop_last()) == 0);
        assert(all.last() == p);
    } else {
        lemma_packet_bytes_cons(p, ps.drop_last());
        assert(all.drop_last() == seq![p] + ps.drop_last());
        assert(all.last() == ps.last());
    }
}

/// The packets of a stream and the bytes that wait are together no longer than the stream, and
/// no packet is empty.
pub proof fn law_packets_fit_the_stream(ms: Seq<PacketMatcher>, b: Seq<u8>)
    ensures
        packet_bytes(stream_packets(ms, b).0) + stream_packets(ms, b).1.len() <= b.len(),
        stream_packets(ms, b).0.len() <= packet_bytes(stream_packets(ms, b).0),
    decreases b.len(),
{
    if b.len() > 0 {
        lemma_first_match(ms, b, 0);
        match first_match(ms, b, 0) {
            Some(p) => {
                let rest = b.skip(p.bytes.len() as int);
                law_packets_fit_the_stream(ms, rest);
                lemma_packet_bytes_cons(p, stream_packets(ms, rest).0);
            },
            None => {
                if !some_may_start(ms, b) {
                    law_packets_fit_the_stream(ms, b.skip(1));
                }
            },
        }
    }
}

/// Every packet that comes out of a stream is a whole packet of its format, by one of the
/// matchers.
pub proof fn law_packets_are_packets(ms: Seq<PacketMatcher>, b: Seq<u8>, i: int)
    requires
        0 <= i < stream_packets(ms, b).0.len(),
    ensures
        exists|k: int|
            0 <= k < ms.len() && (#[trigger] ms[k]).format == stream_packets(ms, b).0[i].format
                && is_packet(ms[k], stream_packets(ms, b).0[i].bytes),
    decreases b.len(),
{
    lemma_first_match(ms, b, 0);
    match first_match(ms, b, 0) {
        Some(p) => {
            if i == 0 {
                let k = choose|k: int|
                    0 <= k < ms.len() && packet_at_front(#[trigger] ms[k], b) == Some(p.bytes.len())
                        && ms[k].format == p.format;
                law_front_packet(ms[k], b, p.bytes.len());
                assert(is_packet(ms[k], p.bytes));
            } else {
                law_packets_are_packets(ms, b.skip(p.bytes.len() as int), i - 1);
            }
        },
        None => {
            law_packets_are_packets(ms, b.skip(1), i);
        },
    }
}

/// A match in a stream is the same match with more bytes behind.
proof fn lemma_first_match_stable(ms: Seq<PacketMatcher>, b: Seq<u8>, c: Seq<u8>, i: int)
    requires
        0 <= i,
        first_match(ms, b, i) is Some,
    ensures
        first_match(ms, b + c, i) == first_match(ms, b, i),
    decreases ms.len() - i,
{
    let p = first_match(ms, b, i)->0;
    lemma_first_match(ms, b, i);
    let k = choose|k: int|
        i <= k < ms.len() && packet_at_front(#[trigger] ms[k], b) == Some(p.bytes.len())
            && ms[k].format == p.format;
    law_front_packet_is_stable(ms[k], b, c, p.bytes.len());
    match packet_at_front(ms[i], b) {
        Some(n) => {
            law_front_packet(ms[i], b, n);
            law_front_packet_is_stable(ms[i], b, c, n);
            assert((b + c).take(n as int) == b.take(n as int));
        },
        None => {
            if packet_at_front(ms[i], b + c) is Some {
                let n = packet_at_front(ms[i], b + c)->0;
                law_front_packets_agree(ms[i], ms[k], b + c, n, p.bytes.len());
                law_front_packet_is_stable(ms[i], b, c, n);
            }
            lemma_first_match_stable(ms, b, c, i + 1);
        },
    }
}

/// Noise is noise with more bytes behind it.
proof fn lemma_noise_stable(ms: Seq<PacketMatcher>, b: Seq<u8>, c: Seq<u8>)
    requires
        b.len() > 0,
        first_match(ms, b, 0) is None,
        !some_may_start(ms, b),
    ensures
        first_match(ms, b + c, 0) is None,
        !some_may_start(ms, b + c),
{
    lemma_first_match(ms, b, 0);
    lemma_first_match(ms, b + c, 0);
    if first_match(ms, b + c, 0) is Some {
        let p = first_match(ms, b + c, 0)->0;
        let n = p.bytes.len();
        let k = choose|k: int|
            0 <= k < ms.len() && packet_at_front(#[trigger] ms[k], b + c) == Some(n)
                && ms[k].format == p.format;
        assert(packet_at_front(ms[k], b) is None);
        if n <= b.len() {
            law_front_packet_is_stable(ms[k], b, c, n);
        } else {
            law_started_packet_is_kept(ms[k], b, c, n);
            assert(may_start_packet(ms[k], b));
        }
    }
    if some_may_start(ms, b + c) {
        let k = choose|k: int| 0 <= k < ms.len() && may_start_packet(#[trigger] ms[k], b + c);
        law_start_is_prefix_closed(ms[k], b, c);
        assert(may_start_packet(ms[k], b));
    }
}

/// The packets of a stream do not depend on how it was cut into chunks.
pub proof fn law_packets_are_independent_of_chunks(
    ms: Seq<PacketMatcher>,
    a: Seq<u8>,
    c: Seq<u8>,
)
    ensures
        stream_packets(ms, a + c).0 == stream_packets(ms, a).0 + stream_packets(
            ms,
            stream_packets(ms, a).1 + c,
        ).0,
        stream_packets(ms, a + c).1 == stream_packets(ms, stream_packets(ms, a).1 + c).1,
    decreases a.len(),
{
    let none = Seq::<PacketModel>::empty();
    if a.len() == 0 {
        assert(none + stream_packets(ms, a + c).0 == stream_packets(ms, a + c).0);
    } else {
        lemma_first_match(ms, a, 0);
        match first_match(ms, a, 0) {
            Some(p) => {
                let n = p.bytes.len() as int;
                lemma_first_match_stable(ms, a, c, 0);
                assert((a + c).skip(n) == a.skip(n) + c);
                law_packets_are_independent_of_chunks(ms, a.skip(n), c);
                let later = stream_packets(ms, a.skip(n));
                let more = stream_packets(ms, later.1 + c).0;
                assert(seq![p] + (later.0 + more) == seq![p] + later.0 + more);
            },
            None => {
                if some_may_start(ms, a) {
                    assert(none + stream_packets(ms, a + c).0 == stream_packets(ms, a + c).0);
                } else {
                    lemma_noise_stable(ms, a, c);
                    assert((a + c).skip(1) == a.skip(1) + c);
                    law_packets_are_independent_of_chunks(ms, a.skip(1), c);
                }
            },
        }
    }
}

// ---------------------------------------------------------------------------
// Executable matchers
// ---------------------------------------------------------------------------

pub fn matches_crc_packet(bytes: &[u8], header: &[u8; 2], payload_len: usize) -> (r: bool)
    ensures
        r == is_crc_packet(bytes@, header@[0], header@[1], payload_len as int),
{
    if bytes.len() < 2 || bytes.len() - 2 != payload_len {
        return false;
    }
    if bytes[0] != header[0] || bytes[1] != header[1] {
        return false;
    }
    assert(bytes@.subrange(0, payload_len as int) == bytes@.take(payload_len as int));
    crc16_range(bytes, 0, payload_len) == read_u16(bytes, payload_len)
}

pub fn could_match_crc_packet_prefix(bytes: &[u8], header: &[u8; 2], packet_len: usize) -> (r: bool)
    ensures
        r == starts_crc_packet(bytes@, header@[0], header@[1], packet_len as int),
{
    if bytes.len() >= packet_len {
        return false;
    }
    if bytes.len() > 0 && bytes[0] != header[0] {
        return false;
    }
    bytes.len() <= 1 || bytes[1] == header[1]
}

/// A packet with a one-letter header and a checksum. A header alone has no room for one.
pub fn matches_reduced_ac_packet(bytes: &[u8], header: u8, packet_len: usize) -> (r: bool)
    requires
        packet_len == 1 ==> !(bytes@.len() == 1 && bytes@[0] == header),
    ensures
        r == is_reduced_packet(bytes@, header, packet_len as int, true),
{
    if bytes.len() != packet_len || bytes.len() == 0 || bytes[0] != header {
        return false;
    }
    let payload_len: usize = packet_len - 2;
    assert(bytes@.subrange(0, payload_len as int) == bytes@.take(payload_len as int));
    crc16_range(bytes, 0, payload_len) == read_u16(bytes, payload_len)
}

pub fn could_match_reduced_ac_packet_prefix(bytes: &[u8], header: u8, packet_len: usize) -> (r:
    bool)
    ensures
        r == starts_reduced_packet(bytes@, header, packet_len as int),
{
    if bytes.len() >= packet_len {
        return false;
    }
    bytes.len() > 0 && bytes[0] == header
}

fn is_hex_digit_byte(byte: u8) -> (r: bool)
    ensures
        r == is_hex_byte(byte),
{
    (0x30 <= byte && byte <= 0x39) || (0x41 <= byte && byte <= 0x46) || (0x61 <= byte && byte
        <= 0x66)
}

pub fn rover_up_byte_matches(index: usize, byte: u8) -> (r: bool)
    ensures
        r == rover_up_byte(index as int, byte),
{
    match index {
        0 => byte == 0x30,
        1 => byte == 0x78,
        2 => byte == 0x33,
        3 | 4 => is_hex_digit_byte(byte),
        5 => byte == 0x2C,
        6 | 7 | 8 | 9 => 0x30 <= byte && byte <= 0x39,
        10 => byte == 0x0D,
        11 => byte == 0x0A,
        _ => false,
    }
}

pub fn matches_rover_up_prefix(bytes: &[u8]) -> (r: bool)
    ensures
        r == starts_rover_up(bytes@),
{
    if bytes.len() > 12 {
        return false;
    }
    let mut i: usize = 0;
    while i < bytes.len()
        invariant
            i <= bytes@.len(),
            forall|k: int| 0 <= k < i ==> rover_up_byte(k, #[trigger] bytes@[k]),
        decreases bytes@.len() - i,
    {
        if !rover_up_byte_matches(i, bytes[i]) {
            assert(!rover_up_byte(i as int, bytes@[i as int]));
            return false;
        }
        i += 1;
    }
    true
}

pub fn matches_rover_up_packet(bytes: &[u8]) -> (r: bool)
    ensures
        r == is_rover_up(bytes@),
{
    bytes.len() == OutputFormat::RoverUpGeneral.packet_len() && matches_rover_up_prefix(bytes)
}

pub fn rover_down_header_byte_matches(index: usize, byte: u8) -> (r: bool)
    ensures
        r == rover_down_header_byte(index as int, byte),
{
    match index {
        0 => byte == 0x30,
        1 => byte == 0x78,
        2 => byte == 0x33 || byte == 0x34,
        3 | 4 => is_hex_digit_byte(byte),
        5 => byte == 0x2C,
        _ => false,
    }
}

fn agrees_with_header(bytes: &[u8]) -> (r: bool)
    ensures
        r == agrees_with_rover_down_header(bytes@),
{
    let mut i: usize = 0;
    while i < bytes.len() && i < ROVER_DOWN_GENERAL_PREFIX_LEN
        invariant
            i <= bytes@.len(),
            i <= 6,
            forall|k: int| 0 <= k < i ==> rover_down_header_byte(k, #[trigger] bytes@[k]),
        decreases bytes@.len() - i,
    {
        if !rover_down_header_byte_matches(i, bytes[i]) {
            assert(!rover_down_header_byte(i as int, bytes@[i as int]));
            return false;
        }
        i += 1;
    }
    true
}

pub fn rover_down_header_matches(bytes: &[u8]) -> (r: bool)
    ensures
        r == (bytes@.len() >= 6 && agrees_with_rover_down_header(bytes@)),
{
    bytes.len() >= ROVER_DOWN_GENERAL_PREFIX_LEN && agrees_with_header(bytes)
}

/// The position of the first carriage return with line feed.
pub fn find_crlf(bytes: &[u8]) -> (r: Option<usize>)
    ensures
        r == (if crlf_at(bytes@) < bytes@.len() {
            Some(crlf_at(bytes@) as usize)
        } else {
            None
        }),
{
    let n: usize = bytes.len();
    let mut i: usize = 0;
    while i < n && i + 1 < n
        invariant
            i <= n,
            n == bytes@.len(),
            forall|k: int|
                0 <= k < i && k + 1 < n ==> !(#[trigger] bytes@[k] == 0x0D && bytes@[k + 1]
                    == 0x0A),
        decreases n - i,
    {
        if bytes[i] == 0x0D && bytes[i + 1] == 0x0A {
            proof {
                lemma_crlf_is_at(bytes@, i as int);
            }
            return Some(i);
        }
        i += 1;
    }
    proof {
        lemma_crlf_is_at(bytes@, n as int);
    }
    None
}

pub fn matches_rover_down_packet(bytes: &[u8]) -> (r: bool)
    ensures
        r == is_rover_down(bytes@),
{
    let n: usize = bytes.len();
    if n < ROVER_DOWN_GENERAL_PREFIX_LEN + 3 || n > ROVER_DOWN_GENERAL_MAX_PACKET_LEN {
        return false;
    }
    if bytes[n - 2] != 0x0D || bytes[n - 1] != 0x0A || !rover_down_header_matches(bytes) {
        return false;
    }
    let mut i: usize = ROVER_DOWN_GENERAL_PREFIX_LEN;
    while i < n - 2
        invariant
            6 <= i <= n - 2,
            n == bytes@.len(),
            forall|k: int| 6 <= k < i ==> #[trigger] bytes@[k] != 0x0D && bytes@[k] != 0x0A,
        decreases n - i,
    {
        if bytes[i] == 0x0D || bytes[i] == 0x0A {
            return false;
        }
        i += 1;
    }
    true
}

pub fn matches_rover_down_prefix(bytes: &[u8]) -> (r: bool)
    ensures
        r == starts_rover_down(bytes@),
{
    let n: usize = bytes.len();
    if n > ROVER_DOWN_GENERAL_MAX_PACKET_LEN {
        return false;
    }
    if !agrees_with_header(bytes) {
        return false;
    }
    if matches_rover_down_packet(bytes) {
        return true;
    }
    let mut i: usize = ROVER_DOWN_GENERAL_PREFIX_LEN;
    while i < n
        invariant
            6 <= i,
            n == bytes@.len(),
            !is_rover_down(bytes@),
            forall|k: int|
                6 <= k < i && k < n ==> #[trigger] bytes@[k] != 0x0A && (bytes@[k] == 0x0D ==> k
                    == n - 1),
        decreases n - i,
    {
        if bytes[i] == 0x0A {
            assert(!(bytes@[i as int] != 0x0A));
            return false;
        }
        if bytes[i] == 0x0D && i + 1 != n {
            assert(bytes@[i as int] == 0x0D);
            return false;
        }
        i += 1;
    }
    true
}

pub fn rover_down_packet_len(bytes: &[u8]) -> (r: Option<usize>)
    ensures
        r == (match packet_at_front(
            (PacketMatcher { format: OutputFormat::RoverDownGeneral, reduced_crc: true }),
            bytes@,
        ) {
            Some(n) => Some(n as usize),
            None => None,
        }),
{
    if !rover_down_header_matches(bytes) {
        proof {
            if bytes@.len() >= 6 {
                let n = 6 + crlf_at(bytes@.skip(6)) + 2;
                lemma_crlf_at(bytes@.skip(6));
                let p = bytes@.take(n as int);
                if crlf_at(bytes@.skip(6)) < bytes@.skip(6).len() && is_rover_down(p) {
                    assert forall|i: int| 0 <= i < bytes@.len() && i < 6 implies
                        rover_down_header_byte(i, #[trigger] bytes@[i]) by {
                        assert(p[i] == bytes@[i]);
                    }
                }
            }
        }
        return None;
    }
    let n: usize = bytes.len();
    let data = slice_subrange(bytes, ROVER_DOWN_GENERAL_PREFIX_LEN, n);
    assert(data@ == bytes@.skip(6));
    proof {
        lemma_crlf_at(data@);
    }
    match find_crlf(data) {
        None => None,
        Some(k) => {
            let len: usize = ROVER_DOWN_GENERAL_PREFIX_LEN + k + 2;
            let line = slice_subrange(bytes, 0, len);
            assert(line@ == bytes@.take(len as int));
            if matches_rover_down_packet(line) {
                Some(len)
            } else {
                None
            }
        },
    }
}

impl PacketMatcher {
    /// A matcher for packets that all carry their checksum.
    pub fn new(format: OutputFormat) -> (m: PacketMatcher)
        ensures
            m == (PacketMatcher { format, reduced_crc: true }),
    {
        PacketMatcher { format, reduced_crc: true }
    }

    pub fn format(self) -> (format: OutputFormat)
        ensures
            format == self.format,
    {
        self.format
    }

    pub fn packet_len(self) -> (len: usize)
        ensures
            len == format_packet_len(self.format),
    {
        self.format.packet_len()
    }

    pub fn matches_packet(self, bytes: &[u8]) -> (r: bool)
        ensures
            r == is_packet(self, bytes@),
    {
        match self.format {
            OutputFormat::PacketAcV6 | OutputFormat::PacketAcV6Usb => matches_crc_packet(
                bytes,
                &[0x41, 0x43],
                37,
            ),
            OutputFormat::PacketMv1 => self.matches_reduced(bytes, 0x4D, 19),
            OutputFormat::PacketIv1 => self.matches_reduced(bytes, 0x49, 19),
            OutputFormat::PacketBv1 => self.matches_reduced(bytes, 0x42, 15),
            OutputFormat::PacketGcV1 => matches_crc_packet(bytes, &[0x47, 0x43], 7),
            OutputFormat::PacketJfV1 => matches_crc_packet(bytes, &[0x4A, 0x46], 14),
            OutputFormat::PacketUfV2 => matches_crc_packet(bytes, &[0x55, 0x46], 38),
            OutputFormat::RoverUpGeneral => matches_rover_up_packet(bytes),
            OutputFormat::RoverDownGeneral => matches_rover_down_packet(bytes),
        }
    }

    fn matches_reduced(self, bytes: &[u8], header: u8, packet_len: usize) -> (r: bool)
        requires
            packet_len != 1,
        ensures
            r == is_reduced_packet(bytes@, header, packet_len as int, self.reduced_crc),
    {
        if self.reduced_crc {
            matches_reduced_ac_packet(bytes, header, packet_len)
        } else {
            bytes.len() == packet_len && bytes.len() > 0 && bytes[0] == header
        }
    }

    /// The length of the packet that the bytes start with.
    pub fn matching_packet_len(self, bytes: &[u8]) -> (r: Option<usize>)
        ensures
            r == (match packet_at_front(self, bytes@) {
                Some(n) => Some(n as usize),
                None => None,
            }),
    {
        if self.format == OutputFormat::RoverDownGeneral {
            return rover_down_packet_len(bytes);
        }
        let n: usize = self.packet_len();
        if bytes.len() < n {
            return None;
        }
        let front = slice_subrange(bytes, 0, n);
        assert(front@ == bytes@.take(n as int));
        if self.matches_packet(front) {
            Some(n)
        } else {
            None
        }
    }

    /// Whether more bytes may make the bytes a packet.
    pub fn could_match_prefix(self, bytes: &[u8]) -> (r: bool)
        ensures
            r == may_start_packet(self, bytes@),
    {
        if bytes.len() == 0 {
            return false;
        }
        match self.format {
            OutputFormat::PacketAcV6
            | OutputFormat::PacketAcV6Usb => could_match_crc_packet_prefix(
                bytes,
                &[0x41, 0x43],
                39,
            ),
            OutputFormat::PacketMv1 => could_match_reduced_ac_packet_prefix(bytes, 0x4D, 19),
            OutputFormat::PacketIv1 => could_match_reduced_ac_packet_prefix(bytes, 0x49, 19),
            OutputFormat::PacketBv1 => could_match_reduced_ac_packet_prefix(bytes, 0x42, 15),
            OutputFormat::PacketGcV1 => could_match_crc_packet_prefix(bytes, &[0x47, 0x43], 9),
            OutputFormat::PacketJfV1 => could_match_crc_packet_prefix(bytes, &[0x4A, 0x46], 16),
            OutputFormat::PacketUfV2 => could_match_crc_packet_prefix(bytes, &[0x55, 0x46], 40),
            OutputFormat::RoverUpGeneral => matches_rover_up_prefix(bytes),
            OutputFormat::RoverDownGeneral => matches_rover_down_prefix(bytes),
        }
    }
}

// ---------------------------------------------------------------------------
// The decoder
// ---------------------------------------------------------------------------

/// Finds packets of several formats in a byte stream that arrives in chunks.
#[derive(Debug)]
pub struct MixedFormatDecoder {
    formats: Vec<PacketMatcher>,
    buffer: Vec<u8>,
}

/// The matchers for the given formats.
pub open spec fn matchers(formats: Seq<OutputFormat>, reduced_crc: bool) -> Seq<PacketMatcher> {
    formats.map_values(|format: OutputFormat| PacketMatcher { format, reduced_crc })
}

impl MixedFormatDecoder {
    pub closed spec fn matchers(&self) -> Seq<PacketMatcher> {
        self.formats@
    }

    /// The bytes that wait for more.
    pub closed spec fn pending(&self) -> Seq<u8> {
        self.buffer@
    }

    /// A decoder of packets that all carry their checksum.
    pub fn new(formats: Vec<OutputFormat>) -> (decoder: MixedFormatDecoder)
        ensures
            decoder.matchers() == matchers(formats@, true),
            decoder.pending() == Seq::<u8>::empty(),
    {
        MixedFormatDecoder::with_rule(&formats, true)
    }

    /// A decoder that says whether the one-letter packets carry a checksum.
    pub fn with_rule(formats: &Vec<OutputFormat>, reduced_crc: bool) -> (decoder:
        MixedFormatDecoder)
        ensures
            decoder.matchers() == matchers(formats@, reduced_crc),
            decoder.pending() == Seq::<u8>::empty(),
    {
        let mut list: Vec<PacketMatcher> = Vec::new();
        let mut i: usize = 0;
        while i < formats.len()
            invariant
                i <= formats.len(),
                list@ == matchers(formats@, reduced_crc).take(i as int),
            decreases formats.len() - i,
        {
            list.push(PacketMatcher { format: formats[i], reduced_crc });
            i += 1;
            assert(list@ =~= matchers(formats@, reduced_crc).take(i as int));
        }
        assert(list@ =~= matchers(formats@, reduced_crc));
        MixedFormatDecoder { formats: list, buffer: Vec::new() }
    }

    /// Takes the next chunk in and gives the packets that are complete now.
    pub fn push(&mut self, bytes: &[u8]) -> (packets: Vec<DecodedPacket>)
        ensures
            packets.deep_view() == stream_packets(
                old(self).matchers(),
                old(self).pending() + bytes@,
            ).0,
            final(self).pending() == stream_packets(
                old(self).matchers(),
                old(self).pending() + bytes@,
            ).1,
            final(self).matchers() == old(self).matchers(),
            packet_bytes(packets.deep_view()) <= usize::MAX,
    {
        push_bytes(&mut self.buffer, bytes);
        let mut packets: Vec<DecodedPacket> = Vec::new();
        proof {
            law_packets_fit_the_stream(self.formats@, self.buffer@);
        }
        assert(self.buffer@.len() == self.buffer.len());
        let ghost all = self.buffer@;
        let ghost ms = self.formats@;
        assert(packets.deep_view() + stream_packets(ms, all).0 == stream_packets(ms, all).0);
        loop
            invariant
                ms == self.formats@,
                ms == old(self).matchers(),
                all == old(self).pending() + bytes@,
                stream_packets(ms, all).0 == packets.deep_view() + stream_packets(
                    ms,
                    self.buffer@,
                ).0,
                stream_packets(ms, all).1 == stream_packets(ms, self.buffer@).1,
                packet_bytes(stream_packets(ms, all).0) <= usize::MAX,
            decreases self.buffer@.len(),
        {
            let ghost none = Seq::<PacketModel>::empty();
            if self.buffer.len() == 0 {
                assert(packets.deep_view() + none == packets.deep_view());
                return packets;
            }
            let ghost b = self.buffer@;
            match self.try_decode_packet() {
                Some(packet) => {
                    let ghost before = packets.deep_view();
                    let ghost p = packet.deep_view();
                    packets.push(packet);
                    proof {
                        lemma_first_match(ms, b, 0);
                        assert(packets.deep_view() =~= before.push(p));
                        let later = stream_packets(ms, self.buffer@).0;
                        assert(before + (seq![p] + later) =~= before.push(p) + later);
                    }
                },
                None => {
                    if self.any_may_start() {
                        assert(packets.deep_view() + none == packets.deep_view());
                        return packets;
                    }
                    drop_front(&mut self.buffer, 1);
                },
            }
        }
    }

    /// The packets that the next chunk would complete.
    pub fn peek(&self, bytes: &[u8]) -> (packets: Vec<DecodedPacket>)
        ensures
            packets.deep_view() == stream_packets(self.matchers(), self.pending() + bytes@).0,
    {
        let mut formats: Vec<PacketMatcher> = Vec::new();
        let mut i: usize = 0;
        while i < self.formats.len()
            invariant
                i <= self.formats.len(),
                formats@ == self.formats@.take(i as int),
            decreases self.formats.len() - i,
        {
            formats.push(self.formats[i]);
            i += 1;
            assert(formats@ =~= self.formats@.take(i as int));
        }
        let buffer = sub_bytes(self.buffer.as_slice(), 0, self.buffer.len());
        assert(formats@ =~= self.formats@);
        assert(buffer@ =~= self.buffer@);
        let mut decoder = MixedFormatDecoder { formats, buffer };
        decoder.push(bytes)
    }

    fn any_may_start(&self) -> (r: bool)
        ensures
            r == some_may_start(self.matchers(), self.pending()),
    {
        let mut i: usize = 0;
        while i < self.formats.len()
            invariant
                i <= self.formats.len(),
                forall|k: int| 0 <= k < i ==> !may_start_packet(#[trigger] self.formats@[k], self.buffer@),
            decreases self.formats.len() - i,
        {
            if self.formats[i].could_match_prefix(self.buffer.as_slice()) {
                assert(may_start_packet(self.formats@[i as int], self.buffer@));
                return true;
            }
            i += 1;
        }
        false
    }

    /// Takes the packet at the front of the waiting bytes, if there is one.
    pub fn try_decode_packet(&mut self) -> (r: Option<DecodedPacket>)
        ensures
            r.deep_view() == first_match(old(self).matchers(), old(self).pending(), 0),
            final(self).matchers() == old(self).matchers(),
            final(self).pending() == (match r {
                Some(packet) => old(self).pending().skip(packet.bytes@.len() as int),
                None => old(self).pending(),
            }),
    {
        let mut i: usize = 0;
        while i < self.formats.len()
            invariant
                i <= self.formats.len(),
                self.matchers() == old(self).matchers(),
                self.pending() == old(self).pending(),
                first_match(old(self).matchers(), old(self).pending(), 0) == first_match(
                    old(self).matchers(),
                    old(self).pending(),
                    i as int,
                ),
            decreases self.formats.len() - i,
        {
            let matcher = self.formats[i];
            if let Some(n) = matcher.matching_packet_len(self.buffer.as_slice()) {
                proof {
                    let len = packet_at_front(matcher, self.buffer@)->0;
                    law_front_packet(matcher, self.buffer@, len);
                }
                let bytes = sub_bytes(self.buffer.as_slice(), 0, n);
                assert(bytes@ =~= self.buffer@.take(n as int));
                drop_front(&mut self.buffer, n);
                return Some(DecodedPacket { format: matcher.format(), bytes });
            }
            i += 1;
        }
        None
    }
}

} // verus!

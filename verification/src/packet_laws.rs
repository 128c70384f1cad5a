//! Laws of the packets in a stream: which lines and bytes are packets, and what a decoder makes
//! of them.
use crate::bytes::{crc16, crc_shifts, le16, lemma_value16, value16};
use crate::format::OutputFormat;
use crate::packet::{
    first_match, is_packet, law_front_packet, law_front_packets_agree, law_packets_are_packets,
    matchers, may_start_packet, packet_at_front, some_may_start, stream_packets, PacketMatcher,
    PacketModel,
};
use vstd::prelude::*;

verus! {

// ---------------------------------------------------------------------------
// Streams
// ---------------------------------------------------------------------------

proof fn lemma_some_match(ms: Seq<PacketMatcher>, b: Seq<u8>, k: int, n: nat, i: int)
    requires
        0 <= i <= k < ms.len(),
        packet_at_front(ms[k], b) == Some(n),
    ensures
        first_match(ms, b, i) is Some,
        first_match(ms, b, i)->0.bytes == b.take(n as int),
        first_match(ms, b, i)->0.bytes.len() == n,
        exists|j: int| i <= j < ms.len() && (#[trigger] ms[j]).format == first_match(ms, b, i)->0.format
            && is_packet(ms[j], b.take(n as int)),
    decreases ms.len() - i,
{
    law_front_packet(ms[k], b, n);
    match packet_at_front(ms[i], b) {
        Some(m) => {
            law_front_packets_agree(ms[i], ms[k], b, m, n);
            law_front_packet(ms[i], b, m);
            assert(is_packet(ms[i], b.take(n as int)));
        },
        None => {
            lemma_some_match(ms, b, k, n, i + 1);
        },
    }
}

/// A packet at the front of a stream comes out first, with exactly its bytes, as a packet of one
/// of the formats that are looked for; the rest of the stream is then looked through on its own.
pub proof fn law_packet_comes_out_first(
    ms: Seq<PacketMatcher>,
    k: int,
    packet: Seq<u8>,
    rest: Seq<u8>,
)
    requires
        0 <= k < ms.len(),
        is_packet(ms[k], packet),
    ensures
        ({
            let (found, waiting) = stream_packets(ms, packet + rest);
            let (later, later_waiting) = stream_packets(ms, rest);
            &&& found.len() == 1 + later.len()
            &&& found[0].bytes == packet
            &&& exists|j: int|
                0 <= j < ms.len() && (#[trigger] ms[j]).format == found[0].format && is_packet(
                    ms[j],
                    packet,
                )
            &&& found.skip(1) == later
            &&& waiting == later_waiting
        }),
{
    let b = packet + rest;
    let n = packet.len();
    assert(b.take(n as int) == packet);
    law_front_packet(ms[k], b, n);
    lemma_some_match(ms, b, k, n, 0);
    assert(b.skip(n as int) == rest);
    let p = first_match(ms, b, 0)->0;
    assert((seq![p] + stream_packets(ms, rest).0).skip(1) == stream_packets(ms, rest).0);
}

/// Pieces one after the other.
pub open spec fn in_a_row(pieces: Seq<Seq<u8>>) -> Seq<u8>
    decreases pieces.len(),
{
    if pieces.len() == 0 {
        Seq::empty()
    } else {
        pieces[0] + in_a_row(pieces.skip(1))
    }
}

/// Packets of formats that are looked for, one after the other, come out one by one in their
/// order, each with exactly its bytes, and nothing waits behind them.
pub proof fn law_packets_in_a_row_come_out(ms: Seq<PacketMatcher>, packets: Seq<Seq<u8>>)
    requires
        forall|i: int|
            0 <= i < packets.len() ==> exists|k: int|
                0 <= k < ms.len() && is_packet(ms[k], #[trigger] packets[i]),
    ensures
        stream_packets(ms, in_a_row(packets)).0.map_values(|p: PacketModel| p.bytes) == packets,
        stream_packets(ms, in_a_row(packets)).1.len() == 0,
    decreases packets.len(),
{
    let found = stream_packets(ms, in_a_row(packets)).0;
    if packets.len() > 0 {
        let rest = packets.skip(1);
        assert forall|i: int| 0 <= i < rest.len() implies exists|k: int|
            0 <= k < ms.len() && is_packet(ms[k], #[trigger] rest[i]) by {
            assert(rest[i] == packets[i + 1]);
        }
        law_packets_in_a_row_come_out(ms, rest);
        let first = packets[0];
        let k = choose|k: int| 0 <= k < ms.len() && is_packet(ms[k], first);
        law_packet_comes_out_first(ms, k, first, in_a_row(rest));
        let later = stream_packets(ms, in_a_row(rest)).0;
        let bytes = |p: PacketModel| p.bytes;
        assert forall|i: int| 0 <= i < packets.len() implies #[trigger] found.map_values(bytes)[i]
            == packets[i] by {
            if i > 0 {
                assert(found[i] == found.skip(1)[i - 1]);
                assert(later.map_values(bytes)[i - 1] == rest[i - 1]);
            }
        }
        assert(later.map_values(bytes).len() == rest.len());
    }
    assert(found.map_values(|p: PacketModel| p.bytes) =~= packets);
}

/// A byte that starts no packet of any format is passed over: what follows it is found as if it
/// were not there. Packets start with `A`, `M`, `I`, `B`, `G`, `J`, `U` or `0`.
pub proof fn law_noise_is_passed_over(ms: Seq<PacketMatcher>, noise: u8, rest: Seq<u8>)
    requires
        noise != 'A' as u8,
        noise != 'M' as u8,
        noise != 'I' as u8,
        noise != 'B' as u8,
        noise != 'G' as u8,
        noise != 'J' as u8,
        noise != 'U' as u8,
        noise != '0' as u8,
    ensures
        stream_packets(ms, seq![noise] + rest) == stream_packets(ms, rest),
{
    let b = seq![noise] + rest;
    assert(b[0] == noise);
    assert forall|k: int| 0 <= k < ms.len() implies packet_at_front(#[trigger] ms[k], b) is None
        && !may_start_packet(ms[k], b) by {
        if packet_at_front(ms[k], b) is Some {
            let n = packet_at_front(ms[k], b)->0;
            law_front_packet(ms[k], b, n);
            let p = b.take(n as int);
            assert(p[0] == noise);
        }
    }
    lemma_no_match(ms, b, 0);
    assert(!some_may_start(ms, b));
    assert(b.skip(1) == rest);
}

proof fn lemma_no_match(ms: Seq<PacketMatcher>, b: Seq<u8>, i: int)
    requires
        0 <= i,
        forall|k: int| 0 <= k < ms.len() ==> packet_at_front(#[trigger] ms[k], b) is None,
    ensures
        first_match(ms, b, i) is None,
    decreases ms.len() - i,
{
    if i < ms.len() {
        lemma_no_match(ms, b, i + 1);
    }
}

/// A decoder for one format that is given exactly one packet gives exactly that packet, and no
/// byte waits.
pub proof fn law_one_packet_comes_out(format: OutputFormat, reduced_crc: bool, packet: Seq<u8>)
    requires
        is_packet((PacketMatcher { format, reduced_crc }), packet),
    ensures
        stream_packets(matchers(seq![format], reduced_crc), packet).0 == seq![
            PacketModel { format, bytes: packet },
        ],
        stream_packets(matchers(seq![format], reduced_crc), packet).1.len() == 0,
{
    let ms = matchers(seq![format], reduced_crc);
    assert(ms[0] == (PacketMatcher { format, reduced_crc }));
    law_packet_comes_out_first(ms, 0, packet, Seq::empty());
    assert(packet + Seq::<u8>::empty() == packet);
    let (found, waiting) = stream_packets(ms, packet);
    assert(found.len() == 1);
    assert(found =~= seq![PacketModel { format, bytes: packet }]);
}

// ---------------------------------------------------------------------------
// Lines
// ---------------------------------------------------------------------------

/// A digit of base sixteen as a character, small letters or capitals.
pub open spec fn digit_byte(n: nat, capital: bool) -> u8 {
    if n < 10 {
        ('0' as u8 + n) as u8
    } else if capital {
        ('A' as u8 + (n - 10)) as u8
    } else {
        ('a' as u8 + (n - 10)) as u8
    }
}

/// `0x`, a digit and an address in two hexadecimal digits, and a comma.
pub open spec fn address_bytes(kind: char, address: nat, capital: bool) -> Seq<u8> {
    seq![
        '0' as u8,
        'x' as u8,
        kind as u8,
        digit_byte(address / 16, capital),
        digit_byte(address % 16, capital),
        ',' as u8,
    ]
}

pub open spec fn line_end() -> Seq<u8> {
    seq![0x0Du8, 0x0Au8]
}

/// Every line `0x3`, an address in two hexadecimal digits, a comma, a value in four decimal
/// digits, carriage return and line feed is a `RoverUpGeneral` packet, and a decoder for that
/// format gives exactly it.
pub proof fn law_rover_up_line_is_found(
    address: nat,
    value: nat,
    capital: bool,
    reduced_crc: bool,
)
    requires
        address < 256,
        value < 10000,
    ensures
        ({
            let format = OutputFormat::RoverUpGeneral;
            let digits = seq![
                digit_byte(value / 1000, false),
                digit_byte(value / 100 % 10, false),
                digit_byte(value / 10 % 10, false),
                digit_byte(value % 10, false),
            ];
            let line = address_bytes('3', address, capital) + digits + line_end();
            let found = stream_packets(matchers(seq![format], reduced_crc), line);
            &&& found.0 == seq![PacketModel { format, bytes: line }]
            &&& found.1.len() == 0
        }),
{
    let format = OutputFormat::RoverUpGeneral;
    let digits = seq![
        digit_byte(value / 1000, false),
        digit_byte(value / 100 % 10, false),
        digit_byte(value / 10 % 10, false),
        digit_byte(value % 10, false),
    ];
    let line = address_bytes('3', address, capital) + digits + line_end();
    assert(value / 1000 < 10 && value / 100 % 10 < 10 && value / 10 % 10 < 10 && value % 10 < 10);
    assert(address / 16 < 16 && address % 16 < 16);
    assert(line.len() == 12);
    assert(is_packet((PacketMatcher { format, reduced_crc }), line));
    law_one_packet_comes_out(format, reduced_crc, line);
}

/// Every `RoverUpGeneral` packet is such a line: twelve bytes with these marks, digits where
/// digits belong, and the end of a line.
pub proof fn law_rover_up_packet_is_a_line(packet: Seq<u8>, reduced_crc: bool)
    requires
        is_packet(
            (PacketMatcher { format: OutputFormat::RoverUpGeneral, reduced_crc }),
            packet,
        ),
    ensures
        packet.len() == 12,
        packet.take(3) == seq!['0' as u8, 'x' as u8, '3' as u8],
        packet[5] == ',' as u8,
        forall|i: int| 6 <= i < 10 ==> '0' as u8 <= #[trigger] packet[i] <= '9' as u8,
        forall|i: int|
            3 <= i < 5 ==> '0' as u8 <= #[trigger] packet[i] <= '9' as u8 || 'a' as u8 <= packet[i]
                <= 'f' as u8 || 'A' as u8 <= packet[i] <= 'F' as u8,
        packet.skip(10) == line_end(),
{
    assert(packet.take(3) =~= seq!['0' as u8, 'x' as u8, '3' as u8]);
    assert(packet.skip(10) =~= line_end());
}

/// Every line `0x3` or `0x4`, an address in two hexadecimal digits, a comma, one byte or more up
/// to 248 in all without carriage return and line feed, and these two behind them is a
/// `RoverDownGeneral` packet, and a decoder for that format gives exactly it.
pub proof fn law_rover_down_line_is_found(
    kind: char,
    address: nat,
    capital: bool,
    data: Seq<u8>,
    reduced_crc: bool,
)
    requires
        kind == '3' || kind == '4',
        address < 256,
        1 <= data.len() <= 248,
        forall|i: int| 0 <= i < data.len() ==> #[trigger] data[i] != 0x0D && data[i] != 0x0A,
    ensures
        ({
            let format = OutputFormat::RoverDownGeneral;
            let line = address_bytes(kind, address, capital) + data + line_end();
            let found = stream_packets(matchers(seq![format], reduced_crc), line);
            &&& found.0 == seq![PacketModel { format, bytes: line }]
            &&& found.1.len() == 0
        }),
{
    let format = OutputFormat::RoverDownGeneral;
    let line = address_bytes(kind, address, capital) + data + line_end();
    assert(address / 16 < 16 && address % 16 < 16);
    let n = line.len() as int;
    assert(n == data.len() + 8);
    assert forall|i: int| 6 <= i < n - 2 implies #[trigger] line[i] != 0x0D && line[i] != 0x0A by {
        assert(line[i] == data[i - 6]);
    }
    assert(line[n - 2] == 0x0D && line[n - 1] == 0x0A);
    assert(is_packet((PacketMatcher { format, reduced_crc }), line));
    law_one_packet_comes_out(format, reduced_crc, line);
}

// ---------------------------------------------------------------------------
// Packets with a checksum
// ---------------------------------------------------------------------------

/// The letters that the packets of a format start with; none where they are lines.
pub open spec fn letters_of(format: OutputFormat) -> Seq<u8> {
    match format {
        OutputFormat::PacketAcV6 => seq!['A' as u8, 'C' as u8],
        OutputFormat::PacketAcV6Usb => seq!['A' as u8, 'C' as u8],
        OutputFormat::PacketMv1 => seq!['M' as u8],
        OutputFormat::PacketIv1 => seq!['I' as u8],
        OutputFormat::PacketBv1 => seq!['B' as u8],
        OutputFormat::PacketGcV1 => seq!['G' as u8, 'C' as u8],
        OutputFormat::PacketJfV1 => seq!['J' as u8, 'F' as u8],
        OutputFormat::PacketUfV2 => seq!['U' as u8, 'F' as u8],
        OutputFormat::RoverUpGeneral => seq![],
        OutputFormat::RoverDownGeneral => seq![],
    }
}

/// How many bytes stand between the letters and the checksum.
pub open spec fn content_len(format: OutputFormat) -> nat {
    match format {
        OutputFormat::PacketAcV6 => 35,
        OutputFormat::PacketAcV6Usb => 35,
        OutputFormat::PacketMv1 => 16,
        OutputFormat::PacketIv1 => 16,
        OutputFormat::PacketBv1 => 12,
        OutputFormat::PacketGcV1 => 5,
        OutputFormat::PacketJfV1 => 12,
        OutputFormat::PacketUfV2 => 36,
        OutputFormat::RoverUpGeneral => 0,
        OutputFormat::RoverDownGeneral => 0,
    }
}

/// Whatever a packet carries, its letters, its content and the checksum of these in two bytes,
/// the low one first, are found as exactly that packet. With another checksum they are no packet
/// of a format that is checked.
pub proof fn law_checked_packet_is_found(
    format: OutputFormat,
    content: Seq<u8>,
    reduced_crc: bool,
    low: u8,
    high: u8,
)
    requires
        letters_of(format).len() > 0,
        content.len() == content_len(format),
    ensures
        ({
            let body = letters_of(format) + content;
            let sum = crc16(body);
            let packet = body + seq![(sum % 256) as u8, (sum / 256) as u8];
            let found = stream_packets(matchers(seq![format], reduced_crc), packet);
            &&& found.0 == seq![PacketModel { format, bytes: packet }]
            &&& found.1.len() == 0
        }),
        ({
            let body = letters_of(format) + content;
            let sum = low + 256 * high;
            let packet = body + seq![low, high];
            let m = PacketMatcher { format, reduced_crc: true };
            is_packet(m, packet) <==> sum == crc16(body)
        }),
{
    let body = letters_of(format) + content;
    let sum = crc16(body);
    let n = body.len() as int;
    let packet = body + seq![(sum % 256) as u8, (sum / 256) as u8];
    assert(packet.take(n) == body);
    assert(packet[0] == letters_of(format)[0]);
    lemma_two_bytes(packet, n);
    let other = body + seq![low, high];
    assert(other.take(n) == body);
    assert(other[0] == letters_of(format)[0]);
    lemma_two_bytes(other, n);
    if letters_of(format).len() == 2 {
        assert(packet[1] == letters_of(format)[1]);
        assert(other[1] == letters_of(format)[1]);
    }
    assert(value16(packet, n) == sum);
    assert(is_packet((PacketMatcher { format, reduced_crc }), packet));
    law_one_packet_comes_out(format, reduced_crc, packet);
}

proof fn lemma_two_bytes(b: Seq<u8>, n: int)
    requires
        0 <= n,
        b.len() == n + 2,
    ensures
        value16(b, n) == b[n] + 256 * b[n + 1],
{
    let sum = (b[n] + 256 * b[n + 1]) as u16;
    assert(b.subrange(n, n + 2) =~= le16(sum));
    lemma_value16(b, n, sum);
}

/// Where the one-letter packets carry no checksum, every run of bytes of their length behind the
/// letter is one: `M` and `I` with 18 more bytes, `B` with 14.
pub proof fn law_unchecked_packet_is_found(format: OutputFormat, packet: Seq<u8>)
    requires
        format == OutputFormat::PacketMv1 ==> packet.len() == 19 && packet[0] == 'M' as u8,
        format == OutputFormat::PacketIv1 ==> packet.len() == 19 && packet[0] == 'I' as u8,
        format == OutputFormat::PacketBv1 ==> packet.len() == 15 && packet[0] == 'B' as u8,
        format == OutputFormat::PacketMv1 || format == OutputFormat::PacketIv1 || format
            == OutputFormat::PacketBv1,
    ensures
        stream_packets(matchers(seq![format], false), packet).0 == seq![
            PacketModel { format, bytes: packet },
        ],
{
    assert(is_packet((PacketMatcher { format, reduced_crc: false }), packet));
    law_one_packet_comes_out(format, false, packet);
}

/// Every packet that comes out is of a format that is looked for, starts with its letters and
/// has its length.
pub proof fn law_found_packets_have_their_layout(
    formats: Seq<OutputFormat>,
    reduced_crc: bool,
    b: Seq<u8>,
    i: int,
)
    requires
        0 <= i < stream_packets(matchers(formats, reduced_crc), b).0.len(),
    ensures
        ({
            let p = stream_packets(matchers(formats, reduced_crc), b).0[i];
            &&& formats.contains(p.format)
            &&& letters_of(p.format).len() > 0 ==> p.bytes.len() == letters_of(p.format).len()
                + content_len(p.format) + 2
            &&& p.bytes.take(letters_of(p.format).len() as int) == letters_of(p.format)
        }),
{
    let ms = matchers(formats, reduced_crc);
    law_packets_are_packets(ms, b, i);
    let p = stream_packets(ms, b).0[i];
    let k = choose|k: int|
        0 <= k < ms.len() && (#[trigger] ms[k]).format == p.format && is_packet(ms[k], p.bytes);
    assert(formats[k] == p.format);
    assert(p.bytes.take(letters_of(p.format).len() as int) =~= letters_of(p.format));
}

// ---------------------------------------------------------------------------
// The checksum
// ---------------------------------------------------------------------------

proof fn lemma_eight_shifts(register: u16)
    ensures
        crc_shifts(register, 8) == ({
            let t = register >> 8;
            let x = t ^ (t >> 4);
            (register << 8) ^ (x << 12) ^ (x << 5) ^ x
        }),
{
    reveal_with_fuel(crc_shifts, 9);
    let one = |r: u16| if r & 0x8000 != 0 { (r << 1) ^ 0x1021 } else { r << 1 };
    let a = one(register);
    let b = one(a);
    let c = one(b);
    let d = one(c);
    let e = one(d);
    let f = one(e);
    let g = one(f);
    let h = one(g);
    assert(crc_shifts(register, 8) == h);
    assert(h == ({
        let t = register >> 8;
        let x = t ^ (t >> 4);
        (register << 8) ^ (x << 12) ^ (x << 5) ^ x
    })) by (bit_vector)
        requires
            a == (if register & 0x8000 != 0 { (register << 1) ^ 0x1021u16 } else { register << 1 }),
            b == (if a & 0x8000 != 0 { (a << 1) ^ 0x1021u16 } else { a << 1 }),
            c == (if b & 0x8000 != 0 { (b << 1) ^ 0x1021u16 } else { b << 1 }),
            d == (if c & 0x8000 != 0 { (c << 1) ^ 0x1021u16 } else { c << 1 }),
            e == (if d & 0x8000 != 0 { (d << 1) ^ 0x1021u16 } else { d << 1 }),
            f == (if e & 0x8000 != 0 { (e << 1) ^ 0x1021u16 } else { e << 1 }),
            g == (if f & 0x8000 != 0 { (f << 1) ^ 0x1021u16 } else { f << 1 }),
            h == (if g & 0x8000 != 0 { (g << 1) ^ 0x1021u16 } else { g << 1 }),
    ;
}

/// What one more byte does to the checksum, in one step: the byte meets the top half of the
/// checksum so far, and what comes of it enters at the places of the polynomial. Nothing has the
/// checksum 0xFFFF.
pub proof fn law_checksum_of_one_more_byte(bytes: Seq<u8>, byte: u8)
    ensures
        crc16(Seq::empty()) == 0xFFFF,
        ({
            let sum = crc16(bytes);
            let t = (sum >> 8) ^ byte as u16;
            let x = t ^ (t >> 4);
            crc16(bytes.push(byte)) == (sum << 8) ^ (x << 12) ^ (x << 5) ^ x
        }),
{
    let more = bytes.push(byte);
    let sum = crc16(bytes);
    let entered = sum ^ ((byte as u16) << 8);
    assert(more.drop_last() == bytes);
    lemma_eight_shifts(entered);
    assert(entered >> 8 == (sum >> 8) ^ byte as u16 && entered << 8 == sum << 8) by (bit_vector)
        requires
            entered == sum ^ ((byte as u16) << 8),
    ;
}

/// One wrong byte is noticed: bytes that differ only in the last one have different checksums.
pub proof fn law_checksum_tells_last_bytes_apart(bytes: Seq<u8>, one: u8, other: u8)
    requires
        one != other,
    ensures
        crc16(bytes.push(one)) != crc16(bytes.push(other)),
{
    law_checksum_of_one_more_byte(bytes, one);
    law_checksum_of_one_more_byte(bytes, other);
    let sum = crc16(bytes);
    assert(({
        let t = (sum >> 8) ^ one as u16;
        let x = t ^ (t >> 4);
        let u = (sum >> 8) ^ other as u16;
        let y = u ^ (u >> 4);
        (sum << 8) ^ (x << 12) ^ (x << 5) ^ x != (sum << 8) ^ (y << 12) ^ (y << 5) ^ y
    })) by (bit_vector)
        requires
            one != other,
    ;
}

} // verus!

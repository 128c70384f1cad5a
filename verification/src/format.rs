//! The packet formats that go over a serial line.
use crate::bytes::{crc16, crc16_ccitt_false, le16, push_u16};
use crate::display::PortDisplayMode;
use crate::text::{cat2, lower, same, to_lower, trim, trimmed, viewed};
use vstd::prelude::*;

verus! {

#[derive(Debug, Clone, Copy, PartialEq, Eq, Structural)]
pub enum OutputFormat {
    PacketAcV6,
    PacketAcV6Usb,
    PacketMv1,
    PacketIv1,
    PacketBv1,
    PacketGcV1,
    PacketJfV1,
    PacketUfV2,
    RoverUpGeneral,
    RoverDownGeneral,
}

impl DeepView for OutputFormat {
    type V = OutputFormat;

    open spec fn deep_view(&self) -> OutputFormat {
        *self
    }
}

/// The name of a format in options and settings.
pub open spec fn format_name(format: OutputFormat) -> Seq<char> {
    match format {
        OutputFormat::PacketAcV6 => "packetacv6"@,
        OutputFormat::PacketAcV6Usb => "packetacv6usb"@,
        OutputFormat::PacketMv1 => "packetmv1"@,
        OutputFormat::PacketIv1 => "packetiv1"@,
        OutputFormat::PacketBv1 => "packetbv1"@,
        OutputFormat::PacketGcV1 => "packetgcv1"@,
        OutputFormat::PacketJfV1 => "packetjfv1"@,
        OutputFormat::PacketUfV2 => "packetufv2"@,
        OutputFormat::RoverUpGeneral => "roverupgeneral"@,
        OutputFormat::RoverDownGeneral => "roverdowngeneral"@,
    }
}

/// The name of a format in messages.
pub open spec fn format_label(format: OutputFormat) -> Seq<char> {
    match format {
        OutputFormat::PacketAcV6 => "PacketACv6"@,
        OutputFormat::PacketAcV6Usb => "PacketACv6Usb"@,
        OutputFormat::PacketMv1 => "PacketMv1"@,
        OutputFormat::PacketIv1 => "PacketIv1"@,
        OutputFormat::PacketBv1 => "PacketBv1"@,
        OutputFormat::PacketGcV1 => "PacketGCv1"@,
        OutputFormat::PacketJfV1 => "PacketJFv1"@,
        OutputFormat::PacketUfV2 => "PacketUFv2"@,
        OutputFormat::RoverUpGeneral => "RoverUpGeneral"@,
        OutputFormat::RoverDownGeneral => "RoverDownGeneral"@,
    }
}

/// The format with the given name.
pub open spec fn format_named(s: Seq<char>) -> Option<OutputFormat> {
    if s == "packetacv6"@ {
        Some(OutputFormat::PacketAcV6)
    } else if s == "packetacv6usb"@ {
        Some(OutputFormat::PacketAcV6Usb)
    } else if s == "packetmv1"@ {
        Some(OutputFormat::PacketMv1)
    } else if s == "packetiv1"@ {
        Some(OutputFormat::PacketIv1)
    } else if s == "packetbv1"@ {
        Some(OutputFormat::PacketBv1)
    } else if s == "packetgcv1"@ {
        Some(OutputFormat::PacketGcV1)
    } else if s == "packetjfv1"@ {
        Some(OutputFormat::PacketJfV1)
    } else if s == "packetufv2"@ {
        Some(OutputFormat::PacketUfV2)
    } else if s == "roverupgeneral"@ {
        Some(OutputFormat::RoverUpGeneral)
    } else if s == "roverdowngeneral"@ {
        Some(OutputFormat::RoverDownGeneral)
    } else {
        None
    }
}

/// A format is named without regard to case and to white space around the name.
pub open spec fn parsed_format(value: Seq<char>) -> Result<OutputFormat, Seq<char>> {
    match format_named(lower(trimmed(value))) {
        Some(format) => Ok(format),
        None => Err("unsupported output format: "@ + value),
    }
}

/// The length of a packet; for `RoverDownGeneral`, whose packets vary, that of the sample.
pub open spec fn format_packet_len(format: OutputFormat) -> nat {
    match format {
        OutputFormat::PacketAcV6 => 39,
        OutputFormat::PacketAcV6Usb => 39,
        OutputFormat::PacketMv1 => 19,
        OutputFormat::PacketIv1 => 19,
        OutputFormat::PacketBv1 => 15,
        OutputFormat::PacketGcV1 => 9,
        OutputFormat::PacketJfV1 => 16,
        OutputFormat::PacketUfV2 => 40,
        OutputFormat::RoverUpGeneral => 12,
        OutputFormat::RoverDownGeneral => 13,
    }
}

/// Text formats are shown as text, the others in hexadecimal.
pub open spec fn format_display_mode(format: OutputFormat) -> PortDisplayMode {
    match format {
        OutputFormat::RoverUpGeneral => PortDisplayMode::Ascii,
        OutputFormat::RoverDownGeneral => PortDisplayMode::Ascii,
        _ => PortDisplayMode::Hex,
    }
}

pub open spec fn zeros(n: nat) -> Seq<u8> {
    Seq::new(n, |i: int| 0u8)
}

/// Bytes with their checksum behind them.
pub open spec fn with_crc(b: Seq<u8>) -> Seq<u8> {
    b + le16(crc16(b))
}

/// `38.12345, -110.98765` and a line feed.
pub open spec fn sample_position() -> Seq<u8> {
    seq![
        0x33u8, 0x38, 0x2E, 0x31, 0x32, 0x33, 0x34, 0x35, 0x2C, 0x20, 0x2D, 0x31, 0x31, 0x30, 0x2E,
        0x39, 0x38, 0x37, 0x36, 0x35, 0x0A,
    ]
}

/// A sample packet of each format, for sending when there is nothing else to send.
pub open spec fn sample_packet(format: OutputFormat) -> Seq<u8> {
    match format {
        OutputFormat::PacketAcV6 => with_crc(seq![0x41u8, 0x43] + zeros(35)),
        OutputFormat::PacketAcV6Usb => with_crc(seq![0x41u8, 0x43] + zeros(35)),
        OutputFormat::PacketMv1 => with_crc(seq![0x4Du8] + zeros(16)),
        OutputFormat::PacketIv1 => with_crc(seq![0x49u8] + zeros(16)),
        OutputFormat::PacketBv1 => with_crc(seq![0x42u8] + zeros(12)),
        OutputFormat::PacketGcV1 => with_crc(seq![0x47u8, 0x43] + zeros(5)),
        OutputFormat::PacketJfV1 => with_crc(seq![0x4Au8, 0x46] + zeros(12)),
        OutputFormat::PacketUfV2 => with_crc(
            seq![0x55u8, 0x46, 0, 0x13, 0, 21] + sample_position() + zeros(11),
        ),
        OutputFormat::RoverUpGeneral => seq![
            0x30u8, 0x78, 0x33, 0x30, 0x30, 0x2C, 0x30, 0x30, 0x30, 0x30, 0x0D, 0x0A,
        ],
        OutputFormat::RoverDownGeneral => seq![
            0x30u8, 0x78, 0x34, 0x30, 0x30, 0x2C, 0x32, 0x31, 0x2E, 0x31, 0x30, 0x0D, 0x0A,
        ],
    }
}

fn single(a: u8) -> (v: Vec<u8>)
    ensures
        v@ == seq![a],
{
    let mut v: Vec<u8> = Vec::new();
    v.push(a);
    assert(v@ =~= seq![a]);
    v
}

fn pair(a: u8, b: u8) -> (v: Vec<u8>)
    ensures
        v@ == seq![a, b],
{
    let mut v = single(a);
    v.push(b);
    assert(v@ =~= seq![a, b]);
    v
}

fn push_zeros(out: &mut Vec<u8>, n: usize)
    ensures
        final(out)@ == old(out)@ + zeros(n as nat),
{
    let mut i: usize = 0;
    while i < n
        invariant
            i <= n,
            out@ == old(out)@ + zeros(i as nat),
        decreases n - i,
    {
        out.push(0);
        i += 1;
        assert(out@ =~= old(out)@ + zeros(i as nat));
    }
}

/// `head`, `n` zero bytes and the checksum of both.
fn checked_packet(head: Vec<u8>, n: usize) -> (packet: Vec<u8>)
    ensures
        packet@ == with_crc(head@ + zeros(n as nat)),
{
    let mut packet = head;
    push_zeros(&mut packet, n);
    let crc: u16 = crc16_ccitt_false(packet.as_slice());
    push_u16(&mut packet, crc);
    packet
}

impl OutputFormat {
    pub fn as_str(self) -> (name: &'static str)
        ensures
            name@ == format_name(self),
    {
        match self {
            OutputFormat::PacketAcV6 => "packetacv6",
            OutputFormat::PacketAcV6Usb => "packetacv6usb",
            OutputFormat::PacketMv1 => "packetmv1",
            OutputFormat::PacketIv1 => "packetiv1",
            OutputFormat::PacketBv1 => "packetbv1",
            OutputFormat::PacketGcV1 => "packetgcv1",
            OutputFormat::PacketJfV1 => "packetjfv1",
            OutputFormat::PacketUfV2 => "packetufv2",
            OutputFormat::RoverUpGeneral => "roverupgeneral",
            OutputFormat::RoverDownGeneral => "roverdowngeneral",
        }
    }

    pub fn display_name(self) -> (name: &'static str)
        ensures
            name@ == format_label(self),
    {
        match self {
            OutputFormat::PacketAcV6 => "PacketACv6",
            OutputFormat::PacketAcV6Usb => "PacketACv6Usb",
            OutputFormat::PacketMv1 => "PacketMv1",
            OutputFormat::PacketIv1 => "PacketIv1",
            OutputFormat::PacketBv1 => "PacketBv1",
            OutputFormat::PacketGcV1 => "PacketGCv1",
            OutputFormat::PacketJfV1 => "PacketJFv1",
            OutputFormat::PacketUfV2 => "PacketUFv2",
            OutputFormat::RoverUpGeneral => "RoverUpGeneral",
            OutputFormat::RoverDownGeneral => "RoverDownGeneral",
        }
    }

    pub fn parse(value: &str) -> (r: Result<OutputFormat, String>)
        ensures
            viewed(r) == parsed_format(value@),
    {
        let name = to_lower(trim(value));
        let s = name.as_str();
        if same(s, "packetacv6") {
            Ok(OutputFormat::PacketAcV6)
        } else if same(s, "packetacv6usb") {
            Ok(OutputFormat::PacketAcV6Usb)
        } else if same(s, "packetmv1") {
            Ok(OutputFormat::PacketMv1)
        } else if same(s, "packetiv1") {
            Ok(OutputFormat::PacketIv1)
        } else if same(s, "packetbv1") {
            Ok(OutputFormat::PacketBv1)
        } else if same(s, "packetgcv1") {
            Ok(OutputFormat::PacketGcV1)
        } else if same(s, "packetjfv1") {
            Ok(OutputFormat::PacketJfV1)
        } else if same(s, "packetufv2") {
            Ok(OutputFormat::PacketUfV2)
        } else if same(s, "roverupgeneral") {
            Ok(OutputFormat::RoverUpGeneral)
        } else if same(s, "roverdowngeneral") {
            Ok(OutputFormat::RoverDownGeneral)
        } else {
            Err(cat2("unsupported output format: ", value))
        }
    }

    pub fn packet_len(self) -> (len: usize)
        ensures
            len == format_packet_len(self),
    {
        match self {
            OutputFormat::PacketAcV6 => 39,
            OutputFormat::PacketAcV6Usb => 39,
            OutputFormat::PacketMv1 => 19,
            OutputFormat::PacketIv1 => 19,
            OutputFormat::PacketBv1 => 15,
            OutputFormat::PacketGcV1 => 9,
            OutputFormat::PacketJfV1 => 16,
            OutputFormat::PacketUfV2 => 40,
            OutputFormat::RoverUpGeneral => 12,
            OutputFormat::RoverDownGeneral => 13,
        }
    }

    pub fn default_display_mode(self) -> (mode: PortDisplayMode)
        ensures
            mode == format_display_mode(self),
    {
        match self {
            OutputFormat::RoverUpGeneral => PortDisplayMode::Ascii,
            OutputFormat::RoverDownGeneral => PortDisplayMode::Ascii,
            _ => PortDisplayMode::Hex,
        }
    }

    /// The sample packet of the format.
    pub fn encode_dummy_payload(self) -> (r: Result<Vec<u8>, String>)
        ensures
            r is Ok,
            r->Ok_0@ == sample_packet(self),
            r->Ok_0@.len() == format_packet_len(self),
    {
        let packet = match self {
            OutputFormat::PacketAcV6 => checked_packet(pair(0x41, 0x43), 35),
            OutputFormat::PacketAcV6Usb => checked_packet(pair(0x41, 0x43), 35),
            OutputFormat::PacketMv1 => checked_packet(single(0x4D), 16),
            OutputFormat::PacketIv1 => checked_packet(single(0x49), 16),
            OutputFormat::PacketBv1 => checked_packet(single(0x42), 12),
            OutputFormat::PacketGcV1 => checked_packet(pair(0x47, 0x43), 5),
            OutputFormat::PacketJfV1 => checked_packet(pair(0x4A, 0x46), 12),
            OutputFormat::PacketUfV2 => {
                let head: Vec<u8> = vec![
                    0x55, 0x46, 0, 0x13, 0, 21, 0x33, 0x38, 0x2E, 0x31, 0x32, 0x33, 0x34, 0x35,
                    0x2C, 0x20, 0x2D, 0x31, 0x31, 0x30, 0x2E, 0x39, 0x38, 0x37, 0x36, 0x35, 0x0A,
                ];
                assert(head@ =~= seq![0x55u8, 0x46, 0, 0x13, 0, 21] + sample_position());
                checked_packet(head, 11)
            },
            OutputFormat::RoverUpGeneral => vec![
                0x30, 0x78, 0x33, 0x30, 0x30, 0x2C, 0x30, 0x30, 0x30, 0x30, 0x0D, 0x0A,
            ],
            OutputFormat::RoverDownGeneral => vec![
                0x30, 0x78, 0x34, 0x30, 0x30, 0x2C, 0x32, 0x31, 0x2E, 0x31, 0x30, 0x0D, 0x0A,
            ],
        };
        assert(packet@ =~= sample_packet(self));
        Ok(packet)
    }
}

/// The name of a format is read back as the format.
pub proof fn law_format_names(format: OutputFormat)
    ensures
        format_named(format_name(format)) == Some(format),
{
    reveal_strlit("packetacv6");
    reveal_strlit("packetacv6usb");
    reveal_strlit("packetmv1");
    reveal_strlit("packetiv1");
    reveal_strlit("packetbv1");
    reveal_strlit("packetgcv1");
    reveal_strlit("packetjfv1");
    reveal_strlit("packetufv2");
    reveal_strlit("roverupgeneral");
    reveal_strlit("roverdowngeneral");
    match format {
        OutputFormat::PacketAcV6 => {},
        OutputFormat::PacketAcV6Usb => {
            assert("packetacv6usb"@.len() != "packetacv6"@.len());
        },
        _ => {
            let s = format_name(format);
            assert(s[0] != "packetacv6"@[0] || s[6] != "packetacv6"@[6]);
            assert(s[0] != "packetacv6usb"@[0] || s[6] != "packetacv6usb"@[6]);
            assert(s == "packetmv1"@ || s[0] != "packetmv1"@[0] || s[6] != "packetmv1"@[6]);
            assert(s == "packetiv1"@ || s[0] != "packetiv1"@[0] || s[6] != "packetiv1"@[6]);
            assert(s == "packetbv1"@ || s[0] != "packetbv1"@[0] || s[6] != "packetbv1"@[6]);
            assert(s == "packetgcv1"@ || s[0] != "packetgcv1"@[0] || s[6] != "packetgcv1"@[6]);
            assert(s == "packetjfv1"@ || s[0] != "packetjfv1"@[0] || s[6] != "packetjfv1"@[6]);
            assert(s == "packetufv2"@ || s[0] != "packetufv2"@[0] || s[6] != "packetufv2"@[6]);
            assert(s == "roverupgeneral"@ || s.len() != "roverupgeneral"@.len());
        },
    }
}

} // verus!

//! Laws of displays and formats: how they are called, which setting counts for a port, and that
//! the packets sent for a try are packets of their format.
use crate::bytes::{crc16, le16};
use crate::display::{
    display_mode_name, display_mode_named, display_target, display_value, line_break_name,
    line_break_named, DisplayTarget, DisplayValue, LineBreakMode, PortDisplayMode, PortDisplayModel,
    PortDisplayStream,
};
use crate::format::{
    format_display_mode, format_label, format_name, format_packet_len, law_format_names,
    parsed_format, sample_packet, sample_position, with_crc, zeros, OutputFormat,
};
use crate::packet::{matchers, stream_packets, PacketModel};
use crate::packet_laws::{
    address_bytes, content_len, digit_byte, law_checked_packet_is_found,
    law_rover_down_line_is_found, law_rover_up_line_is_found, letters_of, line_end,
};
use crate::text::{has_prefix, lower, trimmed};
use vstd::prelude::*;

verus! {

// ---------------------------------------------------------------------------
// Names
// ---------------------------------------------------------------------------

/// Each way to show bytes, and each way to break lines, goes by its own name.
pub proof fn law_display_names(name: Seq<char>)
    ensures
        display_mode_named(name) == Some(PortDisplayMode::Hex) <==> name == "hex"@,
        display_mode_named(name) == Some(PortDisplayMode::Ascii) <==> name == "ascii"@,
        display_mode_named(name) == Some(PortDisplayMode::Utf8) <==> name == "utf8"@,
        display_mode_named(name) == Some(PortDisplayMode::HexAscii) <==> name == "hex+ascii"@,
        display_mode_named(name) == Some(PortDisplayMode::HexUtf8) <==> name == "hex+utf8"@,
        line_break_named(name) == Some(LineBreakMode::Line) <==> name == "line"@,
        line_break_named(name) == Some(LineBreakMode::Packet) <==> name == "packet"@,
        line_break_named(name) == Some(LineBreakMode::Wrap) <==> name == "wrap"@,
        line_break_named(name) == Some(LineBreakMode::Crlf) <==> name == "crlf"@,
        display_mode_named(name) matches Some(mode) ==> display_mode_name(mode) == name,
        line_break_named(name) matches Some(mode) ==> line_break_name(mode) == name,
{
    reveal_strlit("hex");
    assert("hex"@.len() == 3);
    reveal_strlit("ascii");
    assert("ascii"@.len() == 5);
    reveal_strlit("utf8");
    assert("utf8"@.len() == 4);
    reveal_strlit("hex+ascii");
    assert("hex+ascii"@.len() == 9);
    reveal_strlit("hex+utf8");
    assert("hex+utf8"@.len() == 8);
    reveal_strlit("line");
    assert("line"@[0] == 'l');
    reveal_strlit("packet");
    assert("packet"@[0] == 'p');
    reveal_strlit("wrap");
    assert("wrap"@[0] == 'w');
    reveal_strlit("crlf");
    assert("crlf"@[0] == 'c');
}

/// A display value counts in capital letters and small ones and without the blanks around it. It
/// sets the way to show bytes or to break lines, or both with a plus sign between them.
pub proof fn law_display_values(value: Seq<char>, mode: PortDisplayMode, line_break: LineBreakMode)
    ensures
        lower(trimmed(value)) == display_mode_name(mode) ==> display_value(value) == Ok::<
            DisplayValue,
            Seq<char>,
        >((Some(mode), None)),
        lower(trimmed(value)) == line_break_name(line_break) ==> display_value(value) == Ok::<
            DisplayValue,
            Seq<char>,
        >((None, Some(line_break))),
        display_value(value) matches Ok(v) ==> v.0 is Some || v.1 is Some,
{
    law_display_names(display_mode_name(mode));
    law_display_names(line_break_name(line_break));
    reveal_strlit("hex");
    reveal_strlit("ascii");
    reveal_strlit("utf8");
    reveal_strlit("hex+ascii");
    reveal_strlit("hex+utf8");
    reveal_strlit("line");
    assert("line"@[0] == 'l' && "line"@.len() == 4);
    reveal_strlit("packet");
    assert("packet"@[0] == 'p' && "packet"@.len() == 6);
    reveal_strlit("wrap");
    assert("wrap"@[0] == 'w' && "wrap"@.len() == 4);
    reveal_strlit("crlf");
    assert("crlf"@[0] == 'c' && "crlf"@.len() == 4);
    assert("hex"@.len() == 3 && "ascii"@.len() == 5 && "utf8"@.len() == 4 && "utf8"@[0] == 'u'
        && "hex+ascii"@.len() == 9 && "hex+utf8"@.len() == 8);
}

/// The name of a format is its label in small letters, no two formats share one, and it is read in
/// capital letters and small ones and without the blanks around it.
pub proof fn law_format_is_called_by_its_label(
    format: OutputFormat,
    other: OutputFormat,
    value: Seq<char>,
)
    ensures
        lower(format_label(format)) == format_name(format),
        format_name(format) == format_name(other) ==> format == other,
        lower(trimmed(value)) == lower(format_label(format)) ==> parsed_format(value) == Ok::<
            OutputFormat,
            Seq<char>,
        >(format),
{
    lemma_label(format);
    law_format_names(format);
    law_format_names(other);
}

proof fn lemma_label(format: OutputFormat)
    ensures
        lower(format_label(format)) == format_name(format),
{
    match format {
        OutputFormat::PacketAcV6 => {
            reveal_strlit("PacketACv6");
            reveal_strlit("packetacv6");
        },
        OutputFormat::PacketAcV6Usb => {
            reveal_strlit("PacketACv6Usb");
            reveal_strlit("packetacv6usb");
        },
        OutputFormat::PacketMv1 => {
            reveal_strlit("PacketMv1");
            reveal_strlit("packetmv1");
        },
        OutputFormat::PacketIv1 => {
            reveal_strlit("PacketIv1");
            reveal_strlit("packetiv1");
        },
        OutputFormat::PacketBv1 => {
            reveal_strlit("PacketBv1");
            reveal_strlit("packetbv1");
        },
        OutputFormat::PacketGcV1 => {
            reveal_strlit("PacketGCv1");
            reveal_strlit("packetgcv1");
        },
        OutputFormat::PacketJfV1 => {
            reveal_strlit("PacketJFv1");
            reveal_strlit("packetjfv1");
        },
        OutputFormat::PacketUfV2 => {
            reveal_strlit("PacketUFv2");
            reveal_strlit("packetufv2");
        },
        OutputFormat::RoverUpGeneral => {
            reveal_strlit("RoverUpGeneral");
            reveal_strlit("roverupgeneral");
        },
        OutputFormat::RoverDownGeneral => {
            reveal_strlit("RoverDownGeneral");
            reveal_strlit("roverdowngeneral");
        },
    }
    assert(lower(format_label(format)) =~= format_name(format));
}

// ---------------------------------------------------------------------------
// Settings
// ---------------------------------------------------------------------------

/// What is set last for a stream of a port counts for it, whatever else is set; what is set for
/// the port counts for both its streams where nothing is set for the stream.
pub proof fn law_display_of_a_port(
    d: PortDisplayModel,
    port: Seq<char>,
    other: Seq<char>,
    mode: PortDisplayMode,
    line_break: LineBreakMode,
)
    requires
        port != other,
    ensures
        ({
            let set = d.assigned(((Some(PortDisplayStream::Input), port), (Some(mode), None)));
            &&& set.input(port) == mode
            &&& set.output(port) == d.output(port)
            &&& port != "default"@ ==> set.input(other) == d.input(other)
            &&& set.line_break(port) == d.line_break(port)
        }),
        ({
            let set = d.assigned(((Some(PortDisplayStream::Output), port), (Some(mode), None)));
            &&& set.output(port) == mode
            &&& set.input(port) == d.input(port)
            &&& port != "default"@ ==> set.output(other) == d.output(other)
        }),
        ({
            let set = d.assigned(((None, port), (Some(mode), None)));
            &&& !d.modes.dom().contains((Some(PortDisplayStream::Input), port)) ==> set.input(port)
                == mode
            &&& d.modes.dom().contains((Some(PortDisplayStream::Input), port)) ==> set.input(port)
                == d.input(port)
            &&& !d.modes.dom().contains((Some(PortDisplayStream::Output), port)) ==> set.output(
                port,
            ) == mode
        }),
        ({
            let set = d.assigned(((Some(PortDisplayStream::Input), port), (None, Some(line_break))));
            &&& set.line_break(port) == line_break
            &&& set.input(port) == d.input(port)
        }),
        ({
            let set = d.assigned(((None, port), (Some(mode), Some(line_break))));
            &&& !d.modes.dom().contains((Some(PortDisplayStream::Input), port)) ==> set.input(port)
                == mode
            &&& !d.line_breaks.dom().contains((Some(PortDisplayStream::Input), port))
                ==> set.line_break(port) == line_break
        }),
{
}

/// What is set for `default` counts for a port that nothing is set for, and for no other.
pub proof fn law_display_by_default(d: PortDisplayModel, port: Seq<char>, mode: PortDisplayMode)
    requires
        port != "default"@,
    ensures
        ({
            let own = d.modes.dom().contains((Some(PortDisplayStream::Input), port))
                || d.modes.dom().contains((None, port));
            let of_inputs = d.assigned(
                ((Some(PortDisplayStream::Input), "default"@), (Some(mode), None)),
            );
            let of_all = d.assigned(((None, "default"@), (Some(mode), None)));
            &&& own ==> of_inputs.input(port) == d.input(port) && of_all.input(port) == d.input(port)
            &&& !own ==> of_inputs.input(port) == mode
            &&& !own && !d.modes.dom().contains((Some(PortDisplayStream::Input), "default"@))
                ==> of_all.input(port) == mode
        }),
{
}

/// Where nothing is set, bytes are shown in hexadecimal and as UTF-8, line by line.
pub proof fn law_display_where_nothing_is_set(port: Seq<char>)
    ensures
        PortDisplayModel::empty().input(port) == PortDisplayMode::HexUtf8,
        PortDisplayModel::empty().output(port) == PortDisplayMode::HexUtf8,
        PortDisplayModel::empty().line_break(port) == LineBreakMode::Line,
{
}

/// Of two settings the later one counts where it says something, and the earlier one elsewhere.
pub proof fn law_later_display_counts(a: PortDisplayModel, b: PortDisplayModel, port: Seq<char>)
    ensures
        b.modes.dom().contains((Some(PortDisplayStream::Input), port)) ==> a.merged(b).input(port)
            == b.input(port),
        b.modes.dom().contains((Some(PortDisplayStream::Output), port)) ==> a.merged(b).output(port)
            == b.output(port),
        b.line_breaks.dom().contains((Some(PortDisplayStream::Input), port)) ==> a.merged(
            b,
        ).line_break(port) == b.line_break(port),
        a.merged(PortDisplayModel::empty()).input(port) == a.input(port),
        PortDisplayModel::empty().merged(b).input(port) == b.input(port),
{
    assert(a.modes.union_prefer_right(Map::empty()) =~= a.modes);
    assert(Map::<DisplayTarget, PortDisplayMode>::empty().union_prefer_right(b.modes) =~= b.modes);
}

/// `input:PORT` and `output:PORT` mean one stream of a port, a port alone both.
pub proof fn law_display_targets(port: Seq<char>)
    requires
        trimmed(port) == port,
        port.len() > 0,
        !has_prefix(port, "input:"@),
        !has_prefix(port, "output:"@),
    ensures
        display_target("input:"@ + port) == (Some(PortDisplayStream::Input), port),
        display_target("output:"@ + port) == (Some(PortDisplayStream::Output), port),
        display_target(port) == (None::<PortDisplayStream>, port),
{
    reveal_strlit("input:");
    reveal_strlit("output:");
    let a = "input:"@ + port;
    let b = "output:"@ + port;
    assert(a.take(6) =~= "input:"@);
    assert(a.skip(6) =~= port);
    assert(b.take(7) =~= "output:"@);
    assert(b.skip(7) =~= port);
    assert(b.take(6)[0] == 'o' && "input:"@[0] == 'i');
}

// ---------------------------------------------------------------------------
// Samples
// ---------------------------------------------------------------------------

proof fn lemma_sample_body(format: OutputFormat) -> (body: Seq<u8>)
    requires
        letters_of(format).len() > 0,
    ensures
        sample_packet(format) == with_crc(body),
        body.len() == letters_of(format).len() + content_len(format),
        body.take(letters_of(format).len() as int) == letters_of(format),
        body.len() + 2 == format_packet_len(format),
{
    let body = match format {
        OutputFormat::PacketMv1 => seq![0x4Du8] + zeros(16),
        OutputFormat::PacketIv1 => seq![0x49u8] + zeros(16),
        OutputFormat::PacketBv1 => seq![0x42u8] + zeros(12),
        OutputFormat::PacketGcV1 => seq![0x47u8, 0x43] + zeros(5),
        OutputFormat::PacketJfV1 => seq![0x4Au8, 0x46] + zeros(12),
        OutputFormat::PacketUfV2 => seq![0x55u8, 0x46, 0, 0x13, 0, 21] + sample_position() + zeros(
            11,
        ),
        _ => seq![0x41u8, 0x43] + zeros(35),
    };
    assert(sample_position().len() == 21);
    assert(body.take(letters_of(format).len() as int) =~= letters_of(format));
    body
}

/// The packet that is sent for a try is as long as packets of its format are, and is found as
/// one.
pub proof fn law_sample_is_a_packet(format: OutputFormat, reduced_crc: bool)
    ensures
        sample_packet(format).len() == format_packet_len(format),
        stream_packets(matchers(seq![format], reduced_crc), sample_packet(format)).0 == seq![
            PacketModel { format, bytes: sample_packet(format) },
        ],
{
    let sample = sample_packet(format);
    if letters_of(format).len() > 0 {
        let body = lemma_sample_body(format);
        let content = body.skip(letters_of(format).len() as int);
        assert(body =~= letters_of(format) + content);
        law_checked_packet_is_found(format, content, reduced_crc, 0, 0);
        assert(sample =~= body + le16(crc16(body)));
    } else if format == OutputFormat::RoverUpGeneral {
        law_rover_up_line_is_found(0, 0, true, reduced_crc);
        let digits = seq!['0' as u8, '0' as u8, '0' as u8, '0' as u8];
        assert(sample =~= address_bytes('3', 0, true) + digits + line_end());
        assert(digit_byte(0, false) == '0' as u8);
        assert(seq![
            digit_byte(0nat / 1000, false),
            digit_byte(0nat / 100 % 10, false),
            digit_byte(0nat / 10 % 10, false),
            digit_byte(0nat % 10, false),
        ] =~= digits);
    } else {
        let data = seq![0x32u8, 0x31, 0x2E, 0x31, 0x30];
        law_rover_down_line_is_found('4', 0, true, data, reduced_crc);
        assert(sample =~= address_bytes('4', 0, true) + data + line_end());
    }
}

/// The lines of the rover are shown as the text that they are, packets in hexadecimal.
pub proof fn law_format_display(format: OutputFormat)
    ensures
        letters_of(format).len() == 0 <==> format_display_mode(format) == PortDisplayMode::Ascii,
        letters_of(format).len() > 0 <==> format_display_mode(format) == PortDisplayMode::Hex,
{
}

/// Line breaks are shown as they are in one mode only, that of lines that end with CR LF.
pub proof fn law_line_breaks_kept(mode: LineBreakMode)
    ensures
        mode.keeps_line_breaks() <==> line_break_name(mode) == "crlf"@,
{
    law_display_names(line_break_name(mode));
}

} // verus!

//! The command line that a session is summed up in names what the session was set to: its
//! bindings read back as the inputs and outputs that they were written for.
use crate::args::{applied, configured, key_value, port_spec, KeyValue, PortSpecModel};
use crate::command_line::{
    canonical, display_text, distinct, format_list, format_names, output_binding_text, split_format,
    with_id,
};
use crate::control::control_monitor_binding;
use crate::display::{
    display_mode_name, display_mode_named, display_value, line_break_name, line_break_named,
    LineBreakMode, PortDisplayMode,
};
use crate::format::{format_name, law_format_names, parsed_format, OutputFormat};
use crate::io::{
    io_input_binding, io_output_binding, send_rate, IoOutputModel, RateModel, ReadingsModel,
};
use crate::io_command::{CommandInputModel, CommandOutputModel};
use crate::send::{send_monitor_binding, send_output_binding, SendOutputBindingModel};
use crate::session::InputBindingModel;
use crate::text::{
    cut_at_first, cut_at_last, decimal, first_at, is_digit, is_white, joined, lemma_decimal,
    lemma_first_at, lemma_joined_cons, lemma_last_at, lemma_number_of_decimal, lemma_trim_end,
    lemma_trim_start, lower, number, pieces, trimmed,
};
use vstd::prelude::*;

verus! {

// ---------------------------------------------------------------------------
// Texts
// ---------------------------------------------------------------------------

/// The characters that names of formats and displays are made of.
spec fn is_small(c: char) -> bool {
    ('a' <= c <= 'z') || ('0' <= c <= '9') || c == '+'
}

spec fn all_small(s: Seq<char>) -> bool {
    forall|i: int| 0 <= i < s.len() ==> is_small(#[trigger] s[i])
}

spec fn lacks(s: Seq<char>, c: char) -> bool {
    forall|i: int| 0 <= i < s.len() ==> #[trigger] s[i] != c
}

/// A text without white space at either end.
pub open spec fn is_trim(s: Seq<char>) -> bool {
    s.len() > 0 && !is_white(s[0]) && !is_white(s.last())
}

proof fn lemma_trim(s: Seq<char>)
    requires
        is_trim(s),
    ensures
        trimmed(s) == s,
{
    lemma_trim_start(s, 0);
    assert(s.skip(0) == s);
    lemma_trim_end(s, s.len() as int);
    assert(s.take(s.len() as int) == s);
}

proof fn lemma_small(s: Seq<char>)
    requires
        all_small(s),
        s.len() > 0,
    ensures
        is_trim(s),
        trimmed(s) == s,
        lower(s) == s,
        lacks(s, ','),
        lacks(s, '@'),
        lacks(s, '='),
{
    assert(is_small(s[0]));
    assert(is_small(s[s.len() - 1]));
    lemma_trim(s);
    assert(lower(s) =~= s) by {
        assert forall|i: int| 0 <= i < s.len() implies lower(s)[i] == s[i] by {
            assert(is_small(s[i]));
        }
    }
    assert forall|i: int| 0 <= i < s.len() implies #[trigger] s[i] != ',' && s[i] != '@' && s[i]
        != '=' by {
        assert(is_small(s[i]));
    }
}

proof fn lemma_cut_last(a: Seq<char>, c: char, b: Seq<char>)
    requires
        lacks(b, c),
    ensures
        cut_at_last(a + seq![c] + b, c) == Some((a, b)),
{
    let s = a + seq![c] + b;
    let k = a.len() as int;
    assert forall|i: int| k < i < s.len() implies #[trigger] s[i] != c by {
        assert(s[i] == b[i - k - 1]);
    }
    assert(s[k] == c);
    lemma_last_at(s, c, k);
    assert(s.take(k) =~= a);
    assert(s.skip(k + 1) =~= b);
}

proof fn lemma_cut_first(a: Seq<char>, c: char, b: Seq<char>)
    requires
        lacks(a, c),
    ensures
        cut_at_first(a + seq![c] + b, c) == Some((a, b)),
{
    let s = a + seq![c] + b;
    let k = a.len() as int;
    assert forall|i: int| 0 <= i < k implies #[trigger] s[i] != c by {
        assert(s[i] == a[i]);
    }
    assert(s[k] == c);
    lemma_first_at(s, c, k);
    assert(s.take(k) =~= a);
    assert(s.skip(k + 1) =~= b);
}

proof fn lemma_no_cut_first(s: Seq<char>, c: char)
    requires
        lacks(s, c),
    ensures
        cut_at_first(s, c) is None,
{
    lemma_first_at(s, c, s.len() as int);
}

/// Parts that lack a character are the pieces of their text.
proof fn lemma_pieces_of_joined(parts: Seq<Seq<char>>, c: char)
    requires
        parts.len() > 0,
        forall|i: int| 0 <= i < parts.len() ==> lacks(#[trigger] parts[i], c),
    ensures
        pieces(joined(parts, seq![c]), c) == parts,
    decreases parts.len(),
{
    if parts.len() == 1 {
        let s = parts[0];
        assert(lacks(s, c));
        lemma_first_at(s, c, s.len() as int);
        assert(joined(parts, seq![c]) == s);
        assert(pieces(s, c) =~= parts);
    } else {
        let first = parts[0];
        let rest = parts.skip(1);
        assert(parts =~= seq![first] + rest);
        assert forall|i: int| 0 <= i < rest.len() implies lacks(#[trigger] rest[i], c) by {
            assert(rest[i] == parts[i + 1]);
        }
        lemma_pieces_of_joined(rest, c);
        lemma_joined_cons(first, rest, seq![c]);
        let s = joined(parts, seq![c]);
        let tail = joined(rest, seq![c]);
        assert(s == first + seq![c] + tail);
        assert(lacks(first, c));
        assert forall|i: int| 0 <= i < first.len() implies #[trigger] s[i] != c by {
            assert(s[i] == first[i]);
        }
        assert(s[first.len() as int] == c);
        lemma_first_at(s, c, first.len() as int);
        assert(s.take(first.len() as int) =~= first);
        assert(s.skip(first.len() as int + 1) =~= tail);
        assert(pieces(s, c) =~= parts);
    }
}

proof fn lemma_decimal_plain(n: nat)
    ensures
        is_trim(decimal(n)),
        trimmed(decimal(n)) == decimal(n),
        all_small(decimal(n)),
        number(decimal(n)) == Some(n),
{
    lemma_decimal(n);
    lemma_number_of_decimal(n);
    let d = decimal(n);
    assert forall|i: int| 0 <= i < d.len() implies is_small(#[trigger] d[i]) by {
        assert(is_digit(d[i]));
    }
    lemma_small(d);
}

// ---------------------------------------------------------------------------
// Names
// ---------------------------------------------------------------------------

proof fn lemma_format_name(f: OutputFormat)
    ensures
        all_small(format_name(f)),
        lacks(format_name(f), '+'),
        format_name(f).len() >= 9,
        parsed_format(format_name(f)) == Ok::<OutputFormat, Seq<char>>(f),
        trimmed(format_name(f)) == format_name(f),
{
    reveal_strlit("packetacv6");
    reveal_strlit("packetacv6usb");
    reveal_strlit("packetmv1");
    reveal_strlit("packetiv1");
    reveal_strlit("packetbv1");
    reveal_strlit("packetgcv1");
    reveal_strlit("packetjfv1");
    reveal_strlit("packetufv2");
    reveal_strlit("roverupgeneral");
    reveal_strlit("roverdowngeneral");
    let s = format_name(f);
    assert(all_small(s) && lacks(s, '+') && s.len() >= 9);
    lemma_small(s);
    law_format_names(f);
}

/// A text that is shorter than every name of a format names none.
proof fn lemma_short_is_no_format(s: Seq<char>)
    requires
        s.len() < 9,
        trimmed(s) == s,
    ensures
        parsed_format(s) is Err,
{
    reveal_strlit("packetacv6");
    reveal_strlit("packetacv6usb");
    reveal_strlit("packetmv1");
    reveal_strlit("packetiv1");
    reveal_strlit("packetbv1");
    reveal_strlit("packetgcv1");
    reveal_strlit("packetjfv1");
    reveal_strlit("packetufv2");
    reveal_strlit("roverupgeneral");
    reveal_strlit("roverdowngeneral");
    assert(lower(s).len() == s.len());
}

proof fn lemma_mode_name(mode: PortDisplayMode)
    ensures
        all_small(display_mode_name(mode)),
        display_mode_name(mode).len() > 0,
        display_mode_named(display_mode_name(mode)) == Some(mode),
        first_at(display_mode_name(mode), '+') <= 5,
        lacks(display_mode_name(mode).take(first_at(display_mode_name(mode), '+')), '+'),
        0 < first_at(display_mode_name(mode), '+') <= display_mode_name(mode).len(),
        first_at(display_mode_name(mode), '+') < display_mode_name(mode).len()
            ==> display_mode_name(mode)[first_at(display_mode_name(mode), '+')] == '+',
{
    reveal_strlit("hex");
    reveal_strlit("ascii");
    reveal_strlit("utf8");
    reveal_strlit("hex+ascii");
    reveal_strlit("hex+utf8");
    let s = display_mode_name(mode);
    assert(all_small(s));
    match mode {
        PortDisplayMode::Hex => {
            lemma_first_at(s, '+', 3);
        },
        PortDisplayMode::Ascii => {
            assert(s[0] != "hex"@[0]);
            lemma_first_at(s, '+', 5);
        },
        PortDisplayMode::Utf8 => {
            assert(s[0] != "hex"@[0] && s[0] != "ascii"@[0]);
            lemma_first_at(s, '+', 4);
        },
        PortDisplayMode::HexAscii => {
            assert(s.len() != "hex"@.len() && s[0] != "ascii"@[0] && s[0] != "utf8"@[0]);
            lemma_first_at(s, '+', 3);
        },
        PortDisplayMode::HexUtf8 => {
            assert(s.len() != "hex"@.len() && s[0] != "ascii"@[0] && s[0] != "utf8"@[0]);
            assert(s[4] != "hex+ascii"@[4]);
            lemma_first_at(s, '+', 3);
        },
    }
}

proof fn lemma_break_name(mode: LineBreakMode)
    ensures
        all_small(line_break_name(mode)),
        line_break_name(mode).len() > 0,
        lacks(line_break_name(mode), '+'),
        line_break_named(line_break_name(mode)) == Some(mode),
{
    reveal_strlit("line");
    reveal_strlit("packet");
    reveal_strlit("wrap");
    reveal_strlit("crlf");
    let s = line_break_name(mode);
    assert(all_small(s) && lacks(s, '+'));
    match mode {
        LineBreakMode::Line => {},
        LineBreakMode::Packet => {
            assert(s[0] != "line"@[0]);
        },
        LineBreakMode::Wrap => {
            assert(s[0] != "line"@[0] && s[0] != "packet"@[0]);
        },
        LineBreakMode::Crlf => {
            assert(s[0] != "line"@[0] && s[0] != "packet"@[0] && s[0] != "wrap"@[0]);
        },
    }
}

/// The name of a display mode is read back as that mode.
pub proof fn law_display_mode_reads_back(mode: PortDisplayMode)
    ensures
        display_value(display_mode_name(mode)) == Ok::<
            (Option<PortDisplayMode>, Option<LineBreakMode>),
            Seq<char>,
        >((Some(mode), None)),
{
    lemma_mode_name(mode);
    lemma_small(display_mode_name(mode));
}

/// A display mode and a line break mode that are written as one value are read back from it.
pub proof fn law_display_text_reads_back(mode: PortDisplayMode, line_break: LineBreakMode)
    ensures
        display_value(display_text(mode, line_break)) == Ok::<
            (Option<PortDisplayMode>, Option<LineBreakMode>),
            Seq<char>,
        >((Some(mode), Some(line_break))),
{
    lemma_mode_name(mode);
    lemma_break_name(line_break);
    reveal_strlit("+");
    let a = display_mode_name(mode);
    let b = line_break_name(line_break);
    let s = display_text(mode, line_break);
    assert("+"@ =~= seq!['+']);
    assert(s == a + seq!['+'] + b);
    assert forall|i: int| 0 <= i < s.len() implies is_small(#[trigger] s[i]) by {
        if i < a.len() {
            assert(s[i] == a[i]);
        } else if i > a.len() {
            assert(s[i] == b[i - a.len() - 1]);
        }
    }
    lemma_small(s);
    lemma_cut_last(a, '+', b);
    assert(s[a.len() as int] == '+');
    reveal_strlit("hex");
    reveal_strlit("ascii");
    reveal_strlit("utf8");
    reveal_strlit("hex+ascii");
    reveal_strlit("hex+utf8");
    reveal_strlit("line");
    reveal_strlit("packet");
    reveal_strlit("wrap");
    reveal_strlit("crlf");
    assert(lacks("hex"@, '+') && lacks("ascii"@, '+') && lacks("utf8"@, '+'));
    assert(lacks("line"@, '+') && lacks("packet"@, '+') && lacks("wrap"@, '+') && lacks(
        "crlf"@,
        '+',
    ));
    assert(s[s.len() - 1] == b[b.len() - 1]);
    assert(b[b.len() - 1] != 'i' && b[b.len() - 1] != '8');
    assert(s != "hex"@ && s != "ascii"@ && s != "utf8"@);
    assert(s != "hex+ascii"@ && s != "hex+utf8"@);
    assert(s != "line"@ && s != "packet"@ && s != "wrap"@ && s != "crlf"@);
}

// ---------------------------------------------------------------------------
// Lists of formats
// ---------------------------------------------------------------------------

proof fn lemma_distinct(s: Seq<Seq<char>>)
    requires
        s.no_duplicates(),
    ensures
        distinct(s) == s,
    decreases s.len(),
{
    if s.len() > 0 {
        let init = s.drop_last();
        assert(init.no_duplicates());
        lemma_distinct(init);
        assert(!init.contains(s.last())) by {
            if init.contains(s.last()) {
                let i = choose|i: int| 0 <= i < init.len() && init[i] == s.last();
                assert(s[i] == s[s.len() - 1]);
            }
        }
        assert(init.push(s.last()) =~= s);
    }
}

/// A list of formats, each of them once, is read back from its text.
pub proof fn law_format_list_reads_back(formats: Seq<OutputFormat>)
    requires
        formats.len() > 0,
        formats.no_duplicates(),
    ensures
        format_list(joined(format_names(formats), "+"@)) == Some(format_names(formats)),
{
    reveal_strlit("+");
    assert("+"@ =~= seq!['+']);
    let names = format_names(formats);
    assert forall|i: int| 0 <= i < names.len() implies lacks(#[trigger] names[i], '+') && names[i]
        == format_name(formats[i]) && canonical(names[i]) == names[i] && parsed_format(
        trimmed(names[i]),
    ) is Ok by {
        lemma_format_name(formats[i]);
    }
    lemma_pieces_of_joined(names, '+');
    let ps = pieces(joined(names, "+"@), '+');
    assert(ps.map_values(|p: Seq<char>| canonical(p)) =~= names);
    assert(names.no_duplicates()) by {
        assert forall|i: int, j: int|
            0 <= i < names.len() && 0 <= j < names.len() && i != j implies names[i]
            != names[j] by {
            lemma_format_name(formats[i]);
            lemma_format_name(formats[j]);
            assert(formats[i] != formats[j]);
        }
    }
    lemma_distinct(names);
}

/// A display value is no list of formats.
proof fn lemma_display_is_no_list(mode: PortDisplayMode, line_break: LineBreakMode)
    ensures
        format_list(display_text(mode, line_break)) is None,
{
    lemma_mode_name(mode);
    reveal_strlit("+");
    assert("+"@ =~= seq!['+']);
    let a = display_mode_name(mode);
    let s = display_text(mode, line_break);
    let k = first_at(a, '+');
    let head = a.take(k);
    assert forall|i: int| 0 <= i < k implies #[trigger] s[i] != '+' by {
        assert(head[i] == s[i]);
    }
    assert(s[k] == '+');
    lemma_first_at(s, '+', k);
    let ps = pieces(s, '+');
    assert(s.take(k) =~= head);
    assert(ps[0] == head);
    assert forall|i: int| 0 <= i < head.len() implies is_small(#[trigger] head[i]) by {
        assert(head[i] == a[i]);
    }
    lemma_small(head);
    lemma_short_is_no_format(head);
    assert(parsed_format(trimmed(ps[0])) is Err);
}

proof fn lemma_list_small(formats: Seq<OutputFormat>)
    requires
        formats.len() > 0,
    ensures
        all_small(joined(format_names(formats), "+"@)),
        joined(format_names(formats), "+"@).len() > 0,
    decreases formats.len(),
{
    reveal_strlit("+");
    let names = format_names(formats);
    lemma_format_name(formats.last());
    if formats.len() > 1 {
        lemma_list_small(formats.drop_last());
        assert(names.drop_last() =~= format_names(formats.drop_last()));
        let a = joined(names.drop_last(), "+"@);
        let b = format_name(formats.last());
        let s = joined(names, "+"@);
        assert(s == a + "+"@ + b);
        assert forall|i: int| 0 <= i < s.len() implies is_small(#[trigger] s[i]) by {
            if i < a.len() {
                assert(s[i] == a[i]);
            } else if i > a.len() {
                assert(s[i] == b[i - a.len() - 1]);
            }
        }
    } else {
        assert(names[0] == format_name(formats[0]));
    }
}

// ---------------------------------------------------------------------------
// Bindings
// ---------------------------------------------------------------------------

/// A port, its baud rate and a display value are read back.
proof fn lemma_port_reads_back(
    option: Seq<char>,
    port: Seq<char>,
    baud: u32,
    display: Seq<char>,
    mode: PortDisplayMode,
    line_break: Option<LineBreakMode>,
)
    requires
        is_trim(port),
        all_small(display),
        display.len() > 0,
        display_value(display) == Ok::<
            (Option<PortDisplayMode>, Option<LineBreakMode>),
            Seq<char>,
        >((Some(mode), line_break)),
    ensures
        port_spec(option, port + "@"@ + decimal(baud as nat) + (","@ + display)) == Ok::<
            PortSpecModel,
            Seq<char>,
        >(
            PortSpecModel {
                port,
                baud: Some(baud),
                display_mode: Some(mode),
                line_break_mode: line_break,
            },
        ),
{
    reveal_strlit("@");
    reveal_strlit(",");
    let d = decimal(baud as nat);
    let head = port + "@"@ + d;
    let s = head + (","@ + display);
    assert("@"@ =~= seq!['@']);
    assert(","@ =~= seq![',']);
    assert(s =~= head + seq![','] + display);
    lemma_small(display);
    lemma_decimal_plain(baud as nat);
    lemma_small(d);
    assert(s[0] == port[0]);
    assert(s.last() == display.last());
    lemma_trim(s);
    lemma_cut_last(head, ',', display);
    lemma_cut_last(port, '@', d);
    lemma_trim(port);
}

/// A port with its baud rate and its display mode is read back.
pub proof fn law_port_reads_back(
    option: Seq<char>,
    port: Seq<char>,
    baud: u32,
    mode: PortDisplayMode,
)
    requires
        is_trim(port),
    ensures
        port_spec(option, port + "@"@ + decimal(baud as nat) + ","@ + display_mode_name(mode))
            == Ok::<PortSpecModel, Seq<char>>(
            PortSpecModel {
                port,
                baud: Some(baud),
                display_mode: Some(mode),
                line_break_mode: None,
            },
        ),
{
    law_display_mode_reads_back(mode);
    lemma_mode_name(mode);
    let name = display_mode_name(mode);
    lemma_port_reads_back(option, port, baud, name, mode, None);
    let head = port + "@"@ + decimal(baud as nat);
    assert(head + ","@ + name =~= head + (","@ + name));
}

/// A port with a baud rate behind `@` is read as that port at that baud rate, and a port alone as
/// that port without one. Commas are left to displays, and `@` to baud rates.
pub proof fn law_port_and_baud_read_back(option: Seq<char>, port: Seq<char>, baud: u32)
    requires
        is_trim(port),
        forall|i: int| 0 <= i < port.len() ==> #[trigger] port[i] != ',' && port[i] != '@',
    ensures
        port_spec(option, port + "@"@ + decimal(baud as nat)) == Ok::<PortSpecModel, Seq<char>>(
            PortSpecModel { port, baud: Some(baud), display_mode: None, line_break_mode: None },
        ),
        port_spec(option, port) == Ok::<PortSpecModel, Seq<char>>(
            PortSpecModel { port, baud: None, display_mode: None, line_break_mode: None },
        ),
{
    reveal_strlit("@");
    let d = decimal(baud as nat);
    let s = port + "@"@ + d;
    assert("@"@ =~= seq!['@']);
    lemma_decimal_plain(baud as nat);
    lemma_small(d);
    assert(s[0] == port[0] && s.last() == d.last());
    lemma_trim(s);
    lemma_trim(port);
    assert forall|i: int| 0 <= i < s.len() implies #[trigger] s[i] != ',' by {
        if i < port.len() {
            assert(s[i] == port[i]);
        } else if i > port.len() {
            assert(s[i] == d[i - port.len() - 1]);
        }
    }
    lemma_last_at(s, ',', -1);
    lemma_last_at(port, ',', -1);
    lemma_last_at(port, '@', -1);
    lemma_cut_last(port, '@', d);
}

/// The binding of an input on a command line names the input: its port, its baud rate, its
/// display and its formats are read back.
pub proof fn law_input_binding_reads_back(input: CommandInputModel)
    requires
        is_trim(input.port),
        input.formats.no_duplicates(),
    ensures
        io_input_binding(input.binding()) == Ok::<InputBindingModel, Seq<char>>(
            InputBindingModel {
                port: input.port,
                baud: Some(input.baud_rate),
                formats: format_names(input.formats),
                display_mode: Some(input.display_mode),
                line_break_mode: Some(input.line_break_mode),
            },
        ),
        send_monitor_binding(input.binding()) == io_input_binding(input.binding()),
        control_monitor_binding(input.binding()) == io_input_binding(input.binding()),
{
    let display = display_text(input.display_mode, input.line_break_mode);
    law_display_text_reads_back(input.display_mode, input.line_break_mode);
    lemma_display_small(input.display_mode, input.line_break_mode);
    reveal_strlit("@");
    reveal_strlit(",");
    assert(","@ =~= seq![',']);
    let d = decimal(input.baud_rate as nat);
    let rest = input.port + "@"@ + d + (","@ + display);
    let value = input.binding();
    lemma_port_reads_back(
        "io input binding"@,
        input.port,
        input.baud_rate,
        display,
        input.display_mode,
        Some(input.line_break_mode),
    );
    lemma_port_reads_back(
        "control monitor binding"@,
        input.port,
        input.baud_rate,
        display,
        input.display_mode,
        Some(input.line_break_mode),
    );
    lemma_port_reads_back(
        "--monitor"@,
        input.port,
        input.baud_rate,
        display,
        input.display_mode,
        Some(input.line_break_mode),
    );
    if input.formats.len() > 0 {
        let list = joined(format_names(input.formats), "+"@);
        law_format_list_reads_back(input.formats);
        lemma_list_small(input.formats);
        lemma_small(list);
        assert(value =~= rest + seq![','] + list);
        lemma_cut_last(rest, ',', list);
    } else {
        assert(value =~= rest);
        let head = input.port + "@"@ + d;
        assert(rest =~= head + seq![','] + display);
        lemma_small(display);
        lemma_cut_last(head, ',', display);
        lemma_display_is_no_list(input.display_mode, input.line_break_mode);
        assert(format_names(input.formats) =~= Seq::<Seq<char>>::empty());
    }
}

proof fn lemma_display_small(mode: PortDisplayMode, line_break: LineBreakMode)
    ensures
        all_small(display_text(mode, line_break)),
        display_text(mode, line_break).len() > 0,
{
    lemma_mode_name(mode);
    lemma_break_name(line_break);
    reveal_strlit("+");
    let a = display_mode_name(mode);
    let b = line_break_name(line_break);
    let s = display_text(mode, line_break);
    assert forall|i: int| 0 <= i < s.len() implies is_small(#[trigger] s[i]) by {
        if i < a.len() {
            assert(s[i] == a[i]);
        } else if i > a.len() {
            assert(s[i] == b[i - a.len() - 1]);
        }
    }
}

/// What stands before the rate of an output, with the parts that it is read as.
proof fn lemma_output_parts(output: CommandOutputModel, option: Seq<char>)
    requires
        is_trim(output.port),
        output.id.len() > 0,
        lacks(output.id, '='),
    ensures
        ({
            let spec = PortSpecModel {
                port: output.port,
                baud: Some(output.baud_rate),
                display_mode: Some(output.display_mode),
                line_break_mode: None,
            };
            let port_text = output.port + "@"@ + decimal(output.baud_rate as nat) + (","@
                + display_mode_name(output.display_mode));
            let binding = with_id(output.id, output.port, port_text);
            let head = binding + (","@ + format_name(output.format));
            &&& output.binding() == head + seq![','] + output.rate
            &&& split_format(head) == (binding, Some(format_name(output.format)))
            &&& port_spec(option, port_text) == Ok::<PortSpecModel, Seq<char>>(spec)
            &&& port_text.len() > 0
            &&& cut_at_first(binding, '=') == if output.id == output.port {
                None
            } else {
                Some((output.id, port_text))
            }
        }),
{
    reveal_strlit("@");
    reveal_strlit(",");
    reveal_strlit("=");
    assert(","@ =~= seq![',']);
    assert("@"@ =~= seq!['@']);
    assert("="@ =~= seq!['=']);
    let display = display_mode_name(output.display_mode);
    let name = format_name(output.format);
    let d = decimal(output.baud_rate as nat);
    lemma_mode_name(output.display_mode);
    law_display_mode_reads_back(output.display_mode);
    lemma_small(display);
    lemma_format_name(output.format);
    lemma_small(name);
    lemma_decimal_plain(output.baud_rate as nat);
    lemma_small(d);
    let port_text = output.port + "@"@ + d + (","@ + display);
    let binding = with_id(output.id, output.port, port_text);
    let head = binding + (","@ + name);
    lemma_port_reads_back(
        option,
        output.port,
        output.baud_rate,
        display,
        output.display_mode,
        None,
    );
    assert(head =~= binding + seq![','] + name);
    lemma_cut_last(binding, ',', name);
    let whole = output_binding_text(
        output.port,
        Some(d),
        Some(display),
        Some(name),
        Some(output.rate),
    );
    assert(whole =~= port_text + (","@ + name) + (","@ + output.rate));
    if output.id == output.port {
        assert(output.binding() =~= head + seq![','] + output.rate);
        assert forall|i: int| 0 <= i < binding.len() implies #[trigger] binding[i] != '=' by {
            let p = output.port.len() as int;
            if i < p {
                assert(binding[i] == output.id[i]);
            } else if i > p && i < p + 1 + d.len() {
                assert(binding[i] == d[i - p - 1]);
            } else if i > p + 1 + d.len() {
                assert(binding[i] == display[i - p - 2 - d.len()]);
            }
        }
        lemma_no_cut_first(binding, '=');
    } else {
        assert(binding =~= output.id + seq!['='] + port_text);
        lemma_cut_first(output.id, '=', port_text);
        assert(output.binding() =~= head + seq![','] + output.rate);
    }
}

/// The binding of an output on a command line names the output, with the rate that its rate text
/// stands for.
pub proof fn law_output_binding_reads_back(
    output: CommandOutputModel,
    rate: RateModel,
    readings: ReadingsModel,
)
    requires
        is_trim(output.port),
        output.id.len() > 0,
        forall|i: int| 0 <= i < output.id.len() ==> #[trigger] output.id[i] != '=',
        forall|i: int| 0 <= i < output.rate.len() ==> #[trigger] output.rate[i] != ',',
        send_rate("io output rate"@, output.rate, readings) == Ok::<RateModel, Seq<char>>(rate),
    ensures
        io_output_binding(output.binding(), readings) == Ok::<IoOutputModel, Seq<char>>(
            IoOutputModel {
                id: output.id,
                port: output.port,
                baud: Some(output.baud_rate),
                rate_hz: Some(rate),
                format: Some(format_name(output.format)),
                display_mode: Some(output.display_mode),
            },
        ),
{
    lemma_output_parts(output, "io output binding"@);
    let port_text = output.port + "@"@ + decimal(output.baud_rate as nat) + (","@
        + display_mode_name(output.display_mode));
    let binding = with_id(output.id, output.port, port_text);
    let head = binding + (","@ + format_name(output.format));
    lemma_cut_last(head, ',', output.rate);
}

/// The same of an output whose rate is a whole number of packets per second.
pub proof fn law_send_output_reads_back(output: CommandOutputModel, rate: u32)
    requires
        is_trim(output.port),
        output.id.len() > 0,
        forall|i: int| 0 <= i < output.id.len() ==> #[trigger] output.id[i] != '=',
        output.rate == decimal(rate as nat),
    ensures
        send_output_binding(output.binding()) == Ok::<SendOutputBindingModel, Seq<char>>(
            SendOutputBindingModel {
                id: output.id,
                port: output.port,
                baud: Some(output.baud_rate),
                rate_hz: Some(rate),
                format: Some(format_name(output.format)),
                display_mode: Some(output.display_mode),
                line_break_mode: None,
            },
        ),
{
    lemma_decimal(rate as nat);
    lemma_decimal_plain(rate as nat);
    lemma_small(output.rate);
    lemma_output_parts(output, "send output binding"@);
    let port_text = output.port + "@"@ + decimal(output.baud_rate as nat) + (","@
        + display_mode_name(output.display_mode));
    let binding = with_id(output.id, output.port, port_text);
    let head = binding + (","@ + format_name(output.format));
    lemma_cut_last(head, ',', output.rate);
}

// ---------------------------------------------------------------------------
// Settings
// ---------------------------------------------------------------------------

/// One assignment of `--config` sets what its key and its value say.
pub proof fn law_config_sets_one<O>(
    step: spec_fn(O, KeyValue) -> Result<O, Seq<char>>,
    options: O,
    key: Seq<char>,
    value: Seq<char>,
)
    requires
        is_trim(key),
        is_trim(value),
        forall|i: int| 0 <= i < key.len() ==> #[trigger] key[i] != '=' && key[i] != ',',
        forall|i: int| 0 <= i < value.len() ==> #[trigger] value[i] != ',',
    ensures
        configured(step, options, key + "="@ + value) == step(options, (key, value)),
{
    reveal_strlit("=");
    assert("="@ =~= seq!['=']);
    let s = key + "="@ + value;
    assert(s[0] == key[0] && s.last() == value.last());
    lemma_trim(s);
    lemma_trim(key);
    lemma_trim(value);
    assert forall|i: int| 0 <= i < s.len() implies #[trigger] s[i] != ',' by {
        if i < key.len() {
            assert(s[i] == key[i]);
        } else if i > key.len() {
            assert(s[i] == value[i - key.len() - 1]);
        }
    }
    lemma_first_at(s, ',', s.len() as int);
    assert(lacks(key, '='));
    lemma_cut_first(key, '=', value);
    assert(pieces(s, ',') =~= seq![s]);
    let kvs = pieces(s, ',').map_values(|p: Seq<char>| key_value(p)->0);
    assert(key_value(s) == Some((key, value)));
    assert(kvs =~= seq![(key, value)]);
    assert(kvs.drop_last() =~= Seq::<KeyValue>::empty());
    assert(kvs.last() == (key, value));
    assert(applied(step, options, kvs.drop_last()) == Ok::<O, Seq<char>>(options));
}

} // verus!

//! Command lines as texts: quoting, format lists, and the bindings that name ports.
use crate::display::{display_mode_name, line_break_name, LineBreakMode, PortDisplayMode};
use crate::format::{format_name, parsed_format, OutputFormat};
use crate::text::{
    cat2, cat3, chars_of, cut_at_last, decimal, decimal_text, join, joined, pieces, rsplit_once,
    same, split, string_of, texts, trim, trimmed,
};
use vstd::prelude::*;
use vstd::string::*;

verus! {

// ---------------------------------------------------------------------------
// Quoting
// ---------------------------------------------------------------------------

/// A character that a shell takes as it stands.
pub open spec fn is_plain(c: char) -> bool {
    ||| 'a' <= c <= 'z'
    ||| 'A' <= c <= 'Z'
    ||| '0' <= c <= '9'
    ||| c == '-'
    ||| c == '_'
    ||| c == '.'
    ||| c == '/'
    ||| c == ':'
    ||| c == '@'
    ||| c == '='
    ||| c == ','
    ||| c == '+'
}

fn is_plain_char(c: char) -> (r: bool)
    ensures
        r == is_plain(c),
{
    ('a' <= c && c <= 'z') || ('A' <= c && c <= 'Z') || ('0' <= c && c <= '9') || c == '-' || c
        == '_' || c == '.' || c == '/' || c == ':' || c == '@' || c == '=' || c == ',' || c == '+'
}

/// A character as it stands between single quotes; a quote leaves them and comes back.
pub open spec fn escaped_char(c: char) -> Seq<char> {
    if c == '\'' {
        seq!['\'', '\\', '\'', '\'']
    } else {
        seq![c]
    }
}

/// A text as it stands between single quotes.
pub open spec fn escaped(s: Seq<char>) -> Seq<char>
    decreases s.len(),
{
    if s.len() == 0 {
        seq![]
    } else {
        escaped_char(s[0]) + escaped(s.skip(1))
    }
}

/// A text as one word for a shell.
pub open spec fn quoted(s: Seq<char>) -> Seq<char> {
    if s.len() == 0 {
        seq!['\'', '\'']
    } else if forall|i: int| 0 <= i < s.len() ==> is_plain(#[trigger] s[i]) {
        s
    } else {
        seq!['\''] + escaped(s) + seq!['\'']
    }
}

/// What a shell reads a word as: single quotes keep what is between them, a backslash outside of
/// them keeps the next character, and any other character must be plain.
pub open spec fn shell_word(s: Seq<char>, in_quotes: bool) -> Option<Seq<char>>
    decreases s.len(),
{
    if s.len() == 0 {
        if in_quotes {
            None
        } else {
            Some(seq![])
        }
    } else if s[0] == '\'' {
        shell_word(s.skip(1), !in_quotes)
    } else if in_quotes || is_plain(s[0]) {
        match shell_word(s.skip(1), in_quotes) {
            Some(rest) => Some(seq![s[0]] + rest),
            None => None,
        }
    } else if s[0] == '\\' && s.len() > 1 {
        match shell_word(s.skip(2), false) {
            Some(rest) => Some(seq![s[1]] + rest),
            None => None,
        }
    } else {
        None
    }
}

proof fn lemma_escaped_reads_back(s: Seq<char>)
    ensures
        shell_word(escaped(s) + seq!['\''], true) == Some(s),
    decreases s.len(),
{
    let t = escaped(s) + seq!['\''];
    if s.len() == 0 {
        assert(t =~= seq!['\'']);
        assert(t.skip(1) =~= Seq::<char>::empty());
        assert(shell_word(t.skip(1), false) == Some(Seq::<char>::empty()));
        assert(s =~= Seq::<char>::empty());
    } else {
        let rest = s.skip(1);
        let tail = escaped(rest) + seq!['\''];
        lemma_escaped_reads_back(rest);
        assert(seq![s[0]] + rest =~= s);
        if s[0] == '\'' {
            assert(t =~= seq!['\'', '\\', '\'', '\''] + tail);
            let t1 = t.skip(1);
            assert(t1.skip(2) =~= seq!['\''] + tail);
            assert(t1.skip(2).skip(1) =~= tail);
            assert(t[0] == '\'' && t1[0] == '\\' && t1[1] == '\'');
            assert(shell_word(t1.skip(2), false) == shell_word(tail, true));
            assert(shell_word(t1, false) == Some(seq!['\''] + rest));
        } else {
            assert(t =~= seq![s[0]] + tail);
            assert(t.skip(1) =~= tail);
        }
    }
}

proof fn lemma_plain_reads_back(s: Seq<char>)
    requires
        forall|i: int| 0 <= i < s.len() ==> is_plain(#[trigger] s[i]),
    ensures
        shell_word(s, false) == Some(s),
    decreases s.len(),
{
    if s.len() > 0 {
        let rest = s.skip(1);
        assert forall|i: int| 0 <= i < rest.len() implies is_plain(#[trigger] rest[i]) by {
            assert(rest[i] == s[i + 1]);
        }
        lemma_plain_reads_back(rest);
        assert(is_plain(s[0]));
        assert(seq![s[0]] + rest =~= s);
    }
}

/// A shell reads a quoted text back as the text.
pub proof fn law_quoted_reads_back(s: Seq<char>)
    ensures
        shell_word(quoted(s), false) == Some(s),
{
    let q = quoted(s);
    if s.len() == 0 {
        assert(q.skip(1) =~= seq!['\'']);
        assert(q.skip(1).skip(1) =~= Seq::<char>::empty());
        assert(shell_word(q.skip(1), true) == shell_word(q.skip(1).skip(1), false));
        assert(s =~= Seq::<char>::empty());
    } else if forall|i: int| 0 <= i < s.len() ==> is_plain(#[trigger] s[i]) {
        lemma_plain_reads_back(s);
    } else {
        lemma_escaped_reads_back(s);
        assert(q.skip(1) =~= escaped(s) + seq!['\'']);
    }
}

pub fn shell_quote_arg(value: &str) -> (r: String)
    ensures
        r@ == quoted(value@),
{
    let chars = chars_of(value);
    let mut plain = true;
    let mut i: usize = 0;
    while i < chars.len()
        invariant
            i <= chars.len(),
            plain == (forall|k: int| 0 <= k < i ==> is_plain(#[trigger] chars@[k])),
        decreases chars.len() - i,
    {
        if !is_plain_char(chars[i]) {
            plain = false;
        }
        i += 1;
    }
    if plain && chars.len() > 0 {
        return value.to_owned();
    }
    let mut out: Vec<char> = Vec::new();
    out.push('\'');
    let mut j: usize = 0;
    assert(chars@.skip(0) == chars@);
    while j < chars.len()
        invariant
            j <= chars.len(),
            out@ + escaped(chars@.skip(j as int)) == seq!['\''] + escaped(chars@),
        decreases chars.len() - j,
    {
        let ghost before = out@;
        let ghost rest = chars@.skip(j as int);
        proof {
            assert(rest[0] == chars@[j as int]);
            assert(rest.skip(1) == chars@.skip(j + 1));
            assert(escaped(rest) == escaped_char(rest[0]) + escaped(rest.skip(1)));
        }
        if chars[j] == '\'' {
            out.push('\'');
            out.push('\\');
            out.push('\'');
            out.push('\'');
        } else {
            out.push(chars[j]);
        }
        proof {
            assert(out@ =~= before + escaped_char(rest[0]));
            assert(before + (escaped_char(rest[0]) + escaped(rest.skip(1))) =~= out@ + escaped(
                rest.skip(1),
            ));
        }
        j += 1;
    }
    proof {
        assert(chars@.skip(j as int) =~= Seq::<char>::empty());
        assert(out@ + escaped(chars@.skip(j as int)) =~= out@);
    }
    out.push('\'');
    proof {
        if chars@.len() == 0 {
            assert(escaped(chars@) =~= Seq::<char>::empty());
            assert(out@ =~= seq!['\'', '\'']);
        }
        assert(out@ =~= seq!['\''] + escaped(chars@) + seq!['\'']);
    }
    string_of(&out)
}

/// The arguments as a command line.
pub open spec fn command_text(args: Seq<Seq<char>>) -> Seq<char> {
    joined(args.map_values(|a: Seq<char>| quoted(a)), " "@)
}

pub fn format_command_preview(args: &Vec<String>) -> (r: String)
    ensures
        r@ == command_text(args.deep_view()),
{
    let mut words: Vec<String> = Vec::new();
    let ghost all = args.deep_view();
    let mut i: usize = 0;
    assert(words.deep_view() =~= all.take(0).map_values(|a: Seq<char>| quoted(a)));
    while i < args.len()
        invariant
            i <= args.len(),
            all == args.deep_view(),
            words.deep_view() == all.take(i as int).map_values(|a: Seq<char>| quoted(a)),
        decreases args.len() - i,
    {
        let ghost before = words.deep_view();
        words.push(shell_quote_arg(args[i].as_str()));
        proof {
            assert(all[i as int] == args@[i as int]@);
            assert(words.deep_view() =~= before.push(quoted(all[i as int])));
            assert(all.take(i + 1).map_values(|a: Seq<char>| quoted(a)) =~= all.take(
                i as int,
            ).map_values(|a: Seq<char>| quoted(a)).push(quoted(all[i as int])));
        }
        i += 1;
    }
    assert(all.take(i as int) == all);
    assert(texts(words@) =~= words.deep_view());
    join(&words, " ")
}

/// The arguments that every command line ends with.
pub open spec fn common_args(log_dir: Option<Seq<char>>, no_log: bool, s3b: bool) -> Seq<
    Seq<char>,
> {
    (match log_dir {
        Some(dir) => seq!["--log-dir"@, dir],
        None => seq![],
    }) + (if no_log {
        seq!["--no-log"@]
    } else {
        seq![]
    }) + (if s3b {
        seq!["--s3b"@]
    } else {
        seq![]
    })
}

/// Puts a word behind the arguments.
pub fn push_word(args: &mut Vec<String>, word: &str)
    ensures
        final(args).deep_view() == old(args).deep_view().push(word@),
{
    let ghost before = args.deep_view();
    args.push(word.to_owned());
    assert(args.deep_view() =~= before.push(word@));
}

pub fn append_prompt_common_args(
    args: &mut Vec<String>,
    log_dir: Option<&str>,
    no_log: bool,
    s3b: bool,
)
    ensures
        final(args).deep_view() == old(args).deep_view() + common_args(
            log_dir.deep_view(),
            no_log,
            s3b,
        ),
{
    let ghost before = args.deep_view();
    if let Some(log_dir) = log_dir {
        push_word(args, "--log-dir");
        push_word(args, log_dir);
    }
    if no_log {
        push_word(args, "--no-log");
    }
    if s3b {
        push_word(args, "--s3b");
    }
    assert(args.deep_view() =~= before + common_args(log_dir.deep_view(), no_log, s3b));
}

// ---------------------------------------------------------------------------
// Names of modes
// ---------------------------------------------------------------------------

pub fn display_mode_value(mode: PortDisplayMode) -> (name: &'static str)
    ensures
        name@ == display_mode_name(mode),
{
    match mode {
        PortDisplayMode::Hex => "hex",
        PortDisplayMode::Ascii => "ascii",
        PortDisplayMode::Utf8 => "utf8",
        PortDisplayMode::HexAscii => "hex+ascii",
        PortDisplayMode::HexUtf8 => "hex+utf8",
    }
}

pub fn line_break_mode_value(mode: LineBreakMode) -> (name: &'static str)
    ensures
        name@ == line_break_name(mode),
{
    match mode {
        LineBreakMode::Line => "line",
        LineBreakMode::Packet => "packet",
        LineBreakMode::Wrap => "wrap",
        LineBreakMode::Crlf => "crlf",
    }
}

/// A display mode and a line break mode as one display value.
pub open spec fn display_text(mode: PortDisplayMode, line_break: LineBreakMode) -> Seq<char> {
    display_mode_name(mode) + "+"@ + line_break_name(line_break)
}

pub fn format_input_display_value(
    display_mode: PortDisplayMode,
    line_break_mode: LineBreakMode,
) -> (r: String)
    ensures
        r@ == display_text(display_mode, line_break_mode),
{
    cat3(display_mode_value(display_mode), "+", line_break_mode_value(line_break_mode))
}

/// The mode that is asked for, else the one that is set, else the built-in one.
pub open spec fn display_mode_for(
    asked: Option<PortDisplayMode>,
    set: Option<PortDisplayMode>,
    built_in: Option<PortDisplayMode>,
) -> PortDisplayMode {
    match (asked, set, built_in) {
        (Some(mode), _, _) => mode,
        (None, Some(mode), _) => mode,
        (None, None, Some(mode)) => mode,
        (None, None, None) => PortDisplayMode::HexUtf8,
    }
}

pub fn resolve_display_mode(
    explicit_mode: Option<PortDisplayMode>,
    configured_mode: Option<PortDisplayMode>,
    built_in_mode: Option<PortDisplayMode>,
) -> (mode: PortDisplayMode)
    ensures
        mode == display_mode_for(explicit_mode, configured_mode, built_in_mode),
{
    match explicit_mode {
        Some(mode) => mode,
        None => match configured_mode {
            Some(mode) => mode,
            None => match built_in_mode {
                Some(mode) => mode,
                None => PortDisplayMode::HexUtf8,
            },
        },
    }
}

/// The line break mode of an input: the one asked for, else the one set, else lines for packets
/// and wrapped text without.
pub open spec fn input_line_break_for(
    asked: Option<LineBreakMode>,
    has_formats: bool,
    set: Option<LineBreakMode>,
) -> LineBreakMode {
    match (asked, set) {
        (Some(mode), _) => mode,
        (None, Some(mode)) => mode,
        (None, None) => if has_formats {
            LineBreakMode::Line
        } else {
            LineBreakMode::Wrap
        },
    }
}

pub fn resolve_input_line_break_mode(
    explicit_mode: Option<LineBreakMode>,
    has_formats: bool,
    configured_mode: Option<LineBreakMode>,
) -> (mode: LineBreakMode)
    ensures
        mode == input_line_break_for(explicit_mode, has_formats, configured_mode),
{
    match explicit_mode {
        Some(mode) => mode,
        None => match configured_mode {
            Some(mode) => mode,
            None => if has_formats {
                LineBreakMode::Line
            } else {
                LineBreakMode::Wrap
            },
        },
    }
}

// ---------------------------------------------------------------------------
// Format lists
// ---------------------------------------------------------------------------

/// The names of formats.
pub open spec fn format_names(formats: Seq<OutputFormat>) -> Seq<Seq<char>> {
    formats.map_values(|f: OutputFormat| format_name(f))
}

/// Formats with `+` between their names; nothing where there is none.
pub open spec fn format_list_text(formats: Seq<OutputFormat>) -> Option<Seq<char>> {
    if formats.len() == 0 {
        None
    } else {
        Some(joined(format_names(formats), "+"@))
    }
}

pub fn format_output_format_list(formats: &Vec<OutputFormat>) -> (r: Option<String>)
    ensures
        r.deep_view() == format_list_text(formats@),
{
    if formats.len() == 0 {
        return None;
    }
    let mut names: Vec<String> = Vec::new();
    let mut i: usize = 0;
    assert(names.deep_view() =~= format_names(formats@.take(0)));
    while i < formats.len()
        invariant
            i <= formats.len(),
            names.deep_view() == format_names(formats@.take(i as int)),
        decreases formats.len() - i,
    {
        let ghost before = names.deep_view();
        push_word(&mut names, formats[i].as_str());
        assert(format_names(formats@.take(i + 1)) =~= before.push(
            format_name(formats@[i as int]),
        ));
        i += 1;
    }
    assert(formats@.take(i as int) == formats@);
    assert(texts(names@) =~= names.deep_view());
    Some(join(&names, "+"))
}

/// The texts without those that stand earlier already.
pub open spec fn distinct(s: Seq<Seq<char>>) -> Seq<Seq<char>>
    decreases s.len(),
{
    if s.len() == 0 {
        seq![]
    } else {
        let before = distinct(s.drop_last());
        if before.contains(s.last()) {
            before
        } else {
            before.push(s.last())
        }
    }
}

/// The formats that the pieces of a list name, in their own spelling and each one once; nothing
/// where a piece names no format.
pub open spec fn format_list(value: Seq<char>) -> Option<Seq<Seq<char>>> {
    let ps = pieces(value, '+');
    if forall|i: int| 0 <= i < ps.len() ==> parsed_format(trimmed(#[trigger] ps[i])) is Ok {
        Some(distinct(ps.map_values(|p: Seq<char>| canonical(p))))
    } else {
        None
    }
}

/// The own spelling of a format's name.
pub open spec fn canonical(piece: Seq<char>) -> Seq<char> {
    format_name(parsed_format(trimmed(piece))->Ok_0)
}

/// Whether a text is in a list.
pub fn has_text(list: &Vec<String>, text: &str) -> (r: bool)
    ensures
        r == list.deep_view().contains(text@),
{
    let ghost all = list.deep_view();
    let mut i: usize = 0;
    while i < list.len()
        invariant
            i <= list.len(),
            all == list.deep_view(),
            forall|k: int| 0 <= k < i ==> #[trigger] all[k] != text@,
        decreases list.len() - i,
    {
        assert(all[i as int] == list@[i as int]@);
        if same(list[i].as_str(), text) {
            assert(all.contains(text@));
            return true;
        }
        i += 1;
    }
    false
}

pub fn parse_output_format_list(value: &str) -> (r: Option<Vec<String>>)
    ensures
        r.deep_view() == format_list(value@),
{
    let parts = split(value, '+');
    let ghost ps = pieces(value@, '+');
    let ghost names = ps.map_values(|p: Seq<char>| canonical(p));
    let mut formats: Vec<String> = Vec::new();
    let mut i: usize = 0;
    assert(names.take(0) =~= Seq::<Seq<char>>::empty());
    assert(formats.deep_view() =~= distinct(names.take(0)));
    while i < parts.len()
        invariant
            i <= parts.len(),
            ps == pieces(value@, '+'),
            names == ps.map_values(|p: Seq<char>| canonical(p)),
            parts.deep_view() == ps,
            forall|k: int| 0 <= k < i ==> parsed_format(trimmed(#[trigger] ps[k])) is Ok,
            formats.deep_view() == distinct(names.take(i as int)),
        decreases parts.len() - i,
    {
        assert(ps[i as int] == parts@[i as int]@);
        let format = match OutputFormat::parse(trim(parts[i])) {
            Ok(format) => format,
            Err(_) => {
                assert(parsed_format(trimmed(ps[i as int])) is Err);
                return None;
            },
        };
        let name = format.as_str();
        proof {
            assert(names.take(i + 1).drop_last() == names.take(i as int));
            assert(names.take(i + 1).last() == name@);
        }
        if !has_text(&formats, name) {
            push_word(&mut formats, name);
        }
        i += 1;
    }
    assert(names.take(i as int) == names);
    Some(formats)
}

// ---------------------------------------------------------------------------
// Bindings
// ---------------------------------------------------------------------------

/// What stands before the name of a format at the end, and that name; everything and nothing
/// where there is none.
pub open spec fn split_format(value: Seq<char>) -> (Seq<char>, Option<Seq<char>>) {
    match cut_at_last(value, ',') {
        Some((rest, name)) => if parsed_format(name) is Ok {
            (rest, Some(name))
        } else {
            (value, None)
        },
        None => (value, None),
    }
}

pub fn split_format_name(value: &str) -> (r: (&str, Option<&str>))
    ensures
        r.0@ == split_format(value@).0,
        r.1.deep_view() == split_format(value@).1,
{
    match rsplit_once(value, ',') {
        Some((rest, name)) => if OutputFormat::parse(name).is_ok() {
            (rest, Some(name))
        } else {
            (value, None)
        },
        None => (value, None),
    }
}

/// A part behind a comma, where it is given.
pub open spec fn comma_part(part: Option<Seq<char>>) -> Seq<char> {
    match part {
        Some(part) => ","@ + part,
        None => seq![],
    }
}

/// `PORT[@BAUD][,DISPLAY][,FORMAT]`.
pub open spec fn input_binding_text(
    port: Seq<char>,
    baud: Option<Seq<char>>,
    display: Option<Seq<char>>,
    format: Option<Seq<char>>,
) -> Seq<char> {
    (match baud {
        Some(baud) => port + "@"@ + baud,
        None => port,
    }) + comma_part(display) + comma_part(format)
}

pub fn format_prompt_io_input_binding(
    port: &str,
    baud: Option<&str>,
    display: Option<&str>,
    format: Option<&str>,
) -> (r: String)
    ensures
        r@ == input_binding_text(
            port@,
            baud.deep_view(),
            display.deep_view(),
            format.deep_view(),
        ),
{
    let mut value = match baud {
        Some(baud) => cat3(port, "@", baud),
        None => port.to_owned(),
    };
    let ghost head = value@;
    if let Some(display) = display {
        value.append(cat2(",", display).as_str());
    }
    assert(value@ =~= head + comma_part(display.deep_view()));
    let ghost middle = value@;
    if let Some(format) = format {
        value.append(cat2(",", format).as_str());
    }
    assert(value@ =~= middle + comma_part(format.deep_view()));
    value
}

pub fn format_io_input_binding(
    port: &str,
    baud: u32,
    display: Option<&str>,
    format: Option<&str>,
) -> (r: String)
    ensures
        r@ == input_binding_text(
            port@,
            Some(decimal(baud as nat)),
            display.deep_view(),
            format.deep_view(),
        ),
{
    let digits = decimal_text(baud as u64);
    format_prompt_io_input_binding(port, Some(digits.as_str()), display, format)
}

/// `PORT[@BAUD][,DISPLAY][,FORMAT][,RATE]`.
pub open spec fn output_binding_text(
    port: Seq<char>,
    baud: Option<Seq<char>>,
    display: Option<Seq<char>>,
    format: Option<Seq<char>>,
    rate: Option<Seq<char>>,
) -> Seq<char> {
    input_binding_text(port, baud, display, format) + comma_part(rate)
}

pub fn format_prompt_io_output_binding(
    port: &str,
    baud: Option<&str>,
    display: Option<&str>,
    format: Option<&str>,
    rate_hz: Option<&str>,
) -> (r: String)
    ensures
        r@ == output_binding_text(
            port@,
            baud.deep_view(),
            display.deep_view(),
            format.deep_view(),
            rate_hz.deep_view(),
        ),
{
    let mut value = format_prompt_io_input_binding(port, baud, display, format);
    let ghost head = value@;
    if let Some(rate_hz) = rate_hz {
        value.append(cat2(",", rate_hz).as_str());
    }
    assert(value@ =~= head + comma_part(rate_hz.deep_view()));
    value
}

/// A binding behind the id of its output, where that is not the port.
pub open spec fn with_id(id: Seq<char>, port: Seq<char>, binding: Seq<char>) -> Seq<char> {
    if id == port {
        binding
    } else {
        id + "="@ + binding
    }
}

pub fn put_id(id: &str, port: &str, binding: String) -> (r: String)
    ensures
        r@ == with_id(id@, port@, binding@),
{
    if same(id, port) {
        binding
    } else {
        cat3(id, "=", binding.as_str())
    }
}

} // verus!

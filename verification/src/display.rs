//! How the bytes of a port are shown, and the settings that say so port by port.
use crate::text::{
    cat2, cat3, cut_at_last, has_prefix, lower, rsplit_once, same, strip_prefix, to_lower, trim,
    trimmed, viewed,
};
use vstd::prelude::*;

verus! {

#[derive(Debug, Clone, Copy, PartialEq, Eq, Structural)]
pub enum PortDisplayMode {
    Hex,
    Ascii,
    Utf8,
    HexAscii,
    HexUtf8,
}

impl DeepView for PortDisplayMode {
    type V = PortDisplayMode;

    open spec fn deep_view(&self) -> PortDisplayMode {
        *self
    }
}

#[derive(Debug, Clone, Copy, PartialEq, Eq, Structural)]
pub enum LineBreakMode {
    Line,
    Packet,
    Wrap,
    Crlf,
}

impl DeepView for LineBreakMode {
    type V = LineBreakMode;

    open spec fn deep_view(&self) -> LineBreakMode {
        *self
    }
}

#[derive(Debug, Clone, Copy, PartialEq, Eq, Structural)]
pub enum PortDisplayStream {
    Input,
    Output,
}

impl DeepView for PortDisplayStream {
    type V = PortDisplayStream;

    open spec fn deep_view(&self) -> PortDisplayStream {
        *self
    }
}

impl LineBreakMode {
    /// The line breaks that an entry holds are shown as they are.
    pub open spec fn keeps_line_breaks(self) -> bool {
        self == LineBreakMode::Crlf
    }

    /// Whether the line breaks that an entry holds are shown as they are.
    pub fn preserve_entry_line_breaks(self) -> (r: bool)
        ensures
            r == self.keeps_line_breaks(),
            r == (self == LineBreakMode::Crlf),
    {
        match self {
            LineBreakMode::Crlf => true,
            _ => false,
        }
    }
}

/// The name of a display mode.
pub open spec fn display_mode_name(mode: PortDisplayMode) -> Seq<char> {
    match mode {
        PortDisplayMode::Hex => "hex"@,
        PortDisplayMode::Ascii => "ascii"@,
        PortDisplayMode::Utf8 => "utf8"@,
        PortDisplayMode::HexAscii => "hex+ascii"@,
        PortDisplayMode::HexUtf8 => "hex+utf8"@,
    }
}

/// The name of a line break mode.
pub open spec fn line_break_name(mode: LineBreakMode) -> Seq<char> {
    match mode {
        LineBreakMode::Line => "line"@,
        LineBreakMode::Packet => "packet"@,
        LineBreakMode::Wrap => "wrap"@,
        LineBreakMode::Crlf => "crlf"@,
    }
}

/// The display mode with the given name.
pub open spec fn display_mode_named(s: Seq<char>) -> Option<PortDisplayMode> {
    if s == "hex"@ {
        Some(PortDisplayMode::Hex)
    } else if s == "ascii"@ {
        Some(PortDisplayMode::Ascii)
    } else if s == "utf8"@ {
        Some(PortDisplayMode::Utf8)
    } else if s == "hex+ascii"@ {
        Some(PortDisplayMode::HexAscii)
    } else if s == "hex+utf8"@ {
        Some(PortDisplayMode::HexUtf8)
    } else {
        None
    }
}

/// The line break mode with the given name.
pub open spec fn line_break_named(s: Seq<char>) -> Option<LineBreakMode> {
    if s == "line"@ {
        Some(LineBreakMode::Line)
    } else if s == "packet"@ {
        Some(LineBreakMode::Packet)
    } else if s == "wrap"@ {
        Some(LineBreakMode::Wrap)
    } else if s == "crlf"@ {
        Some(LineBreakMode::Crlf)
    } else {
        None
    }
}

pub type DisplayValue = (Option<PortDisplayMode>, Option<LineBreakMode>);

/// A display value names a display mode, a line break mode, or the first followed by `+` and
/// the second. White space around it and the case of its letters do not matter.
pub open spec fn display_value(value: Seq<char>) -> Result<DisplayValue, Seq<char>> {
    let s = lower(trimmed(value));
    if display_mode_named(s) is Some {
        Ok((display_mode_named(s), None))
    } else if line_break_named(s) is Some {
        Ok((None, line_break_named(s)))
    } else {
        match cut_at_last(s, '+') {
            Some((mode, line_break)) => if display_mode_named(mode) is Some && line_break_named(
                line_break,
            ) is Some {
                Ok((display_mode_named(mode), line_break_named(line_break)))
            } else {
                Err("unsupported display mode: "@ + value)
            },
            None => Err("unsupported display mode: "@ + value),
        }
    }
}

pub fn parse_display_mode_name(s: &str) -> (r: Option<PortDisplayMode>)
    ensures
        r == display_mode_named(s@),
{
    if same(s, "hex") {
        Some(PortDisplayMode::Hex)
    } else if same(s, "ascii") {
        Some(PortDisplayMode::Ascii)
    } else if same(s, "utf8") {
        Some(PortDisplayMode::Utf8)
    } else if same(s, "hex+ascii") {
        Some(PortDisplayMode::HexAscii)
    } else if same(s, "hex+utf8") {
        Some(PortDisplayMode::HexUtf8)
    } else {
        None
    }
}

pub fn parse_line_break_name(s: &str) -> (r: Option<LineBreakMode>)
    ensures
        r == line_break_named(s@),
{
    if same(s, "line") {
        Some(LineBreakMode::Line)
    } else if same(s, "packet") {
        Some(LineBreakMode::Packet)
    } else if same(s, "wrap") {
        Some(LineBreakMode::Wrap)
    } else if same(s, "crlf") {
        Some(LineBreakMode::Crlf)
    } else {
        None
    }
}

pub fn parse_display_value(value: &str) -> (r: Result<DisplayValue, String>)
    ensures
        viewed(r) == display_value(value@),
{
    let lowered = to_lower(trim(value));
    let s = lowered.as_str();
    let mode = parse_display_mode_name(s);
    if mode.is_some() {
        return Ok((mode, None));
    }
    let line_break = parse_line_break_name(s);
    if line_break.is_some() {
        return Ok((None, line_break));
    }
    if let Some((head, tail)) = rsplit_once(s, '+') {
        let mode = parse_display_mode_name(head);
        let line_break = parse_line_break_name(tail);
        if mode.is_some() && line_break.is_some() {
            return Ok((mode, line_break));
        }
    }
    Err(cat2("unsupported display mode: ", value))
}

// ---------------------------------------------------------------------------
// Settings
// ---------------------------------------------------------------------------

/// What a setting applies to: one stream or both, and a port or `default`.
pub type DisplayTarget = (Option<PortDisplayStream>, Seq<char>);

/// The display settings as two maps.
#[verifier::ext_equal]
pub struct PortDisplayModel {
    pub modes: Map<DisplayTarget, PortDisplayMode>,
    pub line_breaks: Map<DisplayTarget, LineBreakMode>,
}

/// The display settings; later entries win over earlier ones.
#[derive(Debug)]
pub struct PortDisplayConfig {
    modes: Vec<(Option<PortDisplayStream>, String, PortDisplayMode)>,
    line_breaks: Vec<(Option<PortDisplayStream>, String, LineBreakMode)>,
}

/// The map that a list of assignments gives, the last one of each key counting.
pub open spec fn entries_map<T>(entries: Seq<(Option<PortDisplayStream>, String, T)>) -> Map<
    DisplayTarget,
    T,
>
    decreases entries.len(),
{
    if entries.len() == 0 {
        Map::empty()
    } else {
        let last = entries.last();
        entries_map(entries.drop_last()).insert((last.0, last.1@), last.2)
    }
}

proof fn lemma_entries_map_concat<T>(
    a: Seq<(Option<PortDisplayStream>, String, T)>,
    b: Seq<(Option<PortDisplayStream>, String, T)>,
)
    ensures
        entries_map(a + b) == entries_map(a).union_prefer_right(entries_map(b)),
    decreases b.len(),
{
    if b.len() == 0 {
        assert(a + b == a);
        assert(entries_map(a).union_prefer_right(entries_map(b)) == entries_map(a));
    } else {
        assert((a + b).drop_last() == a + b.drop_last());
        lemma_entries_map_concat(a, b.drop_last());
        let last = b.last();
        assert(entries_map(a).union_prefer_right(entries_map(b)) == entries_map(
            a,
        ).union_prefer_right(entries_map(b.drop_last())).insert((last.0, last.1@), last.2));
    }
}

/// The value of the target that applies first: the port on the stream, the port, the default of
/// the stream, the default.
pub open spec fn setting_for<T>(
    map: Map<DisplayTarget, T>,
    stream: PortDisplayStream,
    port: Seq<char>,
) -> Option<T> {
    if map.dom().contains((Some(stream), port)) {
        Some(map[(Some(stream), port)])
    } else if map.dom().contains((None, port)) {
        Some(map[(None, port)])
    } else if map.dom().contains((Some(stream), "default"@)) {
        Some(map[(Some(stream), "default"@)])
    } else if map.dom().contains((None, "default"@)) {
        Some(map[(None, "default"@)])
    } else {
        None
    }
}

fn find_entry<T: Copy>(
    entries: &Vec<(Option<PortDisplayStream>, String, T)>,
    stream: Option<PortDisplayStream>,
    target: &str,
) -> (r: Option<T>)
    ensures
        r == (if entries_map(entries@).dom().contains((stream, target@)) {
            Some(entries_map(entries@)[(stream, target@)])
        } else {
            None
        }),
{
    let mut i: usize = entries.len();
    assert(entries@.take(i as int) == entries@);
    while i > 0
        invariant
            i <= entries.len(),
            entries_map(entries@).dom().contains((stream, target@)) == entries_map(
                entries@.take(i as int),
            ).dom().contains((stream, target@)),
            entries_map(entries@).dom().contains((stream, target@)) ==> entries_map(entries@)[(
                stream,
                target@,
            )] == entries_map(entries@.take(i as int))[(stream, target@)],
        decreases i,
    {
        proof {
            let t = entries@.take(i as int);
            assert(t.drop_last() == entries@.take(i - 1));
            assert(t.last() == entries@[i - 1]);
        }
        let entry = &entries[i - 1];
        if entry.0 == stream && same(entry.1.as_str(), target) {
            return Some(entry.2);
        }
        i -= 1;
    }
    None
}

fn find_setting<T: Copy>(
    entries: &Vec<(Option<PortDisplayStream>, String, T)>,
    stream: PortDisplayStream,
    port: &str,
) -> (r: Option<T>)
    ensures
        r == setting_for(entries_map(entries@), stream, port@),
{
    let found = find_entry(entries, Some(stream), port);
    if found.is_some() {
        return found;
    }
    let found = find_entry(entries, None, port);
    if found.is_some() {
        return found;
    }
    let found = find_entry(entries, Some(stream), "default");
    if found.is_some() {
        return found;
    }
    find_entry(entries, None, "default")
}

impl PortDisplayModel {
    pub open spec fn empty() -> PortDisplayModel {
        PortDisplayModel { modes: Map::empty(), line_breaks: Map::empty() }
    }

    /// These settings, and where `other` says something, that instead.
    pub open spec fn merged(self, other: PortDisplayModel) -> PortDisplayModel {
        PortDisplayModel {
            modes: self.modes.union_prefer_right(other.modes),
            line_breaks: self.line_breaks.union_prefer_right(other.line_breaks),
        }
    }

    pub open spec fn with_mode(
        self,
        stream: Option<PortDisplayStream>,
        target: Seq<char>,
        mode: PortDisplayMode,
    ) -> PortDisplayModel {
        PortDisplayModel { modes: self.modes.insert((stream, target), mode), ..self }
    }

    pub open spec fn with_line_break(
        self,
        stream: Option<PortDisplayStream>,
        target: Seq<char>,
        mode: LineBreakMode,
    ) -> PortDisplayModel {
        PortDisplayModel { line_breaks: self.line_breaks.insert((stream, target), mode), ..self }
    }

    /// These settings with the two parts of a display value set for a target.
    pub open spec fn with_value(
        self,
        stream: Option<PortDisplayStream>,
        target: Seq<char>,
        value: DisplayValue,
    ) -> PortDisplayModel {
        let first = match value.0 {
            Some(mode) => self.with_mode(stream, target, mode),
            None => self,
        };
        match value.1 {
            Some(mode) => first.with_line_break(stream, target, mode),
            None => first,
        }
    }

    pub open spec fn input_override(self, port: Seq<char>) -> Option<PortDisplayMode> {
        setting_for(self.modes, PortDisplayStream::Input, port)
    }

    pub open spec fn output_override(self, port: Seq<char>) -> Option<PortDisplayMode> {
        setting_for(self.modes, PortDisplayStream::Output, port)
    }

    pub open spec fn line_break_override(self, port: Seq<char>) -> Option<LineBreakMode> {
        setting_for(self.line_breaks, PortDisplayStream::Input, port)
    }

    /// The display mode of an input: what is set for it, or hexadecimal with UTF-8.
    pub open spec fn input(self, port: Seq<char>) -> PortDisplayMode {
        match self.input_override(port) {
            Some(mode) => mode,
            None => PortDisplayMode::HexUtf8,
        }
    }

    /// The display mode of an output: what is set for it, or hexadecimal with UTF-8.
    pub open spec fn output(self, port: Seq<char>) -> PortDisplayMode {
        match self.output_override(port) {
            Some(mode) => mode,
            None => PortDisplayMode::HexUtf8,
        }
    }

    /// The line break mode of an input: what is set for it, or line by line.
    pub open spec fn line_break(self, port: Seq<char>) -> LineBreakMode {
        match self.line_break_override(port) {
            Some(mode) => mode,
            None => LineBreakMode::Line,
        }
    }
}

impl DeepView for PortDisplayConfig {
    type V = PortDisplayModel;

    closed spec fn deep_view(&self) -> PortDisplayModel {
        PortDisplayModel {
            modes: entries_map(self.modes@),
            line_breaks: entries_map(self.line_breaks@),
        }
    }
}

impl Default for PortDisplayConfig {
    fn default() -> (config: Self)
        ensures
            config.deep_view() == PortDisplayModel::empty(),
    {
        PortDisplayConfig { modes: Vec::new(), line_breaks: Vec::new() }
    }
}

impl PortDisplayConfig {
    pub fn set_for_stream(
        &mut self,
        stream: Option<PortDisplayStream>,
        target: &str,
        mode: PortDisplayMode,
    )
        ensures
            final(self).deep_view() == old(self).deep_view().with_mode(stream, target@, mode),
    {
        let ghost before = self.modes@;
        self.modes.push((stream, target.to_owned(), mode));
        assert(self.modes@.drop_last() == before);
    }

    pub fn set_line_break_for_stream(
        &mut self,
        stream: Option<PortDisplayStream>,
        target: &str,
        mode: LineBreakMode,
    )
        ensures
            final(self).deep_view() == old(self).deep_view().with_line_break(stream, target@, mode),
    {
        let ghost before = self.line_breaks@;
        self.line_breaks.push((stream, target.to_owned(), mode));
        assert(self.line_breaks@.drop_last() == before);
    }

    /// Sets the two parts of a display value for a target.
    pub fn set_value(
        &mut self,
        stream: Option<PortDisplayStream>,
        target: &str,
        value: DisplayValue,
    )
        ensures
            final(self).deep_view() == old(self).deep_view().with_value(stream, target@, value),
    {
        if let Some(mode) = value.0 {
            self.set_for_stream(stream, target, mode);
        }
        if let Some(mode) = value.1 {
            self.set_line_break_for_stream(stream, target, mode);
        }
    }

    /// Takes the settings of `other` over.
    pub fn merge_from(&mut self, other: PortDisplayConfig)
        ensures
            final(self).deep_view() == old(self).deep_view().merged(other.deep_view()),
    {
        let mut modes = other.modes;
        let mut line_breaks = other.line_breaks;
        proof {
            lemma_entries_map_concat(self.modes@, modes@);
            lemma_entries_map_concat(self.line_breaks@, line_breaks@);
        }
        self.modes.append(&mut modes);
        self.line_breaks.append(&mut line_breaks);
    }

    pub fn resolve_input_override(&self, port: &str) -> (mode: Option<PortDisplayMode>)
        ensures
            mode == self.deep_view().input_override(port@),
    {
        find_setting(&self.modes, PortDisplayStream::Input, port)
    }

    pub fn resolve_output_override(&self, port: &str) -> (mode: Option<PortDisplayMode>)
        ensures
            mode == self.deep_view().output_override(port@),
    {
        find_setting(&self.modes, PortDisplayStream::Output, port)
    }

    pub fn resolve_line_break_input_override(&self, port: &str) -> (mode: Option<LineBreakMode>)
        ensures
            mode == self.deep_view().line_break_override(port@),
    {
        find_setting(&self.line_breaks, PortDisplayStream::Input, port)
    }

    pub fn resolve_input(&self, port: &str) -> (mode: PortDisplayMode)
        ensures
            mode == self.deep_view().input(port@),
    {
        match self.resolve_input_override(port) {
            Some(mode) => mode,
            None => PortDisplayMode::HexUtf8,
        }
    }

    pub fn resolve_output(&self, port: &str) -> (mode: PortDisplayMode)
        ensures
            mode == self.deep_view().output(port@),
    {
        match self.resolve_output_override(port) {
            Some(mode) => mode,
            None => PortDisplayMode::HexUtf8,
        }
    }

    pub fn resolve_line_break_input(&self, port: &str) -> (mode: LineBreakMode)
        ensures
            mode == self.deep_view().line_break(port@),
    {
        match self.resolve_line_break_input_override(port) {
            Some(mode) => mode,
            None => LineBreakMode::Line,
        }
    }
}

// ---------------------------------------------------------------------------
// TARGET=MODE
// ---------------------------------------------------------------------------

/// The stream and the port that a target names: `input:` and `output:` restrict it to a stream.
pub open spec fn display_target(target: Seq<char>) -> DisplayTarget {
    if has_prefix(target, "input:"@) {
        (Some(PortDisplayStream::Input), trimmed(target.skip("input:"@.len() as int)))
    } else if has_prefix(target, "output:"@) {
        (Some(PortDisplayStream::Output), trimmed(target.skip("output:"@.len() as int)))
    } else {
        (None, target)
    }
}

pub open spec fn assignment_error(value: Seq<char>) -> Seq<char> {
    "invalid display setting: "@ + value + " (expected TARGET=MODE)"@
}

/// A target and its display value from `TARGET=MODE`.
pub open spec fn display_assignment(value: Seq<char>) -> Result<
    (DisplayTarget, DisplayValue),
    Seq<char>,
> {
    match cut_at_last(value, '=') {
        None => Err(assignment_error(value)),
        Some((target, mode)) => {
            let t = display_target(trimmed(target));
            if t.1.len() == 0 {
                Err(assignment_error(value))
            } else {
                match display_value(mode) {
                    Ok(v) => Ok((t, v)),
                    Err(e) => Err(e),
                }
            }
        },
    }
}

/// A parsed `TARGET=MODE`.
#[derive(Debug)]
pub struct DisplayAssignment {
    pub stream: Option<PortDisplayStream>,
    pub target: String,
    pub value: DisplayValue,
}

impl DeepView for DisplayAssignment {
    type V = (DisplayTarget, DisplayValue);

    open spec fn deep_view(&self) -> (DisplayTarget, DisplayValue) {
        ((self.stream, self.target@), self.value)
    }
}

impl PortDisplayModel {
    /// These settings with a parsed `TARGET=MODE` applied.
    pub open spec fn assigned(self, a: (DisplayTarget, DisplayValue)) -> PortDisplayModel {
        self.with_value(a.0.0, a.0.1, a.1)
    }
}

impl DisplayAssignment {
    pub fn apply_to(&self, config: &mut PortDisplayConfig)
        ensures
            final(config).deep_view() == old(config).deep_view().assigned(self.deep_view()),
    {
        config.set_value(self.stream, self.target.as_str(), self.value);
    }
}

pub fn parse_display_assignment(value: &str) -> (r: Result<DisplayAssignment, String>)
    ensures
        viewed(r) == display_assignment(value@),
{
    let (target, mode) = match rsplit_once(value, '=') {
        Some(parts) => parts,
        None => {
            return Err(cat3("invalid display setting: ", value, " (expected TARGET=MODE)"));
        },
    };
    let target = trim(target);
    let (stream, target): (Option<PortDisplayStream>, &str) = match strip_prefix(target, "input:") {
        Some(port) => (Some(PortDisplayStream::Input), trim(port)),
        None => match strip_prefix(target, "output:") {
            Some(port) => (Some(PortDisplayStream::Output), trim(port)),
            None => (None, target),
        },
    };
    if target.is_empty() {
        return Err(cat3("invalid display setting: ", value, " (expected TARGET=MODE)"));
    }
    match parse_display_value(mode) {
        Ok(value) => Ok(DisplayAssignment { stream, target: target.to_owned(), value }),
        Err(error) => Err(error),
    }
}

} // verus!

//! `xbee-mock`: one side of the XBee traffic model, on one port or on two.
use crate::args::{
    applied, apply_settings, argument_step, arguments_taken, configured, left_by_config,
    lemma_applied_error, mapped, next_value, parse_port_spec, parse_u32_arg, port_spec,
    setting_step, stepped, stepped_to, take_arguments, u32_arg, with_value, CommandOptions,
    Configurable, KeyValue, KeyValueArg,
};
use crate::format::{format_label, parsed_format, OutputFormat};
use crate::text::{
    begins, begins_with, cat2, cat3, contains_char, cut_at_first, cut_at_last, lower, pieces,
    rsplit_once, same, split, split_once, texts, to_lower, to_upper, trim, trimmed, upper, viewed,
};
use vstd::prelude::*;

verus! {

/// The packets per second of a format for which none are given.
pub const DEFAULT_RATE_HZ: u32 = 100;

// ---------------------------------------------------------------------------
// Frames, modes, roles and ports
// ---------------------------------------------------------------------------

/// What is sent: packets of a format, or the greetings and responses of polling.
#[derive(Debug, Clone, Copy, PartialEq, Eq, Structural)]
pub enum XbeeTestFrameKind {
    Format(OutputFormat),
    PollGreeting,
    PollResponse,
}

impl DeepView for XbeeTestFrameKind {
    type V = XbeeTestFrameKind;

    open spec fn deep_view(&self) -> XbeeTestFrameKind {
        *self
    }
}

pub open spec fn kind_label(kind: XbeeTestFrameKind) -> Seq<char> {
    match kind {
        XbeeTestFrameKind::Format(format) => format_label(format),
        XbeeTestFrameKind::PollGreeting => "PollGreeting"@,
        XbeeTestFrameKind::PollResponse => "PollResponse"@,
    }
}

/// A frame of polling.
pub open spec fn is_poll(kind: XbeeTestFrameKind) -> bool {
    kind is PollGreeting || kind is PollResponse
}

impl XbeeTestFrameKind {
    pub fn display_name(self) -> (name: &'static str)
        ensures
            name@ == kind_label(self),
    {
        match self {
            XbeeTestFrameKind::Format(format) => format.display_name(),
            XbeeTestFrameKind::PollGreeting => "PollGreeting",
            XbeeTestFrameKind::PollResponse => "PollResponse",
        }
    }
}

/// How traffic goes: both sides at their rates, an answer to each packet, or polling.
#[derive(Debug, Clone, Copy, PartialEq, Eq, Structural)]
pub enum XbeeTestMode {
    Flood,
    PingPong,
    Polling,
}

impl DeepView for XbeeTestMode {
    type V = XbeeTestMode;

    open spec fn deep_view(&self) -> XbeeTestMode {
        *self
    }
}

pub open spec fn mode_name(mode: XbeeTestMode) -> Seq<char> {
    match mode {
        XbeeTestMode::Flood => "flood"@,
        XbeeTestMode::PingPong => "ping-pong"@,
        XbeeTestMode::Polling => "polling"@,
    }
}

pub open spec fn mode_named(value: Seq<char>) -> Result<XbeeTestMode, Seq<char>> {
    let name = lower(trimmed(value));
    if name == "flood"@ {
        Ok(XbeeTestMode::Flood)
    } else if name == "ping-pong"@ {
        Ok(XbeeTestMode::PingPong)
    } else if name == "polling"@ {
        Ok(XbeeTestMode::Polling)
    } else {
        Err(
            "unsupported xbee-test mode: "@ + name
                + " (expected `flood`, `ping-pong`, or `polling`)"@,
        )
    }
}

impl XbeeTestMode {
    pub fn parse(value: &str) -> (r: Result<XbeeTestMode, String>)
        ensures
            viewed(r) == mode_named(value@),
    {
        let name = to_lower(trim(value));
        if same(name.as_str(), "flood") {
            Ok(XbeeTestMode::Flood)
        } else if same(name.as_str(), "ping-pong") {
            Ok(XbeeTestMode::PingPong)
        } else if same(name.as_str(), "polling") {
            Ok(XbeeTestMode::Polling)
        } else {
            Err(
                cat3(
                    "unsupported xbee-test mode: ",
                    name.as_str(),
                    " (expected `flood`, `ping-pong`, or `polling`)",
                ),
            )
        }
    }

    pub fn as_str(self) -> (name: &'static str)
        ensures
            name@ == mode_name(self),
    {
        match self {
            XbeeTestMode::Flood => "flood",
            XbeeTestMode::PingPong => "ping-pong",
            XbeeTestMode::Polling => "polling",
        }
    }
}

/// A side of the traffic.
#[derive(Debug, Clone, Copy, PartialEq, Eq, Structural)]
pub enum XbeeMockRole {
    Base,
    Remote,
}

impl DeepView for XbeeMockRole {
    type V = XbeeMockRole;

    open spec fn deep_view(&self) -> XbeeMockRole {
        *self
    }
}

pub open spec fn role_name(role: XbeeMockRole) -> Seq<char> {
    match role {
        XbeeMockRole::Base => "base"@,
        XbeeMockRole::Remote => "remote"@,
    }
}

pub open spec fn role_named(value: Seq<char>) -> Result<XbeeMockRole, Seq<char>> {
    let name = lower(trimmed(value));
    if name == "base"@ {
        Ok(XbeeMockRole::Base)
    } else if name == "remote"@ {
        Ok(XbeeMockRole::Remote)
    } else {
        Err("unsupported xbee-mock role: "@ + name + " (expected `base` or `remote`)"@)
    }
}

impl XbeeMockRole {
    pub fn parse(value: &str) -> (r: Result<XbeeMockRole, String>)
        ensures
            viewed(r) == role_named(value@),
    {
        let name = to_lower(trim(value));
        if same(name.as_str(), "base") {
            Ok(XbeeMockRole::Base)
        } else if same(name.as_str(), "remote") {
            Ok(XbeeMockRole::Remote)
        } else {
            Err(
                cat3(
                    "unsupported xbee-mock role: ",
                    name.as_str(),
                    " (expected `base` or `remote`)",
                ),
            )
        }
    }

    pub fn as_str(self) -> (name: &'static str)
        ensures
            name@ == role_name(self),
    {
        match self {
            XbeeMockRole::Base => "base",
            XbeeMockRole::Remote => "remote",
        }
    }
}

/// The direction of a port.
#[derive(Debug, Clone, Copy, PartialEq, Eq, Structural)]
pub enum XbeeMockPortId {
    Up,
    Down,
}

impl DeepView for XbeeMockPortId {
    type V = XbeeMockPortId;

    open spec fn deep_view(&self) -> XbeeMockPortId {
        *self
    }
}

pub open spec fn port_id_named(value: Seq<char>) -> Result<XbeeMockPortId, Seq<char>> {
    let name = lower(trimmed(value));
    if name == "up"@ {
        Ok(XbeeMockPortId::Up)
    } else if name == "down"@ {
        Ok(XbeeMockPortId::Down)
    } else {
        Err("unsupported xbee-mock port label: "@ + name + " (expected `up` or `down`)"@)
    }
}

impl XbeeMockPortId {
    pub fn parse(value: &str) -> (r: Result<XbeeMockPortId, String>)
        ensures
            viewed(r) == port_id_named(value@),
    {
        let name = to_lower(trim(value));
        if same(name.as_str(), "up") {
            Ok(XbeeMockPortId::Up)
        } else if same(name.as_str(), "down") {
            Ok(XbeeMockPortId::Down)
        } else {
            Err(
                cat3(
                    "unsupported xbee-mock port label: ",
                    name.as_str(),
                    " (expected `up` or `down`)",
                ),
            )
        }
    }
}

// ---------------------------------------------------------------------------
// Bindings and format lists
// ---------------------------------------------------------------------------

#[derive(Debug, PartialEq, Eq)]
pub struct XbeeMockPortBinding {
    pub id: Option<XbeeMockPortId>,
    pub port: String,
    pub baud: Option<u32>,
}

#[verifier::ext_equal]
pub struct MockPortModel {
    pub id: Option<XbeeMockPortId>,
    pub port: Seq<char>,
    pub baud: Option<u32>,
}

impl DeepView for XbeeMockPortBinding {
    type V = MockPortModel;

    open spec fn deep_view(&self) -> MockPortModel {
        MockPortModel { id: self.id, port: self.port@, baud: self.baud }
    }
}

/// `[LABEL=]PORT[@BAUD]`, without a display value.
pub open spec fn mock_port(value: Seq<char>) -> Result<MockPortModel, Seq<char>> {
    let (label, text) = match cut_at_first(value, '=') {
        Some((label, text)) => (Some(port_id_named(label)), text),
        None => (None, value),
    };
    match label {
        Some(Err(e)) => Err(e),
        _ => match port_spec("xbee-mock port"@, text) {
            Err(e) => Err(e),
            Ok(spec) => if spec.display_mode is Some || spec.line_break_mode is Some {
                Err("xbee-mock fixes display to hex packet mode; omit `,DISPLAY` from --port"@)
            } else {
                Ok(
                    MockPortModel {
                        id: match label {
                            Some(Ok(id)) => Some(id),
                            _ => None,
                        },
                        port: spec.port,
                        baud: spec.baud,
                    },
                )
            },
        },
    }
}

pub fn parse_xbee_mock_port_binding(value: &str) -> (r: Result<XbeeMockPortBinding, String>)
    ensures
        viewed(r) == mock_port(value@),
{
    let (id, text): (Option<XbeeMockPortId>, &str) = match split_once(value, '=') {
        Some((label, text)) => (Some(XbeeMockPortId::parse(label)?), text),
        None => (None, value),
    };
    let spec = parse_port_spec("xbee-mock port", text)?;
    if spec.display_mode.is_some() || spec.line_break_mode.is_some() {
        return Err(
            "xbee-mock fixes display to hex packet mode; omit `,DISPLAY` from --port".to_owned(),
        );
    }
    Ok(XbeeMockPortBinding { id, port: spec.port, baud: spec.baud })
}

/// A format to send, with its packets per second.
#[derive(Debug, Clone, Copy, PartialEq, Eq, Structural)]
pub struct XbeeMockTxFormat {
    pub kind: XbeeTestFrameKind,
    pub rate_hz: u32,
}

impl DeepView for XbeeMockTxFormat {
    type V = XbeeMockTxFormat;

    open spec fn deep_view(&self) -> XbeeMockTxFormat {
        *self
    }
}

pub open spec fn frame_kind(value: Seq<char>) -> Result<XbeeTestFrameKind, Seq<char>> {
    let name = lower(trimmed(value));
    if name == "pollgreeting"@ || name == "poll-greeting"@ || name == "poll_greeting"@ {
        Ok(XbeeTestFrameKind::PollGreeting)
    } else if name == "pollresponse"@ || name == "poll-response"@ || name == "poll_response"@ {
        Ok(XbeeTestFrameKind::PollResponse)
    } else {
        mapped(parsed_format(value), |f: OutputFormat| XbeeTestFrameKind::Format(f))
    }
}

pub fn parse_xbee_mock_frame_kind(value: &str) -> (r: Result<XbeeTestFrameKind, String>)
    ensures
        viewed(r) == frame_kind(value@),
{
    let text = to_lower(trim(value));
    let name = text.as_str();
    if same(name, "pollgreeting") || same(name, "poll-greeting") || same(name, "poll_greeting") {
        Ok(XbeeTestFrameKind::PollGreeting)
    } else if same(name, "pollresponse") || same(name, "poll-response") || same(
        name,
        "poll_response",
    ) {
        Ok(XbeeTestFrameKind::PollResponse)
    } else {
        let format = OutputFormat::parse(value)?;
        Ok(XbeeTestFrameKind::Format(format))
    }
}

/// The kinds of formats to send.
pub open spec fn tx_kinds(formats: Seq<XbeeMockTxFormat>) -> Seq<XbeeTestFrameKind> {
    formats.map_values(|f: XbeeMockTxFormat| f.kind)
}

/// The list with one more entry `FORMAT[@RATE]`; a format stands there once, and its rate must
/// not be 0.
pub open spec fn tx_format_added(list: Seq<XbeeMockTxFormat>, piece: Seq<char>) -> Result<
    Seq<XbeeMockTxFormat>,
    Seq<char>,
> {
    let entry = trimmed(piece);
    let (name, rate) = match cut_at_last(entry, '@') {
        Some((name, digits)) => (name, u32_arg("TX_FORMAT rate"@, digits)),
        None => (entry, Ok(DEFAULT_RATE_HZ)),
    };
    if entry.len() == 0 {
        Err("TX_FORMAT must not contain empty entries"@)
    } else {
        match rate {
            Err(e) => Err(e),
            Ok(rate_hz) => if rate_hz == 0 {
                Err("TX_FORMAT rate must be greater than 0"@)
            } else {
                match frame_kind(name) {
                    Err(e) => Err(e),
                    Ok(kind) => if tx_kinds(list).contains(kind) {
                        Err("TX_FORMAT contains duplicate format `"@ + kind_label(kind) + "`"@)
                    } else {
                        Ok(list.push(XbeeMockTxFormat { kind, rate_hz }))
                    },
                }
            },
        }
    }
}

pub open spec fn tx_format_step() -> spec_fn(Seq<XbeeMockTxFormat>, Seq<char>) -> Result<
    Seq<XbeeMockTxFormat>,
    Seq<char>,
> {
    |list: Seq<XbeeMockTxFormat>, piece: Seq<char>| tx_format_added(list, piece)
}

/// The formats of a list `FORMAT[@RATE]+FORMAT[@RATE]`.
pub open spec fn tx_formats(value: Seq<char>) -> Result<Seq<XbeeMockTxFormat>, Seq<char>> {
    applied(tx_format_step(), Seq::empty(), pieces(value, '+'))
}

fn has_tx_kind(list: &Vec<XbeeMockTxFormat>, kind: XbeeTestFrameKind) -> (r: bool)
    ensures
        r == tx_kinds(list@).contains(kind),
{
    let ghost kinds = tx_kinds(list@);
    let mut i: usize = 0;
    while i < list.len()
        invariant
            i <= list.len(),
            kinds == tx_kinds(list@),
            forall|k: int| 0 <= k < i ==> #[trigger] kinds[k] != kind,
        decreases list.len() - i,
    {
        assert(kinds[i as int] == list@[i as int].kind);
        if list[i].kind == kind {
            return true;
        }
        i += 1;
    }
    false
}

fn add_tx_format(list: &mut Vec<XbeeMockTxFormat>, piece: &str) -> (r: Result<(), String>)
    ensures
        match r {
            Ok(()) => tx_format_added(old(list)@, piece@) == Ok::<
                Seq<XbeeMockTxFormat>,
                Seq<char>,
            >(final(list)@),
            Err(e) => tx_format_added(old(list)@, piece@) == Err::<
                Seq<XbeeMockTxFormat>,
                Seq<char>,
            >(e@),
        },
{
    let entry = trim(piece);
    if entry.is_empty() {
        return Err("TX_FORMAT must not contain empty entries".to_owned());
    }
    let (name, rate_hz): (&str, u32) = match rsplit_once(entry, '@') {
        Some((name, digits)) => (name, parse_u32_arg("TX_FORMAT rate", digits)?),
        None => (entry, DEFAULT_RATE_HZ),
    };
    if rate_hz == 0 {
        return Err("TX_FORMAT rate must be greater than 0".to_owned());
    }
    let kind = parse_xbee_mock_frame_kind(name)?;
    if has_tx_kind(list, kind) {
        return Err(cat3("TX_FORMAT contains duplicate format `", kind.display_name(), "`"));
    }
    list.push(XbeeMockTxFormat { kind, rate_hz });
    Ok(())
}

pub fn parse_xbee_mock_tx_format_list(value: &str) -> (r: Result<Vec<XbeeMockTxFormat>, String>)
    ensures
        match r {
            Ok(list) => tx_formats(value@) == Ok::<Seq<XbeeMockTxFormat>, Seq<char>>(list@),
            Err(e) => tx_formats(value@) == Err::<Seq<XbeeMockTxFormat>, Seq<char>>(e@),
        },
{
    let parts = split(value, '+');
    let ghost ps = pieces(value@, '+');
    let mut list: Vec<XbeeMockTxFormat> = Vec::new();
    let mut i: usize = 0;
    assert(ps.take(0) =~= Seq::<Seq<char>>::empty());
    assert(list@ =~= Seq::<XbeeMockTxFormat>::empty());
    while i < parts.len()
        invariant
            i <= parts.len(),
            ps == pieces(value@, '+'),
            parts.deep_view() == ps,
            applied(tx_format_step(), Seq::empty(), ps.take(i as int)) == Ok::<
                Seq<XbeeMockTxFormat>,
                Seq<char>,
            >(list@),
        decreases parts.len() - i,
    {
        proof {
            assert(ps.take(i + 1).drop_last() == ps.take(i as int));
            assert(ps.take(i + 1).last() == parts@[i as int]@);
        }
        if let Err(e) = add_tx_format(&mut list, parts[i]) {
            proof {
                lemma_applied_error(tx_format_step(), Seq::empty(), ps, i + 1, e@);
            }
            return Err(e);
        }
        i += 1;
    }
    assert(ps.take(i as int) == ps);
    Ok(list)
}

/// The list with one more entry; a format stands there once, and without a rate.
pub open spec fn rx_format_added(list: Seq<XbeeTestFrameKind>, piece: Seq<char>) -> Result<
    Seq<XbeeTestFrameKind>,
    Seq<char>,
> {
    let entry = trimmed(piece);
    if entry.len() == 0 {
        Err("RX_FORMAT must not contain empty entries"@)
    } else if entry.contains('@') {
        Err("RX_FORMAT does not accept `@RATE`"@)
    } else {
        match frame_kind(entry) {
            Err(e) => Err(e),
            Ok(kind) => if list.contains(kind) {
                Err("RX_FORMAT contains duplicate format `"@ + kind_label(kind) + "`"@)
            } else {
                Ok(list.push(kind))
            },
        }
    }
}

pub open spec fn rx_format_step() -> spec_fn(Seq<XbeeTestFrameKind>, Seq<char>) -> Result<
    Seq<XbeeTestFrameKind>,
    Seq<char>,
> {
    |list: Seq<XbeeTestFrameKind>, piece: Seq<char>| rx_format_added(list, piece)
}

/// The formats of a list `FORMAT+FORMAT`.
pub open spec fn rx_formats(value: Seq<char>) -> Result<Seq<XbeeTestFrameKind>, Seq<char>> {
    applied(rx_format_step(), Seq::empty(), pieces(value, '+'))
}

pub fn has_kind(list: &Vec<XbeeTestFrameKind>, kind: XbeeTestFrameKind) -> (r: bool)
    ensures
        r == list@.contains(kind),
{
    let mut i: usize = 0;
    while i < list.len()
        invariant
            i <= list.len(),
            forall|k: int| 0 <= k < i ==> #[trigger] list@[k] != kind,
        decreases list.len() - i,
    {
        if list[i] == kind {
            return true;
        }
        i += 1;
    }
    false
}

fn add_rx_format(list: &mut Vec<XbeeTestFrameKind>, piece: &str) -> (r: Result<(), String>)
    ensures
        match r {
            Ok(()) => rx_format_added(old(list)@, piece@) == Ok::<
                Seq<XbeeTestFrameKind>,
                Seq<char>,
            >(final(list)@),
            Err(e) => rx_format_added(old(list)@, piece@) == Err::<
                Seq<XbeeTestFrameKind>,
                Seq<char>,
            >(e@),
        },
{
    let entry = trim(piece);
    if entry.is_empty() {
        return Err("RX_FORMAT must not contain empty entries".to_owned());
    }
    if contains_char(entry, '@') {
        return Err("RX_FORMAT does not accept `@RATE`".to_owned());
    }
    let kind = parse_xbee_mock_frame_kind(entry)?;
    if has_kind(list, kind) {
        return Err(cat3("RX_FORMAT contains duplicate format `", kind.display_name(), "`"));
    }
    list.push(kind);
    Ok(())
}

pub fn parse_xbee_mock_rx_format_list(value: &str) -> (r: Result<Vec<XbeeTestFrameKind>, String>)
    ensures
        match r {
            Ok(list) => rx_formats(value@) == Ok::<Seq<XbeeTestFrameKind>, Seq<char>>(list@),
            Err(e) => rx_formats(value@) == Err::<Seq<XbeeTestFrameKind>, Seq<char>>(e@),
        },
{
    let parts = split(value, '+');
    let ghost ps = pieces(value@, '+');
    let mut list: Vec<XbeeTestFrameKind> = Vec::new();
    let mut i: usize = 0;
    assert(ps.take(0) =~= Seq::<Seq<char>>::empty());
    assert(list@ =~= Seq::<XbeeTestFrameKind>::empty());
    while i < parts.len()
        invariant
            i <= parts.len(),
            ps == pieces(value@, '+'),
            parts.deep_view() == ps,
            applied(rx_format_step(), Seq::empty(), ps.take(i as int)) == Ok::<
                Seq<XbeeTestFrameKind>,
                Seq<char>,
            >(list@),
        decreases parts.len() - i,
    {
        proof {
            assert(ps.take(i + 1).drop_last() == ps.take(i as int));
            assert(ps.take(i + 1).last() == parts@[i as int]@);
        }
        if let Err(e) = add_rx_format(&mut list, parts[i]) {
            proof {
                lemma_applied_error(rx_format_step(), Seq::empty(), ps, i + 1, e@);
            }
            return Err(e);
        }
        i += 1;
    }
    assert(ps.take(i as int) == ps);
    Ok(list)
}

// ---------------------------------------------------------------------------
// Options
// ---------------------------------------------------------------------------

#[derive(Debug)]
pub struct XbeeMockCliOptions {
    pub role: Option<String>,
    pub ports: Vec<XbeeMockPortBinding>,
    pub pair_number: Option<u32>,
    pub tx_formats: Option<Vec<XbeeMockTxFormat>>,
    pub rx_formats: Option<Vec<XbeeTestFrameKind>>,
    pub traffic_pattern: Option<String>,
    pub log_dir: Option<String>,
    pub no_log: bool,
    pub s3b: bool,
}

#[verifier::ext_equal]
pub struct MockOptionsModel {
    pub role: Option<Seq<char>>,
    pub ports: Seq<MockPortModel>,
    pub pair_number: Option<u32>,
    pub tx_formats: Option<Seq<XbeeMockTxFormat>>,
    pub rx_formats: Option<Seq<XbeeTestFrameKind>>,
    pub traffic_pattern: Option<Seq<char>>,
    pub log_dir: Option<Seq<char>>,
    pub no_log: bool,
    pub s3b: bool,
}

impl DeepView for XbeeMockCliOptions {
    type V = MockOptionsModel;

    open spec fn deep_view(&self) -> MockOptionsModel {
        MockOptionsModel {
            role: self.role.deep_view(),
            ports: self.ports.deep_view(),
            pair_number: self.pair_number,
            tx_formats: match self.tx_formats {
                Some(list) => Some(list@),
                None => None,
            },
            rx_formats: match self.rx_formats {
                Some(list) => Some(list@),
                None => None,
            },
            traffic_pattern: self.traffic_pattern.deep_view(),
            log_dir: self.log_dir.deep_view(),
            no_log: self.no_log,
            s3b: self.s3b,
        }
    }
}

impl MockOptionsModel {
    /// Nothing asked for.
    pub open spec fn empty() -> MockOptionsModel {
        MockOptionsModel {
            role: None,
            ports: seq![],
            pair_number: None,
            tx_formats: None,
            rx_formats: None,
            traffic_pattern: None,
            log_dir: None,
            no_log: false,
            s3b: false,
        }
    }
}

impl Default for XbeeMockCliOptions {
    fn default() -> (options: XbeeMockCliOptions)
        ensures
            options.deep_view() == MockOptionsModel::empty(),
    {
        let options = XbeeMockCliOptions {
            role: None,
            ports: Vec::new(),
            pair_number: None,
            tx_formats: None,
            rx_formats: None,
            traffic_pattern: None,
            log_dir: None,
            no_log: false,
            s3b: false,
        };
        assert(options.deep_view() =~= MockOptionsModel::empty());
        options
    }
}

/// The options with one assignment of `--config` applied.
pub open spec fn mock_setting(o: MockOptionsModel, kv: KeyValue) -> Result<
    MockOptionsModel,
    Seq<char>,
> {
    let key = upper(kv.0);
    if key == "ROLE"@ {
        Ok(MockOptionsModel { role: Some(kv.1), ..o })
    } else if key == "PAIR"@ {
        mapped(
            u32_arg("PAIR"@, kv.1),
            |n: u32| MockOptionsModel { pair_number: Some(n), ..o },
        )
    } else if key == "TX_FORMAT"@ {
        mapped(
            tx_formats(kv.1),
            |list: Seq<XbeeMockTxFormat>| MockOptionsModel { tx_formats: Some(list), ..o },
        )
    } else if key == "RX_FORMAT"@ {
        mapped(
            rx_formats(kv.1),
            |list: Seq<XbeeTestFrameKind>| MockOptionsModel { rx_formats: Some(list), ..o },
        )
    } else if key == "TRAFFIC_PATTERN"@ {
        Ok(MockOptionsModel { traffic_pattern: Some(kv.1), ..o })
    } else if key == "LOG_DIR"@ {
        Ok(MockOptionsModel { log_dir: Some(kv.1), ..o })
    } else {
        Err("unknown xbee-mock config key: "@ + key)
    }
}

fn apply_mock_setting(options: &mut XbeeMockCliOptions, kv: &KeyValueArg) -> (r: Result<
    (),
    String,
>)
    ensures
        stepped(r, *final(options)) == mock_setting(old(options).deep_view(), kv.deep_view()),
        r is Err ==> final(options).deep_view() == old(options).deep_view(),
{
    let key_text = to_upper(kv.key.as_str());
    let key = key_text.as_str();
    let value = kv.value.as_str();
    if same(key, "ROLE") {
        options.role = Some(value.to_owned());
    } else if same(key, "PAIR") {
        options.pair_number = Some(parse_u32_arg("PAIR", value)?);
    } else if same(key, "TX_FORMAT") {
        options.tx_formats = Some(parse_xbee_mock_tx_format_list(value)?);
    } else if same(key, "RX_FORMAT") {
        options.rx_formats = Some(parse_xbee_mock_rx_format_list(value)?);
    } else if same(key, "TRAFFIC_PATTERN") {
        options.traffic_pattern = Some(value.to_owned());
    } else if same(key, "LOG_DIR") {
        options.log_dir = Some(value.to_owned());
    } else {
        return Err(cat2("unknown xbee-mock config key: ", key));
    }
    Ok(())
}

impl Configurable for XbeeMockCliOptions {
    open spec fn setting(m: MockOptionsModel, kv: KeyValue) -> Result<
        MockOptionsModel,
        Seq<char>,
    > {
        mock_setting(m, kv)
    }

    fn apply_setting(&mut self, kv: &KeyValueArg) -> (r: Result<(), String>) {
        apply_mock_setting(self, kv)
    }
}

pub fn apply_xbee_mock_config_args(options: &mut XbeeMockCliOptions, value: &str) -> (r: Result<
    (),
    String,
>)
    ensures
        stepped(r, *final(options)) == configured(
            setting_step::<XbeeMockCliOptions>(),
            old(options).deep_view(),
            value@,
        ),
        final(options).deep_view() == left_by_config(
            setting_step::<XbeeMockCliOptions>(),
            old(options).deep_view(),
            value@,
        ),
{
    apply_settings(options, value)
}

/// The options after the argument at `i` and the value that it takes, and the next position. An
/// argument that is no option names the role, once.
pub open spec fn mock_arg(o: MockOptionsModel, args: Seq<Seq<char>>, i: int) -> Result<
    (MockOptionsModel, int),
    Seq<char>,
> {
    let arg = args[i];
    if arg == "--role"@ {
        with_value(
            args,
            i,
            "--role"@,
            |v: Seq<char>|
                Ok::<MockOptionsModel, Seq<char>>(MockOptionsModel { role: Some(v), ..o }),
        )
    } else if arg == "--port"@ || arg == "-p"@ {
        with_value(
            args,
            i,
            "--port"@,
            |v: Seq<char>|
                mapped(
                    mock_port(v),
                    |p: MockPortModel| MockOptionsModel { ports: o.ports.push(p), ..o },
                ),
        )
    } else if arg == "--config"@ || arg == "--option"@ {
        with_value(
            args,
            i,
            arg,
            |v: Seq<char>| configured(setting_step::<XbeeMockCliOptions>(), o, v),
        )
    } else if arg == "--log-dir"@ {
        with_value(
            args,
            i,
            "--log-dir"@,
            |v: Seq<char>|
                Ok::<MockOptionsModel, Seq<char>>(MockOptionsModel { log_dir: Some(v), ..o }),
        )
    } else if arg == "--no-log"@ {
        Ok((MockOptionsModel { no_log: true, ..o }, i + 1))
    } else if arg == "--s3b"@ {
        Ok((MockOptionsModel { s3b: true, ..o }, i + 1))
    } else if begins(arg, '-') {
        Err("unknown option for xbee-mock: "@ + arg)
    } else if o.role is Some {
        Err("unexpected extra argument for xbee-mock: "@ + arg)
    } else {
        Ok((MockOptionsModel { role: Some(arg), ..o }, i + 1))
    }
}

fn take_mock_arg(options: &mut XbeeMockCliOptions, args: &Vec<String>, i: usize) -> (r: Result<
    usize,
    String,
>)
    requires
        i < args.len(),
    ensures
        stepped_to(r, *final(options)) == mock_arg(
            old(options).deep_view(),
            texts(args@),
            i as int,
        ),
        r is Ok ==> i < r->Ok_0 <= args.len(),
{
    let arg = args[i].as_str();
    assert(texts(args@)[i as int] == arg@);
    if same(arg, "--role") {
        let value = next_value(args, i + 1, "--role")?;
        options.role = Some(value.to_owned());
    } else if same(arg, "--port") || same(arg, "-p") {
        let port = parse_xbee_mock_port_binding(next_value(args, i + 1, "--port")?)?;
        let ghost before = options.ports.deep_view();
        let ghost added = port.deep_view();
        options.ports.push(port);
        assert(options.ports.deep_view() =~= before.push(added));
    } else if same(arg, "--config") || same(arg, "--option") {
        apply_xbee_mock_config_args(options, next_value(args, i + 1, arg)?)?;
    } else if same(arg, "--log-dir") {
        let value = next_value(args, i + 1, "--log-dir")?;
        options.log_dir = Some(value.to_owned());
    } else if same(arg, "--no-log") {
        options.no_log = true;
        return Ok(i + 1);
    } else if same(arg, "--s3b") {
        options.s3b = true;
        return Ok(i + 1);
    } else if begins_with(arg, '-') {
        return Err(cat2("unknown option for xbee-mock: ", arg));
    } else {
        if options.role.is_some() {
            return Err(cat2("unexpected extra argument for xbee-mock: ", arg));
        }
        options.role = Some(arg.to_owned());
        return Ok(i + 1);
    }
    Ok(i + 2)
}

impl CommandOptions for XbeeMockCliOptions {
    open spec fn argument(m: MockOptionsModel, args: Seq<Seq<char>>, i: int) -> Result<
        (MockOptionsModel, int),
        Seq<char>,
    > {
        mock_arg(m, args, i)
    }

    fn take_argument(self, args: &Vec<String>, i: usize) -> (r: Result<(Self, usize), String>) {
        let mut options = self;
        let next: usize = take_mock_arg(&mut options, args, i)?;
        Ok((options, next))
    }
}

/// What the arguments ask for.
pub open spec fn mock_args(args: Seq<Seq<char>>) -> Result<MockOptionsModel, Seq<char>> {
    arguments_taken(argument_step::<XbeeMockCliOptions>(), MockOptionsModel::empty(), args, 0)
}

pub fn parse_xbee_mock_args(args: Vec<String>) -> (r: Result<XbeeMockCliOptions, String>)
    ensures
        viewed(r) == mock_args(texts(args@)),
{
    take_arguments(XbeeMockCliOptions::default(), &args)
}

} // verus!

//! `xbee-mock`: the settings of a run, and what each lane of its traffic does.
use crate::args::{applied, default_baud_rate, lemma_applied_error};
use crate::format::OutputFormat;
use crate::io_settings::{log_dir_of, resolve_log_dir};
use crate::ports::{copy_lookup, Lookup};
use crate::text::{cat4, cat5, viewed};
use crate::xbee_mock::{
    is_poll, kind_label, mode_named, role_name, role_named, MockOptionsModel, MockPortModel,
    XbeeMockCliOptions, XbeeMockPortBinding, XbeeMockPortId, XbeeMockRole, XbeeMockTxFormat,
    XbeeTestFrameKind, XbeeTestMode,
};
use vstd::prelude::*;
use vstd::string::*;

verus! {

// ---------------------------------------------------------------------------
// Ports
// ---------------------------------------------------------------------------

#[derive(Debug, PartialEq, Eq)]
pub struct XbeeMockResolvedPortBinding {
    pub port: String,
    pub baud: Option<u32>,
}

#[verifier::ext_equal]
pub struct MockLineModel {
    pub port: Seq<char>,
    pub baud: Option<u32>,
}

impl DeepView for XbeeMockResolvedPortBinding {
    type V = MockLineModel;

    open spec fn deep_view(&self) -> MockLineModel {
        MockLineModel { port: self.port@, baud: self.baud }
    }
}

impl XbeeMockResolvedPortBinding {
    /// A copy of the binding.
    pub fn duplicate(&self) -> (copy: XbeeMockResolvedPortBinding)
        ensures
            copy.deep_view() == self.deep_view(),
    {
        XbeeMockResolvedPortBinding { port: self.port.clone(), baud: self.baud }
    }
}

pub open spec fn mock_line(p: MockPortModel) -> MockLineModel {
    MockLineModel { port: p.port, baud: p.baud }
}

/// The ports for up and down so far.
pub type MockLines = (Option<MockLineModel>, Option<MockLineModel>);

pub open spec fn mock_line_added(lines: MockLines, p: MockPortModel) -> Result<
    MockLines,
    Seq<char>,
> {
    match p.id {
        None => Err(
            "xbee-mock PAIR=2 requires labeled ports: `-p up=PORT -p down=PORT` (optional `@BAUD`, default: 115200)"@,
        ),
        Some(XbeeMockPortId::Up) => if lines.0 is Some {
            Err("xbee-mock received duplicate `up` port"@)
        } else {
            Ok((Some(mock_line(p)), lines.1))
        },
        Some(XbeeMockPortId::Down) => if lines.1 is Some {
            Err("xbee-mock received duplicate `down` port"@)
        } else {
            Ok((lines.0, Some(mock_line(p))))
        },
    }
}

pub open spec fn mock_line_step() -> spec_fn(MockLines, MockPortModel) -> Result<
    MockLines,
    Seq<char>,
> {
    |lines: MockLines, p: MockPortModel| mock_line_added(lines, p)
}

/// The ports for up and down: a single port is both, and of a pair each is labelled.
pub open spec fn mock_ports(pair_number: u32, ports: Seq<MockPortModel>) -> Result<
    (MockLineModel, MockLineModel),
    Seq<char>,
> {
    if ports.len() == 0 {
        Err("xbee-mock requires at least one `-p PORT` (optional `@BAUD`, default: 115200)"@)
    } else if pair_number == 1 {
        if ports.len() != 1 {
            Err(
                "xbee-mock PAIR=1 requires exactly one `-p PORT` (optional `@BAUD`, default: 115200)"@,
            )
        } else {
            Ok((mock_line(ports[0]), mock_line(ports[0])))
        }
    } else {
        match applied(mock_line_step(), (None, None), ports) {
            Err(e) => Err(e),
            Ok((None, _)) => Err(
                "xbee-mock PAIR=2 requires `-p up=PORT` (optional `@BAUD`, default: 115200)"@,
            ),
            Ok((Some(_), None)) => Err(
                "xbee-mock PAIR=2 requires `-p down=PORT` (optional `@BAUD`, default: 115200)"@,
            ),
            Ok((Some(up), Some(down))) => Ok((up, down)),
        }
    }
}

fn add_mock_line(
    up: &mut Option<XbeeMockResolvedPortBinding>,
    down: &mut Option<XbeeMockResolvedPortBinding>,
    binding: &XbeeMockPortBinding,
) -> (r: Result<(), String>)
    ensures
        match r {
            Ok(()) => mock_line_added(
                (old(up).deep_view(), old(down).deep_view()),
                binding.deep_view(),
            ) == Ok::<MockLines, Seq<char>>((final(up).deep_view(), final(down).deep_view())),
            Err(e) => mock_line_added(
                (old(up).deep_view(), old(down).deep_view()),
                binding.deep_view(),
            ) == Err::<MockLines, Seq<char>>(e@),
        },
{
    let line = XbeeMockResolvedPortBinding { port: binding.port.clone(), baud: binding.baud };
    match binding.id {
        None => Err(
            "xbee-mock PAIR=2 requires labeled ports: `-p up=PORT -p down=PORT` (optional `@BAUD`, default: 115200)".to_owned(),
        ),
        Some(XbeeMockPortId::Up) => {
            if up.is_some() {
                return Err("xbee-mock received duplicate `up` port".to_owned());
            }
            *up = Some(line);
            Ok(())
        },
        Some(XbeeMockPortId::Down) => {
            if down.is_some() {
                return Err("xbee-mock received duplicate `down` port".to_owned());
            }
            *down = Some(line);
            Ok(())
        },
    }
}

fn labelled_lines(ports: &Vec<XbeeMockPortBinding>) -> (r: Result<
    (Option<XbeeMockResolvedPortBinding>, Option<XbeeMockResolvedPortBinding>),
    String,
>)
    ensures
        viewed(r) == applied(mock_line_step(), (None, None), ports.deep_view()),
{
    let ghost all = ports.deep_view();
    let ghost start: MockLines = (None, None);
    let mut up: Option<XbeeMockResolvedPortBinding> = None;
    let mut down: Option<XbeeMockResolvedPortBinding> = None;
    let mut i: usize = 0;
    assert(all.take(0) =~= Seq::<MockPortModel>::empty());
    while i < ports.len()
        invariant
            i <= ports.len(),
            all == ports.deep_view(),
            start == (None::<MockLineModel>, None::<MockLineModel>),
            applied(mock_line_step(), start, all.take(i as int)) == Ok::<MockLines, Seq<char>>(
                (up.deep_view(), down.deep_view()),
            ),
        decreases ports.len() - i,
    {
        proof {
            assert(all.take(i + 1).drop_last() == all.take(i as int));
            assert(all.take(i + 1).last() == ports@[i as int].deep_view());
        }
        if let Err(e) = add_mock_line(&mut up, &mut down, &ports[i]) {
            proof {
                lemma_applied_error(mock_line_step(), start, all, i + 1, e@);
            }
            return Err(e);
        }
        i += 1;
    }
    assert(all.take(i as int) == all);
    Ok((up, down))
}

pub fn resolve_xbee_mock_ports(pair_number: u32, ports: Vec<XbeeMockPortBinding>) -> (r: Result<
    (XbeeMockResolvedPortBinding, XbeeMockResolvedPortBinding),
    String,
>)
    ensures
        viewed(r) == mock_ports(pair_number, ports.deep_view()),
{
    assert(ports.deep_view().len() == ports.len());
    if ports.len() == 0 {
        return Err(
            "xbee-mock requires at least one `-p PORT` (optional `@BAUD`, default: 115200)".to_owned(),
        );
    }
    if pair_number == 1 {
        if ports.len() != 1 {
            return Err(
                "xbee-mock PAIR=1 requires exactly one `-p PORT` (optional `@BAUD`, default: 115200)".to_owned(),
            );
        }
        let line = XbeeMockResolvedPortBinding {
            port: ports[0].port.clone(),
            baud: ports[0].baud,
        };
        return Ok((line.duplicate(), line));
    }
    let (up, down) = labelled_lines(&ports)?;
    match (up, down) {
        (None, _) => Err(
            "xbee-mock PAIR=2 requires `-p up=PORT` (optional `@BAUD`, default: 115200)".to_owned(),
        ),
        (Some(_), None) => Err(
            "xbee-mock PAIR=2 requires `-p down=PORT` (optional `@BAUD`, default: 115200)".to_owned(),
        ),
        (Some(up), Some(down)) => Ok((up, down)),
    }
}

// ---------------------------------------------------------------------------
// Which traffic a side may have
// ---------------------------------------------------------------------------

/// What goes up: from the base to the remote side.
pub open spec fn goes_up(kind: XbeeTestFrameKind) -> bool {
    match kind {
        XbeeTestFrameKind::Format(OutputFormat::PacketAcV6) => true,
        XbeeTestFrameKind::Format(OutputFormat::PacketAcV6Usb) => true,
        XbeeTestFrameKind::Format(OutputFormat::PacketMv1) => true,
        XbeeTestFrameKind::Format(OutputFormat::PacketIv1) => true,
        XbeeTestFrameKind::Format(OutputFormat::PacketBv1) => true,
        XbeeTestFrameKind::Format(OutputFormat::RoverUpGeneral) => true,
        XbeeTestFrameKind::PollGreeting => true,
        _ => false,
    }
}

/// What goes down: from the remote side to the base.
pub open spec fn goes_down(kind: XbeeTestFrameKind) -> bool {
    match kind {
        XbeeTestFrameKind::Format(OutputFormat::PacketJfV1) => true,
        XbeeTestFrameKind::Format(OutputFormat::RoverDownGeneral) => true,
        XbeeTestFrameKind::PollResponse => true,
        _ => false,
    }
}

pub open spec fn may_send(role: XbeeMockRole, kind: XbeeTestFrameKind) -> bool {
    match role {
        XbeeMockRole::Base => goes_up(kind),
        XbeeMockRole::Remote => goes_down(kind),
    }
}

pub open spec fn may_receive(role: XbeeMockRole, kind: XbeeTestFrameKind) -> bool {
    match role {
        XbeeMockRole::Base => goes_down(kind),
        XbeeMockRole::Remote => goes_up(kind),
    }
}

fn is_uplink(kind: XbeeTestFrameKind) -> (r: bool)
    ensures
        r == goes_up(kind),
{
    match kind {
        XbeeTestFrameKind::Format(OutputFormat::PacketAcV6) => true,
        XbeeTestFrameKind::Format(OutputFormat::PacketAcV6Usb) => true,
        XbeeTestFrameKind::Format(OutputFormat::PacketMv1) => true,
        XbeeTestFrameKind::Format(OutputFormat::PacketIv1) => true,
        XbeeTestFrameKind::Format(OutputFormat::PacketBv1) => true,
        XbeeTestFrameKind::Format(OutputFormat::RoverUpGeneral) => true,
        XbeeTestFrameKind::PollGreeting => true,
        _ => false,
    }
}

fn is_downlink(kind: XbeeTestFrameKind) -> (r: bool)
    ensures
        r == goes_down(kind),
{
    match kind {
        XbeeTestFrameKind::Format(OutputFormat::PacketJfV1) => true,
        XbeeTestFrameKind::Format(OutputFormat::RoverDownGeneral) => true,
        XbeeTestFrameKind::PollResponse => true,
        _ => false,
    }
}

pub fn xbee_mock_tx_kind_allowed(role: XbeeMockRole, kind: XbeeTestFrameKind) -> (r: bool)
    ensures
        r == may_send(role, kind),
{
    match role {
        XbeeMockRole::Base => is_uplink(kind),
        XbeeMockRole::Remote => is_downlink(kind),
    }
}

pub fn xbee_mock_rx_kind_allowed(role: XbeeMockRole, kind: XbeeTestFrameKind) -> (r: bool)
    ensures
        r == may_receive(role, kind),
{
    match role {
        XbeeMockRole::Base => is_downlink(kind),
        XbeeMockRole::Remote => is_uplink(kind),
    }
}

/// The other side.
pub open spec fn other_side(role: XbeeMockRole) -> XbeeMockRole {
    match role {
        XbeeMockRole::Base => XbeeMockRole::Remote,
        XbeeMockRole::Remote => XbeeMockRole::Base,
    }
}

/// What one side may send the other may receive, and nothing goes both ways.
pub proof fn law_sides_mirror_each_other(role: XbeeMockRole, kind: XbeeTestFrameKind)
    ensures
        may_send(role, kind) == may_receive(other_side(role), kind),
        !(may_send(role, kind) && may_receive(role, kind)),
{
}

pub open spec fn not_sendable(role: XbeeMockRole, kind: XbeeTestFrameKind) -> Seq<char> {
    "xbee-mock role="@ + role_name(role) + " cannot use "@ + kind_label(kind) + " in TX_FORMAT"@
}

pub open spec fn not_receivable(role: XbeeMockRole, kind: XbeeTestFrameKind) -> Seq<char> {
    "xbee-mock role="@ + role_name(role) + " cannot use "@ + kind_label(kind) + " in RX_FORMAT"@
}

/// The first format that a side may not send.
pub open spec fn first_not_sendable(role: XbeeMockRole, formats: Seq<XbeeMockTxFormat>) -> Option<
    XbeeTestFrameKind,
>
    decreases formats.len(),
{
    if formats.len() == 0 {
        None
    } else if !may_send(role, formats[0].kind) {
        Some(formats[0].kind)
    } else {
        first_not_sendable(role, formats.skip(1))
    }
}

/// The first format that a side may not receive.
pub open spec fn first_not_receivable(role: XbeeMockRole, kinds: Seq<XbeeTestFrameKind>) -> Option<
    XbeeTestFrameKind,
>
    decreases kinds.len(),
{
    if kinds.len() == 0 {
        None
    } else if !may_receive(role, kinds[0]) {
        Some(kinds[0])
    } else {
        first_not_receivable(role, kinds.skip(1))
    }
}

/// What a side sends when polling.
pub open spec fn poll_sent(role: XbeeMockRole) -> XbeeTestFrameKind {
    match role {
        XbeeMockRole::Base => XbeeTestFrameKind::PollGreeting,
        XbeeMockRole::Remote => XbeeTestFrameKind::PollResponse,
    }
}

/// Frames of polling are among the formats.
pub open spec fn any_poll(tx: Seq<XbeeMockTxFormat>, rx: Seq<XbeeTestFrameKind>) -> bool {
    (exists|i: int| 0 <= i < tx.len() && is_poll((#[trigger] tx[i]).kind)) || (exists|i: int|
        0 <= i < rx.len() && is_poll(#[trigger] rx[i]))
}

/// The pattern goes with the formats: polling has its two frames and nothing else, and the other
/// patterns have none of them.
pub open spec fn pattern_checked(
    role: XbeeMockRole,
    pattern: XbeeTestMode,
    tx: Seq<XbeeMockTxFormat>,
    rx: Seq<XbeeTestFrameKind>,
) -> Result<(), Seq<char>> {
    if pattern == XbeeTestMode::Polling {
        let sent = poll_sent(role);
        let received = poll_sent(other_side(role));
        if tx.len() != 1 || tx[0].kind != sent {
            Err(
                "xbee-mock TRAFFIC_PATTERN=polling for role="@ + role_name(role)
                    + " requires TX_FORMAT="@ + kind_label(sent),
            )
        } else if rx.len() != 1 || rx[0] != received {
            Err(
                "xbee-mock TRAFFIC_PATTERN=polling for role="@ + role_name(role)
                    + " requires RX_FORMAT="@ + kind_label(received),
            )
        } else {
            Ok(())
        }
    } else if any_poll(tx, rx) {
        Err("PollGreeting/PollResponse require TRAFFIC_PATTERN=polling"@)
    } else {
        Ok(())
    }
}

/// The traffic of a side is in order.
pub open spec fn traffic_checked(
    role: XbeeMockRole,
    pattern: XbeeTestMode,
    tx: Seq<XbeeMockTxFormat>,
    rx: Seq<XbeeTestFrameKind>,
) -> Result<(), Seq<char>> {
    match (first_not_sendable(role, tx), first_not_receivable(role, rx)) {
        (Some(kind), _) => Err(not_sendable(role, kind)),
        (None, Some(kind)) => Err(not_receivable(role, kind)),
        (None, None) => pattern_checked(role, pattern, tx, rx),
    }
}

fn find_not_sendable(role: XbeeMockRole, formats: &Vec<XbeeMockTxFormat>) -> (r: Option<
    XbeeTestFrameKind,
>)
    ensures
        r == first_not_sendable(role, formats@),
{
    let mut i: usize = 0;
    assert(formats@.skip(0) == formats@);
    while i < formats.len()
        invariant
            i <= formats.len(),
            first_not_sendable(role, formats@) == first_not_sendable(
                role,
                formats@.skip(i as int),
            ),
        decreases formats.len() - i,
    {
        assert(formats@.skip(i as int)[0] == formats@[i as int]);
        if !xbee_mock_tx_kind_allowed(role, formats[i].kind) {
            return Some(formats[i].kind);
        }
        assert(formats@.skip(i as int).skip(1) == formats@.skip(i + 1));
        i += 1;
    }
    None
}

fn find_not_receivable(role: XbeeMockRole, kinds: &Vec<XbeeTestFrameKind>) -> (r: Option<
    XbeeTestFrameKind,
>)
    ensures
        r == first_not_receivable(role, kinds@),
{
    let mut i: usize = 0;
    assert(kinds@.skip(0) == kinds@);
    while i < kinds.len()
        invariant
            i <= kinds.len(),
            first_not_receivable(role, kinds@) == first_not_receivable(
                role,
                kinds@.skip(i as int),
            ),
        decreases kinds.len() - i,
    {
        assert(kinds@.skip(i as int)[0] == kinds@[i as int]);
        if !xbee_mock_rx_kind_allowed(role, kinds[i]) {
            return Some(kinds[i]);
        }
        assert(kinds@.skip(i as int).skip(1) == kinds@.skip(i + 1));
        i += 1;
    }
    None
}

fn is_poll_kind(kind: XbeeTestFrameKind) -> (r: bool)
    ensures
        r == is_poll(kind),
{
    match kind {
        XbeeTestFrameKind::Format(_) => false,
        _ => true,
    }
}

fn has_poll(tx: &Vec<XbeeMockTxFormat>, rx: &Vec<XbeeTestFrameKind>) -> (r: bool)
    ensures
        r == any_poll(tx@, rx@),
{
    let mut i: usize = 0;
    while i < tx.len()
        invariant
            i <= tx.len(),
            forall|k: int| 0 <= k < i ==> !is_poll((#[trigger] tx@[k]).kind),
        decreases tx.len() - i,
    {
        if is_poll_kind(tx[i].kind) {
            return true;
        }
        i += 1;
    }
    let mut j: usize = 0;
    while j < rx.len()
        invariant
            j <= rx.len(),
            forall|k: int| 0 <= k < tx.len() ==> !is_poll((#[trigger] tx@[k]).kind),
            forall|k: int| 0 <= k < j ==> !is_poll(#[trigger] rx@[k]),
        decreases rx.len() - j,
    {
        if is_poll_kind(rx[j]) {
            return true;
        }
        j += 1;
    }
    false
}

fn sent_when_polling(role: XbeeMockRole) -> (kind: XbeeTestFrameKind)
    ensures
        kind == poll_sent(role),
{
    match role {
        XbeeMockRole::Base => XbeeTestFrameKind::PollGreeting,
        XbeeMockRole::Remote => XbeeTestFrameKind::PollResponse,
    }
}

fn received_when_polling(role: XbeeMockRole) -> (kind: XbeeTestFrameKind)
    ensures
        kind == poll_sent(other_side(role)),
{
    match role {
        XbeeMockRole::Base => XbeeTestFrameKind::PollResponse,
        XbeeMockRole::Remote => XbeeTestFrameKind::PollGreeting,
    }
}

pub fn validate_xbee_mock_traffic(
    role: XbeeMockRole,
    traffic_pattern: XbeeTestMode,
    tx_formats: &Vec<XbeeMockTxFormat>,
    rx_formats: &Vec<XbeeTestFrameKind>,
) -> (r: Result<(), String>)
    ensures
        viewed(r) == traffic_checked(role, traffic_pattern, tx_formats@, rx_formats@),
{
    if let Some(kind) = find_not_sendable(role, tx_formats) {
        return Err(
            cat5(
                "xbee-mock role=",
                role.as_str(),
                " cannot use ",
                kind.display_name(),
                " in TX_FORMAT",
            ),
        );
    }
    if let Some(kind) = find_not_receivable(role, rx_formats) {
        return Err(
            cat5(
                "xbee-mock role=",
                role.as_str(),
                " cannot use ",
                kind.display_name(),
                " in RX_FORMAT",
            ),
        );
    }
    if traffic_pattern == XbeeTestMode::Polling {
        let sent = sent_when_polling(role);
        let received = received_when_polling(role);
        if tx_formats.len() != 1 || tx_formats[0].kind != sent {
            return Err(
                cat4(
                    "xbee-mock TRAFFIC_PATTERN=polling for role=",
                    role.as_str(),
                    " requires TX_FORMAT=",
                    sent.display_name(),
                ),
            );
        }
        if rx_formats.len() != 1 || rx_formats[0] != received {
            return Err(
                cat4(
                    "xbee-mock TRAFFIC_PATTERN=polling for role=",
                    role.as_str(),
                    " requires RX_FORMAT=",
                    received.display_name(),
                ),
            );
        }
        return Ok(());
    }
    if has_poll(tx_formats, rx_formats) {
        return Err("PollGreeting/PollResponse require TRAFFIC_PATTERN=polling".to_owned());
    }
    Ok(())
}

// ---------------------------------------------------------------------------
// Settings
// ---------------------------------------------------------------------------

#[derive(Debug, PartialEq, Eq)]
pub struct ResolvedXbeeTestPort {
    pub port: String,
    pub baud_rate: u32,
}

#[verifier::ext_equal]
pub struct ResolvedTestPortModel {
    pub port: Seq<char>,
    pub baud_rate: u32,
}

impl DeepView for ResolvedXbeeTestPort {
    type V = ResolvedTestPortModel;

    open spec fn deep_view(&self) -> ResolvedTestPortModel {
        ResolvedTestPortModel { port: self.port@, baud_rate: self.baud_rate }
    }
}

#[derive(Debug)]
pub struct XbeeMockSettings {
    pub role: XbeeMockRole,
    pub pair_number: u32,
    pub uplink_port: ResolvedXbeeTestPort,
    pub downlink_port: ResolvedXbeeTestPort,
    pub tx_formats: Vec<XbeeMockTxFormat>,
    pub rx_formats: Vec<XbeeTestFrameKind>,
    pub traffic_pattern: XbeeTestMode,
    pub log_dir: String,
    pub logging_enabled: bool,
    pub s3b: bool,
}

#[verifier::ext_equal]
pub struct MockSettingsModel {
    pub role: XbeeMockRole,
    pub pair_number: u32,
    pub uplink_port: ResolvedTestPortModel,
    pub downlink_port: ResolvedTestPortModel,
    pub tx_formats: Seq<XbeeMockTxFormat>,
    pub rx_formats: Seq<XbeeTestFrameKind>,
    pub traffic_pattern: XbeeTestMode,
    pub log_dir: Seq<char>,
    pub logging_enabled: bool,
    pub s3b: bool,
}

impl DeepView for XbeeMockSettings {
    type V = MockSettingsModel;

    open spec fn deep_view(&self) -> MockSettingsModel {
        MockSettingsModel {
            role: self.role,
            pair_number: self.pair_number,
            uplink_port: self.uplink_port.deep_view(),
            downlink_port: self.downlink_port.deep_view(),
            tx_formats: self.tx_formats@,
            rx_formats: self.rx_formats@,
            traffic_pattern: self.traffic_pattern,
            log_dir: self.log_dir@,
            logging_enabled: self.logging_enabled,
            s3b: self.s3b,
        }
    }
}

impl MockSettingsModel {
    /// The port that the side sends on: the base sends up, the remote side down.
    pub open spec fn sending_port(self) -> ResolvedTestPortModel {
        match self.role {
            XbeeMockRole::Base => self.uplink_port,
            XbeeMockRole::Remote => self.downlink_port,
        }
    }

    /// The port that the side receives on.
    pub open spec fn receiving_port(self) -> ResolvedTestPortModel {
        match self.role {
            XbeeMockRole::Base => self.downlink_port,
            XbeeMockRole::Remote => self.uplink_port,
        }
    }
}

impl XbeeMockSettings {
    pub fn tx_port(&self) -> (port: &ResolvedXbeeTestPort)
        ensures
            port.deep_view() == self.deep_view().sending_port(),
    {
        match self.role {
            XbeeMockRole::Base => &self.uplink_port,
            XbeeMockRole::Remote => &self.downlink_port,
        }
    }

    pub fn rx_port(&self) -> (port: &ResolvedXbeeTestPort)
        ensures
            port.deep_view() == self.deep_view().receiving_port(),
    {
        match self.role {
            XbeeMockRole::Base => &self.downlink_port,
            XbeeMockRole::Remote => &self.uplink_port,
        }
    }
}

/// The role, the pair and the bindings for up and down.
pub open spec fn mock_lines(o: MockOptionsModel) -> Result<
    (XbeeMockRole, u32, MockLineModel, MockLineModel),
    Seq<char>,
> {
    let pair_number = match o.pair_number {
        Some(n) => n,
        None => 1,
    };
    match o.role {
        None => Err("xbee-mock requires a role: `base` or `remote`"@),
        Some(name) => match role_named(name) {
            Err(e) => Err(e),
            Ok(role) => if pair_number != 1 && pair_number != 2 {
                Err("xbee-mock PAIR must be 1 or 2"@)
            } else {
                match mock_ports(pair_number, o.ports) {
                    Err(e) => Err(e),
                    Ok((up, down)) => Ok((role, pair_number, up, down)),
                }
            },
        },
    }
}

/// What is sent and received, and how.
pub open spec fn mock_traffic(o: MockOptionsModel, role: XbeeMockRole) -> Result<
    (XbeeTestMode, Seq<XbeeMockTxFormat>, Seq<XbeeTestFrameKind>),
    Seq<char>,
> {
    match (match o.traffic_pattern {
        Some(name) => mode_named(name),
        None => Ok(XbeeTestMode::Flood),
    }) {
        Err(e) => Err(e),
        Ok(pattern) => match (o.tx_formats, o.rx_formats) {
            (None, _) => Err("xbee-mock requires TX_FORMAT"@),
            (Some(_), None) => Err("xbee-mock requires RX_FORMAT"@),
            (Some(tx), Some(rx)) => match traffic_checked(role, pattern, tx, rx) {
                Err(e) => Err(e),
                Ok(()) => Ok((pattern, tx, rx)),
            },
        },
    }
}

pub open spec fn mock_resolved(line: MockLineModel, port: Seq<char>) -> ResolvedTestPortModel {
    ResolvedTestPortModel {
        port,
        baud_rate: match line.baud {
            Some(baud) => baud,
            None => 115_200,
        },
    }
}

/// The settings that options give with the ports that were found for up and down.
pub open spec fn mock_settings(
    o: MockOptionsModel,
    up_port: Lookup,
    down_port: Lookup,
    current_dir: Option<Seq<char>>,
) -> Result<MockSettingsModel, Seq<char>> {
    match mock_lines(o) {
        Err(e) => Err(e),
        Ok((role, pair_number, up, down)) => match (up_port, down_port) {
            (Err(e), _) => Err(e),
            (Ok(_), Err(e)) => Err(e),
            (Ok(up_path), Ok(down_path)) => match mock_traffic(o, role) {
                Err(e) => Err(e),
                Ok((traffic_pattern, tx_formats, rx_formats)) => Ok(
                    MockSettingsModel {
                        role,
                        pair_number,
                        uplink_port: mock_resolved(up, up_path),
                        downlink_port: mock_resolved(down, down_path),
                        tx_formats,
                        rx_formats,
                        traffic_pattern,
                        log_dir: log_dir_of(o.log_dir, current_dir),
                        logging_enabled: !o.no_log,
                        s3b: o.s3b,
                    },
                ),
            },
        },
    }
}

fn resolve_line(line: XbeeMockResolvedPortBinding, port: String) -> (r: ResolvedXbeeTestPort)
    ensures
        r.deep_view() == mock_resolved(line.deep_view(), port@),
{
    ResolvedXbeeTestPort {
        port,
        baud_rate: match line.baud {
            Some(baud) => baud,
            None => default_baud_rate(),
        },
    }
}

pub fn build_mock_settings(
    options: XbeeMockCliOptions,
    up_port: &Result<String, String>,
    down_port: &Result<String, String>,
    current_dir: Option<&str>,
) -> (r: Result<XbeeMockSettings, String>)
    ensures
        viewed(r) == mock_settings(
            options.deep_view(),
            viewed(*up_port),
            viewed(*down_port),
            current_dir.deep_view(),
        ),
{
    let role = match &options.role {
        Some(name) => XbeeMockRole::parse(name.as_str())?,
        None => {
            return Err("xbee-mock requires a role: `base` or `remote`".to_owned());
        },
    };
    let pair_number: u32 = match options.pair_number {
        Some(n) => n,
        None => 1,
    };
    if pair_number != 1 && pair_number != 2 {
        return Err("xbee-mock PAIR must be 1 or 2".to_owned());
    }
    let (up, down) = resolve_xbee_mock_ports(pair_number, options.ports)?;
    let uplink_port = resolve_line(up, copy_lookup(up_port)?);
    let downlink_port = resolve_line(down, copy_lookup(down_port)?);
    let traffic_pattern = match &options.traffic_pattern {
        Some(name) => XbeeTestMode::parse(name.as_str())?,
        None => XbeeTestMode::Flood,
    };
    let tx_formats = match options.tx_formats {
        Some(list) => list,
        None => {
            return Err("xbee-mock requires TX_FORMAT".to_owned());
        },
    };
    let rx_formats = match options.rx_formats {
        Some(list) => list,
        None => {
            return Err("xbee-mock requires RX_FORMAT".to_owned());
        },
    };
    validate_xbee_mock_traffic(role, traffic_pattern, &tx_formats, &rx_formats)?;
    let log_dir = resolve_log_dir(&options.log_dir, current_dir);
    Ok(
        XbeeMockSettings {
            role,
            pair_number,
            uplink_port,
            downlink_port,
            tx_formats,
            rx_formats,
            traffic_pattern,
            log_dir,
            logging_enabled: !options.no_log,
            s3b: options.s3b,
        },
    )
}

} // verus!

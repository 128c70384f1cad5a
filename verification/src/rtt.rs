//! `xbee-rtt`: options, settings, what is measured, and the lines that report it.
//!
//! Durations are whole nanoseconds where they are measured and whole microseconds on the wire.
use crate::args::{
    apply_settings, argument_step, arguments_taken, configured, default_baud_rate, left_by_config,
    mapped, next_value, parse_port_spec, parse_u32_arg, parse_usize_arg, port_spec, setting_step,
    stepped, stepped_to, take_arguments, u32_arg, usize_arg, with_value, CommandOptions,
    Configurable, KeyValue, KeyValueArg,
};
use crate::ports::{copy_lookup, lookups, Lookup};
use crate::rtt_wire::{MeasurementSpecWire, MeasurementSummaryWire, MAX_FRAME_PAYLOAD_SIZE};
use crate::text::{cat2, same, texts, to_upper, upper, viewed};
use vstd::prelude::*;
use vstd::string::*;

verus! {

pub const DEFAULT_PROBE_COUNT: u16 = 10;

pub const DEFAULT_PAYLOAD_SIZE: usize = 32;

pub const DEFAULT_INTERVAL_MS: u32 = 100;

pub const DEFAULT_CONNECT_TIMEOUT_MS: u32 = 3_000;

pub const DEFAULT_PROBE_TIMEOUT_MS: u32 = 1_000;

pub const ROUND_ID_FIRST: u8 = 1;

pub const ROUND_ID_SECOND: u8 = 2;

// ---------------------------------------------------------------------------
// Options
// ---------------------------------------------------------------------------

#[derive(Debug, PartialEq, Eq)]
pub struct XbeeRttPortBinding {
    pub port: String,
    pub baud: Option<u32>,
}

#[verifier::ext_equal]
pub struct RttPortModel {
    pub port: Seq<char>,
    pub baud: Option<u32>,
}

impl DeepView for XbeeRttPortBinding {
    type V = RttPortModel;

    open spec fn deep_view(&self) -> RttPortModel {
        RttPortModel { port: self.port@, baud: self.baud }
    }
}

#[derive(Debug)]
pub struct XbeeRttCliOptions {
    pub ports: Vec<XbeeRttPortBinding>,
    pub payload_size: Option<usize>,
    pub probe_count: Option<u32>,
    pub interval_ms: Option<u32>,
    pub connect_timeout_ms: Option<u32>,
    pub probe_timeout_ms: Option<u32>,
    pub show_wire: bool,
    pub show_protocol: bool,
    pub s3b: bool,
}

#[verifier::ext_equal]
pub struct RttOptionsModel {
    pub ports: Seq<RttPortModel>,
    pub payload_size: Option<usize>,
    pub probe_count: Option<u32>,
    pub interval_ms: Option<u32>,
    pub connect_timeout_ms: Option<u32>,
    pub probe_timeout_ms: Option<u32>,
    pub show_wire: bool,
    pub show_protocol: bool,
    pub s3b: bool,
}

impl DeepView for XbeeRttCliOptions {
    type V = RttOptionsModel;

    open spec fn deep_view(&self) -> RttOptionsModel {
        RttOptionsModel {
            ports: self.ports.deep_view(),
            payload_size: self.payload_size,
            probe_count: self.probe_count,
            interval_ms: self.interval_ms,
            connect_timeout_ms: self.connect_timeout_ms,
            probe_timeout_ms: self.probe_timeout_ms,
            show_wire: self.show_wire,
            show_protocol: self.show_protocol,
            s3b: self.s3b,
        }
    }
}

/// No option given.
pub open spec fn rtt_no_options() -> RttOptionsModel {
    RttOptionsModel {
        ports: seq![],
        payload_size: None,
        probe_count: None,
        interval_ms: None,
        connect_timeout_ms: None,
        probe_timeout_ms: None,
        show_wire: false,
        show_protocol: false,
        s3b: false,
    }
}

impl Default for XbeeRttCliOptions {
    fn default() -> (options: XbeeRttCliOptions)
        ensures
            options.deep_view() == rtt_no_options(),
    {
        let options = XbeeRttCliOptions {
            ports: Vec::new(),
            payload_size: None,
            probe_count: None,
            interval_ms: None,
            connect_timeout_ms: None,
            probe_timeout_ms: None,
            show_wire: false,
            show_protocol: false,
            s3b: false,
        };
        assert(options.ports.deep_view() =~= Seq::<RttPortModel>::empty());
        options
    }
}

/// A port without a display value.
pub open spec fn rtt_port(value: Seq<char>) -> Result<RttPortModel, Seq<char>> {
    match port_spec("xbee-rtt port"@, value) {
        Err(e) => Err(e),
        Ok(spec) => if spec.display_mode is Some || spec.line_break_mode is Some {
            Err("xbee-rtt uses a fixed binary protocol; omit `,DISPLAY` from --port"@)
        } else {
            Ok(RttPortModel { port: spec.port, baud: spec.baud })
        },
    }
}

pub fn parse_xbee_rtt_port_binding(value: &str) -> (r: Result<XbeeRttPortBinding, String>)
    ensures
        viewed(r) == rtt_port(value@),
{
    let spec = parse_port_spec("xbee-rtt port", value)?;
    if spec.display_mode.is_some() || spec.line_break_mode.is_some() {
        return Err(
            "xbee-rtt uses a fixed binary protocol; omit `,DISPLAY` from --port".to_owned(),
        );
    }
    Ok(XbeeRttPortBinding { port: spec.port, baud: spec.baud })
}

/// The options with one assignment of `--config` applied.
pub open spec fn rtt_setting(o: RttOptionsModel, kv: KeyValue) -> Result<
    RttOptionsModel,
    Seq<char>,
> {
    let key = upper(kv.0);
    if key == "PAYLOAD_SIZE"@ {
        mapped(
            usize_arg("PAYLOAD_SIZE"@, kv.1),
            |n: usize| RttOptionsModel { payload_size: Some(n), ..o },
        )
    } else if key == "COUNT"@ {
        mapped(
            u32_arg("COUNT"@, kv.1),
            |n: u32| RttOptionsModel { probe_count: Some(n), ..o },
        )
    } else if key == "INTERVAL_MS"@ {
        mapped(
            u32_arg("INTERVAL_MS"@, kv.1),
            |n: u32| RttOptionsModel { interval_ms: Some(n), ..o },
        )
    } else if key == "CONNECT_TIMEOUT_MS"@ {
        mapped(
            u32_arg("CONNECT_TIMEOUT_MS"@, kv.1),
            |n: u32| RttOptionsModel { connect_timeout_ms: Some(n), ..o },
        )
    } else if key == "PROBE_TIMEOUT_MS"@ {
        mapped(
            u32_arg("PROBE_TIMEOUT_MS"@, kv.1),
            |n: u32| RttOptionsModel { probe_timeout_ms: Some(n), ..o },
        )
    } else {
        Err("unknown xbee-rtt config key: "@ + key)
    }
}

fn apply_rtt_setting(options: &mut XbeeRttCliOptions, kv: &KeyValueArg) -> (r: Result<(), String>)
    ensures
        stepped(r, *final(options)) == rtt_setting(old(options).deep_view(), kv.deep_view()),
        r is Err ==> final(options).deep_view() == old(options).deep_view(),
{
    let key_text = to_upper(kv.key.as_str());
    let key = key_text.as_str();
    let value = kv.value.as_str();
    if same(key, "PAYLOAD_SIZE") {
        options.payload_size = Some(parse_usize_arg("PAYLOAD_SIZE", value)?);
    } else if same(key, "COUNT") {
        options.probe_count = Some(parse_u32_arg("COUNT", value)?);
    } else if same(key, "INTERVAL_MS") {
        options.interval_ms = Some(parse_u32_arg("INTERVAL_MS", value)?);
    } else if same(key, "CONNECT_TIMEOUT_MS") {
        options.connect_timeout_ms = Some(parse_u32_arg("CONNECT_TIMEOUT_MS", value)?);
    } else if same(key, "PROBE_TIMEOUT_MS") {
        options.probe_timeout_ms = Some(parse_u32_arg("PROBE_TIMEOUT_MS", value)?);
    } else {
        return Err(cat2("unknown xbee-rtt config key: ", key));
    }
    Ok(())
}

pub fn apply_xbee_rtt_config_args(options: &mut XbeeRttCliOptions, value: &str) -> (r: Result<
    (),
    String,
>)
    ensures
        stepped(r, *final(options)) == configured(
            setting_step::<XbeeRttCliOptions>(),
            old(options).deep_view(),
            value@,
        ),
        final(options).deep_view() == left_by_config(
            setting_step::<XbeeRttCliOptions>(),
            old(options).deep_view(),
            value@,
        ),
{
    apply_settings(options, value)
}

/// The options after the argument at `i` and the value that it takes, and the next position.
pub open spec fn rtt_arg(o: RttOptionsModel, args: Seq<Seq<char>>, i: int) -> Result<
    (RttOptionsModel, int),
    Seq<char>,
> {
    let arg = args[i];
    if arg == "--port"@ || arg == "-p"@ {
        with_value(
            args,
            i,
            "--port"@,
            |v: Seq<char>|
                mapped(
                    rtt_port(v),
                    |port: RttPortModel| RttOptionsModel { ports: o.ports.push(port), ..o },
                ),
        )
    } else if arg == "--config"@ {
        with_value(
            args,
            i,
            "--config"@,
            |v: Seq<char>| configured(setting_step::<XbeeRttCliOptions>(), o, v),
        )
    } else if arg == "--payload-size"@ {
        with_value(
            args,
            i,
            "--payload-size"@,
            |v: Seq<char>|
                mapped(
                    usize_arg("--payload-size"@, v),
                    |n: usize| RttOptionsModel { payload_size: Some(n), ..o },
                ),
        )
    } else if arg == "--count"@ || arg == "-n"@ {
        with_value(
            args,
            i,
            "--count"@,
            |v: Seq<char>|
                mapped(
                    u32_arg("--count"@, v),
                    |n: u32| RttOptionsModel { probe_count: Some(n), ..o },
                ),
        )
    } else if arg == "--interval-ms"@ {
        with_value(
            args,
            i,
            "--interval-ms"@,
            |v: Seq<char>|
                mapped(
                    u32_arg("--interval-ms"@, v),
                    |n: u32| RttOptionsModel { interval_ms: Some(n), ..o },
                ),
        )
    } else if arg == "--connect-timeout-ms"@ {
        with_value(
            args,
            i,
            "--connect-timeout-ms"@,
            |v: Seq<char>|
                mapped(
                    u32_arg("--connect-timeout-ms"@, v),
                    |n: u32| RttOptionsModel { connect_timeout_ms: Some(n), ..o },
                ),
        )
    } else if arg == "--probe-timeout-ms"@ {
        with_value(
            args,
            i,
            "--probe-timeout-ms"@,
            |v: Seq<char>|
                mapped(
                    u32_arg("--probe-timeout-ms"@, v),
                    |n: u32| RttOptionsModel { probe_timeout_ms: Some(n), ..o },
                ),
        )
    } else if arg == "--show-wire"@ {
        Ok((RttOptionsModel { show_wire: true, ..o }, i + 1))
    } else if arg == "--show-protocol"@ {
        Ok((RttOptionsModel { show_protocol: true, ..o }, i + 1))
    } else if arg == "--s3b"@ {
        Ok((RttOptionsModel { s3b: true, ..o }, i + 1))
    } else {
        Err("unknown option for xbee-rtt: "@ + arg)
    }
}

/// What the arguments ask for.
pub open spec fn rtt_args(args: Seq<Seq<char>>) -> Result<RttOptionsModel, Seq<char>> {
    arguments_taken(argument_step::<XbeeRttCliOptions>(), rtt_no_options(), args, 0)
}

fn take_rtt_arg(options: &mut XbeeRttCliOptions, args: &Vec<String>, i: usize) -> (r: Result<
    usize,
    String,
>)
    requires
        i < args.len(),
    ensures
        stepped_to(r, *final(options)) == rtt_arg(old(options).deep_view(), texts(args@), i as int),
        r is Ok ==> i < r->Ok_0 <= args.len(),
{
    let arg = args[i].as_str();
    assert(texts(args@)[i as int] == arg@);
    if same(arg, "--port") || same(arg, "-p") {
        let port = parse_xbee_rtt_port_binding(next_value(args, i + 1, "--port")?)?;
        let ghost before = options.ports.deep_view();
        let ghost added = port.deep_view();
        options.ports.push(port);
        assert(options.ports.deep_view() =~= before.push(added));
    } else if same(arg, "--config") {
        apply_xbee_rtt_config_args(options, next_value(args, i + 1, "--config")?)?;
    } else if same(arg, "--payload-size") {
        let value = next_value(args, i + 1, "--payload-size")?;
        options.payload_size = Some(parse_usize_arg("--payload-size", value)?);
    } else if same(arg, "--count") || same(arg, "-n") {
        let value = next_value(args, i + 1, "--count")?;
        options.probe_count = Some(parse_u32_arg("--count", value)?);
    } else if same(arg, "--interval-ms") {
        let value = next_value(args, i + 1, "--interval-ms")?;
        options.interval_ms = Some(parse_u32_arg("--interval-ms", value)?);
    } else if same(arg, "--connect-timeout-ms") {
        let value = next_value(args, i + 1, "--connect-timeout-ms")?;
        options.connect_timeout_ms = Some(parse_u32_arg("--connect-timeout-ms", value)?);
    } else if same(arg, "--probe-timeout-ms") {
        let value = next_value(args, i + 1, "--probe-timeout-ms")?;
        options.probe_timeout_ms = Some(parse_u32_arg("--probe-timeout-ms", value)?);
    } else if same(arg, "--show-wire") {
        options.show_wire = true;
        return Ok(i + 1);
    } else if same(arg, "--show-protocol") {
        options.show_protocol = true;
        return Ok(i + 1);
    } else if same(arg, "--s3b") {
        options.s3b = true;
        return Ok(i + 1);
    } else {
        return Err(cat2("unknown option for xbee-rtt: ", arg));
    }
    Ok(i + 2)
}

impl Configurable for XbeeRttCliOptions {
    open spec fn setting(m: RttOptionsModel, kv: KeyValue) -> Result<RttOptionsModel, Seq<char>> {
        rtt_setting(m, kv)
    }

    fn apply_setting(&mut self, kv: &KeyValueArg) -> (r: Result<(), String>) {
        apply_rtt_setting(self, kv)
    }
}

impl CommandOptions for XbeeRttCliOptions {
    open spec fn argument(m: RttOptionsModel, args: Seq<Seq<char>>, i: int) -> Result<
        (RttOptionsModel, int),
        Seq<char>,
    > {
        rtt_arg(m, args, i)
    }

    fn take_argument(self, args: &Vec<String>, i: usize) -> (r: Result<(Self, usize), String>) {
        let mut options = self;
        let next: usize = take_rtt_arg(&mut options, args, i)?;
        Ok((options, next))
    }
}

pub fn parse_xbee_rtt_args(args: Vec<String>) -> (r: Result<XbeeRttCliOptions, String>)
    ensures
        viewed(r) == rtt_args(texts(args@)),
{
    take_arguments(XbeeRttCliOptions::default(), &args)
}

// ---------------------------------------------------------------------------
// Settings
// ---------------------------------------------------------------------------

#[derive(Debug, PartialEq, Eq)]
pub struct ResolvedXbeeRttPort {
    pub port: String,
    pub baud_rate: u32,
}

#[verifier::ext_equal]
pub struct ResolvedPortModel {
    pub port: Seq<char>,
    pub baud_rate: u32,
}

impl DeepView for ResolvedXbeeRttPort {
    type V = ResolvedPortModel;

    open spec fn deep_view(&self) -> ResolvedPortModel {
        ResolvedPortModel { port: self.port@, baud_rate: self.baud_rate }
    }
}

impl ResolvedXbeeRttPort {
    /// A copy of the port.
    pub fn duplicate(&self) -> (copy: ResolvedXbeeRttPort)
        ensures
            copy.deep_view() == self.deep_view(),
    {
        ResolvedXbeeRttPort { port: self.port.clone(), baud_rate: self.baud_rate }
    }
}

/// What is traced while measuring.
#[derive(Debug, Clone, Copy, PartialEq, Eq, Structural)]
pub struct TraceSettings {
    pub local_pair: bool,
    pub show_wire: bool,
    pub show_protocol: bool,
}

#[derive(Debug)]
pub struct XbeeRttSettings {
    pub local_ports: Vec<ResolvedXbeeRttPort>,
    pub payload_size: usize,
    pub probe_count: u16,
    pub interval_ms: u32,
    pub connect_timeout_ms: u32,
    pub probe_timeout_ms: u32,
    pub trace: Option<TraceSettings>,
    pub s3b: bool,
}

#[verifier::ext_equal]
pub struct RttSettingsModel {
    pub local_ports: Seq<ResolvedPortModel>,
    pub payload_size: usize,
    pub probe_count: u16,
    pub interval_ms: u32,
    pub connect_timeout_ms: u32,
    pub probe_timeout_ms: u32,
    pub trace: Option<TraceSettings>,
    pub s3b: bool,
}

impl DeepView for XbeeRttSettings {
    type V = RttSettingsModel;

    open spec fn deep_view(&self) -> RttSettingsModel {
        RttSettingsModel {
            local_ports: self.local_ports.deep_view(),
            payload_size: self.payload_size,
            probe_count: self.probe_count,
            interval_ms: self.interval_ms,
            connect_timeout_ms: self.connect_timeout_ms,
            probe_timeout_ms: self.probe_timeout_ms,
            trace: self.trace,
            s3b: self.s3b,
        }
    }
}

/// How many lookups the ports of the options take: one each, and one where none is given.
pub open spec fn rtt_lookup_count(ports: Seq<RttPortModel>) -> nat {
    if ports.len() == 0 {
        1
    } else {
        ports.len()
    }
}

/// The ports with their baud rates, or the message of the first lookup that failed.
pub open spec fn rtt_ports(ports: Seq<RttPortModel>, found: Seq<Lookup>) -> Result<
    Seq<ResolvedPortModel>,
    Seq<char>,
>
    decreases found.len(),
{
    if found.len() == 0 {
        Ok(seq![])
    } else {
        let i = found.len() - 1;
        match rtt_ports(ports, found.drop_last()) {
            Err(e) => Err(e),
            Ok(before) => match found[i] {
                Err(e) => Err(e),
                Ok(port) => Ok(
                    before.push(
                        ResolvedPortModel {
                            port,
                            baud_rate: if i < ports.len() && ports[i].baud is Some {
                                ports[i].baud->0
                            } else {
                                115_200
                            },
                        },
                    ),
                ),
            },
        }
    }
}

proof fn lemma_rtt_ports_error(
    ports: Seq<RttPortModel>,
    found: Seq<Lookup>,
    n: int,
    e: Seq<char>,
)
    requires
        0 <= n <= found.len(),
        rtt_ports(ports, found.take(n)) == Err::<Seq<ResolvedPortModel>, Seq<char>>(e),
    ensures
        rtt_ports(ports, found) == Err::<Seq<ResolvedPortModel>, Seq<char>>(e),
    decreases found.len(),
{
    if n == found.len() {
        assert(found.take(n) == found);
    } else {
        assert(found.drop_last().take(n) == found.take(n));
        lemma_rtt_ports_error(ports, found.drop_last(), n, e);
    }
}

fn resolve_rtt_ports(ports: &Vec<XbeeRttPortBinding>, found: &Vec<Result<String, String>>) -> (r:
    Result<Vec<ResolvedXbeeRttPort>, String>)
    ensures
        viewed(r) == rtt_ports(ports.deep_view(), lookups(found@)),
        r is Ok ==> r->Ok_0.len() == found.len(),
{
    let mut resolved: Vec<ResolvedXbeeRttPort> = Vec::new();
    let ghost all = lookups(found@);
    let ghost ps = ports.deep_view();
    let mut i: usize = 0;
    assert(all.take(0) == Seq::<Lookup>::empty());
    assert(resolved.deep_view() =~= Seq::<ResolvedPortModel>::empty());
    while i < found.len()
        invariant
            i <= found.len(),
            all == lookups(found@),
            ps == ports.deep_view(),
            resolved.len() == i,
            rtt_ports(ps, all.take(i as int)) == Ok::<Seq<ResolvedPortModel>, Seq<char>>(
                resolved.deep_view(),
            ),
        decreases found.len() - i,
    {
        proof {
            assert(all.take(i + 1).drop_last() == all.take(i as int));
            assert(all.take(i + 1).last() == viewed(found@[i as int]));
        }
        let port = match copy_lookup(&found[i]) {
            Ok(port) => port,
            Err(e) => {
                proof {
                    lemma_rtt_ports_error(ps, all, i + 1, e@);
                }
                return Err(e);
            },
        };
        let baud_rate: u32 = if i < ports.len() {
            match ports[i].baud {
                Some(baud) => baud,
                None => default_baud_rate(),
            }
        } else {
            default_baud_rate()
        };
        let ghost before = resolved.deep_view();
        let next = ResolvedXbeeRttPort { port, baud_rate };
        let ghost added = next.deep_view();
        resolved.push(next);
        assert(resolved.deep_view() =~= before.push(added));
        i += 1;
    }
    assert(all.take(i as int) == all);
    Ok(resolved)
}

/// The settings that options and looked-up ports give. Times must not be 0 where the program
/// waits for them, the payload must fit a frame, and a pair takes two different ports.
pub open spec fn rtt_settings(o: RttOptionsModel, found: Seq<Lookup>) -> Result<
    RttSettingsModel,
    Seq<char>,
> {
    let payload_size = match o.payload_size {
        Some(n) => n,
        None => DEFAULT_PAYLOAD_SIZE,
    };
    let probe_count = match o.probe_count {
        Some(n) => n,
        None => DEFAULT_PROBE_COUNT as u32,
    };
    let connect_timeout_ms = match o.connect_timeout_ms {
        Some(n) => n,
        None => DEFAULT_CONNECT_TIMEOUT_MS,
    };
    let probe_timeout_ms = match o.probe_timeout_ms {
        Some(n) => n,
        None => DEFAULT_PROBE_TIMEOUT_MS,
    };
    if o.ports.len() > 2 {
        Err("xbee-rtt accepts at most two `--port PORT[@BAUD]` options"@)
    } else {
        match rtt_ports(o.ports, found) {
            Err(e) => Err(e),
            Ok(ports) => if ports.len() == 2 && ports[0].port == ports[1].port {
                Err("xbee-rtt local-pair mode requires two different ports"@)
            } else if payload_size > MAX_FRAME_PAYLOAD_SIZE {
                Err("--payload-size must be <= 4096"@)
            } else if probe_count == 0 {
                Err("--count must be greater than 0"@)
            } else if probe_count > u16::MAX {
                Err("--count must be <= 65535"@)
            } else if connect_timeout_ms == 0 {
                Err("--connect-timeout-ms must be greater than 0"@)
            } else if probe_timeout_ms == 0 {
                Err("--probe-timeout-ms must be greater than 0"@)
            } else {
                Ok(
                    RttSettingsModel {
                        local_ports: ports,
                        payload_size,
                        probe_count: probe_count as u16,
                        interval_ms: match o.interval_ms {
                            Some(n) => n,
                            None => DEFAULT_INTERVAL_MS,
                        },
                        connect_timeout_ms,
                        probe_timeout_ms,
                        trace: if o.show_wire || o.show_protocol {
                            Some(
                                TraceSettings {
                                    local_pair: ports.len() == 2,
                                    show_wire: o.show_wire,
                                    show_protocol: o.show_protocol,
                                },
                            )
                        } else {
                            None
                        },
                        s3b: o.s3b,
                    },
                )
            },
        }
    }
}

/// Makes the settings. `found` holds the outcome of looking each port of the options up, in
/// order, or of looking for the only port where the options name none.
pub fn build_settings(cli_options: XbeeRttCliOptions, found: Vec<Result<String, String>>) -> (r:
    Result<XbeeRttSettings, String>)
    requires
        found.len() == rtt_lookup_count(cli_options.ports.deep_view()),
    ensures
        viewed(r) == rtt_settings(cli_options.deep_view(), lookups(found@)),
{
    if cli_options.ports.len() > 2 {
        return Err("xbee-rtt accepts at most two `--port PORT[@BAUD]` options".to_owned());
    }
    let local_ports = resolve_rtt_ports(&cli_options.ports, &found)?;
    if local_ports.len() == 2 && same(local_ports[0].port.as_str(), local_ports[1].port.as_str()) {
        assert(local_ports.deep_view()[0].port == local_ports.deep_view()[1].port);
        return Err("xbee-rtt local-pair mode requires two different ports".to_owned());
    }
    let payload_size: usize = cli_options.payload_size.unwrap_or(DEFAULT_PAYLOAD_SIZE);
    if payload_size > MAX_FRAME_PAYLOAD_SIZE {
        return Err("--payload-size must be <= 4096".to_owned());
    }
    let probe_count: u32 = cli_options.probe_count.unwrap_or(DEFAULT_PROBE_COUNT as u32);
    if probe_count == 0 {
        return Err("--count must be greater than 0".to_owned());
    }
    if probe_count > u16::MAX as u32 {
        return Err("--count must be <= 65535".to_owned());
    }
    let interval_ms: u32 = cli_options.interval_ms.unwrap_or(DEFAULT_INTERVAL_MS);
    let connect_timeout_ms: u32 = cli_options.connect_timeout_ms.unwrap_or(
        DEFAULT_CONNECT_TIMEOUT_MS,
    );
    if connect_timeout_ms == 0 {
        return Err("--connect-timeout-ms must be greater than 0".to_owned());
    }
    let probe_timeout_ms: u32 = cli_options.probe_timeout_ms.unwrap_or(DEFAULT_PROBE_TIMEOUT_MS);
    if probe_timeout_ms == 0 {
        return Err("--probe-timeout-ms must be greater than 0".to_owned());
    }
    let trace = if cli_options.show_wire || cli_options.show_protocol {
        Some(
            TraceSettings {
                local_pair: local_ports.len() == 2,
                show_wire: cli_options.show_wire,
                show_protocol: cli_options.show_protocol,
            },
        )
    } else {
        None
    };
    Ok(
        XbeeRttSettings {
            local_ports,
            payload_size,
            probe_count: probe_count as u16,
            interval_ms,
            connect_timeout_ms,
            probe_timeout_ms,
            trace,
            s3b: cli_options.s3b,
        },
    )
}

impl XbeeRttSettings {
    /// What is agreed on with the peer.
    pub open spec fn agreed(&self) -> MeasurementSpecWire {
        MeasurementSpecWire {
            payload_size: (self.payload_size % 65536) as u16,
            probe_count: self.probe_count,
            interval_ms: self.interval_ms,
            probe_timeout_ms: self.probe_timeout_ms,
        }
    }

    /// What is agreed on with the peer.
    pub fn spec(&self) -> (spec: MeasurementSpecWire)
        ensures
            spec == self.agreed(),
            spec == (MeasurementSpecWire {
                payload_size: (self.payload_size % 65536) as u16,
                probe_count: self.probe_count,
                interval_ms: self.interval_ms,
                probe_timeout_ms: self.probe_timeout_ms,
            }),
    {
        MeasurementSpecWire {
            payload_size: (self.payload_size % 65536) as u16,
            probe_count: self.probe_count,
            interval_ms: self.interval_ms,
            probe_timeout_ms: self.probe_timeout_ms,
        }
    }

    /// How long a whole round may take, in milliseconds: for each probe the longer of interval and
    /// time limit, and twice the time limit for connecting.
    pub open spec fn round_limit(&self) -> int {
        (if self.interval_ms > self.probe_timeout_ms {
            self.interval_ms
        } else {
            self.probe_timeout_ms
        }) * self.probe_count + 2 * self.connect_timeout_ms
    }

    pub fn estimated_round_timeout(&self) -> (ms: u64)
        ensures
            ms == self.round_limit(),
    {
        let per_probe: u64 = if self.interval_ms > self.probe_timeout_ms {
            self.interval_ms as u64
        } else {
            self.probe_timeout_ms as u64
        };
        let count: u64 = self.probe_count as u64;
        assert(per_probe * count <= 0xFFFF_FFFF * 0xFFFF) by (nonlinear_arith)
            requires
                per_probe <= 0xFFFF_FFFF,
                count <= 0xFFFF,
        ;
        per_probe * count + 2 * (self.connect_timeout_ms as u64)
    }
}

// ---------------------------------------------------------------------------
// Measuring
// ---------------------------------------------------------------------------

/// The outcome of one measured direction, with round-trip times in nanoseconds.
#[derive(Debug, Clone, Copy, PartialEq, Eq, Structural)]
pub struct MeasurementOutcome {
    pub initiator_nonce: u64,
    pub responder_nonce: u64,
    pub payload_size: usize,
    pub probe_count: u16,
    pub success_count: u16,
    pub timeout_count: u16,
    pub mismatch_count: u16,
    pub average_rtt: Option<u64>,
    pub min_rtt: Option<u64>,
    pub max_rtt: Option<u64>,
}

impl MeasurementOutcome {
    pub open spec fn clean(self) -> bool {
        self.success_count == self.probe_count && self.timeout_count == 0 && self.mismatch_count
            == 0
    }

    /// Whether every probe came back as it was sent.
    pub fn is_clean(&self) -> (r: bool)
        ensures
            r == self.clean(),
    {
        self.success_count == self.probe_count && self.timeout_count == 0 && self.mismatch_count
            == 0
    }
}

/// Collects the outcome of the probes of a round.
#[derive(Debug)]
pub struct MeasurementAccumulator {
    pub initiator_nonce: u64,
    pub responder_nonce: u64,
    pub payload_size: usize,
    pub probe_count: u16,
    pub timeouts: u16,
    pub mismatches: u16,
    pub samples: Vec<u64>,
}

#[verifier::ext_equal]
pub struct TallyModel {
    pub initiator_nonce: u64,
    pub responder_nonce: u64,
    pub payload_size: usize,
    pub probe_count: u16,
    pub timeouts: u16,
    pub mismatches: u16,
    pub samples: Seq<u64>,
}

impl DeepView for MeasurementAccumulator {
    type V = TallyModel;

    open spec fn deep_view(&self) -> TallyModel {
        TallyModel {
            initiator_nonce: self.initiator_nonce,
            responder_nonce: self.responder_nonce,
            payload_size: self.payload_size,
            probe_count: self.probe_count,
            timeouts: self.timeouts,
            mismatches: self.mismatches,
            samples: self.samples@,
        }
    }
}

impl TallyModel {
    pub open spec fn empty(
        initiator_nonce: u64,
        responder_nonce: u64,
        payload_size: usize,
        probe_count: u16,
    ) -> TallyModel {
        TallyModel {
            initiator_nonce,
            responder_nonce,
            payload_size,
            probe_count,
            timeouts: 0,
            mismatches: 0,
            samples: seq![],
        }
    }

    pub open spec fn with_timeout(self) -> TallyModel {
        TallyModel { timeouts: self.timeouts.saturating_add(1), ..self }
    }

    pub open spec fn with_mismatch(self) -> TallyModel {
        TallyModel { mismatches: self.mismatches.saturating_add(1), ..self }
    }

    pub open spec fn with_sample(self, sample: u64) -> TallyModel {
        TallyModel { samples: self.samples.push(sample), ..self }
    }

    /// How many probes are accounted for.
    pub open spec fn recorded(self) -> nat {
        self.samples.len() + self.timeouts as nat + self.mismatches as nat
    }

    /// The outcome of the round.
    pub open spec fn outcome(self) -> MeasurementOutcome {
        MeasurementOutcome {
            initiator_nonce: self.initiator_nonce,
            responder_nonce: self.responder_nonce,
            payload_size: self.payload_size,
            probe_count: self.probe_count,
            success_count: (self.samples.len() % 65536) as u16,
            timeout_count: self.timeouts,
            mismatch_count: self.mismatches,
            average_rtt: if self.samples.len() == 0 {
                None
            } else {
                Some((mean_micros(self.samples) * 1000) as u64)
            },
            min_rtt: least(self.samples),
            max_rtt: greatest(self.samples),
        }
    }
}

/// The samples in whole microseconds, added up.
pub open spec fn total_micros(samples: Seq<u64>) -> nat
    decreases samples.len(),
{
    if samples.len() == 0 {
        0
    } else {
        total_micros(samples.drop_last()) + (samples.last() / 1000) as nat
    }
}

/// The mean of the samples in microseconds, rounded to the nearest.
pub open spec fn mean_micros(samples: Seq<u64>) -> nat {
    (total_micros(samples) + samples.len() / 2) / samples.len()
}

pub open spec fn least(samples: Seq<u64>) -> Option<u64>
    decreases samples.len(),
{
    if samples.len() == 0 {
        None
    } else {
        match least(samples.drop_last()) {
            Some(m) => Some(
                if samples.last() < m {
                    samples.last()
                } else {
                    m
                },
            ),
            None => Some(samples.last()),
        }
    }
}

pub open spec fn greatest(samples: Seq<u64>) -> Option<u64>
    decreases samples.len(),
{
    if samples.len() == 0 {
        None
    } else {
        match greatest(samples.drop_last()) {
            Some(m) => Some(
                if samples.last() > m {
                    samples.last()
                } else {
                    m
                },
            ),
            None => Some(samples.last()),
        }
    }
}

/// The least and the greatest sample bound every sample and are samples.
pub proof fn law_least_and_greatest(samples: Seq<u64>)
    requires
        samples.len() > 0,
    ensures
        least(samples) is Some,
        greatest(samples) is Some,
        samples.contains(least(samples)->0),
        samples.contains(greatest(samples)->0),
        forall|i: int|
            0 <= i < samples.len() ==> least(samples)->0 <= #[trigger] samples[i] <= greatest(
                samples,
            )->0,
    decreases samples.len(),
{
    let init = samples.drop_last();
    let n = samples.len() - 1;
    assert(samples[n] == samples.last());
    if init.len() > 0 {
        law_least_and_greatest(init);
        let i = choose|i: int| 0 <= i < init.len() && init[i] == least(init)->0;
        let j = choose|j: int| 0 <= j < init.len() && init[j] == greatest(init)->0;
        assert(samples[i] == least(init)->0);
        assert(samples[j] == greatest(init)->0);
        assert forall|k: int| 0 <= k < samples.len() implies least(samples)->0
            <= #[trigger] samples[k] <= greatest(samples)->0 by {
            if k < n {
                assert(init[k] == samples[k]);
            }
        }
    } else {
        assert(least(init) is None && greatest(init) is None);
    }
}

proof fn lemma_total_micros_bound(samples: Seq<u64>)
    ensures
        total_micros(samples) <= samples.len() * 18_446_744_073_709_551,
    decreases samples.len(),
{
    if samples.len() > 0 {
        lemma_total_micros_bound(samples.drop_last());
    }
}

proof fn lemma_mean_bound(total: int, n: int, bound: int)
    requires
        n > 0,
        0 <= total <= n * bound,
    ensures
        0 <= (total + n / 2) / n <= bound,
{
    assert((total + n / 2) / n <= bound) by (nonlinear_arith)
        requires
            n > 0,
            0 <= total <= n * bound,
    ;
    assert(0 <= (total + n / 2) / n) by (nonlinear_arith)
        requires
            n > 0,
            0 <= total,
    ;
}

proof fn lemma_total_micros(samples: Seq<u64>, low: int, high: int)
    requires
        forall|i: int| 0 <= i < samples.len() ==> low <= #[trigger] samples[i] / 1000 <= high,
    ensures
        samples.len() * low <= total_micros(samples) <= samples.len() * high,
        total_micros(samples) == samples.fold_left(0int, |sum: int, s: u64| sum + s / 1000),
    decreases samples.len(),
{
    if samples.len() > 0 {
        let init = samples.drop_last();
        let n = init.len() as int;
        assert forall|i: int| 0 <= i < init.len() implies low <= #[trigger] init[i] / 1000
            <= high by {
            assert(init[i] == samples[i]);
        }
        lemma_total_micros(init, low, high);
        assert(low <= samples[n] / 1000 <= high);
        assert((n + 1) * low == n * low + low) by (nonlinear_arith);
        assert((n + 1) * high == n * high + high) by (nonlinear_arith);
    }
}

proof fn lemma_mean_is_nearest(total: int, n: int, low: int, mean: int)
    requires
        n > 0,
        0 <= low,
        n * low <= total,
        mean == (total + n / 2) / n,
    ensures
        low <= mean,
        -n <= 2 * (mean * n - total) <= n,
{
    let up = total + n / 2;
    assert(mean * n <= up < mean * n + n) by (nonlinear_arith)
        requires
            n > 0,
            mean == up / n,
    ;
    assert(low <= mean) by (nonlinear_arith)
        requires
            n > 0,
            n * low <= total,
            total <= up,
            up < mean * n + n,
    ;
}

/// The average of a round is a whole number of microseconds between its least and its greatest
/// sample. Times the number of samples it differs from the sum of the samples by at most half
/// that number.
pub proof fn law_average_is_nearest(t: TallyModel)
    requires
        t.samples.len() > 0,
    ensures
        t.outcome().average_rtt is Some,
        t.outcome().average_rtt->0 % 1000 == 0,
        exists|i: int, j: int|
            0 <= i < t.samples.len() && 0 <= j < t.samples.len() && (#[trigger] t.samples[i]) / 1000
                <= t.outcome().average_rtt->0 / 1000 <= (#[trigger] t.samples[j]) / 1000,
        t.outcome().min_rtt->0 / 1000 <= t.outcome().average_rtt->0 / 1000
            <= t.outcome().max_rtt->0 / 1000,
        ({
            let n = t.samples.len() as int;
            let sum = t.samples.fold_left(0int, |sum: int, s: u64| sum + s / 1000);
            -n <= 2 * (t.outcome().average_rtt->0 / 1000 * n - sum) <= n
        }),
{
    let n = t.samples.len() as int;
    law_least_and_greatest(t.samples);
    let least = least(t.samples)->0;
    let greatest = greatest(t.samples)->0;
    let low = (least / 1000) as int;
    let high = (greatest / 1000) as int;
    lemma_total_micros(t.samples, low, high);
    let total = total_micros(t.samples) as int;
    let mean = mean_micros(t.samples) as int;
    lemma_mean_bound(total, n, high);
    lemma_mean_is_nearest(total, n, low, mean);
    assert(t.outcome().average_rtt->0 == mean * 1000);
    let i = choose|i: int| 0 <= i < t.samples.len() && t.samples[i] == least;
    let j = choose|j: int| 0 <= j < t.samples.len() && t.samples[j] == greatest;
    assert(t.samples[i] / 1000 <= mean <= t.samples[j] / 1000);
}

/// Samples that all have the same whole number of microseconds have that as their average.
pub proof fn law_average_of_equal_samples(t: TallyModel, micros: u64)
    requires
        t.samples.len() > 0,
        forall|i: int| 0 <= i < t.samples.len() ==> (#[trigger] t.samples[i]) / 1000 == micros,
    ensures
        t.outcome().average_rtt == Some((micros * 1000) as u64),
{
    law_average_is_nearest(t);
    let (i, j) = choose|i: int, j: int|
        0 <= i < t.samples.len() && 0 <= j < t.samples.len() && (#[trigger] t.samples[i]) / 1000
            <= t.outcome().average_rtt->0 / 1000 <= (#[trigger] t.samples[j]) / 1000;
    assert(t.samples[i] / 1000 == micros && t.samples[j] / 1000 == micros);
}

/// The outcome of a round bounds every sample from both sides by samples, counts each of them
/// and each loss, and keeps what the round was about. Without a sample there are no times.
pub proof fn law_outcome_counts(t: TallyModel, sample: u64)
    requires
        t.samples.len() < 65535,
        t.timeouts < 65535,
        t.mismatches < 65535,
    ensures
        t.outcome().success_count == t.samples.len(),
        t.outcome().initiator_nonce == t.initiator_nonce,
        t.outcome().responder_nonce == t.responder_nonce,
        t.outcome().payload_size == t.payload_size,
        t.outcome().probe_count == t.probe_count,
        t.samples.len() == 0 ==> t.outcome().min_rtt is None && t.outcome().max_rtt is None
            && t.outcome().average_rtt is None,
        t.samples.len() > 0 ==> {
            let o = t.outcome();
            &&& t.samples.contains(o.min_rtt->0)
            &&& t.samples.contains(o.max_rtt->0)
            &&& forall|i: int|
                0 <= i < t.samples.len() ==> o.min_rtt->0 <= #[trigger] t.samples[i]
                    <= o.max_rtt->0
        },
        t.with_sample(sample).outcome().success_count == t.outcome().success_count + 1,
        t.with_sample(sample).outcome().timeout_count == t.outcome().timeout_count,
        t.with_sample(sample).outcome().mismatch_count == t.outcome().mismatch_count,
        t.with_sample(sample).outcome().min_rtt->0 <= sample,
        t.with_sample(sample).outcome().max_rtt->0 >= sample,
        t.with_timeout().outcome() == (MeasurementOutcome {
            timeout_count: (t.outcome().timeout_count + 1) as u16,
            ..t.outcome()
        }),
        t.with_mismatch().outcome() == (MeasurementOutcome {
            mismatch_count: (t.outcome().mismatch_count + 1) as u16,
            ..t.outcome()
        }),
{
    if t.samples.len() > 0 {
        law_least_and_greatest(t.samples);
    }
    law_least_and_greatest(t.with_sample(sample).samples);
    assert(t.with_sample(sample).samples[t.samples.len() as int] == sample);
}

impl MeasurementAccumulator {
    pub fn new(
        initiator_nonce: u64,
        responder_nonce: u64,
        payload_size: usize,
        probe_count: u16,
    ) -> (a: MeasurementAccumulator)
        ensures
            a.deep_view() == TallyModel::empty(
                initiator_nonce,
                responder_nonce,
                payload_size,
                probe_count,
            ),
    {
        let a = MeasurementAccumulator {
            initiator_nonce,
            responder_nonce,
            payload_size,
            probe_count,
            timeouts: 0,
            mismatches: 0,
            samples: Vec::new(),
        };
        assert(a.samples@ =~= Seq::<u64>::empty());
        a
    }

    pub fn record_timeout(&mut self)
        ensures
            final(self).deep_view() == old(self).deep_view().with_timeout(),
    {
        self.timeouts = self.timeouts.saturating_add(1);
    }

    pub fn record_mismatch(&mut self)
        ensures
            final(self).deep_view() == old(self).deep_view().with_mismatch(),
    {
        self.mismatches = self.mismatches.saturating_add(1);
    }

    pub fn record_success(&mut self, sample: u64)
        ensures
            final(self).deep_view() == old(self).deep_view().with_sample(sample),
    {
        self.samples.push(sample);
    }

    /// The outcome of the round.
    pub fn finish(self) -> (outcome: MeasurementOutcome)
        ensures
            outcome == self.deep_view().outcome(),
    {
        self.outcome()
    }

    /// The outcome so far.
    pub fn outcome(&self) -> (outcome: MeasurementOutcome)
        ensures
            outcome == self.deep_view().outcome(),
            self.samples@.len() > 0 ==> mean_micros(self.samples@) * 1000 <= u64::MAX,
    {
        let ghost all = self.samples@;
        let n: usize = self.samples.len();
        let mut total: u128 = 0;
        let mut min_rtt: Option<u64> = None;
        let mut max_rtt: Option<u64> = None;
        let mut i: usize = 0;
        assert(all.take(0) == Seq::<u64>::empty());
        while i < n
            invariant
                i <= n,
                n == self.samples.len(),
                all == self.samples@,
                total == total_micros(all.take(i as int)),
                total <= i * 18_446_744_073_709_551,
                min_rtt == least(all.take(i as int)),
                max_rtt == greatest(all.take(i as int)),
            decreases n - i,
        {
            let sample: u64 = self.samples[i];
            proof {
                assert(all.take(i + 1).drop_last() == all.take(i as int));
                assert(all.take(i + 1).last() == sample);
            }
            total = total + (sample / 1000) as u128;
            min_rtt = match min_rtt {
                Some(m) => Some(
                    if sample < m {
                        sample
                    } else {
                        m
                    },
                ),
                None => Some(sample),
            };
            max_rtt = match max_rtt {
                Some(m) => Some(
                    if sample > m {
                        sample
                    } else {
                        m
                    },
                ),
                None => Some(sample),
            };
            i += 1;
        }
        assert(all.take(n as int) == all);
        let average_rtt: Option<u64> = if n == 0 {
            None
        } else {
            let count: u128 = n as u128;
            proof {
                lemma_mean_bound(total as int, n as int, 18_446_744_073_709_551);
            }
            let mean: u128 = (total + count / 2) / count;
            Some((mean as u64) * 1000)
        };
        MeasurementOutcome {
            initiator_nonce: self.initiator_nonce,
            responder_nonce: self.responder_nonce,
            payload_size: self.payload_size,
            probe_count: self.probe_count,
            success_count: (n % 65536) as u16,
            timeout_count: self.timeouts,
            mismatch_count: self.mismatches,
            average_rtt,
            min_rtt,
            max_rtt,
        }
    }
}

/// A round-trip time in whole microseconds, at most what 32 bits hold; 0 for none.
pub open spec fn rtt_micros(value: Option<u64>) -> u32 {
    match value {
        Some(ns) => if ns / 1000 > u32::MAX {
            u32::MAX
        } else {
            (ns / 1000) as u32
        },
        None => 0,
    }
}

pub fn duration_to_micros_u32(value: Option<u64>) -> (r: u32)
    ensures
        r == rtt_micros(value),
{
    match value {
        Some(ns) => if ns / 1000 > u32::MAX as u64 {
            u32::MAX
        } else {
            (ns / 1000) as u32
        },
        None => 0,
    }
}

/// The round-trip time that a number of microseconds stands for; none for 0.
pub open spec fn rtt_of_micros(value: u32) -> Option<u64> {
    if value == 0 {
        None
    } else {
        Some((value * 1000) as u64)
    }
}

pub fn micros_to_duration(value: u32) -> (r: Option<u64>)
    ensures
        r == rtt_of_micros(value),
{
    if value == 0 {
        None
    } else {
        Some((value as u64) * 1000)
    }
}

/// What is sent of an outcome.
pub open spec fn summary_of(o: MeasurementOutcome) -> MeasurementSummaryWire {
    MeasurementSummaryWire {
        probe_count: o.probe_count,
        success_count: o.success_count,
        timeout_count: o.timeout_count,
        mismatch_count: o.mismatch_count,
        payload_size: (o.payload_size % 65536) as u16,
        mean_rtt_us: rtt_micros(o.average_rtt),
        min_rtt_us: rtt_micros(o.min_rtt),
        max_rtt_us: rtt_micros(o.max_rtt),
    }
}

/// The outcome that a received summary stands for.
pub open spec fn outcome_of(
    s: MeasurementSummaryWire,
    initiator_nonce: u64,
    responder_nonce: u64,
) -> MeasurementOutcome {
    MeasurementOutcome {
        initiator_nonce,
        responder_nonce,
        payload_size: s.payload_size as usize,
        probe_count: s.probe_count,
        success_count: s.success_count,
        timeout_count: s.timeout_count,
        mismatch_count: s.mismatch_count,
        average_rtt: rtt_of_micros(s.mean_rtt_us),
        min_rtt: rtt_of_micros(s.min_rtt_us),
        max_rtt: rtt_of_micros(s.max_rtt_us),
    }
}

/// Sending a received outcome on gives the same summary again.
pub proof fn law_summary_of_outcome(s: MeasurementSummaryWire, initiator: u64, responder: u64)
    ensures
        summary_of(outcome_of(s, initiator, responder)) == s,
{
}

impl MeasurementSummaryWire {
    pub fn from_outcome(outcome: &MeasurementOutcome) -> (summary: MeasurementSummaryWire)
        ensures
            summary == summary_of(*outcome),
    {
        MeasurementSummaryWire {
            probe_count: outcome.probe_count,
            success_count: outcome.success_count,
            timeout_count: outcome.timeout_count,
            mismatch_count: outcome.mismatch_count,
            payload_size: (outcome.payload_size % 65536) as u16,
            mean_rtt_us: duration_to_micros_u32(outcome.average_rtt),
            min_rtt_us: duration_to_micros_u32(outcome.min_rtt),
            max_rtt_us: duration_to_micros_u32(outcome.max_rtt),
        }
    }
}

pub fn summary_to_outcome(
    summary: MeasurementSummaryWire,
    initiator_nonce: u64,
    responder_nonce: u64,
) -> (outcome: MeasurementOutcome)
    ensures
        outcome == outcome_of(summary, initiator_nonce, responder_nonce),
{
    MeasurementOutcome {
        initiator_nonce,
        responder_nonce,
        payload_size: summary.payload_size as usize,
        probe_count: summary.probe_count,
        success_count: summary.success_count,
        timeout_count: summary.timeout_count,
        mismatch_count: summary.mismatch_count,
        average_rtt: micros_to_duration(summary.mean_rtt_us),
        min_rtt: micros_to_duration(summary.min_rtt_us),
        max_rtt: micros_to_duration(summary.max_rtt_us),
    }
}

// ---------------------------------------------------------------------------
// Probes, nonces and sessions
// ---------------------------------------------------------------------------

/// One step of the generator of probe payloads.
pub open spec fn scrambled(state: u64) -> u64 {
    let a = state ^ (state >> 12);
    let b = a ^ (a << 25);
    let c = b ^ (b >> 27);
    c.wrapping_mul(0x2545_F491_4F6C_DD1D)
}

pub fn scramble(state: u64) -> (r: u64)
    ensures
        r == scrambled(state),
{
    let a: u64 = state ^ (state >> 12);
    let b: u64 = a ^ (a << 25);
    let c: u64 = b ^ (b >> 27);
    c.wrapping_mul(0x2545_F491_4F6C_DD1D)
}

/// The state of the generator after `n` steps.
pub open spec fn probe_state(session_id: u32, round_id: u8, seq: u16, n: nat) -> u64
    decreases n,
{
    if n == 0 {
        ((session_id as u64) << 16) ^ ((round_id as u64) << 8) ^ (seq as u64)
            ^ 0x9E37_79B9_7F4A_7C15
    } else {
        scrambled(probe_state(session_id, round_id, seq, (n - 1) as nat))
    }
}

/// The payload of a probe: from each state its lowest byte, mixed with the position.
pub open spec fn probe_payload(session_id: u32, round_id: u8, seq: u16, size: nat) -> Seq<u8> {
    Seq::new(
        size,
        |i: int|
            (probe_state(session_id, round_id, seq, (i + 1) as nat) as u8) ^ ((i % 256) as u8),
    )
}

pub fn build_probe_payload(session_id: u32, round_id: u8, seq: u16, payload_size: usize) -> (payload:
    Vec<u8>)
    ensures
        payload@ == probe_payload(session_id, round_id, seq, payload_size as nat),
{
    let mut state: u64 = ((session_id as u64) << 16) ^ ((round_id as u64) << 8) ^ (seq as u64)
        ^ 0x9E37_79B9_7F4A_7C15;
    let mut payload: Vec<u8> = Vec::new();
    let mut index: usize = 0;
    while index < payload_size
        invariant
            index <= payload_size,
            state == probe_state(session_id, round_id, seq, index as nat),
            payload@ == probe_payload(session_id, round_id, seq, index as nat),
        decreases payload_size - index,
    {
        state = scramble(state);
        let low: u8 = state as u8;
        let position: u8 = (index % 256) as u8;
        payload.push(low ^ position);
        index += 1;
        assert(payload@ =~= probe_payload(session_id, round_id, seq, index as nat));
    }
    payload
}

pub fn first_initiator_nonce(local_nonce: u64, peer_nonce: u64) -> (r: Result<u64, String>)
    ensures
        viewed(r) == first_initiator(local_nonce, peer_nonce),
{
    if local_nonce == peer_nonce {
        return Err(
            "xbee-rtt nonce collision detected; rerun the command on both peers".to_owned(),
        );
    }
    if local_nonce < peer_nonce {
        Ok(local_nonce)
    } else {
        Ok(peer_nonce)
    }
}

/// The lower nonce measures first.
pub open spec fn first_initiator(local_nonce: u64, peer_nonce: u64) -> Result<u64, Seq<char>> {
    if local_nonce == peer_nonce {
        Err("xbee-rtt nonce collision detected; rerun the command on both peers"@)
    } else {
        Ok(
            if local_nonce < peer_nonce {
                local_nonce
            } else {
                peer_nonce
            },
        )
    }
}

pub open spec fn other_of(first_nonce: u64, local_nonce: u64, peer_nonce: u64) -> u64 {
    if first_nonce == local_nonce {
        peer_nonce
    } else {
        local_nonce
    }
}

pub fn other_nonce(first_nonce: u64, local_nonce: u64, peer_nonce: u64) -> (r: u64)
    ensures
        r == other_of(first_nonce, local_nonce, peer_nonce),
{
    if first_nonce == local_nonce {
        peer_nonce
    } else {
        local_nonce
    }
}

pub fn round_initiator_nonce(
    first_initiator_nonce: u64,
    second_initiator_nonce: u64,
    round_id: u8,
) -> (r: u64)
    requires
        round_id == ROUND_ID_FIRST || round_id == ROUND_ID_SECOND,
    ensures
        r == (if round_id == ROUND_ID_FIRST {
            first_initiator_nonce
        } else {
            second_initiator_nonce
        }),
{
    if round_id == ROUND_ID_FIRST {
        first_initiator_nonce
    } else {
        second_initiator_nonce
    }
}

/// Two peers with different nonces agree on who measures first and who second, and these are
/// the two of them.
pub proof fn law_peers_agree_on_rounds(a: u64, b: u64)
    requires
        a != b,
    ensures
        first_initiator(a, b) is Ok,
        first_initiator(a, b) == first_initiator(b, a),
        ({
            let first = first_initiator(a, b)->Ok_0;
            &&& other_of(first, a, b) == other_of(first, b, a)
            &&& (first == a && other_of(first, a, b) == b) || (first == b && other_of(first, a, b)
                == a)
        }),
{
}

/// The session of two nonces.
pub open spec fn session_of(first_nonce: u64, second_nonce: u64) -> u32 {
    let (low, high) = if first_nonce < second_nonce {
        (first_nonce, second_nonce)
    } else {
        (second_nonce, first_nonce)
    };
    let mixed = scrambled(low ^ 0xA5A5_5A5A_C3C3_3C3C) ^ ((high << 17) | (high >> 47));
    let last = (mixed ^ (mixed >> 28)).wrapping_mul(0x9E37_79B9_7F4A_7C15);
    (last ^ (last >> 32)) as u32
}

pub fn derive_session_id(first_nonce: u64, second_nonce: u64) -> (id: u32)
    ensures
        id == session_of(first_nonce, second_nonce),
{
    let (low, high): (u64, u64) = if first_nonce < second_nonce {
        (first_nonce, second_nonce)
    } else {
        (second_nonce, first_nonce)
    };
    let mixed: u64 = scramble(low ^ 0xA5A5_5A5A_C3C3_3C3C) ^ ((high << 17) | (high >> 47));
    let last: u64 = (mixed ^ (mixed >> 28)).wrapping_mul(0x9E37_79B9_7F4A_7C15);
    (last ^ (last >> 32)) as u32
}

/// Both sides derive the same session.
pub proof fn law_session_is_symmetric(a: u64, b: u64)
    ensures
        session_of(a, b) == session_of(b, a),
{
}

/// A nonce from the time in nanoseconds and the process number; never 0.
pub fn nonce_from(nanos: u64, process_id: u32) -> (nonce: u64)
    ensures
        ({
            let mixed = scrambled(
                nanos ^ ((process_id as u64) << 32) ^ 0xD1B5_4A32_9F12_CE77,
            );
            nonce == (if mixed == 0 {
                1
            } else {
                mixed
            })
        }),
{
    let mixed: u64 = scramble(nanos ^ ((process_id as u64) << 32) ^ 0xD1B5_4A32_9F12_CE77);
    if mixed == 0 {
        1
    } else {
        mixed
    }
}

} // verus!

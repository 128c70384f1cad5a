//! `monitor`: watching ports.
use crate::args::{
    applied, apply_settings, argument_step, arguments_taken, configured, default_baud_rate,
    left_by_config, lemma_applied_error, mapped, next_value, parse_port_spec, parse_u32_arg,
    port_spec, setting_step, stepped, stepped_to, take_arguments, u32_arg, with_value,
    CommandOptions, Configurable, KeyValue, KeyValueArg, PortSpec, PortSpecModel,
};
use crate::display::{
    display_assignment, parse_display_assignment, DisplayTarget, DisplayValue, PortDisplayConfig,
    PortDisplayModel,
};
use crate::io_settings::{default_baud_of, log_dir_of, resolve_log_dir};
use crate::ports::{copy_lookup, lookups, Lookup};
use crate::route_pipeline::{format_log_line, log_line};
use crate::session::{find_input, input_on, InputSpecModel, SessionInputSpec};
use crate::text::{
    cat2, cat3, decimal, decimal_text, join, joined, same, texts, to_upper, upper, viewed,
};
use vstd::prelude::*;

verus! {

#[derive(Debug)]
pub struct MonitorCliOptions {
    pub ports: Vec<PortSpec>,
    pub baud: Option<u32>,
    pub display: PortDisplayConfig,
    pub log_dir: Option<String>,
    pub no_log: bool,
}

#[verifier::ext_equal]
pub struct MonitorOptionsModel {
    pub ports: Seq<PortSpecModel>,
    pub baud: Option<u32>,
    pub display: PortDisplayModel,
    pub log_dir: Option<Seq<char>>,
    pub no_log: bool,
}

impl DeepView for MonitorCliOptions {
    type V = MonitorOptionsModel;

    open spec fn deep_view(&self) -> MonitorOptionsModel {
        MonitorOptionsModel {
            ports: self.ports.deep_view(),
            baud: self.baud,
            display: self.display.deep_view(),
            log_dir: self.log_dir.deep_view(),
            no_log: self.no_log,
        }
    }
}

impl MonitorOptionsModel {
    /// Nothing asked for.
    pub open spec fn empty() -> MonitorOptionsModel {
        MonitorOptionsModel {
            ports: seq![],
            baud: None,
            display: PortDisplayModel::empty(),
            log_dir: None,
            no_log: false,
        }
    }
}

impl Default for MonitorCliOptions {
    fn default() -> (options: MonitorCliOptions)
        ensures
            options.deep_view() == MonitorOptionsModel::empty(),
    {
        let options = MonitorCliOptions {
            ports: Vec::new(),
            baud: None,
            display: PortDisplayConfig::default(),
            log_dir: None,
            no_log: false,
        };
        assert(options.deep_view() =~= MonitorOptionsModel::empty());
        options
    }
}

/// The options with one assignment of `--config` applied.
pub open spec fn monitor_setting(o: MonitorOptionsModel, kv: KeyValue) -> Result<
    MonitorOptionsModel,
    Seq<char>,
> {
    let key = upper(kv.0);
    if key == "DISPLAY"@ {
        mapped(
            display_assignment(kv.1),
            |a: (DisplayTarget, DisplayValue)|
                MonitorOptionsModel { display: o.display.assigned(a), ..o },
        )
    } else if key == "LOG_DIR"@ {
        Ok(MonitorOptionsModel { log_dir: Some(kv.1), ..o })
    } else {
        Err("unknown monitor config key: "@ + key)
    }
}

impl Configurable for MonitorCliOptions {
    open spec fn setting(m: MonitorOptionsModel, kv: KeyValue) -> Result<
        MonitorOptionsModel,
        Seq<char>,
    > {
        monitor_setting(m, kv)
    }

    fn apply_setting(&mut self, kv: &KeyValueArg) -> (r: Result<(), String>) {
        let key_text = to_upper(kv.key.as_str());
        let key = key_text.as_str();
        let value = kv.value.as_str();
        if same(key, "DISPLAY") {
            let assignment = parse_display_assignment(value)?;
            assignment.apply_to(&mut self.display);
        } else if same(key, "LOG_DIR") {
            self.log_dir = Some(value.to_owned());
        } else {
            return Err(cat2("unknown monitor config key: ", key));
        }
        Ok(())
    }
}

pub fn apply_monitor_config_args(options: &mut MonitorCliOptions, value: &str) -> (r: Result<
    (),
    String,
>)
    ensures
        stepped(r, *final(options)) == configured(
            setting_step::<MonitorCliOptions>(),
            old(options).deep_view(),
            value@,
        ),
        final(options).deep_view() == left_by_config(
            setting_step::<MonitorCliOptions>(),
            old(options).deep_view(),
            value@,
        ),
{
    apply_settings(options, value)
}

/// The options after the argument at `i` and the value that it takes, and the next position.
pub open spec fn monitor_arg(o: MonitorOptionsModel, args: Seq<Seq<char>>, i: int) -> Result<
    (MonitorOptionsModel, int),
    Seq<char>,
> {
    let arg = args[i];
    if arg == "--port"@ || arg == "-p"@ {
        with_value(
            args,
            i,
            "--port"@,
            |v: Seq<char>|
                mapped(
                    port_spec("--port"@, v),
                    |p: PortSpecModel| MonitorOptionsModel { ports: o.ports.push(p), ..o },
                ),
        )
    } else if arg == "--config"@ {
        with_value(
            args,
            i,
            "--config"@,
            |v: Seq<char>| configured(setting_step::<MonitorCliOptions>(), o, v),
        )
    } else if arg == "--baud"@ || arg == "-b"@ {
        with_value(
            args,
            i,
            "--baud"@,
            |v: Seq<char>|
                mapped(u32_arg("--baud"@, v), |n: u32| MonitorOptionsModel { baud: Some(n), ..o }),
        )
    } else if arg == "--display"@ {
        with_value(
            args,
            i,
            "--display"@,
            |v: Seq<char>|
                mapped(
                    display_assignment(v),
                    |a: (DisplayTarget, DisplayValue)|
                        MonitorOptionsModel { display: o.display.assigned(a), ..o },
                ),
        )
    } else if arg == "--log-dir"@ {
        with_value(
            args,
            i,
            "--log-dir"@,
            |v: Seq<char>|
                Ok::<MonitorOptionsModel, Seq<char>>(MonitorOptionsModel { log_dir: Some(v), ..o }),
        )
    } else if arg == "--no-log"@ {
        Ok((MonitorOptionsModel { no_log: true, ..o }, i + 1))
    } else {
        Err("unknown option for monitor: "@ + arg)
    }
}

fn take_monitor_arg(options: &mut MonitorCliOptions, args: &Vec<String>, i: usize) -> (r: Result<
    usize,
    String,
>)
    requires
        i < args.len(),
    ensures
        stepped_to(r, *final(options)) == monitor_arg(
            old(options).deep_view(),
            texts(args@),
            i as int,
        ),
        r is Ok ==> i < r->Ok_0 <= args.len(),
{
    let arg = args[i].as_str();
    assert(texts(args@)[i as int] == arg@);
    if same(arg, "--port") || same(arg, "-p") {
        let port = parse_port_spec("--port", next_value(args, i + 1, "--port")?)?;
        let ghost before = options.ports.deep_view();
        let ghost added = port.deep_view();
        options.ports.push(port);
        assert(options.ports.deep_view() =~= before.push(added));
    } else if same(arg, "--config") {
        apply_monitor_config_args(options, next_value(args, i + 1, "--config")?)?;
    } else if same(arg, "--baud") || same(arg, "-b") {
        let value = next_value(args, i + 1, "--baud")?;
        options.baud = Some(parse_u32_arg("--baud", value)?);
    } else if same(arg, "--display") {
        let value = next_value(args, i + 1, "--display")?;
        let assignment = parse_display_assignment(value)?;
        assignment.apply_to(&mut options.display);
    } else if same(arg, "--log-dir") {
        let value = next_value(args, i + 1, "--log-dir")?;
        options.log_dir = Some(value.to_owned());
    } else if same(arg, "--no-log") {
        options.no_log = true;
        return Ok(i + 1);
    } else {
        return Err(cat2("unknown option for monitor: ", arg));
    }
    Ok(i + 2)
}

impl CommandOptions for MonitorCliOptions {
    open spec fn argument(m: MonitorOptionsModel, args: Seq<Seq<char>>, i: int) -> Result<
        (MonitorOptionsModel, int),
        Seq<char>,
    > {
        monitor_arg(m, args, i)
    }

    fn take_argument(self, args: &Vec<String>, i: usize) -> (r: Result<(Self, usize), String>) {
        let mut options = self;
        let next: usize = take_monitor_arg(&mut options, args, i)?;
        Ok((options, next))
    }
}

/// What the arguments ask for.
pub open spec fn monitor_args(args: Seq<Seq<char>>) -> Result<MonitorOptionsModel, Seq<char>> {
    arguments_taken(argument_step::<MonitorCliOptions>(), MonitorOptionsModel::empty(), args, 0)
}

pub fn parse_monitor_args(args: Vec<String>) -> (r: Result<MonitorCliOptions, String>)
    ensures
        viewed(r) == monitor_args(texts(args@)),
{
    take_arguments(MonitorCliOptions::default(), &args)
}

// ---------------------------------------------------------------------------
// Settings
// ---------------------------------------------------------------------------

#[derive(Debug)]
pub struct MonitorSettings {
    pub inputs: Vec<SessionInputSpec>,
    pub log_dir: String,
    pub logging_enabled: bool,
}

#[verifier::ext_equal]
pub struct MonitorSettingsModel {
    pub inputs: Seq<InputSpecModel>,
    pub log_dir: Seq<char>,
    pub logging_enabled: bool,
}

impl DeepView for MonitorSettings {
    type V = MonitorSettingsModel;

    open spec fn deep_view(&self) -> MonitorSettingsModel {
        MonitorSettingsModel {
            inputs: self.inputs.deep_view(),
            log_dir: self.log_dir@,
            logging_enabled: self.logging_enabled,
        }
    }
}

/// An input on the port that was found for it.
pub open spec fn watched(
    spec: PortSpecModel,
    port: Seq<char>,
    baud: u32,
    display: PortDisplayModel,
) -> InputSpecModel {
    InputSpecModel {
        id: port,
        port,
        baud_rate: match spec.baud {
            Some(own) => own,
            None => baud,
        },
        display_mode: match spec.display_mode {
            Some(mode) => mode,
            None => display.input(port),
        },
        line_break_mode: match spec.line_break_mode {
            Some(mode) => mode,
            None => display.line_break(port),
        },
    }
}

fn watch(spec: &PortSpec, port: String, default_baud: u32, display: &PortDisplayConfig) -> (input:
    SessionInputSpec)
    ensures
        input.deep_view() == watched(
            spec.deep_view(),
            port@,
            default_baud,
            display.deep_view(),
        ),
{
    let display_mode = match spec.display_mode {
        Some(mode) => mode,
        None => display.resolve_input(port.as_str()),
    };
    let line_break_mode = match spec.line_break_mode {
        Some(mode) => mode,
        None => display.resolve_line_break_input(port.as_str()),
    };
    SessionInputSpec {
        id: port.clone(),
        port,
        baud_rate: match spec.baud {
            Some(own) => own,
            None => default_baud,
        },
        display_mode,
        line_break_mode,
    }
}

/// A port to watch and what was found for it.
pub type WatchItem = (PortSpecModel, Lookup);

pub open spec fn watch_items(ports: Seq<PortSpecModel>, found: Seq<Lookup>) -> Seq<WatchItem> {
    Seq::new(ports.len(), |i: int| (ports[i], found[i]))
}

pub open spec fn watch_step(baud: u32, display: PortDisplayModel) -> spec_fn(
    Seq<InputSpecModel>,
    WatchItem,
) -> Result<Seq<InputSpecModel>, Seq<char>> {
    |inputs: Seq<InputSpecModel>, item: WatchItem|
        match item.1 {
            Err(e) => Err(e),
            Ok(port) => if input_on(inputs, port) is Some {
                Ok(inputs)
            } else {
                Ok(inputs.push(watched(item.0, port, baud, display)))
            },
        }
}

/// A port without any wishes.
pub open spec fn any_port() -> PortSpecModel {
    PortSpecModel { port: seq![], baud: None, display_mode: None, line_break_mode: None }
}

/// The ports to watch: the named ones, or the only one that is there.
pub open spec fn ports_to_watch(ports: Seq<PortSpecModel>) -> Seq<PortSpecModel> {
    if ports.len() == 0 {
        seq![any_port()]
    } else {
        ports
    }
}

/// The inputs on their ports; a port is watched once.
pub open spec fn watched_inputs(
    ports: Seq<PortSpecModel>,
    found: Seq<Lookup>,
    baud: u32,
    display: PortDisplayModel,
) -> Result<Seq<InputSpecModel>, Seq<char>> {
    applied(
        watch_step(baud, display),
        Seq::empty(),
        watch_items(ports_to_watch(ports), found),
    )
}

fn watch_ports(
    ports: &Vec<PortSpec>,
    found: &Vec<Result<String, String>>,
    default_baud: u32,
    display: &PortDisplayConfig,
) -> (r: Result<Vec<SessionInputSpec>, String>)
    requires
        found.len() == ports.len(),
    ensures
        viewed(r) == applied(
            watch_step(default_baud, display.deep_view()),
            Seq::empty(),
            watch_items(ports.deep_view(), lookups(found@)),
        ),
{
    let ghost all = watch_items(ports.deep_view(), lookups(found@));
    let ghost step = watch_step(default_baud, display.deep_view());
    let mut inputs: Vec<SessionInputSpec> = Vec::new();
    let mut i: usize = 0;
    assert(all.take(0) =~= Seq::<WatchItem>::empty());
    assert(inputs.deep_view() =~= Seq::<InputSpecModel>::empty());
    while i < ports.len()
        invariant
            i <= ports.len(),
            found.len() == ports.len(),
            all == watch_items(ports.deep_view(), lookups(found@)),
            all.len() == ports.len(),
            step == watch_step(default_baud, display.deep_view()),
            applied(step, Seq::empty(), all.take(i as int)) == Ok::<
                Seq<InputSpecModel>,
                Seq<char>,
            >(inputs.deep_view()),
        decreases ports.len() - i,
    {
        proof {
            assert(all.take(i + 1).drop_last() == all.take(i as int));
            assert(all.take(i + 1).last() == (
                ports@[i as int].deep_view(),
                viewed(found@[i as int]),
            ));
        }
        match copy_lookup(&found[i]) {
            Ok(port) => {
                if find_input(&inputs, port.as_str()).is_none() {
                    let ghost before = inputs.deep_view();
                    let input = watch(&ports[i], port, default_baud, display);
                    let ghost m = input.deep_view();
                    inputs.push(input);
                    assert(inputs.deep_view() =~= before.push(m));
                }
            },
            Err(e) => {
                proof {
                    lemma_applied_error(step, Seq::empty(), all, i + 1, e@);
                }
                return Err(e);
            },
        }
        i += 1;
    }
    assert(all.take(i as int) == all);
    Ok(inputs)
}

/// The settings that options give with the ports that were found for them.
pub open spec fn monitor_settings(
    o: MonitorOptionsModel,
    found: Seq<Lookup>,
    current_dir: Option<Seq<char>>,
) -> Result<MonitorSettingsModel, Seq<char>> {
    match watched_inputs(o.ports, found, default_baud_of(o.baud), o.display) {
        Err(e) => Err(e),
        Ok(inputs) => Ok(
            MonitorSettingsModel {
                inputs,
                log_dir: log_dir_of(o.log_dir, current_dir),
                logging_enabled: !o.no_log,
            },
        ),
    }
}

pub fn build_settings(
    options: MonitorCliOptions,
    found: &Vec<Result<String, String>>,
    current_dir: Option<&str>,
) -> (r: Result<MonitorSettings, String>)
    requires
        found.len() == ports_to_watch(options.deep_view().ports).len(),
    ensures
        viewed(r) == monitor_settings(
            options.deep_view(),
            lookups(found@),
            current_dir.deep_view(),
        ),
{
    let default_baud: u32 = match options.baud {
        Some(baud) => baud,
        None => default_baud_rate(),
    };
    let mut ports = options.ports;
    assert(ports.deep_view().len() == ports.len());
    if ports.len() == 0 {
        ports.push(PortSpec::default());
        assert(ports.deep_view() =~= seq![any_port()]);
    }
    let inputs = watch_ports(&ports, found, default_baud, &options.display)?;
    let log_dir = resolve_log_dir(&options.log_dir, current_dir);
    Ok(MonitorSettings { inputs, log_dir, logging_enabled: !options.no_log })
}

proof fn lemma_default_baud(items: Seq<WatchItem>, display: PortDisplayModel)
    requires
        forall|i: int| 0 <= i < items.len() ==> (#[trigger] items[i]).0.baud is None,
    ensures
        applied(watch_step(115_200, display), Seq::empty(), items) matches Ok(inputs) ==> forall|
            k: int,
        |
            0 <= k < inputs.len() ==> (#[trigger] inputs[k]).baud_rate == 115_200,
    decreases items.len(),
{
    if items.len() > 0 {
        lemma_default_baud(items.drop_last(), display);
        assert(items.last().0.baud is None);
    }
}

/// Where no baud rate is given, every port is watched at 115200 baud.
pub proof fn law_omitted_baud_is_the_default(
    options: MonitorOptionsModel,
    found: Seq<Lookup>,
    current_dir: Option<Seq<char>>,
)
    requires
        options.baud is None,
        forall|i: int| 0 <= i < options.ports.len() ==> (#[trigger] options.ports[i]).baud is None,
    ensures
        monitor_settings(options, found, current_dir) matches Ok(settings) ==> forall|k: int|
            0 <= k < settings.inputs.len() ==> (#[trigger] settings.inputs[k]).baud_rate == 115_200,
{
    let items = watch_items(ports_to_watch(options.ports), found);
    assert forall|i: int| 0 <= i < items.len() implies (#[trigger] items[i]).0.baud is None by {
        if options.ports.len() > 0 {
            assert(items[i].0 == options.ports[i]);
        }
    }
    lemma_default_baud(items, options.display);
}

// ---------------------------------------------------------------------------
// Header
// ---------------------------------------------------------------------------

pub open spec fn input_at(i: InputSpecModel) -> Seq<char> {
    i.port + "@"@ + decimal(i.baud_rate as nat)
}

/// The inputs with their baud rates.
pub open spec fn inputs_summary(inputs: Seq<InputSpecModel>) -> Seq<char> {
    joined(inputs.map_values(|i: InputSpecModel| input_at(i)), ", "@)
}

pub fn format_inputs_summary(inputs: &Vec<SessionInputSpec>) -> (r: String)
    ensures
        r@ == inputs_summary(inputs.deep_view()),
{
    let ghost all = inputs.deep_view();
    let ghost f = |i: InputSpecModel| input_at(i);
    let mut parts: Vec<String> = Vec::new();
    let mut i: usize = 0;
    assert(texts(parts@) =~= all.take(0).map_values(f));
    while i < inputs.len()
        invariant
            i <= inputs.len(),
            all == inputs.deep_view(),
            f == (|i: InputSpecModel| input_at(i)),
            texts(parts@) == all.take(i as int).map_values(f),
        decreases inputs.len() - i,
    {
        let ghost before = texts(parts@);
        let baud = decimal_text(inputs[i].baud_rate as u64);
        parts.push(cat3(inputs[i].port.as_str(), "@", baud.as_str()));
        proof {
            assert(all[i as int] == inputs@[i as int].deep_view());
            assert(texts(parts@) =~= before.push(input_at(all[i as int])));
            assert(all.take(i + 1).map_values(f) =~= all.take(i as int).map_values(f).push(
                input_at(all[i as int]),
            ));
        }
        i += 1;
    }
    assert(all.take(i as int) == all);
    join(&parts, ", ")
}

/// The lines above the display of a monitor.
pub open spec fn monitor_header(s: MonitorSettingsModel, log_path: Seq<char>) -> Seq<Seq<char>> {
    seq![
        "ports: "@ + inputs_summary(s.inputs),
        log_line(s.logging_enabled, log_path),
        "Space で表示を一時停止/再開  Ctrl-C で終了"@,
    ]
}

pub fn monitor_header_lines(settings: &MonitorSettings, log_path: &str) -> (r: Vec<String>)
    ensures
        r.deep_view() == monitor_header(settings.deep_view(), log_path@),
{
    let mut lines: Vec<String> = Vec::new();
    let summary = format_inputs_summary(&settings.inputs);
    lines.push(cat2("ports: ", summary.as_str()));
    lines.push(format_log_line(settings.logging_enabled, log_path));
    lines.push("Space で表示を一時停止/再開  Ctrl-C で終了".to_owned());
    assert(lines.deep_view() =~= monitor_header(settings.deep_view(), log_path@));
    lines
}

} // verus!

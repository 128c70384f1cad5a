//! `xbee-talk`: lines of text go out to an XBee, and what comes in is shown.
use crate::args::{
    applied, apply_settings, argument_step, arguments_taken, configured, default_baud_rate,
    left_by_config, lemma_applied_error, mapped, next_value, parse_port_spec, parse_u32_arg,
    port_spec, setting_step, stepped, stepped_to, take_arguments, u32_arg, with_value,
    CommandOptions, Configurable, KeyValue, KeyValueArg, PortSpec, PortSpecModel,
};
use crate::command_line::{display_mode_for, resolve_display_mode};
use crate::control_settings::chosen_port;
use crate::display::{
    display_assignment, parse_display_assignment, DisplayTarget, DisplayValue, LineBreakMode,
    PortDisplayConfig, PortDisplayMode, PortDisplayModel,
};
use crate::io_settings::{default_baud_of, log_dir_of, resolve_log_dir};
use crate::monitor::{format_inputs_summary, inputs_summary};
use crate::ports::{copy_lookup, lookups, Lookup};
use crate::route_pipeline::{format_log_line, log_line};
use crate::session::{InputSpecModel, OutputSpecModel, SessionInputSpec, SessionOutputSpec};
use crate::text::{cat2, cat3, cat5, decimal, decimal_text, same, texts, to_upper, upper, viewed};
use vstd::prelude::*;

verus! {

#[derive(Debug)]
pub struct XbeeTalkCliOptions {
    pub port: Option<PortSpec>,
    pub inputs: Vec<PortSpec>,
    pub baud: Option<u32>,
    pub display: PortDisplayConfig,
    pub log_dir: Option<String>,
    pub no_log: bool,
    pub s3b: bool,
}

#[verifier::ext_equal]
pub struct TalkOptionsModel {
    pub port: Option<PortSpecModel>,
    pub inputs: Seq<PortSpecModel>,
    pub baud: Option<u32>,
    pub display: PortDisplayModel,
    pub log_dir: Option<Seq<char>>,
    pub no_log: bool,
    pub s3b: bool,
}

impl DeepView for XbeeTalkCliOptions {
    type V = TalkOptionsModel;

    open spec fn deep_view(&self) -> TalkOptionsModel {
        TalkOptionsModel {
            port: self.port.deep_view(),
            inputs: self.inputs.deep_view(),
            baud: self.baud,
            display: self.display.deep_view(),
            log_dir: self.log_dir.deep_view(),
            no_log: self.no_log,
            s3b: self.s3b,
        }
    }
}

impl TalkOptionsModel {
    /// Nothing asked for.
    pub open spec fn empty() -> TalkOptionsModel {
        TalkOptionsModel {
            port: None,
            inputs: seq![],
            baud: None,
            display: PortDisplayModel::empty(),
            log_dir: None,
            no_log: false,
            s3b: false,
        }
    }
}

impl Default for XbeeTalkCliOptions {
    fn default() -> (options: XbeeTalkCliOptions)
        ensures
            options.deep_view() == TalkOptionsModel::empty(),
    {
        let options = XbeeTalkCliOptions {
            port: None,
            inputs: Vec::new(),
            baud: None,
            display: PortDisplayConfig::default(),
            log_dir: None,
            no_log: false,
            s3b: false,
        };
        assert(options.deep_view() =~= TalkOptionsModel::empty());
        options
    }
}

/// The options with one assignment of `--config` applied.
pub open spec fn talk_setting(o: TalkOptionsModel, kv: KeyValue) -> Result<
    TalkOptionsModel,
    Seq<char>,
> {
    let key = upper(kv.0);
    if key == "BAUD"@ {
        mapped(u32_arg("BAUD"@, kv.1), |n: u32| TalkOptionsModel { baud: Some(n), ..o })
    } else if key == "DISPLAY"@ {
        mapped(
            display_assignment(kv.1),
            |a: (DisplayTarget, DisplayValue)|
                TalkOptionsModel { display: o.display.assigned(a), ..o },
        )
    } else if key == "LOG_DIR"@ {
        Ok(TalkOptionsModel { log_dir: Some(kv.1), ..o })
    } else {
        Err("unknown xbee-talk config key: "@ + key)
    }
}

impl Configurable for XbeeTalkCliOptions {
    open spec fn setting(m: TalkOptionsModel, kv: KeyValue) -> Result<
        TalkOptionsModel,
        Seq<char>,
    > {
        talk_setting(m, kv)
    }

    fn apply_setting(&mut self, kv: &KeyValueArg) -> (r: Result<(), String>) {
        let key_text = to_upper(kv.key.as_str());
        let key = key_text.as_str();
        let value = kv.value.as_str();
        if same(key, "BAUD") {
            self.baud = Some(parse_u32_arg("BAUD", value)?);
        } else if same(key, "DISPLAY") {
            let assignment = parse_display_assignment(value)?;
            assignment.apply_to(&mut self.display);
        } else if same(key, "LOG_DIR") {
            self.log_dir = Some(value.to_owned());
        } else {
            return Err(cat2("unknown xbee-talk config key: ", key));
        }
        Ok(())
    }
}

pub fn apply_xbee_talk_config_args(options: &mut XbeeTalkCliOptions, value: &str) -> (r: Result<
    (),
    String,
>)
    ensures
        stepped(r, *final(options)) == configured(
            setting_step::<XbeeTalkCliOptions>(),
            old(options).deep_view(),
            value@,
        ),
        final(options).deep_view() == left_by_config(
            setting_step::<XbeeTalkCliOptions>(),
            old(options).deep_view(),
            value@,
        ),
{
    apply_settings(options, value)
}

/// The options after the argument at `i` and the value that it takes, and the next position.
pub open spec fn talk_arg(o: TalkOptionsModel, args: Seq<Seq<char>>, i: int) -> Result<
    (TalkOptionsModel, int),
    Seq<char>,
> {
    let arg = args[i];
    if arg == "--port"@ || arg == "-p"@ {
        with_value(
            args,
            i,
            "--port"@,
            |v: Seq<char>|
                mapped(
                    port_spec("--port"@, v),
                    |p: PortSpecModel| TalkOptionsModel { port: Some(p), ..o },
                ),
        )
    } else if arg == "--input"@ || arg == "--monitor"@ || arg == "-m"@ {
        with_value(
            args,
            i,
            "--input"@,
            |v: Seq<char>|
                mapped(
                    port_spec("--input"@, v),
                    |p: PortSpecModel| TalkOptionsModel { inputs: o.inputs.push(p), ..o },
                ),
        )
    } else if arg == "--interactive"@ || arg == "-i"@ {
        Ok((o, i + 1))
    } else if arg == "--config"@ {
        with_value(
            args,
            i,
            "--config"@,
            |v: Seq<char>| configured(setting_step::<XbeeTalkCliOptions>(), o, v),
        )
    } else if arg == "--baud"@ || arg == "-b"@ {
        with_value(
            args,
            i,
            "--baud"@,
            |v: Seq<char>|
                mapped(u32_arg("--baud"@, v), |n: u32| TalkOptionsModel { baud: Some(n), ..o }),
        )
    } else if arg == "--display"@ {
        with_value(
            args,
            i,
            "--display"@,
            |v: Seq<char>|
                mapped(
                    display_assignment(v),
                    |a: (DisplayTarget, DisplayValue)|
                        TalkOptionsModel { display: o.display.assigned(a), ..o },
                ),
        )
    } else if arg == "--log-dir"@ {
        with_value(
            args,
            i,
            "--log-dir"@,
            |v: Seq<char>|
                Ok::<TalkOptionsModel, Seq<char>>(TalkOptionsModel { log_dir: Some(v), ..o }),
        )
    } else if arg == "--no-log"@ {
        Ok((TalkOptionsModel { no_log: true, ..o }, i + 1))
    } else if arg == "--s3b"@ {
        Ok((TalkOptionsModel { s3b: true, ..o }, i + 1))
    } else {
        Err("unknown option for xbee-talk: "@ + arg)
    }
}

fn take_talk_arg(options: &mut XbeeTalkCliOptions, args: &Vec<String>, i: usize) -> (r: Result<
    usize,
    String,
>)
    requires
        i < args.len(),
    ensures
        stepped_to(r, *final(options)) == talk_arg(
            old(options).deep_view(),
            texts(args@),
            i as int,
        ),
        r is Ok ==> i < r->Ok_0 <= args.len(),
{
    let arg = args[i].as_str();
    assert(texts(args@)[i as int] == arg@);
    if same(arg, "--port") || same(arg, "-p") {
        let value = next_value(args, i + 1, "--port")?;
        options.port = Some(parse_port_spec("--port", value)?);
    } else if same(arg, "--input") || same(arg, "--monitor") || same(arg, "-m") {
        let input = parse_port_spec("--input", next_value(args, i + 1, "--input")?)?;
        let ghost before = options.inputs.deep_view();
        let ghost added = input.deep_view();
        options.inputs.push(input);
        assert(options.inputs.deep_view() =~= before.push(added));
    } else if same(arg, "--interactive") || same(arg, "-i") {
        return Ok(i + 1);
    } else if same(arg, "--config") {
        apply_xbee_talk_config_args(options, next_value(args, i + 1, "--config")?)?;
    } else if same(arg, "--baud") || same(arg, "-b") {
        let value = next_value(args, i + 1, "--baud")?;
        options.baud = Some(parse_u32_arg("--baud", value)?);
    } else if same(arg, "--display") {
        let value = next_value(args, i + 1, "--display")?;
        let assignment = parse_display_assignment(value)?;
        assignment.apply_to(&mut options.display);
    } else if same(arg, "--log-dir") {
        let value = next_value(args, i + 1, "--log-dir")?;
        options.log_dir = Some(value.to_owned());
    } else if same(arg, "--no-log") {
        options.no_log = true;
        return Ok(i + 1);
    } else if same(arg, "--s3b") {
        options.s3b = true;
        return Ok(i + 1);
    } else {
        return Err(cat2("unknown option for xbee-talk: ", arg));
    }
    Ok(i + 2)
}

impl CommandOptions for XbeeTalkCliOptions {
    open spec fn argument(m: TalkOptionsModel, args: Seq<Seq<char>>, i: int) -> Result<
        (TalkOptionsModel, int),
        Seq<char>,
    > {
        talk_arg(m, args, i)
    }

    fn take_argument(self, args: &Vec<String>, i: usize) -> (r: Result<(Self, usize), String>) {
        let mut options = self;
        let next: usize = take_talk_arg(&mut options, args, i)?;
        Ok((options, next))
    }
}

/// What the arguments ask for.
pub open spec fn talk_args(args: Seq<Seq<char>>) -> Result<TalkOptionsModel, Seq<char>> {
    arguments_taken(argument_step::<XbeeTalkCliOptions>(), TalkOptionsModel::empty(), args, 0)
}

pub fn parse_xbee_talk_args(args: Vec<String>) -> (r: Result<XbeeTalkCliOptions, String>)
    ensures
        viewed(r) == talk_args(texts(args@)),
{
    take_arguments(XbeeTalkCliOptions::default(), &args)
}

// ---------------------------------------------------------------------------
// Settings
// ---------------------------------------------------------------------------

#[derive(Debug)]
pub struct XbeeTalkSettings {
    pub output: SessionOutputSpec,
    pub inputs: Vec<SessionInputSpec>,
    pub log_dir: String,
    pub logging_enabled: bool,
    pub s3b: bool,
}

#[verifier::ext_equal]
pub struct TalkSettingsModel {
    pub output: OutputSpecModel,
    pub inputs: Seq<InputSpecModel>,
    pub log_dir: Seq<char>,
    pub logging_enabled: bool,
    pub s3b: bool,
}

impl DeepView for XbeeTalkSettings {
    type V = TalkSettingsModel;

    open spec fn deep_view(&self) -> TalkSettingsModel {
        TalkSettingsModel {
            output: self.output.deep_view(),
            inputs: self.inputs.deep_view(),
            log_dir: self.log_dir@,
            logging_enabled: self.logging_enabled,
            s3b: self.s3b,
        }
    }
}

/// The inputs with one more. A port is read once, and at one baud rate.
pub open spec fn talk_input_added(inputs: Seq<InputSpecModel>, input: InputSpecModel) -> Result<
    Seq<InputSpecModel>,
    Seq<char>,
> {
    if exists|i: int|
        0 <= i < inputs.len() && (#[trigger] inputs[i]).port == input.port && inputs[i].baud_rate
            != input.baud_rate {
        Err("xbee-talk input port `"@ + input.port + "` cannot use multiple baud rates"@)
    } else if exists|i: int| 0 <= i < inputs.len() && (#[trigger] inputs[i]).port == input.port {
        Ok(inputs)
    } else {
        Ok(inputs.push(input))
    }
}

pub fn add_unique_input(inputs: &mut Vec<SessionInputSpec>, input: SessionInputSpec) -> (r: Result<
    (),
    String,
>)
    ensures
        match r {
            Ok(()) => talk_input_added(old(inputs).deep_view(), input.deep_view()) == Ok::<
                Seq<InputSpecModel>,
                Seq<char>,
            >(final(inputs).deep_view()),
            Err(e) => talk_input_added(old(inputs).deep_view(), input.deep_view()) == Err::<
                Seq<InputSpecModel>,
                Seq<char>,
            >(e@) && final(inputs).deep_view() == old(inputs).deep_view(),
        },
{
    let ghost all = inputs.deep_view();
    let ghost m = input.deep_view();
    let mut there = false;
    let mut i: usize = 0;
    while i < inputs.len()
        invariant
            i <= inputs.len(),
            *inputs == *old(inputs),
            all == inputs.deep_view(),
            m == input.deep_view(),
            forall|k: int|
                0 <= k < i && (#[trigger] all[k]).port == m.port ==> all[k].baud_rate
                    == m.baud_rate,
            there == exists|k: int| 0 <= k < i && (#[trigger] all[k]).port == m.port,
        decreases inputs.len() - i,
    {
        assert(all[i as int] == inputs@[i as int].deep_view());
        if same(inputs[i].port.as_str(), input.port.as_str()) {
            if inputs[i].baud_rate != input.baud_rate {
                return Err(
                    cat3(
                        "xbee-talk input port `",
                        input.port.as_str(),
                        "` cannot use multiple baud rates",
                    ),
                );
            }
            there = true;
        }
        i += 1;
    }
    if !there {
        inputs.push(input);
        assert(inputs.deep_view() =~= all.push(m));
    }
    Ok(())
}

/// An input on a port.
pub open spec fn talk_input(
    spec: Option<PortSpecModel>,
    port: Seq<char>,
    baud: u32,
    display: PortDisplayModel,
) -> InputSpecModel {
    InputSpecModel {
        id: port,
        port,
        baud_rate: match spec {
            Some(spec) => match spec.baud {
                Some(own) => own,
                None => baud,
            },
            None => baud,
        },
        display_mode: display_mode_for(
            match spec {
                Some(spec) => spec.display_mode,
                None => None,
            },
            display.input_override(port),
            None,
        ),
        line_break_mode: match spec {
            Some(spec) => match spec.line_break_mode {
                Some(mode) => mode,
                None => display.line_break(port),
            },
            None => display.line_break(port),
        },
    }
}

fn make_input(
    spec: &Option<PortSpec>,
    port: &str,
    default_baud: u32,
    display: &PortDisplayConfig,
) -> (input: SessionInputSpec)
    ensures
        input.deep_view() == talk_input(
            spec.deep_view(),
            port@,
            default_baud,
            display.deep_view(),
        ),
{
    let (baud, mode, line_break): (Option<u32>, Option<PortDisplayMode>, Option<LineBreakMode>) =
        match spec {
        Some(spec) => (spec.baud, spec.display_mode, spec.line_break_mode),
        None => (None, None, None),
    };
    let display_mode = resolve_display_mode(mode, display.resolve_input_override(port), None);
    let line_break_mode = match line_break {
        Some(mode) => mode,
        None => display.resolve_line_break_input(port),
    };
    SessionInputSpec {
        id: port.to_owned(),
        port: port.to_owned(),
        baud_rate: match baud {
            Some(own) => own,
            None => default_baud,
        },
        display_mode,
        line_break_mode,
    }
}

/// The output on the port that was selected for it.
pub open spec fn talk_output(
    spec: Option<PortSpecModel>,
    port: Seq<char>,
    baud: u32,
    display: PortDisplayModel,
) -> OutputSpecModel {
    OutputSpecModel {
        id: "main"@,
        port,
        baud_rate: talk_input(spec, port, baud, display).baud_rate,
        format_name: "xbee-talk"@,
        display_mode: display_mode_for(
            match spec {
                Some(spec) => spec.display_mode,
                None => None,
            },
            display.output_override(port),
            None,
        ),
    }
}

/// An input and the port that was found for it.
pub type TalkItem = (PortSpecModel, Lookup);

pub open spec fn talk_items(ports: Seq<PortSpecModel>, found: Seq<Lookup>) -> Seq<TalkItem> {
    Seq::new(ports.len(), |i: int| (ports[i], found[i]))
}

pub open spec fn talk_step(baud: u32, display: PortDisplayModel) -> spec_fn(
    Seq<InputSpecModel>,
    TalkItem,
) -> Result<Seq<InputSpecModel>, Seq<char>> {
    |inputs: Seq<InputSpecModel>, item: TalkItem|
        match item.0.normalized() {
            None => Err("xbee-talk input port must not be empty"@),
            Some(spec) => match item.1 {
                Err(e) => Err(e),
                Ok(port) => talk_input_added(
                    inputs,
                    talk_input(Some(spec), port, baud, display),
                ),
            },
        }
}

fn take_talk_input(
    inputs: &mut Vec<SessionInputSpec>,
    spec: &PortSpec,
    found: &Result<String, String>,
    default_baud: u32,
    display: &PortDisplayConfig,
) -> (r: Result<(), String>)
    ensures
        match r {
            Ok(()) => talk_step(default_baud, display.deep_view())(
                old(inputs).deep_view(),
                (spec.deep_view(), viewed(*found)),
            ) == Ok::<Seq<InputSpecModel>, Seq<char>>(final(inputs).deep_view()),
            Err(e) => talk_step(default_baud, display.deep_view())(
                old(inputs).deep_view(),
                (spec.deep_view(), viewed(*found)),
            ) == Err::<Seq<InputSpecModel>, Seq<char>>(e@),
        },
{
    let spec = spec.duplicate().normalized();
    if spec.is_none() {
        return Err("xbee-talk input port must not be empty".to_owned());
    }
    let port = copy_lookup(found)?;
    let input = make_input(&spec, port.as_str(), default_baud, display);
    add_unique_input(inputs, input)
}

/// The settings that options give with the port that was selected for the output and those found
/// for the inputs.
pub open spec fn talk_settings(
    o: TalkOptionsModel,
    selected: Lookup,
    found: Seq<Lookup>,
    current_dir: Option<Seq<char>>,
) -> Result<TalkSettingsModel, Seq<char>> {
    let baud = default_baud_of(o.baud);
    let spec = chosen_port(o.port);
    match selected {
        Err(e) => Err(e),
        Ok(port) => match applied(
            talk_step(baud, o.display),
            seq![talk_input(spec, port, baud, o.display)],
            talk_items(o.inputs, found),
        ) {
            Err(e) => Err(e),
            Ok(inputs) => Ok(
                TalkSettingsModel {
                    output: talk_output(spec, port, baud, o.display),
                    inputs,
                    log_dir: log_dir_of(o.log_dir, current_dir),
                    logging_enabled: !o.no_log,
                    s3b: o.s3b,
                },
            ),
        },
    }
}

fn talk_inputs(
    first: SessionInputSpec,
    specs: &Vec<PortSpec>,
    found: &Vec<Result<String, String>>,
    default_baud: u32,
    display: &PortDisplayConfig,
) -> (r: Result<Vec<SessionInputSpec>, String>)
    requires
        found.len() == specs.len(),
    ensures
        viewed(r) == applied(
            talk_step(default_baud, display.deep_view()),
            seq![first.deep_view()],
            talk_items(specs.deep_view(), lookups(found@)),
        ),
{
    let ghost all = talk_items(specs.deep_view(), lookups(found@));
    let ghost step = talk_step(default_baud, display.deep_view());
    let ghost start = seq![first.deep_view()];
    let mut inputs: Vec<SessionInputSpec> = Vec::new();
    inputs.push(first);
    assert(inputs.deep_view() =~= start);
    let mut i: usize = 0;
    assert(all.take(0) =~= Seq::<TalkItem>::empty());
    while i < specs.len()
        invariant
            i <= specs.len(),
            found.len() == specs.len(),
            all == talk_items(specs.deep_view(), lookups(found@)),
            all.len() == specs.len(),
            step == talk_step(default_baud, display.deep_view()),
            start == seq![first.deep_view()],
            applied(step, start, all.take(i as int)) == Ok::<Seq<InputSpecModel>, Seq<char>>(
                inputs.deep_view(),
            ),
        decreases specs.len() - i,
    {
        proof {
            assert(all.take(i + 1).drop_last() == all.take(i as int));
            assert(all.take(i + 1).last() == (
                specs@[i as int].deep_view(),
                viewed(found@[i as int]),
            ));
        }
        if let Err(e) = take_talk_input(&mut inputs, &specs[i], &found[i], default_baud, display) {
            proof {
                lemma_applied_error(step, start, all, i + 1, e@);
            }
            return Err(e);
        }
        i += 1;
    }
    assert(all.take(i as int) == all);
    Ok(inputs)
}

pub fn build_settings(
    options: XbeeTalkCliOptions,
    selected: &Result<String, String>,
    found: &Vec<Result<String, String>>,
    current_dir: Option<&str>,
) -> (r: Result<XbeeTalkSettings, String>)
    requires
        found.len() == options.inputs.len(),
    ensures
        viewed(r) == talk_settings(
            options.deep_view(),
            viewed(*selected),
            lookups(found@),
            current_dir.deep_view(),
        ),
{
    let default_baud: u32 = match options.baud {
        Some(baud) => baud,
        None => default_baud_rate(),
    };
    let spec: Option<PortSpec> = match options.port {
        Some(spec) => spec.normalized(),
        None => None,
    };
    let port = copy_lookup(selected)?;
    let first = make_input(&spec, port.as_str(), default_baud, &options.display);
    let asked: Option<PortDisplayMode> = match &spec {
        Some(spec) => spec.display_mode,
        None => None,
    };
    let display_mode = resolve_display_mode(
        asked,
        options.display.resolve_output_override(port.as_str()),
        None,
    );
    let output = SessionOutputSpec {
        id: "main".to_owned(),
        port,
        baud_rate: first.baud_rate,
        format_name: "xbee-talk".to_owned(),
        display_mode,
    };
    let inputs = talk_inputs(first, &options.inputs, found, default_baud, &options.display)?;
    let log_dir = resolve_log_dir(&options.log_dir, current_dir);
    Ok(
        XbeeTalkSettings {
            output,
            inputs,
            log_dir,
            logging_enabled: !options.no_log,
            s3b: options.s3b,
        },
    )
}

proof fn lemma_ports_once(
    baud: u32,
    display: PortDisplayModel,
    first: InputSpecModel,
    items: Seq<TalkItem>,
)
    ensures
        applied(talk_step(baud, display), seq![first], items) matches Ok(inputs) ==> inputs.len()
            > 0 && inputs[0] == first && forall|i: int, j: int|
            0 <= i < j < inputs.len() ==> (#[trigger] inputs[i]).port != (
            #[trigger] inputs[j]).port,
    decreases items.len(),
{
    if items.len() > 0 {
        lemma_ports_once(baud, display, first, items.drop_last());
    }
}

/// What is sent to is also read, and no port is read twice.
pub proof fn law_output_port_is_read(
    options: TalkOptionsModel,
    selected: Lookup,
    found: Seq<Lookup>,
    current_dir: Option<Seq<char>>,
)
    ensures
        talk_settings(options, selected, found, current_dir) matches Ok(settings)
            ==> settings.inputs.len() > 0 && settings.inputs[0].port == settings.output.port
            && settings.inputs[0].baud_rate == settings.output.baud_rate && forall|i: int, j: int|
            0 <= i < j < settings.inputs.len() ==> (#[trigger] settings.inputs[i]).port != (
            #[trigger] settings.inputs[j]).port,
{
    if let Ok(port) = selected {
        let baud = default_baud_of(options.baud);
        let first = talk_input(chosen_port(options.port), port, baud, options.display);
        lemma_ports_once(baud, options.display, first, talk_items(options.inputs, found));
    }
}

// ---------------------------------------------------------------------------
// Talking
// ---------------------------------------------------------------------------

/// The lines above the display of a talk.
pub open spec fn talk_header(s: TalkSettingsModel, log_path: Seq<char>) -> Seq<Seq<char>> {
    seq![
        "output: "@ + s.output.port + " @ "@ + decimal(s.output.baud_rate as nat) + " baud"@,
        "input: "@ + inputs_summary(s.inputs),
        log_line(s.logging_enabled, log_path),
        "Enter で送信 (\\r\\n を末尾に付加)  Ctrl-C で終了"@,
    ]
}

pub fn build_header_lines(settings: &XbeeTalkSettings, log_path: &str) -> (r: Vec<String>)
    ensures
        r.deep_view() == talk_header(settings.deep_view(), log_path@),
{
    let baud = decimal_text(settings.output.baud_rate as u64);
    let summary = format_inputs_summary(&settings.inputs);
    let mut lines: Vec<String> = Vec::new();
    lines.push(
        cat5("output: ", settings.output.port.as_str(), " @ ", baud.as_str(), " baud"),
    );
    lines.push(cat2("input: ", summary.as_str()));
    lines.push(format_log_line(settings.logging_enabled, log_path));
    lines.push("Enter で送信 (\\r\\n を末尾に付加)  Ctrl-C で終了".to_owned());
    assert(lines.deep_view() =~= talk_header(settings.deep_view(), log_path@));
    lines
}

/// A text as a message: with a carriage return and a line feed behind it.
pub open spec fn message_of(text: Seq<u8>) -> Seq<u8> {
    text + seq![13u8, 10u8]
}

/// The bytes of a message: those of its text, a carriage return and a line feed.
pub fn message_bytes(text: Vec<u8>) -> (bytes: Vec<u8>)
    ensures
        bytes@ == message_of(text@),
        bytes@ == text@ + seq![13u8, 10u8],
{
    let mut bytes = text;
    bytes.push(13);
    bytes.push(10);
    assert(bytes@ =~= text@ + seq![13u8, 10u8]);
    bytes
}

} // verus!

//! `send`: sending sample packets at whole packets per second, and the form of `io` that does so.
use crate::args::{
    apply_settings, argument_step, arguments_taken, configured, left_by_config, mapped,
    next_optional_value, next_value, optional_value, parse_port_spec, parse_u32_arg, port_spec,
    setting_step, stepped, stepped_to, strip_value, take_arguments, u32_arg, value_behind,
    with_value, CommandOptions, Configurable, KeyValue, KeyValueArg, PortSpec, PortSpecModel,
};
use crate::command_line::{split_format, split_format_name};
use crate::display::{
    display_assignment, parse_display_assignment, DisplayTarget, DisplayValue, LineBreakMode,
    PortDisplayConfig, PortDisplayMode, PortDisplayModel,
};
use crate::io::{
    input_names, output_names, past_optional, push_binding, BindingArgModel, IoBindingArg,
};
use crate::session::{input_binding, parse_input_binding, InputBinding, InputBindingModel};
use crate::text::{
    all_digits, cat2, chars_of, cut_at_first, cut_at_last, is_digit, rsplit_once, same, split_once,
    texts, to_upper, upper, viewed,
};
use vstd::prelude::*;

verus! {

pub const DEFAULT_SEND_RATE_HZ: u32 = 50;

pub const DEFAULT_IO_SEND_RATE_HZ: u32 = 10;

// ---------------------------------------------------------------------------
// Bindings
// ---------------------------------------------------------------------------

pub type SendMonitorBinding = InputBinding;

/// The monitor that a text names.
pub open spec fn send_monitor_binding(value: Seq<char>) -> Result<InputBindingModel, Seq<char>> {
    input_binding(value, "send monitor binding must not be empty"@, "--monitor"@)
}

pub fn parse_send_monitor_binding(value: &str) -> (r: Result<SendMonitorBinding, String>)
    ensures
        viewed(r) == send_monitor_binding(value@),
{
    parse_input_binding(value, "send monitor binding must not be empty", "--monitor")
}

/// An output as an option names it.
#[derive(Debug)]
pub struct SendOutputBinding {
    pub id: String,
    pub port: String,
    pub baud: Option<u32>,
    pub rate_hz: Option<u32>,
    pub format: Option<String>,
    pub display_mode: Option<PortDisplayMode>,
    pub line_break_mode: Option<LineBreakMode>,
}

#[verifier::ext_equal]
pub struct SendOutputBindingModel {
    pub id: Seq<char>,
    pub port: Seq<char>,
    pub baud: Option<u32>,
    pub rate_hz: Option<u32>,
    pub format: Option<Seq<char>>,
    pub display_mode: Option<PortDisplayMode>,
    pub line_break_mode: Option<LineBreakMode>,
}

impl DeepView for SendOutputBinding {
    type V = SendOutputBindingModel;

    open spec fn deep_view(&self) -> SendOutputBindingModel {
        SendOutputBindingModel {
            id: self.id@,
            port: self.port@,
            baud: self.baud,
            rate_hz: self.rate_hz,
            format: self.format.deep_view(),
            display_mode: self.display_mode,
            line_break_mode: self.line_break_mode,
        }
    }
}

/// What stands before a rate at the end, and the rate; everything and nothing where no digits
/// stand there.
pub open spec fn split_whole_rate(value: Seq<char>) -> Result<
    (Seq<char>, Option<u32>),
    Seq<char>,
> {
    match cut_at_last(value, ',') {
        Some((rest, digits)) => if digits.len() > 0 && all_digits(digits) {
            match u32_arg("send output rate"@, digits) {
                Ok(rate) => Ok((rest, Some(rate))),
                Err(e) => Err(e),
            }
        } else {
            Ok((value, None))
        },
        None => Ok((value, None)),
    }
}

fn only_digits(s: &str) -> (r: bool)
    ensures
        r == all_digits(s@),
{
    let chars = chars_of(s);
    let mut i: usize = 0;
    while i < chars.len()
        invariant
            i <= chars.len(),
            chars@ == s@,
            forall|k: int| 0 <= k < i ==> is_digit(#[trigger] s@[k]),
        decreases chars.len() - i,
    {
        if !('0' <= chars[i] && chars[i] <= '9') {
            assert(!is_digit(s@[i as int]));
            return false;
        }
        i += 1;
    }
    true
}

fn split_rate_digits(value: &str) -> (r: Result<(&str, Option<u32>), String>)
    ensures
        match r {
            Ok((rest, rate)) => split_whole_rate(value@) == Ok::<
                (Seq<char>, Option<u32>),
                Seq<char>,
            >((rest@, rate)),
            Err(e) => split_whole_rate(value@) == Err::<(Seq<char>, Option<u32>), Seq<char>>(e@),
        },
{
    match rsplit_once(value, ',') {
        Some((rest, digits)) => if !digits.is_empty() && only_digits(digits) {
            let rate = parse_u32_arg("send output rate", digits)?;
            Ok((rest, Some(rate)))
        } else {
            Ok((value, None))
        },
        None => Ok((value, None)),
    }
}

/// `[ID=]PORT[@BAUD][,DISPLAY][,FORMAT][,RATE]`; without an id of its own an output goes by its
/// port.
pub open spec fn send_output_binding(value: Seq<char>) -> Result<
    SendOutputBindingModel,
    Seq<char>,
> {
    if value.len() == 0 {
        Err("send output binding must not be empty"@)
    } else {
        match split_whole_rate(value) {
            Err(e) => Err(e),
            Ok((rest, rate_hz)) => {
                let (binding, format) = split_format(rest);
                let (id, port_text) = match cut_at_first(binding, '=') {
                    Some((id, port)) => (Some(id), port),
                    None => (None, binding),
                };
                if id is Some && (id->0.len() == 0 || port_text.len() == 0) {
                    Err("invalid send output binding: "@ + value)
                } else {
                    match port_spec("send output binding"@, port_text) {
                        Err(e) => Err(e),
                        Ok(spec) => Ok(
                            SendOutputBindingModel {
                                id: match id {
                                    Some(id) => id,
                                    None => spec.port,
                                },
                                port: spec.port,
                                baud: spec.baud,
                                rate_hz,
                                format,
                                display_mode: spec.display_mode,
                                line_break_mode: spec.line_break_mode,
                            },
                        ),
                    }
                }
            },
        }
    }
}

pub fn parse_send_output_binding(value: &str) -> (r: Result<SendOutputBinding, String>)
    ensures
        viewed(r) == send_output_binding(value@),
{
    if value.is_empty() {
        return Err("send output binding must not be empty".to_owned());
    }
    let (rest, rate_hz) = split_rate_digits(value)?;
    let (binding, format_name) = split_format_name(rest);
    let format = match format_name {
        Some(name) => Some(name.to_owned()),
        None => None,
    };
    let (given_id, port_text): (Option<&str>, &str) = match split_once(binding, '=') {
        Some((id, port)) => {
            if id.is_empty() || port.is_empty() {
                return Err(cat2("invalid send output binding: ", value));
            }
            (Some(id), port)
        },
        None => (None, binding),
    };
    let spec = parse_port_spec("send output binding", port_text)?;
    let id = match given_id {
        Some(id) => id.to_owned(),
        None => spec.port.clone(),
    };
    Ok(
        SendOutputBinding {
            id,
            port: spec.port,
            baud: spec.baud,
            rate_hz,
            format,
            display_mode: spec.display_mode,
            line_break_mode: spec.line_break_mode,
        },
    )
}

// ---------------------------------------------------------------------------
// Options
// ---------------------------------------------------------------------------

#[derive(Debug)]
pub struct SendCliOptions {
    pub port: Option<PortSpec>,
    pub outputs: Vec<SendOutputBinding>,
    pub baud: Option<u32>,
    pub rate_hz: Option<u32>,
    pub format: Option<String>,
    pub display: PortDisplayConfig,
    pub monitor_ports: Vec<SendMonitorBinding>,
    pub log_dir: Option<String>,
    pub no_log: bool,
    pub interactive: bool,
    pub s3b: bool,
    pub allow_receive_only: bool,
    pub title: Option<String>,
    pub command_name: Option<String>,
}

#[verifier::ext_equal]
pub struct SendOptionsModel {
    pub port: Option<PortSpecModel>,
    pub outputs: Seq<SendOutputBindingModel>,
    pub baud: Option<u32>,
    pub rate_hz: Option<u32>,
    pub format: Option<Seq<char>>,
    pub display: PortDisplayModel,
    pub monitor_ports: Seq<InputBindingModel>,
    pub log_dir: Option<Seq<char>>,
    pub no_log: bool,
    pub interactive: bool,
    pub s3b: bool,
    pub allow_receive_only: bool,
    pub title: Option<Seq<char>>,
    pub command_name: Option<Seq<char>>,
}

impl DeepView for SendCliOptions {
    type V = SendOptionsModel;

    open spec fn deep_view(&self) -> SendOptionsModel {
        SendOptionsModel {
            port: self.port.deep_view(),
            outputs: self.outputs.deep_view(),
            baud: self.baud,
            rate_hz: self.rate_hz,
            format: self.format.deep_view(),
            display: self.display.deep_view(),
            monitor_ports: self.monitor_ports.deep_view(),
            log_dir: self.log_dir.deep_view(),
            no_log: self.no_log,
            interactive: self.interactive,
            s3b: self.s3b,
            allow_receive_only: self.allow_receive_only,
            title: self.title.deep_view(),
            command_name: self.command_name.deep_view(),
        }
    }
}

impl SendOptionsModel {
    /// Nothing asked for.
    pub open spec fn empty() -> SendOptionsModel {
        SendOptionsModel {
            port: None,
            outputs: seq![],
            baud: None,
            rate_hz: None,
            format: None,
            display: PortDisplayModel::empty(),
            monitor_ports: seq![],
            log_dir: None,
            no_log: false,
            interactive: false,
            s3b: false,
            allow_receive_only: false,
            title: None,
            command_name: None,
        }
    }
}

impl Default for SendCliOptions {
    fn default() -> (options: SendCliOptions)
        ensures
            options.deep_view() == SendOptionsModel::empty(),
    {
        let options = SendCliOptions {
            port: None,
            outputs: Vec::new(),
            baud: None,
            rate_hz: None,
            format: None,
            display: PortDisplayConfig::default(),
            monitor_ports: Vec::new(),
            log_dir: None,
            no_log: false,
            interactive: false,
            s3b: false,
            allow_receive_only: false,
            title: None,
            command_name: None,
        };
        assert(options.deep_view() =~= SendOptionsModel::empty());
        options
    }
}

/// The options with one assignment of `--config` applied.
pub open spec fn send_setting(o: SendOptionsModel, kv: KeyValue) -> Result<
    SendOptionsModel,
    Seq<char>,
> {
    let key = upper(kv.0);
    if key == "RATE"@ {
        mapped(
            u32_arg("RATE"@, kv.1),
            |n: u32| SendOptionsModel { rate_hz: Some(n), ..o },
        )
    } else if key == "FORMAT"@ {
        Ok(SendOptionsModel { format: Some(kv.1), ..o })
    } else if key == "DISPLAY"@ {
        mapped(
            display_assignment(kv.1),
            |a: (DisplayTarget, DisplayValue)|
                SendOptionsModel { display: o.display.assigned(a), ..o },
        )
    } else if key == "LOG_DIR"@ {
        Ok(SendOptionsModel { log_dir: Some(kv.1), ..o })
    } else {
        Err("unknown send config key: "@ + key)
    }
}

fn apply_send_setting(options: &mut SendCliOptions, kv: &KeyValueArg) -> (r: Result<(), String>)
    ensures
        stepped(r, *final(options)) == send_setting(old(options).deep_view(), kv.deep_view()),
        r is Err ==> final(options).deep_view() == old(options).deep_view(),
{
    let key_text = to_upper(kv.key.as_str());
    let key = key_text.as_str();
    let value = kv.value.as_str();
    if same(key, "RATE") {
        options.rate_hz = Some(parse_u32_arg("RATE", value)?);
    } else if same(key, "FORMAT") {
        options.format = Some(value.to_owned());
    } else if same(key, "DISPLAY") {
        let assignment = parse_display_assignment(value)?;
        assignment.apply_to(&mut options.display);
    } else if same(key, "LOG_DIR") {
        options.log_dir = Some(value.to_owned());
    } else {
        return Err(cat2("unknown send config key: ", key));
    }
    Ok(())
}

impl Configurable for SendCliOptions {
    open spec fn setting(m: SendOptionsModel, kv: KeyValue) -> Result<
        SendOptionsModel,
        Seq<char>,
    > {
        send_setting(m, kv)
    }

    fn apply_setting(&mut self, kv: &KeyValueArg) -> (r: Result<(), String>) {
        apply_send_setting(self, kv)
    }
}

pub fn apply_send_config_args(options: &mut SendCliOptions, value: &str) -> (r: Result<(), String>)
    ensures
        stepped(r, *final(options)) == configured(
            setting_step::<SendCliOptions>(),
            old(options).deep_view(),
            value@,
        ),
        final(options).deep_view() == left_by_config(
            setting_step::<SendCliOptions>(),
            old(options).deep_view(),
            value@,
        ),
{
    apply_settings(options, value)
}

/// The options after the argument at `i` and the value that it takes, and the next position.
pub open spec fn send_arg(o: SendOptionsModel, args: Seq<Seq<char>>, i: int) -> Result<
    (SendOptionsModel, int),
    Seq<char>,
> {
    let arg = args[i];
    if arg == "--port"@ || arg == "-p"@ {
        with_value(
            args,
            i,
            "--port"@,
            |v: Seq<char>|
                mapped(
                    port_spec("--port"@, v),
                    |spec: PortSpecModel| SendOptionsModel { port: Some(spec), ..o },
                ),
        )
    } else if arg == "--output-port"@ || arg == "-o"@ {
        with_value(
            args,
            i,
            "--output-port"@,
            |v: Seq<char>|
                mapped(
                    send_output_binding(v),
                    |b: SendOutputBindingModel|
                        SendOptionsModel { outputs: o.outputs.push(b), ..o },
                ),
        )
    } else if arg == "--config"@ {
        with_value(
            args,
            i,
            "--config"@,
            |v: Seq<char>| configured(setting_step::<SendCliOptions>(), o, v),
        )
    } else if arg == "--baud"@ || arg == "-b"@ {
        with_value(
            args,
            i,
            "--baud"@,
            |v: Seq<char>|
                mapped(u32_arg("--baud"@, v), |n: u32| SendOptionsModel { baud: Some(n), ..o }),
        )
    } else if arg == "--rate"@ || arg == "-r"@ {
        with_value(
            args,
            i,
            "--rate"@,
            |v: Seq<char>|
                mapped(
                    u32_arg("--rate"@, v),
                    |n: u32| SendOptionsModel { rate_hz: Some(n), ..o },
                ),
        )
    } else if arg == "--format"@ || arg == "-f"@ {
        with_value(
            args,
            i,
            "--format"@,
            |v: Seq<char>|
                Ok::<SendOptionsModel, Seq<char>>(SendOptionsModel { format: Some(v), ..o }),
        )
    } else if arg == "--display"@ {
        with_value(
            args,
            i,
            "--display"@,
            |v: Seq<char>|
                mapped(
                    display_assignment(v),
                    |a: (DisplayTarget, DisplayValue)|
                        SendOptionsModel { display: o.display.assigned(a), ..o },
                ),
        )
    } else if arg == "--monitor"@ || arg == "-m"@ {
        with_value(
            args,
            i,
            "--monitor"@,
            |v: Seq<char>|
                mapped(
                    send_monitor_binding(v),
                    |b: InputBindingModel|
                        SendOptionsModel { monitor_ports: o.monitor_ports.push(b), ..o },
                ),
        )
    } else if arg == "--interactive"@ || arg == "-i"@ {
        Ok((SendOptionsModel { interactive: true, ..o }, i + 1))
    } else if arg == "--log-dir"@ {
        with_value(
            args,
            i,
            "--log-dir"@,
            |v: Seq<char>|
                Ok::<SendOptionsModel, Seq<char>>(SendOptionsModel { log_dir: Some(v), ..o }),
        )
    } else if arg == "--no-log"@ {
        Ok((SendOptionsModel { no_log: true, ..o }, i + 1))
    } else if arg == "--s3b"@ {
        Ok((SendOptionsModel { s3b: true, ..o }, i + 1))
    } else {
        Err("unknown option for send: "@ + arg)
    }
}

fn take_send_arg(options: &mut SendCliOptions, args: &Vec<String>, i: usize) -> (r: Result<
    usize,
    String,
>)
    requires
        i < args.len(),
    ensures
        stepped_to(r, *final(options)) == send_arg(
            old(options).deep_view(),
            texts(args@),
            i as int,
        ),
        r is Ok ==> i < r->Ok_0 <= args.len(),
{
    let arg = args[i].as_str();
    assert(texts(args@)[i as int] == arg@);
    if same(arg, "--port") || same(arg, "-p") {
        let value = next_value(args, i + 1, "--port")?;
        options.port = Some(parse_port_spec("--port", value)?);
    } else if same(arg, "--output-port") || same(arg, "-o") {
        let output = parse_send_output_binding(next_value(args, i + 1, "--output-port")?)?;
        let ghost before = options.outputs.deep_view();
        let ghost added = output.deep_view();
        options.outputs.push(output);
        assert(options.outputs.deep_view() =~= before.push(added));
    } else if same(arg, "--config") {
        apply_send_config_args(options, next_value(args, i + 1, "--config")?)?;
    } else if same(arg, "--baud") || same(arg, "-b") {
        let value = next_value(args, i + 1, "--baud")?;
        options.baud = Some(parse_u32_arg("--baud", value)?);
    } else if same(arg, "--rate") || same(arg, "-r") {
        let value = next_value(args, i + 1, "--rate")?;
        options.rate_hz = Some(parse_u32_arg("--rate", value)?);
    } else if same(arg, "--format") || same(arg, "-f") {
        let value = next_value(args, i + 1, "--format")?;
        options.format = Some(value.to_owned());
    } else if same(arg, "--display") {
        let value = next_value(args, i + 1, "--display")?;
        let assignment = parse_display_assignment(value)?;
        assignment.apply_to(&mut options.display);
    } else if same(arg, "--monitor") || same(arg, "-m") {
        let monitor = parse_send_monitor_binding(next_value(args, i + 1, "--monitor")?)?;
        let ghost before = options.monitor_ports.deep_view();
        let ghost added = monitor.deep_view();
        options.monitor_ports.push(monitor);
        assert(options.monitor_ports.deep_view() =~= before.push(added));
    } else if same(arg, "--interactive") || same(arg, "-i") {
        options.interactive = true;
        return Ok(i + 1);
    } else if same(arg, "--log-dir") {
        let value = next_value(args, i + 1, "--log-dir")?;
        options.log_dir = Some(value.to_owned());
    } else if same(arg, "--no-log") {
        options.no_log = true;
        return Ok(i + 1);
    } else if same(arg, "--s3b") {
        options.s3b = true;
        return Ok(i + 1);
    } else {
        return Err(cat2("unknown option for send: ", arg));
    }
    Ok(i + 2)
}

impl CommandOptions for SendCliOptions {
    open spec fn argument(m: SendOptionsModel, args: Seq<Seq<char>>, i: int) -> Result<
        (SendOptionsModel, int),
        Seq<char>,
    > {
        send_arg(m, args, i)
    }

    fn take_argument(self, args: &Vec<String>, i: usize) -> (r: Result<(Self, usize), String>) {
        let mut options = self;
        let next: usize = take_send_arg(&mut options, args, i)?;
        Ok((options, next))
    }
}

/// What the arguments ask for.
pub open spec fn send_args(args: Seq<Seq<char>>) -> Result<SendOptionsModel, Seq<char>> {
    arguments_taken(argument_step::<SendCliOptions>(), SendOptionsModel::empty(), args, 0)
}

pub fn parse_send_args(args: Vec<String>) -> (r: Result<SendCliOptions, String>)
    ensures
        viewed(r) == send_args(texts(args@)),
{
    take_arguments(SendCliOptions::default(), &args)
}

// ---------------------------------------------------------------------------
// The form of io that sends at whole packets per second
// ---------------------------------------------------------------------------

#[derive(Debug)]
pub struct IoCliOptions {
    pub inputs: Vec<IoBindingArg>,
    pub outputs: Vec<IoBindingArg>,
    pub send_options: SendCliOptions,
}

#[verifier::ext_equal]
pub struct SendIoModel {
    pub inputs: Seq<BindingArgModel>,
    pub outputs: Seq<BindingArgModel>,
    pub send_options: SendOptionsModel,
}

impl DeepView for IoCliOptions {
    type V = SendIoModel;

    open spec fn deep_view(&self) -> SendIoModel {
        SendIoModel {
            inputs: self.inputs.deep_view(),
            outputs: self.outputs.deep_view(),
            send_options: self.send_options.deep_view(),
        }
    }
}

impl SendIoModel {
    pub open spec fn with_send(self, send_options: SendOptionsModel) -> SendIoModel {
        SendIoModel { send_options, ..self }
    }

    pub open spec fn with_input(self, input: BindingArgModel) -> SendIoModel {
        SendIoModel { inputs: self.inputs.push(input), ..self }
    }

    pub open spec fn with_output(self, output: BindingArgModel) -> SendIoModel {
        SendIoModel { outputs: self.outputs.push(output), ..self }
    }
}

/// The options after the argument at `i` and the values that it takes, and the next position.
pub open spec fn send_io_arg(o: SendIoModel, args: Seq<Seq<char>>, i: int) -> Result<
    (SendIoModel, int),
    Seq<char>,
> {
    let arg = args[i];
    let send = o.send_options;
    if value_behind(arg, input_names()) is Some {
        Ok(
            (
                o.with_input(BindingArgModel::Provided(value_behind(arg, input_names())->0)),
                i + 1,
            ),
        )
    } else if value_behind(arg, output_names()) is Some {
        Ok(
            (
                o.with_output(BindingArgModel::Provided(value_behind(arg, output_names())->0)),
                i + 1,
            ),
        )
    } else if arg == "--input"@ || arg == "--input-port"@ || arg == "-i"@ {
        Ok(
            (
                o.with_input(BindingArgModel::from_option(optional_value(args, i + 1))),
                past_optional(args, i),
            ),
        )
    } else if arg == "--output"@ || arg == "--output-port"@ || arg == "-o"@ {
        Ok(
            (
                o.with_output(BindingArgModel::from_option(optional_value(args, i + 1))),
                past_optional(args, i),
            ),
        )
    } else if arg == "--config"@ {
        with_value(
            args,
            i,
            "--config"@,
            |v: Seq<char>|
                mapped(
                    configured(setting_step::<SendCliOptions>(), send, v),
                    |m: SendOptionsModel| o.with_send(m),
                ),
        )
    } else if arg == "--baud"@ || arg == "-b"@ {
        with_value(
            args,
            i,
            "--baud"@,
            |v: Seq<char>|
                mapped(
                    u32_arg("--baud"@, v),
                    |n: u32| o.with_send(SendOptionsModel { baud: Some(n), ..send }),
                ),
        )
    } else if arg == "--rate"@ || arg == "-r"@ {
        with_value(
            args,
            i,
            "--rate"@,
            |v: Seq<char>|
                mapped(
                    u32_arg("--rate"@, v),
                    |n: u32| o.with_send(SendOptionsModel { rate_hz: Some(n), ..send }),
                ),
        )
    } else if arg == "--format"@ || arg == "-f"@ {
        with_value(
            args,
            i,
            "--format"@,
            |v: Seq<char>|
                Ok::<SendIoModel, Seq<char>>(
                    o.with_send(SendOptionsModel { format: Some(v), ..send }),
                ),
        )
    } else if arg == "--display"@ {
        with_value(
            args,
            i,
            "--display"@,
            |v: Seq<char>|
                mapped(
                    display_assignment(v),
                    |a: (DisplayTarget, DisplayValue)|
                        o.with_send(SendOptionsModel { display: send.display.assigned(a), ..send }),
                ),
        )
    } else if arg == "--log-dir"@ {
        with_value(
            args,
            i,
            "--log-dir"@,
            |v: Seq<char>|
                Ok::<SendIoModel, Seq<char>>(
                    o.with_send(SendOptionsModel { log_dir: Some(v), ..send }),
                ),
        )
    } else if arg == "--no-log"@ {
        Ok((o.with_send(SendOptionsModel { no_log: true, ..send }), i + 1))
    } else if arg == "--s3b"@ {
        Ok((o.with_send(SendOptionsModel { s3b: true, ..send }), i + 1))
    } else {
        Err("unknown option for io: "@ + arg)
    }
}

fn take_send_io_binding(options: &mut IoCliOptions, args: &Vec<String>, i: usize) -> (r: Option<
    usize,
>)
    requires
        i < args.len(),
    ensures
        match r {
            Some(next) => i < next <= args.len() && send_io_arg(
                old(options).deep_view(),
                texts(args@),
                i as int,
            ) == Ok::<(SendIoModel, int), Seq<char>>((final(options).deep_view(), next as int)),
            None => *final(options) == *old(options) && {
                let arg = texts(args@)[i as int];
                &&& value_behind(arg, input_names()) is None
                &&& value_behind(arg, output_names()) is None
                &&& arg != "--input"@ && arg != "--input-port"@ && arg != "-i"@
                &&& arg != "--output"@ && arg != "--output-port"@ && arg != "-o"@
            },
        },
{
    let arg = args[i].as_str();
    let input_options = ["-i", "--input", "--input-port"];
    let output_options = ["-o", "--output", "--output-port"];
    proof {
        assert(texts(args@)[i as int] == arg@);
        assert(input_options@.map_values(|n: &str| n@) =~= input_names());
        assert(output_options@.map_values(|n: &str| n@) =~= output_names());
    }
    if let Some(value) = strip_value(arg, &input_options) {
        push_binding(&mut options.inputs, IoBindingArg::Provided(value.to_owned()));
        return Some(i + 1);
    }
    if let Some(value) = strip_value(arg, &output_options) {
        push_binding(&mut options.outputs, IoBindingArg::Provided(value.to_owned()));
        return Some(i + 1);
    }
    let is_input = same(arg, "--input") || same(arg, "--input-port") || same(arg, "-i");
    let is_output = same(arg, "--output") || same(arg, "--output-port") || same(arg, "-o");
    if !is_input && !is_output {
        return None;
    }
    let value = next_optional_value(args, i + 1);
    let binding = IoBindingArg::from_option(value);
    if is_input {
        push_binding(&mut options.inputs, binding);
    } else {
        push_binding(&mut options.outputs, binding);
    }
    if value.is_some() {
        Some(i + 2)
    } else {
        Some(i + 1)
    }
}

fn take_send_io_arg(options: &mut IoCliOptions, args: &Vec<String>, i: usize) -> (r: Result<
    usize,
    String,
>)
    requires
        i < args.len(),
    ensures
        stepped_to(r, *final(options)) == send_io_arg(
            old(options).deep_view(),
            texts(args@),
            i as int,
        ),
        r is Ok ==> i < r->Ok_0 <= args.len(),
{
    if let Some(next) = take_send_io_binding(options, args, i) {
        return Ok(next);
    }
    let arg = args[i].as_str();
    assert(texts(args@)[i as int] == arg@);
    if same(arg, "--config") {
        apply_send_config_args(&mut options.send_options, next_value(args, i + 1, "--config")?)?;
    } else if same(arg, "--baud") || same(arg, "-b") {
        let value = next_value(args, i + 1, "--baud")?;
        options.send_options.baud = Some(parse_u32_arg("--baud", value)?);
    } else if same(arg, "--rate") || same(arg, "-r") {
        let value = next_value(args, i + 1, "--rate")?;
        options.send_options.rate_hz = Some(parse_u32_arg("--rate", value)?);
    } else if same(arg, "--format") || same(arg, "-f") {
        let value = next_value(args, i + 1, "--format")?;
        options.send_options.format = Some(value.to_owned());
    } else if same(arg, "--display") {
        let value = next_value(args, i + 1, "--display")?;
        let assignment = parse_display_assignment(value)?;
        assignment.apply_to(&mut options.send_options.display);
    } else if same(arg, "--log-dir") {
        let value = next_value(args, i + 1, "--log-dir")?;
        options.send_options.log_dir = Some(value.to_owned());
    } else if same(arg, "--no-log") {
        options.send_options.no_log = true;
        return Ok(i + 1);
    } else if same(arg, "--s3b") {
        options.send_options.s3b = true;
        return Ok(i + 1);
    } else {
        return Err(cat2("unknown option for io: ", arg));
    }
    Ok(i + 2)
}

impl CommandOptions for IoCliOptions {
    open spec fn argument(m: SendIoModel, args: Seq<Seq<char>>, i: int) -> Result<
        (SendIoModel, int),
        Seq<char>,
    > {
        send_io_arg(m, args, i)
    }

    fn take_argument(self, args: &Vec<String>, i: usize) -> (r: Result<(Self, usize), String>) {
        let mut options = self;
        let next: usize = take_send_io_arg(&mut options, args, i)?;
        Ok((options, next))
    }
}

/// Nothing asked for yet: a run under the name of `io` that may only receive.
pub open spec fn send_io_defaults() -> SendIoModel {
    SendIoModel {
        inputs: seq![],
        outputs: seq![],
        send_options: SendOptionsModel {
            rate_hz: Some(10),
            allow_receive_only: true,
            title: Some("acs io"@),
            command_name: Some("io"@),
            ..SendOptionsModel::empty()
        },
    }
}

/// What the arguments ask for; an input or an output is needed.
pub open spec fn send_io_args(args: Seq<Seq<char>>) -> Result<SendIoModel, Seq<char>> {
    match arguments_taken(argument_step::<IoCliOptions>(), send_io_defaults(), args, 0) {
        Err(e) => Err(e),
        Ok(o) => if o.inputs.len() == 0 && o.outputs.len() == 0 {
            Err("io requires at least one -i/--input or -o/--output"@)
        } else {
            Ok(o)
        },
    }
}

pub fn parse_io_args(args: Vec<String>) -> (r: Result<IoCliOptions, String>)
    ensures
        viewed(r) == send_io_args(texts(args@)),
{
    let mut send_options = SendCliOptions::default();
    send_options.rate_hz = Some(DEFAULT_IO_SEND_RATE_HZ);
    send_options.allow_receive_only = true;
    send_options.title = Some("acs io".to_owned());
    send_options.command_name = Some("io".to_owned());
    let start = IoCliOptions { inputs: Vec::new(), outputs: Vec::new(), send_options };
    assert(start.deep_view() =~= send_io_defaults());
    let options = take_arguments(start, &args)?;
    assert(options.deep_view().inputs.len() == options.inputs.len());
    assert(options.deep_view().outputs.len() == options.outputs.len());
    if options.inputs.len() == 0 && options.outputs.len() == 0 {
        return Err("io requires at least one -i/--input or -o/--output".to_owned());
    }
    Ok(options)
}

} // verus!

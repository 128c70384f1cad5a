//! `control`: a controller drives an output, and monitors are watched beside it.
use crate::args::{
    apply_settings, argument_step, arguments_taken, configured, left_by_config, mapped,
    next_optional_value, next_value, optional_value, parse_u32_arg, setting_step, stepped,
    stepped_to, strip_value, take_arguments, u32_arg, value_behind, with_value, CommandOptions,
    Configurable, KeyValue, KeyValueArg, PortSpec, PortSpecModel,
};
use crate::display::{
    display_assignment, parse_display_assignment, DisplayTarget, DisplayValue, PortDisplayConfig,
    PortDisplayModel,
};
use crate::io::{past_optional, push_binding, BindingArgModel, IoBindingArg};
use crate::session::{input_binding, parse_input_binding, InputBinding, InputBindingModel};
use crate::text::{cat2, same, texts, to_upper, upper, viewed};
use vstd::prelude::*;

verus! {

pub type ControlPortArg = IoBindingArg;

pub type ControlMonitorArg = IoBindingArg;

pub type ControlFormatArg = IoBindingArg;

pub type ControlMonitorBinding = InputBinding;

/// The monitor that a text names.
pub open spec fn control_monitor_binding(value: Seq<char>) -> Result<
    InputBindingModel,
    Seq<char>,
> {
    input_binding(value, "control monitor binding must not be empty"@, "control monitor binding"@)
}

pub fn parse_control_monitor_binding(value: &str) -> (r: Result<ControlMonitorBinding, String>)
    ensures
        viewed(r) == control_monitor_binding(value@),
{
    parse_input_binding(
        value,
        "control monitor binding must not be empty",
        "control monitor binding",
    )
}

#[derive(Debug)]
pub struct ControlCliOptions {
    pub port: Option<ControlPortArg>,
    pub baud: Option<u32>,
    pub controller: Option<String>,
    pub format: Option<ControlFormatArg>,
    pub rate_hz: Option<u32>,
    pub display: PortDisplayConfig,
    pub monitor_ports: Vec<ControlMonitorArg>,
    pub log_dir: Option<String>,
    pub no_log: bool,
    pub s3b: bool,
}

#[verifier::ext_equal]
pub struct ControlCliModel {
    pub port: Option<BindingArgModel>,
    pub baud: Option<u32>,
    pub controller: Option<Seq<char>>,
    pub format: Option<BindingArgModel>,
    pub rate_hz: Option<u32>,
    pub display: PortDisplayModel,
    pub monitor_ports: Seq<BindingArgModel>,
    pub log_dir: Option<Seq<char>>,
    pub no_log: bool,
    pub s3b: bool,
}

impl DeepView for ControlCliOptions {
    type V = ControlCliModel;

    open spec fn deep_view(&self) -> ControlCliModel {
        ControlCliModel {
            port: self.port.deep_view(),
            baud: self.baud,
            controller: self.controller.deep_view(),
            format: self.format.deep_view(),
            rate_hz: self.rate_hz,
            display: self.display.deep_view(),
            monitor_ports: self.monitor_ports.deep_view(),
            log_dir: self.log_dir.deep_view(),
            no_log: self.no_log,
            s3b: self.s3b,
        }
    }
}

impl ControlCliModel {
    /// Nothing asked for.
    pub open spec fn empty() -> ControlCliModel {
        ControlCliModel {
            port: None,
            baud: None,
            controller: None,
            format: None,
            rate_hz: None,
            display: PortDisplayModel::empty(),
            monitor_ports: seq![],
            log_dir: None,
            no_log: false,
            s3b: false,
        }
    }
}

impl Default for ControlCliOptions {
    fn default() -> (options: ControlCliOptions)
        ensures
            options.deep_view() == ControlCliModel::empty(),
    {
        let options = ControlCliOptions {
            port: None,
            baud: None,
            controller: None,
            format: None,
            rate_hz: None,
            display: PortDisplayConfig::default(),
            monitor_ports: Vec::new(),
            log_dir: None,
            no_log: false,
            s3b: false,
        };
        assert(options.deep_view() =~= ControlCliModel::empty());
        options
    }
}

/// What a run is asked for, once nothing is left to ask.
#[derive(Debug)]
pub struct ControlRuntimeOptions {
    pub port: Option<PortSpec>,
    pub baud: Option<u32>,
    pub controller: Option<String>,
    pub format: Option<String>,
    pub rate_hz: Option<u32>,
    pub display: PortDisplayConfig,
    pub monitor_ports: Vec<ControlMonitorBinding>,
    pub log_dir: Option<String>,
    pub no_log: bool,
    pub s3b: bool,
}

#[verifier::ext_equal]
pub struct ControlRunModel {
    pub port: Option<PortSpecModel>,
    pub baud: Option<u32>,
    pub controller: Option<Seq<char>>,
    pub format: Option<Seq<char>>,
    pub rate_hz: Option<u32>,
    pub display: PortDisplayModel,
    pub monitor_ports: Seq<InputBindingModel>,
    pub log_dir: Option<Seq<char>>,
    pub no_log: bool,
    pub s3b: bool,
}

impl DeepView for ControlRuntimeOptions {
    type V = ControlRunModel;

    open spec fn deep_view(&self) -> ControlRunModel {
        ControlRunModel {
            port: self.port.deep_view(),
            baud: self.baud,
            controller: self.controller.deep_view(),
            format: self.format.deep_view(),
            rate_hz: self.rate_hz,
            display: self.display.deep_view(),
            monitor_ports: self.monitor_ports.deep_view(),
            log_dir: self.log_dir.deep_view(),
            no_log: self.no_log,
            s3b: self.s3b,
        }
    }
}

impl ControlRunModel {
    /// Nothing asked for.
    pub open spec fn empty() -> ControlRunModel {
        ControlRunModel {
            port: None,
            baud: None,
            controller: None,
            format: None,
            rate_hz: None,
            display: PortDisplayModel::empty(),
            monitor_ports: seq![],
            log_dir: None,
            no_log: false,
            s3b: false,
        }
    }
}

impl Default for ControlRuntimeOptions {
    fn default() -> (options: ControlRuntimeOptions)
        ensures
            options.deep_view() == ControlRunModel::empty(),
    {
        let options = ControlRuntimeOptions {
            port: None,
            baud: None,
            controller: None,
            format: None,
            rate_hz: None,
            display: PortDisplayConfig::default(),
            monitor_ports: Vec::new(),
            log_dir: None,
            no_log: false,
            s3b: false,
        };
        assert(options.deep_view() =~= ControlRunModel::empty());
        options
    }
}

/// The options with one assignment of `--config` applied.
pub open spec fn control_setting(o: ControlCliModel, kv: KeyValue) -> Result<
    ControlCliModel,
    Seq<char>,
> {
    let key = upper(kv.0);
    if key == "CONTROLLER"@ {
        Ok(ControlCliModel { controller: Some(kv.1), ..o })
    } else if key == "FORMAT"@ {
        Ok(ControlCliModel { format: Some(BindingArgModel::Provided(kv.1)), ..o })
    } else if key == "RATE"@ {
        mapped(u32_arg("RATE"@, kv.1), |n: u32| ControlCliModel { rate_hz: Some(n), ..o })
    } else if key == "DISPLAY"@ {
        mapped(
            display_assignment(kv.1),
            |a: (DisplayTarget, DisplayValue)|
                ControlCliModel { display: o.display.assigned(a), ..o },
        )
    } else if key == "LOG_DIR"@ {
        Ok(ControlCliModel { log_dir: Some(kv.1), ..o })
    } else {
        Err("unknown control config key: "@ + key)
    }
}

fn apply_control_setting(options: &mut ControlCliOptions, kv: &KeyValueArg) -> (r: Result<
    (),
    String,
>)
    ensures
        stepped(r, *final(options)) == control_setting(old(options).deep_view(), kv.deep_view()),
        r is Err ==> final(options).deep_view() == old(options).deep_view(),
{
    let key_text = to_upper(kv.key.as_str());
    let key = key_text.as_str();
    let value = kv.value.as_str();
    if same(key, "CONTROLLER") {
        options.controller = Some(value.to_owned());
    } else if same(key, "FORMAT") {
        options.format = Some(IoBindingArg::Provided(value.to_owned()));
    } else if same(key, "RATE") {
        options.rate_hz = Some(parse_u32_arg("RATE", value)?);
    } else if same(key, "DISPLAY") {
        let assignment = parse_display_assignment(value)?;
        assignment.apply_to(&mut options.display);
    } else if same(key, "LOG_DIR") {
        options.log_dir = Some(value.to_owned());
    } else {
        return Err(cat2("unknown control config key: ", key));
    }
    Ok(())
}

impl Configurable for ControlCliOptions {
    open spec fn setting(m: ControlCliModel, kv: KeyValue) -> Result<ControlCliModel, Seq<char>> {
        control_setting(m, kv)
    }

    fn apply_setting(&mut self, kv: &KeyValueArg) -> (r: Result<(), String>) {
        apply_control_setting(self, kv)
    }
}

pub fn apply_control_config_args(options: &mut ControlCliOptions, value: &str) -> (r: Result<
    (),
    String,
>)
    ensures
        stepped(r, *final(options)) == configured(
            setting_step::<ControlCliOptions>(),
            old(options).deep_view(),
            value@,
        ),
        final(options).deep_view() == left_by_config(
            setting_step::<ControlCliOptions>(),
            old(options).deep_view(),
            value@,
        ),
{
    apply_settings(options, value)
}

pub fn strip_control_value<'a>(arg: &'a str, names: &[&str]) -> (r: Option<&'a str>)
    ensures
        r.deep_view() == value_behind(arg@, names@.map_values(|n: &str| n@)),
{
    strip_value(arg, names)
}

pub fn next_optional_control_binding<'a>(args: &'a Vec<String>, index: usize) -> (r: Option<
    &'a str,
>)
    ensures
        r.deep_view() == optional_value(texts(args@), index as int),
{
    next_optional_value(args, index)
}

pub open spec fn port_names() -> Seq<Seq<char>> {
    seq!["-p"@, "--port"@]
}

pub open spec fn monitor_names() -> Seq<Seq<char>> {
    seq!["-m"@, "--monitor"@]
}

pub open spec fn format_options() -> Seq<Seq<char>> {
    seq!["-f"@, "--format"@]
}

pub open spec fn rate_names() -> Seq<Seq<char>> {
    seq!["-r"@, "--rate"@]
}

/// What an argument of the form `OPTION=VALUE` makes of the options; nothing where it is none.
pub open spec fn control_assigned(o: ControlCliModel, arg: Seq<char>) -> Option<
    Result<ControlCliModel, Seq<char>>,
> {
    match (
        value_behind(arg, port_names()),
        value_behind(arg, monitor_names()),
        value_behind(arg, format_options()),
        value_behind(arg, rate_names()),
    ) {
        (Some(v), _, _, _) => Some(
            Ok(ControlCliModel { port: Some(BindingArgModel::Provided(v)), ..o }),
        ),
        (None, Some(v), _, _) => Some(
            Ok(
                ControlCliModel {
                    monitor_ports: o.monitor_ports.push(BindingArgModel::Provided(v)),
                    ..o
                },
            ),
        ),
        (None, None, Some(v), _) => Some(
            Ok(ControlCliModel { format: Some(BindingArgModel::Provided(v)), ..o }),
        ),
        (None, None, None, Some(v)) => Some(
            mapped(u32_arg("--rate"@, v), |n: u32| ControlCliModel { rate_hz: Some(n), ..o }),
        ),
        (None, None, None, None) => None,
    }
}

/// The options after the argument at `i` and the values that it takes, and the next position.
pub open spec fn control_arg(o: ControlCliModel, args: Seq<Seq<char>>, i: int) -> Result<
    (ControlCliModel, int),
    Seq<char>,
> {
    let arg = args[i];
    if control_assigned(o, arg) is Some {
        mapped(control_assigned(o, arg)->0, |m: ControlCliModel| (m, i + 1))
    } else if arg == "--port"@ || arg == "-p"@ {
        Ok(
            (
                ControlCliModel {
                    port: Some(BindingArgModel::from_option(optional_value(args, i + 1))),
                    ..o
                },
                past_optional(args, i),
            ),
        )
    } else if arg == "--config"@ {
        with_value(
            args,
            i,
            "--config"@,
            |v: Seq<char>| configured(setting_step::<ControlCliOptions>(), o, v),
        )
    } else if arg == "--baud"@ || arg == "-b"@ {
        with_value(
            args,
            i,
            "--baud"@,
            |v: Seq<char>|
                mapped(u32_arg("--baud"@, v), |n: u32| ControlCliModel { baud: Some(n), ..o }),
        )
    } else if arg == "--rate"@ || arg == "-r"@ {
        with_value(
            args,
            i,
            "--rate"@,
            |v: Seq<char>|
                mapped(u32_arg("--rate"@, v), |n: u32| ControlCliModel { rate_hz: Some(n), ..o }),
        )
    } else if arg == "--controller"@ || arg == "-c"@ {
        with_value(
            args,
            i,
            "--controller"@,
            |v: Seq<char>|
                Ok::<ControlCliModel, Seq<char>>(ControlCliModel { controller: Some(v), ..o }),
        )
    } else if arg == "--format"@ || arg == "-f"@ {
        Ok(
            (
                ControlCliModel {
                    format: Some(BindingArgModel::from_option(optional_value(args, i + 1))),
                    ..o
                },
                past_optional(args, i),
            ),
        )
    } else if arg == "--display"@ {
        with_value(
            args,
            i,
            "--display"@,
            |v: Seq<char>|
                mapped(
                    display_assignment(v),
                    |a: (DisplayTarget, DisplayValue)|
                        ControlCliModel { display: o.display.assigned(a), ..o },
                ),
        )
    } else if arg == "--monitor"@ || arg == "-m"@ {
        Ok(
            (
                ControlCliModel {
                    monitor_ports: o.monitor_ports.push(
                        BindingArgModel::from_option(optional_value(args, i + 1)),
                    ),
                    ..o
                },
                past_optional(args, i),
            ),
        )
    } else if arg == "--log-dir"@ {
        with_value(
            args,
            i,
            "--log-dir"@,
            |v: Seq<char>|
                Ok::<ControlCliModel, Seq<char>>(ControlCliModel { log_dir: Some(v), ..o }),
        )
    } else if arg == "--no-log"@ {
        Ok((ControlCliModel { no_log: true, ..o }, i + 1))
    } else if arg == "--s3b"@ {
        Ok((ControlCliModel { s3b: true, ..o }, i + 1))
    } else {
        Err("unknown option for control: "@ + arg)
    }
}

/// Takes an argument of the form `OPTION=VALUE`.
fn take_assignment(options: &mut ControlCliOptions, arg: &str) -> (r: Result<bool, String>)
    ensures
        match r {
            Ok(true) => control_assigned(old(options).deep_view(), arg@) == Some(
                Ok::<ControlCliModel, Seq<char>>(final(options).deep_view()),
            ),
            Ok(false) => control_assigned(old(options).deep_view(), arg@) is None
                && *final(options) == *old(options),
            Err(e) => control_assigned(old(options).deep_view(), arg@) == Some(
                Err::<ControlCliModel, Seq<char>>(e@),
            ),
        },
{
    let ports = ["-p", "--port"];
    let monitors = ["-m", "--monitor"];
    let formats = ["-f", "--format"];
    let rates = ["-r", "--rate"];
    proof {
        assert(ports@.map_values(|n: &str| n@) =~= port_names());
        assert(monitors@.map_values(|n: &str| n@) =~= monitor_names());
        assert(formats@.map_values(|n: &str| n@) =~= format_options());
        assert(rates@.map_values(|n: &str| n@) =~= rate_names());
    }
    if let Some(value) = strip_control_value(arg, &ports) {
        options.port = Some(IoBindingArg::Provided(value.to_owned()));
        return Ok(true);
    }
    if let Some(value) = strip_control_value(arg, &monitors) {
        push_binding(&mut options.monitor_ports, IoBindingArg::Provided(value.to_owned()));
        return Ok(true);
    }
    if let Some(value) = strip_control_value(arg, &formats) {
        options.format = Some(IoBindingArg::Provided(value.to_owned()));
        return Ok(true);
    }
    if let Some(value) = strip_control_value(arg, &rates) {
        options.rate_hz = Some(parse_u32_arg("--rate", value)?);
        return Ok(true);
    }
    Ok(false)
}

fn take_control_arg(options: &mut ControlCliOptions, args: &Vec<String>, i: usize) -> (r: Result<
    usize,
    String,
>)
    requires
        i < args.len(),
    ensures
        stepped_to(r, *final(options)) == control_arg(
            old(options).deep_view(),
            texts(args@),
            i as int,
        ),
        r is Ok ==> i < r->Ok_0 <= args.len(),
{
    let arg = args[i].as_str();
    assert(texts(args@)[i as int] == arg@);
    if take_assignment(options, arg)? {
        return Ok(i + 1);
    }
    if same(arg, "--port") || same(arg, "-p") {
        let value = next_optional_control_binding(args, i + 1);
        options.port = Some(IoBindingArg::from_option(value));
        if value.is_none() {
            return Ok(i + 1);
        }
    } else if same(arg, "--config") {
        apply_control_config_args(options, next_value(args, i + 1, "--config")?)?;
    } else if same(arg, "--baud") || same(arg, "-b") {
        let value = next_value(args, i + 1, "--baud")?;
        options.baud = Some(parse_u32_arg("--baud", value)?);
    } else if same(arg, "--rate") || same(arg, "-r") {
        let value = next_value(args, i + 1, "--rate")?;
        options.rate_hz = Some(parse_u32_arg("--rate", value)?);
    } else if same(arg, "--controller") || same(arg, "-c") {
        let value = next_value(args, i + 1, "--controller")?;
        options.controller = Some(value.to_owned());
    } else if same(arg, "--format") || same(arg, "-f") {
        let value = next_optional_control_binding(args, i + 1);
        options.format = Some(IoBindingArg::from_option(value));
        if value.is_none() {
            return Ok(i + 1);
        }
    } else if same(arg, "--display") {
        let value = next_value(args, i + 1, "--display")?;
        let assignment = parse_display_assignment(value)?;
        assignment.apply_to(&mut options.display);
    } else if same(arg, "--monitor") || same(arg, "-m") {
        let value = next_optional_control_binding(args, i + 1);
        push_binding(&mut options.monitor_ports, IoBindingArg::from_option(value));
        if value.is_none() {
            return Ok(i + 1);
        }
    } else if same(arg, "--log-dir") {
        let value = next_value(args, i + 1, "--log-dir")?;
        options.log_dir = Some(value.to_owned());
    } else if same(arg, "--no-log") {
        options.no_log = true;
        return Ok(i + 1);
    } else if same(arg, "--s3b") {
        options.s3b = true;
        return Ok(i + 1);
    } else {
        return Err(cat2("unknown option for control: ", arg));
    }
    Ok(i + 2)
}

impl CommandOptions for ControlCliOptions {
    open spec fn argument(m: ControlCliModel, args: Seq<Seq<char>>, i: int) -> Result<
        (ControlCliModel, int),
        Seq<char>,
    > {
        control_arg(m, args, i)
    }

    fn take_argument(self, args: &Vec<String>, i: usize) -> (r: Result<(Self, usize), String>) {
        let mut options = self;
        let next: usize = take_control_arg(&mut options, args, i)?;
        Ok((options, next))
    }
}

/// What the arguments ask for.
pub open spec fn control_args(args: Seq<Seq<char>>) -> Result<ControlCliModel, Seq<char>> {
    arguments_taken(argument_step::<ControlCliOptions>(), ControlCliModel::empty(), args, 0)
}

pub fn parse_control_args(args: Vec<String>) -> (r: Result<ControlCliOptions, String>)
    ensures
        viewed(r) == control_args(texts(args@)),
{
    take_arguments(ControlCliOptions::default(), &args)
}

} // verus!

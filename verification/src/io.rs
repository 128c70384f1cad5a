//! `io`: sending sample packets to outputs and picking packets out of inputs.
//!
//! A send rate is a number of packets per second, or of seconds per packet. The number itself is
//! kept as it was written; what it denotes is told by a reading of its text.
use crate::args::{
    apply_settings, argument_step, arguments_taken, configured, left_by_config, mapped,
    next_optional_value, next_value, optional_value, parse_port_spec, parse_u32_arg, port_spec,
    setting_step, stepped, stepped_to, strip_value, take_arguments, u32_arg, value_behind,
    with_value, CommandOptions, Configurable, KeyValue, KeyValueArg,
};
use crate::command_line::{split_format, split_format_name};
use crate::display::{
    display_assignment, parse_display_assignment, DisplayTarget, DisplayValue, PortDisplayConfig,
    PortDisplayMode, PortDisplayModel,
};
use crate::session::{input_binding, parse_input_binding, InputBinding, InputBindingModel};
use crate::table::{entries, find_entry, found};
use crate::text::{
    cat2, cat4, cut_at_first, cut_at_last, has_suffix, lower, rsplit_once, same, split_once,
    strip_suffix, texts, to_lower, to_upper, trim, trimmed, upper, viewed, is_digit,
};
use vstd::prelude::*;

verus! {

// ---------------------------------------------------------------------------
// Rates
// ---------------------------------------------------------------------------

/// What the text of a number denotes.
#[derive(Debug, Clone, Copy, PartialEq, Eq, Structural)]
pub enum NumberReading {
    /// No number.
    NotANumber,
    /// A number that is not finite or not above zero.
    NotPositive,
    /// A finite number above zero.
    Positive,
}

impl DeepView for NumberReading {
    type V = NumberReading;

    open spec fn deep_view(&self) -> NumberReading {
        *self
    }
}

/// The readings of number texts.
pub type NumberReadings = Vec<(String, NumberReading)>;

/// The readings of number texts by their models.
pub type ReadingsModel = Seq<(Seq<char>, NumberReading)>;

#[derive(Debug, Clone, Copy, PartialEq, Eq, Structural)]
pub enum RateUnit {
    Hz,
    Seconds,
}

/// A number of packets per second, or of seconds per packet.
#[derive(Debug, PartialEq, Eq)]
pub struct IoSendRate {
    pub number: String,
    pub unit: RateUnit,
}

#[verifier::ext_equal]
pub struct RateModel {
    pub number: Seq<char>,
    pub unit: RateUnit,
}

impl DeepView for IoSendRate {
    type V = RateModel;

    open spec fn deep_view(&self) -> RateModel {
        RateModel { number: self.number@, unit: self.unit }
    }
}

impl IoSendRate {
    /// A copy of the rate.
    pub fn duplicate(&self) -> (copy: IoSendRate)
        ensures
            copy.deep_view() == self.deep_view(),
    {
        IoSendRate { number: self.number.clone(), unit: self.unit }
    }
}

/// The text without an ending.
pub open spec fn without_suffix(s: Seq<char>, suffix: Seq<char>) -> Seq<char> {
    trimmed(s.take(s.len() - suffix.len()))
}

/// The number and the unit of a rate in lower case.
pub open spec fn rate_parts(value: Seq<char>) -> (Seq<char>, RateUnit) {
    let s = trimmed(value);
    if has_suffix(s, "seconds"@) {
        (without_suffix(s, "seconds"@), RateUnit::Seconds)
    } else if has_suffix(s, "second"@) {
        (without_suffix(s, "second"@), RateUnit::Seconds)
    } else if has_suffix(s, "secs"@) {
        (without_suffix(s, "secs"@), RateUnit::Seconds)
    } else if has_suffix(s, "sec"@) {
        (without_suffix(s, "sec"@), RateUnit::Seconds)
    } else if has_suffix(s, "s"@) {
        (without_suffix(s, "s"@), RateUnit::Seconds)
    } else if has_suffix(s, "hz"@) {
        (without_suffix(s, "hz"@), RateUnit::Hz)
    } else if has_suffix(s, "h"@) {
        (without_suffix(s, "h"@), RateUnit::Hz)
    } else {
        (s, RateUnit::Hz)
    }
}

pub fn parse_rate_unit(value: &str) -> (r: (&str, RateUnit))
    ensures
        r.0@ == rate_parts(value@).0,
        r.1 == rate_parts(value@).1,
{
    let s = trim(value);
    if let Some(number) = strip_suffix(s, "seconds") {
        return (trim(number), RateUnit::Seconds);
    }
    if let Some(number) = strip_suffix(s, "second") {
        return (trim(number), RateUnit::Seconds);
    }
    if let Some(number) = strip_suffix(s, "secs") {
        return (trim(number), RateUnit::Seconds);
    }
    if let Some(number) = strip_suffix(s, "sec") {
        return (trim(number), RateUnit::Seconds);
    }
    if let Some(number) = strip_suffix(s, "s") {
        return (trim(number), RateUnit::Seconds);
    }
    if let Some(number) = strip_suffix(s, "hz") {
        return (trim(number), RateUnit::Hz);
    }
    if let Some(number) = strip_suffix(s, "h") {
        return (trim(number), RateUnit::Hz);
    }
    (s, RateUnit::Hz)
}

/// The text starts as a number without a sign does.
pub open spec fn starts_as_number(s: Seq<char>) -> bool {
    s.len() > 0 && (is_digit(s[0]) || s[0] == '.')
}

fn begins_as_number(s: &str) -> (r: bool)
    ensures
        r == starts_as_number(s@),
{
    if s.is_empty() {
        return false;
    }
    let c = s.get_char(0);
    ('0' <= c && c <= '9') || c == '.'
}

/// A text that is meant as a rate: it starts with a digit or a dot.
pub open spec fn rate_like(value: Seq<char>) -> bool {
    let s = trimmed(value);
    let (number, unit) = rate_parts(lower(s));
    starts_as_number(s) || (s.len() > 0 && unit == RateUnit::Seconds && starts_as_number(number))
}

pub fn looks_like_rate_value(value: &str) -> (r: bool)
    ensures
        r == rate_like(value@),
{
    let s = trim(value);
    if s.is_empty() {
        return false;
    }
    if begins_as_number(s) {
        return true;
    }
    let small = to_lower(s);
    let (number, unit) = parse_rate_unit(small.as_str());
    unit == RateUnit::Seconds && begins_as_number(number)
}

/// The text whose reading decides whether a value is a rate.
pub fn rate_number(value: &str) -> (r: String)
    ensures
        r@ == rate_parts(lower(trimmed(value@))).0,
{
    let small = to_lower(trim(value));
    let (number, _) = parse_rate_unit(small.as_str());
    number.to_owned()
}

/// The rate that a value names; a text without a reading is no number.
pub open spec fn send_rate(
    context: Seq<char>,
    value: Seq<char>,
    readings: ReadingsModel,
) -> Result<RateModel, Seq<char>> {
    let s = trimmed(value);
    let (number, unit) = rate_parts(lower(s));
    if s.len() == 0 {
        Err(context + " must not be empty"@)
    } else {
        match found(readings, number) {
            Some(NumberReading::Positive) => Ok(RateModel { number, unit }),
            Some(NumberReading::NotPositive) => Err(context + " must be greater than 0"@),
            _ => Err("invalid "@ + context + ": "@ + value),
        }
    }
}

impl IoSendRate {
    pub fn parse(context: &str, value: &str, readings: &NumberReadings) -> (r: Result<
        IoSendRate,
        String,
    >)
        ensures
            viewed(r) == send_rate(context@, value@, entries(readings@)),
    {
        let s = trim(value);
        if s.is_empty() {
            return Err(cat2(context, " must not be empty"));
        }
        let small = to_lower(s);
        let (number, unit) = parse_rate_unit(small.as_str());
        match find_entry(readings, number) {
            Some(NumberReading::Positive) => Ok(IoSendRate { number: number.to_owned(), unit }),
            Some(NumberReading::NotPositive) => Err(cat2(context, " must be greater than 0")),
            _ => Err(cat4("invalid ", context, ": ", value)),
        }
    }
}

/// Ten packets per second.
pub open spec fn default_rate() -> RateModel {
    RateModel { number: "10"@, unit: RateUnit::Hz }
}

pub fn default_io_send_rate() -> (rate: IoSendRate)
    ensures
        rate.deep_view() == default_rate(),
{
    IoSendRate { number: "10".to_owned(), unit: RateUnit::Hz }
}

// ---------------------------------------------------------------------------
// Bindings
// ---------------------------------------------------------------------------

pub type IoInputBinding = InputBinding;

/// The input that a text names.
pub open spec fn io_input_binding(value: Seq<char>) -> Result<InputBindingModel, Seq<char>> {
    input_binding(value, "io input binding must not be empty"@, "io input binding"@)
}

pub fn parse_io_input_binding(value: &str) -> (r: Result<IoInputBinding, String>)
    ensures
        viewed(r) == io_input_binding(value@),
{
    parse_input_binding(value, "io input binding must not be empty", "io input binding")
}

/// An output as an option names it.
#[derive(Debug)]
pub struct IoOutputBinding {
    pub id: String,
    pub port: String,
    pub baud: Option<u32>,
    pub rate_hz: Option<IoSendRate>,
    pub format: Option<String>,
    pub display_mode: Option<PortDisplayMode>,
}

#[verifier::ext_equal]
pub struct IoOutputModel {
    pub id: Seq<char>,
    pub port: Seq<char>,
    pub baud: Option<u32>,
    pub rate_hz: Option<RateModel>,
    pub format: Option<Seq<char>>,
    pub display_mode: Option<PortDisplayMode>,
}

impl DeepView for IoOutputBinding {
    type V = IoOutputModel;

    open spec fn deep_view(&self) -> IoOutputModel {
        IoOutputModel {
            id: self.id@,
            port: self.port@,
            baud: self.baud,
            rate_hz: self.rate_hz.deep_view(),
            format: self.format.deep_view(),
            display_mode: self.display_mode,
        }
    }
}

/// What stands before a rate at the end, and the rate; everything and nothing where there is
/// none. What is meant as a rate must be one.
pub open spec fn split_rate(value: Seq<char>, readings: ReadingsModel) -> Result<
    (Seq<char>, Option<RateModel>),
    Seq<char>,
> {
    match cut_at_last(value, ',') {
        None => Ok((value, None)),
        Some((rest, text)) => match send_rate("io output rate"@, text, readings) {
            Ok(rate) => Ok((rest, Some(rate))),
            Err(e) => if rate_like(text) {
                Err(e)
            } else {
                Ok((value, None))
            },
        },
    }
}

/// `[ID=]PORT[@BAUD][,DISPLAY][,FORMAT][,RATE]`; without an id of its own an output goes by its
/// port.
pub open spec fn io_output_binding(value: Seq<char>, readings: ReadingsModel) -> Result<
    IoOutputModel,
    Seq<char>,
> {
    if value.len() == 0 {
        Err("io output binding must not be empty"@)
    } else {
        match split_rate(value, readings) {
            Err(e) => Err(e),
            Ok((rest, rate_hz)) => {
                let (binding, format) = split_format(rest);
                let (id, port_text) = match cut_at_first(binding, '=') {
                    Some((id, port)) => (Some(id), port),
                    None => (None, binding),
                };
                if id is Some && (id->0.len() == 0 || port_text.len() == 0) {
                    Err("invalid io output binding: "@ + value)
                } else {
                    match port_spec("io output binding"@, port_text) {
                        Err(e) => Err(e),
                        Ok(spec) => Ok(
                            IoOutputModel {
                                id: match id {
                                    Some(id) => id,
                                    None => spec.port,
                                },
                                port: spec.port,
                                baud: spec.baud,
                                rate_hz,
                                format,
                                display_mode: spec.display_mode,
                            },
                        ),
                    }
                }
            },
        }
    }
}

fn split_rate_text<'a>(value: &'a str, readings: &NumberReadings) -> (r: Result<
    (&'a str, Option<IoSendRate>),
    String,
>)
    ensures
        match r {
            Ok((rest, rate)) => split_rate(value@, entries(readings@)) == Ok::<
                (Seq<char>, Option<RateModel>),
                Seq<char>,
            >((rest@, rate.deep_view())),
            Err(e) => split_rate(value@, entries(readings@)) == Err::<
                (Seq<char>, Option<RateModel>),
                Seq<char>,
            >(e@),
        },
{
    match rsplit_once(value, ',') {
        None => Ok((value, None)),
        Some((rest, text)) => match IoSendRate::parse("io output rate", text, readings) {
            Ok(rate) => Ok((rest, Some(rate))),
            Err(e) => if looks_like_rate_value(text) {
                Err(e)
            } else {
                Ok((value, None))
            },
        },
    }
}

pub fn parse_io_output_binding(value: &str, readings: &NumberReadings) -> (r: Result<
    IoOutputBinding,
    String,
>)
    ensures
        viewed(r) == io_output_binding(value@, entries(readings@)),
{
    if value.is_empty() {
        return Err("io output binding must not be empty".to_owned());
    }
    let (rest, rate_hz) = split_rate_text(value, readings)?;
    let (binding, format_name) = split_format_name(rest);
    let format = match format_name {
        Some(name) => Some(name.to_owned()),
        None => None,
    };
    let (given_id, port_text): (Option<&str>, &str) = match split_once(binding, '=') {
        Some((id, port)) => {
            if id.is_empty() || port.is_empty() {
                return Err(cat2("invalid io output binding: ", value));
            }
            (Some(id), port)
        },
        None => (None, binding),
    };
    let spec = parse_port_spec("io output binding", port_text)?;
    let id = match given_id {
        Some(id) => id.to_owned(),
        None => spec.port.clone(),
    };
    Ok(
        IoOutputBinding {
            id,
            port: spec.port,
            baud: spec.baud,
            rate_hz,
            format,
            display_mode: spec.display_mode,
        },
    )
}

// ---------------------------------------------------------------------------
// Options
// ---------------------------------------------------------------------------

/// A binding that was given, or one to ask for.
#[derive(Debug, PartialEq, Eq)]
pub enum IoBindingArg {
    Provided(String),
    Prompt,
}

#[verifier::ext_equal]
pub enum BindingArgModel {
    Provided(Seq<char>),
    Prompt,
}

impl DeepView for IoBindingArg {
    type V = BindingArgModel;

    open spec fn deep_view(&self) -> BindingArgModel {
        match self {
            IoBindingArg::Provided(value) => BindingArgModel::Provided(value@),
            IoBindingArg::Prompt => BindingArgModel::Prompt,
        }
    }
}

impl BindingArgModel {
    /// What was given, or else one to ask for.
    pub open spec fn from_option(value: Option<Seq<char>>) -> BindingArgModel {
        match value {
            Some(value) => BindingArgModel::Provided(value),
            None => BindingArgModel::Prompt,
        }
    }
}

impl IoBindingArg {
    pub fn from_option(value: Option<&str>) -> (arg: IoBindingArg)
        ensures
            arg.deep_view() == BindingArgModel::from_option(value.deep_view()),
    {
        match value {
            Some(value) => IoBindingArg::Provided(value.to_owned()),
            None => IoBindingArg::Prompt,
        }
    }
}

/// Puts a binding behind others.
pub fn push_binding(bindings: &mut Vec<IoBindingArg>, binding: IoBindingArg)
    ensures
        final(bindings).deep_view() == old(bindings).deep_view().push(binding.deep_view()),
{
    let ghost before = bindings.deep_view();
    let ghost m = binding.deep_view();
    bindings.push(binding);
    assert(bindings.deep_view() =~= before.push(m));
}

#[derive(Debug)]
pub struct IoRuntimeOptions {
    pub outputs: Vec<IoOutputBinding>,
    pub baud: Option<u32>,
    pub rate_hz: Option<IoSendRate>,
    pub format: Option<String>,
    pub display: PortDisplayConfig,
    pub inputs: Vec<IoInputBinding>,
    pub log_dir: Option<String>,
    pub no_log: bool,
    pub s3b: bool,
    pub readings: NumberReadings,
}

#[verifier::ext_equal]
pub struct IoOptionsModel {
    pub outputs: Seq<IoOutputModel>,
    pub baud: Option<u32>,
    pub rate_hz: Option<RateModel>,
    pub format: Option<Seq<char>>,
    pub display: PortDisplayModel,
    pub inputs: Seq<InputBindingModel>,
    pub log_dir: Option<Seq<char>>,
    pub no_log: bool,
    pub s3b: bool,
    pub readings: ReadingsModel,
}

impl DeepView for IoRuntimeOptions {
    type V = IoOptionsModel;

    open spec fn deep_view(&self) -> IoOptionsModel {
        IoOptionsModel {
            outputs: self.outputs.deep_view(),
            baud: self.baud,
            rate_hz: self.rate_hz.deep_view(),
            format: self.format.deep_view(),
            display: self.display.deep_view(),
            inputs: self.inputs.deep_view(),
            log_dir: self.log_dir.deep_view(),
            no_log: self.no_log,
            s3b: self.s3b,
            readings: entries(self.readings@),
        }
    }
}

impl IoOptionsModel {
    /// Nothing asked for.
    pub open spec fn empty(readings: ReadingsModel) -> IoOptionsModel {
        IoOptionsModel {
            outputs: seq![],
            baud: None,
            rate_hz: None,
            format: None,
            display: PortDisplayModel::empty(),
            inputs: seq![],
            log_dir: None,
            no_log: false,
            s3b: false,
            readings,
        }
    }
}

impl IoRuntimeOptions {
    pub fn new(readings: NumberReadings) -> (options: IoRuntimeOptions)
        ensures
            options.deep_view() == IoOptionsModel::empty(entries(readings@)),
    {
        let options = IoRuntimeOptions {
            outputs: Vec::new(),
            baud: None,
            rate_hz: None,
            format: None,
            display: PortDisplayConfig::default(),
            inputs: Vec::new(),
            log_dir: None,
            no_log: false,
            s3b: false,
            readings,
        };
        assert(options.deep_view() =~= IoOptionsModel::empty(entries(readings@)));
        options
    }
}

/// The options with one assignment of `--config` applied.
pub open spec fn io_setting(o: IoOptionsModel, kv: KeyValue) -> Result<
    IoOptionsModel,
    Seq<char>,
> {
    let key = upper(kv.0);
    if key == "RATE"@ {
        mapped(
            send_rate("RATE"@, kv.1, o.readings),
            |rate: RateModel| IoOptionsModel { rate_hz: Some(rate), ..o },
        )
    } else if key == "FORMAT"@ {
        Ok(IoOptionsModel { format: Some(kv.1), ..o })
    } else if key == "DISPLAY"@ {
        mapped(
            display_assignment(kv.1),
            |a: (DisplayTarget, DisplayValue)|
                IoOptionsModel { display: o.display.assigned(a), ..o },
        )
    } else if key == "LOG_DIR"@ {
        Ok(IoOptionsModel { log_dir: Some(kv.1), ..o })
    } else {
        Err("unknown io config key: "@ + key)
    }
}

fn apply_io_setting(options: &mut IoRuntimeOptions, kv: &KeyValueArg) -> (r: Result<(), String>)
    ensures
        stepped(r, *final(options)) == io_setting(old(options).deep_view(), kv.deep_view()),
        r is Err ==> final(options).deep_view() == old(options).deep_view(),
{
    let key_text = to_upper(kv.key.as_str());
    let key = key_text.as_str();
    let value = kv.value.as_str();
    if same(key, "RATE") {
        let rate = IoSendRate::parse("RATE", value, &options.readings)?;
        options.rate_hz = Some(rate);
    } else if same(key, "FORMAT") {
        options.format = Some(value.to_owned());
    } else if same(key, "DISPLAY") {
        let assignment = parse_display_assignment(value)?;
        assignment.apply_to(&mut options.display);
    } else if same(key, "LOG_DIR") {
        options.log_dir = Some(value.to_owned());
    } else {
        return Err(cat2("unknown io config key: ", key));
    }
    Ok(())
}

impl Configurable for IoRuntimeOptions {
    open spec fn setting(m: IoOptionsModel, kv: KeyValue) -> Result<IoOptionsModel, Seq<char>> {
        io_setting(m, kv)
    }

    fn apply_setting(&mut self, kv: &KeyValueArg) -> (r: Result<(), String>) {
        apply_io_setting(self, kv)
    }
}

pub fn apply_io_config_args(options: &mut IoRuntimeOptions, value: &str) -> (r: Result<(), String>)
    ensures
        stepped(r, *final(options)) == configured(
            setting_step::<IoRuntimeOptions>(),
            old(options).deep_view(),
            value@,
        ),
        final(options).deep_view() == left_by_config(
            setting_step::<IoRuntimeOptions>(),
            old(options).deep_view(),
            value@,
        ),
{
    apply_settings(options, value)
}

#[derive(Debug)]
pub struct IoCliOptions {
    pub inputs: Vec<IoBindingArg>,
    pub outputs: Vec<IoBindingArg>,
    pub runtime_options: IoRuntimeOptions,
}

#[verifier::ext_equal]
pub struct IoCliModel {
    pub inputs: Seq<BindingArgModel>,
    pub outputs: Seq<BindingArgModel>,
    pub runtime_options: IoOptionsModel,
}

impl DeepView for IoCliOptions {
    type V = IoCliModel;

    open spec fn deep_view(&self) -> IoCliModel {
        IoCliModel {
            inputs: self.inputs.deep_view(),
            outputs: self.outputs.deep_view(),
            runtime_options: self.runtime_options.deep_view(),
        }
    }
}

impl IoCliModel {
    pub open spec fn with_runtime(self, runtime_options: IoOptionsModel) -> IoCliModel {
        IoCliModel { runtime_options, ..self }
    }

    pub open spec fn with_input(self, input: BindingArgModel) -> IoCliModel {
        IoCliModel { inputs: self.inputs.push(input), ..self }
    }

    pub open spec fn with_output(self, output: BindingArgModel) -> IoCliModel {
        IoCliModel { outputs: self.outputs.push(output), ..self }
    }
}

pub fn strip_io_value<'a>(arg: &'a str, names: &[&str]) -> (r: Option<&'a str>)
    ensures
        r.deep_view() == value_behind(arg@, names@.map_values(|n: &str| n@)),
{
    strip_value(arg, names)
}

pub fn next_optional_io_binding<'a>(args: &'a Vec<String>, index: usize) -> (r: Option<&'a str>)
    ensures
        r.deep_view() == optional_value(texts(args@), index as int),
{
    next_optional_value(args, index)
}

/// The options that name an input.
pub open spec fn input_names() -> Seq<Seq<char>> {
    seq!["-i"@, "--input"@, "--input-port"@]
}

/// The options that name an output.
pub open spec fn output_names() -> Seq<Seq<char>> {
    seq!["-o"@, "--output"@, "--output-port"@]
}

/// The position behind an option and the value that follows it, if one does.
pub open spec fn past_optional(args: Seq<Seq<char>>, i: int) -> int {
    if optional_value(args, i + 1) is Some {
        i + 2
    } else {
        i + 1
    }
}

/// The options after the argument at `i` and the values that it takes, and the next position.
pub open spec fn io_arg(o: IoCliModel, args: Seq<Seq<char>>, i: int) -> Result<
    (IoCliModel, int),
    Seq<char>,
> {
    let arg = args[i];
    let run = o.runtime_options;
    if value_behind(arg, input_names()) is Some {
        Ok(
            (
                o.with_input(BindingArgModel::Provided(value_behind(arg, input_names())->0)),
                i + 1,
            ),
        )
    } else if value_behind(arg, output_names()) is Some {
        Ok(
            (
                o.with_output(BindingArgModel::Provided(value_behind(arg, output_names())->0)),
                i + 1,
            ),
        )
    } else if arg == "--input"@ || arg == "--input-port"@ || arg == "-i"@ {
        Ok(
            (
                o.with_input(BindingArgModel::from_option(optional_value(args, i + 1))),
                past_optional(args, i),
            ),
        )
    } else if arg == "--output"@ || arg == "--output-port"@ || arg == "-o"@ {
        Ok(
            (
                o.with_output(BindingArgModel::from_option(optional_value(args, i + 1))),
                past_optional(args, i),
            ),
        )
    } else if arg == "--config"@ {
        with_value(
            args,
            i,
            "--config"@,
            |v: Seq<char>|
                mapped(
                    configured(setting_step::<IoRuntimeOptions>(), run, v),
                    |m: IoOptionsModel| o.with_runtime(m),
                ),
        )
    } else if arg == "--baud"@ || arg == "-b"@ {
        with_value(
            args,
            i,
            "--baud"@,
            |v: Seq<char>|
                mapped(
                    u32_arg("--baud"@, v),
                    |n: u32| o.with_runtime(IoOptionsModel { baud: Some(n), ..run }),
                ),
        )
    } else if arg == "--rate"@ || arg == "-r"@ {
        with_value(
            args,
            i,
            "--rate"@,
            |v: Seq<char>|
                mapped(
                    send_rate("--rate"@, v, run.readings),
                    |rate: RateModel|
                        o.with_runtime(IoOptionsModel { rate_hz: Some(rate), ..run }),
                ),
        )
    } else if arg == "--format"@ || arg == "-f"@ {
        with_value(
            args,
            i,
            "--format"@,
            |v: Seq<char>|
                Ok::<IoCliModel, Seq<char>>(
                    o.with_runtime(IoOptionsModel { format: Some(v), ..run }),
                ),
        )
    } else if arg == "--display"@ {
        with_value(
            args,
            i,
            "--display"@,
            |v: Seq<char>|
                mapped(
                    display_assignment(v),
                    |a: (DisplayTarget, DisplayValue)|
                        o.with_runtime(
                            IoOptionsModel { display: run.display.assigned(a), ..run },
                        ),
                ),
        )
    } else if arg == "--log-dir"@ {
        with_value(
            args,
            i,
            "--log-dir"@,
            |v: Seq<char>|
                Ok::<IoCliModel, Seq<char>>(
                    o.with_runtime(IoOptionsModel { log_dir: Some(v), ..run }),
                ),
        )
    } else if arg == "--no-log"@ {
        Ok((o.with_runtime(IoOptionsModel { no_log: true, ..run }), i + 1))
    } else if arg == "--s3b"@ {
        Ok((o.with_runtime(IoOptionsModel { s3b: true, ..run }), i + 1))
    } else {
        Err("unknown option for io: "@ + arg)
    }
}

fn take_io_binding(options: &mut IoCliOptions, args: &Vec<String>, i: usize) -> (r: Option<usize>)
    requires
        i < args.len(),
    ensures
        match r {
            Some(next) => i < next <= args.len() && io_arg(
                old(options).deep_view(),
                texts(args@),
                i as int,
            ) == Ok::<(IoCliModel, int), Seq<char>>((final(options).deep_view(), next as int)),
            None => *final(options) == *old(options) && {
                let arg = texts(args@)[i as int];
                &&& value_behind(arg, input_names()) is None
                &&& value_behind(arg, output_names()) is None
                &&& arg != "--input"@ && arg != "--input-port"@ && arg != "-i"@
                &&& arg != "--output"@ && arg != "--output-port"@ && arg != "-o"@
            },
        },
{
    let arg = args[i].as_str();
    let input_options = ["-i", "--input", "--input-port"];
    let output_options = ["-o", "--output", "--output-port"];
    proof {
        assert(texts(args@)[i as int] == arg@);
        assert(input_options@.map_values(|n: &str| n@) =~= input_names());
        assert(output_options@.map_values(|n: &str| n@) =~= output_names());
    }
    if let Some(value) = strip_io_value(arg, &input_options) {
        push_binding(&mut options.inputs, IoBindingArg::Provided(value.to_owned()));
        return Some(i + 1);
    }
    if let Some(value) = strip_io_value(arg, &output_options) {
        push_binding(&mut options.outputs, IoBindingArg::Provided(value.to_owned()));
        return Some(i + 1);
    }
    let is_input = same(arg, "--input") || same(arg, "--input-port") || same(arg, "-i");
    let is_output = same(arg, "--output") || same(arg, "--output-port") || same(arg, "-o");
    if !is_input && !is_output {
        return None;
    }
    let value = next_optional_io_binding(args, i + 1);
    let binding = IoBindingArg::from_option(value);
    if is_input {
        push_binding(&mut options.inputs, binding);
    } else {
        push_binding(&mut options.outputs, binding);
    }
    if value.is_some() {
        Some(i + 2)
    } else {
        Some(i + 1)
    }
}

fn take_io_arg(options: &mut IoCliOptions, args: &Vec<String>, i: usize) -> (r: Result<
    usize,
    String,
>)
    requires
        i < args.len(),
    ensures
        stepped_to(r, *final(options)) == io_arg(old(options).deep_view(), texts(args@), i as int),
        r is Ok ==> i < r->Ok_0 <= args.len(),
{
    if let Some(next) = take_io_binding(options, args, i) {
        return Ok(next);
    }
    let arg = args[i].as_str();
    assert(texts(args@)[i as int] == arg@);
    if same(arg, "--config") {
        apply_io_config_args(
            &mut options.runtime_options,
            next_value(args, i + 1, "--config")?,
        )?;
    } else if same(arg, "--baud") || same(arg, "-b") {
        let value = next_value(args, i + 1, "--baud")?;
        options.runtime_options.baud = Some(parse_u32_arg("--baud", value)?);
    } else if same(arg, "--rate") || same(arg, "-r") {
        let value = next_value(args, i + 1, "--rate")?;
        let rate = IoSendRate::parse("--rate", value, &options.runtime_options.readings)?;
        options.runtime_options.rate_hz = Some(rate);
    } else if same(arg, "--format") || same(arg, "-f") {
        let value = next_value(args, i + 1, "--format")?;
        options.runtime_options.format = Some(value.to_owned());
    } else if same(arg, "--display") {
        let value = next_value(args, i + 1, "--display")?;
        let assignment = parse_display_assignment(value)?;
        assignment.apply_to(&mut options.runtime_options.display);
    } else if same(arg, "--log-dir") {
        let value = next_value(args, i + 1, "--log-dir")?;
        options.runtime_options.log_dir = Some(value.to_owned());
    } else if same(arg, "--no-log") {
        options.runtime_options.no_log = true;
        return Ok(i + 1);
    } else if same(arg, "--s3b") {
        options.runtime_options.s3b = true;
        return Ok(i + 1);
    } else {
        return Err(cat2("unknown option for io: ", arg));
    }
    Ok(i + 2)
}

impl CommandOptions for IoCliOptions {
    open spec fn argument(m: IoCliModel, args: Seq<Seq<char>>, i: int) -> Result<
        (IoCliModel, int),
        Seq<char>,
    > {
        io_arg(m, args, i)
    }

    fn take_argument(self, args: &Vec<String>, i: usize) -> (r: Result<(Self, usize), String>) {
        let mut options = self;
        let next: usize = take_io_arg(&mut options, args, i)?;
        Ok((options, next))
    }
}

/// Nothing asked for yet: sending goes at the default rate.
pub open spec fn io_defaults(readings: ReadingsModel) -> IoCliModel {
    IoCliModel {
        inputs: seq![],
        outputs: seq![],
        runtime_options: IoOptionsModel {
            rate_hz: Some(default_rate()),
            ..IoOptionsModel::empty(readings)
        },
    }
}

/// What the arguments ask for; an input or an output is needed.
pub open spec fn io_args(args: Seq<Seq<char>>, readings: ReadingsModel) -> Result<
    IoCliModel,
    Seq<char>,
> {
    match arguments_taken(argument_step::<IoCliOptions>(), io_defaults(readings), args, 0) {
        Err(e) => Err(e),
        Ok(o) => if o.inputs.len() == 0 && o.outputs.len() == 0 {
            Err("io requires at least one -i/--input or -o/--output"@)
        } else {
            Ok(o)
        },
    }
}

pub fn parse_io_args(args: Vec<String>, readings: NumberReadings) -> (r: Result<
    IoCliOptions,
    String,
>)
    ensures
        viewed(r) == io_args(texts(args@), entries(readings@)),
{
    let mut runtime_options = IoRuntimeOptions::new(readings);
    runtime_options.rate_hz = Some(default_io_send_rate());
    let start = IoCliOptions { inputs: Vec::new(), outputs: Vec::new(), runtime_options };
    assert(start.deep_view() =~= io_defaults(entries(readings@)));
    let options = take_arguments(start, &args)?;
    assert(options.deep_view().inputs.len() == options.inputs.len());
    assert(options.deep_view().outputs.len() == options.outputs.len());
    if options.inputs.len() == 0 && options.outputs.len() == 0 {
        return Err("io requires at least one -i/--input or -o/--output".to_owned());
    }
    Ok(options)
}

} // verus!

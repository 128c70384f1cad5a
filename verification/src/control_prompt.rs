//! `control`: what is left to ask, and the command line that the answers so far make.
use crate::args::{parse_port_spec, port_spec, PortSpec, PortSpecModel};
use crate::command_line::{
    append_prompt_common_args, command_text, common_args, display_mode_value, display_text,
    format_command_preview, format_input_display_value, format_list_text, format_output_format_list,
    format_prompt_io_input_binding, input_binding_text, line_break_mode_value, push_word,
};
use crate::control::{
    control_monitor_binding, parse_control_monitor_binding, ControlCliModel, ControlCliOptions,
    ControlMonitorBinding, ControlRunModel, ControlRuntimeOptions,
};
use crate::display::{
    display_mode_name, display_value, line_break_name, parse_display_value, LineBreakMode,
    PortDisplayMode,
};
use crate::format::{parsed_format, OutputFormat};
use crate::io::{BindingArgModel, IoBindingArg};
use crate::session::InputBindingModel;
use crate::text::{decimal, decimal_text, join, joined, texts, viewed};
use vstd::prelude::*;

verus! {

// ---------------------------------------------------------------------------
// Bindings as texts
// ---------------------------------------------------------------------------

pub fn format_prompt_control_port_binding(port: &str, baud: Option<&str>, display: Option<&str>) -> (r:
    String)
    ensures
        r@ == input_binding_text(port@, baud.deep_view(), display.deep_view(), None),
{
    format_prompt_io_input_binding(port, baud, display, None)
}

pub fn format_prompt_control_monitor_binding(
    port: &str,
    baud: Option<&str>,
    display: Option<&str>,
    format: Option<&str>,
) -> (r: String)
    ensures
        r@ == input_binding_text(
            port@,
            baud.deep_view(),
            display.deep_view(),
            format.deep_view(),
        ),
{
    format_prompt_io_input_binding(port, baud, display, format)
}

pub open spec fn mode_text(mode: Option<PortDisplayMode>) -> Option<Seq<char>> {
    match mode {
        Some(mode) => Some(display_mode_name(mode)),
        None => None,
    }
}

pub fn format_control_port_binding(port: &str, baud: u32, display_mode: Option<PortDisplayMode>) -> (r:
    String)
    ensures
        r@ == input_binding_text(
            port@,
            Some(decimal(baud as nat)),
            mode_text(display_mode),
            None,
        ),
{
    let digits = decimal_text(baud as u64);
    match display_mode {
        Some(mode) => format_prompt_control_port_binding(
            port,
            Some(digits.as_str()),
            Some(display_mode_value(mode)),
        ),
        None => format_prompt_control_port_binding(port, Some(digits.as_str()), None),
    }
}

pub open spec fn baud_text(baud: Option<u32>) -> Option<Seq<char>> {
    match baud {
        Some(baud) => Some(decimal(baud as nat)),
        None => None,
    }
}

fn baud_digits(baud: Option<u32>) -> (r: Option<String>)
    ensures
        r.deep_view() == baud_text(baud),
{
    match baud {
        Some(baud) => Some(decimal_text(baud as u64)),
        None => None,
    }
}

fn as_text(text: &Option<String>) -> (r: Option<&str>)
    ensures
        r.deep_view() == text.deep_view(),
{
    match text {
        Some(text) => Some(text.as_str()),
        None => None,
    }
}

/// A port as a command line names it.
pub open spec fn port_preview(port: PortSpecModel) -> Seq<char> {
    input_binding_text(port.port, baud_text(port.baud), mode_text(port.display_mode), None)
}

pub fn format_control_port_spec_preview(port: &PortSpec) -> (r: String)
    ensures
        r@ == port_preview(port.deep_view()),
{
    let baud = baud_digits(port.baud);
    match port.display_mode {
        Some(mode) => format_prompt_control_port_binding(
            port.port.as_str(),
            as_text(&baud),
            Some(display_mode_value(mode)),
        ),
        None => format_prompt_control_port_binding(port.port.as_str(), as_text(&baud), None),
    }
}

/// A display mode and a line break mode as one display value, as far as they are given.
pub open spec fn modes_text(mode: Option<PortDisplayMode>, line_break: Option<LineBreakMode>) -> Option<
    Seq<char>,
> {
    match (mode, line_break) {
        (Some(mode), Some(line_break)) => Some(display_text(mode, line_break)),
        (Some(mode), None) => Some(display_mode_name(mode)),
        (None, Some(line_break)) => Some(line_break_name(line_break)),
        (None, None) => None,
    }
}

/// A monitor as a command line names it.
pub open spec fn monitor_preview(m: InputBindingModel) -> Seq<char> {
    input_binding_text(
        m.port,
        baud_text(m.baud),
        modes_text(m.display_mode, m.line_break_mode),
        if m.formats.len() == 0 {
            None
        } else {
            Some(joined(m.formats, "+"@))
        },
    )
}

pub fn format_control_monitor_binding_preview(monitor: &ControlMonitorBinding) -> (r: String)
    ensures
        r@ == monitor_preview(monitor.deep_view()),
{
    let baud = baud_digits(monitor.baud);
    let display: Option<String> = match (monitor.display_mode, monitor.line_break_mode) {
        (Some(mode), Some(line_break)) => Some(format_input_display_value(mode, line_break)),
        (Some(mode), None) => Some(display_mode_value(mode).to_owned()),
        (None, Some(line_break)) => Some(line_break_mode_value(line_break).to_owned()),
        (None, None) => None,
    };
    assert(texts(monitor.formats@) =~= monitor.formats.deep_view());
    let formats: Option<String> = if monitor.formats.len() == 0 {
        None
    } else {
        Some(join(&monitor.formats, "+"))
    };
    format_prompt_control_monitor_binding(
        monitor.port.as_str(),
        as_text(&baud),
        as_text(&display),
        as_text(&formats),
    )
}

pub fn format_monitor_format_arg(formats: &Vec<OutputFormat>) -> (r: Option<String>)
    ensures
        r.deep_view() == format_list_text(formats@),
{
    format_output_format_list(formats)
}

/// The display mode of a display value that was chosen.
pub open spec fn chosen_mode(value: Option<Seq<char>>) -> Result<
    Option<PortDisplayMode>,
    Seq<char>,
> {
    match value {
        None => Ok(None),
        Some(value) => match display_value(value) {
            Ok((mode, _)) => Ok(mode),
            Err(e) => Err(e),
        },
    }
}

pub fn display_mode_from_prompt(value: Option<&str>) -> (r: Result<
    Option<PortDisplayMode>,
    String,
>)
    ensures
        match r {
            Ok(mode) => chosen_mode(value.deep_view()) == Ok::<
                Option<PortDisplayMode>,
                Seq<char>,
            >(mode),
            Err(e) => chosen_mode(value.deep_view()) == Err::<Option<PortDisplayMode>, Seq<char>>(
                e@,
            ),
        },
{
    match value {
        None => Ok(None),
        Some(value) => {
            let (mode, _) = parse_display_value(value)?;
            Ok(mode)
        },
    }
}

/// How often a format is sent where nothing else is asked for.
pub open spec fn control_rate_of(format: OutputFormat) -> u32 {
    match format {
        OutputFormat::PacketAcV6 => 100,
        OutputFormat::PacketAcV6Usb => 100,
        OutputFormat::PacketMv1 => 100,
        _ => 20,
    }
}

pub fn default_control_rate_hz(format: OutputFormat) -> (rate: u32)
    ensures
        rate == control_rate_of(format),
{
    match format {
        OutputFormat::PacketAcV6 => 100,
        OutputFormat::PacketAcV6Usb => 100,
        OutputFormat::PacketMv1 => 100,
        _ => 20,
    }
}

// ---------------------------------------------------------------------------
// The command line so far
// ---------------------------------------------------------------------------

#[derive(Debug)]
pub struct ControlPromptCommand {
    pub output: Option<String>,
    pub format: Option<String>,
    pub rate_hz: Option<u32>,
    pub controller: Option<String>,
    pub monitors: Vec<String>,
    pub log_dir: Option<String>,
    pub no_log: bool,
    pub s3b: bool,
}

#[verifier::ext_equal]
pub struct ControlCommandModel {
    pub output: Option<Seq<char>>,
    pub format: Option<Seq<char>>,
    pub rate_hz: Option<u32>,
    pub controller: Option<Seq<char>>,
    pub monitors: Seq<Seq<char>>,
    pub log_dir: Option<Seq<char>>,
    pub no_log: bool,
    pub s3b: bool,
}

impl DeepView for ControlPromptCommand {
    type V = ControlCommandModel;

    open spec fn deep_view(&self) -> ControlCommandModel {
        ControlCommandModel {
            output: self.output.deep_view(),
            format: self.format.deep_view(),
            rate_hz: self.rate_hz,
            controller: self.controller.deep_view(),
            monitors: self.monitors.deep_view(),
            log_dir: self.log_dir.deep_view(),
            no_log: self.no_log,
            s3b: self.s3b,
        }
    }
}

/// What is being chosen.
#[derive(Debug, Clone, Copy)]
pub enum ControlPromptCandidate<'a> {
    Output(&'a str),
    Format(&'a str),
    Rate(&'a str),
    Monitor(&'a str),
}

#[verifier::ext_equal]
pub enum CandidateModel {
    Output(Seq<char>),
    Format(Seq<char>),
    Rate(Seq<char>),
    Monitor(Seq<char>),
}

impl<'a> DeepView for ControlPromptCandidate<'a> {
    type V = CandidateModel;

    open spec fn deep_view(&self) -> CandidateModel {
        match self {
            ControlPromptCandidate::Output(v) => CandidateModel::Output(v@),
            ControlPromptCandidate::Format(v) => CandidateModel::Format(v@),
            ControlPromptCandidate::Rate(v) => CandidateModel::Rate(v@),
            ControlPromptCandidate::Monitor(v) => CandidateModel::Monitor(v@),
        }
    }
}

/// An option and its value, where there is one.
pub open spec fn option_words(option: Seq<char>, value: Option<Seq<char>>) -> Seq<Seq<char>> {
    match value {
        Some(value) => seq![option, value],
        None => seq![],
    }
}

/// The options that name monitors.
pub open spec fn monitor_words(monitors: Seq<Seq<char>>) -> Seq<Seq<char>>
    decreases monitors.len(),
{
    if monitors.len() == 0 {
        seq![]
    } else {
        monitor_words(monitors.drop_last()).push("-m"@).push(monitors.last())
    }
}

impl ControlCommandModel {
    pub open spec fn of_options(o: ControlRunModel) -> ControlCommandModel {
        ControlCommandModel {
            output: match o.port {
                Some(port) => Some(port_preview(port)),
                None => None,
            },
            format: o.format,
            rate_hz: o.rate_hz,
            controller: o.controller,
            monitors: o.monitor_ports.map_values(|m: InputBindingModel| monitor_preview(m)),
            log_dir: o.log_dir,
            no_log: o.no_log,
            s3b: o.s3b,
        }
    }

    /// The words of the command line with what is being chosen.
    pub open spec fn words(self, candidate: Option<CandidateModel>) -> Seq<Seq<char>> {
        let output = match candidate {
            Some(CandidateModel::Output(v)) => Some(v),
            _ => self.output,
        };
        let format = match candidate {
            Some(CandidateModel::Format(v)) => Some(v),
            _ => self.format,
        };
        let rate = match candidate {
            Some(CandidateModel::Rate(v)) => Some(v),
            _ => baud_text(self.rate_hz),
        };
        let monitor = match candidate {
            Some(CandidateModel::Monitor(v)) => Some(v),
            _ => None,
        };
        seq!["acs"@, "control"@] + option_words("-p"@, output) + option_words(
            "--format"@,
            format,
        ) + option_words("--rate"@, rate) + option_words("--controller"@, self.controller)
            + monitor_words(self.monitors) + option_words("-m"@, monitor) + common_args(
            self.log_dir,
            self.no_log,
            self.s3b,
        )
    }

    pub open spec fn with_default_format(self) -> ControlCommandModel {
        if self.format is None {
            ControlCommandModel { format: Some("packetacv6"@), ..self }
        } else {
            self
        }
    }
}

/// Puts an option and its value behind the words, where there is one.
pub fn push_option(words: &mut Vec<String>, option: &str, value: Option<&str>)
    ensures
        final(words).deep_view() == old(words).deep_view() + option_words(
            option@,
            value.deep_view(),
        ),
{
    let ghost before = words.deep_view();
    if let Some(value) = value {
        push_word(words, option);
        push_word(words, value);
    }
    assert(words.deep_view() =~= before + option_words(option@, value.deep_view()));
}

fn push_monitors(words: &mut Vec<String>, monitors: &Vec<String>)
    ensures
        final(words).deep_view() == old(words).deep_view() + monitor_words(monitors.deep_view()),
{
    let ghost start = words.deep_view();
    let ghost all = monitors.deep_view();
    let mut i: usize = 0;
    assert(all.take(0) =~= Seq::<Seq<char>>::empty());
    assert(start + monitor_words(all.take(0)) =~= start);
    while i < monitors.len()
        invariant
            i <= monitors.len(),
            all == monitors.deep_view(),
            words.deep_view() == start + monitor_words(all.take(i as int)),
        decreases monitors.len() - i,
    {
        proof {
            assert(all.take(i + 1).drop_last() == all.take(i as int));
            assert(all.take(i + 1).last() == monitors@[i as int]@);
        }
        push_word(words, "-m");
        push_word(words, monitors[i].as_str());
        assert(words.deep_view() =~= start + monitor_words(all.take(i + 1)));
        i += 1;
    }
    assert(all.take(i as int) == all);
}

impl ControlPromptCommand {
    pub fn new(options: &ControlRuntimeOptions) -> (command: ControlPromptCommand)
        ensures
            command.deep_view() == ControlCommandModel::of_options(options.deep_view()),
    {
        let output = match &options.port {
            Some(port) => Some(format_control_port_spec_preview(port)),
            None => None,
        };
        let ghost all = options.monitor_ports.deep_view();
        let ghost f = |m: InputBindingModel| monitor_preview(m);
        let mut monitors: Vec<String> = Vec::new();
        let mut i: usize = 0;
        assert(monitors.deep_view() =~= all.take(0).map_values(f));
        while i < options.monitor_ports.len()
            invariant
                i <= options.monitor_ports.len(),
                all == options.monitor_ports.deep_view(),
                f == (|m: InputBindingModel| monitor_preview(m)),
                monitors.deep_view() == all.take(i as int).map_values(f),
            decreases options.monitor_ports.len() - i,
        {
            let ghost before = monitors.deep_view();
            monitors.push(format_control_monitor_binding_preview(&options.monitor_ports[i]));
            proof {
                let m = monitor_preview(options.monitor_ports@[i as int].deep_view());
                assert(monitors.deep_view() =~= before.push(m));
                assert(all.take(i + 1).map_values(f) =~= all.take(i as int).map_values(f).push(m));
            }
            i += 1;
        }
        assert(all.take(i as int) == all);
        ControlPromptCommand {
            output,
            format: options.format.clone(),
            rate_hz: options.rate_hz,
            controller: options.controller.clone(),
            monitors,
            log_dir: options.log_dir.clone(),
            no_log: options.no_log,
            s3b: options.s3b,
        }
    }

    pub fn set_output(&mut self, output: String)
        ensures
            final(self).deep_view() == (ControlCommandModel {
                output: Some(output@),
                ..old(self).deep_view()
            }),
    {
        self.output = Some(output);
    }

    pub fn set_format(&mut self, format: String)
        ensures
            final(self).deep_view() == (ControlCommandModel {
                format: Some(format@),
                ..old(self).deep_view()
            }),
    {
        self.format = Some(format);
    }

    pub fn set_rate_hz(&mut self, rate_hz: u32)
        ensures
            final(self).deep_view() == (ControlCommandModel {
                rate_hz: Some(rate_hz),
                ..old(self).deep_view()
            }),
    {
        self.rate_hz = Some(rate_hz);
    }

    pub fn push_monitor(&mut self, monitor: String)
        ensures
            final(self).deep_view() == (ControlCommandModel {
                monitors: old(self).deep_view().monitors.push(monitor@),
                ..old(self).deep_view()
            }),
    {
        let ghost before = self.monitors.deep_view();
        self.monitors.push(monitor);
        assert(self.monitors.deep_view() =~= before.push(monitor@));
    }

    pub fn ensure_default_format(&mut self)
        ensures
            final(self).deep_view() == old(self).deep_view().with_default_format(),
    {
        if self.format.is_none() {
            self.format = Some("packetacv6".to_owned());
        }
    }

    pub fn render(&self, candidate: Option<ControlPromptCandidate<'_>>) -> (r: String)
        ensures
            r@ == command_text(self.deep_view().words(candidate.deep_view())),
    {
        let rate_text = baud_digits(self.rate_hz);
        let output = match candidate {
            Some(ControlPromptCandidate::Output(v)) => Some(v),
            _ => as_text(&self.output),
        };
        let format = match candidate {
            Some(ControlPromptCandidate::Format(v)) => Some(v),
            _ => as_text(&self.format),
        };
        let rate = match candidate {
            Some(ControlPromptCandidate::Rate(v)) => Some(v),
            _ => as_text(&rate_text),
        };
        let monitor = match candidate {
            Some(ControlPromptCandidate::Monitor(v)) => Some(v),
            _ => None,
        };
        let mut words: Vec<String> = Vec::new();
        assert(words.deep_view() =~= Seq::<Seq<char>>::empty());
        push_word(&mut words, "acs");
        push_word(&mut words, "control");
        assert(words.deep_view() =~= seq!["acs"@, "control"@]);
        push_option(&mut words, "-p", output);
        push_option(&mut words, "--format", format);
        push_option(&mut words, "--rate", rate);
        push_option(&mut words, "--controller", as_text(&self.controller));
        push_monitors(&mut words, &self.monitors);
        push_option(&mut words, "-m", monitor);
        append_control_prompt_common_args(
            &mut words,
            as_text(&self.log_dir),
            self.no_log,
            self.s3b,
        );
        format_command_preview(&words)
    }
}

pub fn append_control_prompt_common_args(
    args: &mut Vec<String>,
    log_dir: Option<&str>,
    no_log: bool,
    s3b: bool,
)
    ensures
        final(args).deep_view() == old(args).deep_view() + common_args(
            log_dir.deep_view(),
            no_log,
            s3b,
        ),
{
    append_prompt_common_args(args, log_dir, no_log, s3b);
}

// ---------------------------------------------------------------------------
// What is left to ask
// ---------------------------------------------------------------------------

/// The answers so far: a format, an output with a format where that was asked for, a rate, and
/// monitors.
#[derive(Debug)]
pub struct ControlAnswers {
    pub format: Option<String>,
    pub output: Option<(String, Option<String>)>,
    pub rate_hz: Option<u32>,
    pub monitors: Vec<String>,
}

#[verifier::ext_equal]
pub struct AnswersModel {
    pub format: Option<Seq<char>>,
    pub output: Option<(Seq<char>, Option<Seq<char>>)>,
    pub rate_hz: Option<u32>,
    pub monitors: Seq<Seq<char>>,
}

impl DeepView for ControlAnswers {
    type V = AnswersModel;

    open spec fn deep_view(&self) -> AnswersModel {
        AnswersModel {
            format: self.format.deep_view(),
            output: self.output.deep_view(),
            rate_hz: self.rate_hz,
            monitors: self.monitors.deep_view(),
        }
    }
}

/// What to ask next, with the command line so far; or the options, where nothing is left to ask.
#[derive(Debug)]
pub enum ControlResolution {
    AskFormat(ControlPromptCommand),
    AskOutput { command: ControlPromptCommand, with_format: bool },
    AskRate { command: ControlPromptCommand, format: OutputFormat },
    AskMonitor(ControlPromptCommand),
    Ready(ControlRuntimeOptions),
}

#[verifier::ext_equal]
pub enum ResolutionModel {
    AskFormat(ControlCommandModel),
    AskOutput { command: ControlCommandModel, with_format: bool },
    AskRate { command: ControlCommandModel, format: OutputFormat },
    AskMonitor(ControlCommandModel),
    Ready(ControlRunModel),
}

impl DeepView for ControlResolution {
    type V = ResolutionModel;

    open spec fn deep_view(&self) -> ResolutionModel {
        match self {
            ControlResolution::AskFormat(command) => ResolutionModel::AskFormat(
                command.deep_view(),
            ),
            ControlResolution::AskOutput { command, with_format } => ResolutionModel::AskOutput {
                command: command.deep_view(),
                with_format: *with_format,
            },
            ControlResolution::AskRate { command, format } => ResolutionModel::AskRate {
                command: command.deep_view(),
                format: *format,
            },
            ControlResolution::AskMonitor(command) => ResolutionModel::AskMonitor(
                command.deep_view(),
            ),
            ControlResolution::Ready(options) => ResolutionModel::Ready(options.deep_view()),
        }
    }
}

/// The options that need no asking.
pub open spec fn control_start(o: ControlCliModel) -> ControlRunModel {
    ControlRunModel {
        baud: o.baud,
        controller: o.controller,
        rate_hz: o.rate_hz,
        display: o.display,
        log_dir: o.log_dir,
        no_log: o.no_log,
        s3b: o.s3b,
        ..ControlRunModel::empty()
    }
}

/// The monitors, given and asked for, in their order.
pub open spec fn monitors_resolved(
    run: ControlRunModel,
    command: ControlCommandModel,
    args: Seq<BindingArgModel>,
    answers: Seq<Seq<char>>,
) -> Result<ResolutionModel, Seq<char>>
    decreases args.len(),
{
    if args.len() == 0 {
        Ok(ResolutionModel::Ready(run))
    } else if args[0] is Prompt && answers.len() == 0 {
        Ok(ResolutionModel::AskMonitor(command))
    } else {
        let (value, rest) = match args[0] {
            BindingArgModel::Provided(value) => (value, answers),
            BindingArgModel::Prompt => (answers[0], answers.skip(1)),
        };
        match control_monitor_binding(value) {
            Err(e) => Err(e),
            Ok(monitor) => monitors_resolved(
                ControlRunModel { monitor_ports: run.monitor_ports.push(monitor), ..run },
                ControlCommandModel { monitors: command.monitors.push(value), ..command },
                args.skip(1),
                rest,
            ),
        }
    }
}

/// The rate is asked for where the output was, unless it was given; then the monitors follow.
pub open spec fn rate_resolved(
    run: ControlRunModel,
    command: ControlCommandModel,
    ask_rate: bool,
    args: Seq<BindingArgModel>,
    answers: AnswersModel,
) -> Result<ResolutionModel, Seq<char>> {
    if run.rate_hz is None && ask_rate {
        match parsed_format(
            match run.format {
                Some(name) => name,
                None => command.format->0,
            },
        ) {
            Err(e) => Err(e),
            Ok(format) => match answers.rate_hz {
                None => Ok(ResolutionModel::AskRate { command, format }),
                Some(rate_hz) => monitors_resolved(
                    ControlRunModel { rate_hz: Some(rate_hz), ..run },
                    ControlCommandModel { rate_hz: Some(rate_hz), ..command },
                    args,
                    answers.monitors,
                ),
            },
        }
    } else {
        monitors_resolved(run, command, args, answers.monitors)
    }
}

/// The output is asked for where none was given, and its format with it where that is open.
pub open spec fn output_resolved(
    run: ControlRunModel,
    command: ControlCommandModel,
    port: Option<BindingArgModel>,
    args: Seq<BindingArgModel>,
    answers: AnswersModel,
) -> Result<ResolutionModel, Seq<char>> {
    match port {
        Some(BindingArgModel::Provided(value)) => match port_spec("--port"@, value) {
            Err(e) => Err(e),
            Ok(spec) => rate_resolved(
                ControlRunModel { port: Some(spec), ..run },
                ControlCommandModel { output: Some(value), ..command }.with_default_format(),
                false,
                args,
                answers,
            ),
        },
        _ => match answers.output {
            None => Ok(
                ResolutionModel::AskOutput { command, with_format: run.format is None },
            ),
            Some((value, format)) => match port_spec("--port"@, value) {
                Err(e) => Err(e),
                Ok(spec) => {
                    let take = run.format is None && format is Some;
                    rate_resolved(
                        ControlRunModel {
                            port: Some(spec),
                            format: if take {
                                format
                            } else {
                                run.format
                            },
                            ..run
                        },
                        ControlCommandModel {
                            output: Some(value),
                            format: if take {
                                format
                            } else {
                                command.format
                            },
                            ..command
                        }.with_default_format(),
                        true,
                        args,
                        answers,
                    )
                },
            },
        },
    }
}

/// What to ask next, or the options where nothing is left to ask: first the format, then the
/// output, the rate and the monitors.
pub open spec fn control_resolution(o: ControlCliModel, answers: AnswersModel) -> Result<
    ResolutionModel,
    Seq<char>,
> {
    let run = control_start(o);
    let command = ControlCommandModel::of_options(run);
    match o.format {
        None => output_resolved(run, command, o.port, o.monitor_ports, answers),
        Some(arg) => {
            let value = match arg {
                BindingArgModel::Provided(value) => Some(value),
                BindingArgModel::Prompt => answers.format,
            };
            match value {
                None => Ok(ResolutionModel::AskFormat(command)),
                Some(value) => output_resolved(
                    ControlRunModel { format: Some(value), ..run },
                    ControlCommandModel { format: Some(value), ..command },
                    o.port,
                    o.monitor_ports,
                    answers,
                ),
            }
        },
    }
}

/// How many of the bindings are to be asked for.
pub open spec fn prompts(args: Seq<BindingArgModel>) -> nat
    decreases args.len(),
{
    if args.len() == 0 {
        0
    } else {
        (if args[0] is Prompt {
            1nat
        } else {
            0nat
        }) + prompts(args.skip(1))
    }
}

proof fn lemma_monitors_open(
    run: ControlRunModel,
    command: ControlCommandModel,
    args: Seq<BindingArgModel>,
    answers: Seq<Seq<char>>,
)
    ensures
        monitors_resolved(run, command, args, answers) matches Ok(r) ==> r is Ready || (
        r is AskMonitor && answers.len() < prompts(args)),
    decreases args.len(),
{
    if args.len() > 0 && !(args[0] is Prompt && answers.len() == 0) {
        let (value, rest) = match args[0] {
            BindingArgModel::Provided(value) => (value, answers),
            BindingArgModel::Prompt => (answers[0], answers.skip(1)),
        };
        if let Ok(monitor) = control_monitor_binding(value) {
            lemma_monitors_open(
                ControlRunModel { monitor_ports: run.monitor_ports.push(monitor), ..run },
                ControlCommandModel { monitors: command.monitors.push(value), ..command },
                args.skip(1),
                rest,
            );
        }
    }
}

/// Only what is open is asked for: what was answered is not asked again, and once every question
/// has an answer none is left.
pub proof fn law_only_what_is_open_is_asked(o: ControlCliModel, a: AnswersModel)
    ensures
        control_resolution(o, a) matches Ok(r) ==> match r {
            ResolutionModel::AskFormat(_) => o.format == Some(BindingArgModel::Prompt)
                && a.format is None,
            ResolutionModel::AskOutput { .. } => !(o.port matches Some(
                BindingArgModel::Provided(_),
            )) && a.output is None,
            ResolutionModel::AskRate { .. } => o.rate_hz is None && a.rate_hz is None,
            ResolutionModel::AskMonitor(_) => a.monitors.len() < prompts(o.monitor_ports),
            ResolutionModel::Ready(_) => true,
        },
{
    assert forall|run: ControlRunModel, command: ControlCommandModel, asked: Seq<Seq<char>>|
        #![trigger monitors_resolved(run, command, o.monitor_ports, asked)]
        monitors_resolved(run, command, o.monitor_ports, asked) matches Ok(r) ==> r is Ready || (
        r is AskMonitor && asked.len() < prompts(o.monitor_ports)) by {
        lemma_monitors_open(run, command, o.monitor_ports, asked);
    }
}

fn resolve_monitors(
    run: ControlRuntimeOptions,
    command: ControlPromptCommand,
    args: &Vec<IoBindingArg>,
    answers: &Vec<String>,
) -> (r: Result<ControlResolution, String>)
    ensures
        viewed(r) == monitors_resolved(
            run.deep_view(),
            command.deep_view(),
            args.deep_view(),
            answers.deep_view(),
        ),
{
    let ghost all = args.deep_view();
    let ghost said = answers.deep_view();
    let mut options = run;
    let mut current = command;
    let mut i: usize = 0;
    let mut used: usize = 0;
    assert(all.skip(0) == all && said.skip(0) == said);
    while i < args.len()
        invariant
            i <= args.len(),
            used <= answers.len(),
            all == args.deep_view(),
            said == answers.deep_view(),
            monitors_resolved(run.deep_view(), command.deep_view(), all, said)
                == monitors_resolved(
                options.deep_view(),
                current.deep_view(),
                all.skip(i as int),
                said.skip(used as int),
            ),
        decreases args.len() - i,
    {
        proof {
            assert(all.skip(i as int)[0] == args@[i as int].deep_view());
            assert(all.skip(i as int).skip(1) == all.skip(i + 1));
            assert(said.skip(used as int).len() == answers.len() - used);
        }
        let value = match &args[i] {
            IoBindingArg::Provided(value) => value.clone(),
            IoBindingArg::Prompt => {
                if used >= answers.len() {
                    return Ok(ControlResolution::AskMonitor(current));
                }
                proof {
                    assert(said.skip(used as int)[0] == answers@[used as int]@);
                    assert(said.skip(used as int).skip(1) == said.skip(used + 1));
                }
                used += 1;
                answers[used - 1].clone()
            },
        };
        let monitor = parse_control_monitor_binding(value.as_str())?;
        let ghost before = options.monitor_ports.deep_view();
        let ghost added = monitor.deep_view();
        options.monitor_ports.push(monitor);
        assert(options.monitor_ports.deep_view() =~= before.push(added));
        current.push_monitor(value);
        i += 1;
    }
    Ok(ControlResolution::Ready(options))
}

fn resolve_rate(
    run: ControlRuntimeOptions,
    command: ControlPromptCommand,
    ask_rate: bool,
    args: &Vec<IoBindingArg>,
    answers: &ControlAnswers,
) -> (r: Result<ControlResolution, String>)
    requires
        command.format is Some,
    ensures
        viewed(r) == rate_resolved(
            run.deep_view(),
            command.deep_view(),
            ask_rate,
            args.deep_view(),
            answers.deep_view(),
        ),
{
    let mut run = run;
    let mut command = command;
    if run.rate_hz.is_none() && ask_rate {
        let format = match &run.format {
            Some(name) => OutputFormat::parse(name.as_str())?,
            None => match &command.format {
                Some(name) => OutputFormat::parse(name.as_str())?,
                None => OutputFormat::PacketAcV6,
            },
        };
        match answers.rate_hz {
            None => {
                return Ok(ControlResolution::AskRate { command, format });
            },
            Some(rate_hz) => {
                command.set_rate_hz(rate_hz);
                run.rate_hz = Some(rate_hz);
            },
        }
    }
    resolve_monitors(run, command, args, &answers.monitors)
}

fn resolve_output(
    run: ControlRuntimeOptions,
    command: ControlPromptCommand,
    port: &Option<IoBindingArg>,
    args: &Vec<IoBindingArg>,
    answers: &ControlAnswers,
) -> (r: Result<ControlResolution, String>)
    ensures
        viewed(r) == output_resolved(
            run.deep_view(),
            command.deep_view(),
            port.deep_view(),
            args.deep_view(),
            answers.deep_view(),
        ),
{
    let mut run = run;
    let mut command = command;
    if let Some(IoBindingArg::Provided(value)) = port {
        run.port = Some(parse_port_spec("--port", value.as_str())?);
        command.set_output(value.clone());
        command.ensure_default_format();
        return resolve_rate(run, command, false, args, answers);
    }
    match &answers.output {
        None => {
            let with_format = run.format.is_none();
            Ok(ControlResolution::AskOutput { command, with_format })
        },
        Some((value, format)) => {
            run.port = Some(parse_port_spec("--port", value.as_str())?);
            command.set_output(value.clone());
            if run.format.is_none() {
                if let Some(format) = format {
                    command.set_format(format.clone());
                    run.format = Some(format.clone());
                }
            }
            command.ensure_default_format();
            resolve_rate(run, command, true, args, answers)
        },
    }
}

pub fn resolve_control_options(options: ControlCliOptions, answers: &ControlAnswers) -> (r: Result<
    ControlResolution,
    String,
>)
    ensures
        viewed(r) == control_resolution(options.deep_view(), answers.deep_view()),
{
    let ghost given = options.deep_view();
    let mut run = ControlRuntimeOptions::default();
    run.baud = options.baud;
    run.controller = options.controller;
    run.rate_hz = options.rate_hz;
    run.display = options.display;
    run.log_dir = options.log_dir;
    run.no_log = options.no_log;
    run.s3b = options.s3b;
    assert(run.deep_view() =~= control_start(given));
    let mut command = ControlPromptCommand::new(&run);
    let asked: Option<String> = match &options.format {
        None => {
            return resolve_output(run, command, &options.port, &options.monitor_ports, answers);
        },
        Some(IoBindingArg::Provided(value)) => Some(value.clone()),
        Some(IoBindingArg::Prompt) => match &answers.format {
            Some(value) => Some(value.clone()),
            None => None,
        },
    };
    match asked {
        None => Ok(ControlResolution::AskFormat(command)),
        Some(value) => {
            command.set_format(value.clone());
            run.format = Some(value);
            resolve_output(run, command, &options.port, &options.monitor_ports, answers)
        },
    }
}

} // verus!

//! `control`: the settings of a run, its pipeline, and when a report is sent.
use crate::args::{applied, default_baud_rate, lemma_applied_error, PortSpec, PortSpecModel};
use crate::command_line::{
    append_prompt_common_args, command_text, common_args, display_mode_for, format_command_preview,
    input_binding_text, push_word, resolve_input_line_break_mode,
};
use crate::control::{ControlMonitorBinding, ControlRunModel, ControlRuntimeOptions};
use crate::control_prompt::{
    control_rate_of, default_control_rate_hz, format_control_port_binding, mode_text, option_words,
    push_option,
};
use crate::display::{PortDisplayConfig, PortDisplayMode, PortDisplayModel};
use crate::format::{format_display_mode, format_name, OutputFormat};
use crate::io_command::{input_args, push_input_args, CommandInputModel, IoCommandInput};
use crate::io_settings::{
    command_input, default_baud_of, default_format, default_format_of, input_spec, io_line_break,
    log_dir_of, note_formats, noted, resolve_input_mode, resolve_io_input_binding, resolve_log_dir,
    resolved_input, ResolvedInputBinding, ResolvedInputModel,
};
use crate::outputs::{realign_send_time, realigned};
use crate::pipeline::{
    ClassifyModel, ClassifyModuleConfig, FilterModel, FilterModuleConfig, PipelineDefinition,
    PipelineModel, PipelineSpec, RouterModel, RouterModuleConfig, TransformChainConfig,
    TransformModel, TransformModuleConfig,
};
use crate::ports::{copy_lookup, lookups, Lookup};
use crate::send_run::{ChangeModel, OutputChange};
use crate::session::{
    extend_unique_formats, extended, find_input, input_on, InputBindingModel, InputPlan,
    InputPlanModel, InputSpecModel, ObservedInputSpec, ObservedSpecModel, OutputSpecModel,
    SessionInputSpec, SessionOutputSpec,
};
use crate::text::{cat2, cat5, decimal, decimal_text, has_prefix, same, starts_with, viewed};
use vstd::prelude::*;
use vstd::string::*;

verus! {

// ---------------------------------------------------------------------------
// Monitors
// ---------------------------------------------------------------------------

/// The monitors so far: the inputs, and how the command line names them.
pub type MonitorState = (InputPlanModel, Seq<CommandInputModel>);

/// The monitors with more formats for the first on a port.
pub open spec fn with_formats(
    monitors: Seq<CommandInputModel>,
    port: Seq<char>,
    formats: Seq<OutputFormat>,
) -> Seq<CommandInputModel>
    decreases monitors.len(),
{
    if monitors.len() == 0 {
        seq![]
    } else if monitors[0].port == port {
        monitors.update(
            0,
            CommandInputModel {
                formats: extended(monitors[0].formats, formats),
                ..monitors[0]
            },
        )
    } else {
        seq![monitors[0]] + with_formats(monitors.skip(1), port, formats)
    }
}

proof fn lemma_with_formats(
    monitors: Seq<CommandInputModel>,
    port: Seq<char>,
    formats: Seq<OutputFormat>,
    k: int,
)
    requires
        0 <= k <= monitors.len(),
        forall|i: int| 0 <= i < k ==> (#[trigger] monitors[i]).port != port,
        k < monitors.len() ==> monitors[k].port == port,
    ensures
        with_formats(monitors, port, formats) == (if k < monitors.len() {
            monitors.update(
                k,
                CommandInputModel {
                    formats: extended(monitors[k].formats, formats),
                    ..monitors[k]
                },
            )
        } else {
            monitors
        }),
    decreases monitors.len(),
{
    if monitors.len() == 0 {
        assert(monitors =~= Seq::<CommandInputModel>::empty());
    } else if k > 0 {
        assert(monitors[0].port != port);
        let rest = monitors.skip(1);
        assert forall|i: int| 0 <= i < k - 1 implies (#[trigger] rest[i]).port != port by {
            assert(rest[i] == monitors[i + 1]);
        }
        lemma_with_formats(rest, port, formats, k - 1);
        assert(with_formats(monitors, port, formats) =~= (if k < monitors.len() {
            monitors.update(
                k,
                CommandInputModel {
                    formats: extended(monitors[k].formats, formats),
                    ..monitors[k]
                },
            )
        } else {
            monitors
        }));
    }
}

fn add_formats(monitors: &mut Vec<IoCommandInput>, port: &str, formats: &Vec<OutputFormat>)
    ensures
        final(monitors).deep_view() == with_formats(
            old(monitors).deep_view(),
            port@,
            formats@,
        ),
{
    let ghost all = monitors.deep_view();
    let mut i: usize = 0;
    while i < monitors.len() && !same(monitors[i].port.as_str(), port)
        invariant
            i <= monitors.len(),
            all == monitors.deep_view(),
            *monitors == *old(monitors),
            forall|k: int| 0 <= k < i ==> (#[trigger] all[k]).port != port@,
        decreases monitors.len() - i,
    {
        assert(all[i as int] == monitors@[i as int].deep_view());
        i += 1;
    }
    proof {
        if i < monitors.len() {
            assert(all[i as int] == monitors@[i as int].deep_view());
        }
        lemma_with_formats(all, port@, formats@, i as int);
    }
    if i < monitors.len() {
        extend_unique_formats(&mut monitors[i].formats, formats);
        assert(monitors.deep_view() =~= all.update(
            i as int,
            CommandInputModel {
                formats: extended(all[i as int].formats, formats@),
                ..all[i as int]
            },
        ));
    }
}

/// What is wrong with a monitor on the port of the output at another baud rate.
#[verifier::opaque]
pub open spec fn shared_baud_text(port: Seq<char>, baud: u32) -> Seq<char> {
    "control monitor `"@ + port + "` must use the output baud rate "@ + decimal(baud as nat)
        + " when sharing the control output port"@
}

fn shared_baud_message(port: &str, baud: u32) -> (r: String)
    ensures
        r@ == shared_baud_text(port@, baud),
{
    reveal(shared_baud_text);
    let digits = decimal_text(baud as u64);
    cat5(
        "control monitor `",
        port,
        "` must use the output baud rate ",
        digits.as_str(),
        " when sharing the control output port",
    )
}

/// What is wrong with a port that is watched at two baud rates.
#[verifier::opaque]
pub open spec fn monitor_bauds_text(port: Seq<char>, a: u32, b: u32) -> Seq<char> {
    "control monitor `"@ + port + "` cannot use multiple baud rates ("@ + decimal(a as nat)
        + " and "@ + decimal(b as nat) + ")"@
}

fn monitor_bauds_message(port: &str, a: u32, b: u32) -> (r: String)
    ensures
        r@ == monitor_bauds_text(port@, a, b),
{
    reveal(monitor_bauds_text);
    let first = decimal_text(a as u64);
    let second = decimal_text(b as u64);
    let mut r = cat5(
        "control monitor `",
        port,
        "` cannot use multiple baud rates (",
        first.as_str(),
        " and ",
    );
    r.append(second.as_str());
    r.append(")");
    r
}

/// The monitors with one more on its port. One on the port of the output keeps the baud rate of
/// that, and monitors on one port keep to one baud rate.
pub open spec fn monitor_taken(
    state: MonitorState,
    b: ResolvedInputModel,
    port: Seq<char>,
    baud: u32,
    output_port: Seq<char>,
    output_baud: u32,
    display: PortDisplayModel,
) -> Result<MonitorState, Seq<char>> {
    let spec = input_spec(b, port, baud, io_line_break(b, port, display), display);
    if port == output_port && spec.baud_rate != output_baud {
        Err(shared_baud_text(port, output_baud))
    } else {
        match input_on(state.0.inputs, port) {
            Some(existing) => if existing.baud_rate != spec.baud_rate {
                Err(monitor_bauds_text(port, existing.baud_rate, spec.baud_rate))
            } else {
                Ok(
                    (
                        noted(state.0, b, port, display),
                        with_formats(state.1, port, b.formats),
                    ),
                )
            },
            None => Ok(
                (
                    noted(state.0.with_input(spec), b, port, display),
                    with_formats(
                        state.1.push(command_input(spec, seq![])),
                        port,
                        b.formats,
                    ),
                ),
            ),
        }
    }
}

fn take_monitor(
    plan: &mut InputPlan,
    commands: &mut Vec<IoCommandInput>,
    binding: &ResolvedInputBinding,
    port: &str,
    default_baud: u32,
    output_port: &str,
    output_baud: u32,
    display: &PortDisplayConfig,
) -> (r: Result<(), String>)
    ensures
        match r {
            Ok(()) => monitor_taken(
                (old(plan).deep_view(), old(commands).deep_view()),
                binding.deep_view(),
                port@,
                default_baud,
                output_port@,
                output_baud,
                display.deep_view(),
            ) == Ok::<MonitorState, Seq<char>>(
                (final(plan).deep_view(), final(commands).deep_view()),
            ),
            Err(e) => monitor_taken(
                (old(plan).deep_view(), old(commands).deep_view()),
                binding.deep_view(),
                port@,
                default_baud,
                output_port@,
                output_baud,
                display.deep_view(),
            ) == Err::<MonitorState, Seq<char>>(e@),
        },
{
    let baud_rate: u32 = match binding.baud {
        Some(own) => own,
        None => default_baud,
    };
    if same(port, output_port) && baud_rate != output_baud {
        return Err(shared_baud_message(port, output_baud));
    }
    let display_mode = resolve_input_mode(binding, port, display);
    let line_break_mode = resolve_input_line_break_mode(
        binding.line_break_mode,
        binding.formats.len() > 0,
        display.resolve_line_break_input_override(port),
    );
    let existing: Option<u32> = match find_input(&plan.inputs, port) {
        Some(input) => Some(input.baud_rate),
        None => None,
    };
    match existing {
        Some(existing_baud) => {
            if existing_baud != baud_rate {
                return Err(monitor_bauds_message(port, existing_baud, baud_rate));
            }
        },
        None => {
            plan.add_input(
                SessionInputSpec {
                    id: port.to_owned(),
                    port: port.to_owned(),
                    baud_rate,
                    display_mode,
                    line_break_mode,
                },
            );
            let ghost before = commands.deep_view();
            let command = IoCommandInput {
                port: port.to_owned(),
                baud_rate,
                display_mode,
                line_break_mode,
                formats: Vec::new(),
            };
            let ghost m = command.deep_view();
            assert(m.formats =~= Seq::<OutputFormat>::empty());
            commands.push(command);
            assert(commands.deep_view() =~= before.push(m));
        },
    }
    add_formats(commands, port, &binding.formats);
    note_formats(plan, binding, port, display);
    Ok(())
}

/// A monitor and the port that was found for it.
pub type MonitorItem = (InputBindingModel, Lookup);

pub open spec fn monitor_items(monitors: Seq<InputBindingModel>, found: Seq<Lookup>) -> Seq<
    MonitorItem,
> {
    Seq::new(monitors.len(), |i: int| (monitors[i], found[i]))
}

pub open spec fn control_monitor_step(
    baud: u32,
    output_port: Seq<char>,
    output_baud: u32,
    display: PortDisplayModel,
) -> spec_fn(MonitorState, MonitorItem) -> Result<MonitorState, Seq<char>> {
    |state: MonitorState, item: MonitorItem|
        match item.1 {
            Err(e) => Err(e),
            Ok(port) => match resolved_input(item.0) {
                Err(e) => Err(e),
                Ok(b) => monitor_taken(
                    state,
                    b,
                    port,
                    baud,
                    output_port,
                    output_baud,
                    display,
                ),
            },
        }
}

/// The monitors on their ports.
pub open spec fn planned_control_monitors(
    monitors: Seq<InputBindingModel>,
    found: Seq<Lookup>,
    baud: u32,
    output_port: Seq<char>,
    output_baud: u32,
    display: PortDisplayModel,
) -> Result<MonitorState, Seq<char>> {
    applied(
        control_monitor_step(baud, output_port, output_baud, display),
        (InputPlanModel::empty(), Seq::empty()),
        monitor_items(monitors, found),
    )
}

fn plan_monitor(
    plan: &mut InputPlan,
    commands: &mut Vec<IoCommandInput>,
    binding: &ControlMonitorBinding,
    found: &Result<String, String>,
    default_baud: u32,
    output_port: &str,
    output_baud: u32,
    display: &PortDisplayConfig,
) -> (r: Result<(), String>)
    ensures
        match r {
            Ok(()) => control_monitor_step(
                default_baud,
                output_port@,
                output_baud,
                display.deep_view(),
            )(
                (old(plan).deep_view(), old(commands).deep_view()),
                (binding.deep_view(), viewed(*found)),
            ) == Ok::<MonitorState, Seq<char>>(
                (final(plan).deep_view(), final(commands).deep_view()),
            ),
            Err(e) => control_monitor_step(
                default_baud,
                output_port@,
                output_baud,
                display.deep_view(),
            )(
                (old(plan).deep_view(), old(commands).deep_view()),
                (binding.deep_view(), viewed(*found)),
            ) == Err::<MonitorState, Seq<char>>(e@),
        },
{
    let port = copy_lookup(found)?;
    let resolved = resolve_io_input_binding(binding)?;
    take_monitor(
        plan,
        commands,
        &resolved,
        port.as_str(),
        default_baud,
        output_port,
        output_baud,
        display,
    )
}

fn plan_monitors(
    monitors: &Vec<ControlMonitorBinding>,
    found: &Vec<Result<String, String>>,
    default_baud: u32,
    output_port: &str,
    output_baud: u32,
    display: &PortDisplayConfig,
) -> (r: Result<(InputPlan, Vec<IoCommandInput>), String>)
    requires
        found.len() == monitors.len(),
    ensures
        viewed(r) == planned_control_monitors(
            monitors.deep_view(),
            lookups(found@),
            default_baud,
            output_port@,
            output_baud,
            display.deep_view(),
        ),
{
    let ghost all = monitor_items(monitors.deep_view(), lookups(found@));
    let ghost step = control_monitor_step(
        default_baud,
        output_port@,
        output_baud,
        display.deep_view(),
    );
    let ghost start: MonitorState = (InputPlanModel::empty(), Seq::empty());
    let mut plan = InputPlan::default();
    let mut commands: Vec<IoCommandInput> = Vec::new();
    let mut i: usize = 0;
    assert(all.take(0) =~= Seq::<MonitorItem>::empty());
    assert(commands.deep_view() =~= Seq::<CommandInputModel>::empty());
    while i < monitors.len()
        invariant
            i <= monitors.len(),
            found.len() == monitors.len(),
            all == monitor_items(monitors.deep_view(), lookups(found@)),
            all.len() == monitors.len(),
            step == control_monitor_step(
                default_baud,
                output_port@,
                output_baud,
                display.deep_view(),
            ),
            start == (InputPlanModel::empty(), Seq::<CommandInputModel>::empty()),
            applied(step, start, all.take(i as int)) == Ok::<MonitorState, Seq<char>>(
                (plan.deep_view(), commands.deep_view()),
            ),
        decreases monitors.len() - i,
    {
        proof {
            assert(all.take(i + 1).drop_last() == all.take(i as int));
            assert(all.take(i + 1).last() == (
                monitors@[i as int].deep_view(),
                viewed(found@[i as int]),
            ));
        }
        if let Err(e) = plan_monitor(
            &mut plan,
            &mut commands,
            &monitors[i],
            &found[i],
            default_baud,
            output_port,
            output_baud,
            display,
        ) {
            proof {
                lemma_applied_error(step, start, all, i + 1, e@);
            }
            return Err(e);
        }
        i += 1;
    }
    assert(all.take(i as int) == all);
    Ok((plan, commands))
}

// ---------------------------------------------------------------------------
// The command line of a run
// ---------------------------------------------------------------------------

/// The command line that runs with a given output, monitors and controller.
pub open spec fn control_command_text(
    output: OutputSpecModel,
    format: OutputFormat,
    rate_hz: u32,
    monitors: Seq<CommandInputModel>,
    controller: Option<Seq<char>>,
    log_dir: Option<Seq<char>>,
    no_log: bool,
    s3b: bool,
) -> Seq<char> {
    command_text(
        seq!["acs"@, "control"@] + option_words(
            "-p"@,
            Some(
                input_binding_text(
                    output.port,
                    Some(decimal(output.baud_rate as nat)),
                    mode_text(Some(output.display_mode)),
                    None,
                ),
            ),
        ) + option_words("--format"@, Some(format_name(format))) + option_words(
            "--rate"@,
            Some(decimal(rate_hz as nat)),
        ) + option_words("--controller"@, controller) + input_args("-m"@, monitors) + common_args(
            log_dir,
            no_log,
            s3b,
        ),
    )
}

pub fn build_control_executed_command(
    output: &SessionOutputSpec,
    format: OutputFormat,
    rate_hz: u32,
    monitors: &Vec<IoCommandInput>,
    controller: Option<&str>,
    log_dir: Option<&str>,
    no_log: bool,
    s3b: bool,
) -> (r: String)
    ensures
        r@ == control_command_text(
            output.deep_view(),
            format,
            rate_hz,
            monitors.deep_view(),
            controller.deep_view(),
            log_dir.deep_view(),
            no_log,
            s3b,
        ),
{
    let mut words: Vec<String> = Vec::new();
    assert(words.deep_view() =~= Seq::<Seq<char>>::empty());
    push_word(&mut words, "acs");
    push_word(&mut words, "control");
    assert(words.deep_view() =~= seq!["acs"@, "control"@]);
    let binding = format_control_port_binding(
        output.port.as_str(),
        output.baud_rate,
        Some(output.display_mode),
    );
    let rate = decimal_text(rate_hz as u64);
    push_option(&mut words, "-p", Some(binding.as_str()));
    push_option(&mut words, "--format", Some(format.as_str()));
    push_option(&mut words, "--rate", Some(rate.as_str()));
    push_option(&mut words, "--controller", controller);
    push_input_args(&mut words, "-m", monitors);
    append_prompt_common_args(&mut words, log_dir, no_log, s3b);
    format_command_preview(&words)
}

// ---------------------------------------------------------------------------
// Settings
// ---------------------------------------------------------------------------

/// A run that is planned but for its controller.
#[derive(Debug)]
pub struct ControlPlan {
    pub inputs: Vec<SessionInputSpec>,
    pub output: SessionOutputSpec,
    pub observed_inputs: Vec<ObservedInputSpec>,
    pub monitors: Vec<IoCommandInput>,
    pub format: OutputFormat,
    pub rate_hz: u32,
    pub given_log_dir: Option<String>,
    pub log_dir: String,
    pub no_log: bool,
    pub s3b: bool,
}

#[verifier::ext_equal]
pub struct ControlPlanModel {
    pub inputs: Seq<InputSpecModel>,
    pub output: OutputSpecModel,
    pub observed_inputs: Seq<ObservedSpecModel>,
    pub monitors: Seq<CommandInputModel>,
    pub format: OutputFormat,
    pub rate_hz: u32,
    pub given_log_dir: Option<Seq<char>>,
    pub log_dir: Seq<char>,
    pub no_log: bool,
    pub s3b: bool,
}

impl DeepView for ControlPlan {
    type V = ControlPlanModel;

    open spec fn deep_view(&self) -> ControlPlanModel {
        ControlPlanModel {
            inputs: self.inputs.deep_view(),
            output: self.output.deep_view(),
            observed_inputs: self.observed_inputs.deep_view(),
            monitors: self.monitors.deep_view(),
            format: self.format,
            rate_hz: self.rate_hz,
            given_log_dir: self.given_log_dir.deep_view(),
            log_dir: self.log_dir@,
            no_log: self.no_log,
            s3b: self.s3b,
        }
    }
}

impl ControlPlanModel {
    /// The command line of the plan with a controller.
    pub open spec fn command(self, controller: Option<Seq<char>>) -> Seq<char> {
        control_command_text(
            self.output,
            self.format,
            self.rate_hz,
            self.monitors,
            controller,
            self.given_log_dir,
            self.no_log,
            self.s3b,
        )
    }
}

impl ControlPlan {
    pub fn command(&self, controller: Option<&str>) -> (r: String)
        ensures
            r@ == self.deep_view().command(controller.deep_view()),
    {
        let log_dir: Option<&str> = match &self.given_log_dir {
            Some(dir) => Some(dir.as_str()),
            None => None,
        };
        build_control_executed_command(
            &self.output,
            self.format,
            self.rate_hz,
            &self.monitors,
            controller,
            log_dir,
            self.no_log,
            self.s3b,
        )
    }
}

pub open spec fn chosen_port(port: Option<PortSpecModel>) -> Option<PortSpecModel> {
    match port {
        Some(spec) => spec.normalized(),
        None => None,
    }
}

/// The output on the port that was selected for it.
pub open spec fn control_output(
    spec: Option<PortSpecModel>,
    port: Seq<char>,
    baud: u32,
    format: OutputFormat,
    display: PortDisplayModel,
) -> OutputSpecModel {
    OutputSpecModel {
        id: "main"@,
        port,
        baud_rate: match spec {
            Some(spec) => match spec.baud {
                Some(own) => own,
                None => baud,
            },
            None => baud,
        },
        format_name: format_name(format),
        display_mode: display_mode_for(
            match spec {
                Some(spec) => spec.display_mode,
                None => None,
            },
            display.output_override(port),
            Some(format_display_mode(format)),
        ),
    }
}

/// The format and the rate of a run.
pub open spec fn control_sending(o: ControlRunModel) -> Result<(OutputFormat, u32), Seq<char>> {
    match default_format_of(o.format) {
        Err(e) => Err(e),
        Ok(format) => {
            let rate_hz = match o.rate_hz {
                Some(rate) => rate,
                None => control_rate_of(format),
            };
            if rate_hz == 0 {
                Err("control send rate must be greater than 0"@)
            } else {
                Ok((format, rate_hz))
            }
        },
    }
}

/// The plan that options give with the port that was selected for the output and those found for
/// the monitors.
pub open spec fn control_plan(
    o: ControlRunModel,
    selected: Lookup,
    found: Seq<Lookup>,
    current_dir: Option<Seq<char>>,
) -> Result<ControlPlanModel, Seq<char>> {
    let baud = default_baud_of(o.baud);
    match control_sending(o) {
        Err(e) => Err(e),
        Ok((format, rate_hz)) => match selected {
            Err(e) => Err(e),
            Ok(port) => {
                let output = control_output(chosen_port(o.port), port, baud, format, o.display);
                match planned_control_monitors(
                    o.monitor_ports,
                    found,
                    baud,
                    port,
                    output.baud_rate,
                    o.display,
                ) {
                    Err(e) => Err(e),
                    Ok((plan, monitors)) => Ok(
                        ControlPlanModel {
                            inputs: plan.inputs,
                            output,
                            observed_inputs: plan.observed(true),
                            monitors,
                            format,
                            rate_hz,
                            given_log_dir: o.log_dir,
                            log_dir: log_dir_of(o.log_dir, current_dir),
                            no_log: o.no_log,
                            s3b: o.s3b,
                        },
                    ),
                }
            },
        },
    }
}

fn plan_output(
    spec: Option<PortSpec>,
    port: String,
    default_baud: u32,
    format: OutputFormat,
    display: &PortDisplayConfig,
) -> (output: SessionOutputSpec)
    ensures
        output.deep_view() == control_output(
            spec.deep_view(),
            port@,
            default_baud,
            format,
            display.deep_view(),
        ),
{
    let (baud, asked): (Option<u32>, Option<PortDisplayMode>) = match &spec {
        Some(spec) => (spec.baud, spec.display_mode),
        None => (None, None),
    };
    let display_mode = match asked {
        Some(mode) => mode,
        None => match display.resolve_output_override(port.as_str()) {
            Some(mode) => mode,
            None => format.default_display_mode(),
        },
    };
    SessionOutputSpec {
        id: "main".to_owned(),
        port,
        baud_rate: match baud {
            Some(own) => own,
            None => default_baud,
        },
        format_name: format.as_str().to_owned(),
        display_mode,
    }
}

pub fn plan_control(
    options: ControlRuntimeOptions,
    selected: &Result<String, String>,
    monitor_ports: &Vec<Result<String, String>>,
    current_dir: Option<&str>,
) -> (r: Result<ControlPlan, String>)
    requires
        monitor_ports.len() == options.monitor_ports.len(),
    ensures
        viewed(r) == control_plan(
            options.deep_view(),
            viewed(*selected),
            lookups(monitor_ports@),
            current_dir.deep_view(),
        ),
{
    let default_baud: u32 = match options.baud {
        Some(baud) => baud,
        None => default_baud_rate(),
    };
    let format = default_format(&options.format)?;
    let rate_hz: u32 = match options.rate_hz {
        Some(rate) => rate,
        None => default_control_rate_hz(format),
    };
    if rate_hz == 0 {
        return Err("control send rate must be greater than 0".to_owned());
    }
    let port = copy_lookup(selected)?;
    let spec: Option<PortSpec> = match options.port {
        Some(spec) => spec.normalized(),
        None => None,
    };
    let output = plan_output(spec, port, default_baud, format, &options.display);
    let (plan, monitors) = plan_monitors(
        &options.monitor_ports,
        monitor_ports,
        default_baud,
        output.port.as_str(),
        output.baud_rate,
        &options.display,
    )?;
    let observed_inputs = plan.observed_inputs(true);
    let log_dir = resolve_log_dir(&options.log_dir, current_dir);
    Ok(
        ControlPlan {
            inputs: plan.inputs,
            output,
            observed_inputs,
            monitors,
            format,
            rate_hz,
            given_log_dir: options.log_dir,
            log_dir,
            no_log: options.no_log,
            s3b: options.s3b,
        },
    )
}

/// The controller: the given one; else, where there are several, the number of the selected one.
pub open spec fn controller_of(
    given: Option<Seq<char>>,
    devices: Result<usize, Seq<char>>,
    selected: Result<usize, Seq<char>>,
) -> Result<Option<Seq<char>>, Seq<char>> {
    if given is Some {
        Ok(given)
    } else {
        match devices {
            Err(e) => Err("failed to list controllers: "@ + e),
            Ok(n) => if n <= 1 {
                Ok(None)
            } else {
                match selected {
                    Err(e) => Err(e),
                    Ok(i) => Ok(Some(decimal(i as nat))),
                }
            },
        }
    }
}

pub fn resolve_control_controller(
    controller: Option<String>,
    devices: Result<usize, String>,
    selected: Result<usize, String>,
) -> (r: Result<Option<String>, String>)
    ensures
        viewed(r) == controller_of(controller.deep_view(), viewed(devices), viewed(selected)),
{
    if controller.is_some() {
        return Ok(controller);
    }
    match devices {
        Err(e) => Err(cat2("failed to list controllers: ", e.as_str())),
        Ok(n) => {
            if n <= 1 {
                return Ok(None);
            }
            let i: usize = selected?;
            Ok(Some(decimal_text(i as u64)))
        },
    }
}

#[derive(Debug)]
pub struct ControlSettings {
    pub plan: ControlPlan,
    pub controller: Option<String>,
    pub logging_enabled: bool,
    pub executed_command: String,
}

#[verifier::ext_equal]
pub struct ControlSettingsModel {
    pub plan: ControlPlanModel,
    pub controller: Option<Seq<char>>,
    pub logging_enabled: bool,
    pub executed_command: Seq<char>,
}

impl DeepView for ControlSettings {
    type V = ControlSettingsModel;

    open spec fn deep_view(&self) -> ControlSettingsModel {
        ControlSettingsModel {
            plan: self.plan.deep_view(),
            controller: self.controller.deep_view(),
            logging_enabled: self.logging_enabled,
            executed_command: self.executed_command@,
        }
    }
}

/// The settings of a planned run with its controller.
pub open spec fn control_settings(
    plan: Result<ControlPlanModel, Seq<char>>,
    controller: Result<Option<Seq<char>>, Seq<char>>,
) -> Result<ControlSettingsModel, Seq<char>> {
    match (plan, controller) {
        (Err(e), _) => Err(e),
        (Ok(_), Err(e)) => Err(e),
        (Ok(plan), Ok(controller)) => Ok(
            ControlSettingsModel {
                plan,
                controller,
                logging_enabled: !plan.no_log,
                executed_command: plan.command(controller),
            },
        ),
    }
}

pub fn build_settings(
    options: ControlRuntimeOptions,
    selected_port: &Result<String, String>,
    monitor_ports: &Vec<Result<String, String>>,
    devices: Result<usize, String>,
    selected_device: Result<usize, String>,
    current_dir: Option<&str>,
) -> (r: Result<ControlSettings, String>)
    requires
        monitor_ports.len() == options.monitor_ports.len(),
    ensures
        viewed(r) == control_settings(
            control_plan(
                options.deep_view(),
                viewed(*selected_port),
                lookups(monitor_ports@),
                current_dir.deep_view(),
            ),
            controller_of(
                options.controller.deep_view(),
                viewed(devices),
                viewed(selected_device),
            ),
        ),
{
    let given = options.controller.clone();
    let plan = plan_control(options, selected_port, monitor_ports, current_dir)?;
    let controller = resolve_control_controller(given, devices, selected_device)?;
    let executed_command = match &controller {
        Some(controller) => plan.command(Some(controller.as_str())),
        None => plan.command(None),
    };
    let logging_enabled = !plan.no_log;
    Ok(ControlSettings { plan, controller, logging_enabled, executed_command })
}

// ---------------------------------------------------------------------------
// The pipeline
// ---------------------------------------------------------------------------

pub open spec fn control_transforms(format: OutputFormat) -> Seq<TransformModel> {
    seq![TransformModel::Ds4ToCompact, TransformModel::OutputEncode { format }]
}

pub fn control_transform_modules(format: OutputFormat) -> (modules: Vec<TransformModuleConfig>)
    ensures
        modules.deep_view() == control_transforms(format),
{
    let mut modules: Vec<TransformModuleConfig> = Vec::new();
    modules.push(TransformModuleConfig::Ds4ToCompact);
    modules.push(TransformModuleConfig::OutputEncode { format });
    assert(modules.deep_view() =~= control_transforms(format));
    modules
}

/// What a controller reports is made compact, encoded in the format, and sent to the output.
pub open spec fn control_pipeline(input: Seq<char>, format: OutputFormat) -> PipelineModel {
    PipelineModel {
        id: "control_main"@,
        inputs: seq![input],
        filter: FilterModel::AllowAll,
        transform: control_transforms(format),
        classify: ClassifyModel::Unclassified,
        router: RouterModel::Broadcast { outputs: seq!["main"@] },
    }
}

pub fn build_control_pipeline_spec(controller_input_id: &str, format: OutputFormat) -> (spec:
    PipelineSpec)
    ensures
        spec.deep_view() == seq![control_pipeline(controller_input_id@, format)],
{
    let mut inputs: Vec<String> = Vec::new();
    inputs.push(controller_input_id.to_owned());
    let mut outputs: Vec<String> = Vec::new();
    outputs.push("main".to_owned());
    assert(inputs.deep_view() =~= seq![controller_input_id@]);
    assert(outputs.deep_view() =~= seq!["main"@]);
    let pipeline = PipelineDefinition {
        id: "control_main".to_owned(),
        inputs,
        filter: FilterModuleConfig::AllowAll,
        transform: TransformChainConfig { modules: control_transform_modules(format) },
        classify: ClassifyModuleConfig::Unclassified,
        router: RouterModuleConfig::Broadcast { outputs },
    };
    let ghost m = pipeline.deep_view();
    let mut pipelines: Vec<PipelineDefinition> = Vec::new();
    pipelines.push(pipeline);
    assert(pipelines.deep_view() =~= seq![m]);
    PipelineSpec { pipelines }
}

// ---------------------------------------------------------------------------
// When to send
// ---------------------------------------------------------------------------

/// How long a READ USB request is sent, in nanoseconds.
pub const READ_USB_PULSE_DURATION: u64 = 250_000_000;

pub fn realign_control_send_schedule(next_send_at: &mut u64, period: u64, now: u64)
    ensures
        *final(next_send_at) == realigned(*old(next_send_at) as int, period as int, now as int),
{
    *next_send_at = realign_send_time(*next_send_at, period, now);
}

/// What came of asking the controller for a report.
#[derive(Debug, Clone, Copy, PartialEq, Eq, Structural)]
pub enum ControllerPoll {
    Failed,
    Nothing,
    Report,
}

/// The sending of reports: when the next is due, whether one is there, and until when READ USB is
/// requested.
#[derive(Debug, Clone, Copy, PartialEq, Eq, Structural)]
pub struct ControlSending {
    pub next_send_at: u64,
    pub period: u64,
    pub has_report: bool,
    pub read_usb_until: Option<u64>,
    pub read_usb_pending: bool,
}

impl ControlSending {
    /// The state once a request for READ USB was seen.
    pub open spec fn requested(self, now: u64, request: bool) -> ControlSending {
        if request {
            ControlSending {
                read_usb_until: Some(
                    if now + READ_USB_PULSE_DURATION <= u64::MAX {
                        (now + READ_USB_PULSE_DURATION) as u64
                    } else {
                        u64::MAX
                    },
                ),
                read_usb_pending: true,
                ..self
            }
        } else {
            self
        }
    }

    /// READ USB is requested for a time that has not passed.
    pub open spec fn in_window(self, now: u64) -> bool {
        self.read_usb_until is Some && now < self.read_usb_until->0
    }

    /// The latest report is due.
    pub open spec fn sends(self, now: u64) -> bool {
        now >= self.next_send_at && self.has_report
    }

    /// The state after a report was polled, and whether it is sent with READ USB, where it is.
    pub open spec fn ticked(self, now: u64, request: bool, poll: ControllerPoll) -> (
        ControlSending,
        Option<bool>,
    ) {
        let s = self.requested(now, request);
        let active = s.in_window(now);
        if poll == ControllerPoll::Failed {
            (s, None)
        } else {
            let polled = ControlSending {
                has_report: s.has_report || poll == ControllerPoll::Report,
                ..s
            };
            let sent = polled.sends(now);
            let due = now >= polled.next_send_at;
            let next = realigned(polled.next_send_at as int, polled.period as int, now as int)
                + polled.period;
            let pending = polled.read_usb_pending && !sent;
            (
                ControlSending {
                    next_send_at: if !due {
                        polled.next_send_at
                    } else if next <= u64::MAX {
                        next as u64
                    } else {
                        u64::MAX
                    },
                    read_usb_pending: pending,
                    read_usb_until: if !pending && !active {
                        None
                    } else {
                        polled.read_usb_until
                    },
                    ..polled
                },
                if sent {
                    Some(polled.read_usb_pending || active)
                } else {
                    None
                },
            )
        }
    }

    pub fn new(started_at: u64, period: u64) -> (sending: ControlSending)
        ensures
            sending == (ControlSending {
                next_send_at: started_at,
                period,
                has_report: false,
                read_usb_until: None,
                read_usb_pending: false,
            }),
    {
        ControlSending {
            next_send_at: started_at,
            period,
            has_report: false,
            read_usb_until: None,
            read_usb_pending: false,
        }
    }

    /// Takes a poll of the controller. Tells whether the latest report is to be sent now, and
    /// whether with READ USB.
    pub fn tick(&mut self, now: u64, request: bool, poll: ControllerPoll) -> (send: Option<bool>)
        ensures
            (*final(self), send) == old(self).ticked(now, request, poll),
    {
        if request {
            let until: u64 = if now <= u64::MAX - READ_USB_PULSE_DURATION {
                now + READ_USB_PULSE_DURATION
            } else {
                u64::MAX
            };
            self.read_usb_until = Some(until);
            self.read_usb_pending = true;
        }
        let active = match self.read_usb_until {
            Some(until) => now < until,
            None => false,
        };
        if poll == ControllerPoll::Failed {
            return None;
        }
        if poll == ControllerPoll::Report {
            self.has_report = true;
        }
        let mut send: Option<bool> = None;
        if now >= self.next_send_at {
            realign_control_send_schedule(&mut self.next_send_at, self.period, now);
            if self.has_report {
                send = Some(self.read_usb_pending || active);
                self.read_usb_pending = false;
            }
            self.next_send_at = if self.next_send_at <= u64::MAX - self.period {
                self.next_send_at + self.period
            } else {
                u64::MAX
            };
        }
        if !self.read_usb_pending && !active {
            self.read_usb_until = None;
        }
        send
    }
}

/// A request for READ USB is not lost: it stays until a report is sent, and that report carries
/// it.
pub proof fn law_request_reaches_a_report(
    s: ControlSending,
    now: u64,
    request: bool,
    poll: ControllerPoll,
)
    requires
        s.read_usb_pending || request,
    ensures
        s.ticked(now, request, poll).1 is Some ==> s.ticked(now, request, poll).1 == Some(true),
        s.ticked(now, request, poll).1 is None ==> s.ticked(now, request, poll).0.read_usb_pending,
{
}

// ---------------------------------------------------------------------------
// Dispatching
// ---------------------------------------------------------------------------

/// Bytes for an output.
#[derive(Debug)]
pub struct Dispatch {
    pub output_id: String,
    pub bytes: Vec<u8>,
}

/// What to do with a processed report: the writes, whether the packets of the writes are to carry
/// READ USB, and a status to show.
#[derive(Debug)]
pub struct ControlDispatch {
    pub writes: Vec<Dispatch>,
    pub read_usb: bool,
    pub status: Option<String>,
}

/// The status that a failed pipeline shows; a report that cannot be converted shows none.
pub open spec fn pipeline_status(error: Seq<char>) -> Option<Seq<char>> {
    if has_prefix(error, "failed to convert DS4 report:"@) {
        None
    } else {
        Some("pipeline error: "@ + error)
    }
}

pub fn dispatch_control_report(
    processed: Result<Vec<Dispatch>, String>,
    format: OutputFormat,
    read_usb_requested: bool,
) -> (r: ControlDispatch)
    ensures
        match processed {
            Ok(writes) => r.writes == writes && r.status is None && r.read_usb == (
            read_usb_requested && format == OutputFormat::PacketAcV6),
            Err(e) => r.writes@.len() == 0 && !r.read_usb && r.status.deep_view()
                == pipeline_status(e@),
        },
{
    match processed {
        Ok(writes) => ControlDispatch {
            writes,
            read_usb: read_usb_requested && format == OutputFormat::PacketAcV6,
            status: None,
        },
        Err(e) => {
            let status = if starts_with(e.as_str(), "failed to convert DS4 report:") {
                None
            } else {
                Some(cat2("pipeline error: ", e.as_str()))
            };
            ControlDispatch { writes: Vec::new(), read_usb: false, status }
        },
    }
}

/// What a write changes on the display of its output: an error is shown, and a write that succeeds
/// clears what was shown.
pub open spec fn control_change(outcome: Result<(), Seq<char>>) -> ChangeModel {
    match outcome {
        Ok(()) => ChangeModel::ClearError,
        Err(e) => ChangeModel::ShowError(e),
    }
}

/// The change that the outcome of a write of a report brings to its output.
pub fn record_control_write(write: &Dispatch, outcome: Result<(), String>) -> (r: (
    String,
    OutputChange,
))
    ensures
        r.0@ == write.output_id@,
        r.1.deep_view() == control_change(viewed(outcome)),
{
    let change = match outcome {
        Ok(()) => OutputChange::ClearError,
        Err(e) => OutputChange::ShowError(e),
    };
    (write.output_id.clone(), change)
}

} // verus!

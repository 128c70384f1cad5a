//! `send`: the settings of a run, from options and the ports that were found for them.
use crate::args::{
    applied, collected, default_baud_rate, lemma_applied_error, lemma_collected_error, PortSpec,
    PortSpecModel,
};
use crate::display::{LineBreakMode, PortDisplayConfig, PortDisplayMode, PortDisplayModel};
use crate::format::{format_display_mode, format_packet_len, parsed_format, OutputFormat};
use crate::io_command::{
    build_io_executed_command, io_command_text, CommandInputModel, CommandOutputModel,
    IoCommandInput, IoCommandOutput,
};
use crate::io_settings::{
    default_baud_of, default_format, default_format_of, input_items, input_taken, log_dir_of,
    resolve_input_bindings, resolve_log_dir, resolved_inputs, take_input, InputItem, InputState,
    ResolvedInputBinding, ResolvedInputModel,
};
use crate::output_plan::{
    plan_output, planned, OutputSettings, OutputSettingsModel, OutputWish, OutputWishModel,
};
use crate::outputs::{
    check_port_loads, estimated_output_line_bps, loads_checked, LoadModel, OutputLoad,
};
use crate::ports::{copy_lookup, lookups, Lookup};
use crate::send::{
    SendCliOptions, SendOptionsModel, SendOutputBinding, SendOutputBindingModel,
    DEFAULT_SEND_RATE_HZ,
};
use crate::session::{
    InputPlan, InputPlanModel, InputSpecModel, ObservedInputSpec, ObservedSpecModel,
    SessionInputSpec,
};
use crate::text::{cat2, decimal, decimal_text, same, viewed};
use vstd::prelude::*;

verus! {

pub type SendOutputSettings = OutputSettings<u32>;

pub type SendOutputsModel = Seq<OutputSettingsModel<u32>>;

// ---------------------------------------------------------------------------
// Resolved outputs
// ---------------------------------------------------------------------------

#[derive(Debug)]
pub struct ResolvedSendOutputBinding {
    pub id: String,
    pub port: String,
    pub baud: Option<u32>,
    pub rate_hz: u32,
    pub format: OutputFormat,
    pub display_mode: Option<PortDisplayMode>,
    pub line_break_mode: Option<LineBreakMode>,
}

#[verifier::ext_equal]
pub struct ResolvedSendModel {
    pub id: Seq<char>,
    pub port: Seq<char>,
    pub baud: Option<u32>,
    pub rate_hz: u32,
    pub format: OutputFormat,
    pub display_mode: Option<PortDisplayMode>,
    pub line_break_mode: Option<LineBreakMode>,
}

impl DeepView for ResolvedSendOutputBinding {
    type V = ResolvedSendModel;

    open spec fn deep_view(&self) -> ResolvedSendModel {
        ResolvedSendModel {
            id: self.id@,
            port: self.port@,
            baud: self.baud,
            rate_hz: self.rate_hz,
            format: self.format,
            display_mode: self.display_mode,
            line_break_mode: self.line_break_mode,
        }
    }
}

/// An output with its own rate and format, or the given ones; a rate must not be 0.
pub open spec fn resolved_send_output(
    b: SendOutputBindingModel,
    rate: u32,
    format: OutputFormat,
) -> Result<ResolvedSendModel, Seq<char>> {
    let rate_hz = match b.rate_hz {
        Some(own) => own,
        None => rate,
    };
    if rate_hz == 0 {
        Err("send output rate must be greater than 0"@)
    } else {
        match (match b.format {
            Some(name) => parsed_format(name),
            None => Ok(format),
        }) {
            Err(e) => Err(e),
            Ok(format) => Ok(
                ResolvedSendModel {
                    id: b.id,
                    port: b.port,
                    baud: b.baud,
                    rate_hz,
                    format,
                    display_mode: b.display_mode,
                    line_break_mode: b.line_break_mode,
                },
            ),
        }
    }
}

pub fn resolve_send_output_binding(
    binding: &SendOutputBinding,
    default_rate_hz: u32,
    default_format: OutputFormat,
) -> (r: Result<ResolvedSendOutputBinding, String>)
    ensures
        viewed(r) == resolved_send_output(binding.deep_view(), default_rate_hz, default_format),
{
    let rate_hz: u32 = match binding.rate_hz {
        Some(own) => own,
        None => default_rate_hz,
    };
    if rate_hz == 0 {
        return Err("send output rate must be greater than 0".to_owned());
    }
    let format = match &binding.format {
        Some(name) => OutputFormat::parse(name.as_str())?,
        None => default_format,
    };
    Ok(
        ResolvedSendOutputBinding {
            id: binding.id.clone(),
            port: binding.port.clone(),
            baud: binding.baud,
            rate_hz,
            format,
            display_mode: binding.display_mode,
            line_break_mode: binding.line_break_mode,
        },
    )
}

pub open spec fn send_output_reader(rate: u32, format: OutputFormat) -> spec_fn(
    SendOutputBindingModel,
) -> Result<Option<ResolvedSendModel>, Seq<char>> {
    |b: SendOutputBindingModel|
        match resolved_send_output(b, rate, format) {
            Err(e) => Err(e),
            Ok(output) => Ok(Some(output)),
        }
}

/// The single output of a run that names none: on the given port, or on the one that is there.
pub open spec fn main_output(port: Option<PortSpecModel>, path: Seq<char>) -> SendOutputBindingModel {
    let spec = match port {
        Some(spec) => spec.normalized(),
        None => None,
    };
    SendOutputBindingModel {
        id: "main"@,
        port: path,
        baud: match spec {
            Some(spec) => spec.baud,
            None => None,
        },
        rate_hz: None,
        format: None,
        display_mode: match spec {
            Some(spec) => spec.display_mode,
            None => None,
        },
        line_break_mode: match spec {
            Some(spec) => spec.line_break_mode,
            None => None,
        },
    }
}

/// The outputs that options name, or the single one on the port that was selected.
pub open spec fn resolved_send_outputs(
    o: SendOptionsModel,
    selected: Lookup,
    rate: u32,
    format: OutputFormat,
) -> Result<Seq<ResolvedSendModel>, Seq<char>> {
    if o.outputs.len() > 0 {
        collected(send_output_reader(rate, format), o.outputs)
    } else {
        match selected {
            Err(e) => Err(e),
            Ok(path) => match resolved_send_output(main_output(o.port, path), rate, format) {
                Err(e) => Err(e),
                Ok(output) => Ok(seq![output]),
            },
        }
    }
}

fn named_outputs(
    outputs: &Vec<SendOutputBinding>,
    default_rate_hz: u32,
    default_format: OutputFormat,
) -> (r: Result<Vec<ResolvedSendOutputBinding>, String>)
    ensures
        viewed(r) == collected(
            send_output_reader(default_rate_hz, default_format),
            outputs.deep_view(),
        ),
        r matches Ok(resolved) ==> resolved.len() == outputs.len(),
{
    let ghost all = outputs.deep_view();
    let ghost read = send_output_reader(default_rate_hz, default_format);
    let mut resolved: Vec<ResolvedSendOutputBinding> = Vec::new();
    let mut i: usize = 0;
    assert(all.take(0) =~= Seq::<SendOutputBindingModel>::empty());
    assert(resolved.deep_view() =~= Seq::<ResolvedSendModel>::empty());
    while i < outputs.len()
        invariant
            i <= outputs.len(),
            all == outputs.deep_view(),
            read == send_output_reader(default_rate_hz, default_format),
            resolved.len() == i,
            collected(read, all.take(i as int)) == Ok::<Seq<ResolvedSendModel>, Seq<char>>(
                resolved.deep_view(),
            ),
        decreases outputs.len() - i,
    {
        proof {
            assert(all.take(i + 1).drop_last() == all.take(i as int));
            assert(all.take(i + 1).last() == outputs@[i as int].deep_view());
        }
        match resolve_send_output_binding(&outputs[i], default_rate_hz, default_format) {
            Ok(output) => {
                let ghost before = resolved.deep_view();
                let ghost m = output.deep_view();
                resolved.push(output);
                assert(resolved.deep_view() =~= before.push(m));
            },
            Err(e) => {
                proof {
                    lemma_collected_error(read, all, i + 1, e@);
                }
                return Err(e);
            },
        }
        i += 1;
    }
    assert(all.take(i as int) == all);
    Ok(resolved)
}

fn single_output(
    port: &Option<PortSpec>,
    selected: &Result<String, String>,
    default_rate_hz: u32,
    default_format: OutputFormat,
) -> (r: Result<ResolvedSendOutputBinding, String>)
    ensures
        viewed(r) == (match viewed(*selected) {
            Err(e) => Err::<ResolvedSendModel, Seq<char>>(e),
            Ok(path) => resolved_send_output(
                main_output(port.deep_view(), path),
                default_rate_hz,
                default_format,
            ),
        }),
{
    let path = copy_lookup(selected)?;
    let spec: Option<PortSpec> = match port {
        Some(spec) => spec.duplicate().normalized(),
        None => None,
    };
    let main = match spec {
        Some(spec) => SendOutputBinding {
            id: "main".to_owned(),
            port: path,
            baud: spec.baud,
            rate_hz: None,
            format: None,
            display_mode: spec.display_mode,
            line_break_mode: spec.line_break_mode,
        },
        None => SendOutputBinding {
            id: "main".to_owned(),
            port: path,
            baud: None,
            rate_hz: None,
            format: None,
            display_mode: None,
            line_break_mode: None,
        },
    };
    resolve_send_output_binding(&main, default_rate_hz, default_format)
}

pub fn resolve_output_bindings(
    options: &SendCliOptions,
    selected: &Result<String, String>,
    default_rate_hz: u32,
    default_format: OutputFormat,
) -> (r: Result<Vec<ResolvedSendOutputBinding>, String>)
    ensures
        viewed(r) == resolved_send_outputs(
            options.deep_view(),
            viewed(*selected),
            default_rate_hz,
            default_format,
        ),
        r matches Ok(resolved) ==> resolved.len() == (if options.outputs.len() > 0 {
            options.outputs.len()
        } else {
            1
        }),
{
    assert(options.deep_view().outputs.len() == options.outputs.len());
    if options.outputs.len() > 0 {
        return named_outputs(&options.outputs, default_rate_hz, default_format);
    }
    let output = single_output(&options.port, selected, default_rate_hz, default_format)?;
    let ghost m = output.deep_view();
    let mut resolved: Vec<ResolvedSendOutputBinding> = Vec::new();
    resolved.push(output);
    assert(resolved.deep_view() =~= seq![m]);
    Ok(resolved)
}

// ---------------------------------------------------------------------------
// Outputs and the inputs on their ports
// ---------------------------------------------------------------------------

/// An output and the port that was found for it.
pub type SendItem = (ResolvedSendModel, Lookup);

/// The outputs so far, and the inputs.
pub type SendState = (SendOutputsModel, InputPlanModel);

pub open spec fn send_items(outputs: Seq<ResolvedSendModel>, found: Seq<Lookup>) -> Seq<SendItem> {
    Seq::new(outputs.len(), |i: int| (outputs[i], found[i]))
}

pub open spec fn send_wish(o: ResolvedSendModel, baud: u32) -> OutputWishModel<u32> {
    OutputWishModel {
        id: o.id,
        baud_rate: match o.baud {
            Some(own) => own,
            None => baud,
        },
        format: o.format,
        display_mode: o.display_mode,
        rate_hz: o.rate_hz,
    }
}

/// An input on the port of an output.
pub open spec fn echo_input(
    o: ResolvedSendModel,
    port: Seq<char>,
    baud_rate: u32,
    display: PortDisplayModel,
) -> InputSpecModel {
    InputSpecModel {
        id: port,
        port,
        baud_rate,
        display_mode: match (o.display_mode, display.input_override(port)) {
            (Some(mode), _) => mode,
            (None, Some(mode)) => mode,
            (None, None) => format_display_mode(o.format),
        },
        line_break_mode: match o.line_break_mode {
            Some(mode) => mode,
            None => display.line_break(port),
        },
    }
}

/// There is an input on the port at the baud rate.
pub open spec fn has_line(inputs: Seq<InputSpecModel>, port: Seq<char>, baud_rate: u32) -> bool {
    exists|i: int|
        0 <= i < inputs.len() && (#[trigger] inputs[i]).port == port && inputs[i].baud_rate
            == baud_rate
}

/// The plan with the input on the port of an output, and unless texts are sent by hand its format
/// to look for.
pub open spec fn echo_noted(
    plan: InputPlanModel,
    o: ResolvedSendModel,
    port: Seq<char>,
    baud_rate: u32,
    display: PortDisplayModel,
    interactive: bool,
) -> InputPlanModel {
    let asked = plan.shown_as_asked(
        port,
        o.display_mode is Some || display.input_override(port) is Some,
    );
    let looked = if interactive {
        asked
    } else {
        asked.looking_for(port, seq![o.format])
    };
    if has_line(looked.inputs, port, baud_rate) {
        looked
    } else {
        looked.with_input(echo_input(o, port, baud_rate, display))
    }
}

fn find_line(inputs: &Vec<SessionInputSpec>, port: &str, baud_rate: u32) -> (r: bool)
    ensures
        r == has_line(inputs.deep_view(), port@, baud_rate),
{
    let ghost all = inputs.deep_view();
    let mut i: usize = 0;
    while i < inputs.len()
        invariant
            i <= inputs.len(),
            all == inputs.deep_view(),
            forall|k: int|
                0 <= k < i ==> !((#[trigger] all[k]).port == port@ && all[k].baud_rate
                    == baud_rate),
        decreases inputs.len() - i,
    {
        assert(all[i as int] == inputs@[i as int].deep_view());
        if same(inputs[i].port.as_str(), port) && inputs[i].baud_rate == baud_rate {
            return true;
        }
        i += 1;
    }
    false
}

fn note_echo(
    plan: &mut InputPlan,
    output: &ResolvedSendOutputBinding,
    port: &str,
    baud_rate: u32,
    display: &PortDisplayConfig,
    interactive: bool,
)
    ensures
        final(plan).deep_view() == echo_noted(
            old(plan).deep_view(),
            output.deep_view(),
            port@,
            baud_rate,
            display.deep_view(),
            interactive,
        ),
{
    let set = display.resolve_input_override(port);
    plan.note_display(port, output.display_mode.is_some() || set.is_some());
    if !interactive {
        let mut formats: Vec<OutputFormat> = Vec::new();
        formats.push(output.format);
        assert(formats@ =~= seq![output.format]);
        plan.look_for(port, &formats);
    }
    if !find_line(&plan.inputs, port, baud_rate) {
        let display_mode = match output.display_mode {
            Some(mode) => mode,
            None => match set {
                Some(mode) => mode,
                None => output.format.default_display_mode(),
            },
        };
        let line_break_mode = match output.line_break_mode {
            Some(mode) => mode,
            None => display.resolve_line_break_input(port),
        };
        plan.add_input(
            SessionInputSpec {
                id: port.to_owned(),
                port: port.to_owned(),
                baud_rate,
                display_mode,
                line_break_mode,
            },
        );
    }
}

pub open spec fn send_step(baud: u32, display: PortDisplayModel, interactive: bool) -> spec_fn(
    SendState,
    SendItem,
) -> Result<SendState, Seq<char>> {
    |state: SendState, item: SendItem|
        match planned("send"@, state.0, send_wish(item.0, baud), item.1, display) {
            Err(e) => Err(e),
            Ok(output) => Ok(
                (
                    state.0.push(output),
                    echo_noted(
                        state.1,
                        item.0,
                        output.session.port,
                        output.session.baud_rate,
                        display,
                        interactive,
                    ),
                ),
            ),
        }
}

/// The outputs on their ports, with the inputs that read back from them.
pub open spec fn planned_send_outputs(
    outputs: Seq<ResolvedSendModel>,
    found: Seq<Lookup>,
    baud: u32,
    display: PortDisplayModel,
    interactive: bool,
) -> Result<SendState, Seq<char>> {
    applied(
        send_step(baud, display, interactive),
        (Seq::empty(), InputPlanModel::empty()),
        send_items(outputs, found),
    )
}

fn plan_outputs(
    outputs: &Vec<ResolvedSendOutputBinding>,
    found: &Vec<Result<String, String>>,
    default_baud: u32,
    display: &PortDisplayConfig,
    interactive: bool,
) -> (r: Result<(Vec<SendOutputSettings>, InputPlan), String>)
    requires
        found.len() == outputs.len(),
    ensures
        viewed(r) == planned_send_outputs(
            outputs.deep_view(),
            lookups(found@),
            default_baud,
            display.deep_view(),
            interactive,
        ),
{
    let ghost all = send_items(outputs.deep_view(), lookups(found@));
    let ghost step = send_step(default_baud, display.deep_view(), interactive);
    let ghost start: SendState = (Seq::empty(), InputPlanModel::empty());
    let mut settings: Vec<SendOutputSettings> = Vec::new();
    let mut plan = InputPlan::default();
    let mut i: usize = 0;
    assert(all.take(0) =~= Seq::<SendItem>::empty());
    assert(settings.deep_view() =~= Seq::<OutputSettingsModel<u32>>::empty());
    while i < outputs.len()
        invariant
            i <= outputs.len(),
            found.len() == outputs.len(),
            all == send_items(outputs.deep_view(), lookups(found@)),
            all.len() == outputs.len(),
            step == send_step(default_baud, display.deep_view(), interactive),
            start == (Seq::<OutputSettingsModel<u32>>::empty(), InputPlanModel::empty()),
            applied(step, start, all.take(i as int)) == Ok::<SendState, Seq<char>>(
                (settings.deep_view(), plan.deep_view()),
            ),
        decreases outputs.len() - i,
    {
        proof {
            assert(all.take(i + 1).drop_last() == all.take(i as int));
            assert(all.take(i + 1).last() == (
                outputs@[i as int].deep_view(),
                viewed(found@[i as int]),
            ));
        }
        let wish = OutputWish {
            id: outputs[i].id.clone(),
            baud_rate: match outputs[i].baud {
                Some(own) => own,
                None => default_baud,
            },
            format: outputs[i].format,
            display_mode: outputs[i].display_mode,
            rate_hz: outputs[i].rate_hz,
        };
        assert(wish.deep_view() == send_wish(outputs@[i as int].deep_view(), default_baud));
        match plan_output("send", &settings, wish, &found[i], display) {
            Ok(output) => {
                note_echo(
                    &mut plan,
                    &outputs[i],
                    output.session.port.as_str(),
                    output.session.baud_rate,
                    display,
                    interactive,
                );
                let ghost before = settings.deep_view();
                let ghost m = output.deep_view();
                settings.push(output);
                assert(settings.deep_view() =~= before.push(m));
            },
            Err(e) => {
                proof {
                    lemma_applied_error(step, start, all, i + 1, e@);
                }
                return Err(e);
            },
        }
        i += 1;
    }
    assert(all.take(i as int) == all);
    Ok((settings, plan))
}

/// What an output puts on its line.
pub open spec fn send_load(o: OutputSettingsModel<u32>) -> LoadModel {
    LoadModel {
        port: o.session.port,
        baud_rate: o.session.baud_rate,
        format: o.format,
        rate_label: decimal(o.rate_hz as nat) + "Hz"@,
        line_bps: (format_packet_len(o.format) * 10 * o.rate_hz) as u64,
    }
}

pub fn validate_output_port_loads(outputs: &Vec<SendOutputSettings>) -> (r: Result<(), String>)
    ensures
        viewed(r) == loads_checked(
            "send"@,
            outputs.deep_view().map_values(|o: OutputSettingsModel<u32>| send_load(o)),
        ),
{
    let ghost all = outputs.deep_view();
    let ghost f = |o: OutputSettingsModel<u32>| send_load(o);
    let mut loads: Vec<OutputLoad> = Vec::new();
    let mut i: usize = 0;
    assert(loads.deep_view() =~= all.take(0).map_values(f));
    while i < outputs.len()
        invariant
            i <= outputs.len(),
            all == outputs.deep_view(),
            f == (|o: OutputSettingsModel<u32>| send_load(o)),
            loads.deep_view() == all.take(i as int).map_values(f),
        decreases outputs.len() - i,
    {
        let ghost before = loads.deep_view();
        let output = &outputs[i];
        let digits = decimal_text(output.rate_hz as u64);
        let load = OutputLoad {
            port: output.session.port.clone(),
            baud_rate: output.session.baud_rate,
            format: output.format,
            rate_label: cat2(digits.as_str(), "Hz"),
            line_bps: estimated_output_line_bps(output.format, output.rate_hz),
        };
        assert(load.deep_view() == send_load(outputs@[i as int].deep_view()));
        loads.push(load);
        proof {
            assert(all[i as int] == outputs@[i as int].deep_view());
            assert(loads.deep_view() =~= before.push(send_load(all[i as int])));
            assert(all.take(i + 1).map_values(f) =~= all.take(i as int).map_values(f).push(
                send_load(all[i as int]),
            ));
        }
        i += 1;
    }
    assert(all.take(i as int) == all);
    check_port_loads("send", &loads)
}

/// An output as the command line names it.
pub open spec fn send_command_output(o: OutputSettingsModel<u32>) -> CommandOutputModel {
    CommandOutputModel {
        id: o.session.id,
        port: o.session.port,
        baud_rate: o.session.baud_rate,
        display_mode: o.session.display_mode,
        format: o.format,
        rate: decimal(o.rate_hz as nat),
    }
}

fn command_outputs(outputs: &Vec<SendOutputSettings>) -> (r: Vec<IoCommandOutput>)
    ensures
        r.deep_view() == outputs.deep_view().map_values(
            |o: OutputSettingsModel<u32>| send_command_output(o),
        ),
{
    let ghost all = outputs.deep_view();
    let ghost f = |o: OutputSettingsModel<u32>| send_command_output(o);
    let mut out: Vec<IoCommandOutput> = Vec::new();
    let mut i: usize = 0;
    assert(out.deep_view() =~= all.take(0).map_values(f));
    while i < outputs.len()
        invariant
            i <= outputs.len(),
            all == outputs.deep_view(),
            f == (|o: OutputSettingsModel<u32>| send_command_output(o)),
            out.deep_view() == all.take(i as int).map_values(f),
        decreases outputs.len() - i,
    {
        let ghost before = out.deep_view();
        let output = &outputs[i];
        out.push(
            IoCommandOutput {
                id: output.session.id.clone(),
                port: output.session.port.clone(),
                baud_rate: output.session.baud_rate,
                display_mode: output.session.display_mode,
                format: output.format,
                rate: decimal_text(output.rate_hz as u64),
            },
        );
        proof {
            assert(all[i as int] == outputs@[i as int].deep_view());
            assert(out.deep_view() =~= before.push(send_command_output(all[i as int])));
            assert(all.take(i + 1).map_values(f) =~= all.take(i as int).map_values(f).push(
                send_command_output(all[i as int]),
            ));
        }
        i += 1;
    }
    assert(all.take(i as int) == all);
    out
}

// ---------------------------------------------------------------------------
// Monitors
// ---------------------------------------------------------------------------

/// The line break mode of a monitor: the one asked for, else for packets the one that is set, and
/// wrapped text without packets.
pub open spec fn monitor_line_break_for(
    asked: Option<LineBreakMode>,
    has_formats: bool,
    set: LineBreakMode,
) -> LineBreakMode {
    match asked {
        Some(mode) => mode,
        None => if has_formats {
            set
        } else {
            LineBreakMode::Wrap
        },
    }
}

pub fn resolve_monitor_line_break_mode(
    explicit_mode: Option<LineBreakMode>,
    has_formats: bool,
    configured_mode: LineBreakMode,
) -> (mode: LineBreakMode)
    ensures
        mode == monitor_line_break_for(explicit_mode, has_formats, configured_mode),
{
    match explicit_mode {
        Some(mode) => mode,
        None => if has_formats {
            configured_mode
        } else {
            LineBreakMode::Wrap
        },
    }
}

pub open spec fn monitor_step(baud: u32, display: PortDisplayModel) -> spec_fn(
    InputState,
    InputItem,
) -> Result<InputState, Seq<char>> {
    |state: InputState, item: InputItem|
        match item.1 {
            Err(e) => Err(e),
            Ok(port) => Ok(
                input_taken(
                    state,
                    item.0,
                    port,
                    baud,
                    monitor_line_break_for(
                        item.0.line_break_mode,
                        item.0.formats.len() > 0,
                        display.line_break(port),
                    ),
                    display,
                ),
            ),
        }
}

/// The monitors on their ports, beside the inputs that are there.
pub open spec fn planned_monitors(
    plan: InputPlanModel,
    monitors: Seq<ResolvedInputModel>,
    found: Seq<Lookup>,
    baud: u32,
    display: PortDisplayModel,
) -> Result<InputState, Seq<char>> {
    applied(monitor_step(baud, display), (plan, Seq::empty()), input_items(monitors, found))
}

fn plan_monitors(
    plan: InputPlan,
    monitors: &Vec<ResolvedInputBinding>,
    found: &Vec<Result<String, String>>,
    default_baud: u32,
    display: &PortDisplayConfig,
) -> (r: Result<(InputPlan, Vec<IoCommandInput>), String>)
    requires
        found.len() == monitors.len(),
    ensures
        viewed(r) == planned_monitors(
            plan.deep_view(),
            monitors.deep_view(),
            lookups(found@),
            default_baud,
            display.deep_view(),
        ),
{
    let ghost all = input_items(monitors.deep_view(), lookups(found@));
    let ghost step = monitor_step(default_baud, display.deep_view());
    let ghost start: InputState = (plan.deep_view(), Seq::empty());
    let mut current = plan;
    let mut commands: Vec<IoCommandInput> = Vec::new();
    let mut i: usize = 0;
    assert(all.take(0) =~= Seq::<InputItem>::empty());
    assert(commands.deep_view() =~= Seq::<CommandInputModel>::empty());
    while i < monitors.len()
        invariant
            i <= monitors.len(),
            found.len() == monitors.len(),
            all == input_items(monitors.deep_view(), lookups(found@)),
            all.len() == monitors.len(),
            step == monitor_step(default_baud, display.deep_view()),
            start == (plan.deep_view(), Seq::<CommandInputModel>::empty()),
            applied(step, start, all.take(i as int)) == Ok::<InputState, Seq<char>>(
                (current.deep_view(), commands.deep_view()),
            ),
        decreases monitors.len() - i,
    {
        proof {
            assert(all.take(i + 1).drop_last() == all.take(i as int));
            assert(all.take(i + 1).last() == (
                monitors@[i as int].deep_view(),
                viewed(found@[i as int]),
            ));
        }
        match copy_lookup(&found[i]) {
            Ok(port) => {
                let line_break_mode = resolve_monitor_line_break_mode(
                    monitors[i].line_break_mode,
                    monitors[i].formats.len() > 0,
                    display.resolve_line_break_input(port.as_str()),
                );
                take_input(
                    &mut current,
                    &mut commands,
                    &monitors[i],
                    port.as_str(),
                    default_baud,
                    line_break_mode,
                    display,
                );
            },
            Err(e) => {
                proof {
                    lemma_applied_error(step, start, all, i + 1, e@);
                }
                return Err(e);
            },
        }
        i += 1;
    }
    assert(all.take(i as int) == all);
    Ok((current, commands))
}

// ---------------------------------------------------------------------------
// Settings
// ---------------------------------------------------------------------------

#[derive(Debug)]
pub struct SendSettings {
    pub inputs: Vec<SessionInputSpec>,
    pub outputs: Vec<SendOutputSettings>,
    pub observed_inputs: Vec<ObservedInputSpec>,
    pub log_dir: String,
    pub logging_enabled: bool,
    pub interactive: bool,
    pub s3b: bool,
    pub title: String,
    pub command_name: String,
    pub executed_command: Option<String>,
}

#[verifier::ext_equal]
pub struct SendSettingsModel {
    pub inputs: Seq<InputSpecModel>,
    pub outputs: SendOutputsModel,
    pub observed_inputs: Seq<ObservedSpecModel>,
    pub log_dir: Seq<char>,
    pub logging_enabled: bool,
    pub interactive: bool,
    pub s3b: bool,
    pub title: Seq<char>,
    pub command_name: Seq<char>,
    pub executed_command: Option<Seq<char>>,
}

impl DeepView for SendSettings {
    type V = SendSettingsModel;

    open spec fn deep_view(&self) -> SendSettingsModel {
        SendSettingsModel {
            inputs: self.inputs.deep_view(),
            outputs: self.outputs.deep_view(),
            observed_inputs: self.observed_inputs.deep_view(),
            log_dir: self.log_dir@,
            logging_enabled: self.logging_enabled,
            interactive: self.interactive,
            s3b: self.s3b,
            title: self.title@,
            command_name: self.command_name@,
            executed_command: self.executed_command.deep_view(),
        }
    }
}

/// How many outputs the options ask for: the named ones, or a single one, or none where a run may
/// only receive.
pub open spec fn send_output_count(o: SendOptionsModel) -> nat {
    if o.outputs.len() > 0 {
        o.outputs.len()
    } else if o.allow_receive_only && o.port is None {
        0
    } else {
        1
    }
}

pub open spec fn send_rate_of(o: SendOptionsModel) -> u32 {
    match o.rate_hz {
        Some(rate) => rate,
        None => DEFAULT_SEND_RATE_HZ,
    }
}

/// The outputs and the monitors with their formats.
pub open spec fn send_bindings(o: SendOptionsModel, selected: Lookup) -> Result<
    (Seq<ResolvedSendModel>, Seq<ResolvedInputModel>),
    Seq<char>,
> {
    if o.outputs.len() > 0 && o.port is Some {
        Err("cannot combine --port with --output-port; use one style or the other"@)
    } else if send_rate_of(o) == 0 {
        Err("--rate must be greater than 0"@)
    } else {
        match default_format_of(o.format) {
            Err(e) => Err(e),
            Ok(format) => match (if send_output_count(o) == 0 {
                Ok(Seq::empty())
            } else {
                resolved_send_outputs(o, selected, send_rate_of(o), format)
            }) {
                Err(e) => Err(e),
                Ok(outputs) => match resolved_inputs(o.monitor_ports) {
                    Err(e) => Err(e),
                    Ok(monitors) => if outputs.len() == 0 && monitors.len() == 0 {
                        Err("at least one input or output port is required"@)
                    } else {
                        Ok((outputs, monitors))
                    },
                },
            },
        }
    }
}

fn resolve_bindings(options: &SendCliOptions, selected: &Result<String, String>) -> (r: Result<
    (Vec<ResolvedSendOutputBinding>, Vec<ResolvedInputBinding>),
    String,
>)
    ensures
        viewed(r) == send_bindings(options.deep_view(), viewed(*selected)),
        r matches Ok((outputs, monitors)) ==> outputs.len() == send_output_count(
            options.deep_view(),
        ) && monitors.len() == options.monitor_ports.len(),
{
    assert(options.deep_view().outputs.len() == options.outputs.len());
    if options.outputs.len() > 0 && options.port.is_some() {
        return Err(
            "cannot combine --port with --output-port; use one style or the other".to_owned(),
        );
    }
    let rate: u32 = match options.rate_hz {
        Some(rate) => rate,
        None => DEFAULT_SEND_RATE_HZ,
    };
    if rate == 0 {
        return Err("--rate must be greater than 0".to_owned());
    }
    let format = default_format(&options.format)?;
    let outputs = if options.allow_receive_only && options.outputs.len() == 0
        && options.port.is_none() {
        let none: Vec<ResolvedSendOutputBinding> = Vec::new();
        assert(none.deep_view() =~= Seq::<ResolvedSendModel>::empty());
        none
    } else {
        resolve_output_bindings(options, selected, rate, format)?
    };
    let monitors = resolve_input_bindings(&options.monitor_ports)?;
    assert(outputs.deep_view().len() == outputs.len());
    assert(monitors.deep_view().len() == monitors.len());
    if outputs.len() == 0 && monitors.len() == 0 {
        return Err("at least one input or output port is required".to_owned());
    }
    Ok((outputs, monitors))
}

/// A text, or a default.
pub open spec fn text_or(text: Option<Seq<char>>, default: Seq<char>) -> Seq<char> {
    match text {
        Some(text) => text,
        None => default,
    }
}

fn given_or(text: &Option<String>, default: &str) -> (r: String)
    ensures
        r@ == text_or(text.deep_view(), default@),
{
    match text {
        Some(text) => text.clone(),
        None => default.to_owned(),
    }
}

/// The settings once inputs and outputs are planned.
pub open spec fn send_settled(
    o: SendOptionsModel,
    outputs: SendOutputsModel,
    inputs: InputState,
    current_dir: Option<Seq<char>>,
) -> SendSettingsModel {
    let command_name = text_or(o.command_name, "send"@);
    SendSettingsModel {
        inputs: inputs.0.inputs,
        outputs,
        observed_inputs: inputs.0.observed(false),
        log_dir: log_dir_of(o.log_dir, current_dir),
        logging_enabled: !o.no_log,
        interactive: o.interactive,
        s3b: o.s3b,
        title: text_or(o.title, "acs send"@),
        command_name,
        executed_command: if command_name == "io"@ {
            Some(
                io_command_text(
                    inputs.1,
                    outputs.map_values(|x: OutputSettingsModel<u32>| send_command_output(x)),
                    o.log_dir,
                    o.no_log,
                    o.s3b,
                ),
            )
        } else {
            None
        },
    }
}

/// The settings that options give with the ports that were found for them: the one selected for
/// a single output, those of the outputs, and those of the monitors.
pub open spec fn send_settings(
    o: SendOptionsModel,
    selected: Lookup,
    output_ports: Seq<Lookup>,
    monitor_ports: Seq<Lookup>,
    current_dir: Option<Seq<char>>,
) -> Result<SendSettingsModel, Seq<char>> {
    let baud = default_baud_of(o.baud);
    match send_bindings(o, selected) {
        Err(e) => Err(e),
        Ok((outs, monitors)) => match planned_send_outputs(
            outs,
            output_ports,
            baud,
            o.display,
            o.interactive,
        ) {
            Err(e) => Err(e),
            Ok((outputs, plan)) => match (if o.interactive {
                Ok(())
            } else {
                loads_checked(
                    "send"@,
                    outputs.map_values(|x: OutputSettingsModel<u32>| send_load(x)),
                )
            }) {
                Err(e) => Err(e),
                Ok(()) => match planned_monitors(plan, monitors, monitor_ports, baud, o.display) {
                    Err(e) => Err(e),
                    Ok(inputs) => Ok(send_settled(o, outputs, inputs, current_dir)),
                },
            },
        },
    }
}

pub fn build_settings(
    options: SendCliOptions,
    selected: &Result<String, String>,
    output_ports: &Vec<Result<String, String>>,
    monitor_ports: &Vec<Result<String, String>>,
    current_dir: Option<&str>,
) -> (r: Result<SendSettings, String>)
    requires
        output_ports.len() == send_output_count(options.deep_view()),
        monitor_ports.len() == options.monitor_ports.len(),
    ensures
        viewed(r) == send_settings(
            options.deep_view(),
            viewed(*selected),
            lookups(output_ports@),
            lookups(monitor_ports@),
            current_dir.deep_view(),
        ),
{
    let default_baud: u32 = match options.baud {
        Some(baud) => baud,
        None => default_baud_rate(),
    };
    let (resolved, monitors) = resolve_bindings(&options, selected)?;
    let (outputs, output_plan) = plan_outputs(
        &resolved,
        output_ports,
        default_baud,
        &options.display,
        options.interactive,
    )?;
    if !options.interactive {
        validate_output_port_loads(&outputs)?;
    }
    let (plan, commands) = plan_monitors(
        output_plan,
        &monitors,
        monitor_ports,
        default_baud,
        &options.display,
    )?;
    let observed_inputs = plan.observed_inputs(false);
    let command_name = given_or(&options.command_name, "send");
    let executed_command = if same(command_name.as_str(), "io") {
        let command_outputs = command_outputs(&outputs);
        let log_dir_text: Option<&str> = match &options.log_dir {
            Some(dir) => Some(dir.as_str()),
            None => None,
        };
        Some(
            build_io_executed_command(
                &commands,
                &command_outputs,
                log_dir_text,
                options.no_log,
                options.s3b,
            ),
        )
    } else {
        None
    };
    let log_dir = resolve_log_dir(&options.log_dir, current_dir);
    let title = given_or(&options.title, "acs send");
    Ok(
        SendSettings {
            inputs: plan.inputs,
            outputs,
            observed_inputs,
            log_dir,
            logging_enabled: !options.no_log,
            interactive: options.interactive,
            s3b: options.s3b,
            title,
            command_name,
            executed_command,
        },
    )
}

} // verus!

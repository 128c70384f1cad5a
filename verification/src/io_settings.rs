//! `io`: the settings of a run, from options and the ports that were found for them.
use crate::args::{
    applied, collected, default_baud_rate, lemma_applied_error, lemma_collected_error,
};
use crate::command_line::{
    display_mode_for, input_line_break_for, resolve_display_mode, resolve_input_line_break_mode,
};
use crate::display::{LineBreakMode, PortDisplayConfig, PortDisplayMode, PortDisplayModel};
use crate::format::{format_display_mode, parsed_format, OutputFormat};
use crate::io::{
    default_io_send_rate, default_rate, IoInputBinding, IoOptionsModel, IoOutputBinding,
    IoOutputModel, IoRuntimeOptions, IoSendRate, RateModel,
};
use crate::io_command::{
    build_io_executed_command, io_command_text, CommandInputModel, CommandOutputModel,
    IoCommandInput, IoCommandOutput,
};
use crate::output_plan::{
    plan_output, planned, OutputSettings, OutputSettingsModel, OutputWish, OutputWishModel,
};
use crate::outputs::{check_port_loads, loads_checked, LoadModel, OutputLoad};
use crate::paths::{default_log_dir, joined_path};
use crate::ports::{copy_lookup, lookups, Lookup};
use crate::session::{
    formats_named, resolve_formats, InputBinding, InputBindingModel, InputPlan, InputPlanModel,
    InputSpecModel, ObservedInputSpec, ObservedSpecModel, SessionInputSpec,
};
use crate::text::viewed;
use vstd::prelude::*;

verus! {

// ---------------------------------------------------------------------------
// Rates with their figures
// ---------------------------------------------------------------------------

/// What a rate comes to: how a binding writes it, how it is shown, the bits per second that its
/// packets take, and the nanoseconds from one packet to the next.
#[derive(Debug)]
pub struct RateFigures {
    pub value: String,
    pub label: String,
    pub line_bps: u64,
    pub period: u64,
}

#[verifier::ext_equal]
pub struct FiguresModel {
    pub value: Seq<char>,
    pub label: Seq<char>,
    pub line_bps: u64,
    pub period: u64,
}

impl DeepView for RateFigures {
    type V = FiguresModel;

    open spec fn deep_view(&self) -> FiguresModel {
        FiguresModel {
            value: self.value@,
            label: self.label@,
            line_bps: self.line_bps,
            period: self.period,
        }
    }
}

impl RateFigures {
    /// A copy of the figures.
    pub fn duplicate(&self) -> (copy: RateFigures)
        ensures
            copy.deep_view() == self.deep_view(),
    {
        RateFigures {
            value: self.value.clone(),
            label: self.label.clone(),
            line_bps: self.line_bps,
            period: self.period,
        }
    }
}

pub type IoOutputSettings = OutputSettings<RateFigures>;

pub type IoOutputsModel = Seq<OutputSettingsModel<FiguresModel>>;

// ---------------------------------------------------------------------------
// Resolved bindings
// ---------------------------------------------------------------------------

/// The format of outputs that name none.
pub open spec fn default_format_of(format: Option<Seq<char>>) -> Result<OutputFormat, Seq<char>> {
    parsed_format(
        match format {
            Some(name) => name,
            None => "packetacv6"@,
        },
    )
}

pub fn default_format(format: &Option<String>) -> (r: Result<OutputFormat, String>)
    ensures
        viewed(r) == default_format_of(format.deep_view()),
{
    match format {
        Some(name) => OutputFormat::parse(name.as_str()),
        None => OutputFormat::parse("packetacv6"),
    }
}

#[derive(Debug)]
pub struct ResolvedIoOutputBinding {
    pub id: String,
    pub port: String,
    pub baud: Option<u32>,
    pub rate_hz: IoSendRate,
    pub format: OutputFormat,
    pub display_mode: Option<PortDisplayMode>,
}

#[verifier::ext_equal]
pub struct ResolvedOutputModel {
    pub id: Seq<char>,
    pub port: Seq<char>,
    pub baud: Option<u32>,
    pub rate_hz: RateModel,
    pub format: OutputFormat,
    pub display_mode: Option<PortDisplayMode>,
}

impl DeepView for ResolvedIoOutputBinding {
    type V = ResolvedOutputModel;

    open spec fn deep_view(&self) -> ResolvedOutputModel {
        ResolvedOutputModel {
            id: self.id@,
            port: self.port@,
            baud: self.baud,
            rate_hz: self.rate_hz.deep_view(),
            format: self.format,
            display_mode: self.display_mode,
        }
    }
}

/// An output with its own rate and format, or the given ones.
pub open spec fn resolved_output(
    b: IoOutputModel,
    rate: RateModel,
    format: OutputFormat,
) -> Result<ResolvedOutputModel, Seq<char>> {
    match (match b.format {
        Some(name) => parsed_format(name),
        None => Ok(format),
    }) {
        Err(e) => Err(e),
        Ok(format) => Ok(
            ResolvedOutputModel {
                id: b.id,
                port: b.port,
                baud: b.baud,
                rate_hz: match b.rate_hz {
                    Some(own) => own,
                    None => rate,
                },
                format,
                display_mode: b.display_mode,
            },
        ),
    }
}

pub fn resolve_io_output_binding(
    binding: &IoOutputBinding,
    default_rate_hz: &IoSendRate,
    default_format: OutputFormat,
) -> (r: Result<ResolvedIoOutputBinding, String>)
    ensures
        viewed(r) == resolved_output(
            binding.deep_view(),
            default_rate_hz.deep_view(),
            default_format,
        ),
{
    let rate_hz = match &binding.rate_hz {
        Some(rate) => rate.duplicate(),
        None => default_rate_hz.duplicate(),
    };
    let format = match &binding.format {
        Some(name) => OutputFormat::parse(name.as_str())?,
        None => default_format,
    };
    Ok(
        ResolvedIoOutputBinding {
            id: binding.id.clone(),
            port: binding.port.clone(),
            baud: binding.baud,
            rate_hz,
            format,
            display_mode: binding.display_mode,
        },
    )
}

pub open spec fn output_reader(rate: RateModel, format: OutputFormat) -> spec_fn(
    IoOutputModel,
) -> Result<Option<ResolvedOutputModel>, Seq<char>> {
    |b: IoOutputModel|
        match resolved_output(b, rate, format) {
            Err(e) => Err(e),
            Ok(output) => Ok(Some(output)),
        }
}

/// The rate of outputs that name none.
pub open spec fn default_rate_of(o: IoOptionsModel) -> RateModel {
    match o.rate_hz {
        Some(rate) => rate,
        None => default_rate(),
    }
}

/// The outputs with their rates and formats.
pub open spec fn resolved_outputs(o: IoOptionsModel) -> Result<
    Seq<ResolvedOutputModel>,
    Seq<char>,
> {
    match default_format_of(o.format) {
        Err(e) => Err(e),
        Ok(format) => collected(output_reader(default_rate_of(o), format), o.outputs),
    }
}

pub fn resolve_output_bindings(options: &IoRuntimeOptions) -> (r: Result<
    Vec<ResolvedIoOutputBinding>,
    String,
>)
    ensures
        viewed(r) == resolved_outputs(options.deep_view()),
        r matches Ok(outputs) ==> outputs.len() == options.outputs.len(),
{
    let default_format = default_format(&options.format)?;
    let rate = match &options.rate_hz {
        Some(rate) => rate.duplicate(),
        None => default_io_send_rate(),
    };
    let ghost all = options.outputs.deep_view();
    let ghost read = output_reader(rate.deep_view(), default_format);
    let mut resolved: Vec<ResolvedIoOutputBinding> = Vec::new();
    let mut i: usize = 0;
    assert(all.take(0) =~= Seq::<IoOutputModel>::empty());
    assert(resolved.deep_view() =~= Seq::<ResolvedOutputModel>::empty());
    while i < options.outputs.len()
        invariant
            i <= options.outputs.len(),
            all == options.outputs.deep_view(),
            read == output_reader(rate.deep_view(), default_format),
            resolved_outputs(options.deep_view()) == collected(read, all),
            resolved.len() == i,
            collected(read, all.take(i as int)) == Ok::<Seq<ResolvedOutputModel>, Seq<char>>(
                resolved.deep_view(),
            ),
        decreases options.outputs.len() - i,
    {
        proof {
            assert(all.take(i + 1).drop_last() == all.take(i as int));
            assert(all.take(i + 1).last() == options.outputs@[i as int].deep_view());
        }
        match resolve_io_output_binding(&options.outputs[i], &rate, default_format) {
            Ok(output) => {
                let ghost before = resolved.deep_view();
                let ghost m = output.deep_view();
                resolved.push(output);
                assert(resolved.deep_view() =~= before.push(m));
            },
            Err(e) => {
                proof {
                    lemma_collected_error(read, all, i + 1, e@);
                }
                return Err(e);
            },
        }
        i += 1;
    }
    assert(all.take(i as int) == all);
    Ok(resolved)
}

/// An input with the formats that its names stand for.
#[derive(Debug)]
pub struct ResolvedInputBinding {
    pub port: String,
    pub baud: Option<u32>,
    pub formats: Vec<OutputFormat>,
    pub display_mode: Option<PortDisplayMode>,
    pub line_break_mode: Option<LineBreakMode>,
}

#[verifier::ext_equal]
pub struct ResolvedInputModel {
    pub port: Seq<char>,
    pub baud: Option<u32>,
    pub formats: Seq<OutputFormat>,
    pub display_mode: Option<PortDisplayMode>,
    pub line_break_mode: Option<LineBreakMode>,
}

impl DeepView for ResolvedInputBinding {
    type V = ResolvedInputModel;

    open spec fn deep_view(&self) -> ResolvedInputModel {
        ResolvedInputModel {
            port: self.port@,
            baud: self.baud,
            formats: self.formats@,
            display_mode: self.display_mode,
            line_break_mode: self.line_break_mode,
        }
    }
}

pub open spec fn resolved_input(b: InputBindingModel) -> Result<ResolvedInputModel, Seq<char>> {
    match formats_named(b.formats) {
        Err(e) => Err(e),
        Ok(formats) => Ok(
            ResolvedInputModel {
                port: b.port,
                baud: b.baud,
                formats,
                display_mode: b.display_mode,
                line_break_mode: b.line_break_mode,
            },
        ),
    }
}

pub fn resolve_io_input_binding(binding: &IoInputBinding) -> (r: Result<
    ResolvedInputBinding,
    String,
>)
    ensures
        viewed(r) == resolved_input(binding.deep_view()),
{
    let formats = resolve_formats(&binding.formats)?;
    Ok(
        ResolvedInputBinding {
            port: binding.port.clone(),
            baud: binding.baud,
            formats,
            display_mode: binding.display_mode,
            line_break_mode: binding.line_break_mode,
        },
    )
}

pub open spec fn input_reader() -> spec_fn(InputBindingModel) -> Result<
    Option<ResolvedInputModel>,
    Seq<char>,
> {
    |b: InputBindingModel|
        match resolved_input(b) {
            Err(e) => Err(e),
            Ok(input) => Ok(Some(input)),
        }
}

/// The inputs with their formats.
pub open spec fn resolved_inputs(inputs: Seq<InputBindingModel>) -> Result<
    Seq<ResolvedInputModel>,
    Seq<char>,
> {
    collected(input_reader(), inputs)
}

pub fn resolve_input_bindings(inputs: &Vec<InputBinding>) -> (r: Result<
    Vec<ResolvedInputBinding>,
    String,
>)
    ensures
        viewed(r) == resolved_inputs(inputs.deep_view()),
        r matches Ok(resolved) ==> resolved.len() == inputs.len(),
{
    let ghost all = inputs.deep_view();
    let mut resolved: Vec<ResolvedInputBinding> = Vec::new();
    let mut i: usize = 0;
    assert(all.take(0) =~= Seq::<InputBindingModel>::empty());
    assert(resolved.deep_view() =~= Seq::<ResolvedInputModel>::empty());
    while i < inputs.len()
        invariant
            i <= inputs.len(),
            all == inputs.deep_view(),
            resolved.len() == i,
            resolved_inputs(all.take(i as int)) == Ok::<Seq<ResolvedInputModel>, Seq<char>>(
                resolved.deep_view(),
            ),
        decreases inputs.len() - i,
    {
        proof {
            assert(all.take(i + 1).drop_last() == all.take(i as int));
            assert(all.take(i + 1).last() == inputs@[i as int].deep_view());
        }
        match resolve_io_input_binding(&inputs[i]) {
            Ok(input) => {
                let ghost before = resolved.deep_view();
                let ghost m = input.deep_view();
                resolved.push(input);
                assert(resolved.deep_view() =~= before.push(m));
            },
            Err(e) => {
                proof {
                    lemma_collected_error(input_reader(), all, i + 1, e@);
                }
                return Err(e);
            },
        }
        i += 1;
    }
    assert(all.take(i as int) == all);
    Ok(resolved)
}

// ---------------------------------------------------------------------------
// Outputs
// ---------------------------------------------------------------------------

/// An output, the port that was found for it, and the figures of its rate.
pub type OutputItem = (ResolvedOutputModel, Lookup, FiguresModel);

pub open spec fn output_items(
    outputs: Seq<ResolvedOutputModel>,
    found: Seq<Lookup>,
    figures: Seq<FiguresModel>,
) -> Seq<OutputItem> {
    Seq::new(outputs.len(), |i: int| (outputs[i], found[i], figures[i]))
}

pub open spec fn output_wish(o: ResolvedOutputModel, f: FiguresModel, baud: u32) -> OutputWishModel<
    FiguresModel,
> {
    OutputWishModel {
        id: o.id,
        baud_rate: match o.baud {
            Some(own) => own,
            None => baud,
        },
        format: o.format,
        display_mode: o.display_mode,
        rate_hz: f,
    }
}

pub open spec fn output_step(baud: u32, display: PortDisplayModel) -> spec_fn(
    IoOutputsModel,
    OutputItem,
) -> Result<IoOutputsModel, Seq<char>> {
    |outputs: IoOutputsModel, item: OutputItem|
        match planned("io"@, outputs, output_wish(item.0, item.2, baud), item.1, display) {
            Err(e) => Err(e),
            Ok(output) => Ok(outputs.push(output)),
        }
}

/// The outputs on their ports.
pub open spec fn planned_outputs(
    outputs: Seq<ResolvedOutputModel>,
    found: Seq<Lookup>,
    figures: Seq<FiguresModel>,
    baud: u32,
    display: PortDisplayModel,
) -> Result<IoOutputsModel, Seq<char>> {
    applied(output_step(baud, display), Seq::empty(), output_items(outputs, found, figures))
}

fn plan_outputs(
    outputs: &Vec<ResolvedIoOutputBinding>,
    found: &Vec<Result<String, String>>,
    figures: &Vec<RateFigures>,
    default_baud: u32,
    display: &PortDisplayConfig,
) -> (r: Result<Vec<IoOutputSettings>, String>)
    requires
        found.len() == outputs.len(),
        figures.len() == outputs.len(),
    ensures
        viewed(r) == planned_outputs(
            outputs.deep_view(),
            lookups(found@),
            figures.deep_view(),
            default_baud,
            display.deep_view(),
        ),
{
    let ghost all = output_items(outputs.deep_view(), lookups(found@), figures.deep_view());
    let ghost step = output_step(default_baud, display.deep_view());
    let mut settings: Vec<IoOutputSettings> = Vec::new();
    let mut i: usize = 0;
    assert(all.take(0) =~= Seq::<OutputItem>::empty());
    assert(settings.deep_view() =~= Seq::empty());
    while i < outputs.len()
        invariant
            i <= outputs.len(),
            found.len() == outputs.len(),
            figures.len() == outputs.len(),
            all == output_items(outputs.deep_view(), lookups(found@), figures.deep_view()),
            all.len() == outputs.len(),
            step == output_step(default_baud, display.deep_view()),
            applied(step, Seq::empty(), all.take(i as int)) == Ok::<IoOutputsModel, Seq<char>>(
                settings.deep_view(),
            ),
        decreases outputs.len() - i,
    {
        proof {
            assert(all.take(i + 1).drop_last() == all.take(i as int));
            assert(all.take(i + 1).last() == (
                outputs@[i as int].deep_view(),
                viewed(found@[i as int]),
                figures@[i as int].deep_view(),
            ));
        }
        let wish = OutputWish {
            id: outputs[i].id.clone(),
            baud_rate: match outputs[i].baud {
                Some(own) => own,
                None => default_baud,
            },
            format: outputs[i].format,
            display_mode: outputs[i].display_mode,
            rate_hz: figures[i].duplicate(),
        };
        assert(wish.deep_view() == output_wish(
            outputs@[i as int].deep_view(),
            figures@[i as int].deep_view(),
            default_baud,
        ));
        match plan_output("io", &settings, wish, &found[i], display) {
            Ok(output) => {
                let ghost before = settings.deep_view();
                let ghost m = output.deep_view();
                settings.push(output);
                assert(settings.deep_view() =~= before.push(m));
            },
            Err(e) => {
                proof {
                    lemma_applied_error(step, Seq::empty(), all, i + 1, e@);
                }
                return Err(e);
            },
        }
        i += 1;
    }
    assert(all.take(i as int) == all);
    Ok(settings)
}

/// What an output puts on its line.
pub open spec fn load_of(o: OutputSettingsModel<FiguresModel>) -> LoadModel {
    LoadModel {
        port: o.session.port,
        baud_rate: o.session.baud_rate,
        format: o.format,
        rate_label: o.rate_hz.label,
        line_bps: o.rate_hz.line_bps,
    }
}

pub fn validate_output_port_loads(outputs: &Vec<IoOutputSettings>) -> (r: Result<(), String>)
    ensures
        viewed(r) == loads_checked(
            "io"@,
            outputs.deep_view().map_values(|o: OutputSettingsModel<FiguresModel>| load_of(o)),
        ),
{
    let ghost all = outputs.deep_view();
    let ghost f = |o: OutputSettingsModel<FiguresModel>| load_of(o);
    let mut loads: Vec<OutputLoad> = Vec::new();
    let mut i: usize = 0;
    assert(loads.deep_view() =~= all.take(0).map_values(f));
    while i < outputs.len()
        invariant
            i <= outputs.len(),
            all == outputs.deep_view(),
            f == (|o: OutputSettingsModel<FiguresModel>| load_of(o)),
            loads.deep_view() == all.take(i as int).map_values(f),
        decreases outputs.len() - i,
    {
        let ghost before = loads.deep_view();
        let output = &outputs[i];
        loads.push(
            OutputLoad {
                port: output.session.port.clone(),
                baud_rate: output.session.baud_rate,
                format: output.format,
                rate_label: output.rate_hz.label.clone(),
                line_bps: output.rate_hz.line_bps,
            },
        );
        proof {
            assert(all[i as int] == outputs@[i as int].deep_view());
            assert(loads.deep_view() =~= before.push(load_of(all[i as int])));
            assert(all.take(i + 1).map_values(f) =~= all.take(i as int).map_values(f).push(
                load_of(all[i as int]),
            ));
        }
        i += 1;
    }
    assert(all.take(i as int) == all);
    check_port_loads("io", &loads)
}

/// An output as the command line names it.
pub open spec fn command_output(o: OutputSettingsModel<FiguresModel>) -> CommandOutputModel {
    CommandOutputModel {
        id: o.session.id,
        port: o.session.port,
        baud_rate: o.session.baud_rate,
        display_mode: o.session.display_mode,
        format: o.format,
        rate: o.rate_hz.value,
    }
}

fn command_outputs(outputs: &Vec<IoOutputSettings>) -> (r: Vec<IoCommandOutput>)
    ensures
        r.deep_view() == outputs.deep_view().map_values(
            |o: OutputSettingsModel<FiguresModel>| command_output(o),
        ),
{
    let ghost all = outputs.deep_view();
    let ghost f = |o: OutputSettingsModel<FiguresModel>| command_output(o);
    let mut out: Vec<IoCommandOutput> = Vec::new();
    let mut i: usize = 0;
    assert(out.deep_view() =~= all.take(0).map_values(f));
    while i < outputs.len()
        invariant
            i <= outputs.len(),
            all == outputs.deep_view(),
            f == (|o: OutputSettingsModel<FiguresModel>| command_output(o)),
            out.deep_view() == all.take(i as int).map_values(f),
        decreases outputs.len() - i,
    {
        let ghost before = out.deep_view();
        let output = &outputs[i];
        out.push(
            IoCommandOutput {
                id: output.session.id.clone(),
                port: output.session.port.clone(),
                baud_rate: output.session.baud_rate,
                display_mode: output.session.display_mode,
                format: output.format,
                rate: output.rate_hz.value.clone(),
            },
        );
        proof {
            assert(all[i as int] == outputs@[i as int].deep_view());
            assert(out.deep_view() =~= before.push(command_output(all[i as int])));
            assert(all.take(i + 1).map_values(f) =~= all.take(i as int).map_values(f).push(
                command_output(all[i as int]),
            ));
        }
        i += 1;
    }
    assert(all.take(i as int) == all);
    out
}

// ---------------------------------------------------------------------------
// Inputs
// ---------------------------------------------------------------------------

/// The display mode of an input on a port.
pub open spec fn input_mode(
    b: ResolvedInputModel,
    port: Seq<char>,
    display: PortDisplayModel,
) -> PortDisplayMode {
    display_mode_for(
        b.display_mode,
        display.input_override(port),
        if b.formats.len() > 0 {
            Some(format_display_mode(b.formats[0]))
        } else {
            None
        },
    )
}

pub fn resolve_input_mode(
    binding: &ResolvedInputBinding,
    port: &str,
    display: &PortDisplayConfig,
) -> (mode: PortDisplayMode)
    ensures
        mode == input_mode(binding.deep_view(), port@, display.deep_view()),
{
    let built_in: Option<PortDisplayMode> = if binding.formats.len() > 0 {
        Some(binding.formats[0].default_display_mode())
    } else {
        None
    };
    resolve_display_mode(binding.display_mode, display.resolve_input_override(port), built_in)
}

/// The plan with what an input looks for on its port.
pub open spec fn noted(
    plan: InputPlanModel,
    b: ResolvedInputModel,
    port: Seq<char>,
    display: PortDisplayModel,
) -> InputPlanModel {
    if b.formats.len() > 0 {
        plan.shown_as_asked(
            port,
            b.display_mode is Some || display.input_override(port) is Some,
        ).looking_for(port, b.formats)
    } else {
        plan
    }
}

pub fn note_formats(
    plan: &mut InputPlan,
    binding: &ResolvedInputBinding,
    port: &str,
    display: &PortDisplayConfig,
)
    ensures
        final(plan).deep_view() == noted(
            old(plan).deep_view(),
            binding.deep_view(),
            port@,
            display.deep_view(),
        ),
{
    if binding.formats.len() > 0 {
        let asked = binding.display_mode.is_some() || display.resolve_input_override(
            port,
        ).is_some();
        plan.note_display(port, asked);
        plan.look_for(port, &binding.formats);
    }
}

/// An input on the port that was found for it, as a session and as a command line name it.
pub open spec fn input_spec(
    b: ResolvedInputModel,
    port: Seq<char>,
    baud: u32,
    line_break: LineBreakMode,
    display: PortDisplayModel,
) -> InputSpecModel {
    InputSpecModel {
        id: port,
        port,
        baud_rate: match b.baud {
            Some(own) => own,
            None => baud,
        },
        display_mode: input_mode(b, port, display),
        line_break_mode: line_break,
    }
}

pub open spec fn command_input(spec: InputSpecModel, formats: Seq<OutputFormat>) -> CommandInputModel {
    CommandInputModel {
        port: spec.port,
        baud_rate: spec.baud_rate,
        display_mode: spec.display_mode,
        line_break_mode: spec.line_break_mode,
        formats,
    }
}

/// Copies formats.
pub fn copy_formats(formats: &Vec<OutputFormat>) -> (copy: Vec<OutputFormat>)
    ensures
        copy@ == formats@,
{
    let mut copy: Vec<OutputFormat> = Vec::new();
    let mut i: usize = 0;
    while i < formats.len()
        invariant
            i <= formats.len(),
            copy@ == formats@.take(i as int),
        decreases formats.len() - i,
    {
        copy.push(formats[i]);
        assert(formats@.take(i + 1) =~= formats@.take(i as int).push(formats@[i as int]));
        i += 1;
    }
    assert(formats@.take(i as int) == formats@);
    copy
}

/// Puts an input into the plan and on the command line.
pub fn take_input(
    plan: &mut InputPlan,
    commands: &mut Vec<IoCommandInput>,
    binding: &ResolvedInputBinding,
    port: &str,
    default_baud: u32,
    line_break_mode: LineBreakMode,
    display: &PortDisplayConfig,
)
    ensures
        final(plan).deep_view() == noted(
            old(plan).deep_view().with_port(
                input_spec(
                    binding.deep_view(),
                    port@,
                    default_baud,
                    line_break_mode,
                    display.deep_view(),
                ),
            ),
            binding.deep_view(),
            port@,
            display.deep_view(),
        ),
        final(commands).deep_view() == old(commands).deep_view().push(
            command_input(
                input_spec(
                    binding.deep_view(),
                    port@,
                    default_baud,
                    line_break_mode,
                    display.deep_view(),
                ),
                binding.formats@,
            ),
        ),
{
    let baud_rate: u32 = match binding.baud {
        Some(own) => own,
        None => default_baud,
    };
    let display_mode = resolve_input_mode(binding, port, display);
    let ghost before = commands.deep_view();
    let command = IoCommandInput {
        port: port.to_owned(),
        baud_rate,
        display_mode,
        line_break_mode,
        formats: copy_formats(&binding.formats),
    };
    let ghost m = command.deep_view();
    commands.push(command);
    assert(commands.deep_view() =~= before.push(m));
    plan.add_port(
        SessionInputSpec {
            id: port.to_owned(),
            port: port.to_owned(),
            baud_rate,
            display_mode,
            line_break_mode,
        },
    );
    note_formats(plan, binding, port, display);
}

/// An input and the port that was found for it.
pub type InputItem = (ResolvedInputModel, Lookup);

/// The inputs of the session and of the command line.
pub type InputState = (InputPlanModel, Seq<CommandInputModel>);

pub open spec fn input_items(inputs: Seq<ResolvedInputModel>, found: Seq<Lookup>) -> Seq<
    InputItem,
> {
    Seq::new(inputs.len(), |i: int| (inputs[i], found[i]))
}

/// The line break mode of an input on a port.
pub open spec fn io_line_break(
    b: ResolvedInputModel,
    port: Seq<char>,
    display: PortDisplayModel,
) -> LineBreakMode {
    input_line_break_for(
        b.line_break_mode,
        b.formats.len() > 0,
        display.line_break_override(port),
    )
}

pub open spec fn input_taken(
    state: InputState,
    b: ResolvedInputModel,
    port: Seq<char>,
    baud: u32,
    line_break: LineBreakMode,
    display: PortDisplayModel,
) -> InputState {
    let spec = input_spec(b, port, baud, line_break, display);
    (
        noted(state.0.with_port(spec), b, port, display),
        state.1.push(command_input(spec, b.formats)),
    )
}

pub open spec fn input_step(baud: u32, display: PortDisplayModel) -> spec_fn(
    InputState,
    InputItem,
) -> Result<InputState, Seq<char>> {
    |state: InputState, item: InputItem|
        match item.1 {
            Err(e) => Err(e),
            Ok(port) => Ok(
                input_taken(
                    state,
                    item.0,
                    port,
                    baud,
                    io_line_break(item.0, port, display),
                    display,
                ),
            ),
        }
}

/// The inputs on their ports.
pub open spec fn planned_inputs(
    inputs: Seq<ResolvedInputModel>,
    found: Seq<Lookup>,
    baud: u32,
    display: PortDisplayModel,
) -> Result<InputState, Seq<char>> {
    applied(
        input_step(baud, display),
        (InputPlanModel::empty(), Seq::empty()),
        input_items(inputs, found),
    )
}

fn plan_inputs(
    inputs: &Vec<ResolvedInputBinding>,
    found: &Vec<Result<String, String>>,
    default_baud: u32,
    display: &PortDisplayConfig,
) -> (r: Result<(InputPlan, Vec<IoCommandInput>), String>)
    requires
        found.len() == inputs.len(),
    ensures
        viewed(r) == planned_inputs(
            inputs.deep_view(),
            lookups(found@),
            default_baud,
            display.deep_view(),
        ),
{
    let ghost all = input_items(inputs.deep_view(), lookups(found@));
    let ghost step = input_step(default_baud, display.deep_view());
    let ghost start: InputState = (InputPlanModel::empty(), Seq::empty());
    let mut plan = InputPlan::default();
    let mut commands: Vec<IoCommandInput> = Vec::new();
    let mut i: usize = 0;
    assert(all.take(0) =~= Seq::<InputItem>::empty());
    assert(commands.deep_view() =~= Seq::<CommandInputModel>::empty());
    while i < inputs.len()
        invariant
            i <= inputs.len(),
            found.len() == inputs.len(),
            all == input_items(inputs.deep_view(), lookups(found@)),
            all.len() == inputs.len(),
            step == input_step(default_baud, display.deep_view()),
            start == (InputPlanModel::empty(), Seq::<CommandInputModel>::empty()),
            applied(step, start, all.take(i as int)) == Ok::<InputState, Seq<char>>(
                (plan.deep_view(), commands.deep_view()),
            ),
        decreases inputs.len() - i,
    {
        proof {
            assert(all.take(i + 1).drop_last() == all.take(i as int));
            assert(all.take(i + 1).last() == (
                inputs@[i as int].deep_view(),
                viewed(found@[i as int]),
            ));
        }
        match copy_lookup(&found[i]) {
            Ok(port) => {
                let line_break_mode = resolve_input_line_break_mode(
                    inputs[i].line_break_mode,
                    inputs[i].formats.len() > 0,
                    display.resolve_line_break_input_override(port.as_str()),
                );
                take_input(
                    &mut plan,
                    &mut commands,
                    &inputs[i],
                    port.as_str(),
                    default_baud,
                    line_break_mode,
                    display,
                );
            },
            Err(e) => {
                proof {
                    lemma_applied_error(step, start, all, i + 1, e@);
                }
                return Err(e);
            },
        }
        i += 1;
    }
    assert(all.take(i as int) == all);
    Ok((plan, commands))
}

// ---------------------------------------------------------------------------
// Settings
// ---------------------------------------------------------------------------

#[derive(Debug)]
pub struct IoRuntimeSettings {
    pub inputs: Vec<SessionInputSpec>,
    pub outputs: Vec<IoOutputSettings>,
    pub observed_inputs: Vec<ObservedInputSpec>,
    pub log_dir: String,
    pub logging_enabled: bool,
    pub s3b: bool,
    pub executed_command: String,
}

#[verifier::ext_equal]
pub struct IoSettingsModel {
    pub inputs: Seq<InputSpecModel>,
    pub outputs: IoOutputsModel,
    pub observed_inputs: Seq<ObservedSpecModel>,
    pub log_dir: Seq<char>,
    pub logging_enabled: bool,
    pub s3b: bool,
    pub executed_command: Seq<char>,
}

impl DeepView for IoRuntimeSettings {
    type V = IoSettingsModel;

    open spec fn deep_view(&self) -> IoSettingsModel {
        IoSettingsModel {
            inputs: self.inputs.deep_view(),
            outputs: self.outputs.deep_view(),
            observed_inputs: self.observed_inputs.deep_view(),
            log_dir: self.log_dir@,
            logging_enabled: self.logging_enabled,
            s3b: self.s3b,
            executed_command: self.executed_command@,
        }
    }
}

/// The directory for logs: the given one, or `logs` in the current directory.
pub open spec fn log_dir_of(given: Option<Seq<char>>, current: Option<Seq<char>>) -> Seq<char> {
    match given {
        Some(dir) => dir,
        None => joined_path(
            match current {
                Some(dir) => dir,
                None => "."@,
            },
            "logs"@,
        ),
    }
}

pub fn resolve_log_dir(given: &Option<String>, current_dir: Option<&str>) -> (r: String)
    ensures
        r@ == log_dir_of(given.deep_view(), current_dir.deep_view()),
{
    match given {
        Some(dir) => dir.clone(),
        None => default_log_dir(current_dir),
    }
}

pub open spec fn default_baud_of(baud: Option<u32>) -> u32 {
    match baud {
        Some(baud) => baud,
        None => 115_200,
    }
}

/// The settings once inputs and outputs are planned.
pub open spec fn io_settled(
    o: IoOptionsModel,
    outputs: IoOutputsModel,
    inputs: InputState,
    current_dir: Option<Seq<char>>,
) -> IoSettingsModel {
    IoSettingsModel {
        inputs: inputs.0.inputs,
        outputs,
        observed_inputs: inputs.0.observed(true),
        log_dir: log_dir_of(o.log_dir, current_dir),
        logging_enabled: !o.no_log,
        s3b: o.s3b,
        executed_command: io_command_text(
            inputs.1,
            outputs.map_values(|x: OutputSettingsModel<FiguresModel>| command_output(x)),
            o.log_dir,
            o.no_log,
            o.s3b,
        ),
    }
}

/// The settings that options give with the ports that were found for their outputs and inputs,
/// and the figures of the rates of their outputs.
pub open spec fn io_settings(
    o: IoOptionsModel,
    output_ports: Seq<Lookup>,
    figures: Seq<FiguresModel>,
    input_ports: Seq<Lookup>,
    current_dir: Option<Seq<char>>,
) -> Result<IoSettingsModel, Seq<char>> {
    let baud = default_baud_of(o.baud);
    match (resolved_outputs(o), resolved_inputs(o.inputs)) {
        (Err(e), _) => Err(e),
        (Ok(_), Err(e)) => Err(e),
        (Ok(outs), Ok(ins)) => if outs.len() == 0 && ins.len() == 0 {
            Err("at least one input or output port is required"@)
        } else {
            match planned_outputs(outs, output_ports, figures, baud, o.display) {
                Err(e) => Err(e),
                Ok(outputs) => match loads_checked(
                    "io"@,
                    outputs.map_values(|x: OutputSettingsModel<FiguresModel>| load_of(x)),
                ) {
                    Err(e) => Err(e),
                    Ok(()) => match planned_inputs(ins, input_ports, baud, o.display) {
                        Err(e) => Err(e),
                        Ok(inputs) => Ok(io_settled(o, outputs, inputs, current_dir)),
                    },
                },
            }
        },
    }
}

pub fn build_settings(
    options: IoRuntimeOptions,
    output_ports: &Vec<Result<String, String>>,
    figures: &Vec<RateFigures>,
    input_ports: &Vec<Result<String, String>>,
    current_dir: Option<&str>,
) -> (r: Result<IoRuntimeSettings, String>)
    requires
        output_ports.len() == options.outputs.len(),
        figures.len() == options.outputs.len(),
        input_ports.len() == options.inputs.len(),
    ensures
        viewed(r) == io_settings(
            options.deep_view(),
            lookups(output_ports@),
            figures.deep_view(),
            lookups(input_ports@),
            current_dir.deep_view(),
        ),
{
    let default_baud: u32 = match options.baud {
        Some(baud) => baud,
        None => default_baud_rate(),
    };
    let resolved_outputs = resolve_output_bindings(&options)?;
    let resolved_inputs = resolve_input_bindings(&options.inputs)?;
    assert(resolved_outputs.deep_view().len() == resolved_outputs.len());
    assert(resolved_inputs.deep_view().len() == resolved_inputs.len());
    if resolved_outputs.len() == 0 && resolved_inputs.len() == 0 {
        return Err("at least one input or output port is required".to_owned());
    }
    let outputs = plan_outputs(
        &resolved_outputs,
        output_ports,
        figures,
        default_baud,
        &options.display,
    )?;
    validate_output_port_loads(&outputs)?;
    let (plan, commands) = plan_inputs(
        &resolved_inputs,
        input_ports,
        default_baud,
        &options.display,
    )?;
    let observed_inputs = plan.observed_inputs(true);
    let command_outputs = command_outputs(&outputs);
    let log_dir_text: Option<&str> = match &options.log_dir {
        Some(dir) => Some(dir.as_str()),
        None => None,
    };
    let executed_command = build_io_executed_command(
        &commands,
        &command_outputs,
        log_dir_text,
        options.no_log,
        options.s3b,
    );
    let log_dir = resolve_log_dir(&options.log_dir, current_dir);
    Ok(
        IoRuntimeSettings {
            inputs: plan.inputs,
            outputs,
            observed_inputs,
            log_dir,
            logging_enabled: !options.no_log,
            s3b: options.s3b,
            executed_command,
        },
    )
}

} // verus!

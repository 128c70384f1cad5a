//! `route`: frames go from inputs to outputs through pipelines.
use crate::args::{
    applied, apply_settings, argument_step, arguments_taken, configured, left_by_config,
    lemma_applied_error, mapped, next_value, parse_port_spec, parse_u32_arg, port_spec,
    setting_step, stepped, stepped_to, take_arguments, u32_arg, with_value, CommandOptions,
    Configurable, KeyValue, KeyValueArg, PortSpecModel,
};
use crate::command_line::has_text;
use crate::display::{
    display_assignment, parse_display_assignment, DisplayTarget, DisplayValue, LineBreakMode,
    PortDisplayConfig, PortDisplayMode, PortDisplayModel,
};
use crate::ports::{copy_lookup, lookups, Lookup};
use crate::session::{InputSpecModel, OutputSpecModel, SessionInputSpec, SessionOutputSpec};
use crate::text::{
    begins, begins_with, cat2, cut_at_first, same, split_once, texts, to_upper, upper, viewed,
};
use vstd::prelude::*;
use vstd::string::*;

verus! {

// ---------------------------------------------------------------------------
// Bindings
// ---------------------------------------------------------------------------

/// A port as an option names it.
#[derive(Debug)]
pub struct RoutePortBinding {
    pub id: String,
    pub port: String,
    pub baud: Option<u32>,
    pub display_mode: Option<PortDisplayMode>,
    pub line_break_mode: Option<LineBreakMode>,
}

#[verifier::ext_equal]
pub struct RoutePortModel {
    pub id: Seq<char>,
    pub port: Seq<char>,
    pub baud: Option<u32>,
    pub display_mode: Option<PortDisplayMode>,
    pub line_break_mode: Option<LineBreakMode>,
}

impl DeepView for RoutePortBinding {
    type V = RoutePortModel;

    open spec fn deep_view(&self) -> RoutePortModel {
        RoutePortModel {
            id: self.id@,
            port: self.port@,
            baud: self.baud,
            display_mode: self.display_mode,
            line_break_mode: self.line_break_mode,
        }
    }
}

pub open spec fn route_port_with(id: Option<Seq<char>>, spec: PortSpecModel) -> RoutePortModel {
    RoutePortModel {
        id: match id {
            Some(id) => id,
            None => spec.port,
        },
        port: spec.port,
        baud: spec.baud,
        display_mode: spec.display_mode,
        line_break_mode: spec.line_break_mode,
    }
}

/// `[ID=]PORT[@BAUD][,DISPLAY]`; without an id of its own a port goes by its name.
pub open spec fn route_port(value: Seq<char>) -> Result<RoutePortModel, Seq<char>> {
    match cut_at_first(value, '=') {
        Some((id, port)) => if id.len() == 0 || port.len() == 0 {
            Err("invalid route port binding: "@ + value)
        } else {
            mapped(
                port_spec("route port binding"@, port),
                |spec: PortSpecModel| route_port_with(Some(id), spec),
            )
        },
        None => if value.len() == 0 {
            Err("route port binding must not be empty"@)
        } else {
            mapped(
                port_spec("route port binding"@, value),
                |spec: PortSpecModel| route_port_with(None, spec),
            )
        },
    }
}

pub fn parse_route_port_binding(value: &str) -> (r: Result<RoutePortBinding, String>)
    ensures
        viewed(r) == route_port(value@),
{
    if let Some((id, port)) = split_once(value, '=') {
        if id.is_empty() || port.is_empty() {
            return Err(cat2("invalid route port binding: ", value));
        }
        let spec = parse_port_spec("route port binding", port)?;
        return Ok(
            RoutePortBinding {
                id: id.to_owned(),
                port: spec.port,
                baud: spec.baud,
                display_mode: spec.display_mode,
                line_break_mode: spec.line_break_mode,
            },
        );
    }
    if value.is_empty() {
        return Err("route port binding must not be empty".to_owned());
    }
    let spec = parse_port_spec("route port binding", value)?;
    Ok(
        RoutePortBinding {
            id: spec.port.clone(),
            port: spec.port,
            baud: spec.baud,
            display_mode: spec.display_mode,
            line_break_mode: spec.line_break_mode,
        },
    )
}

// ---------------------------------------------------------------------------
// Options
// ---------------------------------------------------------------------------

#[derive(Debug)]
pub struct RouteCliOptions {
    pub inputs: Vec<RoutePortBinding>,
    pub outputs: Vec<RoutePortBinding>,
    pub template: Option<String>,
    pub list_templates: bool,
    pub baud: Option<u32>,
    pub display: PortDisplayConfig,
    pub log_dir: Option<String>,
    pub no_log: bool,
    pub s3b: bool,
}

#[verifier::ext_equal]
pub struct RouteOptionsModel {
    pub inputs: Seq<RoutePortModel>,
    pub outputs: Seq<RoutePortModel>,
    pub template: Option<Seq<char>>,
    pub list_templates: bool,
    pub baud: Option<u32>,
    pub display: PortDisplayModel,
    pub log_dir: Option<Seq<char>>,
    pub no_log: bool,
    pub s3b: bool,
}

impl DeepView for RouteCliOptions {
    type V = RouteOptionsModel;

    open spec fn deep_view(&self) -> RouteOptionsModel {
        RouteOptionsModel {
            inputs: self.inputs.deep_view(),
            outputs: self.outputs.deep_view(),
            template: self.template.deep_view(),
            list_templates: self.list_templates,
            baud: self.baud,
            display: self.display.deep_view(),
            log_dir: self.log_dir.deep_view(),
            no_log: self.no_log,
            s3b: self.s3b,
        }
    }
}

impl RouteOptionsModel {
    /// Nothing asked for.
    pub open spec fn empty() -> RouteOptionsModel {
        RouteOptionsModel {
            inputs: seq![],
            outputs: seq![],
            template: None,
            list_templates: false,
            baud: None,
            display: PortDisplayModel::empty(),
            log_dir: None,
            no_log: false,
            s3b: false,
        }
    }
}

impl Default for RouteCliOptions {
    fn default() -> (options: RouteCliOptions)
        ensures
            options.deep_view() == RouteOptionsModel::empty(),
    {
        let options = RouteCliOptions {
            inputs: Vec::new(),
            outputs: Vec::new(),
            template: None,
            list_templates: false,
            baud: None,
            display: PortDisplayConfig::default(),
            log_dir: None,
            no_log: false,
            s3b: false,
        };
        assert(options.deep_view() =~= RouteOptionsModel::empty());
        options
    }
}

/// The options with one assignment of `--config` applied.
pub open spec fn route_setting(o: RouteOptionsModel, kv: KeyValue) -> Result<
    RouteOptionsModel,
    Seq<char>,
> {
    let key = upper(kv.0);
    if key == "TEMPLATE"@ {
        Ok(RouteOptionsModel { template: Some(kv.1), ..o })
    } else if key == "DISPLAY"@ {
        mapped(
            display_assignment(kv.1),
            |a: (DisplayTarget, DisplayValue)|
                RouteOptionsModel { display: o.display.assigned(a), ..o },
        )
    } else if key == "LOG_DIR"@ {
        Ok(RouteOptionsModel { log_dir: Some(kv.1), ..o })
    } else {
        Err("unknown route config key: "@ + key)
    }
}

fn apply_route_setting(options: &mut RouteCliOptions, kv: &KeyValueArg) -> (r: Result<(), String>)
    ensures
        stepped(r, *final(options)) == route_setting(old(options).deep_view(), kv.deep_view()),
        r is Err ==> final(options).deep_view() == old(options).deep_view(),
{
    let key_text = to_upper(kv.key.as_str());
    let key = key_text.as_str();
    let value = kv.value.as_str();
    if same(key, "TEMPLATE") {
        options.template = Some(value.to_owned());
    } else if same(key, "DISPLAY") {
        let assignment = parse_display_assignment(value)?;
        assignment.apply_to(&mut options.display);
    } else if same(key, "LOG_DIR") {
        options.log_dir = Some(value.to_owned());
    } else {
        return Err(cat2("unknown route config key: ", key));
    }
    Ok(())
}

impl Configurable for RouteCliOptions {
    open spec fn setting(m: RouteOptionsModel, kv: KeyValue) -> Result<
        RouteOptionsModel,
        Seq<char>,
    > {
        route_setting(m, kv)
    }

    fn apply_setting(&mut self, kv: &KeyValueArg) -> (r: Result<(), String>) {
        apply_route_setting(self, kv)
    }
}

pub fn apply_route_config_args(options: &mut RouteCliOptions, value: &str) -> (r: Result<
    (),
    String,
>)
    ensures
        stepped(r, *final(options)) == configured(
            setting_step::<RouteCliOptions>(),
            old(options).deep_view(),
            value@,
        ),
        final(options).deep_view() == left_by_config(
            setting_step::<RouteCliOptions>(),
            old(options).deep_view(),
            value@,
        ),
{
    apply_settings(options, value)
}

/// The options after the argument at `i` and the value that it takes, and the next position. An
/// argument that is no option names the template, once.
pub open spec fn route_arg(o: RouteOptionsModel, args: Seq<Seq<char>>, i: int) -> Result<
    (RouteOptionsModel, int),
    Seq<char>,
> {
    let arg = args[i];
    if arg == "--config"@ {
        with_value(
            args,
            i,
            "--config"@,
            |v: Seq<char>| configured(setting_step::<RouteCliOptions>(), o, v),
        )
    } else if arg == "--template"@ {
        with_value(
            args,
            i,
            "--template"@,
            |v: Seq<char>|
                Ok::<RouteOptionsModel, Seq<char>>(RouteOptionsModel { template: Some(v), ..o }),
        )
    } else if arg == "--list-templates"@ {
        Ok((RouteOptionsModel { list_templates: true, ..o }, i + 1))
    } else if arg == "--input-port"@ || arg == "-i"@ {
        with_value(
            args,
            i,
            "--input-port"@,
            |v: Seq<char>|
                mapped(
                    route_port(v),
                    |p: RoutePortModel| RouteOptionsModel { inputs: o.inputs.push(p), ..o },
                ),
        )
    } else if arg == "--output-port"@ || arg == "-o"@ {
        with_value(
            args,
            i,
            "--output-port"@,
            |v: Seq<char>|
                mapped(
                    route_port(v),
                    |p: RoutePortModel| RouteOptionsModel { outputs: o.outputs.push(p), ..o },
                ),
        )
    } else if arg == "--baud"@ || arg == "-b"@ {
        with_value(
            args,
            i,
            "--baud"@,
            |v: Seq<char>|
                mapped(u32_arg("--baud"@, v), |n: u32| RouteOptionsModel { baud: Some(n), ..o }),
        )
    } else if arg == "--display"@ {
        with_value(
            args,
            i,
            "--display"@,
            |v: Seq<char>|
                mapped(
                    display_assignment(v),
                    |a: (DisplayTarget, DisplayValue)|
                        RouteOptionsModel { display: o.display.assigned(a), ..o },
                ),
        )
    } else if arg == "--log-dir"@ {
        with_value(
            args,
            i,
            "--log-dir"@,
            |v: Seq<char>|
                Ok::<RouteOptionsModel, Seq<char>>(RouteOptionsModel { log_dir: Some(v), ..o }),
        )
    } else if arg == "--no-log"@ {
        Ok((RouteOptionsModel { no_log: true, ..o }, i + 1))
    } else if arg == "--s3b"@ {
        Ok((RouteOptionsModel { s3b: true, ..o }, i + 1))
    } else if begins(arg, '-') {
        Err("unknown option for route: "@ + arg)
    } else if o.template is Some {
        Err("unexpected positional argument for route: "@ + arg)
    } else {
        Ok((RouteOptionsModel { template: Some(arg), ..o }, i + 1))
    }
}

fn take_route_arg(options: &mut RouteCliOptions, args: &Vec<String>, i: usize) -> (r: Result<
    usize,
    String,
>)
    requires
        i < args.len(),
    ensures
        stepped_to(r, *final(options)) == route_arg(
            old(options).deep_view(),
            texts(args@),
            i as int,
        ),
        r is Ok ==> i < r->Ok_0 <= args.len(),
{
    let arg = args[i].as_str();
    assert(texts(args@)[i as int] == arg@);
    if same(arg, "--config") {
        apply_route_config_args(options, next_value(args, i + 1, "--config")?)?;
    } else if same(arg, "--template") {
        let value = next_value(args, i + 1, "--template")?;
        options.template = Some(value.to_owned());
    } else if same(arg, "--list-templates") {
        options.list_templates = true;
        return Ok(i + 1);
    } else if same(arg, "--input-port") || same(arg, "-i") {
        let port = parse_route_port_binding(next_value(args, i + 1, "--input-port")?)?;
        let ghost before = options.inputs.deep_view();
        let ghost added = port.deep_view();
        options.inputs.push(port);
        assert(options.inputs.deep_view() =~= before.push(added));
    } else if same(arg, "--output-port") || same(arg, "-o") {
        let port = parse_route_port_binding(next_value(args, i + 1, "--output-port")?)?;
        let ghost before = options.outputs.deep_view();
        let ghost added = port.deep_view();
        options.outputs.push(port);
        assert(options.outputs.deep_view() =~= before.push(added));
    } else if same(arg, "--baud") || same(arg, "-b") {
        let value = next_value(args, i + 1, "--baud")?;
        options.baud = Some(parse_u32_arg("--baud", value)?);
    } else if same(arg, "--display") {
        let value = next_value(args, i + 1, "--display")?;
        let assignment = parse_display_assignment(value)?;
        assignment.apply_to(&mut options.display);
    } else if same(arg, "--log-dir") {
        let value = next_value(args, i + 1, "--log-dir")?;
        options.log_dir = Some(value.to_owned());
    } else if same(arg, "--no-log") {
        options.no_log = true;
        return Ok(i + 1);
    } else if same(arg, "--s3b") {
        options.s3b = true;
        return Ok(i + 1);
    } else if begins_with(arg, '-') {
        return Err(cat2("unknown option for route: ", arg));
    } else {
        if options.template.is_some() {
            return Err(cat2("unexpected positional argument for route: ", arg));
        }
        options.template = Some(arg.to_owned());
        return Ok(i + 1);
    }
    Ok(i + 2)
}

impl CommandOptions for RouteCliOptions {
    open spec fn argument(m: RouteOptionsModel, args: Seq<Seq<char>>, i: int) -> Result<
        (RouteOptionsModel, int),
        Seq<char>,
    > {
        route_arg(m, args, i)
    }

    fn take_argument(self, args: &Vec<String>, i: usize) -> (r: Result<(Self, usize), String>) {
        let mut options = self;
        let next: usize = take_route_arg(&mut options, args, i)?;
        Ok((options, next))
    }
}

/// What the arguments ask for.
pub open spec fn route_args(args: Seq<Seq<char>>) -> Result<RouteOptionsModel, Seq<char>> {
    arguments_taken(argument_step::<RouteCliOptions>(), RouteOptionsModel::empty(), args, 0)
}

pub fn parse_route_args(args: Vec<String>) -> (r: Result<RouteCliOptions, String>)
    ensures
        viewed(r) == route_args(texts(args@)),
{
    take_arguments(RouteCliOptions::default(), &args)
}

// ---------------------------------------------------------------------------
// Ids
// ---------------------------------------------------------------------------

/// The texts with others behind them, where these are not there yet.
pub open spec fn extended_texts(list: Seq<Seq<char>>, more: Seq<Seq<char>>) -> Seq<Seq<char>>
    decreases more.len(),
{
    if more.len() == 0 {
        list
    } else {
        let before = extended_texts(list, more.drop_last());
        if before.contains(more.last()) {
            before
        } else {
            before.push(more.last())
        }
    }
}

pub proof fn lemma_extended_texts(list: Seq<Seq<char>>, more: Seq<Seq<char>>, t: Seq<char>)
    ensures
        extended_texts(list, more).contains(t) == (list.contains(t) || more.contains(t)),
    decreases more.len(),
{
    if more.len() > 0 {
        lemma_extended_texts(list, more.drop_last(), t);
        let before = extended_texts(list, more.drop_last());
        assert(more =~= more.drop_last().push(more.last()));
        assert(more.contains(t) == (more.drop_last().contains(t) || t == more.last())) by {
            if more.contains(t) {
                let k = choose|k: int| 0 <= k < more.len() && more[k] == t;
                if k < more.len() - 1 {
                    assert(more.drop_last()[k] == t);
                }
            }
            if more.drop_last().contains(t) {
                let k = choose|k: int| 0 <= k < more.drop_last().len() && more.drop_last()[k] == t;
                assert(more[k] == t);
            }
            if t == more.last() {
                assert(more[more.len() - 1] == t);
            }
        }
        if !before.contains(more.last()) {
            let after = before.push(more.last());
            assert(after.contains(t) == (before.contains(t) || t == more.last())) by {
                if before.contains(t) {
                    let k = choose|k: int| 0 <= k < before.len() && before[k] == t;
                    assert(after[k] == t);
                }
                if t == more.last() {
                    assert(after[before.len() as int] == t);
                }
            }
        }
    }
}

pub fn extend_unique_strings(target: &mut Vec<String>, values: &Vec<String>)
    ensures
        final(target).deep_view() == extended_texts(old(target).deep_view(), values.deep_view()),
{
    let ghost start = target.deep_view();
    let ghost all = values.deep_view();
    let mut i: usize = 0;
    assert(all.take(0) =~= Seq::<Seq<char>>::empty());
    while i < values.len()
        invariant
            i <= values.len(),
            all == values.deep_view(),
            target.deep_view() == extended_texts(start, all.take(i as int)),
        decreases values.len() - i,
    {
        proof {
            assert(all.take(i + 1).drop_last() == all.take(i as int));
            assert(all.take(i + 1).last() == values@[i as int]@);
        }
        if !has_text(target, values[i].as_str()) {
            let ghost before = target.deep_view();
            target.push(values[i].clone());
            assert(target.deep_view() =~= before.push(values@[i as int]@));
        }
        i += 1;
    }
    assert(all.take(i as int) == all);
}

/// Copies texts.
pub fn copy_texts(texts: &Vec<String>) -> (copy: Vec<String>)
    ensures
        copy.deep_view() == texts.deep_view(),
{
    let mut copy: Vec<String> = Vec::new();
    let ghost all = texts.deep_view();
    let mut i: usize = 0;
    assert(copy.deep_view() =~= all.take(0));
    while i < texts.len()
        invariant
            i <= texts.len(),
            all == texts.deep_view(),
            copy.deep_view() == all.take(i as int),
        decreases texts.len() - i,
    {
        let ghost before = copy.deep_view();
        copy.push(texts[i].clone());
        proof {
            assert(copy.deep_view() =~= before.push(texts@[i as int]@));
            assert(all.take(i + 1) =~= all.take(i as int).push(all[i as int]));
        }
        i += 1;
    }
    assert(all.take(i as int) == all);
    copy
}

pub open spec fn input_ids(inputs: Seq<InputSpecModel>) -> Seq<Seq<char>> {
    inputs.map_values(|i: InputSpecModel| i.id)
}

pub open spec fn output_ids(outputs: Seq<OutputSpecModel>) -> Seq<Seq<char>> {
    outputs.map_values(|o: OutputSpecModel| o.id)
}

pub fn ids_of_inputs(inputs: &Vec<SessionInputSpec>) -> (ids: Vec<String>)
    ensures
        ids.deep_view() == input_ids(inputs.deep_view()),
{
    let ghost all = inputs.deep_view();
    let mut ids: Vec<String> = Vec::new();
    let mut i: usize = 0;
    assert(ids.deep_view() =~= input_ids(all.take(0)));
    while i < inputs.len()
        invariant
            i <= inputs.len(),
            all == inputs.deep_view(),
            ids.deep_view() == input_ids(all.take(i as int)),
        decreases inputs.len() - i,
    {
        let ghost before = ids.deep_view();
        ids.push(inputs[i].id.clone());
        proof {
            assert(ids.deep_view() =~= before.push(all[i as int].id));
            assert(input_ids(all.take(i + 1)) =~= before.push(all[i as int].id));
        }
        i += 1;
    }
    assert(all.take(i as int) == all);
    ids
}

pub fn ids_of_outputs(outputs: &Vec<SessionOutputSpec>) -> (ids: Vec<String>)
    ensures
        ids.deep_view() == output_ids(outputs.deep_view()),
{
    let ghost all = outputs.deep_view();
    let mut ids: Vec<String> = Vec::new();
    let mut i: usize = 0;
    assert(ids.deep_view() =~= output_ids(all.take(0)));
    while i < outputs.len()
        invariant
            i <= outputs.len(),
            all == outputs.deep_view(),
            ids.deep_view() == output_ids(all.take(i as int)),
        decreases outputs.len() - i,
    {
        let ghost before = ids.deep_view();
        ids.push(outputs[i].id.clone());
        proof {
            assert(ids.deep_view() =~= before.push(all[i as int].id));
            assert(output_ids(all.take(i + 1)) =~= before.push(all[i as int].id));
        }
        i += 1;
    }
    assert(all.take(i as int) == all);
    ids
}

// ---------------------------------------------------------------------------
// Inputs and outputs on their ports
// ---------------------------------------------------------------------------

/// A port of a route and what was found for it.
pub type RouteItem = (RoutePortModel, Lookup);

pub open spec fn route_items(ports: Seq<RoutePortModel>, found: Seq<Lookup>) -> Seq<RouteItem> {
    Seq::new(ports.len(), |i: int| (ports[i], found[i]))
}

pub open spec fn baud_or(own: Option<u32>, baud: u32) -> u32 {
    match own {
        Some(own) => own,
        None => baud,
    }
}

pub open spec fn route_input_step(baud: u32, display: PortDisplayModel) -> spec_fn(
    Seq<InputSpecModel>,
    RouteItem,
) -> Result<Seq<InputSpecModel>, Seq<char>> {
    |inputs: Seq<InputSpecModel>, item: RouteItem|
        if input_ids(inputs).contains(item.0.id) {
            Err("duplicate route input id: "@ + item.0.id)
        } else {
            match item.1 {
                Err(e) => Err(e),
                Ok(port) => Ok(
                    inputs.push(
                        InputSpecModel {
                            id: item.0.id,
                            port,
                            baud_rate: baud_or(item.0.baud, baud),
                            display_mode: match item.0.display_mode {
                                Some(mode) => mode,
                                None => display.input(port),
                            },
                            line_break_mode: match item.0.line_break_mode {
                                Some(mode) => mode,
                                None => display.line_break(port),
                            },
                        },
                    ),
                ),
            }
        }
}

/// The inputs on their ports, each with an id of its own; one is needed.
pub open spec fn route_inputs(
    ports: Seq<RoutePortModel>,
    found: Seq<Lookup>,
    baud: u32,
    display: PortDisplayModel,
) -> Result<Seq<InputSpecModel>, Seq<char>> {
    if ports.len() == 0 {
        Err("route requires at least one input port"@)
    } else {
        applied(route_input_step(baud, display), Seq::empty(), route_items(ports, found))
    }
}

pub fn normalize_inputs(
    bindings: &Vec<RoutePortBinding>,
    found: &Vec<Result<String, String>>,
    default_baud: u32,
    display: &PortDisplayConfig,
) -> (r: Result<Vec<SessionInputSpec>, String>)
    requires
        found.len() == bindings.len(),
    ensures
        viewed(r) == route_inputs(
            bindings.deep_view(),
            lookups(found@),
            default_baud,
            display.deep_view(),
        ),
{
    assert(bindings.deep_view().len() == bindings.len());
    if bindings.len() == 0 {
        return Err("route requires at least one input port".to_owned());
    }
    let ghost all = route_items(bindings.deep_view(), lookups(found@));
    let ghost step = route_input_step(default_baud, display.deep_view());
    let mut resolved: Vec<SessionInputSpec> = Vec::new();
    let mut i: usize = 0;
    assert(all.take(0) =~= Seq::<RouteItem>::empty());
    assert(resolved.deep_view() =~= Seq::<InputSpecModel>::empty());
    while i < bindings.len()
        invariant
            bindings.len() > 0,
            i <= bindings.len(),
            found.len() == bindings.len(),
            all == route_items(bindings.deep_view(), lookups(found@)),
            all.len() == bindings.len(),
            step == route_input_step(default_baud, display.deep_view()),
            applied(step, Seq::empty(), all.take(i as int)) == Ok::<
                Seq<InputSpecModel>,
                Seq<char>,
            >(resolved.deep_view()),
        decreases bindings.len() - i,
    {
        proof {
            assert(all.take(i + 1).drop_last() == all.take(i as int));
            assert(all.take(i + 1).last() == (
                bindings@[i as int].deep_view(),
                viewed(found@[i as int]),
            ));
        }
        let binding = &bindings[i];
        let taken = ids_of_inputs(&resolved);
        if has_text(&taken, binding.id.as_str()) {
            let e = cat2("duplicate route input id: ", binding.id.as_str());
            proof {
                lemma_applied_error(step, Seq::empty(), all, i + 1, e@);
            }
            return Err(e);
        }
        match copy_lookup(&found[i]) {
            Ok(port) => {
                let display_mode = match binding.display_mode {
                    Some(mode) => mode,
                    None => display.resolve_input(port.as_str()),
                };
                let line_break_mode = match binding.line_break_mode {
                    Some(mode) => mode,
                    None => display.resolve_line_break_input(port.as_str()),
                };
                let ghost before = resolved.deep_view();
                let input = SessionInputSpec {
                    id: binding.id.clone(),
                    port,
                    baud_rate: match binding.baud {
                        Some(own) => own,
                        None => default_baud,
                    },
                    display_mode,
                    line_break_mode,
                };
                let ghost m = input.deep_view();
                resolved.push(input);
                assert(resolved.deep_view() =~= before.push(m));
            },
            Err(e) => {
                proof {
                    lemma_applied_error(step, Seq::empty(), all, i + 1, e@);
                }
                return Err(e);
            },
        }
        i += 1;
    }
    assert(all.take(i as int) == all);
    Ok(resolved)
}

pub open spec fn route_output_step(baud: u32, display: PortDisplayModel) -> spec_fn(
    Seq<OutputSpecModel>,
    RouteItem,
) -> Result<Seq<OutputSpecModel>, Seq<char>> {
    |outputs: Seq<OutputSpecModel>, item: RouteItem|
        if output_ids(outputs).contains(item.0.id) {
            Err("duplicate route output id: "@ + item.0.id)
        } else {
            match item.1 {
                Err(e) => Err(e),
                Ok(port) => Ok(
                    outputs.push(
                        OutputSpecModel {
                            id: item.0.id,
                            port,
                            baud_rate: baud_or(item.0.baud, baud),
                            format_name: "bytes"@,
                            display_mode: match item.0.display_mode {
                                Some(mode) => mode,
                                None => display.output(port),
                            },
                        },
                    ),
                ),
            }
        }
}

/// The outputs on their ports, each with an id of its own; one is needed.
pub open spec fn route_outputs(
    ports: Seq<RoutePortModel>,
    found: Seq<Lookup>,
    baud: u32,
    display: PortDisplayModel,
) -> Result<Seq<OutputSpecModel>, Seq<char>> {
    if ports.len() == 0 {
        Err("route requires at least one output port"@)
    } else {
        applied(route_output_step(baud, display), Seq::empty(), route_items(ports, found))
    }
}

pub fn normalize_outputs(
    bindings: &Vec<RoutePortBinding>,
    found: &Vec<Result<String, String>>,
    default_baud: u32,
    display: &PortDisplayConfig,
) -> (r: Result<Vec<SessionOutputSpec>, String>)
    requires
        found.len() == bindings.len(),
    ensures
        viewed(r) == route_outputs(
            bindings.deep_view(),
            lookups(found@),
            default_baud,
            display.deep_view(),
        ),
{
    assert(bindings.deep_view().len() == bindings.len());
    if bindings.len() == 0 {
        return Err("route requires at least one output port".to_owned());
    }
    let ghost all = route_items(bindings.deep_view(), lookups(found@));
    let ghost step = route_output_step(default_baud, display.deep_view());
    let mut resolved: Vec<SessionOutputSpec> = Vec::new();
    let mut i: usize = 0;
    assert(all.take(0) =~= Seq::<RouteItem>::empty());
    assert(resolved.deep_view() =~= Seq::<OutputSpecModel>::empty());
    while i < bindings.len()
        invariant
            bindings.len() > 0,
            i <= bindings.len(),
            found.len() == bindings.len(),
            all == route_items(bindings.deep_view(), lookups(found@)),
            all.len() == bindings.len(),
            step == route_output_step(default_baud, display.deep_view()),
            applied(step, Seq::empty(), all.take(i as int)) == Ok::<
                Seq<OutputSpecModel>,
                Seq<char>,
            >(resolved.deep_view()),
        decreases bindings.len() - i,
    {
        proof {
            assert(all.take(i + 1).drop_last() == all.take(i as int));
            assert(all.take(i + 1).last() == (
                bindings@[i as int].deep_view(),
                viewed(found@[i as int]),
            ));
        }
        let binding = &bindings[i];
        let taken = ids_of_outputs(&resolved);
        if has_text(&taken, binding.id.as_str()) {
            let e = cat2("duplicate route output id: ", binding.id.as_str());
            proof {
                lemma_applied_error(step, Seq::empty(), all, i + 1, e@);
            }
            return Err(e);
        }
        match copy_lookup(&found[i]) {
            Ok(port) => {
                let display_mode = match binding.display_mode {
                    Some(mode) => mode,
                    None => display.resolve_output(port.as_str()),
                };
                let ghost before = resolved.deep_view();
                let output = SessionOutputSpec {
                    id: binding.id.clone(),
                    port,
                    baud_rate: match binding.baud {
                        Some(own) => own,
                        None => default_baud,
                    },
                    format_name: "bytes".to_owned(),
                    display_mode,
                };
                let ghost m = output.deep_view();
                resolved.push(output);
                assert(resolved.deep_view() =~= before.push(m));
            },
            Err(e) => {
                proof {
                    lemma_applied_error(step, Seq::empty(), all, i + 1, e@);
                }
                return Err(e);
            },
        }
        i += 1;
    }
    assert(all.take(i as int) == all);
    Ok(resolved)
}

} // verus!

//! `route`: the pipelines of a run, from templates and defaults.
use crate::args::{collected, default_baud_rate, lemma_collected_error};
use crate::command_line::has_text;
use crate::config::{RouteTemplateConfig, RouteTemplateModel};
use crate::io_settings::{default_baud_of, log_dir_of, resolve_log_dir};
use crate::pipeline::{
    ClassifyModel, ClassifyModuleConfig, FilterModel, FilterModuleConfig, PipelineDefinition,
    PipelineModel, PipelineSpec, RouteTable, RouterModel, RouterModuleConfig, TagRoutingRule,
    TransformChainConfig, TransformModel, TransformModuleConfig,
};
use crate::ports::{lookups, Lookup};
use crate::route::{
    copy_texts, extend_unique_strings, extended_texts, ids_of_inputs, ids_of_outputs, input_ids,
    lemma_extended_texts, normalize_inputs, normalize_outputs, output_ids, route_inputs,
    route_outputs, RouteCliOptions, RouteOptionsModel,
};
use crate::session::{InputSpecModel, OutputSpecModel, SessionInputSpec, SessionOutputSpec};
use crate::table::{inserted, Table};
use crate::text::{cat2, cat3, cat4, cat5, join, joined, pad_end, padded, same, texts, viewed};
use vstd::prelude::*;
use vstd::string::*;

verus! {

// ---------------------------------------------------------------------------
// The outputs of a router
// ---------------------------------------------------------------------------

/// The outputs with those of each route behind them, each one once.
pub open spec fn routed(outputs: Seq<Seq<char>>, routes: RouteTable) -> Seq<Seq<char>>
    decreases routes.len(),
{
    if routes.len() == 0 {
        outputs
    } else {
        extended_texts(routed(outputs, routes.drop_last()), routes.last().1)
    }
}

/// The outputs that a router may send to.
pub open spec fn router_outputs(r: RouterModel) -> Seq<Seq<char>> {
    match r {
        RouterModel::Broadcast { outputs } => outputs,
        RouterModel::RoundRobin { outputs } => outputs,
        RouterModel::SourceMap { routes, default_outputs } => routed(default_outputs, routes),
        RouterModel::TagBased { routes, default_outputs } => routed(default_outputs, routes),
    }
}

fn table_outputs(default_outputs: &Vec<String>, routes: &Table<Vec<String>>) -> (r: Vec<String>)
    ensures
        r.deep_view() == routed(default_outputs.deep_view(), routes.deep_view()),
{
    let mut outputs = copy_texts(default_outputs);
    let ghost all = routes.deep_view();
    let mut i: usize = 0;
    assert(all.take(0) =~= Seq::empty());
    while i < routes.len()
        invariant
            i <= all.len(),
            all == routes.deep_view(),
            outputs.deep_view() == routed(default_outputs.deep_view(), all.take(i as int)),
        decreases all.len() - i,
    {
        proof {
            assert(all.take(i + 1).drop_last() == all.take(i as int));
            assert(all.take(i + 1).last() == all[i as int]);
        }
        extend_unique_strings(&mut outputs, routes.value(i));
        i += 1;
    }
    assert(all.take(i as int) == all);
    outputs
}

fn rule_outputs(default_outputs: &Vec<String>, routes: &Vec<TagRoutingRule>) -> (r: Vec<String>)
    ensures
        r.deep_view() == routed(default_outputs.deep_view(), routes.deep_view()),
{
    let mut outputs = copy_texts(default_outputs);
    let ghost all = routes.deep_view();
    let mut i: usize = 0;
    assert(all.take(0) =~= Seq::empty());
    while i < routes.len()
        invariant
            i <= routes.len(),
            all == routes.deep_view(),
            outputs.deep_view() == routed(default_outputs.deep_view(), all.take(i as int)),
        decreases routes.len() - i,
    {
        proof {
            assert(all.take(i + 1).drop_last() == all.take(i as int));
            assert(all.take(i + 1).last() == routes@[i as int].deep_view());
        }
        extend_unique_strings(&mut outputs, &routes[i].outputs);
        i += 1;
    }
    assert(all.take(i as int) == all);
    outputs
}

pub fn router_output_ids(router: &RouterModuleConfig) -> (r: Vec<String>)
    ensures
        r.deep_view() == router_outputs(router.deep_view()),
{
    match router {
        RouterModuleConfig::Broadcast { outputs } => copy_texts(outputs),
        RouterModuleConfig::RoundRobin { outputs } => copy_texts(outputs),
        RouterModuleConfig::SourceMap { routes, default_outputs } => table_outputs(
            default_outputs,
            routes,
        ),
        RouterModuleConfig::TagBased { routes, default_outputs } => rule_outputs(
            default_outputs,
            routes,
        ),
    }
}

/// A router that sends everywhere without a list of outputs gets all of them.
pub open spec fn with_default_outputs(r: RouterModel, outputs: Seq<Seq<char>>) -> RouterModel {
    match r {
        RouterModel::Broadcast { outputs: own } => if own.len() == 0 {
            RouterModel::Broadcast { outputs }
        } else {
            r
        },
        _ => r,
    }
}

pub fn apply_default_router_outputs(router: &mut RouterModuleConfig, outputs: &Vec<String>)
    ensures
        final(router).deep_view() == with_default_outputs(
            old(router).deep_view(),
            outputs.deep_view(),
        ),
{
    let empty = match router {
        RouterModuleConfig::Broadcast { outputs: own } => {
            assert(own.deep_view().len() == own.len());
            own.len() == 0
        },
        _ => false,
    };
    if empty {
        *router = RouterModuleConfig::Broadcast { outputs: copy_texts(outputs) };
    }
}

/// The outputs of all pipelines, each one once.
pub open spec fn all_outputs(pipelines: Seq<PipelineModel>) -> Seq<Seq<char>>
    decreases pipelines.len(),
{
    if pipelines.len() == 0 {
        seq![]
    } else {
        extended_texts(
            all_outputs(pipelines.drop_last()),
            router_outputs(pipelines.last().router),
        )
    }
}

pub fn collect_pipeline_outputs(pipeline: &PipelineSpec) -> (r: Vec<String>)
    ensures
        r.deep_view() == all_outputs(pipeline.deep_view()),
{
    let mut outputs: Vec<String> = Vec::new();
    let ghost all = pipeline.deep_view();
    let mut i: usize = 0;
    assert(all.take(0) =~= Seq::<PipelineModel>::empty());
    assert(outputs.deep_view() =~= Seq::<Seq<char>>::empty());
    while i < pipeline.pipelines.len()
        invariant
            i <= pipeline.pipelines.len(),
            all == pipeline.deep_view(),
            outputs.deep_view() == all_outputs(all.take(i as int)),
        decreases pipeline.pipelines.len() - i,
    {
        proof {
            assert(all.take(i + 1).drop_last() == all.take(i as int));
            assert(all.take(i + 1).last() == pipeline.pipelines@[i as int].deep_view());
        }
        let ids = router_output_ids(&pipeline.pipelines[i].router);
        extend_unique_strings(&mut outputs, &ids);
        i += 1;
    }
    assert(all.take(i as int) == all);
    outputs
}

// ---------------------------------------------------------------------------
// Normalizing
// ---------------------------------------------------------------------------

/// The first text that is not known.
pub open spec fn first_unknown(list: Seq<Seq<char>>, known: Seq<Seq<char>>) -> Option<Seq<char>>
    decreases list.len(),
{
    if list.len() == 0 {
        None
    } else if !known.contains(list[0]) {
        Some(list[0])
    } else {
        first_unknown(list.skip(1), known)
    }
}

fn find_unknown<'a>(list: &'a Vec<String>, known: &Vec<String>) -> (r: Option<&'a str>)
    ensures
        r.deep_view() == first_unknown(list.deep_view(), known.deep_view()),
{
    let ghost all = list.deep_view();
    let mut i: usize = 0;
    assert(all.skip(0) == all);
    while i < list.len()
        invariant
            i <= list.len(),
            all == list.deep_view(),
            first_unknown(all, known.deep_view()) == first_unknown(
                all.skip(i as int),
                known.deep_view(),
            ),
        decreases list.len() - i,
    {
        assert(all.skip(i as int)[0] == list@[i as int]@);
        if !has_text(known, list[i].as_str()) {
            return Some(list[i].as_str());
        }
        assert(all.skip(i as int).skip(1) == all.skip(i + 1));
        i += 1;
    }
    None
}

proof fn lemma_first_unknown(list: Seq<Seq<char>>, known: Seq<Seq<char>>)
    ensures
        first_unknown(list, known) is None <==> forall|i: int|
            0 <= i < list.len() ==> known.contains(#[trigger] list[i]),
    decreases list.len(),
{
    if list.len() > 0 {
        let rest = list.skip(1);
        lemma_first_unknown(rest, known);
        if first_unknown(list, known) is None {
            assert forall|i: int| 0 <= i < list.len() implies known.contains(
                #[trigger] list[i],
            ) by {
                if i > 0 {
                    assert(list[i] == rest[i - 1]);
                }
            }
        }
        if forall|i: int| 0 <= i < list.len() ==> known.contains(#[trigger] list[i]) {
            assert(known.contains(list[0]));
            assert forall|i: int| 0 <= i < rest.len() implies known.contains(
                #[trigger] rest[i],
            ) by {
                assert(rest[i] == list[i + 1]);
            }
        }
    }
}

/// What stands against a pipeline: an input or an output that is not known.
pub open spec fn pipeline_fault(
    d: PipelineModel,
    inputs: Seq<Seq<char>>,
    outputs: Seq<Seq<char>>,
) -> Option<Seq<char>> {
    match first_unknown(d.inputs, inputs) {
        Some(id) => Some(
            "pipeline `"@ + d.id + "` references unknown input id `"@ + id + "`"@,
        ),
        None => match first_unknown(router_outputs(d.router), outputs) {
            Some(id) => Some(
                "pipeline `"@ + d.id + "` references unknown output id `"@ + id + "`"@,
            ),
            None => None,
        },
    }
}

fn find_fault(
    definition: &PipelineDefinition,
    inputs: &Vec<String>,
    outputs: &Vec<String>,
) -> (r: Option<String>)
    ensures
        r.deep_view() == pipeline_fault(
            definition.deep_view(),
            inputs.deep_view(),
            outputs.deep_view(),
        ),
{
    if let Some(id) = find_unknown(&definition.inputs, inputs) {
        return Some(
            cat5(
                "pipeline `",
                definition.id.as_str(),
                "` references unknown input id `",
                id,
                "`",
            ),
        );
    }
    let ids = router_output_ids(&definition.router);
    match find_unknown(&ids, outputs) {
        Some(id) => Some(
            cat5(
                "pipeline `",
                definition.id.as_str(),
                "` references unknown output id `",
                id,
                "`",
            ),
        ),
        None => None,
    }
}

/// The pipeline of a route without any: every input goes to every output as it is.
pub open spec fn default_pipeline(inputs: Seq<Seq<char>>, outputs: Seq<Seq<char>>) -> PipelineModel {
    PipelineModel {
        id: "default"@,
        inputs,
        filter: FilterModel::AllowAll,
        transform: seq![TransformModel::Identity],
        classify: ClassifyModel::Unclassified,
        router: RouterModel::Broadcast { outputs },
    }
}

/// A pipeline that names no inputs takes all of them.
pub open spec fn filled(
    d: PipelineModel,
    inputs: Seq<Seq<char>>,
    outputs: Seq<Seq<char>>,
) -> PipelineModel {
    PipelineModel {
        inputs: if d.inputs.len() == 0 {
            inputs
        } else {
            d.inputs
        },
        router: with_default_outputs(d.router, outputs),
        ..d
    }
}

pub open spec fn normal_reader(inputs: Seq<Seq<char>>, outputs: Seq<Seq<char>>) -> spec_fn(
    PipelineModel,
) -> Result<Option<PipelineModel>, Seq<char>> {
    |d: PipelineModel|
        match pipeline_fault(filled(d, inputs, outputs), inputs, outputs) {
            Some(e) => Err(e),
            None => Ok(Some(filled(d, inputs, outputs))),
        }
}

/// The pipelines with what they leave open filled in; all that they name must be known.
pub open spec fn normalized(
    pipelines: Seq<PipelineModel>,
    inputs: Seq<Seq<char>>,
    outputs: Seq<Seq<char>>,
) -> Result<Seq<PipelineModel>, Seq<char>> {
    collected(
        normal_reader(inputs, outputs),
        if pipelines.len() == 0 {
            seq![default_pipeline(inputs, outputs)]
        } else {
            pipelines
        },
    )
}

proof fn lemma_normalized(
    pipelines: Seq<PipelineModel>,
    inputs: Seq<Seq<char>>,
    outputs: Seq<Seq<char>>,
)
    ensures
        collected(normal_reader(inputs, outputs), pipelines) matches Ok(ds) ==> ds.len()
            == pipelines.len() && forall|k: int|
            0 <= k < ds.len() ==> pipeline_fault(#[trigger] ds[k], inputs, outputs) is None,
    decreases pipelines.len(),
{
    if pipelines.len() > 0 {
        lemma_normalized(pipelines.drop_last(), inputs, outputs);
    }
}

/// Normalized pipelines name known inputs and outputs only, and there is at least one.
pub proof fn law_normalized_pipelines_are_known(
    pipelines: Seq<PipelineModel>,
    inputs: Seq<Seq<char>>,
    outputs: Seq<Seq<char>>,
)
    requires
        normalized(pipelines, inputs, outputs) is Ok,
    ensures
        normalized(pipelines, inputs, outputs)->Ok_0.len() > 0,
        forall|k: int, i: int|
            0 <= k < normalized(pipelines, inputs, outputs)->Ok_0.len() && 0 <= i < normalized(
                pipelines,
                inputs,
                outputs,
            )->Ok_0[k].inputs.len() ==> inputs.contains(
                #[trigger] normalized(pipelines, inputs, outputs)->Ok_0[k].inputs[i],
            ),
        forall|k: int, i: int|
            0 <= k < normalized(pipelines, inputs, outputs)->Ok_0.len() && 0 <= i < router_outputs(
                normalized(pipelines, inputs, outputs)->Ok_0[k].router,
            ).len() ==> outputs.contains(
                #[trigger] router_outputs(
                    normalized(pipelines, inputs, outputs)->Ok_0[k].router,
                )[i],
            ),
{
    let given = if pipelines.len() == 0 {
        seq![default_pipeline(inputs, outputs)]
    } else {
        pipelines
    };
    let ds = normalized(pipelines, inputs, outputs)->Ok_0;
    lemma_normalized(given, inputs, outputs);
    assert forall|k: int, i: int| 0 <= k < ds.len() && 0 <= i < ds[k].inputs.len() implies inputs.contains(
        #[trigger] ds[k].inputs[i],
    ) by {
        assert(pipeline_fault(ds[k], inputs, outputs) is None);
        lemma_first_unknown(ds[k].inputs, inputs);
    }
    assert forall|k: int, i: int|
        0 <= k < ds.len() && 0 <= i < router_outputs(ds[k].router).len() implies outputs.contains(
        #[trigger] router_outputs(ds[k].router)[i],
    ) by {
        assert(pipeline_fault(ds[k], inputs, outputs) is None);
        lemma_first_unknown(router_outputs(ds[k].router), outputs);
    }
}

/// The outputs of all pipelines are those that one of them may send to.
pub proof fn law_all_outputs(pipelines: Seq<PipelineModel>, id: Seq<char>)
    ensures
        all_outputs(pipelines).contains(id) <==> exists|k: int|
            0 <= k < pipelines.len() && router_outputs(
                (#[trigger] pipelines[k]).router,
            ).contains(id),
    decreases pipelines.len(),
{
    if pipelines.len() == 0 {
        assert(!all_outputs(pipelines).contains(id));
    } else {
        let rest = pipelines.drop_last();
        let last = pipelines.last();
        law_all_outputs(rest, id);
        lemma_extended_texts(all_outputs(rest), router_outputs(last.router), id);
        if all_outputs(pipelines).contains(id) {
            if all_outputs(rest).contains(id) {
                let k = choose|k: int|
                    0 <= k < rest.len() && router_outputs((#[trigger] rest[k]).router).contains(id);
                assert(pipelines[k] == rest[k]);
            } else {
                assert(pipelines[pipelines.len() - 1] == last);
            }
        }
        if exists|k: int|
            0 <= k < pipelines.len() && router_outputs((#[trigger] pipelines[k]).router).contains(
                id,
            ) {
            let k = choose|k: int|
                0 <= k < pipelines.len() && router_outputs(
                    (#[trigger] pipelines[k]).router,
                ).contains(id);
            if k < rest.len() {
                assert(rest[k] == pipelines[k]);
            }
        }
    }
}

fn fill(
    definition: PipelineDefinition,
    inputs: &Vec<String>,
    outputs: &Vec<String>,
) -> (d: PipelineDefinition)
    ensures
        d.deep_view() == filled(
            definition.deep_view(),
            inputs.deep_view(),
            outputs.deep_view(),
        ),
{
    let mut d = definition;
    assert(d.deep_view().inputs.len() == d.inputs.len());
    if d.inputs.len() == 0 {
        d.inputs = copy_texts(inputs);
    }
    apply_default_router_outputs(&mut d.router, outputs);
    d
}

fn identity_modules() -> (modules: Vec<TransformModuleConfig>)
    ensures
        modules.deep_view() == seq![TransformModel::Identity],
{
    let mut modules: Vec<TransformModuleConfig> = Vec::new();
    modules.push(TransformModuleConfig::Identity);
    assert(modules.deep_view() =~= seq![TransformModel::Identity]);
    modules
}

pub fn normalize_pipeline_spec(
    pipeline: PipelineSpec,
    inputs: &Vec<SessionInputSpec>,
    outputs: &Vec<SessionOutputSpec>,
) -> (r: Result<PipelineSpec, String>)
    ensures
        viewed(r) == normalized(
            pipeline.deep_view(),
            input_ids(inputs.deep_view()),
            output_ids(outputs.deep_view()),
        ),
{
    let known_inputs = ids_of_inputs(inputs);
    let known_outputs = ids_of_outputs(outputs);
    let ghost ins = known_inputs.deep_view();
    let ghost outs = known_outputs.deep_view();
    let mut rest = pipeline.pipelines;
    assert(pipeline.deep_view().len() == rest.len());
    if rest.len() == 0 {
        let d = PipelineDefinition {
            id: "default".to_owned(),
            inputs: copy_texts(&known_inputs),
            filter: FilterModuleConfig::AllowAll,
            transform: TransformChainConfig { modules: identity_modules() },
            classify: ClassifyModuleConfig::Unclassified,
            router: RouterModuleConfig::Broadcast { outputs: copy_texts(&known_outputs) },
        };
        let ghost m = d.deep_view();
        assert(m =~= default_pipeline(ins, outs));
        rest.push(d);
        assert(rest.deep_view() =~= seq![m]);
    }
    let ghost all = rest.deep_view();
    let ghost read = normal_reader(ins, outs);
    let ghost outcome = normalized(pipeline.deep_view(), ins, outs);
    let ghost mut done: int = 0;
    let mut pipelines: Vec<PipelineDefinition> = Vec::new();
    assert(all.take(0) =~= Seq::<PipelineModel>::empty());
    assert(all.skip(0) == all);
    assert(pipelines.deep_view() =~= Seq::<PipelineModel>::empty());
    while rest.len() > 0
        invariant
            0 <= done <= all.len(),
            ins == known_inputs.deep_view(),
            outs == known_outputs.deep_view(),
            ins == input_ids(inputs.deep_view()),
            outs == output_ids(outputs.deep_view()),
            read == normal_reader(ins, outs),
            normalized(pipeline.deep_view(), ins, outs) == collected(read, all),
            rest.deep_view() == all.skip(done),
            collected(read, all.take(done)) == Ok::<Seq<PipelineModel>, Seq<char>>(
                pipelines.deep_view(),
            ),
        decreases rest.len(),
    {
        let ghost before = rest.deep_view();
        assert(before.len() == rest.len());
        let definition = rest.remove(0);
        proof {
            assert(definition.deep_view() == before[0]);
            assert(before[0] == all[done]);
            assert(rest.deep_view() =~= before.skip(1));
            assert(all.skip(done).skip(1) =~= all.skip(done + 1));
            assert(all.take(done + 1).drop_last() == all.take(done));
            assert(all.take(done + 1).last() == all[done]);
        }
        let d = fill(definition, &known_inputs, &known_outputs);
        if let Some(e) = find_fault(&d, &known_inputs, &known_outputs) {
            proof {
                lemma_collected_error(read, all, done + 1, e@);
            }
            return Err(e);
        }
        let ghost so_far = pipelines.deep_view();
        let ghost m = d.deep_view();
        pipelines.push(d);
        proof {
            assert(pipelines.deep_view() =~= so_far.push(m));
            done = done + 1;
        }
    }
    assert(all.take(done) == all);
    Ok(PipelineSpec { pipelines })
}

// ---------------------------------------------------------------------------
// Templates
// ---------------------------------------------------------------------------

/// A template of one pipeline that names no inputs.
pub open spec fn simple_template(
    id: Seq<char>,
    description: Seq<char>,
    transform: TransformModel,
    router: RouterModel,
) -> RouteTemplateModel {
    RouteTemplateModel {
        id,
        description: Some(description),
        pipelines: seq![
            PipelineModel {
                id,
                inputs: seq![],
                filter: FilterModel::AllowAll,
                transform: seq![transform],
                classify: ClassifyModel::Unclassified,
                router,
            },
        ],
    }
}

pub fn builtin_route_template(
    id: &str,
    description: &str,
    transform: TransformModuleConfig,
    router: RouterModuleConfig,
) -> (t: RouteTemplateConfig)
    ensures
        t.deep_view() == simple_template(
            id@,
            description@,
            transform.deep_view(),
            router.deep_view(),
        ),
{
    let ghost tm = transform.deep_view();
    let mut modules: Vec<TransformModuleConfig> = Vec::new();
    modules.push(transform);
    assert(modules.deep_view() =~= seq![tm]);
    let d = PipelineDefinition {
        id: id.to_owned(),
        inputs: Vec::new(),
        filter: FilterModuleConfig::AllowAll,
        transform: TransformChainConfig { modules },
        classify: ClassifyModuleConfig::Unclassified,
        router,
    };
    let ghost m = d.deep_view();
    assert(m.inputs =~= Seq::<Seq<char>>::empty());
    let mut pipelines: Vec<PipelineDefinition> = Vec::new();
    pipelines.push(d);
    assert(pipelines.deep_view() =~= seq![m]);
    RouteTemplateConfig {
        id: id.to_owned(),
        description: Some(description.to_owned()),
        pipelines: PipelineSpec { pipelines },
    }
}

/// The template that sends every input to every output.
pub open spec fn merge_template() -> RouteTemplateModel {
    simple_template(
        "merge"@,
        "複数入力を来た順にそのまま全出力へ流します。出力が1つなら単純マージです。"@,
        TransformModel::Identity,
        RouterModel::Broadcast { outputs: seq![] },
    )
}

fn builtin_merge_template() -> (t: RouteTemplateConfig)
    ensures
        t.deep_view() == merge_template(),
{
    let router = RouterModuleConfig::Broadcast { outputs: Vec::new() };
    assert(router.deep_view() =~= RouterModel::Broadcast { outputs: seq![] });
    builtin_route_template(
        "merge",
        "複数入力を来た順にそのまま全出力へ流します。出力が1つなら単純マージです。",
        TransformModuleConfig::Identity,
        router,
    )
}

/// The first inputs, each with the output at its place.
pub open spec fn paired(inputs: Seq<Seq<char>>, outputs: Seq<Seq<char>>, n: nat) -> RouteTable
    decreases n,
{
    if n == 0 {
        seq![]
    } else {
        inserted(
            paired(inputs, outputs, (n - 1) as nat),
            inputs[n - 1],
            seq![outputs[n - 1]],
        )
    }
}

pub open spec fn pair_count(inputs: Seq<Seq<char>>, outputs: Seq<Seq<char>>) -> nat {
    if inputs.len() <= outputs.len() {
        inputs.len()
    } else {
        outputs.len()
    }
}

pub open spec fn one_to_one_description() -> Seq<char> {
    "入力配列順と出力配列順を1対1に対応させ、対応する相手へだけそのまま流します。"@
}

/// The template that sends each input to the output at its place.
pub open spec fn one_to_one_template(
    inputs: Seq<Seq<char>>,
    outputs: Seq<Seq<char>>,
) -> RouteTemplateModel {
    RouteTemplateModel {
        id: "one-to-one"@,
        description: Some(one_to_one_description()),
        pipelines: seq![
            PipelineModel {
                id: "one-to-one"@,
                inputs,
                filter: FilterModel::AllowAll,
                transform: seq![TransformModel::Identity],
                classify: ClassifyModel::Unclassified,
                router: RouterModel::SourceMap {
                    routes: paired(inputs, outputs, pair_count(inputs, outputs)),
                    default_outputs: seq![],
                },
            },
        ],
    }
}

fn pair_routes(inputs: &Vec<String>, outputs: &Vec<String>) -> (routes: Table<Vec<String>>)
    ensures
        routes.deep_view() == paired(
            inputs.deep_view(),
            outputs.deep_view(),
            pair_count(inputs.deep_view(), outputs.deep_view()),
        ),
{
    let ghost ins = inputs.deep_view();
    let ghost outs = outputs.deep_view();
    let mut routes: Table<Vec<String>> = Table::new();
    let mut i: usize = 0;
    while i < inputs.len() && i < outputs.len()
        invariant
            i <= inputs.len(),
            i <= outputs.len(),
            ins == inputs.deep_view(),
            outs == outputs.deep_view(),
            routes.deep_view() == paired(ins, outs, i as nat),
        decreases inputs.len() - i,
    {
        let mut targets: Vec<String> = Vec::new();
        targets.push(outputs[i].clone());
        proof {
            assert(targets.deep_view() =~= seq![outs[i as int]]);
            assert(ins[i as int] == inputs@[i as int]@);
        }
        routes.insert(inputs[i].clone(), targets);
        i += 1;
    }
    assert(ins.len() == inputs.len() && outs.len() == outputs.len());
    assert(i == pair_count(ins, outs));
    routes
}

pub fn builtin_one_to_one_template(
    inputs: &Vec<SessionInputSpec>,
    outputs: &Vec<SessionOutputSpec>,
) -> (t: RouteTemplateConfig)
    ensures
        t.deep_view() == one_to_one_template(
            input_ids(inputs.deep_view()),
            output_ids(outputs.deep_view()),
        ),
{
    let ins = ids_of_inputs(inputs);
    let outs = ids_of_outputs(outputs);
    let routes = pair_routes(&ins, &outs);
    let router = RouterModuleConfig::SourceMap { routes, default_outputs: Vec::new() };
    let ghost rm = router.deep_view();
    assert(rm->SourceMap_default_outputs =~= Seq::<Seq<char>>::empty());
    let d = PipelineDefinition {
        id: "one-to-one".to_owned(),
        inputs: ins,
        filter: FilterModuleConfig::AllowAll,
        transform: TransformChainConfig { modules: identity_modules() },
        classify: ClassifyModuleConfig::Unclassified,
        router,
    };
    let ghost m = d.deep_view();
    let mut pipelines: Vec<PipelineDefinition> = Vec::new();
    pipelines.push(d);
    assert(pipelines.deep_view() =~= seq![m]);
    RouteTemplateConfig {
        id: "one-to-one".to_owned(),
        description: Some(
            "入力配列順と出力配列順を1対1に対応させ、対応する相手へだけそのまま流します。".to_owned(),
        ),
        pipelines: PipelineSpec { pipelines },
    }
}

/// The templates that are built in.
pub open spec fn builtin_templates() -> Seq<RouteTemplateModel> {
    seq![
        merge_template(),
        RouteTemplateModel {
            id: "one-to-one"@,
            description: Some(one_to_one_description()),
            pipelines: seq![],
        },
    ]
}

pub fn builtin_route_templates() -> (r: Vec<RouteTemplateConfig>)
    ensures
        r.deep_view() == builtin_templates(),
{
    let merge = builtin_merge_template();
    let one_to_one = RouteTemplateConfig {
        id: "one-to-one".to_owned(),
        description: Some(
            "入力配列順と出力配列順を1対1に対応させ、対応する相手へだけそのまま流します。".to_owned(),
        ),
        pipelines: PipelineSpec::default(),
    };
    let ghost a = merge.deep_view();
    let ghost b = one_to_one.deep_view();
    let mut r: Vec<RouteTemplateConfig> = Vec::new();
    r.push(merge);
    r.push(one_to_one);
    assert(r.deep_view() =~= seq![a, b]);
    r
}

pub open spec fn unknown_template(name: Seq<char>) -> Seq<char> {
    "不明なルートテンプレート `"@ + name
        + "` です。利用可能なテンプレートは `acs route --list-templates` で確認できます"@
}

/// The pipelines of a template; none without one.
pub open spec fn template_pipelines(
    name: Option<Seq<char>>,
    inputs: Seq<Seq<char>>,
    outputs: Seq<Seq<char>>,
) -> Result<Seq<PipelineModel>, Seq<char>> {
    match name {
        None => Ok(seq![]),
        Some(name) => if name == "merge"@ {
            Ok(merge_template().pipelines)
        } else if name == "one-to-one"@ {
            Ok(one_to_one_template(inputs, outputs).pipelines)
        } else {
            Err(unknown_template(name))
        },
    }
}

pub fn resolve_pipeline_spec(
    template_name: Option<&str>,
    inputs: &Vec<SessionInputSpec>,
    outputs: &Vec<SessionOutputSpec>,
) -> (r: Result<PipelineSpec, String>)
    ensures
        viewed(r) == template_pipelines(
            template_name.deep_view(),
            input_ids(inputs.deep_view()),
            output_ids(outputs.deep_view()),
        ),
{
    let name = match template_name {
        None => {
            return Ok(PipelineSpec::default());
        },
        Some(name) => name,
    };
    if same(name, "merge") {
        Ok(builtin_merge_template().pipelines)
    } else if same(name, "one-to-one") {
        Ok(builtin_one_to_one_template(inputs, outputs).pipelines)
    } else {
        Err(
            cat3(
                "不明なルートテンプレート `",
                name,
                "` です。利用可能なテンプレートは `acs route --list-templates` で確認できます",
            ),
        )
    }
}

/// The line that tells of a template.
pub open spec fn template_line(t: RouteTemplateModel) -> Seq<char> {
    "  "@ + padded(t.id, 16) + " "@ + (match t.description {
        Some(text) => text,
        None => "組み込みテンプレート"@,
    })
}

pub fn format_template_line(template: &RouteTemplateConfig) -> (r: String)
    ensures
        r@ == template_line(template.deep_view()),
{
    let id = pad_end(template.id.as_str(), 16);
    match &template.description {
        Some(text) => cat4("  ", id.as_str(), " ", text.as_str()),
        None => cat4("  ", id.as_str(), " ", "組み込みテンプレート"),
    }
}

pub open spec fn template_lines(templates: Seq<RouteTemplateModel>) -> Seq<Seq<char>> {
    templates.map_values(|t: RouteTemplateModel| template_line(t))
}

/// The list of templates, with examples for a program of this name.
pub open spec fn template_list(templates: Seq<RouteTemplateModel>, bin_name: Seq<char>) -> Seq<
    Seq<char>,
> {
    seq!["利用可能なルートテンプレート:"@] + template_lines(templates) + seq![
        ""@,
        "例:"@,
        "  "@ + bin_name
            + " route merge -i in_a=/dev/ttyUSB0 -i in_b=/dev/ttyUSB1 -o out_main=/dev/ttyUSB2"@,
        "  "@ + bin_name
            + " route one-to-one -i in_a=/dev/ttyUSB0 -i in_b=/dev/ttyUSB1 -o out_a=/dev/ttyUSB2 -o out_b=/dev/ttyUSB3"@,
    ]
}

pub fn available_template_lines(templates: &Vec<RouteTemplateConfig>, bin_name: &str) -> (lines:
    Vec<String>)
    ensures
        lines.deep_view() == template_list(templates.deep_view(), bin_name@),
{
    let ghost all = templates.deep_view();
    let mut lines: Vec<String> = Vec::new();
    lines.push("利用可能なルートテンプレート:".to_owned());
    let ghost head = lines@[0]@;
    let mut i: usize = 0;
    while i < templates.len()
        invariant
            i <= templates.len(),
            all == templates.deep_view(),
            lines.len() == i + 1,
            lines@[0]@ == head,
            forall|k: int|
                0 < k <= i ==> (#[trigger] lines@[k])@ == template_line(all[k - 1]),
        decreases templates.len() - i,
    {
        lines.push(format_template_line(&templates[i]));
        assert(all[i as int] == templates@[i as int].deep_view());
        i += 1;
    }
    lines.push("".to_owned());
    lines.push("例:".to_owned());
    lines.push(
        cat3(
            "  ",
            bin_name,
            " route merge -i in_a=/dev/ttyUSB0 -i in_b=/dev/ttyUSB1 -o out_main=/dev/ttyUSB2",
        ),
    );
    lines.push(
        cat3(
            "  ",
            bin_name,
            " route one-to-one -i in_a=/dev/ttyUSB0 -i in_b=/dev/ttyUSB1 -o out_a=/dev/ttyUSB2 -o out_b=/dev/ttyUSB3",
        ),
    );
    assert(lines.deep_view() =~= template_list(all, bin_name@));
    lines
}

// ---------------------------------------------------------------------------
// Settings
// ---------------------------------------------------------------------------

#[derive(Debug)]
pub struct RouteSettings {
    pub log_dir: String,
    pub logging_enabled: bool,
    pub s3b: bool,
    pub inputs: Vec<SessionInputSpec>,
    pub outputs: Vec<SessionOutputSpec>,
    pub pipeline: PipelineSpec,
    pub template_name: Option<String>,
}

#[verifier::ext_equal]
pub struct RouteSettingsModel {
    pub log_dir: Seq<char>,
    pub logging_enabled: bool,
    pub s3b: bool,
    pub inputs: Seq<InputSpecModel>,
    pub outputs: Seq<OutputSpecModel>,
    pub pipeline: Seq<PipelineModel>,
    pub template_name: Option<Seq<char>>,
}

impl DeepView for RouteSettings {
    type V = RouteSettingsModel;

    open spec fn deep_view(&self) -> RouteSettingsModel {
        RouteSettingsModel {
            log_dir: self.log_dir@,
            logging_enabled: self.logging_enabled,
            s3b: self.s3b,
            inputs: self.inputs.deep_view(),
            outputs: self.outputs.deep_view(),
            pipeline: self.pipeline.deep_view(),
            template_name: self.template_name.deep_view(),
        }
    }
}

/// The settings that options give with the ports that were found for inputs and outputs.
pub open spec fn route_settings(
    o: RouteOptionsModel,
    input_ports: Seq<Lookup>,
    output_ports: Seq<Lookup>,
    current_dir: Option<Seq<char>>,
) -> Result<RouteSettingsModel, Seq<char>> {
    let baud = default_baud_of(o.baud);
    match (
        route_inputs(o.inputs, input_ports, baud, o.display),
        route_outputs(o.outputs, output_ports, baud, o.display),
    ) {
        (Err(e), _) => Err(e),
        (Ok(_), Err(e)) => Err(e),
        (Ok(inputs), Ok(outputs)) => match template_pipelines(
            o.template,
            input_ids(inputs),
            output_ids(outputs),
        ) {
            Err(e) => Err(e),
            Ok(pipelines) => match normalized(
                pipelines,
                input_ids(inputs),
                output_ids(outputs),
            ) {
                Err(e) => Err(e),
                Ok(pipeline) => Ok(
                    RouteSettingsModel {
                        log_dir: log_dir_of(o.log_dir, current_dir),
                        logging_enabled: !o.no_log,
                        s3b: o.s3b,
                        inputs,
                        outputs,
                        pipeline,
                        template_name: o.template,
                    },
                ),
            },
        },
    }
}

pub fn build_settings(
    options: RouteCliOptions,
    input_ports: &Vec<Result<String, String>>,
    output_ports: &Vec<Result<String, String>>,
    current_dir: Option<&str>,
) -> (r: Result<RouteSettings, String>)
    requires
        input_ports.len() == options.inputs.len(),
        output_ports.len() == options.outputs.len(),
    ensures
        viewed(r) == route_settings(
            options.deep_view(),
            lookups(input_ports@),
            lookups(output_ports@),
            current_dir.deep_view(),
        ),
{
    let default_baud: u32 = match options.baud {
        Some(baud) => baud,
        None => default_baud_rate(),
    };
    let inputs = normalize_inputs(&options.inputs, input_ports, default_baud, &options.display)?;
    let outputs = normalize_outputs(
        &options.outputs,
        output_ports,
        default_baud,
        &options.display,
    )?;
    let given = match &options.template {
        Some(name) => resolve_pipeline_spec(Some(name.as_str()), &inputs, &outputs)?,
        None => resolve_pipeline_spec(None, &inputs, &outputs)?,
    };
    let pipeline = normalize_pipeline_spec(given, &inputs, &outputs)?;
    let log_dir = resolve_log_dir(&options.log_dir, current_dir);
    Ok(
        RouteSettings {
            log_dir,
            logging_enabled: !options.no_log,
            s3b: options.s3b,
            inputs,
            outputs,
            pipeline,
            template_name: options.template,
        },
    )
}

// ---------------------------------------------------------------------------
// Header
// ---------------------------------------------------------------------------

/// The inputs of all pipelines, one pipeline after the other.
pub open spec fn all_inputs(pipelines: Seq<PipelineModel>) -> Seq<Seq<char>>
    decreases pipelines.len(),
{
    if pipelines.len() == 0 {
        seq![]
    } else {
        all_inputs(pipelines.drop_last()) + pipelines.last().inputs
    }
}

pub open spec fn pipeline_ids(pipelines: Seq<PipelineModel>) -> Seq<Seq<char>> {
    pipelines.map_values(|d: PipelineModel| d.id)
}

/// The line that tells where the log goes.
pub open spec fn log_line(logging_enabled: bool, path: Seq<char>) -> Seq<char> {
    if logging_enabled {
        "log: "@ + path
    } else {
        "log: disabled (--no-log)"@
    }
}

pub fn format_log_line(logging_enabled: bool, path: &str) -> (r: String)
    ensures
        r@ == log_line(logging_enabled, path@),
{
    if logging_enabled {
        cat2("log: ", path)
    } else {
        "log: disabled (--no-log)".to_owned()
    }
}

/// The lines above the display of a route.
pub open spec fn route_header(s: RouteSettingsModel, log_path: Seq<char>) -> Seq<Seq<char>> {
    seq![
        "inputs: "@ + joined(all_inputs(s.pipeline), ", "@),
        "outputs: "@ + joined(all_outputs(s.pipeline), ", "@),
    ] + (match s.template_name {
        Some(name) => seq!["template: "@ + name],
        None => seq![],
    }) + seq![
        "pipelines: "@ + joined(pipeline_ids(s.pipeline), ", "@),
        log_line(s.logging_enabled, log_path),
        "Space で表示を一時停止/再開  Ctrl-C で終了"@,
    ]
}

fn pipeline_names(pipeline: &PipelineSpec) -> (r: (Vec<String>, Vec<String>))
    ensures
        r.0.deep_view() == all_inputs(pipeline.deep_view()),
        r.1.deep_view() == pipeline_ids(pipeline.deep_view()),
{
    let ghost all = pipeline.deep_view();
    let mut inputs: Vec<String> = Vec::new();
    let mut ids: Vec<String> = Vec::new();
    let mut i: usize = 0;
    assert(all.take(0) =~= Seq::<PipelineModel>::empty());
    assert(inputs.deep_view() =~= Seq::<Seq<char>>::empty());
    assert(ids.deep_view() =~= pipeline_ids(all.take(0)));
    while i < pipeline.pipelines.len()
        invariant
            i <= pipeline.pipelines.len(),
            all == pipeline.deep_view(),
            inputs.deep_view() == all_inputs(all.take(i as int)),
            ids.deep_view() == pipeline_ids(all.take(i as int)),
        decreases pipeline.pipelines.len() - i,
    {
        let ghost d = pipeline.pipelines@[i as int].deep_view();
        let ghost before = inputs.deep_view();
        let ghost before_ids = ids.deep_view();
        proof {
            assert(all.take(i + 1).drop_last() == all.take(i as int));
            assert(all.take(i + 1).last() == d);
        }
        let mut more = copy_texts(&pipeline.pipelines[i].inputs);
        let ghost added = more.deep_view();
        inputs.append(&mut more);
        assert(inputs.deep_view() =~= before + added);
        ids.push(pipeline.pipelines[i].id.clone());
        proof {
            assert(ids.deep_view() =~= before_ids.push(d.id));
            assert(pipeline_ids(all.take(i + 1)) =~= before_ids.push(d.id));
        }
        i += 1;
    }
    assert(all.take(i as int) == all);
    (inputs, ids)
}

pub fn route_header_lines(settings: &RouteSettings, log_path: &str) -> (r: Vec<String>)
    ensures
        r.deep_view() == route_header(settings.deep_view(), log_path@),
{
    let (inputs, ids) = pipeline_names(&settings.pipeline);
    let outputs = collect_pipeline_outputs(&settings.pipeline);
    proof {
        assert(texts(inputs@) =~= inputs.deep_view());
        assert(texts(outputs@) =~= outputs.deep_view());
        assert(texts(ids@) =~= ids.deep_view());
    }
    let mut lines: Vec<String> = Vec::new();
    lines.push(cat2("inputs: ", join(&inputs, ", ").as_str()));
    lines.push(cat2("outputs: ", join(&outputs, ", ").as_str()));
    if let Some(name) = &settings.template_name {
        lines.push(cat2("template: ", name.as_str()));
    }
    lines.push(cat2("pipelines: ", join(&ids, ", ").as_str()));
    lines.push(format_log_line(settings.logging_enabled, log_path));
    lines.push("Space で表示を一時停止/再開  Ctrl-C で終了".to_owned());
    assert(lines.deep_view() =~= route_header(settings.deep_view(), log_path@));
    lines
}

} // verus!

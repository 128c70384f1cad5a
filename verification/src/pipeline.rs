//! Pipelines: how frames go from inputs through filter, transform and classification to outputs.
use crate::format::OutputFormat;
use crate::merge::{all_placed, merge_keyed, Keyed};
use crate::table::Table;
use vstd::prelude::*;

verus! {

#[derive(Debug)]
pub enum FilterModuleConfig {
    AllowAll,
    DropEmpty,
    MatchSource { input_ids: Vec<String> },
    MatchPrefix { prefix: Vec<u8> },
}

#[verifier::ext_equal]
pub enum FilterModel {
    AllowAll,
    DropEmpty,
    MatchSource { input_ids: Seq<Seq<char>> },
    MatchPrefix { prefix: Seq<u8> },
}

impl DeepView for FilterModuleConfig {
    type V = FilterModel;

    open spec fn deep_view(&self) -> FilterModel {
        match self {
            FilterModuleConfig::AllowAll => FilterModel::AllowAll,
            FilterModuleConfig::DropEmpty => FilterModel::DropEmpty,
            FilterModuleConfig::MatchSource { input_ids } => FilterModel::MatchSource {
                input_ids: input_ids.deep_view(),
            },
            FilterModuleConfig::MatchPrefix { prefix } => FilterModel::MatchPrefix {
                prefix: prefix@,
            },
        }
    }
}

#[derive(Debug)]
pub enum TransformModuleConfig {
    Identity,
    Ds4ToCompact,
    OutputEncode { format: OutputFormat },
    JoinLatest { separator: Vec<u8>, require_all: bool },
}

#[verifier::ext_equal]
pub enum TransformModel {
    Identity,
    Ds4ToCompact,
    OutputEncode { format: OutputFormat },
    JoinLatest { separator: Seq<u8>, require_all: bool },
}

impl DeepView for TransformModuleConfig {
    type V = TransformModel;

    open spec fn deep_view(&self) -> TransformModel {
        match self {
            TransformModuleConfig::Identity => TransformModel::Identity,
            TransformModuleConfig::Ds4ToCompact => TransformModel::Ds4ToCompact,
            TransformModuleConfig::OutputEncode { format } => TransformModel::OutputEncode {
                format: *format,
            },
            TransformModuleConfig::JoinLatest { separator, require_all } =>
                TransformModel::JoinLatest { separator: separator@, require_all: *require_all },
        }
    }
}

#[derive(Debug)]
pub struct TransformChainConfig {
    pub modules: Vec<TransformModuleConfig>,
}

impl DeepView for TransformChainConfig {
    type V = Seq<TransformModel>;

    open spec fn deep_view(&self) -> Seq<TransformModel> {
        self.modules.deep_view()
    }
}

impl Default for TransformChainConfig {
    fn default() -> (chain: TransformChainConfig)
        ensures
            chain.deep_view() == Seq::<TransformModel>::empty(),
    {
        let chain = TransformChainConfig { modules: Vec::new() };
        assert(chain.deep_view() =~= Seq::<TransformModel>::empty());
        chain
    }
}

#[derive(Debug)]
pub enum ClassifyModuleConfig {
    Unclassified,
    BySource,
    TagStatic { tags: Vec<String> },
    MatchPrefix { prefix: Vec<u8>, tag: String },
}

#[verifier::ext_equal]
pub enum ClassifyModel {
    Unclassified,
    BySource,
    TagStatic { tags: Seq<Seq<char>> },
    MatchPrefix { prefix: Seq<u8>, tag: Seq<char> },
}

impl DeepView for ClassifyModuleConfig {
    type V = ClassifyModel;

    open spec fn deep_view(&self) -> ClassifyModel {
        match self {
            ClassifyModuleConfig::Unclassified => ClassifyModel::Unclassified,
            ClassifyModuleConfig::BySource => ClassifyModel::BySource,
            ClassifyModuleConfig::TagStatic { tags } => ClassifyModel::TagStatic {
                tags: tags.deep_view(),
            },
            ClassifyModuleConfig::MatchPrefix { prefix, tag } => ClassifyModel::MatchPrefix {
                prefix: prefix@,
                tag: tag@,
            },
        }
    }
}

#[derive(Debug)]
pub struct TagRoutingRule {
    pub tag: String,
    pub outputs: Vec<String>,
}

impl DeepView for TagRoutingRule {
    type V = (Seq<char>, Seq<Seq<char>>);

    open spec fn deep_view(&self) -> (Seq<char>, Seq<Seq<char>>) {
        (self.tag@, self.outputs.deep_view())
    }
}

/// Outputs under the names of inputs or tags.
pub type RouteTable = Seq<(Seq<char>, Seq<Seq<char>>)>;

#[allow(inconsistent_fields)]
#[derive(Debug)]
pub enum RouterModuleConfig {
    Broadcast { outputs: Vec<String> },
    RoundRobin { outputs: Vec<String> },
    SourceMap { routes: Table<Vec<String>>, default_outputs: Vec<String> },
    TagBased { routes: Vec<TagRoutingRule>, default_outputs: Vec<String> },
}

#[verifier::ext_equal]
pub enum RouterModel {
    Broadcast { outputs: Seq<Seq<char>> },
    RoundRobin { outputs: Seq<Seq<char>> },
    SourceMap { routes: RouteTable, default_outputs: Seq<Seq<char>> },
    TagBased { routes: RouteTable, default_outputs: Seq<Seq<char>> },
}

impl DeepView for RouterModuleConfig {
    type V = RouterModel;

    open spec fn deep_view(&self) -> RouterModel {
        match self {
            RouterModuleConfig::Broadcast { outputs } => RouterModel::Broadcast {
                outputs: outputs.deep_view(),
            },
            RouterModuleConfig::RoundRobin { outputs } => RouterModel::RoundRobin {
                outputs: outputs.deep_view(),
            },
            RouterModuleConfig::SourceMap { routes, default_outputs } => RouterModel::SourceMap {
                routes: routes.deep_view(),
                default_outputs: default_outputs.deep_view(),
            },
            RouterModuleConfig::TagBased { routes, default_outputs } => RouterModel::TagBased {
                routes: routes.deep_view(),
                default_outputs: default_outputs.deep_view(),
            },
        }
    }
}

#[derive(Debug)]
pub struct PipelineDefinition {
    pub id: String,
    pub inputs: Vec<String>,
    pub filter: FilterModuleConfig,
    pub transform: TransformChainConfig,
    pub classify: ClassifyModuleConfig,
    pub router: RouterModuleConfig,
}

#[verifier::ext_equal]
pub struct PipelineModel {
    pub id: Seq<char>,
    pub inputs: Seq<Seq<char>>,
    pub filter: FilterModel,
    pub transform: Seq<TransformModel>,
    pub classify: ClassifyModel,
    pub router: RouterModel,
}

impl DeepView for PipelineDefinition {
    type V = PipelineModel;

    open spec fn deep_view(&self) -> PipelineModel {
        PipelineModel {
            id: self.id@,
            inputs: self.inputs.deep_view(),
            filter: self.filter.deep_view(),
            transform: self.transform.deep_view(),
            classify: self.classify.deep_view(),
            router: self.router.deep_view(),
        }
    }
}

impl Keyed for PipelineDefinition {
    open spec fn key_of(m: PipelineModel) -> Seq<char> {
        m.id
    }

    fn key(&self) -> (key: &str) {
        self.id.as_str()
    }
}

/// Pipelines, each with its own id.
#[derive(Debug)]
pub struct PipelineSpec {
    pub pipelines: Vec<PipelineDefinition>,
}

impl DeepView for PipelineSpec {
    type V = Seq<PipelineModel>;

    open spec fn deep_view(&self) -> Seq<PipelineModel> {
        self.pipelines.deep_view()
    }
}

impl Default for PipelineSpec {
    fn default() -> (spec: PipelineSpec)
        ensures
            spec.deep_view() == Seq::<PipelineModel>::empty(),
    {
        let spec = PipelineSpec { pipelines: Vec::new() };
        assert(spec.deep_view() =~= Seq::<PipelineModel>::empty());
        spec
    }
}

impl PipelineSpec {
    /// Takes pipelines over; one with the id of another replaces it.
    pub fn merge_from(&mut self, other: PipelineSpec)
        ensures
            final(self).deep_view() == all_placed::<PipelineDefinition>(
                old(self).deep_view(),
                other.deep_view(),
            ),
    {
        merge_keyed(&mut self.pipelines, other.pipelines);
    }
}

} // verus!

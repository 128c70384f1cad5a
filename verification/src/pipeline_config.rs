//! Reading pipelines out of JSON values.
use crate::args::{applied, collected, lemma_applied_error};
use crate::format::{parsed_format, OutputFormat};
use crate::json::{hex_digit_value, hex_value, json_model, JsonModel, JsonValue};
use crate::pipeline::{
    ClassifyModel, ClassifyModuleConfig, FilterModel, FilterModuleConfig, PipelineDefinition,
    PipelineModel, PipelineSpec, RouteTable, RouterModel, RouterModuleConfig, TagRoutingRule,
    TransformChainConfig, TransformModel, TransformModuleConfig,
};
use crate::settings::{
    array_of, bool_member, expect_array, expect_object, json_string_list, object_of, optional_bool,
    optional_string, optional_string_list, read_all, reader, required_member, required_string,
    string_list, string_list_member, string_member, JsonObject, ObjectModel, Setting,
};
use crate::table::{entries, find_entry, found, inserted, Table};
use crate::text::{cat2, chars_of, is_white, is_white_char, same, viewed};
use vstd::prelude::*;

verus! {

// ---------------------------------------------------------------------------
// Bytes in hexadecimal
// ---------------------------------------------------------------------------

/// The byte that two characters denote; a sign may stand in the place of the first digit.
pub open spec fn hex_pair(a: char, b: char) -> Option<u8> {
    match (hex_digit_value(a), hex_digit_value(b)) {
        (Some(high), Some(low)) => Some((high * 16 + low) as u8),
        (None, Some(low)) => if a == '+' {
            Some(low as u8)
        } else {
            None
        },
        _ => None,
    }
}

fn parse_hex_pair(a: char, b: char) -> (r: Option<u8>)
    ensures
        r == hex_pair(a, b),
{
    match hex_value(b) {
        None => None,
        Some(low) => match hex_value(a) {
            Some(high) => Some((high * 16 + low) as u8),
            None => if a == '+' {
                Some(low as u8)
            } else {
                None
            },
        },
    }
}

/// The characters that are no white space.
pub open spec fn compact(s: Seq<char>) -> Seq<char> {
    s.filter(|c: char| !is_white(c))
}

fn compacted(s: &str) -> (r: Vec<char>)
    ensures
        r@ == compact(s@),
{
    let chars = chars_of(s);
    let ghost keep = |c: char| !is_white(c);
    let mut out: Vec<char> = Vec::new();
    let mut i: usize = 0;
    proof {
        reveal(Seq::filter);
        assert(chars@.take(0) == Seq::<char>::empty());
    }
    while i < chars.len()
        invariant
            i <= chars.len(),
            keep == (|c: char| !is_white(c)),
            out@ == chars@.take(i as int).filter(keep),
        decreases chars.len() - i,
    {
        proof {
            reveal(Seq::filter);
            assert(chars@.take(i + 1).drop_last() == chars@.take(i as int));
            assert(chars@.take(i + 1).last() == chars@[i as int]);
        }
        if !is_white_char(chars[i]) {
            out.push(chars[i]);
        }
        i += 1;
    }
    assert(chars@.take(i as int) == chars@);
    out
}

/// The bytes that pairs of hexadecimal digits denote, with white space anywhere between.
pub open spec fn hex_bytes_named(value: Seq<char>) -> Result<Seq<u8>, Seq<char>> {
    let c = compact(value);
    if c.len() % 2 == 0 && (forall|i: int|
        0 <= i < c.len() / 2 ==> (#[trigger] byte_at(c, i)) is Some) {
        Ok(Seq::new(c.len() / 2, |i: int| byte_at(c, i).unwrap()))
    } else {
        Err("invalid hex byte string: "@ + value)
    }
}

/// The byte that the `i`th pair of characters denotes.
pub open spec fn byte_at(c: Seq<char>, i: int) -> Option<u8> {
    hex_pair(c[2 * i], c[2 * i + 1])
}

pub fn parse_hex_bytes(value: &str) -> (r: Result<Vec<u8>, String>)
    ensures
        match r {
            Ok(bytes) => hex_bytes_named(value@) == Ok::<Seq<u8>, Seq<char>>(bytes@),
            Err(e) => hex_bytes_named(value@) == Err::<Seq<u8>, Seq<char>>(e@),
        },
{
    let c = compacted(value);
    let mut bytes: Vec<u8> = Vec::new();
    if c.len() % 2 != 0 {
        return Err(cat2("invalid hex byte string: ", value));
    }
    let mut i: usize = 0;
    while i < c.len() / 2
        invariant
            c@ == compact(value@),
            c.len() % 2 == 0,
            i <= c.len() / 2,
            bytes.len() == i,
            forall|k: int|
                0 <= k < i ==> (#[trigger] byte_at(c@, k)) == Some(bytes@[k]),
        decreases c.len() / 2 - i,
    {
        assert(byte_at(c@, i as int) == hex_pair(c@[2 * i as int], c@[2 * i as int + 1]));
        match parse_hex_pair(c[2 * i], c[2 * i + 1]) {
            Some(byte) => {
                bytes.push(byte);
            },
            None => {
                return Err(cat2("invalid hex byte string: ", value));
            },
        }
        i += 1;
    }
    assert(bytes@ =~= Seq::new(
        (c@.len() / 2) as nat,
        |k: int| byte_at(c@, k).unwrap(),
    ));
    Ok(bytes)
}

// ---------------------------------------------------------------------------
// Modules
// ---------------------------------------------------------------------------

/// An object and the name of the module that it sets up.
pub open spec fn module_of(v: JsonModel, name: Seq<char>) -> Result<
    (ObjectModel, Seq<char>),
    Seq<char>,
> {
    match object_of(v, name) {
        Err(e) => Err(e),
        Ok(o) => match required_member(o, "module"@) {
            Err(e) => Err(e),
            Ok(module) => Ok((o, module)),
        },
    }
}

fn expect_module<'a>(value: &'a JsonValue, name: &str) -> (r: Result<
    (&'a JsonObject, String),
    String,
>)
    ensures
        match r {
            Ok((object, module)) => module_of(value.deep_view(), name@) == Ok::<
                (ObjectModel, Seq<char>),
                Seq<char>,
            >((entries(object@), module@)),
            Err(e) => module_of(value.deep_view(), name@) == Err::<
                (ObjectModel, Seq<char>),
                Seq<char>,
            >(e@),
        },
{
    let object = expect_object(value, name)?;
    let module = required_string(object, "module")?;
    Ok((object, module))
}

pub open spec fn filter_module(v: Option<JsonModel>) -> Result<FilterModel, Seq<char>> {
    match v {
        None => Ok(FilterModel::AllowAll),
        Some(v) => match module_of(v, "filter"@) {
            Err(e) => Err(e),
            Ok((o, module)) => if module == "allow_all"@ {
                Ok(FilterModel::AllowAll)
            } else if module == "drop_empty"@ {
                Ok(FilterModel::DropEmpty)
            } else if module == "match_source"@ {
                match string_list_member(o, "input_ids"@) {
                    Err(e) => Err(e),
                    Ok(input_ids) => Ok(FilterModel::MatchSource { input_ids }),
                }
            } else if module == "match_prefix"@ {
                match prefix_member(o) {
                    Err(e) => Err(e),
                    Ok(prefix) => Ok(FilterModel::MatchPrefix { prefix }),
                }
            } else {
                Err("unsupported filter module: "@ + module)
            },
        },
    }
}

/// The bytes under `prefix_hex`.
pub open spec fn prefix_member(o: ObjectModel) -> Result<Seq<u8>, Seq<char>> {
    match required_member(o, "prefix_hex"@) {
        Err(e) => Err(e),
        Ok(text) => hex_bytes_named(text),
    }
}

fn required_prefix(object: &JsonObject) -> (r: Result<Vec<u8>, String>)
    ensures
        match r {
            Ok(bytes) => prefix_member(entries(object@)) == Ok::<Seq<u8>, Seq<char>>(bytes@),
            Err(e) => prefix_member(entries(object@)) == Err::<Seq<u8>, Seq<char>>(e@),
        },
{
    let text = required_string(object, "prefix_hex")?;
    parse_hex_bytes(text.as_str())
}

pub fn parse_filter_module(value: Option<&JsonValue>) -> (r: Result<FilterModuleConfig, String>)
    ensures
        viewed(r) == filter_module(value.deep_view()),
{
    let value = match value {
        None => {
            return Ok(FilterModuleConfig::AllowAll);
        },
        Some(value) => value,
    };
    let (object, module) = expect_module(value, "filter")?;
    let name = module.as_str();
    if same(name, "allow_all") {
        Ok(FilterModuleConfig::AllowAll)
    } else if same(name, "drop_empty") {
        Ok(FilterModuleConfig::DropEmpty)
    } else if same(name, "match_source") {
        let input_ids = optional_string_list(object, "input_ids")?;
        Ok(FilterModuleConfig::MatchSource { input_ids })
    } else if same(name, "match_prefix") {
        let prefix = required_prefix(object)?;
        Ok(FilterModuleConfig::MatchPrefix { prefix })
    } else {
        Err(cat2("unsupported filter module: ", name))
    }
}

pub open spec fn transform_module(v: JsonModel) -> Result<TransformModel, Seq<char>> {
    match module_of(v, "transform module"@) {
        Err(e) => Err(e),
        Ok((o, module)) => if module == "identity"@ {
            Ok(TransformModel::Identity)
        } else if module == "ds4_to_compact"@ {
            Ok(TransformModel::Ds4ToCompact)
        } else if module == "output_encode"@ {
            match format_member(o) {
                Err(e) => Err(e),
                Ok(format) => Ok(TransformModel::OutputEncode { format }),
            }
        } else if module == "packetacv6_encode"@ {
            Ok(TransformModel::OutputEncode { format: OutputFormat::PacketAcV6 })
        } else if module == "join_latest"@ {
            join_latest(o)
        } else {
            Err("unsupported transform module: "@ + module)
        },
    }
}

/// The format under `format`.
pub open spec fn format_member(o: ObjectModel) -> Result<OutputFormat, Seq<char>> {
    match required_member(o, "format"@) {
        Err(e) => Err(e),
        Ok(name) => parsed_format(name),
    }
}

/// Joining the latest frames: by default with nothing between them, and only once all are there.
pub open spec fn join_latest(o: ObjectModel) -> Result<TransformModel, Seq<char>> {
    match string_member(o, "separator_hex"@) {
        Err(e) => Err(e),
        Ok(text) => match hex_bytes_named(
            if text is Some {
                text.unwrap()
            } else {
                Seq::empty()
            },
        ) {
            Err(e) => Err(e),
            Ok(separator) => match bool_member(o, "require_all"@) {
                Err(e) => Err(e),
                Ok(require_all) => Ok(
                    TransformModel::JoinLatest { separator, require_all: require_all != Some(false) },
                ),
            },
        },
    }
}

fn parse_join_latest(object: &JsonObject) -> (r: Result<TransformModuleConfig, String>)
    ensures
        viewed(r) == join_latest(entries(object@)),
{
    let text = match optional_string(object, "separator_hex")? {
        Some(text) => text,
        None => String::new(),
    };
    let separator = parse_hex_bytes(text.as_str())?;
    let require_all = match optional_bool(object, "require_all")? {
        Some(require_all) => require_all,
        None => true,
    };
    Ok(TransformModuleConfig::JoinLatest { separator, require_all })
}

pub fn parse_transform_module(value: &JsonValue) -> (r: Result<TransformModuleConfig, String>)
    ensures
        viewed(r) == transform_module(value.deep_view()),
{
    let (object, module) = expect_module(value, "transform module")?;
    let name = module.as_str();
    if same(name, "identity") {
        Ok(TransformModuleConfig::Identity)
    } else if same(name, "ds4_to_compact") {
        Ok(TransformModuleConfig::Ds4ToCompact)
    } else if same(name, "output_encode") {
        let format_name = required_string(object, "format")?;
        let format = OutputFormat::parse(format_name.as_str())?;
        Ok(TransformModuleConfig::OutputEncode { format })
    } else if same(name, "packetacv6_encode") {
        Ok(TransformModuleConfig::OutputEncode { format: OutputFormat::PacketAcV6 })
    } else if same(name, "join_latest") {
        parse_join_latest(object)
    } else {
        Err(cat2("unsupported transform module: ", name))
    }
}

impl Setting for TransformModuleConfig {
    open spec fn reading(v: JsonModel, key: Seq<char>) -> Result<
        Option<TransformModel>,
        Seq<char>,
    > {
        match transform_module(v) {
            Err(e) => Err(e),
            Ok(module) => Ok(Some(module)),
        }
    }

    fn read(value: &JsonValue, key: &str) -> (r: Result<Option<TransformModuleConfig>, String>) {
        let module = parse_transform_module(value)?;
        Ok(Some(module))
    }
}

/// One transform module, or several of them under `modules`.
pub open spec fn transform_chain(v: Option<JsonModel>) -> Result<Seq<TransformModel>, Seq<char>> {
    match v {
        None => Ok(seq![]),
        Some(v) => match object_of(v, "transform"@) {
            Err(e) => Err(e),
            Ok(o) => match found(o, "modules"@) {
                Some(modules) => match array_of(modules, "transform.modules"@) {
                    Err(e) => Err(e),
                    Ok(values) => collected(
                        reader::<TransformModuleConfig>("transform.modules"@),
                        values,
                    ),
                },
                None => match transform_module(v) {
                    Err(e) => Err(e),
                    Ok(module) => Ok(seq![module]),
                },
            },
        },
    }
}

pub fn parse_transform_chain(value: Option<&JsonValue>) -> (r: Result<TransformChainConfig, String>)
    ensures
        viewed(r) == transform_chain(value.deep_view()),
{
    let value = match value {
        None => {
            return Ok(TransformChainConfig::default());
        },
        Some(value) => value,
    };
    let object = expect_object(value, "transform")?;
    if let Some(modules_value) = find_entry(object, "modules") {
        let values = expect_array(modules_value, "transform.modules")?;
        let modules: Vec<TransformModuleConfig> = read_all(values, "transform.modules")?;
        return Ok(TransformChainConfig { modules });
    }
    let module = parse_transform_module(value)?;
    let mut modules: Vec<TransformModuleConfig> = Vec::new();
    let ghost m = module.deep_view();
    modules.push(module);
    assert(modules.deep_view() =~= seq![m]);
    Ok(TransformChainConfig { modules })
}

pub open spec fn classify_module(v: Option<JsonModel>) -> Result<ClassifyModel, Seq<char>> {
    match v {
        None => Ok(ClassifyModel::Unclassified),
        Some(v) => match module_of(v, "classify"@) {
            Err(e) => Err(e),
            Ok((o, module)) => if module == "none"@ {
                Ok(ClassifyModel::Unclassified)
            } else if module == "by_source"@ {
                Ok(ClassifyModel::BySource)
            } else if module == "tag_static"@ {
                match string_list_member(o, "tags"@) {
                    Err(e) => Err(e),
                    Ok(tags) => Ok(ClassifyModel::TagStatic { tags }),
                }
            } else if module == "match_prefix"@ {
                match (prefix_member(o), required_member(o, "tag"@)) {
                    (Err(e), _) => Err(e),
                    (Ok(_), Err(e)) => Err(e),
                    (Ok(prefix), Ok(tag)) => Ok(ClassifyModel::MatchPrefix { prefix, tag }),
                }
            } else {
                Err("unsupported classify module: "@ + module)
            },
        },
    }
}

pub fn parse_classify_module(value: Option<&JsonValue>) -> (r: Result<ClassifyModuleConfig, String>)
    ensures
        viewed(r) == classify_module(value.deep_view()),
{
    let value = match value {
        None => {
            return Ok(ClassifyModuleConfig::Unclassified);
        },
        Some(value) => value,
    };
    let (object, module) = expect_module(value, "classify")?;
    let name = module.as_str();
    if same(name, "none") {
        Ok(ClassifyModuleConfig::Unclassified)
    } else if same(name, "by_source") {
        Ok(ClassifyModuleConfig::BySource)
    } else if same(name, "tag_static") {
        let tags = optional_string_list(object, "tags")?;
        Ok(ClassifyModuleConfig::TagStatic { tags })
    } else if same(name, "match_prefix") {
        let prefix = required_prefix(object)?;
        let tag = required_string(object, "tag")?;
        Ok(ClassifyModuleConfig::MatchPrefix { prefix, tag })
    } else {
        Err(cat2("unsupported classify module: ", name))
    }
}

// ---------------------------------------------------------------------------
// Routers
// ---------------------------------------------------------------------------

pub open spec fn output_map_step(name: Seq<char>) -> spec_fn(
    RouteTable,
    (Seq<char>, JsonModel),
) -> Result<RouteTable, Seq<char>> {
    |routes: RouteTable, entry: (Seq<char>, JsonModel)|
        match string_list(entry.1, name) {
            Err(e) => Err(e),
            Ok(outputs) => Ok(inserted(routes, entry.0, outputs)),
        }
}

/// The outputs under each key of an object.
pub open spec fn output_map(v: Option<JsonModel>, name: Seq<char>) -> Result<
    RouteTable,
    Seq<char>,
> {
    match v {
        None => Ok(seq![]),
        Some(v) => match object_of(v, name) {
            Err(e) => Err(e),
            Ok(o) => applied(output_map_step(name), Seq::empty(), o),
        },
    }
}

pub fn parse_output_map(value: Option<&JsonValue>, name: &str) -> (r: Result<
    Table<Vec<String>>,
    String,
>)
    ensures
        viewed(r) == output_map(value.deep_view(), name@),
{
    match value {
        None => Ok(Table::new()),
        Some(value) => read_output_map(value, name),
    }
}

fn read_output_map(value: &JsonValue, name: &str) -> (r: Result<Table<Vec<String>>, String>)
    ensures
        viewed(r) == output_map(Some(value.deep_view()), name@),
{
    let mut routes: Table<Vec<String>> = Table::new();
    let object = expect_object(value, name)?;
    let ghost all = entries(object@);
    let ghost step = output_map_step(name@);
    let ghost outcome = output_map(Some(value.deep_view()), name@);
    let mut i: usize = 0;
    assert(all.take(0) == Seq::<(Seq<char>, JsonModel)>::empty());
    while i < object.len()
        invariant
            i <= object.len(),
            all == entries(object@),
            step == output_map_step(name@),
            outcome == applied(step, Seq::empty(), all),
            outcome == output_map(Some(value.deep_view()), name@),
            applied(step, Seq::empty(), all.take(i as int)) == Ok::<RouteTable, Seq<char>>(
                routes.deep_view(),
            ),
        decreases object.len() - i,
    {
        proof {
            assert(all.take(i + 1).drop_last() == all.take(i as int));
            assert(all.take(i + 1).last() == all[i as int]);
            assert(all[i as int] == (object@[i as int].0@, json_model(object@[i as int].1)));
        }
        match json_string_list(&object[i].1, name) {
            Ok(outputs) => {
                routes.insert(object[i].0.clone(), outputs);
            },
            Err(e) => {
                proof {
                    lemma_applied_error(step, Seq::empty(), all, i + 1, e@);
                }
                return Err(e);
            },
        }
        i += 1;
    }
    assert(all.take(i as int) == all);
    Ok(routes)
}

pub fn parse_tag_routes(value: Option<&JsonValue>, name: &str) -> (r: Result<
    Vec<TagRoutingRule>,
    String,
>)
    ensures
        viewed(r) == output_map(value.deep_view(), name@),
{
    let mut map = parse_output_map(value, name)?;
    let ghost all = map.deep_view();
    let ghost mut done: int = 0;
    let mut rules: Vec<TagRoutingRule> = Vec::new();
    assert(rules.deep_view() =~= all.take(0));
    assert(all.skip(0) == all);
    while map.len() > 0
        invariant
            0 <= done <= all.len(),
            map.deep_view() == all.skip(done),
            rules.deep_view() == all.take(done),
        decreases map.deep_view().len(),
    {
        let ghost rest = map.deep_view();
        match map.pop_first() {
            Some((tag, outputs)) => {
                let ghost before = rules.deep_view();
                let rule = TagRoutingRule { tag, outputs };
                let ghost m = rule.deep_view();
                rules.push(rule);
                proof {
                    assert(rules.deep_view() =~= before.push(m));
                    assert(rest[0] == all[done]);
                    assert(all.take(done + 1) =~= before.push(m));
                    assert(all.skip(done).skip(1) =~= all.skip(done + 1));
                    done = done + 1;
                }
            },
            None => {},
        }
    }
    assert(all.take(done) == all);
    Ok(rules)
}

pub open spec fn router_module(v: Option<JsonModel>) -> Result<RouterModel, Seq<char>> {
    match v {
        None => Err("`route` module is required for every pipeline"@),
        Some(v) => match module_of(v, "route"@) {
            Err(e) => Err(e),
            Ok((o, module)) => if module == "broadcast"@ {
                match string_list_member(o, "outputs"@) {
                    Err(e) => Err(e),
                    Ok(outputs) => Ok(RouterModel::Broadcast { outputs }),
                }
            } else if module == "round_robin"@ || module == "alternate"@ {
                match string_list_member(o, "outputs"@) {
                    Err(e) => Err(e),
                    Ok(outputs) => Ok(RouterModel::RoundRobin { outputs }),
                }
            } else if module == "source_map"@ {
                match routes_members(o) {
                    Err(e) => Err(e),
                    Ok((routes, default_outputs)) => Ok(
                        RouterModel::SourceMap { routes, default_outputs },
                    ),
                }
            } else if module == "tag_based"@ {
                match routes_members(o) {
                    Err(e) => Err(e),
                    Ok((routes, default_outputs)) => Ok(
                        RouterModel::TagBased { routes, default_outputs },
                    ),
                }
            } else {
                Err("unsupported route module: "@ + module)
            },
        },
    }
}

/// The outputs under `routes` and those under `default_outputs`.
pub open spec fn routes_members(o: ObjectModel) -> Result<
    (RouteTable, Seq<Seq<char>>),
    Seq<char>,
> {
    match (output_map(found(o, "routes"@), "route.routes"@), string_list_member(
        o,
        "default_outputs"@,
    )) {
        (Err(e), _) => Err(e),
        (Ok(_), Err(e)) => Err(e),
        (Ok(routes), Ok(default_outputs)) => Ok((routes, default_outputs)),
    }
}

pub fn parse_router_module(value: Option<&JsonValue>) -> (r: Result<RouterModuleConfig, String>)
    ensures
        viewed(r) == router_module(value.deep_view()),
{
    let value = match value {
        None => {
            return Err("`route` module is required for every pipeline".to_owned());
        },
        Some(value) => value,
    };
    let (object, module) = expect_module(value, "route")?;
    let name = module.as_str();
    if same(name, "broadcast") {
        let outputs = optional_string_list(object, "outputs")?;
        Ok(RouterModuleConfig::Broadcast { outputs })
    } else if same(name, "round_robin") || same(name, "alternate") {
        let outputs = optional_string_list(object, "outputs")?;
        Ok(RouterModuleConfig::RoundRobin { outputs })
    } else if same(name, "source_map") {
        let routes = parse_output_map(find_entry(object, "routes"), "route.routes")?;
        let default_outputs = optional_string_list(object, "default_outputs")?;
        Ok(RouterModuleConfig::SourceMap { routes, default_outputs })
    } else if same(name, "tag_based") {
        let routes = parse_tag_routes(find_entry(object, "routes"), "route.routes")?;
        let default_outputs = optional_string_list(object, "default_outputs")?;
        Ok(RouterModuleConfig::TagBased { routes, default_outputs })
    } else {
        Err(cat2("unsupported route module: ", name))
    }
}

// ---------------------------------------------------------------------------
// Pipelines
// ---------------------------------------------------------------------------

pub open spec fn pipeline_of(v: JsonModel, key: Seq<char>) -> Result<PipelineModel, Seq<char>> {
    match object_of(v, key) {
        Err(e) => Err(e),
        Ok(o) => match (required_member(o, "id"@), string_list_member(o, "inputs"@)) {
            (Err(e), _) => Err(e),
            (Ok(_), Err(e)) => Err(e),
            (Ok(id), Ok(inputs)) => match (
                filter_module(found(o, "filter"@)),
                transform_chain(found(o, "transform"@)),
                classify_module(found(o, "classify"@)),
                router_module(found(o, "route"@)),
            ) {
                (Err(e), _, _, _) => Err(e),
                (Ok(_), Err(e), _, _) => Err(e),
                (Ok(_), Ok(_), Err(e), _) => Err(e),
                (Ok(_), Ok(_), Ok(_), Err(e)) => Err(e),
                (Ok(filter), Ok(transform), Ok(classify), Ok(router)) => Ok(
                    PipelineModel { id, inputs, filter, transform, classify, router },
                ),
            },
        },
    }
}

impl Setting for PipelineDefinition {
    open spec fn reading(v: JsonModel, key: Seq<char>) -> Result<Option<PipelineModel>, Seq<char>> {
        match pipeline_of(v, key) {
            Err(e) => Err(e),
            Ok(pipeline) => Ok(Some(pipeline)),
        }
    }

    fn read(value: &JsonValue, key: &str) -> (r: Result<Option<PipelineDefinition>, String>) {
        let object = expect_object(value, key)?;
        let id = required_string(object, "id")?;
        let inputs = optional_string_list(object, "inputs")?;
        let filter = parse_filter_module(find_entry(object, "filter"))?;
        let transform = parse_transform_chain(find_entry(object, "transform"))?;
        let classify = parse_classify_module(find_entry(object, "classify"))?;
        let router = parse_router_module(find_entry(object, "route"))?;
        Ok(Some(PipelineDefinition { id, inputs, filter, transform, classify, router }))
    }
}

/// The pipelines of an array.
pub open spec fn pipelines_of(v: JsonModel, key: Seq<char>) -> Result<
    Seq<PipelineModel>,
    Seq<char>,
> {
    match array_of(v, key) {
        Err(e) => Err(e),
        Ok(values) => collected(reader::<PipelineDefinition>(key), values),
    }
}

pub fn parse_pipeline_spec_value(value: &JsonValue, key: &str) -> (r: Result<PipelineSpec, String>)
    ensures
        viewed(r) == pipelines_of(value.deep_view(), key@),
{
    let values = expect_array(value, key)?;
    let pipelines: Vec<PipelineDefinition> = read_all(values, key)?;
    Ok(PipelineSpec { pipelines })
}

pub open spec fn pipelines_member(o: ObjectModel, key: Seq<char>) -> Result<
    Seq<PipelineModel>,
    Seq<char>,
> {
    match found(o, key) {
        None => Ok(seq![]),
        Some(v) => pipelines_of(v, key),
    }
}

pub fn optional_pipeline_spec(object: &JsonObject, key: &str) -> (r: Result<PipelineSpec, String>)
    ensures
        viewed(r) == pipelines_member(entries(object@), key@),
{
    match find_entry(object, key) {
        None => Ok(PipelineSpec::default()),
        Some(value) => parse_pipeline_spec_value(value, key),
    }
}

} // verus!

//! Reading settings out of JSON objects: scalars, ports and display settings.
use crate::args::{
    applied, collected, lemma_applied_error, lemma_collected_error, split_display,
    split_display_value, PortSpec, PortSpecModel,
};
use crate::display::{
    display_value, parse_display_value, DisplayValue, LineBreakMode, PortDisplayConfig,
    PortDisplayModel, PortDisplayStream,
};
use crate::json::{
    json_model, json_models, lemma_json_models, lemma_member_models, JsonModel, JsonValue,
};
use crate::paths::{join_path, joined_path};
use crate::table::{entries, find_entry, found};
use crate::text::{
    cat3, cat4, cut_at_last, number_up_to, parse_u32, rsplit_once, same, trim, trimmed, viewed,
};
use vstd::prelude::*;

verus! {

/// The members of a JSON object.
pub type JsonObject = Vec<(String, JsonValue)>;

/// The members of a JSON object by their models.
pub type ObjectModel = Seq<(Seq<char>, JsonModel)>;

// ---------------------------------------------------------------------------
// Messages
// ---------------------------------------------------------------------------

pub open spec fn must_be(key: Seq<char>, expected: Seq<char>) -> Seq<char> {
    "`"@ + key + "` must be "@ + expected
}

pub fn type_error(key: &str, expected: &str) -> (r: String)
    ensures
        r@ == must_be(key@, expected@),
{
    cat4("`", key, "` must be ", expected)
}

pub open spec fn is_required(key: Seq<char>) -> Seq<char> {
    "`"@ + key + "` is required"@
}

// ---------------------------------------------------------------------------
// Objects and arrays
// ---------------------------------------------------------------------------

pub open spec fn object_of(v: JsonModel, name: Seq<char>) -> Result<ObjectModel, Seq<char>> {
    match v {
        JsonModel::Object(members) => Ok(members),
        _ => Err(must_be(name, "a JSON object"@)),
    }
}

pub fn expect_object<'a>(value: &'a JsonValue, name: &str) -> (r: Result<&'a JsonObject, String>)
    ensures
        match r {
            Ok(object) => object_of(value.deep_view(), name@) == Ok::<ObjectModel, Seq<char>>(
                entries(object@),
            ),
            Err(e) => object_of(value.deep_view(), name@) == Err::<ObjectModel, Seq<char>>(e@),
        },
{
    match value {
        JsonValue::Object(object) => {
            proof {
                lemma_member_models(object@);
            }
            Ok(object)
        },
        _ => Err(type_error(name, "a JSON object")),
    }
}

pub open spec fn array_of(v: JsonModel, name: Seq<char>) -> Result<Seq<JsonModel>, Seq<char>> {
    match v {
        JsonModel::Array(values) => Ok(values),
        _ => Err(must_be(name, "a JSON array"@)),
    }
}

pub fn expect_array<'a>(value: &'a JsonValue, name: &str) -> (r: Result<
    &'a Vec<JsonValue>,
    String,
>)
    ensures
        match r {
            Ok(values) => array_of(value.deep_view(), name@) == Ok::<Seq<JsonModel>, Seq<char>>(
                values.deep_view(),
            ),
            Err(e) => array_of(value.deep_view(), name@) == Err::<Seq<JsonModel>, Seq<char>>(e@),
        },
{
    match value {
        JsonValue::Array(values) => {
            proof {
                lemma_models_view(values);
            }
            Ok(values)
        },
        _ => Err(type_error(name, "a JSON array")),
    }
}

/// The models of values, item by item.
pub proof fn lemma_models_view(values: &Vec<JsonValue>)
    ensures
        json_models(values@) == values.deep_view(),
{
    lemma_json_models(values@);
    assert(json_models(values@) =~= values.deep_view());
}

// ---------------------------------------------------------------------------
// Scalars
// ---------------------------------------------------------------------------

pub open spec fn string_member(o: ObjectModel, key: Seq<char>) -> Result<
    Option<Seq<char>>,
    Seq<char>,
> {
    match found(o, key) {
        None => Ok(None),
        Some(JsonModel::Null) => Ok(None),
        Some(JsonModel::String(text)) => Ok(Some(text)),
        Some(_) => Err(must_be(key, "string"@)),
    }
}

pub fn optional_string(object: &JsonObject, key: &str) -> (r: Result<Option<String>, String>)
    ensures
        viewed(r) == string_member(entries(object@), key@),
{
    match find_entry(object, key) {
        None => Ok(None),
        Some(JsonValue::Null) => Ok(None),
        Some(JsonValue::String(text)) => Ok(Some(text.clone())),
        Some(_) => Err(type_error(key, "string")),
    }
}

pub open spec fn required_member(o: ObjectModel, key: Seq<char>) -> Result<Seq<char>, Seq<char>> {
    match string_member(o, key) {
        Err(e) => Err(e),
        Ok(Some(text)) => Ok(text),
        Ok(None) => Err(is_required(key)),
    }
}

pub fn required_string(object: &JsonObject, key: &str) -> (r: Result<String, String>)
    ensures
        viewed(r) == required_member(entries(object@), key@),
{
    match optional_string(object, key)? {
        Some(text) => Ok(text),
        None => Err(cat3("`", key, "` is required")),
    }
}

/// The texts of values that all are strings.
pub open spec fn strings_of(values: Seq<JsonModel>, key: Seq<char>) -> Result<
    Seq<Seq<char>>,
    Seq<char>,
> {
    if forall|i: int| 0 <= i < values.len() ==> (#[trigger] values[i]) is String {
        Ok(values.map_values(|v: JsonModel| v->String_0))
    } else {
        Err(must_be(key, "array of strings"@))
    }
}

fn read_strings(values: &Vec<JsonValue>, key: &str) -> (r: Result<Vec<String>, String>)
    ensures
        viewed(r) == strings_of(values.deep_view(), key@),
{
    let mut out: Vec<String> = Vec::new();
    let ghost all = values.deep_view();
    let mut i: usize = 0;
    while i < values.len()
        invariant
            i <= values.len(),
            all == values.deep_view(),
            forall|k: int| 0 <= k < i ==> (#[trigger] all[k]) is String,
            out.deep_view() == all.take(i as int).map_values(|v: JsonModel| v->String_0),
        decreases values.len() - i,
    {
        assert(all[i as int] == json_model(values@[i as int]));
        match &values[i] {
            JsonValue::String(text) => {
                let ghost before = out.deep_view();
                out.push(text.clone());
                proof {
                    assert(out.deep_view() =~= before.push(text@));
                    assert(all.take(i + 1).map_values(|v: JsonModel| v->String_0) =~= all.take(
                        i as int,
                    ).map_values(|v: JsonModel| v->String_0).push(text@));
                }
            },
            _ => {
                assert(!(all[i as int] is String));
                return Err(type_error(key, "array of strings"));
            },
        }
        i += 1;
    }
    assert(all.take(i as int) == all);
    Ok(out)
}

/// A string or an array of strings.
pub open spec fn string_list(v: JsonModel, key: Seq<char>) -> Result<Seq<Seq<char>>, Seq<char>> {
    match v {
        JsonModel::String(text) => Ok(seq![text]),
        JsonModel::Array(values) => strings_of(values, key),
        _ => Err(must_be(key, "string or array of strings"@)),
    }
}

pub fn json_string_list(value: &JsonValue, key: &str) -> (r: Result<Vec<String>, String>)
    ensures
        viewed(r) == string_list(value.deep_view(), key@),
{
    match value {
        JsonValue::String(text) => {
            let mut out: Vec<String> = Vec::new();
            out.push(text.clone());
            assert(out.deep_view() =~= seq![text@]);
            Ok(out)
        },
        JsonValue::Array(values) => {
            proof {
                lemma_models_view(values);
            }
            read_strings(values, key)
        },
        _ => Err(type_error(key, "string or array of strings")),
    }
}

pub open spec fn string_list_member(o: ObjectModel, key: Seq<char>) -> Result<
    Seq<Seq<char>>,
    Seq<char>,
> {
    match found(o, key) {
        None => Ok(seq![]),
        Some(JsonModel::Null) => Ok(seq![]),
        Some(v) => string_list(v, key),
    }
}

pub fn optional_string_list(object: &JsonObject, key: &str) -> (r: Result<Vec<String>, String>)
    ensures
        viewed(r) == string_list_member(entries(object@), key@),
{
    let out: Vec<String> = Vec::new();
    assert(out.deep_view() =~= Seq::<Seq<char>>::empty());
    match find_entry(object, key) {
        None => Ok(out),
        Some(JsonValue::Null) => Ok(out),
        Some(value) => json_string_list(value, key),
    }
}

pub open spec fn u32_member(o: ObjectModel, key: Seq<char>) -> Result<Option<u32>, Seq<char>> {
    match found(o, key) {
        None => Ok(None),
        Some(JsonModel::Null) => Ok(None),
        Some(JsonModel::Number(text)) => match number_up_to(text, u32::MAX as nat) {
            Some(n) => Ok(Some(n as u32)),
            None => Err(must_be(key, "an unsigned integer"@)),
        },
        Some(_) => Err(must_be(key, "number"@)),
    }
}

pub fn optional_u32(object: &JsonObject, key: &str) -> (r: Result<Option<u32>, String>)
    ensures
        viewed(r) == u32_member(entries(object@), key@),
{
    match find_entry(object, key) {
        None => Ok(None),
        Some(JsonValue::Null) => Ok(None),
        Some(JsonValue::Number(text)) => match parse_u32(text.as_str()) {
            Some(n) => Ok(Some(n)),
            None => Err(type_error(key, "an unsigned integer")),
        },
        Some(_) => Err(type_error(key, "number")),
    }
}

pub open spec fn bool_member(o: ObjectModel, key: Seq<char>) -> Result<Option<bool>, Seq<char>> {
    match found(o, key) {
        None => Ok(None),
        Some(JsonModel::Null) => Ok(None),
        Some(JsonModel::Bool(b)) => Ok(Some(b)),
        Some(_) => Err(must_be(key, "boolean"@)),
    }
}

pub fn optional_bool(object: &JsonObject, key: &str) -> (r: Result<Option<bool>, String>)
    ensures
        viewed(r) == bool_member(entries(object@), key@),
{
    match find_entry(object, key) {
        None => Ok(None),
        Some(JsonValue::Null) => Ok(None),
        Some(JsonValue::Bool(b)) => Ok(Some(*b)),
        Some(_) => Err(type_error(key, "boolean")),
    }
}

/// A path, seen from the directory of the file that it is written in.
pub open spec fn path_member(o: ObjectModel, key: Seq<char>, base_dir: Seq<char>) -> Result<
    Option<Seq<char>>,
    Seq<char>,
> {
    match string_member(o, key) {
        Err(e) => Err(e),
        Ok(None) => Ok(None),
        Ok(Some(path)) => Ok(Some(joined_path(base_dir, path))),
    }
}

pub fn optional_path(object: &JsonObject, key: &str, base_dir: &str) -> (r: Result<
    Option<String>,
    String,
>)
    ensures
        viewed(r) == path_member(entries(object@), key@, base_dir@),
{
    match optional_string(object, key)? {
        Some(path) => Ok(Some(join_path(base_dir, path.as_str()))),
        None => Ok(None),
    }
}

// ---------------------------------------------------------------------------
// Display settings
// ---------------------------------------------------------------------------

/// The older setting `raw`: packets where it is true, lines where it is false.
pub open spec fn raw_display(raw: Option<bool>) -> PortDisplayModel {
    match raw {
        Some(raw) => PortDisplayModel::empty().with_line_break(
            Some(PortDisplayStream::Input),
            "default"@,
            if raw {
                LineBreakMode::Packet
            } else {
                LineBreakMode::Line
            },
        ),
        None => PortDisplayModel::empty(),
    }
}

pub fn legacy_input_display_config(raw: Option<bool>) -> (config: PortDisplayConfig)
    ensures
        config.deep_view() == raw_display(raw),
{
    let mut display = PortDisplayConfig::default();
    if let Some(raw) = raw {
        display.set_line_break_for_stream(
            Some(PortDisplayStream::Input),
            "default",
            if raw {
                LineBreakMode::Packet
            } else {
                LineBreakMode::Line
            },
        );
    }
    display
}

/// The settings with a display value set for a target; messages speak of the path of its key.
pub open spec fn display_applied(
    config: PortDisplayModel,
    stream: Option<PortDisplayStream>,
    target: Seq<char>,
    mode: Seq<char>,
    key_path: Seq<char>,
) -> Result<PortDisplayModel, Seq<char>> {
    match display_value(mode) {
        Err(e) => Err("`"@ + key_path + "`: "@ + e),
        Ok(v) => if v.0 is None && v.1 is None {
            Err(must_be(key_path, "one of hex/ascii/utf8/hex+ascii/hex+utf8/line/packet"@))
        } else {
            Ok(config.with_value(stream, target, v))
        },
    }
}

pub fn apply_display_value(
    config: &mut PortDisplayConfig,
    stream: Option<PortDisplayStream>,
    target: &str,
    mode: &str,
    key_path: &str,
) -> (r: Result<(), String>)
    ensures
        match r {
            Ok(()) => display_applied(
                old(config).deep_view(),
                stream,
                target@,
                mode@,
                key_path@,
            ) == Ok::<PortDisplayModel, Seq<char>>(final(config).deep_view()),
            Err(e) => display_applied(
                old(config).deep_view(),
                stream,
                target@,
                mode@,
                key_path@,
            ) == Err::<PortDisplayModel, Seq<char>>(e@) && final(config).deep_view() == old(
                config,
            ).deep_view(),
        },
{
    let value = match parse_display_value(mode) {
        Ok(value) => value,
        Err(error) => {
            return Err(cat4("`", key_path, "`: ", error.as_str()));
        },
    };
    if value.0.is_none() && value.1.is_none() {
        return Err(
            type_error(key_path, "one of hex/ascii/utf8/hex+ascii/hex+utf8/line/packet"),
        );
    }
    config.set_value(stream, target, value);
    Ok(())
}

/// The path of a key below a key.
pub open spec fn key_path(key: Seq<char>, target: Seq<char>) -> Seq<char> {
    key + "."@ + target
}

pub open spec fn scope_step(stream: PortDisplayStream, path: Seq<char>) -> spec_fn(
    PortDisplayModel,
    (Seq<char>, JsonModel),
) -> Result<PortDisplayModel, Seq<char>> {
    |config: PortDisplayModel, entry: (Seq<char>, JsonModel)|
        match entry.1 {
            JsonModel::String(mode) => display_applied(
                config,
                Some(stream),
                entry.0,
                mode,
                key_path(path, entry.0),
            ),
            _ => Err(must_be(key_path(path, entry.0), "string"@)),
        }
}

fn apply_display_scope(
    config: &mut PortDisplayConfig,
    stream: PortDisplayStream,
    scope: &JsonObject,
    path: &str,
) -> (r: Result<(), String>)
    ensures
        match r {
            Ok(()) => applied(
                scope_step(stream, path@),
                old(config).deep_view(),
                entries(scope@),
            ) == Ok::<PortDisplayModel, Seq<char>>(final(config).deep_view()),
            Err(e) => applied(
                scope_step(stream, path@),
                old(config).deep_view(),
                entries(scope@),
            ) == Err::<PortDisplayModel, Seq<char>>(e@),
        },
{
    let ghost all = entries(scope@);
    let ghost step = scope_step(stream, path@);
    let ghost start = config.deep_view();
    let mut i: usize = 0;
    assert(all.take(0) == Seq::<(Seq<char>, JsonModel)>::empty());
    while i < scope.len()
        invariant
            i <= scope.len(),
            all == entries(scope@),
            step == scope_step(stream, path@),
            start == old(config).deep_view(),
            applied(step, start, all.take(i as int)) == Ok::<PortDisplayModel, Seq<char>>(
                config.deep_view(),
            ),
        decreases scope.len() - i,
    {
        proof {
            assert(all.take(i + 1).drop_last() == all.take(i as int));
            assert(all.take(i + 1).last() == all[i as int]);
            assert(all[i as int] == (scope@[i as int].0@, json_model(scope@[i as int].1)));
        }
        let target = scope[i].0.as_str();
        let inner_path = cat3(path, ".", target);
        let outcome = match &scope[i].1 {
            JsonValue::String(mode) => apply_display_value(
                config,
                Some(stream),
                target,
                mode.as_str(),
                inner_path.as_str(),
            ),
            _ => Err(type_error(inner_path.as_str(), "string")),
        };
        if let Err(e) = outcome {
            proof {
                lemma_applied_error(step, start, all, i + 1, e@);
            }
            return Err(e);
        }
        i += 1;
    }
    assert(all.take(i as int) == all);
    Ok(())
}

pub open spec fn display_step(key: Seq<char>) -> spec_fn(
    PortDisplayModel,
    (Seq<char>, JsonModel),
) -> Result<PortDisplayModel, Seq<char>> {
    |config: PortDisplayModel, entry: (Seq<char>, JsonModel)| display_entry(config, key, entry)
}

/// The settings with one entry of a display object applied: `input` and `output`, also `rx` and
/// `tx`, hold entries of their stream; other entries are for both streams.
pub open spec fn display_entry(
    config: PortDisplayModel,
    key: Seq<char>,
    entry: (Seq<char>, JsonModel),
) -> Result<PortDisplayModel, Seq<char>> {
    let path = key_path(key, entry.0);
    match entry.1 {
        JsonModel::Object(scope) => if entry.0 == "input"@ || entry.0 == "rx"@ {
            applied(scope_step(PortDisplayStream::Input, path), config, scope)
        } else if entry.0 == "output"@ || entry.0 == "tx"@ {
            applied(scope_step(PortDisplayStream::Output, path), config, scope)
        } else {
            Err(must_be(path, "string or object"@))
        },
        JsonModel::String(mode) => display_applied(config, None, entry.0, mode, path),
        _ => Err(must_be(path, "string or object"@)),
    }
}

pub open spec fn display_member(o: ObjectModel, key: Seq<char>) -> Result<
    PortDisplayModel,
    Seq<char>,
> {
    match found(o, key) {
        None => Ok(PortDisplayModel::empty()),
        Some(JsonModel::Object(targets)) => applied(
            display_step(key),
            PortDisplayModel::empty(),
            targets,
        ),
        Some(_) => Err(must_be(key, "object"@)),
    }
}

fn apply_display_entry(
    config: &mut PortDisplayConfig,
    key: &str,
    target: &str,
    value: &JsonValue,
) -> (r: Result<(), String>)
    ensures
        match r {
            Ok(()) => display_entry(
                old(config).deep_view(),
                key@,
                (target@, value.deep_view()),
            ) == Ok::<PortDisplayModel, Seq<char>>(final(config).deep_view()),
            Err(e) => display_entry(
                old(config).deep_view(),
                key@,
                (target@, value.deep_view()),
            ) == Err::<PortDisplayModel, Seq<char>>(e@),
        },
{
    let path = cat3(key, ".", target);
    match value {
        JsonValue::Object(scope) => {
            proof {
                lemma_member_models(scope@);
            }
            if same(target, "input") || same(target, "rx") {
                apply_display_scope(config, PortDisplayStream::Input, scope, path.as_str())
            } else if same(target, "output") || same(target, "tx") {
                apply_display_scope(config, PortDisplayStream::Output, scope, path.as_str())
            } else {
                Err(type_error(path.as_str(), "string or object"))
            }
        },
        JsonValue::String(mode) => apply_display_value(
            config,
            None,
            target,
            mode.as_str(),
            path.as_str(),
        ),
        _ => Err(type_error(path.as_str(), "string or object")),
    }
}

pub fn optional_display_config(object: &JsonObject, key: &str) -> (r: Result<
    PortDisplayConfig,
    String,
>)
    ensures
        viewed(r) == display_member(entries(object@), key@),
{
    let mut config = PortDisplayConfig::default();
    let targets = match find_entry(object, key) {
        None => {
            return Ok(config);
        },
        Some(JsonValue::Object(targets)) => targets,
        Some(_) => {
            return Err(type_error(key, "object"));
        },
    };
    proof {
        lemma_member_models(targets@);
    }
    let ghost all = entries(targets@);
    let ghost step = display_step(key@);
    let mut i: usize = 0;
    assert(all.take(0) == Seq::<(Seq<char>, JsonModel)>::empty());
    while i < targets.len()
        invariant
            i <= targets.len(),
            all == entries(targets@),
            step == display_step(key@),
            display_member(entries(object@), key@) == applied(
                step,
                PortDisplayModel::empty(),
                all,
            ),
            applied(step, PortDisplayModel::empty(), all.take(i as int)) == Ok::<
                PortDisplayModel,
                Seq<char>,
            >(config.deep_view()),
        decreases targets.len() - i,
    {
        proof {
            assert(all.take(i + 1).drop_last() == all.take(i as int));
            assert(all.take(i + 1).last() == all[i as int]);
            assert(all[i as int] == (targets@[i as int].0@, json_model(targets@[i as int].1)));
        }
        if let Err(e) = apply_display_entry(
            &mut config,
            key,
            targets[i].0.as_str(),
            &targets[i].1,
        ) {
            proof {
                lemma_applied_error(step, PortDisplayModel::empty(), all, i + 1, e@);
            }
            return Err(e);
        }
        i += 1;
    }
    assert(all.take(i as int) == all);
    Ok(config)
}

/// A display value where the object names one.
pub open spec fn display_value_member(o: ObjectModel, key: Seq<char>) -> Result<
    DisplayValue,
    Seq<char>,
> {
    match string_member(o, key) {
        Err(e) => Err(e),
        Ok(None) => Ok((None, None)),
        Ok(Some(mode)) => display_value(mode),
    }
}

pub fn optional_display_value(object: &JsonObject, key: &str) -> (r: Result<DisplayValue, String>)
    ensures
        viewed(r) == display_value_member(entries(object@), key@),
{
    match optional_string(object, key)? {
        Some(mode) => parse_display_value(mode.as_str()),
        None => Ok((None, None)),
    }
}

// ---------------------------------------------------------------------------
// Ports
// ---------------------------------------------------------------------------

/// A port as a text: `PORT[@BAUD][,DISPLAY]`.
pub open spec fn port_text(value: Seq<char>, key: Seq<char>) -> Result<PortSpecModel, Seq<char>> {
    let (port_and_baud, (display_mode, line_break_mode)) = split_display(value);
    let (port, baud) = match cut_at_last(port_and_baud, '@') {
        Some((port, digits)) => (port, Some(number_up_to(digits, u32::MAX as nat))),
        None => (port_and_baud, None),
    };
    if baud == Some(None::<nat>) {
        Err("invalid value for `"@ + key + "`: "@ + value)
    } else if trimmed(port).len() == 0 {
        Err("`"@ + key + "` must not be empty"@)
    } else {
        Ok(
            PortSpecModel {
                port: trimmed(port),
                baud: match baud {
                    Some(Some(n)) => Some(n as u32),
                    _ => None,
                },
                display_mode,
                line_break_mode,
            },
        )
    }
}

pub fn parse_port_spec_text(value: &str, key: &str) -> (r: Result<PortSpec, String>)
    ensures
        viewed(r) == port_text(value@, key@),
{
    let (port_and_baud, (display_mode, line_break_mode)) = split_display_value(value);
    let (port, baud): (&str, Option<u32>) = match rsplit_once(port_and_baud, '@') {
        Some((port, digits)) => match parse_u32(digits) {
            Some(baud) => (port, Some(baud)),
            None => {
                return Err(cat4("invalid value for `", key, "`: ", value));
            },
        },
        None => (port_and_baud, None),
    };
    let port = trim(port);
    if port.is_empty() {
        return Err(cat3("`", key, "` must not be empty"));
    }
    Ok(PortSpec { port: port.to_owned(), baud, display_mode, line_break_mode })
}

/// The member `path`, or where that is missing `port`, without white space around it; empty where
/// both are missing. Both must be strings.
pub open spec fn port_name_member(o: ObjectModel) -> Result<Seq<char>, Seq<char>> {
    match (string_member(o, "path"@), string_member(o, "port"@)) {
        (Err(e), _) => Err(e),
        (Ok(_), Err(e)) => Err(e),
        (Ok(Some(path)), Ok(_)) => Ok(trimmed(path)),
        (Ok(None), Ok(Some(port))) => Ok(trimmed(port)),
        (Ok(None), Ok(None)) => Ok(trimmed(seq![])),
    }
}

pub fn port_name(object: &JsonObject) -> (r: Result<String, String>)
    ensures
        viewed(r) == port_name_member(entries(object@)),
{
    let path = optional_string(object, "path")?;
    let port = optional_string(object, "port")?;
    let name = match path {
        Some(path) => path,
        None => match port {
            Some(port) => port,
            None => String::new(),
        },
    };
    Ok(trim(name.as_str()).to_owned())
}

/// A port as an object with `path` or `port`, `baud` and `display`; none where the port is empty.
pub open spec fn port_object(o: ObjectModel) -> Result<Option<PortSpecModel>, Seq<char>> {
    match port_name_member(o) {
        Err(e) => Err(e),
        Ok(port) => if port.len() == 0 {
            Ok(None)
        } else {
            match u32_member(o, "baud"@) {
                Err(e) => Err(e),
                Ok(baud) => match display_value_member(o, "display"@) {
                    Err(e) => Err(e),
                    Ok((display_mode, line_break_mode)) => Ok(
                        Some(PortSpecModel { port, baud, display_mode, line_break_mode }),
                    ),
                },
            }
        },
    }
}

pub fn parse_port_spec_object(object: &JsonObject) -> (r: Result<Option<PortSpec>, String>)
    ensures
        viewed(r) == port_object(entries(object@)),
{
    let port = port_name(object)?;
    if port.as_str().is_empty() {
        return Ok(None);
    }
    let baud = optional_u32(object, "baud")?;
    let (display_mode, line_break_mode) = optional_display_value(object, "display")?;
    Ok(Some(PortSpec { port, baud, display_mode, line_break_mode }))
}

/// A port as a text or as an object; none for `null` and for what is empty.
pub open spec fn port_value(v: JsonModel, key: Seq<char>) -> Result<
    Option<PortSpecModel>,
    Seq<char>,
> {
    match v {
        JsonModel::Null => Ok(None),
        JsonModel::String(text) => if trimmed(text).len() == 0 {
            Ok(None)
        } else {
            match port_text(trimmed(text), key) {
                Ok(spec) => Ok(Some(spec)),
                Err(e) => Err(e),
            }
        },
        JsonModel::Object(o) => port_object(o),
        _ => Err(must_be(key, "string or object"@)),
    }
}

pub fn parse_port_spec_value(value: &JsonValue, key: &str) -> (r: Result<Option<PortSpec>, String>)
    ensures
        viewed(r) == port_value(value.deep_view(), key@),
{
    match value {
        JsonValue::Null => Ok(None),
        JsonValue::String(text) => {
            let text = trim(text.as_str());
            if text.is_empty() {
                return Ok(None);
            }
            let spec = parse_port_spec_text(text, key)?;
            Ok(Some(spec))
        },
        JsonValue::Object(object) => {
            proof {
                lemma_member_models(object@);
            }
            parse_port_spec_object(object)
        },
        _ => Err(type_error(key, "string or object")),
    }
}

pub open spec fn port_member(o: ObjectModel, key: Seq<char>) -> Result<
    Option<PortSpecModel>,
    Seq<char>,
> {
    match found(o, key) {
        None => Ok(None),
        Some(v) => port_value(v, key),
    }
}

pub fn optional_port_spec(object: &JsonObject, key: &str) -> (r: Result<Option<PortSpec>, String>)
    ensures
        viewed(r) == port_member(entries(object@), key@),
{
    match find_entry(object, key) {
        None => Ok(None),
        Some(value) => parse_port_spec_value(value, key),
    }
}

/// One value or an array of values, each of them read; none for `null` and where nothing is given.
pub open spec fn one_or_more<T>(
    v: Option<JsonModel>,
    key: Seq<char>,
    read: spec_fn(JsonModel) -> Result<Option<T>, Seq<char>>,
) -> Result<Seq<T>, Seq<char>> {
    match v {
        None => Ok(seq![]),
        Some(JsonModel::Null) => Ok(seq![]),
        Some(JsonModel::String(text)) => collected(read, seq![JsonModel::String(text)]),
        Some(JsonModel::Object(o)) => collected(read, seq![JsonModel::Object(o)]),
        Some(JsonModel::Array(values)) => collected(read, values),
        Some(_) => Err(must_be(key, "string, object, or array"@)),
    }
}

/// What one value is collected as.
pub proof fn lemma_collected_one<T>(
    read: spec_fn(JsonModel) -> Result<Option<T>, Seq<char>>,
    v: JsonModel,
)
    ensures
        collected(read, seq![v]) == (match read(v) {
            Err(e) => Err::<Seq<T>, Seq<char>>(e),
            Ok(Some(value)) => Ok(seq![value]),
            Ok(None) => Ok(seq![]),
        }),
{
    let items = seq![v];
    assert(items.drop_last() == Seq::<JsonModel>::empty());
    assert(collected(read, Seq::<JsonModel>::empty()) == Ok::<Seq<T>, Seq<char>>(seq![]));
    assert(items.last() == v);
    match read(v) {
        Ok(Some(value)) => {
            assert(Seq::<T>::empty().push(value) == seq![value]);
        },
        _ => {},
    }
}

/// What can be read out of one JSON value.
pub trait Setting: DeepView + Sized {
    /// What a value under a key is read as: nothing, something, or an error.
    spec fn reading(v: JsonModel, key: Seq<char>) -> Result<Option<Self::V>, Seq<char>>;

    fn read(value: &JsonValue, key: &str) -> (r: Result<Option<Self>, String>)
        ensures
            viewed(r) == Self::reading(value.deep_view(), key@),
    ;
}

pub open spec fn reader<T: Setting>(key: Seq<char>) -> spec_fn(JsonModel) -> Result<
    Option<T::V>,
    Seq<char>,
> {
    |v: JsonModel| T::reading(v, key)
}

/// Reads each of the values, up to the first error.
pub fn read_all<T: Setting>(values: &Vec<JsonValue>, key: &str) -> (r: Result<Vec<T>, String>)
    ensures
        viewed(r) == collected(reader::<T>(key@), values.deep_view()),
{
    let mut items: Vec<T> = Vec::new();
    let ghost all = values.deep_view();
    let ghost read = reader::<T>(key@);
    let mut i: usize = 0;
    assert(all.take(0) == Seq::<JsonModel>::empty());
    assert(items.deep_view() =~= Seq::<T::V>::empty());
    while i < values.len()
        invariant
            i <= values.len(),
            all == values.deep_view(),
            read == reader::<T>(key@),
            collected(read, all.take(i as int)) == Ok::<Seq<T::V>, Seq<char>>(items.deep_view()),
        decreases values.len() - i,
    {
        proof {
            assert(all.take(i + 1).drop_last() == all.take(i as int));
            assert(all.take(i + 1).last() == values@[i as int].deep_view());
        }
        let ghost before = items.deep_view();
        match T::read(&values[i], key) {
            Ok(Some(item)) => {
                let ghost m = item.deep_view();
                items.push(item);
                assert(items.deep_view() =~= before.push(m));
            },
            Ok(None) => {},
            Err(e) => {
                proof {
                    lemma_collected_error(read, all, i + 1, e@);
                }
                return Err(e);
            },
        }
        i += 1;
    }
    assert(all.take(i as int) == all);
    Ok(items)
}

fn read_one<T: Setting>(value: &JsonValue, key: &str) -> (r: Result<Vec<T>, String>)
    ensures
        viewed(r) == collected(reader::<T>(key@), seq![value.deep_view()]),
{
    proof {
        lemma_collected_one(reader::<T>(key@), value.deep_view());
    }
    let mut items: Vec<T> = Vec::new();
    if let Some(item) = T::read(value, key)? {
        let ghost m = item.deep_view();
        items.push(item);
        assert(items.deep_view() =~= seq![m]);
    } else {
        assert(items.deep_view() =~= Seq::<T::V>::empty());
    }
    Ok(items)
}

/// The items of a member that holds a text, an object, or an array of them.
pub open spec fn listed_member<T: Setting>(o: ObjectModel, key: Seq<char>) -> Result<
    Seq<T::V>,
    Seq<char>,
> {
    one_or_more(found(o, key), key, reader::<T>(key))
}

pub fn optional_list<T: Setting>(object: &JsonObject, key: &str) -> (r: Result<Vec<T>, String>)
    ensures
        viewed(r) == listed_member::<T>(entries(object@), key@),
{
    let none: Vec<T> = Vec::new();
    assert(none.deep_view() =~= Seq::<T::V>::empty());
    match find_entry(object, key) {
        None => Ok(none),
        Some(value) => match value {
            JsonValue::Null => Ok(none),
            JsonValue::String(_) => read_one(value, key),
            JsonValue::Object(_) => read_one(value, key),
            JsonValue::Array(values) => {
                proof {
                    lemma_models_view(values);
                }
                read_all(values, key)
            },
            _ => Err(type_error(key, "string, object, or array")),
        },
    }
}

/// The items of a member that holds an array.
pub open spec fn array_member<T: Setting>(o: ObjectModel, key: Seq<char>) -> Result<
    Seq<T::V>,
    Seq<char>,
> {
    match found(o, key) {
        None => Ok(seq![]),
        Some(v) => match array_of(v, key) {
            Err(e) => Err(e),
            Ok(values) => collected(reader::<T>(key), values),
        },
    }
}

pub fn optional_array<T: Setting>(object: &JsonObject, key: &str) -> (r: Result<Vec<T>, String>)
    ensures
        viewed(r) == array_member::<T>(entries(object@), key@),
{
    match find_entry(object, key) {
        None => {
            let none: Vec<T> = Vec::new();
            assert(none.deep_view() =~= Seq::<T::V>::empty());
            Ok(none)
        },
        Some(value) => {
            let values = expect_array(value, key)?;
            read_all(values, key)
        },
    }
}

impl Setting for PortSpec {
    open spec fn reading(v: JsonModel, key: Seq<char>) -> Result<
        Option<PortSpecModel>,
        Seq<char>,
    > {
        port_value(v, key)
    }

    fn read(value: &JsonValue, key: &str) -> (r: Result<Option<PortSpec>, String>) {
        parse_port_spec_value(value, key)
    }
}

pub fn optional_port_spec_list(object: &JsonObject, key: &str) -> (r: Result<
    Vec<PortSpec>,
    String,
>)
    ensures
        viewed(r) == listed_member::<PortSpec>(entries(object@), key@),
{
    optional_list(object, key)
}

} // verus!

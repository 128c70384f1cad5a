//! Reading the settings of the commands out of JSON files.
use crate::args::{applied, lemma_applied_error, PortSpecModel};
use crate::command_line::{split_format, split_format_name};
use crate::config::{
    RouteInputConfig, RouteInputModel, RouteOutputConfig, RouteOutputModel, RouteTemplateConfig,
    RouteTemplateModel, SendMonitorConfig, SendMonitorModel, SendOutputConfig, SendOutputModel,
    TemplateTable, XbeeTestPortConfig, XbeeTestPortModel,
};
use crate::json::{json_model, lemma_member_models, JsonModel, JsonValue};
use crate::pipeline_config::{parse_pipeline_spec_value, pipelines_of};
use crate::settings::{
    array_member, display_value_member, expect_object, is_required, lemma_models_view,
    listed_member, must_be, object_of, optional_array, optional_display_value, optional_list,
    optional_string, optional_u32, parse_port_spec_object, parse_port_spec_text, port_name,
    port_name_member, port_object, port_text, required_member, required_string, string_member,
    type_error, u32_member, JsonObject, ObjectModel, Setting,
};
use crate::table::{entries, find_entry, found, inserted, Table};
use crate::text::{
    cat3, cat5, cut_at_first, lower, same, split_once, to_lower, trim, trimmed, viewed,
};
use vstd::prelude::*;

verus! {

// ---------------------------------------------------------------------------
// Inputs and outputs of routes
// ---------------------------------------------------------------------------

pub open spec fn route_input(v: JsonModel, key: Seq<char>) -> Result<RouteInputModel, Seq<char>> {
    match object_of(v, key) {
        Err(e) => Err(e),
        Ok(o) => match (
            display_value_member(o, "display"@),
            required_member(o, "id"@),
            required_member(o, "port"@),
            u32_member(o, "baud"@),
        ) {
            (Err(e), _, _, _) => Err(e),
            (Ok(_), Err(e), _, _) => Err(e),
            (Ok(_), Ok(_), Err(e), _) => Err(e),
            (Ok(_), Ok(_), Ok(_), Err(e)) => Err(e),
            (Ok((display_mode, line_break_mode)), Ok(id), Ok(port), Ok(baud)) => Ok(
                RouteInputModel { id, port, baud, display_mode, line_break_mode },
            ),
        },
    }
}

impl Setting for RouteInputConfig {
    open spec fn reading(v: JsonModel, key: Seq<char>) -> Result<
        Option<RouteInputModel>,
        Seq<char>,
    > {
        match route_input(v, key) {
            Err(e) => Err(e),
            Ok(input) => Ok(Some(input)),
        }
    }

    fn read(value: &JsonValue, key: &str) -> (r: Result<Option<RouteInputConfig>, String>) {
        let entry = expect_object(value, key)?;
        let (display_mode, line_break_mode) = optional_display_value(entry, "display")?;
        let id = required_string(entry, "id")?;
        let port = required_string(entry, "port")?;
        let baud = optional_u32(entry, "baud")?;
        Ok(Some(RouteInputConfig { id, port, baud, display_mode, line_break_mode }))
    }
}

pub fn optional_route_inputs(object: &JsonObject, key: &str) -> (r: Result<
    Vec<RouteInputConfig>,
    String,
>)
    ensures
        viewed(r) == array_member::<RouteInputConfig>(entries(object@), key@),
{
    optional_array(object, key)
}

pub open spec fn route_output(v: JsonModel, key: Seq<char>) -> Result<
    RouteOutputModel,
    Seq<char>,
> {
    match object_of(v, key) {
        Err(e) => Err(e),
        Ok(o) => match (
            display_value_member(o, "display"@),
            required_member(o, "id"@),
            required_member(o, "port"@),
            u32_member(o, "baud"@),
        ) {
            (Err(e), _, _, _) => Err(e),
            (Ok(_), Err(e), _, _) => Err(e),
            (Ok(_), Ok(_), Err(e), _) => Err(e),
            (Ok(_), Ok(_), Ok(_), Err(e)) => Err(e),
            (Ok((display_mode, _)), Ok(id), Ok(port), Ok(baud)) => Ok(
                RouteOutputModel { id, port, baud, display_mode },
            ),
        },
    }
}

impl Setting for RouteOutputConfig {
    open spec fn reading(v: JsonModel, key: Seq<char>) -> Result<
        Option<RouteOutputModel>,
        Seq<char>,
    > {
        match route_output(v, key) {
            Err(e) => Err(e),
            Ok(output) => Ok(Some(output)),
        }
    }

    fn read(value: &JsonValue, key: &str) -> (r: Result<Option<RouteOutputConfig>, String>) {
        let entry = expect_object(value, key)?;
        let (display_mode, _) = optional_display_value(entry, "display")?;
        let id = required_string(entry, "id")?;
        let port = required_string(entry, "port")?;
        let baud = optional_u32(entry, "baud")?;
        Ok(Some(RouteOutputConfig { id, port, baud, display_mode }))
    }
}

pub fn optional_route_outputs(object: &JsonObject, key: &str) -> (r: Result<
    Vec<RouteOutputConfig>,
    String,
>)
    ensures
        viewed(r) == array_member::<RouteOutputConfig>(entries(object@), key@),
{
    optional_array(object, key)
}

// ---------------------------------------------------------------------------
// Outputs and monitors of send
// ---------------------------------------------------------------------------

/// An output to send to; without an id of its own it goes by its port.
pub open spec fn send_output(v: JsonModel, key: Seq<char>) -> Result<SendOutputModel, Seq<char>> {
    match object_of(v, key) {
        Err(e) => Err(e),
        Ok(o) => match (
            display_value_member(o, "display"@),
            string_member(o, "id"@),
            required_member(o, "port"@),
            u32_member(o, "baud"@),
            string_member(o, "format"@),
        ) {
            (Err(e), _, _, _, _) => Err(e),
            (Ok(_), Err(e), _, _, _) => Err(e),
            (Ok(_), Ok(_), Err(e), _, _) => Err(e),
            (Ok(_), Ok(_), Ok(_), Err(e), _) => Err(e),
            (Ok(_), Ok(_), Ok(_), Ok(_), Err(e)) => Err(e),
            (Ok((display_mode, line_break_mode)), Ok(id), Ok(port), Ok(baud), Ok(format)) => Ok(
                SendOutputModel {
                    id: match id {
                        Some(id) => id,
                        None => port,
                    },
                    port,
                    baud,
                    format,
                    display_mode,
                    line_break_mode,
                },
            ),
        },
    }
}

impl Setting for SendOutputConfig {
    open spec fn reading(v: JsonModel, key: Seq<char>) -> Result<
        Option<SendOutputModel>,
        Seq<char>,
    > {
        match send_output(v, key) {
            Err(e) => Err(e),
            Ok(output) => Ok(Some(output)),
        }
    }

    fn read(value: &JsonValue, key: &str) -> (r: Result<Option<SendOutputConfig>, String>) {
        let entry = expect_object(value, key)?;
        let (display_mode, line_break_mode) = optional_display_value(entry, "display")?;
        let given_id = optional_string(entry, "id")?;
        let port = required_string(entry, "port")?;
        let baud = optional_u32(entry, "baud")?;
        let format = optional_string(entry, "format")?;
        let id = match given_id {
            Some(id) => id,
            None => port.clone(),
        };
        Ok(Some(SendOutputConfig { id, port, baud, format, display_mode, line_break_mode }))
    }
}

pub fn optional_send_outputs(object: &JsonObject, key: &str) -> (r: Result<
    Vec<SendOutputConfig>,
    String,
>)
    ensures
        viewed(r) == array_member::<SendOutputConfig>(entries(object@), key@),
{
    optional_array(object, key)
}

pub open spec fn monitor_with(spec: PortSpecModel, format: Option<Seq<char>>) -> SendMonitorModel {
    SendMonitorModel {
        port: spec.port,
        baud: spec.baud,
        format,
        display_mode: spec.display_mode,
        line_break_mode: spec.line_break_mode,
    }
}

/// A monitor as a text: `PORT[@BAUD][,DISPLAY][,FORMAT]`.
pub open spec fn monitor_text(value: Seq<char>, key: Seq<char>) -> Result<
    SendMonitorModel,
    Seq<char>,
> {
    let (rest, format) = split_format(value);
    match port_text(rest, key) {
        Err(e) => Err(e),
        Ok(spec) => Ok(monitor_with(spec, format)),
    }
}

pub fn parse_send_monitor_text(value: &str, key: &str) -> (r: Result<SendMonitorConfig, String>)
    ensures
        viewed(r) == monitor_text(value@, key@),
{
    let (port_text, format_name) = split_format_name(value);
    let format = match format_name {
        Some(name) => Some(name.to_owned()),
        None => None,
    };
    let spec = parse_port_spec_text(port_text, key)?;
    Ok(
        SendMonitorConfig {
            port: spec.port,
            baud: spec.baud,
            format,
            display_mode: spec.display_mode,
            line_break_mode: spec.line_break_mode,
        },
    )
}

/// A monitor as an object: a port with a `format`; none where the port is empty.
pub open spec fn monitor_object(o: ObjectModel) -> Result<Option<SendMonitorModel>, Seq<char>> {
    match port_object(o) {
        Err(e) => Err(e),
        Ok(None) => Ok(None),
        Ok(Some(spec)) => match string_member(o, "format"@) {
            Err(e) => Err(e),
            Ok(format) => Ok(Some(monitor_with(spec, format))),
        },
    }
}

pub fn parse_send_monitor_object(object: &JsonObject) -> (r: Result<
    Option<SendMonitorConfig>,
    String,
>)
    ensures
        viewed(r) == monitor_object(entries(object@)),
{
    let spec = match parse_port_spec_object(object)? {
        None => {
            return Ok(None);
        },
        Some(spec) => spec,
    };
    let format = optional_string(object, "format")?;
    Ok(
        Some(
            SendMonitorConfig {
                port: spec.port,
                baud: spec.baud,
                format,
                display_mode: spec.display_mode,
                line_break_mode: spec.line_break_mode,
            },
        ),
    )
}

/// A monitor as a text or as an object; none for `null` and for what is empty.
pub open spec fn monitor_value(v: JsonModel, key: Seq<char>) -> Result<
    Option<SendMonitorModel>,
    Seq<char>,
> {
    match v {
        JsonModel::Null => Ok(None),
        JsonModel::String(text) => if trimmed(text).len() == 0 {
            Ok(None)
        } else {
            match monitor_text(trimmed(text), key) {
                Ok(monitor) => Ok(Some(monitor)),
                Err(e) => Err(e),
            }
        },
        JsonModel::Object(o) => monitor_object(o),
        _ => Err(must_be(key, "string or object"@)),
    }
}

pub fn parse_send_monitor_value(value: &JsonValue, key: &str) -> (r: Result<
    Option<SendMonitorConfig>,
    String,
>)
    ensures
        viewed(r) == monitor_value(value.deep_view(), key@),
{
    match value {
        JsonValue::Null => Ok(None),
        JsonValue::String(text) => {
            let text = trim(text.as_str());
            if text.is_empty() {
                return Ok(None);
            }
            let monitor = parse_send_monitor_text(text, key)?;
            Ok(Some(monitor))
        },
        JsonValue::Object(object) => {
            proof {
                lemma_member_models(object@);
            }
            parse_send_monitor_object(object)
        },
        _ => Err(type_error(key, "string or object")),
    }
}

impl Setting for SendMonitorConfig {
    open spec fn reading(v: JsonModel, key: Seq<char>) -> Result<
        Option<SendMonitorModel>,
        Seq<char>,
    > {
        monitor_value(v, key)
    }

    fn read(value: &JsonValue, key: &str) -> (r: Result<Option<SendMonitorConfig>, String>) {
        parse_send_monitor_value(value, key)
    }
}

pub fn optional_send_monitors(object: &JsonObject, key: &str) -> (r: Result<
    Vec<SendMonitorConfig>,
    String,
>)
    ensures
        viewed(r) == listed_member::<SendMonitorConfig>(entries(object@), key@),
{
    optional_list(object, key)
}

// ---------------------------------------------------------------------------
// Ports of XBee tests
// ---------------------------------------------------------------------------

/// A side of an XBee test, whatever the case of its name.
pub open spec fn xbee_test_port_id(value: Seq<char>) -> Result<Seq<char>, Seq<char>> {
    let id = lower(trimmed(value));
    if id == "base"@ || id == "rover"@ {
        Ok(id)
    } else {
        Err("xbee_test port id must be `base` or `rover`, got `"@ + id + "`"@)
    }
}

pub fn normalize_xbee_test_port_id(value: &str) -> (r: Result<String, String>)
    ensures
        viewed(r) == xbee_test_port_id(value@),
{
    let id = to_lower(trim(value));
    if same(id.as_str(), "base") || same(id.as_str(), "rover") {
        Ok(id)
    } else {
        Err(cat3("xbee_test port id must be `base` or `rover`, got `", id.as_str(), "`"))
    }
}

pub open spec fn xbee_entry_form(key: Seq<char>) -> Seq<char> {
    "`"@ + key + "` entry must be `base=PORT[@BAUD]` or `rover=PORT[@BAUD]`"@
}

pub open spec fn xbee_entry_display(key: Seq<char>) -> Seq<char> {
    "`"@ + key
        + "` entry must not specify display mode; xbee_test uses fixed hex packet display"@
}

/// A side of an XBee test as a text: `SIDE=PORT[@BAUD]`.
pub open spec fn xbee_test_port_text(value: Seq<char>, key: Seq<char>) -> Result<
    XbeeTestPortModel,
    Seq<char>,
> {
    match cut_at_first(value, '=') {
        None => Err(xbee_entry_form(key)),
        Some((id, rest)) => match port_text(rest, key) {
            Err(e) => Err(e),
            Ok(spec) => if spec.display_mode is Some || spec.line_break_mode is Some {
                Err(xbee_entry_display(key))
            } else {
                match xbee_test_port_id(id) {
                    Err(e) => Err(e),
                    Ok(id) => Ok(XbeeTestPortModel { id, port: spec.port, baud: spec.baud }),
                }
            },
        },
    }
}

pub fn parse_xbee_test_port_text(value: &str, key: &str) -> (r: Result<XbeeTestPortConfig, String>)
    ensures
        viewed(r) == xbee_test_port_text(value@, key@),
{
    let (id, port_text) = match split_once(value, '=') {
        Some(parts) => parts,
        None => {
            return Err(
                cat3("`", key, "` entry must be `base=PORT[@BAUD]` or `rover=PORT[@BAUD]`"),
            );
        },
    };
    let spec = parse_port_spec_text(port_text, key)?;
    if spec.display_mode.is_some() || spec.line_break_mode.is_some() {
        return Err(
            cat3(
                "`",
                key,
                "` entry must not specify display mode; xbee_test uses fixed hex packet display",
            ),
        );
    }
    let id = normalize_xbee_test_port_id(id)?;
    Ok(XbeeTestPortConfig { id, port: spec.port, baud: spec.baud })
}

/// A side of an XBee test as an object; none where its id is empty.
pub open spec fn xbee_test_port_object(o: ObjectModel, key: Seq<char>) -> Result<
    Option<XbeeTestPortModel>,
    Seq<char>,
> {
    match string_member(o, "id"@) {
        Err(e) => Err(e),
        Ok(id) => if id is None || trimmed(id.unwrap()).len() == 0 {
            Ok(None)
        } else {
            match port_name_member(o) {
                Err(e) => Err(e),
                Ok(port) => if port.len() == 0 {
                    Err(is_required(key + ".port"@))
                } else {
                    match (xbee_test_port_id(trimmed(id.unwrap())), u32_member(o, "baud"@)) {
                        (Err(e), _) => Err(e),
                        (Ok(_), Err(e)) => Err(e),
                        (Ok(id), Ok(baud)) => Ok(Some(XbeeTestPortModel { id, port, baud })),
                    }
                },
            }
        },
    }
}

pub fn parse_xbee_test_port_object(object: &JsonObject, key: &str) -> (r: Result<
    Option<XbeeTestPortConfig>,
    String,
>)
    ensures
        viewed(r) == xbee_test_port_object(entries(object@), key@),
{
    let given = match optional_string(object, "id")? {
        Some(id) => id,
        None => {
            return Ok(None);
        },
    };
    let id = trim(given.as_str());
    if id.is_empty() {
        return Ok(None);
    }
    let port = port_name(object)?;
    if port.as_str().is_empty() {
        proof {
            reveal_strlit(".port` is required");
            reveal_strlit(".port");
            reveal_strlit("` is required");
            assert(".port` is required"@ =~= ".port"@ + "` is required"@);
            assert("`"@ + key@ + ".port` is required"@ =~= is_required(key@ + ".port"@));
        }
        return Err(cat3("`", key, ".port` is required"));
    }
    let id = normalize_xbee_test_port_id(id)?;
    let baud = optional_u32(object, "baud")?;
    Ok(Some(XbeeTestPortConfig { id, port, baud }))
}

/// A side of an XBee test as a text or as an object; none for `null` and for what is empty.
pub open spec fn xbee_test_port_value(v: JsonModel, key: Seq<char>) -> Result<
    Option<XbeeTestPortModel>,
    Seq<char>,
> {
    match v {
        JsonModel::Null => Ok(None),
        JsonModel::String(text) => if trimmed(text).len() == 0 {
            Ok(None)
        } else {
            match xbee_test_port_text(trimmed(text), key) {
                Ok(port) => Ok(Some(port)),
                Err(e) => Err(e),
            }
        },
        JsonModel::Object(o) => xbee_test_port_object(o, key),
        _ => Err(must_be(key, "string or object"@)),
    }
}

pub fn parse_xbee_test_port_value(value: &JsonValue, key: &str) -> (r: Result<
    Option<XbeeTestPortConfig>,
    String,
>)
    ensures
        viewed(r) == xbee_test_port_value(value.deep_view(), key@),
{
    match value {
        JsonValue::Null => Ok(None),
        JsonValue::String(text) => {
            let text = trim(text.as_str());
            if text.is_empty() {
                return Ok(None);
            }
            let port = parse_xbee_test_port_text(text, key)?;
            Ok(Some(port))
        },
        JsonValue::Object(object) => {
            proof {
                lemma_member_models(object@);
            }
            parse_xbee_test_port_object(object, key)
        },
        _ => Err(type_error(key, "string or object")),
    }
}

impl Setting for XbeeTestPortConfig {
    open spec fn reading(v: JsonModel, key: Seq<char>) -> Result<
        Option<XbeeTestPortModel>,
        Seq<char>,
    > {
        xbee_test_port_value(v, key)
    }

    fn read(value: &JsonValue, key: &str) -> (r: Result<Option<XbeeTestPortConfig>, String>) {
        parse_xbee_test_port_value(value, key)
    }
}

pub fn optional_xbee_test_ports(object: &JsonObject, key: &str) -> (r: Result<
    Vec<XbeeTestPortConfig>,
    String,
>)
    ensures
        viewed(r) == listed_member::<XbeeTestPortConfig>(entries(object@), key@),
{
    optional_list(object, key)
}

// ---------------------------------------------------------------------------
// Templates of routes
// ---------------------------------------------------------------------------

pub open spec fn route_template(v: JsonModel, id: Seq<char>, name: Seq<char>) -> Result<
    RouteTemplateModel,
    Seq<char>,
> {
    match object_of(v, name) {
        Err(e) => Err(e),
        Ok(o) => match found(o, "pipelines"@) {
            None => Err("`"@ + name + "."@ + id + ".pipelines` is required"@),
            Some(pipelines) => match (
                string_member(o, "description"@),
                pipelines_of(pipelines, "pipelines"@),
            ) {
                (Err(e), _) => Err(e),
                (Ok(_), Err(e)) => Err(e),
                (Ok(description), Ok(pipelines)) => Ok(
                    RouteTemplateModel { id, description, pipelines },
                ),
            },
        },
    }
}

pub fn parse_route_template(value: &JsonValue, id: &str, name: &str) -> (r: Result<
    RouteTemplateConfig,
    String,
>)
    ensures
        viewed(r) == route_template(value.deep_view(), id@, name@),
{
    let object = expect_object(value, name)?;
    let pipelines_value = match find_entry(object, "pipelines") {
        Some(value) => value,
        None => {
            return Err(cat5("`", name, ".", id, ".pipelines` is required"));
        },
    };
    let description = optional_string(object, "description")?;
    let pipelines = parse_pipeline_spec_value(pipelines_value, "pipelines")?;
    Ok(RouteTemplateConfig { id: id.to_owned(), description, pipelines })
}

pub open spec fn named_template_step() -> spec_fn(TemplateTable, (Seq<char>, JsonModel)) -> Result<
    TemplateTable,
    Seq<char>,
> {
    |t: TemplateTable, entry: (Seq<char>, JsonModel)|
        match route_template(entry.1, entry.0, "route.templates"@) {
            Err(e) => Err(e),
            Ok(template) => Ok(inserted(t, entry.0, template)),
        }
}

pub open spec fn listed_template(v: JsonModel) -> Result<RouteTemplateModel, Seq<char>> {
    match object_of(v, "route.templates"@) {
        Err(e) => Err(e),
        Ok(o) => match required_member(o, "id"@) {
            Err(e) => Err(e),
            Ok(id) => route_template(v, id, "route.templates"@),
        },
    }
}

pub open spec fn listed_template_step() -> spec_fn(TemplateTable, JsonModel) -> Result<
    TemplateTable,
    Seq<char>,
> {
    |t: TemplateTable, v: JsonModel|
        match listed_template(v) {
            Err(e) => Err(e),
            Ok(template) => Ok(inserted(t, template.id, template)),
        }
}

/// Templates under their names, or in a list where each has an id.
pub open spec fn route_templates(v: Option<JsonModel>) -> Result<TemplateTable, Seq<char>> {
    match v {
        None => Ok(Seq::empty()),
        Some(JsonModel::Object(o)) => applied(named_template_step(), Seq::empty(), o),
        Some(JsonModel::Array(values)) => applied(listed_template_step(), Seq::empty(), values),
        Some(_) => Err(must_be("route.templates"@, "object or array"@)),
    }
}

fn read_named_templates(members: &JsonObject) -> (r: Result<Table<RouteTemplateConfig>, String>)
    ensures
        viewed(r) == applied(named_template_step(), Seq::empty(), entries(members@)),
{
    let mut templates: Table<RouteTemplateConfig> = Table::new();
    let ghost all = entries(members@);
    let ghost step = named_template_step();
    let mut i: usize = 0;
    assert(all.take(0) == Seq::<(Seq<char>, JsonModel)>::empty());
    while i < members.len()
        invariant
            i <= members.len(),
            all == entries(members@),
            step == named_template_step(),
            applied(step, Seq::empty(), all.take(i as int)) == Ok::<TemplateTable, Seq<char>>(
                templates.deep_view(),
            ),
        decreases members.len() - i,
    {
        proof {
            assert(all.take(i + 1).drop_last() == all.take(i as int));
            assert(all.take(i + 1).last() == all[i as int]);
            assert(all[i as int] == (members@[i as int].0@, json_model(members@[i as int].1)));
        }
        match parse_route_template(&members[i].1, members[i].0.as_str(), "route.templates") {
            Ok(template) => {
                templates.insert(members[i].0.clone(), template);
            },
            Err(e) => {
                proof {
                    lemma_applied_error(step, Seq::empty(), all, i + 1, e@);
                }
                return Err(e);
            },
        }
        i += 1;
    }
    assert(all.take(i as int) == all);
    Ok(templates)
}

fn read_listed_template(value: &JsonValue) -> (r: Result<RouteTemplateConfig, String>)
    ensures
        viewed(r) == listed_template(value.deep_view()),
{
    let object = expect_object(value, "route.templates")?;
    let id = required_string(object, "id")?;
    parse_route_template(value, id.as_str(), "route.templates")
}

fn read_listed_templates(values: &Vec<JsonValue>) -> (r: Result<
    Table<RouteTemplateConfig>,
    String,
>)
    ensures
        viewed(r) == applied(listed_template_step(), Seq::empty(), values.deep_view()),
{
    let mut templates: Table<RouteTemplateConfig> = Table::new();
    let ghost all = values.deep_view();
    let ghost step = listed_template_step();
    let mut i: usize = 0;
    assert(all.take(0) == Seq::<JsonModel>::empty());
    while i < values.len()
        invariant
            i <= values.len(),
            all == values.deep_view(),
            step == listed_template_step(),
            applied(step, Seq::empty(), all.take(i as int)) == Ok::<TemplateTable, Seq<char>>(
                templates.deep_view(),
            ),
        decreases values.len() - i,
    {
        proof {
            assert(all.take(i + 1).drop_last() == all.take(i as int));
            assert(all.take(i + 1).last() == values@[i as int].deep_view());
        }
        match read_listed_template(&values[i]) {
            Ok(template) => {
                templates.insert(template.id.clone(), template);
            },
            Err(e) => {
                proof {
                    lemma_applied_error(step, Seq::empty(), all, i + 1, e@);
                }
                return Err(e);
            },
        }
        i += 1;
    }
    assert(all.take(i as int) == all);
    Ok(templates)
}

pub fn optional_route_templates(value: Option<&JsonValue>) -> (r: Result<
    Table<RouteTemplateConfig>,
    String,
>)
    ensures
        viewed(r) == route_templates(value.deep_view()),
{
    match value {
        None => Ok(Table::new()),
        Some(JsonValue::Object(members)) => {
            proof {
                lemma_member_models(members@);
            }
            read_named_templates(members)
        },
        Some(JsonValue::Array(values)) => {
            proof {
                lemma_models_view(values);
            }
            read_listed_templates(values)
        },
        Some(_) => Err(type_error("route.templates", "object or array")),
    }
}

} // verus!

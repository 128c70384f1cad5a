//! Config files: the sections of one file, and the files of a directory one over the other.
use crate::args::{applied, lemma_applied_error, stepped, PortSpec, PortSpecModel};
use crate::config::{
    AppConfig, AppModel, ControlConfig, ControlModel, MonitorConfig, MonitorModel, RouteConfig,
    RouteInputConfig, RouteModel, RouteOutputConfig, SendConfig, SendModel, SendMonitorConfig,
    SendOutputConfig, XbeeTestConfig, XbeeTestModel, XbeeTestPortConfig,
};
use crate::config_load::{
    optional_route_inputs, optional_route_outputs, optional_route_templates, optional_send_monitors,
    optional_send_outputs, optional_xbee_test_ports, route_templates,
};
use crate::display::{PortDisplayConfig, PortDisplayModel};
use crate::json::{json_text, JsonModel, JsonParser, JsonValue};
use crate::pipeline_config::{optional_pipeline_spec, pipelines_member};
use crate::settings::{
    array_member, bool_member, display_member, expect_object, legacy_input_display_config,
    listed_member, object_of, optional_bool, optional_display_config, optional_path,
    optional_port_spec, optional_port_spec_list, optional_string, optional_u32, path_member,
    port_member, raw_display, string_member, u32_member, JsonObject, ObjectModel,
};
use crate::table::{
    before, comes_before, entries, find_entry, found, lemma_before_total, lemma_before_transitive,
    lemma_before_irreflexive,
};
use crate::text::{cat3, cat4, cut_at_last, pieces, rsplit_once, same, split, viewed};
use vstd::prelude::*;

verus! {

// ---------------------------------------------------------------------------
// Sections
// ---------------------------------------------------------------------------

/// The display settings of a section: those of `raw`, and over them those of `display`.
pub open spec fn section_display(o: ObjectModel) -> Result<PortDisplayModel, Seq<char>> {
    match (bool_member(o, "raw"@), display_member(o, "display"@)) {
        (Err(e), _) => Err(e),
        (Ok(_), Err(e)) => Err(e),
        (Ok(raw), Ok(display)) => Ok(raw_display(raw).merged(display)),
    }
}

fn read_section_display(object: &JsonObject) -> (r: Result<PortDisplayConfig, String>)
    ensures
        viewed(r) == section_display(entries(object@)),
{
    let raw = optional_bool(object, "raw")?;
    let mut display = legacy_input_display_config(raw);
    let over = optional_display_config(object, "display")?;
    display.merge_from(over);
    Ok(display)
}

pub open spec fn control_section(v: Option<JsonModel>, base_dir: Seq<char>) -> Result<
    ControlModel,
    Seq<char>,
> {
    match v {
        None => Ok(ControlModel::empty()),
        Some(v) => match object_of(v, "control"@) {
            Err(e) => Err(e),
            Ok(o) => match (
                section_display(o),
                port_member(o, "port"@),
                u32_member(o, "baud"@),
                string_member(o, "controller"@),
                string_member(o, "format"@),
                listed_member::<PortSpec>(o, "monitor_ports"@),
                path_member(o, "log_dir"@, base_dir),
            ) {
                (Err(e), _, _, _, _, _, _) => Err(e),
                (_, Err(e), _, _, _, _, _) => Err(e),
                (_, _, Err(e), _, _, _, _) => Err(e),
                (_, _, _, Err(e), _, _, _) => Err(e),
                (_, _, _, _, Err(e), _, _) => Err(e),
                (_, _, _, _, _, Err(e), _) => Err(e),
                (_, _, _, _, _, _, Err(e)) => Err(e),
                (
                    Ok(display),
                    Ok(port),
                    Ok(baud),
                    Ok(controller),
                    Ok(format),
                    Ok(monitor_ports),
                    Ok(log_dir),
                ) => Ok(
                    ControlModel {
                        port,
                        baud,
                        controller,
                        format,
                        display,
                        monitor_ports,
                        log_dir,
                    },
                ),
            },
        },
    }
}

pub fn parse_control_config(value: Option<&JsonValue>, base_dir: &str) -> (r: Result<
    ControlConfig,
    String,
>)
    ensures
        viewed(r) == control_section(value.deep_view(), base_dir@),
{
    let value = match value {
        None => {
            return Ok(ControlConfig::default());
        },
        Some(value) => value,
    };
    let object = expect_object(value, "control")?;
    let display = read_section_display(object)?;
    let port = optional_port_spec(object, "port")?;
    let baud = optional_u32(object, "baud")?;
    let controller = optional_string(object, "controller")?;
    let format = optional_string(object, "format")?;
    let monitor_ports = optional_port_spec_list(object, "monitor_ports")?;
    let log_dir = optional_path(object, "log_dir", base_dir)?;
    Ok(ControlConfig { port, baud, controller, format, display, monitor_ports, log_dir })
}

/// The ports under `ports`, or where there are none the one under `port`.
pub open spec fn monitored_ports(o: ObjectModel) -> Result<Seq<PortSpecModel>, Seq<char>> {
    match listed_member::<PortSpec>(o, "ports"@) {
        Err(e) => Err(e),
        Ok(ports) => if ports.len() > 0 {
            Ok(ports)
        } else {
            match port_member(o, "port"@) {
                Err(e) => Err(e),
                Ok(Some(port)) => Ok(seq![port]),
                Ok(None) => Ok(seq![]),
            }
        },
    }
}

fn read_monitored_ports(object: &JsonObject) -> (r: Result<Vec<PortSpec>, String>)
    ensures
        viewed(r) == monitored_ports(entries(object@)),
{
    let mut ports = optional_port_spec_list(object, "ports")?;
    assert(ports.deep_view().len() == ports.len());
    if ports.len() == 0 {
        if let Some(port) = optional_port_spec(object, "port")? {
            let ghost m = port.deep_view();
            ports.push(port);
            assert(ports.deep_view() =~= seq![m]);
        } else {
            assert(ports.deep_view() =~= Seq::<PortSpecModel>::empty());
        }
    }
    Ok(ports)
}

pub open spec fn monitor_section(v: Option<JsonModel>, base_dir: Seq<char>) -> Result<
    MonitorModel,
    Seq<char>,
> {
    match v {
        None => Ok(MonitorModel::empty()),
        Some(v) => match object_of(v, "monitor"@) {
            Err(e) => Err(e),
            Ok(o) => match (
                section_display(o),
                monitored_ports(o),
                u32_member(o, "baud"@),
                path_member(o, "log_dir"@, base_dir),
            ) {
                (Err(e), _, _, _) => Err(e),
                (_, Err(e), _, _) => Err(e),
                (_, _, Err(e), _) => Err(e),
                (_, _, _, Err(e)) => Err(e),
                (Ok(display), Ok(ports), Ok(baud), Ok(log_dir)) => Ok(
                    MonitorModel { ports, baud, display, log_dir },
                ),
            },
        },
    }
}

pub fn parse_monitor_config(value: Option<&JsonValue>, base_dir: &str) -> (r: Result<
    MonitorConfig,
    String,
>)
    ensures
        viewed(r) == monitor_section(value.deep_view(), base_dir@),
{
    let value = match value {
        None => {
            return Ok(MonitorConfig::default());
        },
        Some(value) => value,
    };
    let object = expect_object(value, "monitor")?;
    let display = read_section_display(object)?;
    let ports = read_monitored_ports(object)?;
    let baud = optional_u32(object, "baud")?;
    let log_dir = optional_path(object, "log_dir", base_dir)?;
    Ok(MonitorConfig { ports, baud, display, log_dir })
}

pub open spec fn send_section(v: Option<JsonModel>, base_dir: Seq<char>) -> Result<
    SendModel,
    Seq<char>,
> {
    match v {
        None => Ok(SendModel::empty()),
        Some(v) => match object_of(v, "send"@) {
            Err(e) => Err(e),
            Ok(o) => match (
                port_member(o, "port"@),
                array_member::<SendOutputConfig>(o, "outputs"@),
                u32_member(o, "baud"@),
                string_member(o, "format"@),
                display_member(o, "display"@),
                listed_member::<SendMonitorConfig>(o, "monitor_ports"@),
                path_member(o, "log_dir"@, base_dir),
            ) {
                (Err(e), _, _, _, _, _, _) => Err(e),
                (_, Err(e), _, _, _, _, _) => Err(e),
                (_, _, Err(e), _, _, _, _) => Err(e),
                (_, _, _, Err(e), _, _, _) => Err(e),
                (_, _, _, _, Err(e), _, _) => Err(e),
                (_, _, _, _, _, Err(e), _) => Err(e),
                (_, _, _, _, _, _, Err(e)) => Err(e),
                (
                    Ok(port),
                    Ok(outputs),
                    Ok(baud),
                    Ok(format),
                    Ok(display),
                    Ok(monitor_ports),
                    Ok(log_dir),
                ) => Ok(
                    SendModel { port, outputs, baud, format, display, monitor_ports, log_dir },
                ),
            },
        },
    }
}

pub fn parse_send_config(value: Option<&JsonValue>, base_dir: &str) -> (r: Result<
    SendConfig,
    String,
>)
    ensures
        viewed(r) == send_section(value.deep_view(), base_dir@),
{
    let value = match value {
        None => {
            return Ok(SendConfig::default());
        },
        Some(value) => value,
    };
    let object = expect_object(value, "send")?;
    let port = optional_port_spec(object, "port")?;
    let outputs = optional_send_outputs(object, "outputs")?;
    let baud = optional_u32(object, "baud")?;
    let format = optional_string(object, "format")?;
    let display = optional_display_config(object, "display")?;
    let monitor_ports = optional_send_monitors(object, "monitor_ports")?;
    let log_dir = optional_path(object, "log_dir", base_dir)?;
    Ok(SendConfig { port, outputs, baud, format, display, monitor_ports, log_dir })
}

pub open spec fn xbee_test_section(v: Option<JsonModel>, base_dir: Seq<char>) -> Result<
    XbeeTestModel,
    Seq<char>,
> {
    match v {
        None => Ok(XbeeTestModel::empty()),
        Some(v) => match object_of(v, "xbee_test"@) {
            Err(e) => Err(e),
            Ok(o) => match (
                listed_member::<XbeeTestPortConfig>(o, "ports"@),
                string_member(o, "mode"@),
                u32_member(o, "ac_rate"@),
                u32_member(o, "jf_rate"@),
                path_member(o, "log_dir"@, base_dir),
            ) {
                (Err(e), _, _, _, _) => Err(e),
                (_, Err(e), _, _, _) => Err(e),
                (_, _, Err(e), _, _) => Err(e),
                (_, _, _, Err(e), _) => Err(e),
                (_, _, _, _, Err(e)) => Err(e),
                (Ok(ports), Ok(mode), Ok(ac_rate_hz), Ok(jf_rate_hz), Ok(log_dir)) => Ok(
                    XbeeTestModel { ports, mode, ac_rate_hz, jf_rate_hz, log_dir },
                ),
            },
        },
    }
}

pub fn parse_xbee_test_config(value: Option<&JsonValue>, base_dir: &str) -> (r: Result<
    XbeeTestConfig,
    String,
>)
    ensures
        viewed(r) == xbee_test_section(value.deep_view(), base_dir@),
{
    let value = match value {
        None => {
            return Ok(XbeeTestConfig::default());
        },
        Some(value) => value,
    };
    let object = expect_object(value, "xbee_test")?;
    let ports = optional_xbee_test_ports(object, "ports")?;
    let mode = optional_string(object, "mode")?;
    let ac_rate_hz = optional_u32(object, "ac_rate")?;
    let jf_rate_hz = optional_u32(object, "jf_rate")?;
    let log_dir = optional_path(object, "log_dir", base_dir)?;
    Ok(XbeeTestConfig { ports, mode, ac_rate_hz, jf_rate_hz, log_dir })
}

pub open spec fn route_section(v: Option<JsonModel>, base_dir: Seq<char>) -> Result<
    RouteModel,
    Seq<char>,
> {
    match v {
        None => Ok(RouteModel::empty()),
        Some(v) => match object_of(v, "route"@) {
            Err(e) => Err(e),
            Ok(o) => match (
                section_display(o),
                array_member::<RouteInputConfig>(o, "inputs"@),
                array_member::<RouteOutputConfig>(o, "outputs"@),
                pipelines_member(o, "pipelines"@),
                string_member(o, "template"@),
                route_templates(found(o, "templates"@)),
                u32_member(o, "baud"@),
                path_member(o, "log_dir"@, base_dir),
            ) {
                (Err(e), _, _, _, _, _, _, _) => Err(e),
                (_, Err(e), _, _, _, _, _, _) => Err(e),
                (_, _, Err(e), _, _, _, _, _) => Err(e),
                (_, _, _, Err(e), _, _, _, _) => Err(e),
                (_, _, _, _, Err(e), _, _, _) => Err(e),
                (_, _, _, _, _, Err(e), _, _) => Err(e),
                (_, _, _, _, _, _, Err(e), _) => Err(e),
                (_, _, _, _, _, _, _, Err(e)) => Err(e),
                (
                    Ok(display),
                    Ok(inputs),
                    Ok(outputs),
                    Ok(pipelines),
                    Ok(template),
                    Ok(templates),
                    Ok(baud),
                    Ok(log_dir),
                ) => Ok(
                    RouteModel {
                        inputs,
                        outputs,
                        pipelines,
                        template,
                        templates,
                        baud,
                        display,
                        log_dir,
                    },
                ),
            },
        },
    }
}

pub fn parse_route_config(value: Option<&JsonValue>, base_dir: &str) -> (r: Result<
    RouteConfig,
    String,
>)
    ensures
        viewed(r) == route_section(value.deep_view(), base_dir@),
{
    let value = match value {
        None => {
            return Ok(RouteConfig::default());
        },
        Some(value) => value,
    };
    let object = expect_object(value, "route")?;
    let display = read_section_display(object)?;
    let inputs = optional_route_inputs(object, "inputs")?;
    let outputs = optional_route_outputs(object, "outputs")?;
    let pipelines = optional_pipeline_spec(object, "pipelines")?;
    let template = optional_string(object, "template")?;
    let templates = optional_route_templates(find_entry(object, "templates"))?;
    let baud = optional_u32(object, "baud")?;
    let log_dir = optional_path(object, "log_dir", base_dir)?;
    Ok(
        RouteConfig {
            inputs,
            outputs,
            pipelines,
            template,
            templates,
            baud,
            display,
            log_dir,
        },
    )
}

// ---------------------------------------------------------------------------
// Files
// ---------------------------------------------------------------------------

/// The settings of a root object.
pub open spec fn root_settings(root: JsonModel, base_dir: Seq<char>) -> Result<
    AppModel,
    Seq<char>,
> {
    match object_of(root, "root"@) {
        Err(e) => Err(e),
        Ok(o) => match (
            path_member(o, "log_dir"@, base_dir),
            control_section(found(o, "control"@), base_dir),
            send_section(found(o, "send"@), base_dir),
            xbee_test_section(found(o, "xbee_test"@), base_dir),
            monitor_section(found(o, "monitor"@), base_dir),
            route_section(found(o, "route"@), base_dir),
        ) {
            (Err(e), _, _, _, _, _) => Err(e),
            (_, Err(e), _, _, _, _) => Err(e),
            (_, _, Err(e), _, _, _) => Err(e),
            (_, _, _, Err(e), _, _) => Err(e),
            (_, _, _, _, Err(e), _) => Err(e),
            (_, _, _, _, _, Err(e)) => Err(e),
            (Ok(log_dir), Ok(control), Ok(send), Ok(xbee_test), Ok(monitor), Ok(route)) => Ok(
                AppModel { log_dir, control, send, xbee_test, monitor, route },
            ),
        },
    }
}

fn read_root(root: &JsonValue, base_dir: &str) -> (r: Result<AppConfig, String>)
    ensures
        viewed(r) == root_settings(root.deep_view(), base_dir@),
{
    let object = expect_object(root, "root")?;
    let log_dir = optional_path(object, "log_dir", base_dir)?;
    let control = parse_control_config(find_entry(object, "control"), base_dir)?;
    let send = parse_send_config(find_entry(object, "send"), base_dir)?;
    let xbee_test = parse_xbee_test_config(find_entry(object, "xbee_test"), base_dir)?;
    let monitor = parse_monitor_config(find_entry(object, "monitor"), base_dir)?;
    let route = parse_route_config(find_entry(object, "route"), base_dir)?;
    Ok(AppConfig { log_dir, control, send, xbee_test, monitor, route })
}

/// A config file: its path, the directory that holds it, and its text or why it cannot be read.
#[derive(Debug)]
pub struct ConfigFile {
    pub path: String,
    pub base_dir: String,
    pub contents: Result<String, String>,
}

#[verifier::ext_equal]
pub struct ConfigFileModel {
    pub path: Seq<char>,
    pub base_dir: Seq<char>,
    pub contents: Result<Seq<char>, Seq<char>>,
}

impl DeepView for ConfigFile {
    type V = ConfigFileModel;

    open spec fn deep_view(&self) -> ConfigFileModel {
        ConfigFileModel {
            path: self.path@,
            base_dir: self.base_dir@,
            contents: viewed(self.contents),
        }
    }
}

/// The settings of a file.
pub open spec fn file_settings(file: ConfigFileModel) -> Result<AppModel, Seq<char>> {
    match file.contents {
        Err(e) => Err("failed to read config file "@ + file.path + ": "@ + e),
        Ok(text) => match json_text(text) {
            Err(e) => Err("failed to parse config file "@ + file.path + ": "@ + e),
            Ok(root) => match root_settings(root, file.base_dir) {
                Err(e) => Err(file.path + ": "@ + e),
                Ok(settings) => Ok(settings),
            },
        },
    }
}

pub fn load_config_file(file: &ConfigFile) -> (r: Result<AppConfig, String>)
    ensures
        viewed(r) == file_settings(file.deep_view()),
{
    let path = file.path.as_str();
    let text = match &file.contents {
        Ok(text) => text,
        Err(e) => {
            return Err(cat4("failed to read config file ", path, ": ", e.as_str()));
        },
    };
    let root = match JsonParser::new(text.as_str()).parse() {
        Ok(root) => root,
        Err(e) => {
            return Err(cat4("failed to parse config file ", path, ": ", e.as_str()));
        },
    };
    match read_root(&root, file.base_dir.as_str()) {
        Ok(settings) => Ok(settings),
        Err(e) => Err(cat3(path, ": ", e.as_str())),
    }
}

// ---------------------------------------------------------------------------
// Directories
// ---------------------------------------------------------------------------

/// One list of names comes before another: at the first difference its name does, or it ends.
pub open spec fn names_before(a: Seq<Seq<char>>, b: Seq<Seq<char>>) -> bool
    decreases a.len(),
{
    if b.len() == 0 {
        false
    } else if a.len() == 0 {
        true
    } else if a[0] != b[0] {
        before(a[0], b[0])
    } else {
        names_before(a.skip(1), b.skip(1))
    }
}

/// The order of paths: name by name.
pub open spec fn path_before(a: Seq<char>, b: Seq<char>) -> bool {
    names_before(pieces(a, '/'), pieces(b, '/'))
}

fn path_comes_before(a: &str, b: &str) -> (r: bool)
    ensures
        r == path_before(a@, b@),
{
    let x = split(a, '/');
    let y = split(b, '/');
    let ghost xs = x.deep_view();
    let ghost ys = y.deep_view();
    let mut i: usize = 0;
    assert(xs.skip(0) == xs && ys.skip(0) == ys);
    while i < x.len() && i < y.len()
        invariant
            i <= x.len(),
            i <= y.len(),
            xs == x.deep_view(),
            ys == y.deep_view(),
            xs == pieces(a@, '/'),
            ys == pieces(b@, '/'),
            names_before(xs, ys) == names_before(xs.skip(i as int), ys.skip(i as int)),
        decreases x.len() - i,
    {
        proof {
            assert(xs.skip(i as int).skip(1) == xs.skip(i + 1));
            assert(ys.skip(i as int).skip(1) == ys.skip(i + 1));
            assert(xs.skip(i as int)[0] == x@[i as int]@);
            assert(ys.skip(i as int)[0] == y@[i as int]@);
        }
        if comes_before(x[i], y[i]) {
            proof {
                lemma_before_irreflexive(x@[i as int]@);
            }
            return true;
        }
        if comes_before(y[i], x[i]) {
            proof {
                lemma_before_irreflexive(x@[i as int]@);
                if before(x@[i as int]@, y@[i as int]@) {
                    lemma_before_transitive(x@[i as int]@, y@[i as int]@, x@[i as int]@);
                }
            }
            return false;
        }
        proof {
            lemma_before_total(x@[i as int]@, y@[i as int]@);
        }
        i += 1;
    }
    i < y.len()
}

proof fn lemma_names_irreflexive(a: Seq<Seq<char>>)
    ensures
        !names_before(a, a),
    decreases a.len(),
{
    if a.len() > 0 {
        lemma_names_irreflexive(a.skip(1));
    }
}

proof fn lemma_names_transitive(a: Seq<Seq<char>>, b: Seq<Seq<char>>, c: Seq<Seq<char>>)
    requires
        names_before(a, b),
        names_before(b, c),
    ensures
        names_before(a, c),
    decreases a.len(),
{
    if a.len() > 0 && b.len() > 0 && c.len() > 0 {
        if a[0] == b[0] && b[0] == c[0] {
            lemma_names_transitive(a.skip(1), b.skip(1), c.skip(1));
        } else if a[0] != b[0] && b[0] != c[0] {
            lemma_before_transitive(a[0], b[0], c[0]);
            lemma_before_irreflexive(a[0]);
        }
    }
}

/// The files with one more, in front of the first that comes after it.
pub open spec fn filed(files: Seq<ConfigFileModel>, file: ConfigFileModel) -> Seq<ConfigFileModel>
    decreases files.len(),
{
    if files.len() > 0 && path_before(file.path, files.last().path) {
        filed(files.drop_last(), file).push(files.last())
    } else {
        files.push(file)
    }
}

/// The files in the order of their paths.
pub open spec fn in_path_order(files: Seq<ConfigFileModel>) -> Seq<ConfigFileModel>
    decreases files.len(),
{
    if files.len() == 0 {
        files
    } else {
        filed(in_path_order(files.drop_last()), files.last())
    }
}

/// No file comes before one that stands in front of it.
pub open spec fn path_ordered(files: Seq<ConfigFileModel>) -> bool {
    forall|i: int, j: int|
        0 <= i < j < files.len() ==> !path_before(
            (#[trigger] files[j]).path,
            (#[trigger] files[i]).path,
        )
}

proof fn lemma_filed(files: Seq<ConfigFileModel>, file: ConfigFileModel)
    requires
        path_ordered(files),
    ensures
        path_ordered(filed(files, file)),
        filed(files, file).to_multiset() == files.to_multiset().insert(file),
        filed(files, file).len() == files.len() + 1,
        forall|f: ConfigFileModel| #[trigger]
            filed(files, file).contains(f) ==> files.contains(f) || f == file,
    decreases files.len(),
{
    broadcast use vstd::seq_lib::group_to_multiset_ensures;

    let out = filed(files, file);
    if files.len() > 0 && path_before(file.path, files.last().path) {
        let front = files.drop_last();
        let inner = filed(front, file);
        lemma_filed(front, file);
        assert(files == front.push(files.last()));
        assert(out == inner.push(files.last()));
        assert(out.to_multiset() =~= files.to_multiset().insert(file));
        assert forall|i: int, j: int| 0 <= i < j < out.len() implies !path_before(
            (#[trigger] out[j]).path,
            (#[trigger] out[i]).path,
        ) by {
            if j < inner.len() {
                assert(out[i] == inner[i] && out[j] == inner[j]);
            } else {
                assert(inner.contains(inner[i]));
                if path_before(files.last().path, out[i].path) {
                    if out[i] == file {
                        lemma_names_transitive(
                            pieces(file.path, '/'),
                            pieces(files.last().path, '/'),
                            pieces(file.path, '/'),
                        );
                        lemma_names_irreflexive(pieces(file.path, '/'));
                    } else {
                        let k = choose|k: int| 0 <= k < front.len() && front[k] == out[i];
                        assert(files[k] == out[i]);
                        assert(files[files.len() - 1] == files.last());
                    }
                }
            }
        }
        assert forall|f: ConfigFileModel| #[trigger] out.contains(f) implies files.contains(f) || f
            == file by {
            let k = choose|k: int| 0 <= k < out.len() && out[k] == f;
            if k < inner.len() {
                assert(inner[k] == f);
                assert(inner.contains(f));
                if front.contains(f) {
                    let m = choose|m: int| 0 <= m < front.len() && front[m] == f;
                    assert(files[m] == f);
                }
            } else {
                assert(files[files.len() - 1] == f);
            }
        }
    } else {
        assert forall|i: int, j: int| 0 <= i < j < out.len() implies !path_before(
            (#[trigger] out[j]).path,
            (#[trigger] out[i]).path,
        ) by {
            if j == files.len() && path_before(file.path, files[i].path) {
                if i < files.len() - 1 {
                    lemma_order_step(file.path, files[i].path, files.last().path);
                    assert(!path_before(files[files.len() - 1].path, files[i].path));
                }
            }
        }
        assert forall|f: ConfigFileModel| #[trigger] out.contains(f) implies files.contains(f) || f
            == file by {
            let k = choose|k: int| 0 <= k < out.len() && out[k] == f;
            if k < files.len() {
                assert(files[k] == f);
            }
        }
    }
}

proof fn lemma_names_total(a: Seq<Seq<char>>, b: Seq<Seq<char>>)
    ensures
        a == b || names_before(a, b) || names_before(b, a),
    decreases a.len(),
{
    if a.len() > 0 && b.len() > 0 {
        if a[0] == b[0] {
            lemma_names_total(a.skip(1), b.skip(1));
            if a.skip(1) == b.skip(1) {
                assert(a.skip(1).len() == b.skip(1).len());
                assert forall|i: int| 0 <= i < a.len() implies a[i] == b[i] by {
                    if i > 0 {
                        assert(a[i] == a.skip(1)[i - 1]);
                        assert(b[i] == b.skip(1)[i - 1]);
                    }
                }
                assert(a =~= b);
            }
        } else {
            lemma_before_total(a[0], b[0]);
        }
    } else if a.len() == 0 && b.len() == 0 {
        assert(a =~= b);
    }
}

proof fn lemma_order_step(x: Seq<char>, low: Seq<char>, high: Seq<char>)
    requires
        path_before(x, low),
        !path_before(high, low),
    ensures
        path_before(x, high),
{
    let (a, b, c) = (pieces(x, '/'), pieces(low, '/'), pieces(high, '/'));
    lemma_names_total(b, c);
    if names_before(b, c) {
        lemma_names_transitive(a, b, c);
    }
}

/// The files of a directory are taken in the order of their paths: all of them, each one once.
pub proof fn law_files_are_ordered(files: Seq<ConfigFileModel>)
    ensures
        path_ordered(in_path_order(files)),
        in_path_order(files).to_multiset() == files.to_multiset(),
    decreases files.len(),
{
    broadcast use vstd::seq_lib::group_to_multiset_ensures;

    if files.len() > 0 {
        law_files_are_ordered(files.drop_last());
        lemma_filed(in_path_order(files.drop_last()), files.last());
        assert(files == files.drop_last().push(files.last()));
    }
}

fn sort_files(files: Vec<ConfigFile>) -> (sorted: Vec<ConfigFile>)
    ensures
        sorted.deep_view() == in_path_order(files.deep_view()),
{
    let mut rest = files;
    let ghost all = rest.deep_view();
    let ghost mut done: int = 0;
    let mut sorted: Vec<ConfigFile> = Vec::new();
    assert(all.skip(0) == all);
    assert(all.take(0) == Seq::<ConfigFileModel>::empty());
    assert(sorted.deep_view() =~= Seq::<ConfigFileModel>::empty());
    while rest.len() > 0
        invariant
            0 <= done <= all.len(),
            rest.deep_view() == all.skip(done),
            sorted.deep_view() == in_path_order(all.take(done)),
        decreases rest.len(),
    {
        let ghost before = rest.deep_view();
        assert(before.len() == rest.len());
        let file = rest.remove(0);
        proof {
            assert(file.deep_view() == before[0]);
            assert(before[0] == all[done]);
            assert(rest.deep_view() =~= before.skip(1));
            assert(all.skip(done).skip(1) =~= all.skip(done + 1));
            assert(all.take(done + 1).drop_last() == all.take(done));
            assert(all.take(done + 1).last() == all[done]);
        }
        file_in(&mut sorted, file);
        proof {
            done = done + 1;
        }
    }
    assert(all.take(done) == all);
    sorted
}

fn file_in(files: &mut Vec<ConfigFile>, file: ConfigFile)
    ensures
        final(files).deep_view() == filed(old(files).deep_view(), file.deep_view()),
{
    let ghost m = file.deep_view();
    let ghost all = files.deep_view();
    let mut n: usize = files.len();
    assert(all.take(n as int) == all);
    assert(all.skip(n as int) =~= Seq::<ConfigFileModel>::empty());
    assert(filed(all.take(n as int), m) + all.skip(n as int) =~= filed(all, m));
    while n > 0 && path_comes_before(file.path.as_str(), files[n - 1].path.as_str())
        invariant
            n <= files.len(),
            all == files.deep_view(),
            files.len() == all.len(),
            m == file.deep_view(),
            filed(all, m) == filed(all.take(n as int), m) + all.skip(n as int),
        decreases n,
    {
        proof {
            let t = all.take(n as int);
            assert(t.last() == files@[n - 1].deep_view());
            assert(t.drop_last() == all.take(n - 1));
            assert(filed(all.take(n - 1), m).push(t.last()) + all.skip(n as int) =~= filed(
                all.take(n - 1),
                m,
            ) + all.skip(n - 1));
        }
        n -= 1;
    }
    proof {
        let t = all.take(n as int);
        if n > 0 {
            assert(t.last() == files@[n - 1].deep_view());
        }
        assert(filed(t, m) == t.push(m));
    }
    files.insert(n, file);
    assert(files.deep_view() =~= all.take(n as int).push(m) + all.skip(n as int));
}

/// The settings with those of a file over them.
#[verifier::opaque]
pub open spec fn file_over(settings: AppModel, file: ConfigFileModel) -> Result<
    AppModel,
    Seq<char>,
> {
    match file_settings(file) {
        Err(e) => Err(e),
        Ok(over) => Ok(settings.merged(over)),
    }
}

fn merge_file(settings: &mut AppConfig, file: &ConfigFile) -> (r: Result<(), String>)
    ensures
        stepped(r, *final(settings)) == file_over(old(settings).deep_view(), file.deep_view()),
{
    reveal(file_over);
    let over = load_config_file(file)?;
    settings.merge_from(over);
    Ok(())
}

pub open spec fn file_step() -> spec_fn(AppModel, ConfigFileModel) -> Result<AppModel, Seq<char>> {
    |settings: AppModel, file: ConfigFileModel| file_over(settings, file)
}

/// The settings of files, one over the other, in the order of their paths.
pub open spec fn dir_settings(files: Seq<ConfigFileModel>) -> Result<AppModel, Seq<char>> {
    applied(file_step(), AppModel::empty(), in_path_order(files))
}

/// Puts the settings of the files of a directory one over the other.
pub fn load_config_dir(files: Vec<ConfigFile>) -> (r: Result<AppConfig, String>)
    ensures
        viewed(r) == dir_settings(files.deep_view()),
{
    let sorted = sort_files(files);
    load_in_order(&sorted)
}

fn load_in_order(files: &Vec<ConfigFile>) -> (r: Result<AppConfig, String>)
    ensures
        viewed(r) == applied(file_step(), AppModel::empty(), files.deep_view()),
{
    let ghost all = files.deep_view();
    let ghost step = file_step();
    let mut merged = AppConfig::default();
    let mut i: usize = 0;
    assert(all.take(0) == Seq::<ConfigFileModel>::empty());
    while i < files.len()
        invariant
            i <= files.len(),
            all == files.deep_view(),
            step == file_step(),
            applied(step, AppModel::empty(), all.take(i as int)) == Ok::<AppModel, Seq<char>>(
                merged.deep_view(),
            ),
        decreases files.len() - i,
    {
        proof {
            assert(all.take(i + 1).drop_last() == all.take(i as int));
            assert(all.take(i + 1).last() == files@[i as int].deep_view());
        }
        if let Err(e) = merge_file(&mut merged, &files[i]) {
            proof {
                lemma_applied_error(step, AppModel::empty(), all, i + 1, e@);
            }
            return Err(e);
        }
        i += 1;
    }
    assert(all.take(i as int) == all);
    Ok(merged)
}

/// A config file goes by its name: something, and behind the last dot `json`.
pub open spec fn is_config_name(name: Seq<char>) -> bool {
    match cut_at_last(name, '.') {
        Some((stem, extension)) => stem.len() > 0 && extension == "json"@,
        None => false,
    }
}

pub fn is_config_file(name: &str) -> (r: bool)
    ensures
        r == is_config_name(name@),
{
    match rsplit_once(name, '.') {
        Some((stem, extension)) => !stem.is_empty() && same(extension, "json"),
        None => false,
    }
}

/// What was found under a path: a file, or the files of a directory, or why these cannot be read.
#[derive(Debug)]
pub enum ConfigSource {
    File(ConfigFile),
    Directory(Result<Vec<ConfigFile>, String>),
}

impl ConfigSource {
    /// The settings that the source holds.
    pub open spec fn settings(&self) -> Result<AppModel, Seq<char>> {
        match self {
            ConfigSource::File(file) => file_settings(file.deep_view()),
            ConfigSource::Directory(Ok(files)) => dir_settings(files.deep_view()),
            ConfigSource::Directory(Err(e)) => Err(e@),
        }
    }
}

pub fn load_config(source: ConfigSource) -> (r: Result<AppConfig, String>)
    ensures
        viewed(r) == source.settings(),
{
    match source {
        ConfigSource::File(file) => load_config_file(&file),
        ConfigSource::Directory(Ok(files)) => load_config_dir(files),
        ConfigSource::Directory(Err(e)) => Err(e),
    }
}

/// Where settings are looked for: under a given path, under one found, or nowhere.
#[derive(Debug)]
pub enum ConfigLookup {
    Explicit(String),
    Discovered(String),
    Absent,
}

impl ConfigLookup {
    pub open spec fn place(&self) -> Option<Seq<char>> {
        match self {
            ConfigLookup::Explicit(path) => Some(path@),
            ConfigLookup::Discovered(path) => Some(path@),
            ConfigLookup::Absent => None,
        }
    }

    pub fn path(&self) -> (path: Option<&str>)
        ensures
            path.deep_view() == self.place(),
    {
        match self {
            ConfigLookup::Explicit(path) => Some(path.as_str()),
            ConfigLookup::Discovered(path) => Some(path.as_str()),
            ConfigLookup::Absent => None,
        }
    }

    /// A given path goes before what was found.
    pub fn prefer(explicit_path: Option<&str>, discovered: ConfigLookup) -> (lookup: ConfigLookup)
        ensures
            match explicit_path {
                Some(path) => lookup is Explicit && lookup->Explicit_0@ == path@,
                None => lookup == discovered,
            },
    {
        match explicit_path {
            Some(path) => ConfigLookup::Explicit(path.to_owned()),
            None => discovered,
        }
    }
}

/// Settings, and where they were looked for.
#[derive(Debug)]
pub struct LoadedConfig {
    pub config: AppConfig,
    pub lookup: ConfigLookup,
}

/// The settings of what stands under the path of a lookup, or nothing set.
pub fn load_config_or_default(lookup: ConfigLookup, source: Option<ConfigSource>) -> (r: Result<
    LoadedConfig,
    String,
>)
    ensures
        match (source, r) {
            (None, Ok(loaded)) => loaded.lookup == lookup && loaded.config.deep_view()
                == AppModel::empty(),
            (None, Err(_)) => false,
            (Some(source), Ok(loaded)) => loaded.lookup == lookup && source.settings() == Ok::<
                AppModel,
                Seq<char>,
            >(loaded.config.deep_view()),
            (Some(source), Err(e)) => source.settings() == Err::<AppModel, Seq<char>>(e@),
        },
{
    let config = match source {
        Some(source) => load_config(source)?,
        None => AppConfig::default(),
    };
    Ok(LoadedConfig { config, lookup })
}

} // verus!

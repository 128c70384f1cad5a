//! Laws of configuration files: what each member sets, and which of several files counts.
use crate::args::{applied, PortSpecModel};
use crate::config::{AppModel, ControlModel, MonitorModel, RouteModel, SendModel, XbeeTestModel};
use crate::config_file::{
    control_section, dir_settings, file_over, file_settings, file_step, filed, in_path_order,
    is_config_name, monitor_section, path_before, root_settings, route_section, section_display,
    send_section, xbee_test_section, ConfigFileModel,
};
use crate::config_load::{
    monitor_value, route_input, route_output, send_output, xbee_test_port_value,
};
use crate::display::{
    display_value, LineBreakMode, PortDisplayMode, PortDisplayModel, PortDisplayStream,
};
use crate::json::JsonModel;
use crate::paths::joined_path;
use crate::settings::{
    bool_member, display_entry, key_path, path_member, port_value, raw_display, required_member,
    scope_step, string_member, u32_member, ObjectModel,
};
use crate::table::found;
use crate::text::{decimal, lemma_last_at, lemma_number_of_decimal, lower, trimmed};
use vstd::prelude::*;

verus! {

/// The member holds this number.
pub open spec fn has_number(o: ObjectModel, key: Seq<char>, n: u32) -> bool {
    found(o, key) == Some(JsonModel::Number(decimal(n as nat)))
}

/// The member holds this text.
pub open spec fn has_text(o: ObjectModel, key: Seq<char>, text: Seq<char>) -> bool {
    found(o, key) == Some(JsonModel::String(text))
}

/// The member is not there.
pub open spec fn lacks_member(o: ObjectModel, key: Seq<char>) -> bool {
    found(o, key) is None
}

// ---------------------------------------------------------------------------
// Members
// ---------------------------------------------------------------------------

/// A member that is there is read, one that is not or is `null` is none, and one of another kind
/// is refused.
pub proof fn law_members_are_read(
    o: ObjectModel,
    key: Seq<char>,
    n: u32,
    text: Seq<char>,
    flag: bool,
    base_dir: Seq<char>,
)
    ensures
        has_number(o, key, n) ==> u32_member(o, key) == Ok::<Option<u32>, Seq<char>>(Some(n)),
        has_number(o, key, n) ==> string_member(o, key) is Err && bool_member(o, key) is Err,
        has_text(o, key, text) ==> string_member(o, key) == Ok::<Option<Seq<char>>, Seq<char>>(
            Some(text),
        ),
        has_text(o, key, text) ==> required_member(o, key) == Ok::<Seq<char>, Seq<char>>(text),
        has_text(o, key, text) ==> u32_member(o, key) is Err && bool_member(o, key) is Err,
        has_text(o, key, text) ==> path_member(o, key, base_dir) == Ok::<
            Option<Seq<char>>,
            Seq<char>,
        >(Some(joined_path(base_dir, text))),
        found(o, key) == Some(JsonModel::Bool(flag)) ==> bool_member(o, key) == Ok::<
            Option<bool>,
            Seq<char>,
        >(Some(flag)),
        found(o, key) is None || found(o, key) == Some(JsonModel::Null) ==> {
            &&& u32_member(o, key) == Ok::<Option<u32>, Seq<char>>(None)
            &&& string_member(o, key) == Ok::<Option<Seq<char>>, Seq<char>>(None)
            &&& bool_member(o, key) == Ok::<Option<bool>, Seq<char>>(None)
            &&& path_member(o, key, base_dir) == Ok::<Option<Seq<char>>, Seq<char>>(None)
            &&& required_member(o, key) is Err
        },
{
    lemma_number_of_decimal(n as nat);
}

/// A port in a file is an object with its name under `path` or `port`, its baud rate and its
/// display; a blank one is none.
pub proof fn law_port_objects(
    o: ObjectModel,
    key: Seq<char>,
    name: Seq<char>,
    n: u32,
    mode: Seq<char>,
)
    requires
        trimmed(name).len() > 0,
    ensures
        ({
            let r = port_value(JsonModel::Object(o), key);
            let named = has_text(o, "path"@, name) && (lacks_member(o, "port"@)) || lacks_member(
                o,
                "path"@,
            ) && has_text(o, "port"@, name);
            &&& named && has_number(o, "baud"@, n) && lacks_member(o, "display"@) ==> r == Ok::<
                Option<PortSpecModel>,
                Seq<char>,
            >(
                Some(
                    PortSpecModel {
                        port: trimmed(name),
                        baud: Some(n),
                        display_mode: None,
                        line_break_mode: None,
                    },
                ),
            )
            &&& named && lacks_member(o, "baud"@) && has_text(o, "display"@, mode) && display_value(
                mode,
            ) is Ok ==> r == Ok::<Option<PortSpecModel>, Seq<char>>(
                Some(
                    PortSpecModel {
                        port: trimmed(name),
                        baud: None,
                        display_mode: display_value(mode)->Ok_0.0,
                        line_break_mode: display_value(mode)->Ok_0.1,
                    },
                ),
            )
        }),
        port_value(JsonModel::Null, key) == Ok::<Option<PortSpecModel>, Seq<char>>(None),
{
    lemma_number_of_decimal(n as nat);
}

/// An output of `send` has its port, its baud rate and its format; its name is the port where
/// none is given.
pub proof fn law_send_output_objects(
    o: ObjectModel,
    key: Seq<char>,
    id: Seq<char>,
    port: Seq<char>,
    n: u32,
    format: Seq<char>,
)
    requires
        has_text(o, "port"@, port),
    ensures
        send_output(JsonModel::Object(o), key) matches Ok(r) ==> {
            &&& r.port == port
            &&& has_text(o, "id"@, id) ==> r.id == id
            &&& lacks_member(o, "id"@) ==> r.id == port
            &&& has_number(o, "baud"@, n) ==> r.baud == Some(n)
            &&& lacks_member(o, "baud"@) ==> r.baud is None
            &&& has_text(o, "format"@, format) ==> r.format == Some(format)
            &&& lacks_member(o, "format"@) ==> r.format is None
        },
        has_text(o, "id"@, id) && has_number(o, "baud"@, n) && has_text(o, "format"@, format)
            && lacks_member(o, "display"@) ==> send_output(JsonModel::Object(o), key) is Ok,
{
    lemma_number_of_decimal(n as nat);
}

/// An input and an output of `route` must have a name and a port, and may have a baud rate.
pub proof fn law_route_objects(
    o: ObjectModel,
    key: Seq<char>,
    id: Seq<char>,
    port: Seq<char>,
    n: u32,
)
    ensures
        has_text(o, "id"@, id) && has_text(o, "port"@, port) && lacks_member(o, "display"@) && (
        has_number(o, "baud"@, n) || lacks_member(o, "baud"@)) ==> {
            let input = route_input(JsonModel::Object(o), key);
            let output = route_output(JsonModel::Object(o), key);
            &&& input is Ok && input->Ok_0.id == id && input->Ok_0.port == port
            &&& output is Ok && output->Ok_0.id == id && output->Ok_0.port == port
            &&& has_number(o, "baud"@, n) ==> input->Ok_0.baud == Some(n) && output->Ok_0.baud
                == Some(n)
            &&& lacks_member(o, "baud"@) ==> input->Ok_0.baud is None && output->Ok_0.baud is None
        },
        lacks_member(o, "id"@) || lacks_member(o, "port"@) ==> route_input(
            JsonModel::Object(o),
            key,
        ) is Err && route_output(JsonModel::Object(o), key) is Err,
{
    lemma_number_of_decimal(n as nat);
}

// ---------------------------------------------------------------------------
// Sections
// ---------------------------------------------------------------------------

/// `raw` breaks the lines of all inputs by packet or by line, and `display` may say otherwise.
pub proof fn law_raw_sections(o: ObjectModel, port: Seq<char>, raw: bool)
    requires
        lacks_member(o, "display"@),
    ensures
        found(o, "raw"@) == Some(JsonModel::Bool(raw)) ==> section_display(o) is Ok
            && section_display(o)->Ok_0.line_break(port) == (if raw {
            LineBreakMode::Packet
        } else {
            LineBreakMode::Line
        }) && section_display(o)->Ok_0.input(port) == PortDisplayMode::HexUtf8,
        lacks_member(o, "raw"@) ==> section_display(o) == Ok::<PortDisplayModel, Seq<char>>(
            PortDisplayModel::empty(),
        ),
{
    let set = raw_display(
        if found(o, "raw"@) is Some {
            Some(raw)
        } else {
            None
        },
    );
    let none = PortDisplayModel::empty();
    assert(set.merged(none).modes =~= set.modes);
    assert(set.merged(none).line_breaks =~= set.line_breaks);
    assert(none.merged(none) =~= none);
}

/// The section of `control` sets its baud rate, its controller, its format and its log directory,
/// which is seen from the directory of the file.
pub proof fn law_control_section(
    o: ObjectModel,
    base_dir: Seq<char>,
    n: u32,
    controller: Seq<char>,
    format: Seq<char>,
    log_dir: Seq<char>,
)
    ensures
        control_section(Some(JsonModel::Object(o)), base_dir) matches Ok(c) ==> {
            &&& has_number(o, "baud"@, n) ==> c.baud == Some(n)
            &&& lacks_member(o, "baud"@) ==> c.baud is None
            &&& has_text(o, "controller"@, controller) ==> c.controller == Some(controller)
            &&& lacks_member(o, "controller"@) ==> c.controller is None
            &&& has_text(o, "format"@, format) ==> c.format == Some(format)
            &&& lacks_member(o, "format"@) ==> c.format is None
            &&& has_text(o, "log_dir"@, log_dir) ==> c.log_dir == Some(
                joined_path(base_dir, log_dir),
            )
            &&& lacks_member(o, "log_dir"@) ==> c.log_dir is None
            &&& section_display(o) == Ok::<PortDisplayModel, Seq<char>>(c.display)
            &&& found(o, "port"@) matches Some(v) ==> port_value(v, "port"@) == Ok::<
                Option<PortSpecModel>,
                Seq<char>,
            >(c.port)
            &&& lacks_member(o, "port"@) ==> c.port is None
            &&& lacks_member(o, "monitor_ports"@) ==> c.monitor_ports.len() == 0
        },
        control_section(None, base_dir) == Ok::<ControlModel, Seq<char>>(ControlModel::empty()),
{
    lemma_number_of_decimal(n as nat);
}

/// The section of `monitor` sets its baud rate and its log directory; one port may stand in place
/// of several.
pub proof fn law_monitor_section(o: ObjectModel, base_dir: Seq<char>, n: u32, log_dir: Seq<char>)
    ensures
        monitor_section(Some(JsonModel::Object(o)), base_dir) matches Ok(m) ==> {
            &&& has_number(o, "baud"@, n) ==> m.baud == Some(n)
            &&& lacks_member(o, "baud"@) ==> m.baud is None
            &&& has_text(o, "log_dir"@, log_dir) ==> m.log_dir == Some(
                joined_path(base_dir, log_dir),
            )
            &&& section_display(o) == Ok::<PortDisplayModel, Seq<char>>(m.display)
            &&& lacks_member(o, "ports"@) && lacks_member(o, "port"@) ==> m.ports.len() == 0
            &&& lacks_member(o, "ports"@) && found(o, "port"@) is Some ==> {
                let one = port_value(found(o, "port"@)->0, "port"@);
                &&& one is Ok
                &&& one->Ok_0 matches Some(port) ==> m.ports == seq![port]
                &&& one->Ok_0 is None ==> m.ports.len() == 0
            }
        },
        monitor_section(None, base_dir) == Ok::<MonitorModel, Seq<char>>(MonitorModel::empty()),
{
    lemma_number_of_decimal(n as nat);
}

/// The section of `send` sets its port, its baud rate, its format and its log directory.
pub proof fn law_send_section(
    o: ObjectModel,
    base_dir: Seq<char>,
    n: u32,
    format: Seq<char>,
    log_dir: Seq<char>,
)
    ensures
        send_section(Some(JsonModel::Object(o)), base_dir) matches Ok(s) ==> {
            &&& has_number(o, "baud"@, n) ==> s.baud == Some(n)
            &&& lacks_member(o, "baud"@) ==> s.baud is None
            &&& has_text(o, "format"@, format) ==> s.format == Some(format)
            &&& lacks_member(o, "format"@) ==> s.format is None
            &&& has_text(o, "log_dir"@, log_dir) ==> s.log_dir == Some(
                joined_path(base_dir, log_dir),
            )
            &&& found(o, "port"@) matches Some(v) ==> port_value(v, "port"@) == Ok::<
                Option<PortSpecModel>,
                Seq<char>,
            >(s.port)
            &&& lacks_member(o, "outputs"@) ==> s.outputs.len() == 0
            &&& lacks_member(o, "monitor_ports"@) ==> s.monitor_ports.len() == 0
        },
        send_section(None, base_dir) == Ok::<SendModel, Seq<char>>(SendModel::empty()),
{
    lemma_number_of_decimal(n as nat);
}

/// The section of `xbee_test` sets its mode, its two rates and its log directory.
pub proof fn law_xbee_test_section(
    o: ObjectModel,
    base_dir: Seq<char>,
    ac: u32,
    jf: u32,
    mode: Seq<char>,
    log_dir: Seq<char>,
)
    ensures
        xbee_test_section(Some(JsonModel::Object(o)), base_dir) matches Ok(x) ==> {
            &&& has_number(o, "ac_rate"@, ac) ==> x.ac_rate_hz == Some(ac)
            &&& lacks_member(o, "ac_rate"@) ==> x.ac_rate_hz is None
            &&& has_number(o, "jf_rate"@, jf) ==> x.jf_rate_hz == Some(jf)
            &&& lacks_member(o, "jf_rate"@) ==> x.jf_rate_hz is None
            &&& has_text(o, "mode"@, mode) ==> x.mode == Some(mode)
            &&& has_text(o, "log_dir"@, log_dir) ==> x.log_dir == Some(
                joined_path(base_dir, log_dir),
            )
            &&& lacks_member(o, "ports"@) ==> x.ports.len() == 0
        },
        xbee_test_section(None, base_dir) == Ok::<XbeeTestModel, Seq<char>>(XbeeTestModel::empty()),
{
    lemma_number_of_decimal(ac as nat);
    lemma_number_of_decimal(jf as nat);
}

/// The section of `route` sets its template, its baud rate and its log directory.
pub proof fn law_route_section(
    o: ObjectModel,
    base_dir: Seq<char>,
    n: u32,
    template: Seq<char>,
    log_dir: Seq<char>,
)
    ensures
        route_section(Some(JsonModel::Object(o)), base_dir) matches Ok(r) ==> {
            &&& has_number(o, "baud"@, n) ==> r.baud == Some(n)
            &&& lacks_member(o, "baud"@) ==> r.baud is None
            &&& has_text(o, "template"@, template) ==> r.template == Some(template)
            &&& lacks_member(o, "template"@) ==> r.template is None
            &&& has_text(o, "log_dir"@, log_dir) ==> r.log_dir == Some(
                joined_path(base_dir, log_dir),
            )
            &&& section_display(o) == Ok::<PortDisplayModel, Seq<char>>(r.display)
            &&& lacks_member(o, "inputs"@) ==> r.inputs.len() == 0
            &&& lacks_member(o, "outputs"@) ==> r.outputs.len() == 0
        },
        route_section(None, base_dir) == Ok::<RouteModel, Seq<char>>(RouteModel::empty()),
{
    lemma_number_of_decimal(n as nat);
}

/// A file holds one section for each command under its own name, and a log directory for all.
pub proof fn law_file_sections(o: ObjectModel, base_dir: Seq<char>, log_dir: Seq<char>)
    ensures
        root_settings(JsonModel::Object(o), base_dir) matches Ok(s) ==> {
            &&& control_section(found(o, "control"@), base_dir) == Ok::<ControlModel, Seq<char>>(
                s.control,
            )
            &&& send_section(found(o, "send"@), base_dir) == Ok::<SendModel, Seq<char>>(s.send)
            &&& xbee_test_section(found(o, "xbee_test"@), base_dir) == Ok::<
                XbeeTestModel,
                Seq<char>,
            >(s.xbee_test)
            &&& monitor_section(found(o, "monitor"@), base_dir) == Ok::<MonitorModel, Seq<char>>(
                s.monitor,
            )
            &&& route_section(found(o, "route"@), base_dir) == Ok::<RouteModel, Seq<char>>(s.route)
            &&& has_text(o, "log_dir"@, log_dir) ==> s.log_dir == Some(
                joined_path(base_dir, log_dir),
            )
            &&& lacks_member(o, "log_dir"@) ==> s.log_dir is None
        },
        o.len() == 0 ==> root_settings(JsonModel::Object(o), base_dir) == Ok::<AppModel, Seq<char>>(
            AppModel::empty(),
        ),
{
}

// ---------------------------------------------------------------------------
// Files
// ---------------------------------------------------------------------------

/// Of a setting in two files that of the later one counts, and that of the earlier one where the
/// later one has none.
pub proof fn law_later_settings_count(a: AppModel, b: AppModel)
    ensures
        ({
            let m = a.merged(b);
            &&& m.log_dir == if b.log_dir is Some { b.log_dir } else { a.log_dir }
            &&& m.control.port == if b.control.port is Some { b.control.port } else { a.control.port }
            &&& m.control.baud == if b.control.baud is Some { b.control.baud } else { a.control.baud }
            &&& m.control.controller == if b.control.controller is Some {
                b.control.controller
            } else {
                a.control.controller
            }
            &&& m.control.format == if b.control.format is Some {
                b.control.format
            } else {
                a.control.format
            }
            &&& m.control.log_dir == if b.control.log_dir is Some {
                b.control.log_dir
            } else {
                a.control.log_dir
            }
            &&& m.send.port == if b.send.port is Some { b.send.port } else { a.send.port }
            &&& m.send.baud == if b.send.baud is Some { b.send.baud } else { a.send.baud }
            &&& m.send.format == if b.send.format is Some { b.send.format } else { a.send.format }
            &&& m.send.log_dir == if b.send.log_dir is Some { b.send.log_dir } else { a.send.log_dir }
            &&& m.xbee_test.mode == if b.xbee_test.mode is Some {
                b.xbee_test.mode
            } else {
                a.xbee_test.mode
            }
            &&& m.xbee_test.ac_rate_hz == if b.xbee_test.ac_rate_hz is Some {
                b.xbee_test.ac_rate_hz
            } else {
                a.xbee_test.ac_rate_hz
            }
            &&& m.xbee_test.jf_rate_hz == if b.xbee_test.jf_rate_hz is Some {
                b.xbee_test.jf_rate_hz
            } else {
                a.xbee_test.jf_rate_hz
            }
            &&& m.monitor.baud == if b.monitor.baud is Some { b.monitor.baud } else { a.monitor.baud }
            &&& m.monitor.log_dir == if b.monitor.log_dir is Some {
                b.monitor.log_dir
            } else {
                a.monitor.log_dir
            }
            &&& m.route.baud == if b.route.baud is Some { b.route.baud } else { a.route.baud }
            &&& m.route.template == if b.route.template is Some {
                b.route.template
            } else {
                a.route.template
            }
            &&& m.route.log_dir == if b.route.log_dir is Some {
                b.route.log_dir
            } else {
                a.route.log_dir
            }
        }),
{
}

/// The files of a directory count in the order of their paths, in whatever order they are found.
pub proof fn law_directory_in_path_order(a: ConfigFileModel, b: ConfigFileModel)
    requires
        path_before(a.path, b.path),
        !path_before(b.path, a.path),
        file_settings(a) is Ok,
        file_settings(b) is Ok,
    ensures
        dir_settings(seq![a, b]) == Ok::<AppModel, Seq<char>>(
            AppModel::empty().merged(file_settings(a)->Ok_0).merged(file_settings(b)->Ok_0),
        ),
        dir_settings(seq![b, a]) == dir_settings(seq![a, b]),
{
    let none = Seq::<ConfigFileModel>::empty();
    let ab = seq![a, b];
    let ba = seq![b, a];
    assert(ab.drop_last() =~= seq![a]);
    assert(ba.drop_last() =~= seq![b]);
    assert(seq![a].drop_last() =~= none);
    assert(seq![b].drop_last() =~= none);
    assert(in_path_order(none) == none);
    assert(in_path_order(seq![a]) =~= seq![a]) by {
        assert(none.push(a) =~= seq![a]);
    }
    assert(in_path_order(seq![b]) =~= seq![b]) by {
        assert(none.push(b) =~= seq![b]);
    }
    assert(in_path_order(ab) =~= ab) by {
        assert(seq![a].push(b) =~= ab);
    }
    assert(in_path_order(ba) =~= ab) by {
        assert(filed(none, a) =~= seq![a]);
        assert(seq![a].push(b) =~= ab);
    }
    let step = file_step();
    reveal(file_over);
    assert(applied(step, AppModel::empty(), none) == Ok::<AppModel, Seq<char>>(AppModel::empty()));
    let first = AppModel::empty().merged(file_settings(a)->Ok_0);
    assert(applied(step, AppModel::empty(), seq![a]) == Ok::<AppModel, Seq<char>>(first));
}

/// A file belongs to the configuration where its name ends with `.json` and is more than that.
pub proof fn law_config_names(stem: Seq<char>, extension: Seq<char>)
    requires
        !extension.contains('.'),
    ensures
        is_config_name(stem + seq!['.'] + extension) <==> stem.len() > 0 && extension == "json"@,
        !is_config_name(extension),
{
    let name = stem + seq!['.'] + extension;
    assert forall|i: int| stem.len() < i < name.len() implies #[trigger] name[i] != '.' by {
        assert(name[i] == extension[i - stem.len() - 1]);
    }
    lemma_last_at(name, '.', stem.len() as int);
    assert(name.take(stem.len() as int) =~= stem);
    assert(name.skip(stem.len() as int + 1) =~= extension);
    assert forall|i: int| -1 < i < extension.len() implies #[trigger] extension[i] != '.' by {}
    lemma_last_at(extension, '.', -1);
}

// ---------------------------------------------------------------------------
// Entries
// ---------------------------------------------------------------------------

/// An entry of `display` sets the display of its target; below `input` or `rx` it does so for
/// inputs alone, below `output` or `tx` for outputs alone.
pub proof fn law_display_entries(
    config: PortDisplayModel,
    key: Seq<char>,
    target: Seq<char>,
    mode: Seq<char>,
)
    requires
        display_value(mode) is Ok,
        display_value(mode)->Ok_0.0 is Some || display_value(mode)->Ok_0.1 is Some,
    ensures
        ({
            let value = display_value(mode)->Ok_0;
            let text = JsonModel::String(mode);
            let scope = JsonModel::Object(seq![(target, text)]);
            let set = |stream: Option<PortDisplayStream>|
                Ok::<PortDisplayModel, Seq<char>>(config.assigned(((stream, target), value)));
            &&& display_entry(config, key, (target, text)) == set(None)
            &&& display_entry(config, key, ("input"@, scope)) == set(Some(PortDisplayStream::Input))
            &&& display_entry(config, key, ("rx"@, scope)) == set(Some(PortDisplayStream::Input))
            &&& display_entry(config, key, ("output"@, scope)) == set(
                Some(PortDisplayStream::Output),
            )
            &&& display_entry(config, key, ("tx"@, scope)) == set(Some(PortDisplayStream::Output))
        }),
{
    reveal_strlit("input");
    reveal_strlit("rx");
    reveal_strlit("output");
    reveal_strlit("tx");
    assert("input"@.len() == 5 && "rx"@.len() == 2 && "output"@.len() == 6 && "tx"@.len() == 2);
    assert("rx"@[0] == 'r' && "tx"@[0] == 't');
    let one = seq![(target, JsonModel::String(mode))];
    let none = Seq::<(Seq<char>, JsonModel)>::empty();
    assert(one.drop_last() =~= none);
    assert(one.last() == (target, JsonModel::String(mode)));
    let path = |name: Seq<char>| key_path(key, name);
    let into = |stream: PortDisplayStream, name: Seq<char>|
        scope_step(stream, path(name));
    lemma_one_applied(into(PortDisplayStream::Input, "input"@), config, one);
    lemma_one_applied(into(PortDisplayStream::Input, "rx"@), config, one);
    lemma_one_applied(into(PortDisplayStream::Output, "output"@), config, one);
    lemma_one_applied(into(PortDisplayStream::Output, "tx"@), config, one);
}

proof fn lemma_one_applied<S, T>(
    step: spec_fn(S, T) -> Result<S, Seq<char>>,
    start: S,
    items: Seq<T>,
)
    requires
        items.len() == 1,
    ensures
        applied(step, start, items) == step(start, items[0]),
{
    assert(items.drop_last() =~= Seq::<T>::empty());
    assert(applied(step, start, items.drop_last()) == Ok::<S, Seq<char>>(start));
}

/// A port of `xbee_test` is that of the base or of the rover, and has a name; one without an id
/// is none.
pub proof fn law_xbee_test_ports(
    o: ObjectModel,
    key: Seq<char>,
    id: Seq<char>,
    name: Seq<char>,
    n: u32,
)
    requires
        has_text(o, "id"@, id),
        has_text(o, "port"@, name),
        lacks_member(o, "path"@),
        trimmed(name).len() > 0,
        trimmed(id).len() > 0,
    ensures
        ({
            let r = xbee_test_port_value(JsonModel::Object(o), key);
            let side = lower(trimmed(trimmed(id)));
            &&& (side == "base"@ || side == "rover"@) && has_number(o, "baud"@, n) ==> r is Ok
                && r->Ok_0 is Some && r->Ok_0->0.id == side && r->Ok_0->0.port == trimmed(name)
                && r->Ok_0->0.baud == Some(n)
            &&& (side == "base"@ || side == "rover"@) && lacks_member(o, "baud"@) ==> r is Ok
                && r->Ok_0 is Some && r->Ok_0->0.baud is None
            &&& side != "base"@ && side != "rover"@ ==> r is Err
        }),
        xbee_test_port_value(JsonModel::Null, key) is Ok,
{
    lemma_number_of_decimal(n as nat);
}

/// A monitor of `send` is a port with a format.
pub proof fn law_monitor_objects(
    o: ObjectModel,
    key: Seq<char>,
    name: Seq<char>,
    n: u32,
    format: Seq<char>,
)
    requires
        has_text(o, "port"@, name),
        lacks_member(o, "path"@),
        lacks_member(o, "display"@),
        trimmed(name).len() > 0,
        has_number(o, "baud"@, n),
    ensures
        ({
            let r = monitor_value(JsonModel::Object(o), key);
            &&& has_text(o, "format"@, format) || lacks_member(o, "format"@) ==> r is Ok && r->Ok_0
                is Some && r->Ok_0->0.port == trimmed(name) && r->Ok_0->0.baud == Some(n)
            &&& has_text(o, "format"@, format) ==> r->Ok_0->0.format == Some(format)
            &&& lacks_member(o, "format"@) ==> r->Ok_0->0.format is None
        }),
{
    lemma_number_of_decimal(n as nat);
}

} // verus!

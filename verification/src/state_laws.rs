//! Laws of the headers of sessions: when they are drawn and what they tell.
use crate::config::RouteTemplateModel;
use crate::control_settings::ControlSettingsModel;
use crate::format::{format_name, format_packet_len, OutputFormat};
use crate::io_settings::IoSettingsModel;
use crate::monitor::{input_at, inputs_summary, monitor_header, MonitorSettingsModel};
use crate::output_plan::OutputSettingsModel;
use crate::pipeline::PipelineModel;
use crate::route_pipeline::{
    all_inputs, builtin_templates, log_line, pipeline_ids, route_header, template_line,
    template_list, RouteSettingsModel,
};
use crate::runtime::fresh_inputs;
use crate::send_settings::SendSettingsModel;
use crate::session::{InputSpecModel, ObservedSpecModel};
use crate::states::{
    before_start, control_started, controller_line, format_line, io_started, is_sent,
    lines_of_input, lines_of_inputs, monitor_line, output_line, rate_text, send_started, status_due,
    ControlStateModel, HeaderFormatModel, HeaderMonitorModel, HeaderOutputModel, SendingStateModel,
};
use crate::text::{decimal, group_holds, holds, joined, padded};
use crate::text_laws::law_padded;
use crate::xbee_mock::{kind_label, mode_name, role_name, XbeeMockTxFormat};
use crate::xbee_mock_driver::{mock_result_text, port_at, tx_result_text};
use crate::xbee_mock_plan::MockSettingsModel;
use crate::xbee_talk::{talk_header, TalkSettingsModel};
use vstd::prelude::*;

verus! {

broadcast use group_holds;

// ---------------------------------------------------------------------------
// When
// ---------------------------------------------------------------------------

/// The first header is drawn at once, and then one every 200 ms at most; only a header that
/// changed is handed on.
pub proof fn law_header_is_drawn_in_time(s: SendingStateModel, started_at: u64, now: u64)
    requires
        started_at >= 200_000_000,
        s.last_status_update <= now,
    ensures
        status_due(before_start(started_at), started_at),
        ({
            let (next, header) = s.status_made(now);
            let due = now - s.last_status_update >= 200_000_000;
            &&& !due ==> next == s && header is None
            &&& due ==> next.last_status_update == now && next.header_lines == s.header(now).1
            &&& header is Some ==> due && header->0 == s.header(now).1 && header->0
                != s.header_lines
            &&& due && header is None ==> s.header(now).1 == s.header_lines
        }),
{
}

/// The same holds of `control`.
pub proof fn law_control_header_is_drawn_in_time(s: ControlStateModel, now: u64)
    requires
        s.last_status_update <= now,
    ensures
        ({
            let (next, header) = s.status_made(now);
            let due = now - s.last_status_update >= 200_000_000;
            &&& !due ==> next == s && header is None
            &&& due ==> next.last_status_update == now && next.header_lines == s.header(now).1
            &&& header is Some ==> due && header->0 == s.header(now).1 && header->0
                != s.header_lines
            &&& due && header is None ==> s.header(now).1 == s.header_lines
        }),
{
}

// ---------------------------------------------------------------------------
// Outputs and inputs
// ---------------------------------------------------------------------------

/// A session of `io` shows every output, watches its inputs with checksums, and is not typed
/// into.
pub proof fn law_io_starts_as_set(s: IoSettingsModel, log_path: Seq<char>, started_at: u64, i: int)
    requires
        0 <= i < s.outputs.len(),
    ensures
        ({
            let m = io_started(s, log_path, started_at);
            let o = s.outputs[i];
            &&& m.outputs.len() == s.outputs.len()
            &&& m.outputs[i].id == o.session.id
            &&& m.outputs[i].port == o.session.port
            &&& m.outputs[i].baud_rate == o.session.baud_rate
            &&& m.outputs[i].format == o.format
            &&& m.outputs[i].sending is Some
            &&& m.outputs[i].sending->0.target == o.rate_hz.label
            &&& m.outputs[i].sending->0.payload_len == format_packet_len(o.format)
            &&& m.inputs == fresh_inputs(s.observed_inputs, true)
            &&& m.logging_enabled == s.logging_enabled && m.log_path == log_path
            &&& !m.interactive
        }),
{
}

/// A session of `send` shows every output, with what is sent where it sends by itself, and watches
/// its inputs without checksums.
pub proof fn law_send_starts_as_set(
    s: SendSettingsModel,
    log_path: Seq<char>,
    started_at: u64,
    i: int,
)
    requires
        0 <= i < s.outputs.len(),
    ensures
        ({
            let m = send_started(s, log_path, started_at);
            let o = s.outputs[i];
            &&& m.outputs.len() == s.outputs.len()
            &&& m.outputs[i].id == o.session.id
            &&& m.outputs[i].port == o.session.port
            &&& m.outputs[i].baud_rate == o.session.baud_rate
            &&& m.outputs[i].format == o.format
            &&& m.outputs[i].sending is Some <==> !s.interactive
            &&& !s.interactive ==> m.outputs[i].sending->0.target == decimal(o.rate_hz as nat)
                + " Hz"@ && m.outputs[i].sending->0.payload_len == format_packet_len(o.format)
            &&& m.inputs == fresh_inputs(s.observed_inputs, false)
            &&& m.logging_enabled == s.logging_enabled && m.log_path == log_path
            &&& m.interactive == s.interactive
        }),
{
}

/// A format of an input has a line of its own in the header of `send` exactly where nothing is
/// sent in it on the same port.
pub proof fn law_received_formats_have_a_line(
    outputs: Seq<OutputSettingsModel<u32>>,
    inputs: Seq<ObservedSpecModel>,
    port: Seq<char>,
    format: OutputFormat,
)
    ensures
        lines_of_inputs(outputs, inputs).contains(HeaderFormatModel { port, format }) <==> (exists|
            i: int,
        |
            0 <= i < inputs.len() && (#[trigger] inputs[i]).port == port && inputs[i].formats.contains(
                format,
            )) && !is_sent(outputs, port, format),
    decreases inputs.len(),
{
    let line = HeaderFormatModel { port, format };
    let all = lines_of_inputs(outputs, inputs);
    if inputs.len() > 0 {
        let rest = inputs.drop_last();
        let last = inputs.last();
        law_received_formats_have_a_line(outputs, rest, port, format);
        lemma_lines_of_input(outputs, last.port, last.formats, line);
        let before = lines_of_inputs(outputs, rest);
        let own = lines_of_input(outputs, last.port, last.formats);
        if before.contains(line) {
            let k = before.index_of(line);
            assert(all[k] == line);
            let i = choose|i: int|
                0 <= i < rest.len() && (#[trigger] rest[i]).port == port && rest[i].formats.contains(
                    format,
                );
            assert(inputs[i] == rest[i]);
        }
        if own.contains(line) {
            let k = own.index_of(line);
            assert(all[before.len() + k] == line);
            assert(inputs[inputs.len() - 1] == last);
        }
        if all.contains(line) {
            let k = all.index_of(line);
            if k < before.len() {
                assert(before[k] == line);
            } else {
                assert(own[k - before.len()] == line);
            }
        }
        if exists|i: int|
            0 <= i < inputs.len() && (#[trigger] inputs[i]).port == port && inputs[i].formats.contains(
                format,
            ) {
            let i = choose|i: int|
                0 <= i < inputs.len() && (#[trigger] inputs[i]).port == port
                    && inputs[i].formats.contains(format);
            if i < rest.len() {
                assert(rest[i] == inputs[i]);
            }
        }
    }
}

proof fn lemma_lines_of_input(
    outputs: Seq<OutputSettingsModel<u32>>,
    port: Seq<char>,
    formats: Seq<OutputFormat>,
    line: HeaderFormatModel,
)
    ensures
        lines_of_input(outputs, port, formats).contains(line) <==> line.port == port
            && formats.contains(line.format) && !is_sent(outputs, port, line.format),
    decreases formats.len(),
{
    let all = lines_of_input(outputs, port, formats);
    if formats.len() > 0 {
        let rest = formats.drop_last();
        lemma_lines_of_input(outputs, port, rest, line);
        let before = lines_of_input(outputs, port, rest);
        if before.contains(line) {
            let k = before.index_of(line);
            assert(all[k] == line);
            let i = rest.index_of(line.format);
            assert(formats[i] == line.format);
        }
        if all.contains(line) {
            let k = all.index_of(line);
            if k < before.len() {
                assert(before[k] == line);
            } else {
                assert(formats[formats.len() - 1] == line.format);
            }
        }
        if line.port == port && formats.contains(line.format) && !is_sent(
            outputs,
            port,
            line.format,
        ) {
            let i = formats.index_of(line.format);
            if i < rest.len() {
                assert(rest[i] == line.format);
            } else {
                assert(all[before.len() as int] == line);
            }
        }
    }
}

/// The line of an output names it with its port, its baud rate and its format, the rate that comes
/// in on its port, and what it sends where it does.
pub proof fn law_output_line(o: HeaderOutputModel, rate: nat)
    ensures
        ({
            let line = output_line(o, rate);
            &&& holds(line, "output["@ + o.id)
            &&& holds(line, "]: "@ + o.port)
            &&& holds(line, decimal(o.baud_rate as nat) + " baud, format="@ + format_name(o.format))
            &&& o.sending is None ==> holds(line, ", rx="@ + rate_text(rate))
            &&& o.sending matches Some(sending) ==> {
                &&& holds(line, ", tx_target="@ + sending.target)
                &&& holds(line, ", rx="@ + rate_text(rate))
                &&& holds(line, decimal(sending.payload_len) + " bytes"@)
            }
            &&& rate_text(rate) == decimal(rate) + ".0 Hz"@
        }),
{
}

/// The line of a format tells its port, its name and its rate.
pub proof fn law_format_line(f: HeaderFormatModel, rate: nat)
    ensures
        holds(format_line(f, rate), "input["@ + f.port),
        holds(format_line(f, rate), ":"@ + format_name(f.format)),
        holds(format_line(f, rate), "]: rx="@ + rate_text(rate)),
{
}

/// The lines of `control` tell of the controller by its name and its path, of the output with what
/// it is sent, and of each monitor.
pub proof fn law_control_lines(
    s: ControlSettingsModel,
    product: Option<Seq<char>>,
    path: Seq<char>,
    log_path: Seq<char>,
    started_at: u64,
    now: u64,
)
    ensures
        ({
            let m = control_started(s, product, path, log_path, started_at);
            let lines = m.header(now).1;
            &&& lines.len() >= 2
            &&& product matches Some(name) ==> holds(lines[0], "controller: "@ + name)
            &&& holds(lines[0], " ("@ + path)
            &&& holds(lines[1], "output: "@ + s.plan.output.port)
            &&& holds(lines[1], " @ "@ + decimal(s.plan.output.baud_rate as nat))
            &&& holds(lines[1], format_name(s.plan.format) + ", tx_target="@ + decimal(
                s.plan.rate_hz as nat,
            ) + " Hz"@)
            &&& m.monitors.len() == s.plan.monitors.len()
            &&& m.inputs == fresh_inputs(s.plan.observed_inputs, true)
            &&& m.read_usb_enabled <==> s.plan.format == OutputFormat::PacketAcV6
        }),
{
    let m = control_started(s, product, path, log_path, started_at);
    let lines = m.header(now).1;
    assert(lines[0] == m.controller_line && lines[1] == m.output_line);
}

/// The line of a monitor names its port, its baud rate and its formats.
pub proof fn law_monitor_line(m: HeaderMonitorModel, rates: Seq<Seq<char>>)
    ensures
        ({
            let line = monitor_line(m, rates);
            &&& holds(line, "monitor: "@ + m.port)
            &&& holds(line, " @ "@ + decimal(m.baud_rate as nat))
            &&& m.formats.len() == 0 ==> holds(line, " baud, rx_format="@ + "raw"@)
            &&& m.formats.len() > 0 ==> holds(
                line,
                " baud, rx_format="@ + joined(
                    m.formats.map_values(|f: OutputFormat| format_name(f)),
                    "+"@,
                ),
            )
            &&& rates.len() > 0 ==> holds(line, ", "@ + joined(rates, ", "@))
        }),
{
}

// ---------------------------------------------------------------------------
// Other headers
// ---------------------------------------------------------------------------

/// Where several texts stand together, each of them is there.
pub proof fn law_joined_texts(parts: Seq<Seq<char>>, sep: Seq<char>, i: int)
    requires
        0 <= i < parts.len(),
    ensures
        holds(joined(parts, sep), parts[i]),
    decreases parts.len(),
{
    if parts.len() > 1 {
        let rest = parts.drop_last();
        if i < rest.len() {
            law_joined_texts(rest, sep, i);
            assert(rest[i] == parts[i]);
        }
    }
}

/// Each input is named with its port and its baud rate.
pub proof fn law_inputs_summary(inputs: Seq<InputSpecModel>, i: int)
    requires
        0 <= i < inputs.len(),
    ensures
        holds(inputs_summary(inputs), inputs[i].port + "@"@ + decimal(inputs[i].baud_rate as nat)),
{
    let parts = inputs.map_values(|i: InputSpecModel| input_at(i));
    law_joined_texts(parts, ", "@, i);
    assert(parts[i] == inputs[i].port + "@"@ + decimal(inputs[i].baud_rate as nat));
}

/// The headers of `monitor` and `xbee-talk` name their ports, and where the log goes.
pub proof fn law_port_headers(m: MonitorSettingsModel, t: TalkSettingsModel, log_path: Seq<char>)
    ensures
        monitor_header(m, log_path)[0] == "ports: "@ + inputs_summary(m.inputs),
        m.logging_enabled ==> holds(monitor_header(m, log_path)[1], log_path),
        holds(talk_header(t, log_path)[0], "output: "@ + t.output.port),
        holds(talk_header(t, log_path)[0], " @ "@ + decimal(t.output.baud_rate as nat)),
        talk_header(t, log_path)[1] == "input: "@ + inputs_summary(t.inputs),
        t.logging_enabled ==> holds(talk_header(t, log_path)[2], log_path),
{
}

/// The header of `route` names every input, every output and every pipeline, and the template.
pub proof fn law_route_header(s: RouteSettingsModel, log_path: Seq<char>, i: int, k: int)
    ensures
        ({
            let lines = route_header(s, log_path);
            let n = if s.template_name is Some { 1int } else { 0 };
            &&& lines.len() == 5 + n
            &&& 0 <= i < s.pipeline.len() && 0 <= k < s.pipeline[i].inputs.len() ==> holds(
                lines[0],
                s.pipeline[i].inputs[k],
            )
            &&& s.template_name matches Some(name) ==> lines[2] == "template: "@ + name
            &&& 0 <= i < s.pipeline.len() ==> holds(lines[2 + n], s.pipeline[i].id)
            &&& s.logging_enabled ==> holds(lines[3 + n], log_path)
        }),
{
    let lines = route_header(s, log_path);
    let n = if s.template_name is Some { 1int } else { 0 };
    let inputs = all_inputs(s.pipeline);
    assert(lines[0] == "inputs: "@ + joined(inputs, ", "@));
    if 0 <= i < s.pipeline.len() {
        let ids = pipeline_ids(s.pipeline);
        law_joined_texts(ids, ", "@, i);
        assert(lines[2 + n] == "pipelines: "@ + joined(ids, ", "@));
        if 0 <= k < s.pipeline[i].inputs.len() {
            let j = lemma_all_inputs(s.pipeline, i, k);
            law_joined_texts(inputs, ", "@, j);
        }
    }
    assert(lines[3 + n] == log_line(s.logging_enabled, log_path));
}

proof fn lemma_all_inputs(pipelines: Seq<PipelineModel>, i: int, k: int) -> (j: int)
    requires
        0 <= i < pipelines.len(),
        0 <= k < pipelines[i].inputs.len(),
    ensures
        0 <= j < all_inputs(pipelines).len(),
        all_inputs(pipelines)[j] == pipelines[i].inputs[k],
    decreases pipelines.len(),
{
    let rest = pipelines.drop_last();
    if i < rest.len() {
        lemma_all_inputs(rest, i, k)
    } else {
        all_inputs(rest).len() + k
    }
}

/// The list of templates has a line for each that begins with its name and tells what it is for.
pub proof fn law_template_list(templates: Seq<RouteTemplateModel>, bin_name: Seq<char>, i: int)
    requires
        0 <= i < templates.len(),
    ensures
        template_list(templates, bin_name).len() == templates.len() + 5,
        template_list(templates, bin_name)[i + 1] == template_line(templates[i]),
        holds(template_line(templates[i]), templates[i].id),
        templates[i].description matches Some(text) ==> holds(template_line(templates[i]), text),
{
    let t = templates[i];
    assert(padded(t.id, 16) =~= t.id + padded(t.id, 16).skip(t.id.len() as int)) by {
        law_padded(t.id, 16, 0);
    }
    assert(template_list(templates, bin_name)[i + 1] == template_line(t));
}

/// Two templates come with the program: `merge` and `one-to-one`.
pub proof fn law_builtin_templates()
    ensures
        builtin_templates().len() == 2,
        builtin_templates()[0].id == "merge"@,
        builtin_templates()[1].id == "one-to-one"@,
        builtin_templates()[1].pipelines.len() == 0,
        builtin_templates()[0].description is Some && builtin_templates()[1].description is Some,
{
}

/// What ends a mock tells its role, its pair and its pattern, the port of each direction, and for
/// each format how many packets went out and how many failed.
pub proof fn law_mock_result(s: MockSettingsModel, f: XbeeMockTxFormat, sent: u64, errors: u64)
    ensures
        holds(mock_result_text(s), "role="@ + role_name(s.role)),
        holds(mock_result_text(s), " pair="@ + decimal(s.pair_number as nat)),
        holds(mock_result_text(s), " pattern="@ + mode_name(s.traffic_pattern)),
        holds(mock_result_text(s), " up="@ + port_at(s.uplink_port)),
        holds(mock_result_text(s), " down="@ + port_at(s.downlink_port)),
        port_at(s.uplink_port) == s.uplink_port.port + "@"@ + decimal(
            s.uplink_port.baud_rate as nat,
        ),
        holds(tx_result_text(f, sent, errors), ": sent="@ + decimal(sent as nat)),
        holds(tx_result_text(f, sent, errors), " tx_err="@ + decimal(errors as nat)),
        holds(
            tx_result_text(f, sent, errors),
            kind_label(f.kind) + "@"@ + decimal(f.rate_hz as nat) + "Hz"@,
        ),
{
    reveal(mock_result_text);
}

} // verus!

//! Settings are given by flags or by the assignments of `--config`, to the same effect.
use crate::args::{setting_step, value_behind};
use crate::control::{
    control_arg, control_setting, format_options, monitor_names, port_names, rate_names,
    ControlCliModel, ControlCliOptions,
};
use crate::io::{input_names, io_arg, io_setting, output_names, IoCliModel, IoRuntimeOptions};
use crate::monitor::{monitor_arg, monitor_setting, MonitorCliOptions, MonitorOptionsModel};
use crate::round_trip::{is_trim, law_config_sets_one};
use crate::route::{route_arg, route_setting, RouteCliOptions, RouteOptionsModel};
use crate::rtt::{rtt_arg, rtt_setting, RttOptionsModel, XbeeRttCliOptions};
use crate::send::{send_arg, send_setting, SendCliOptions, SendOptionsModel};
use crate::text::{begins, has_prefix, upper};
use crate::xbee_mock::{mock_arg, mock_setting, MockOptionsModel, XbeeMockCliOptions};
use crate::xbee_talk::{talk_arg, talk_setting, TalkOptionsModel, XbeeTalkCliOptions};
use vstd::prelude::*;

verus! {

/// Both are refused, or both give the same.
pub open spec fn alike<O>(a: Result<O, Seq<char>>, b: Result<O, Seq<char>>) -> bool {
    match (a, b) {
        (Ok(x), Ok(y)) => x == y,
        (Err(_), Err(_)) => true,
        _ => false,
    }
}

/// A value that an assignment holds whole: it has no comma, and no white space at its ends.
pub open spec fn assignable(v: Seq<char>) -> bool {
    is_trim(v) && forall|i: int| 0 <= i < v.len() ==> #[trigger] v[i] != ','
}

/// The arguments that set a key by assignment.
pub open spec fn assigned(key: Seq<char>, v: Seq<char>) -> Seq<Seq<char>> {
    seq!["--config"@, key + "="@ + v]
}

/// The arguments that set a flag.
pub open spec fn flagged(flag: Seq<char>, v: Seq<char>) -> Seq<Seq<char>> {
    seq![flag, v]
}

proof fn lemma_key(key: Seq<char>)
    requires
        key == "RATE"@
            || key == "FORMAT"@
            || key == "DISPLAY"@
            || key == "LOG_DIR"@
            || key == "BAUD"@
            || key == "PAYLOAD_SIZE"@
            || key == "COUNT"@
            || key == "INTERVAL_MS"@
            || key == "CONNECT_TIMEOUT_MS"@
            || key == "PROBE_TIMEOUT_MS"@
            || key == "TEMPLATE"@
            || key == "ROLE"@
            || key == "CONTROLLER"@,
    ensures
        is_trim(key),
        upper(key) == key,
        forall|i: int| 0 <= i < key.len() ==> #[trigger] key[i] != '=' && key[i] != ',',
{
    reveal_strlit("RATE");
    reveal_strlit("FORMAT");
    reveal_strlit("DISPLAY");
    reveal_strlit("LOG_DIR");
    reveal_strlit("BAUD");
    reveal_strlit("PAYLOAD_SIZE");
    reveal_strlit("COUNT");
    reveal_strlit("INTERVAL_MS");
    reveal_strlit("CONNECT_TIMEOUT_MS");
    reveal_strlit("PROBE_TIMEOUT_MS");
    reveal_strlit("TEMPLATE");
    reveal_strlit("ROLE");
    reveal_strlit("CONTROLLER");
    assert(upper(key) =~= key);
}

/// A word without `=` is no assignment of an option.
pub proof fn lemma_word_is_no_assignment(arg: Seq<char>, names: Seq<Seq<char>>)
    requires
        forall|i: int| 0 <= i < arg.len() ==> #[trigger] arg[i] != '=',
    ensures
        value_behind(arg, names) is None,
    decreases names.len(),
{
    reveal_strlit("=");
    if names.len() > 0 {
        let prefix = names[0] + "="@;
        assert(prefix.last() == '=');
        if has_prefix(arg, prefix) {
            assert(arg[prefix.len() - 1] == prefix[prefix.len() - 1]);
        }
        lemma_word_is_no_assignment(arg, names.skip(1));
    }
}

proof fn lemma_flag(arg: Seq<char>)
    requires
        arg == "--config"@
            || arg == "--controller"@
            || arg == "--format"@
            || arg == "--rate"@
            || arg == "--display"@
            || arg == "--log-dir"@,
    ensures
        value_behind(arg, port_names()) is None,
        value_behind(arg, monitor_names()) is None,
        value_behind(arg, format_options()) is None,
        value_behind(arg, rate_names()) is None,
        value_behind(arg, input_names()) is None,
        value_behind(arg, output_names()) is None,
{
    reveal_strlit("--config");
    reveal_strlit("--controller");
    reveal_strlit("--format");
    reveal_strlit("--rate");
    reveal_strlit("--display");
    reveal_strlit("--log-dir");
    assert(forall|i: int| 0 <= i < arg.len() ==> #[trigger] arg[i] != '=');
    lemma_word_is_no_assignment(arg, port_names());
    lemma_word_is_no_assignment(arg, monitor_names());
    lemma_word_is_no_assignment(arg, format_options());
    lemma_word_is_no_assignment(arg, rate_names());
    lemma_word_is_no_assignment(arg, input_names());
    lemma_word_is_no_assignment(arg, output_names());
}

/// The flags and the keys are told apart by their lengths, or by a character.
proof fn lemma_words()
    ensures
        "-b"@.len() == 2,
        "-c"@.len() == 2,
        "-f"@.len() == 2,
        "-i"@.len() == 2,
        "-m"@.len() == 2,
        "-n"@.len() == 2,
        "-o"@.len() == 2,
        "-p"@.len() == 2,
        "-r"@.len() == 2,
        "BAUD"@.len() == 4,
        "PAIR"@.len() == 4,
        "RATE"@.len() == 4,
        "ROLE"@.len() == 4,
        "COUNT"@.len() == 5,
        "--baud"@.len() == 6,
        "--port"@.len() == 6,
        "--rate"@.len() == 6,
        "--role"@.len() == 6,
        "FORMAT"@.len() == 6,
        "--count"@.len() == 7,
        "--input"@.len() == 7,
        "DISPLAY"@.len() == 7,
        "LOG_DIR"@.len() == 7,
        "--config"@.len() == 8,
        "--format"@.len() == 8,
        "--option"@.len() == 8,
        "--output"@.len() == 8,
        "TEMPLATE"@.len() == 8,
        "--display"@.len() == 9,
        "--log-dir"@.len() == 9,
        "--monitor"@.len() == 9,
        "RX_FORMAT"@.len() == 9,
        "TX_FORMAT"@.len() == 9,
        "--template"@.len() == 10,
        "CONTROLLER"@.len() == 10,
        "INTERVAL_MS"@.len() == 11,
        "--controller"@.len() == 12,
        "--input-port"@.len() == 12,
        "PAYLOAD_SIZE"@.len() == 12,
        "--interactive"@.len() == 13,
        "--interval-ms"@.len() == 13,
        "--output-port"@.len() == 13,
        "--payload-size"@.len() == 14,
        "TRAFFIC_PATTERN"@.len() == 15,
        "--list-templates"@.len() == 16,
        "PROBE_TIMEOUT_MS"@.len() == 16,
        "--probe-timeout-ms"@.len() == 18,
        "CONNECT_TIMEOUT_MS"@.len() == 18,
        "--connect-timeout-ms"@.len() == 20,
        "--baud"@ != "--port"@,
        "--config"@ != "--output"@,
        "--display"@ != "--monitor"@,
        "--format"@ != "--config"@,
        "--format"@ != "--output"@,
        "--log-dir"@ != "--display"@,
        "--log-dir"@ != "--monitor"@,
        "--rate"@ != "--baud"@,
        "--rate"@ != "--port"@,
        "LOG_DIR"@ != "DISPLAY"@,
{
    reveal_strlit("-b");
    reveal_strlit("-c");
    reveal_strlit("-f");
    reveal_strlit("-i");
    reveal_strlit("-m");
    reveal_strlit("-n");
    reveal_strlit("-o");
    reveal_strlit("-p");
    reveal_strlit("-r");
    reveal_strlit("BAUD");
    reveal_strlit("PAIR");
    reveal_strlit("RATE");
    reveal_strlit("ROLE");
    reveal_strlit("COUNT");
    reveal_strlit("--baud");
    reveal_strlit("--port");
    reveal_strlit("--rate");
    reveal_strlit("--role");
    reveal_strlit("FORMAT");
    reveal_strlit("--count");
    reveal_strlit("--input");
    reveal_strlit("DISPLAY");
    reveal_strlit("LOG_DIR");
    reveal_strlit("--config");
    reveal_strlit("--format");
    reveal_strlit("--option");
    reveal_strlit("--output");
    reveal_strlit("TEMPLATE");
    reveal_strlit("--display");
    reveal_strlit("--log-dir");
    reveal_strlit("--monitor");
    reveal_strlit("RX_FORMAT");
    reveal_strlit("TX_FORMAT");
    reveal_strlit("--template");
    reveal_strlit("CONTROLLER");
    reveal_strlit("INTERVAL_MS");
    reveal_strlit("--controller");
    reveal_strlit("--input-port");
    reveal_strlit("PAYLOAD_SIZE");
    reveal_strlit("--interactive");
    reveal_strlit("--interval-ms");
    reveal_strlit("--output-port");
    reveal_strlit("--payload-size");
    reveal_strlit("TRAFFIC_PATTERN");
    reveal_strlit("--list-templates");
    reveal_strlit("PROBE_TIMEOUT_MS");
    reveal_strlit("--probe-timeout-ms");
    reveal_strlit("CONNECT_TIMEOUT_MS");
    reveal_strlit("--connect-timeout-ms");
    assert("--baud"@[2] != "--port"@[2]);
    assert("--config"@[2] != "--output"@[2]);
    assert("--display"@[2] != "--monitor"@[2]);
    assert("--format"@[2] != "--config"@[2]);
    assert("--format"@[2] != "--output"@[2]);
    assert("--log-dir"@[2] != "--display"@[2]);
    assert("--log-dir"@[2] != "--monitor"@[2]);
    assert("--rate"@[2] != "--baud"@[2]);
    assert("--rate"@[2] != "--port"@[2]);
    assert("LOG_DIR"@[0] != "DISPLAY"@[0]);
}

proof fn lemma_send_rate(o: SendOptionsModel, v: Seq<char>)
    requires
        assignable(v),
    ensures
        alike(send_arg(o, assigned("RATE"@, v), 0), send_arg(o, flagged("--rate"@, v), 0)),
{
    lemma_words();
    lemma_key("RATE"@);
    let step = setting_step::<SendCliOptions>();
    law_config_sets_one(step, o, "RATE"@, v);
    assert(step(o, ("RATE"@, v)) == send_setting(o, ("RATE"@, v)));
}

proof fn lemma_send_format(o: SendOptionsModel, v: Seq<char>)
    requires
        assignable(v),
    ensures
        alike(send_arg(o, assigned("FORMAT"@, v), 0), send_arg(o, flagged("--format"@, v), 0)),
{
    lemma_words();
    lemma_key("FORMAT"@);
    let step = setting_step::<SendCliOptions>();
    law_config_sets_one(step, o, "FORMAT"@, v);
    assert(step(o, ("FORMAT"@, v)) == send_setting(o, ("FORMAT"@, v)));
}

proof fn lemma_send_display(o: SendOptionsModel, v: Seq<char>)
    requires
        assignable(v),
    ensures
        alike(send_arg(o, assigned("DISPLAY"@, v), 0), send_arg(o, flagged("--display"@, v), 0)),
{
    lemma_words();
    lemma_key("DISPLAY"@);
    let step = setting_step::<SendCliOptions>();
    law_config_sets_one(step, o, "DISPLAY"@, v);
    assert(step(o, ("DISPLAY"@, v)) == send_setting(o, ("DISPLAY"@, v)));
}

proof fn lemma_send_log_dir(o: SendOptionsModel, v: Seq<char>)
    requires
        assignable(v),
    ensures
        alike(send_arg(o, assigned("LOG_DIR"@, v), 0), send_arg(o, flagged("--log-dir"@, v), 0)),
{
    lemma_words();
    lemma_key("LOG_DIR"@);
    let step = setting_step::<SendCliOptions>();
    law_config_sets_one(step, o, "LOG_DIR"@, v);
    assert(step(o, ("LOG_DIR"@, v)) == send_setting(o, ("LOG_DIR"@, v)));
}

/// In `send` what a flag sets, an assignment of `--config` sets as well.
pub proof fn law_send_flags(o: SendOptionsModel, v: Seq<char>)
    requires
        assignable(v),
    ensures
        alike(send_arg(o, assigned("RATE"@, v), 0), send_arg(o, flagged("--rate"@, v), 0)),
        alike(send_arg(o, assigned("FORMAT"@, v), 0), send_arg(o, flagged("--format"@, v), 0)),
        alike(send_arg(o, assigned("DISPLAY"@, v), 0), send_arg(o, flagged("--display"@, v), 0)),
        alike(send_arg(o, assigned("LOG_DIR"@, v), 0), send_arg(o, flagged("--log-dir"@, v), 0)),
{
    lemma_send_rate(o, v);
    lemma_send_format(o, v);
    lemma_send_display(o, v);
    lemma_send_log_dir(o, v);
}

proof fn lemma_monitor_display(o: MonitorOptionsModel, v: Seq<char>)
    requires
        assignable(v),
    ensures
        alike(
            monitor_arg(o, assigned("DISPLAY"@, v), 0),
            monitor_arg(o, flagged("--display"@, v), 0),
        ),
{
    lemma_words();
    lemma_key("DISPLAY"@);
    let step = setting_step::<MonitorCliOptions>();
    law_config_sets_one(step, o, "DISPLAY"@, v);
    assert(step(o, ("DISPLAY"@, v)) == monitor_setting(o, ("DISPLAY"@, v)));
}

proof fn lemma_monitor_log_dir(o: MonitorOptionsModel, v: Seq<char>)
    requires
        assignable(v),
    ensures
        alike(
            monitor_arg(o, assigned("LOG_DIR"@, v), 0),
            monitor_arg(o, flagged("--log-dir"@, v), 0),
        ),
{
    lemma_words();
    lemma_key("LOG_DIR"@);
    let step = setting_step::<MonitorCliOptions>();
    law_config_sets_one(step, o, "LOG_DIR"@, v);
    assert(step(o, ("LOG_DIR"@, v)) == monitor_setting(o, ("LOG_DIR"@, v)));
}

/// In `monitor` what a flag sets, an assignment of `--config` sets as well.
pub proof fn law_monitor_flags(o: MonitorOptionsModel, v: Seq<char>)
    requires
        assignable(v),
    ensures
        alike(
            monitor_arg(o, assigned("DISPLAY"@, v), 0),
            monitor_arg(o, flagged("--display"@, v), 0),
        ),
        alike(
            monitor_arg(o, assigned("LOG_DIR"@, v), 0),
            monitor_arg(o, flagged("--log-dir"@, v), 0),
        ),
{
    lemma_monitor_display(o, v);
    lemma_monitor_log_dir(o, v);
}

proof fn lemma_talk_baud(o: TalkOptionsModel, v: Seq<char>)
    requires
        assignable(v),
    ensures
        alike(talk_arg(o, assigned("BAUD"@, v), 0), talk_arg(o, flagged("--baud"@, v), 0)),
{
    lemma_words();
    lemma_key("BAUD"@);
    let step = setting_step::<XbeeTalkCliOptions>();
    law_config_sets_one(step, o, "BAUD"@, v);
    assert(step(o, ("BAUD"@, v)) == talk_setting(o, ("BAUD"@, v)));
}

proof fn lemma_talk_display(o: TalkOptionsModel, v: Seq<char>)
    requires
        assignable(v),
    ensures
        alike(talk_arg(o, assigned("DISPLAY"@, v), 0), talk_arg(o, flagged("--display"@, v), 0)),
{
    lemma_words();
    lemma_key("DISPLAY"@);
    let step = setting_step::<XbeeTalkCliOptions>();
    law_config_sets_one(step, o, "DISPLAY"@, v);
    assert(step(o, ("DISPLAY"@, v)) == talk_setting(o, ("DISPLAY"@, v)));
}

proof fn lemma_talk_log_dir(o: TalkOptionsModel, v: Seq<char>)
    requires
        assignable(v),
    ensures
        alike(talk_arg(o, assigned("LOG_DIR"@, v), 0), talk_arg(o, flagged("--log-dir"@, v), 0)),
{
    lemma_words();
    lemma_key("LOG_DIR"@);
    let step = setting_step::<XbeeTalkCliOptions>();
    law_config_sets_one(step, o, "LOG_DIR"@, v);
    assert(step(o, ("LOG_DIR"@, v)) == talk_setting(o, ("LOG_DIR"@, v)));
}

/// In `xbee-talk` what a flag sets, an assignment of `--config` sets as well.
pub proof fn law_talk_flags(o: TalkOptionsModel, v: Seq<char>)
    requires
        assignable(v),
    ensures
        alike(talk_arg(o, assigned("BAUD"@, v), 0), talk_arg(o, flagged("--baud"@, v), 0)),
        alike(talk_arg(o, assigned("DISPLAY"@, v), 0), talk_arg(o, flagged("--display"@, v), 0)),
        alike(talk_arg(o, assigned("LOG_DIR"@, v), 0), talk_arg(o, flagged("--log-dir"@, v), 0)),
{
    lemma_talk_baud(o, v);
    lemma_talk_display(o, v);
    lemma_talk_log_dir(o, v);
}

proof fn lemma_rtt_payload_size(o: RttOptionsModel, v: Seq<char>)
    requires
        assignable(v),
    ensures
        alike(
            rtt_arg(o, assigned("PAYLOAD_SIZE"@, v), 0),
            rtt_arg(o, flagged("--payload-size"@, v), 0),
        ),
{
    lemma_words();
    lemma_key("PAYLOAD_SIZE"@);
    let step = setting_step::<XbeeRttCliOptions>();
    law_config_sets_one(step, o, "PAYLOAD_SIZE"@, v);
    assert(step(o, ("PAYLOAD_SIZE"@, v)) == rtt_setting(o, ("PAYLOAD_SIZE"@, v)));
}

proof fn lemma_rtt_count(o: RttOptionsModel, v: Seq<char>)
    requires
        assignable(v),
    ensures
        alike(rtt_arg(o, assigned("COUNT"@, v), 0), rtt_arg(o, flagged("--count"@, v), 0)),
{
    lemma_words();
    lemma_key("COUNT"@);
    let step = setting_step::<XbeeRttCliOptions>();
    law_config_sets_one(step, o, "COUNT"@, v);
    assert(step(o, ("COUNT"@, v)) == rtt_setting(o, ("COUNT"@, v)));
}

proof fn lemma_rtt_interval_ms(o: RttOptionsModel, v: Seq<char>)
    requires
        assignable(v),
    ensures
        alike(
            rtt_arg(o, assigned("INTERVAL_MS"@, v), 0),
            rtt_arg(o, flagged("--interval-ms"@, v), 0),
        ),
{
    lemma_words();
    lemma_key("INTERVAL_MS"@);
    let step = setting_step::<XbeeRttCliOptions>();
    law_config_sets_one(step, o, "INTERVAL_MS"@, v);
    assert(step(o, ("INTERVAL_MS"@, v)) == rtt_setting(o, ("INTERVAL_MS"@, v)));
}

proof fn lemma_rtt_connect_timeout_ms(o: RttOptionsModel, v: Seq<char>)
    requires
        assignable(v),
    ensures
        alike(
            rtt_arg(o, assigned("CONNECT_TIMEOUT_MS"@, v), 0),
            rtt_arg(o, flagged("--connect-timeout-ms"@, v), 0),
        ),
{
    lemma_words();
    lemma_key("CONNECT_TIMEOUT_MS"@);
    let step = setting_step::<XbeeRttCliOptions>();
    law_config_sets_one(step, o, "CONNECT_TIMEOUT_MS"@, v);
    assert(step(o, ("CONNECT_TIMEOUT_MS"@, v)) == rtt_setting(o, ("CONNECT_TIMEOUT_MS"@, v)));
}

proof fn lemma_rtt_probe_timeout_ms(o: RttOptionsModel, v: Seq<char>)
    requires
        assignable(v),
    ensures
        alike(
            rtt_arg(o, assigned("PROBE_TIMEOUT_MS"@, v), 0),
            rtt_arg(o, flagged("--probe-timeout-ms"@, v), 0),
        ),
{
    lemma_words();
    lemma_key("PROBE_TIMEOUT_MS"@);
    let step = setting_step::<XbeeRttCliOptions>();
    law_config_sets_one(step, o, "PROBE_TIMEOUT_MS"@, v);
    assert(step(o, ("PROBE_TIMEOUT_MS"@, v)) == rtt_setting(o, ("PROBE_TIMEOUT_MS"@, v)));
}

/// In `xbee-rtt` what a flag sets, an assignment of `--config` sets as well.
pub proof fn law_rtt_flags(o: RttOptionsModel, v: Seq<char>)
    requires
        assignable(v),
    ensures
        alike(
            rtt_arg(o, assigned("PAYLOAD_SIZE"@, v), 0),
            rtt_arg(o, flagged("--payload-size"@, v), 0),
        ),
        alike(rtt_arg(o, assigned("COUNT"@, v), 0), rtt_arg(o, flagged("--count"@, v), 0)),
        alike(
            rtt_arg(o, assigned("INTERVAL_MS"@, v), 0),
            rtt_arg(o, flagged("--interval-ms"@, v), 0),
        ),
        alike(
            rtt_arg(o, assigned("CONNECT_TIMEOUT_MS"@, v), 0),
            rtt_arg(o, flagged("--connect-timeout-ms"@, v), 0),
        ),
        alike(
            rtt_arg(o, assigned("PROBE_TIMEOUT_MS"@, v), 0),
            rtt_arg(o, flagged("--probe-timeout-ms"@, v), 0),
        ),
{
    lemma_rtt_payload_size(o, v);
    lemma_rtt_count(o, v);
    lemma_rtt_interval_ms(o, v);
    lemma_rtt_connect_timeout_ms(o, v);
    lemma_rtt_probe_timeout_ms(o, v);
}

proof fn lemma_route_template(o: RouteOptionsModel, v: Seq<char>)
    requires
        assignable(v),
    ensures
        alike(
            route_arg(o, assigned("TEMPLATE"@, v), 0),
            route_arg(o, flagged("--template"@, v), 0),
        ),
{
    lemma_words();
    lemma_key("TEMPLATE"@);
    let step = setting_step::<RouteCliOptions>();
    law_config_sets_one(step, o, "TEMPLATE"@, v);
    assert(step(o, ("TEMPLATE"@, v)) == route_setting(o, ("TEMPLATE"@, v)));
}

proof fn lemma_route_display(o: RouteOptionsModel, v: Seq<char>)
    requires
        assignable(v),
    ensures
        alike(route_arg(o, assigned("DISPLAY"@, v), 0), route_arg(o, flagged("--display"@, v), 0)),
{
    lemma_words();
    lemma_key("DISPLAY"@);
    let step = setting_step::<RouteCliOptions>();
    law_config_sets_one(step, o, "DISPLAY"@, v);
    assert(step(o, ("DISPLAY"@, v)) == route_setting(o, ("DISPLAY"@, v)));
}

proof fn lemma_route_log_dir(o: RouteOptionsModel, v: Seq<char>)
    requires
        assignable(v),
    ensures
        alike(route_arg(o, assigned("LOG_DIR"@, v), 0), route_arg(o, flagged("--log-dir"@, v), 0)),
{
    lemma_words();
    lemma_key("LOG_DIR"@);
    let step = setting_step::<RouteCliOptions>();
    law_config_sets_one(step, o, "LOG_DIR"@, v);
    assert(step(o, ("LOG_DIR"@, v)) == route_setting(o, ("LOG_DIR"@, v)));
}

/// In `route` what a flag sets, an assignment of `--config` sets as well.
pub proof fn law_route_flags(o: RouteOptionsModel, v: Seq<char>)
    requires
        assignable(v),
    ensures
        alike(
            route_arg(o, assigned("TEMPLATE"@, v), 0),
            route_arg(o, flagged("--template"@, v), 0),
        ),
        alike(route_arg(o, assigned("DISPLAY"@, v), 0), route_arg(o, flagged("--display"@, v), 0)),
        alike(route_arg(o, assigned("LOG_DIR"@, v), 0), route_arg(o, flagged("--log-dir"@, v), 0)),
{
    lemma_route_template(o, v);
    lemma_route_display(o, v);
    lemma_route_log_dir(o, v);
}

proof fn lemma_mock_role(o: MockOptionsModel, v: Seq<char>)
    requires
        assignable(v),
    ensures
        alike(mock_arg(o, assigned("ROLE"@, v), 0), mock_arg(o, flagged("--role"@, v), 0)),
{
    lemma_words();
    lemma_key("ROLE"@);
    let step = setting_step::<XbeeMockCliOptions>();
    law_config_sets_one(step, o, "ROLE"@, v);
    assert(step(o, ("ROLE"@, v)) == mock_setting(o, ("ROLE"@, v)));
}

proof fn lemma_mock_log_dir(o: MockOptionsModel, v: Seq<char>)
    requires
        assignable(v),
    ensures
        alike(mock_arg(o, assigned("LOG_DIR"@, v), 0), mock_arg(o, flagged("--log-dir"@, v), 0)),
{
    lemma_words();
    lemma_key("LOG_DIR"@);
    let step = setting_step::<XbeeMockCliOptions>();
    law_config_sets_one(step, o, "LOG_DIR"@, v);
    assert(step(o, ("LOG_DIR"@, v)) == mock_setting(o, ("LOG_DIR"@, v)));
}

/// In `xbee-mock` what a flag sets, an assignment of `--config` sets as well.
pub proof fn law_mock_flags(o: MockOptionsModel, v: Seq<char>)
    requires
        assignable(v),
    ensures
        alike(mock_arg(o, assigned("ROLE"@, v), 0), mock_arg(o, flagged("--role"@, v), 0)),
        alike(mock_arg(o, assigned("LOG_DIR"@, v), 0), mock_arg(o, flagged("--log-dir"@, v), 0)),
{
    lemma_mock_role(o, v);
    lemma_mock_log_dir(o, v);
}

proof fn lemma_control_controller(o: ControlCliModel, v: Seq<char>)
    requires
        assignable(v),
    ensures
        alike(
            control_arg(o, assigned("CONTROLLER"@, v), 0),
            control_arg(o, flagged("--controller"@, v), 0),
        ),
{
    lemma_words();
    lemma_flag("--config"@);
    lemma_flag("--controller"@);
    lemma_key("CONTROLLER"@);
    let step = setting_step::<ControlCliOptions>();
    law_config_sets_one(step, o, "CONTROLLER"@, v);
    assert(step(o, ("CONTROLLER"@, v)) == control_setting(o, ("CONTROLLER"@, v)));
}

proof fn lemma_control_format(o: ControlCliModel, v: Seq<char>)
    requires
        assignable(v),
        !begins(v, '-'),
    ensures
        alike(
            control_arg(o, assigned("FORMAT"@, v), 0),
            control_arg(o, flagged("--format"@, v), 0),
        ),
{
    lemma_words();
    lemma_flag("--config"@);
    lemma_flag("--format"@);
    lemma_key("FORMAT"@);
    let step = setting_step::<ControlCliOptions>();
    law_config_sets_one(step, o, "FORMAT"@, v);
    assert(step(o, ("FORMAT"@, v)) == control_setting(o, ("FORMAT"@, v)));
}

proof fn lemma_control_rate(o: ControlCliModel, v: Seq<char>)
    requires
        assignable(v),
    ensures
        alike(control_arg(o, assigned("RATE"@, v), 0), control_arg(o, flagged("--rate"@, v), 0)),
{
    lemma_words();
    lemma_flag("--config"@);
    lemma_flag("--rate"@);
    lemma_key("RATE"@);
    let step = setting_step::<ControlCliOptions>();
    law_config_sets_one(step, o, "RATE"@, v);
    assert(step(o, ("RATE"@, v)) == control_setting(o, ("RATE"@, v)));
}

proof fn lemma_control_display(o: ControlCliModel, v: Seq<char>)
    requires
        assignable(v),
    ensures
        alike(
            control_arg(o, assigned("DISPLAY"@, v), 0),
            control_arg(o, flagged("--display"@, v), 0),
        ),
{
    lemma_words();
    lemma_flag("--config"@);
    lemma_flag("--display"@);
    lemma_key("DISPLAY"@);
    let step = setting_step::<ControlCliOptions>();
    law_config_sets_one(step, o, "DISPLAY"@, v);
    assert(step(o, ("DISPLAY"@, v)) == control_setting(o, ("DISPLAY"@, v)));
}

proof fn lemma_control_log_dir(o: ControlCliModel, v: Seq<char>)
    requires
        assignable(v),
    ensures
        alike(
            control_arg(o, assigned("LOG_DIR"@, v), 0),
            control_arg(o, flagged("--log-dir"@, v), 0),
        ),
{
    lemma_words();
    lemma_flag("--config"@);
    lemma_flag("--log-dir"@);
    lemma_key("LOG_DIR"@);
    let step = setting_step::<ControlCliOptions>();
    law_config_sets_one(step, o, "LOG_DIR"@, v);
    assert(step(o, ("LOG_DIR"@, v)) == control_setting(o, ("LOG_DIR"@, v)));
}

/// In `control` what a flag sets, an assignment of `--config` sets as well. Behind `--format` a text
/// that begins with `-` is the next option, so a format of that kind is given by assignment alone.
pub proof fn law_control_flags(o: ControlCliModel, v: Seq<char>)
    requires
        assignable(v),
    ensures
        alike(
            control_arg(o, assigned("CONTROLLER"@, v), 0),
            control_arg(o, flagged("--controller"@, v), 0),
        ),
        !begins(v, '-') ==> alike(
            control_arg(o, assigned("FORMAT"@, v), 0),
            control_arg(o, flagged("--format"@, v), 0),
        ),
        alike(control_arg(o, assigned("RATE"@, v), 0), control_arg(o, flagged("--rate"@, v), 0)),
        alike(
            control_arg(o, assigned("DISPLAY"@, v), 0),
            control_arg(o, flagged("--display"@, v), 0),
        ),
        alike(
            control_arg(o, assigned("LOG_DIR"@, v), 0),
            control_arg(o, flagged("--log-dir"@, v), 0),
        ),
{
    lemma_control_controller(o, v);
    if !begins(v, '-') {
        lemma_control_format(o, v);
    }
    lemma_control_rate(o, v);
    lemma_control_display(o, v);
    lemma_control_log_dir(o, v);
}

proof fn lemma_io_rate(o: IoCliModel, v: Seq<char>)
    requires
        assignable(v),
    ensures
        alike(io_arg(o, assigned("RATE"@, v), 0), io_arg(o, flagged("--rate"@, v), 0)),
{
    lemma_words();
    lemma_flag("--config"@);
    lemma_flag("--rate"@);
    lemma_key("RATE"@);
    let step = setting_step::<IoRuntimeOptions>();
    law_config_sets_one(step, o.runtime_options, "RATE"@, v);
    assert(step(o.runtime_options, ("RATE"@, v)) == io_setting(
        o.runtime_options,
        ("RATE"@, v),
    ));
}

proof fn lemma_io_format(o: IoCliModel, v: Seq<char>)
    requires
        assignable(v),
    ensures
        alike(io_arg(o, assigned("FORMAT"@, v), 0), io_arg(o, flagged("--format"@, v), 0)),
{
    lemma_words();
    lemma_flag("--config"@);
    lemma_flag("--format"@);
    lemma_key("FORMAT"@);
    let step = setting_step::<IoRuntimeOptions>();
    law_config_sets_one(step, o.runtime_options, "FORMAT"@, v);
    assert(step(o.runtime_options, ("FORMAT"@, v)) == io_setting(
        o.runtime_options,
        ("FORMAT"@, v),
    ));
}

proof fn lemma_io_display(o: IoCliModel, v: Seq<char>)
    requires
        assignable(v),
    ensures
        alike(io_arg(o, assigned("DISPLAY"@, v), 0), io_arg(o, flagged("--display"@, v), 0)),
{
    lemma_words();
    lemma_flag("--config"@);
    lemma_flag("--display"@);
    lemma_key("DISPLAY"@);
    let step = setting_step::<IoRuntimeOptions>();
    law_config_sets_one(step, o.runtime_options, "DISPLAY"@, v);
    assert(step(o.runtime_options, ("DISPLAY"@, v)) == io_setting(
        o.runtime_options,
        ("DISPLAY"@, v),
    ));
}

proof fn lemma_io_log_dir(o: IoCliModel, v: Seq<char>)
    requires
        assignable(v),
    ensures
        alike(io_arg(o, assigned("LOG_DIR"@, v), 0), io_arg(o, flagged("--log-dir"@, v), 0)),
{
    lemma_words();
    lemma_flag("--config"@);
    lemma_flag("--log-dir"@);
    lemma_key("LOG_DIR"@);
    let step = setting_step::<IoRuntimeOptions>();
    law_config_sets_one(step, o.runtime_options, "LOG_DIR"@, v);
    assert(step(o.runtime_options, ("LOG_DIR"@, v)) == io_setting(
        o.runtime_options,
        ("LOG_DIR"@, v),
    ));
}

/// In `io` what a flag sets, an assignment of `--config` sets as well.
pub proof fn law_io_flags(o: IoCliModel, v: Seq<char>)
    requires
        assignable(v),
    ensures
        alike(io_arg(o, assigned("RATE"@, v), 0), io_arg(o, flagged("--rate"@, v), 0)),
        alike(io_arg(o, assigned("FORMAT"@, v), 0), io_arg(o, flagged("--format"@, v), 0)),
        alike(io_arg(o, assigned("DISPLAY"@, v), 0), io_arg(o, flagged("--display"@, v), 0)),
        alike(io_arg(o, assigned("LOG_DIR"@, v), 0), io_arg(o, flagged("--log-dir"@, v), 0)),
{
    lemma_io_rate(o, v);
    lemma_io_format(o, v);
    lemma_io_display(o, v);
    lemma_io_log_dir(o, v);
}

} // verus!

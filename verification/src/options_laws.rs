//! Laws of the options of the commands: what each of them sets, and that it sets nothing else.
use crate::args::{u32_arg, usize_arg, PortSpecModel};
use crate::control::{
    control_arg, format_options, monitor_names, port_names, rate_names, ControlCliModel,
};
use crate::flags::lemma_word_is_no_assignment;
use crate::io::{input_names, io_arg, output_names, BindingArgModel, IoCliModel, IoOptionsModel};
use crate::monitor::{monitor_arg, MonitorOptionsModel};
use crate::round_trip::{is_trim, law_port_and_baud_read_back};
use crate::route::{route_arg, RouteOptionsModel, RoutePortModel};
use crate::rtt::{rtt_arg, RttOptionsModel, RttPortModel};
use crate::send::{send_arg, SendOptionsModel};
use crate::text::{
    begins, cut_at_first, decimal, is_digit, lemma_decimal, lemma_first_at, lemma_number_of_decimal,
    number_up_to,
};
use crate::xbee_mock::{mock_arg, MockOptionsModel, MockPortModel};
use crate::xbee_talk::{talk_arg, TalkOptionsModel};
use vstd::prelude::*;

verus! {

// ---------------------------------------------------------------------------
// Words
// ---------------------------------------------------------------------------

/// What tells options apart: their lengths, and characters behind the dashes.
pub proof fn lemma_short_words()
    ensures
        "-b"@.len() == 2 && "-b"@[0] == '-' && "-b"@[1] == 'b',
        "-c"@.len() == 2 && "-c"@[0] == '-' && "-c"@[1] == 'c',
        "-f"@.len() == 2 && "-f"@[0] == '-' && "-f"@[1] == 'f',
        "-i"@.len() == 2 && "-i"@[0] == '-' && "-i"@[1] == 'i',
        "-m"@.len() == 2 && "-m"@[0] == '-' && "-m"@[1] == 'm',
        "-n"@.len() == 2 && "-n"@[0] == '-' && "-n"@[1] == 'n',
        "-o"@.len() == 2 && "-o"@[0] == '-' && "-o"@[1] == 'o',
        "-p"@.len() == 2 && "-p"@[0] == '-' && "-p"@[1] == 'p',
        "-r"@.len() == 2 && "-r"@[0] == '-' && "-r"@[1] == 'r',
        "--baud"@.len() == 6 && "--baud"@[0] == '-' && "--baud"@[2] == 'b' && "--baud"@[3] == 'a',
        "--port"@.len() == 6 && "--port"@[0] == '-' && "--port"@[2] == 'p' && "--port"@[3] == 'o',
        "--rate"@.len() == 6 && "--rate"@[0] == '-' && "--rate"@[2] == 'r' && "--rate"@[3] == 'a',
        "--role"@.len() == 6 && "--role"@[0] == '-' && "--role"@[2] == 'r' && "--role"@[3] == 'o',
        "--s3b"@.len() == 5 && "--s3b"@[0] == '-' && "--s3b"@[2] == 's' && "--s3b"@[3] == '3',
        "--count"@.len() == 7 && "--count"@[0] == '-' && "--count"@[2] == 'c'
            && "--count"@[3] == 'o',
        "--input"@.len() == 7 && "--input"@[0] == '-' && "--input"@[2] == 'i'
            && "--input"@[3] == 'n',
        "--config"@.len() == 8 && "--config"@[0] == '-' && "--config"@[2] == 'c'
            && "--config"@[3] == 'o',
        "--format"@.len() == 8 && "--format"@[0] == '-' && "--format"@[2] == 'f'
            && "--format"@[3] == 'o',
{
    reveal_strlit("-b");
    assert("-b"@.len() == 2 && "-b"@[0] == '-');
    reveal_strlit("-c");
    assert("-c"@.len() == 2 && "-c"@[0] == '-');
    reveal_strlit("-f");
    assert("-f"@.len() == 2 && "-f"@[0] == '-');
    reveal_strlit("-i");
    assert("-i"@.len() == 2 && "-i"@[0] == '-');
    reveal_strlit("-m");
    assert("-m"@.len() == 2 && "-m"@[0] == '-');
    reveal_strlit("-n");
    assert("-n"@.len() == 2 && "-n"@[0] == '-');
    reveal_strlit("-o");
    assert("-o"@.len() == 2 && "-o"@[0] == '-');
    reveal_strlit("-p");
    assert("-p"@.len() == 2 && "-p"@[0] == '-');
    reveal_strlit("-r");
    assert("-r"@.len() == 2 && "-r"@[0] == '-');
    reveal_strlit("--baud");
    assert("--baud"@.len() == 6 && "--baud"@[0] == '-');
    reveal_strlit("--port");
    assert("--port"@.len() == 6 && "--port"@[0] == '-');
    reveal_strlit("--rate");
    assert("--rate"@.len() == 6 && "--rate"@[0] == '-');
    reveal_strlit("--role");
    assert("--role"@.len() == 6 && "--role"@[0] == '-');
    reveal_strlit("--s3b");
    assert("--s3b"@.len() == 5 && "--s3b"@[0] == '-');
    reveal_strlit("--count");
    assert("--count"@.len() == 7 && "--count"@[0] == '-');
    reveal_strlit("--input");
    assert("--input"@.len() == 7 && "--input"@[0] == '-');
    reveal_strlit("--config");
    assert("--config"@.len() == 8 && "--config"@[0] == '-');
    reveal_strlit("--format");
    assert("--format"@.len() == 8 && "--format"@[0] == '-');
}

/// What tells longer options apart.
pub proof fn lemma_long_words()
    ensures
        "--option"@.len() == 8 && "--option"@[0] == '-' && "--option"@[2] == 'o'
            && "--option"@[3] == 'p',
        "--output"@.len() == 8 && "--output"@[0] == '-' && "--output"@[2] == 'o'
            && "--output"@[3] == 'u',
        "--no-log"@.len() == 8 && "--no-log"@[0] == '-' && "--no-log"@[2] == 'n'
            && "--no-log"@[3] == 'o',
        "--display"@.len() == 9 && "--display"@[0] == '-' && "--display"@[2] == 'd'
            && "--display"@[3] == 'i',
        "--log-dir"@.len() == 9 && "--log-dir"@[0] == '-' && "--log-dir"@[2] == 'l'
            && "--log-dir"@[3] == 'o',
        "--monitor"@.len() == 9 && "--monitor"@[0] == '-' && "--monitor"@[2] == 'm'
            && "--monitor"@[3] == 'o',
        "--template"@.len() == 10 && "--template"@[0] == '-' && "--template"@[2] == 't'
            && "--template"@[3] == 'e',
        "--show-wire"@.len() == 11 && "--show-wire"@[0] == '-' && "--show-wire"@[2] == 's'
            && "--show-wire"@[3] == 'h',
        "--controller"@.len() == 12 && "--controller"@[0] == '-' && "--controller"@[2] == 'c'
            && "--controller"@[3] == 'o',
        "--input-port"@.len() == 12 && "--input-port"@[0] == '-' && "--input-port"@[2] == 'i'
            && "--input-port"@[3] == 'n',
        "--interactive"@.len() == 13 && "--interactive"@[0] == '-' && "--interactive"@[2] == 'i'
            && "--interactive"@[3] == 'n',
        "--interval-ms"@.len() == 13 && "--interval-ms"@[0] == '-' && "--interval-ms"@[2] == 'i'
            && "--interval-ms"@[3] == 'n',
        "--output-port"@.len() == 13 && "--output-port"@[0] == '-' && "--output-port"@[2] == 'o'
            && "--output-port"@[3] == 'u',
        "--payload-size"@.len() == 14 && "--payload-size"@[0] == '-' && "--payload-size"@[2] == 'p'
            && "--payload-size"@[3] == 'a',
        "--show-protocol"@.len() == 15 && "--show-protocol"@[0] == '-'
            && "--show-protocol"@[2] == 's' && "--show-protocol"@[3] == 'h',
        "--list-templates"@.len() == 16 && "--list-templates"@[0] == '-'
            && "--list-templates"@[2] == 'l' && "--list-templates"@[3] == 'i',
        "--probe-timeout-ms"@.len() == 18 && "--probe-timeout-ms"@[0] == '-'
            && "--probe-timeout-ms"@[2] == 'p' && "--probe-timeout-ms"@[3] == 'r',
        "--connect-timeout-ms"@.len() == 20 && "--connect-timeout-ms"@[0] == '-'
            && "--connect-timeout-ms"@[2] == 'c' && "--connect-timeout-ms"@[3] == 'o',
{
    reveal_strlit("--option");
    assert("--option"@.len() == 8 && "--option"@[0] == '-');
    reveal_strlit("--output");
    assert("--output"@.len() == 8 && "--output"@[0] == '-');
    reveal_strlit("--no-log");
    assert("--no-log"@.len() == 8 && "--no-log"@[0] == '-');
    reveal_strlit("--display");
    assert("--display"@.len() == 9 && "--display"@[0] == '-');
    reveal_strlit("--log-dir");
    assert("--log-dir"@.len() == 9 && "--log-dir"@[0] == '-');
    reveal_strlit("--monitor");
    assert("--monitor"@.len() == 9 && "--monitor"@[0] == '-');
    reveal_strlit("--template");
    assert("--template"@.len() == 10 && "--template"@[0] == '-');
    reveal_strlit("--show-wire");
    assert("--show-wire"@.len() == 11 && "--show-wire"@[0] == '-');
    reveal_strlit("--controller");
    assert("--controller"@.len() == 12 && "--controller"@[0] == '-');
    reveal_strlit("--input-port");
    assert("--input-port"@.len() == 12 && "--input-port"@[0] == '-');
    reveal_strlit("--interactive");
    assert("--interactive"@.len() == 13 && "--interactive"@[0] == '-');
    reveal_strlit("--interval-ms");
    assert("--interval-ms"@.len() == 13 && "--interval-ms"@[0] == '-');
    reveal_strlit("--output-port");
    assert("--output-port"@.len() == 13 && "--output-port"@[0] == '-');
    reveal_strlit("--payload-size");
    assert("--payload-size"@.len() == 14 && "--payload-size"@[0] == '-');
    reveal_strlit("--show-protocol");
    assert("--show-protocol"@.len() == 15 && "--show-protocol"@[0] == '-');
    reveal_strlit("--list-templates");
    assert("--list-templates"@.len() == 16 && "--list-templates"@[0] == '-');
    reveal_strlit("--probe-timeout-ms");
    assert("--probe-timeout-ms"@.len() == 18 && "--probe-timeout-ms"@[0] == '-');
    reveal_strlit("--connect-timeout-ms");
    assert("--connect-timeout-ms"@.len() == 20 && "--connect-timeout-ms"@[0] == '-');
}

/// The decimal digits of a number are read as that number wherever a number is asked for.
pub proof fn law_numbers_are_read(option: Seq<char>, n: u32)
    ensures
        u32_arg(option, decimal(n as nat)) == Ok::<u32, Seq<char>>(n),
        usize_arg(option, decimal(n as nat)) == Ok::<usize, Seq<char>>(n as usize),
{
    lemma_number_of_decimal(n as nat);
    assert(number_up_to(decimal(n as nat), u32::MAX as nat) == Some(n as nat));
}

/// A number that is too large for its place is refused, and so is what is no number.
pub proof fn law_other_numbers_are_refused(option: Seq<char>, n: nat, text: Seq<char>)
    requires
        n > u32::MAX,
        text.len() > 0 ==> !('0' <= text.last() <= '9'),
    ensures
        u32_arg(option, decimal(n)) is Err,
        u32_arg(option, text) is Err,
{
    lemma_number_of_decimal(n);
    if text.len() > 0 {
        let d = if begins(text, '+') {
            text.skip(1)
        } else {
            text
        };
        if d.len() > 0 {
            assert(d[d.len() - 1] == text.last());
            assert(!is_digit(d[d.len() - 1]));
        }
    }
}

/// The option at a place, with the value behind it.
pub open spec fn option_at(
    args: Seq<Seq<char>>,
    i: int,
    long: Seq<char>,
    short: Seq<char>,
    value: Seq<char>,
) -> bool {
    0 <= i && i + 1 < args.len() && (args[i] == long || args[i] == short) && args[i + 1] == value
}

/// The switch at a place.
pub open spec fn switch_at(args: Seq<Seq<char>>, i: int, long: Seq<char>, short: Seq<char>) -> bool {
    0 <= i < args.len() && (args[i] == long || args[i] == short)
}

/// A port with its baud rate.
pub open spec fn port_text(port: Seq<char>, baud: u32) -> Seq<char> {
    port + "@"@ + decimal(baud as nat)
}

/// The name of a port: no comma, no `@` and no `=` in it, no white space at its ends.
pub open spec fn is_port_name(port: Seq<char>) -> bool {
    is_trim(port) && forall|i: int|
        0 <= i < port.len() ==> #[trigger] port[i] != ',' && port[i] != '@' && port[i] != '='
}

proof fn lemma_port_text(port: Seq<char>, baud: u32)
    requires
        is_port_name(port),
    ensures
        cut_at_first(port_text(port, baud), '=') is None,
        cut_at_first(port, '=') is None,
        port_text(port, baud)[0] == port[0],
{
    reveal_strlit("@");
    lemma_decimal(baud as nat);
    let d = decimal(baud as nat);
    let s = port_text(port, baud);
    assert forall|i: int| 0 <= i < s.len() implies #[trigger] s[i] != '=' by {
        if i < port.len() {
            assert(s[i] == port[i]);
        } else if i > port.len() {
            assert(is_digit(d[i - port.len() - 1]));
            assert(s[i] == d[i - port.len() - 1]);
        }
    }
    lemma_first_at(s, '=', s.len() as int);
    lemma_first_at(port, '=', port.len() as int);
}

/// Each option of `send` sets what it names to the value behind it, and nothing else.
pub proof fn law_send_options(
    o: SendOptionsModel,
    args: Seq<Seq<char>>,
    i: int,
    n: u32,
    v: Seq<char>,
    port: Seq<char>,
)
    ensures
        option_at(args, i, "--baud"@, "-b"@, decimal(n as nat)) ==> send_arg(o, args, i)
            == Ok::<(SendOptionsModel, int), Seq<char>>(
                (SendOptionsModel { baud: Some(n), ..o }, i + 2),
            ),
        option_at(args, i, "--rate"@, "-r"@, decimal(n as nat)) ==> send_arg(o, args, i)
            == Ok::<(SendOptionsModel, int), Seq<char>>(
                (SendOptionsModel { rate_hz: Some(n), ..o }, i + 2),
            ),
        option_at(args, i, "--format"@, "-f"@, v) ==> send_arg(o, args, i)
            == Ok::<(SendOptionsModel, int), Seq<char>>(
                (SendOptionsModel { format: Some(v), ..o }, i + 2),
            ),
        option_at(args, i, "--log-dir"@, "--log-dir"@, v) ==> send_arg(o, args, i)
            == Ok::<(SendOptionsModel, int), Seq<char>>(
                (SendOptionsModel { log_dir: Some(v), ..o }, i + 2),
            ),
        is_port_name(port) && option_at(args, i, "--port"@, "-p"@, port_text(port, n))
            ==> send_arg(o, args, i)
            == Ok::<(SendOptionsModel, int), Seq<char>>(
                (SendOptionsModel { port: Some(PortSpecModel { port, baud: Some(n), display_mode: None, line_break_mode: None }), ..o }, i + 2),
            ),
        is_port_name(port) && option_at(args, i, "--port"@, "-p"@, port) ==> send_arg(o, args, i)
            == Ok::<(SendOptionsModel, int), Seq<char>>(
                (SendOptionsModel { port: Some(PortSpecModel { port, baud: None, display_mode: None, line_break_mode: None }), ..o }, i + 2),
            ),
        switch_at(args, i, "--interactive"@, "-i"@) ==> send_arg(o, args, i)
            == Ok::<(SendOptionsModel, int), Seq<char>>(
                (SendOptionsModel { interactive: true, ..o }, i + 1),
            ),
        switch_at(args, i, "--no-log"@, "--no-log"@) ==> send_arg(o, args, i)
            == Ok::<(SendOptionsModel, int), Seq<char>>(
                (SendOptionsModel { no_log: true, ..o }, i + 1),
            ),
        switch_at(args, i, "--s3b"@, "--s3b"@) ==> send_arg(o, args, i)
            == Ok::<(SendOptionsModel, int), Seq<char>>(
                (SendOptionsModel { s3b: true, ..o }, i + 1),
            ),
{
    lemma_short_words();
    lemma_long_words();
    law_numbers_are_read("--baud"@, n);
    lemma_number_of_decimal(n as nat);
    if is_port_name(port) {
        lemma_port_text(port, n);
        law_port_and_baud_read_back("--port"@, port, n);
        law_port_and_baud_read_back("--input"@, port, n);
        law_port_and_baud_read_back("route port binding"@, port, n);
        law_port_and_baud_read_back("xbee-mock port"@, port, n);
        law_port_and_baud_read_back("xbee-rtt port"@, port, n);
    }
}

/// Each option of `monitor` sets what it names to the value behind it, and nothing else; ports
/// add up in their order.
pub proof fn law_monitor_options(
    o: MonitorOptionsModel,
    args: Seq<Seq<char>>,
    i: int,
    n: u32,
    v: Seq<char>,
    port: Seq<char>,
)
    ensures
        option_at(args, i, "--baud"@, "-b"@, decimal(n as nat)) ==> monitor_arg(o, args, i)
            == Ok::<(MonitorOptionsModel, int), Seq<char>>(
                (MonitorOptionsModel { baud: Some(n), ..o }, i + 2),
            ),
        option_at(args, i, "--log-dir"@, "--log-dir"@, v) ==> monitor_arg(o, args, i)
            == Ok::<(MonitorOptionsModel, int), Seq<char>>(
                (MonitorOptionsModel { log_dir: Some(v), ..o }, i + 2),
            ),
        is_port_name(port) && option_at(args, i, "--port"@, "-p"@, port_text(port, n))
            ==> monitor_arg(o, args, i)
            == Ok::<(MonitorOptionsModel, int), Seq<char>>(
                (MonitorOptionsModel { ports: o.ports.push(PortSpecModel { port, baud: Some(n), display_mode: None, line_break_mode: None }), ..o }, i + 2),
            ),
        is_port_name(port) && option_at(args, i, "--port"@, "-p"@, port) ==> monitor_arg(o, args, i)
            == Ok::<(MonitorOptionsModel, int), Seq<char>>(
                (MonitorOptionsModel { ports: o.ports.push(PortSpecModel { port, baud: None, display_mode: None, line_break_mode: None }), ..o }, i + 2),
            ),
        switch_at(args, i, "--no-log"@, "--no-log"@) ==> monitor_arg(o, args, i)
            == Ok::<(MonitorOptionsModel, int), Seq<char>>(
                (MonitorOptionsModel { no_log: true, ..o }, i + 1),
            ),
{
    lemma_short_words();
    lemma_long_words();
    law_numbers_are_read("--baud"@, n);
    lemma_number_of_decimal(n as nat);
    if is_port_name(port) {
        lemma_port_text(port, n);
        law_port_and_baud_read_back("--port"@, port, n);
        law_port_and_baud_read_back("--input"@, port, n);
        law_port_and_baud_read_back("route port binding"@, port, n);
        law_port_and_baud_read_back("xbee-mock port"@, port, n);
        law_port_and_baud_read_back("xbee-rtt port"@, port, n);
    }
}

/// Each option of `xbee-talk` sets what it names to the value behind it, and nothing else; inputs
/// add up in their order.
pub proof fn law_talk_options(
    o: TalkOptionsModel,
    args: Seq<Seq<char>>,
    i: int,
    n: u32,
    v: Seq<char>,
    port: Seq<char>,
)
    ensures
        option_at(args, i, "--baud"@, "-b"@, decimal(n as nat)) ==> talk_arg(o, args, i)
            == Ok::<(TalkOptionsModel, int), Seq<char>>(
                (TalkOptionsModel { baud: Some(n), ..o }, i + 2),
            ),
        option_at(args, i, "--log-dir"@, "--log-dir"@, v) ==> talk_arg(o, args, i)
            == Ok::<(TalkOptionsModel, int), Seq<char>>(
                (TalkOptionsModel { log_dir: Some(v), ..o }, i + 2),
            ),
        is_port_name(port) && option_at(args, i, "--port"@, "-p"@, port_text(port, n))
            ==> talk_arg(o, args, i)
            == Ok::<(TalkOptionsModel, int), Seq<char>>(
                (TalkOptionsModel { port: Some(PortSpecModel { port, baud: Some(n), display_mode: None, line_break_mode: None }), ..o }, i + 2),
            ),
        is_port_name(port) && option_at(args, i, "--input"@, "-m"@, port_text(port, n))
            ==> talk_arg(o, args, i)
            == Ok::<(TalkOptionsModel, int), Seq<char>>(
                (TalkOptionsModel { inputs: o.inputs.push(PortSpecModel { port, baud: Some(n), display_mode: None, line_break_mode: None }), ..o }, i + 2),
            ),
        is_port_name(port) && option_at(args, i, "--monitor"@, "-m"@, port) ==> talk_arg(o, args, i)
            == Ok::<(TalkOptionsModel, int), Seq<char>>(
                (TalkOptionsModel { inputs: o.inputs.push(PortSpecModel { port, baud: None, display_mode: None, line_break_mode: None }), ..o }, i + 2),
            ),
        switch_at(args, i, "--no-log"@, "--no-log"@) ==> talk_arg(o, args, i)
            == Ok::<(TalkOptionsModel, int), Seq<char>>(
                (TalkOptionsModel { no_log: true, ..o }, i + 1),
            ),
        switch_at(args, i, "--s3b"@, "--s3b"@) ==> talk_arg(o, args, i)
            == Ok::<(TalkOptionsModel, int), Seq<char>>(
                (TalkOptionsModel { s3b: true, ..o }, i + 1),
            ),
        switch_at(args, i, "--interactive"@, "-i"@) ==> talk_arg(o, args, i)
            == Ok::<(TalkOptionsModel, int), Seq<char>>((o, i + 1)),
{
    lemma_short_words();
    lemma_long_words();
    law_numbers_are_read("--baud"@, n);
    lemma_number_of_decimal(n as nat);
    if is_port_name(port) {
        lemma_port_text(port, n);
        law_port_and_baud_read_back("--port"@, port, n);
        law_port_and_baud_read_back("--input"@, port, n);
        law_port_and_baud_read_back("route port binding"@, port, n);
        law_port_and_baud_read_back("xbee-mock port"@, port, n);
        law_port_and_baud_read_back("xbee-rtt port"@, port, n);
    }
}

/// Each option of `route` sets what it names to the value behind it, and nothing else; inputs and
/// outputs add up in their order, and a port without an id goes by its name.
pub proof fn law_route_options(
    o: RouteOptionsModel,
    args: Seq<Seq<char>>,
    i: int,
    n: u32,
    v: Seq<char>,
    port: Seq<char>,
)
    ensures
        option_at(args, i, "--baud"@, "-b"@, decimal(n as nat)) ==> route_arg(o, args, i)
            == Ok::<(RouteOptionsModel, int), Seq<char>>(
                (RouteOptionsModel { baud: Some(n), ..o }, i + 2),
            ),
        option_at(args, i, "--log-dir"@, "--log-dir"@, v) ==> route_arg(o, args, i)
            == Ok::<(RouteOptionsModel, int), Seq<char>>(
                (RouteOptionsModel { log_dir: Some(v), ..o }, i + 2),
            ),
        option_at(args, i, "--template"@, "--template"@, v) ==> route_arg(o, args, i)
            == Ok::<(RouteOptionsModel, int), Seq<char>>(
                (RouteOptionsModel { template: Some(v), ..o }, i + 2),
            ),
        is_port_name(port) && option_at(args, i, "--input-port"@, "-i"@, port_text(port, n))
            ==> route_arg(o, args, i)
            == Ok::<(RouteOptionsModel, int), Seq<char>>(
                (RouteOptionsModel { inputs: o.inputs.push(RoutePortModel { id: port, port, baud: Some(n), display_mode: None, line_break_mode: None }), ..o }, i + 2),
            ),
        is_port_name(port) && option_at(args, i, "--output-port"@, "-o"@, port_text(port, n))
            ==> route_arg(o, args, i)
            == Ok::<(RouteOptionsModel, int), Seq<char>>(
                (RouteOptionsModel { outputs: o.outputs.push(RoutePortModel { id: port, port, baud: Some(n), display_mode: None, line_break_mode: None }), ..o }, i + 2),
            ),
        switch_at(args, i, "--list-templates"@, "--list-templates"@) ==> route_arg(o, args, i)
            == Ok::<(RouteOptionsModel, int), Seq<char>>(
                (RouteOptionsModel { list_templates: true, ..o }, i + 1),
            ),
        switch_at(args, i, "--no-log"@, "--no-log"@) ==> route_arg(o, args, i)
            == Ok::<(RouteOptionsModel, int), Seq<char>>(
                (RouteOptionsModel { no_log: true, ..o }, i + 1),
            ),
        switch_at(args, i, "--s3b"@, "--s3b"@) ==> route_arg(o, args, i)
            == Ok::<(RouteOptionsModel, int), Seq<char>>(
                (RouteOptionsModel { s3b: true, ..o }, i + 1),
            ),
        0 <= i < args.len() && !begins(args[i], '-') && o.template is None ==> route_arg(o, args, i)
            == Ok::<(RouteOptionsModel, int), Seq<char>>(
                (RouteOptionsModel { template: Some(args[i]), ..o }, i + 1),
            ),
{
    lemma_short_words();
    lemma_long_words();
    law_numbers_are_read("--baud"@, n);
    lemma_number_of_decimal(n as nat);
    if is_port_name(port) {
        lemma_port_text(port, n);
        law_port_and_baud_read_back("--port"@, port, n);
        law_port_and_baud_read_back("--input"@, port, n);
        law_port_and_baud_read_back("route port binding"@, port, n);
        law_port_and_baud_read_back("xbee-mock port"@, port, n);
        law_port_and_baud_read_back("xbee-rtt port"@, port, n);
    }
}

/// Each option of `xbee-mock` sets what it names to the value behind it, and nothing else; ports
/// add up in their order.
pub proof fn law_mock_options(
    o: MockOptionsModel,
    args: Seq<Seq<char>>,
    i: int,
    n: u32,
    v: Seq<char>,
    port: Seq<char>,
)
    ensures
        option_at(args, i, "--role"@, "--role"@, v) ==> mock_arg(o, args, i)
            == Ok::<(MockOptionsModel, int), Seq<char>>(
                (MockOptionsModel { role: Some(v), ..o }, i + 2),
            ),
        option_at(args, i, "--log-dir"@, "--log-dir"@, v) ==> mock_arg(o, args, i)
            == Ok::<(MockOptionsModel, int), Seq<char>>(
                (MockOptionsModel { log_dir: Some(v), ..o }, i + 2),
            ),
        is_port_name(port) && option_at(args, i, "--port"@, "-p"@, port_text(port, n))
            ==> mock_arg(o, args, i)
            == Ok::<(MockOptionsModel, int), Seq<char>>(
                (MockOptionsModel { ports: o.ports.push(MockPortModel { id: None, port, baud: Some(n) }), ..o }, i + 2),
            ),
        switch_at(args, i, "--no-log"@, "--no-log"@) ==> mock_arg(o, args, i)
            == Ok::<(MockOptionsModel, int), Seq<char>>(
                (MockOptionsModel { no_log: true, ..o }, i + 1),
            ),
        switch_at(args, i, "--s3b"@, "--s3b"@) ==> mock_arg(o, args, i)
            == Ok::<(MockOptionsModel, int), Seq<char>>(
                (MockOptionsModel { s3b: true, ..o }, i + 1),
            ),
        0 <= i < args.len() && !begins(args[i], '-') && o.role is None ==> mock_arg(o, args, i)
            == Ok::<(MockOptionsModel, int), Seq<char>>(
                (MockOptionsModel { role: Some(args[i]), ..o }, i + 1),
            ),
{
    lemma_short_words();
    lemma_long_words();
    law_numbers_are_read("--baud"@, n);
    lemma_number_of_decimal(n as nat);
    if is_port_name(port) {
        lemma_port_text(port, n);
        law_port_and_baud_read_back("--port"@, port, n);
        law_port_and_baud_read_back("--input"@, port, n);
        law_port_and_baud_read_back("route port binding"@, port, n);
        law_port_and_baud_read_back("xbee-mock port"@, port, n);
        law_port_and_baud_read_back("xbee-rtt port"@, port, n);
    }
}

/// Each option of `xbee-rtt` sets what it names to the value behind it, and nothing else; ports add
/// up in their order.
pub proof fn law_rtt_options(
    o: RttOptionsModel,
    args: Seq<Seq<char>>,
    i: int,
    n: u32,
    v: Seq<char>,
    port: Seq<char>,
)
    ensures
        is_port_name(port) && option_at(args, i, "--port"@, "-p"@, port_text(port, n))
            ==> rtt_arg(o, args, i)
            == Ok::<(RttOptionsModel, int), Seq<char>>(
                (RttOptionsModel { ports: o.ports.push(RttPortModel { port, baud: Some(n) }), ..o }, i + 2),
            ),
        option_at(args, i, "--payload-size"@, "--payload-size"@, decimal(n as nat))
            ==> rtt_arg(o, args, i)
            == Ok::<(RttOptionsModel, int), Seq<char>>(
                (RttOptionsModel { payload_size: Some(n as usize), ..o }, i + 2),
            ),
        option_at(args, i, "--count"@, "-n"@, decimal(n as nat)) ==> rtt_arg(o, args, i)
            == Ok::<(RttOptionsModel, int), Seq<char>>(
                (RttOptionsModel { probe_count: Some(n), ..o }, i + 2),
            ),
        option_at(args, i, "--interval-ms"@, "--interval-ms"@, decimal(n as nat))
            ==> rtt_arg(o, args, i)
            == Ok::<(RttOptionsModel, int), Seq<char>>(
                (RttOptionsModel { interval_ms: Some(n), ..o }, i + 2),
            ),
        option_at(args, i, "--connect-timeout-ms"@, "--connect-timeout-ms"@, decimal(n as nat))
            ==> rtt_arg(o, args, i)
            == Ok::<(RttOptionsModel, int), Seq<char>>(
                (RttOptionsModel { connect_timeout_ms: Some(n), ..o }, i + 2),
            ),
        option_at(args, i, "--probe-timeout-ms"@, "--probe-timeout-ms"@, decimal(n as nat))
            ==> rtt_arg(o, args, i)
            == Ok::<(RttOptionsModel, int), Seq<char>>(
                (RttOptionsModel { probe_timeout_ms: Some(n), ..o }, i + 2),
            ),
        switch_at(args, i, "--show-wire"@, "--show-wire"@) ==> rtt_arg(o, args, i)
            == Ok::<(RttOptionsModel, int), Seq<char>>(
                (RttOptionsModel { show_wire: true, ..o }, i + 1),
            ),
        switch_at(args, i, "--show-protocol"@, "--show-protocol"@) ==> rtt_arg(o, args, i)
            == Ok::<(RttOptionsModel, int), Seq<char>>(
                (RttOptionsModel { show_protocol: true, ..o }, i + 1),
            ),
        switch_at(args, i, "--s3b"@, "--s3b"@) ==> rtt_arg(o, args, i)
            == Ok::<(RttOptionsModel, int), Seq<char>>((RttOptionsModel { s3b: true, ..o }, i + 1)),
{
    lemma_short_words();
    lemma_long_words();
    law_numbers_are_read("--baud"@, n);
    lemma_number_of_decimal(n as nat);
    if is_port_name(port) {
        lemma_port_text(port, n);
        law_port_and_baud_read_back("--port"@, port, n);
        law_port_and_baud_read_back("--input"@, port, n);
        law_port_and_baud_read_back("route port binding"@, port, n);
        law_port_and_baud_read_back("xbee-mock port"@, port, n);
        law_port_and_baud_read_back("xbee-rtt port"@, port, n);
    }
}

/// A word without `=`.
pub open spec fn no_assignment(arg: Seq<char>) -> bool {
    forall|i: int| 0 <= i < arg.len() ==> #[trigger] arg[i] != '='
}

/// Each option of `control` sets what it names to the value behind it, and nothing else; an option
/// that may be asked for stays open without a value.
pub proof fn law_control_options(
    o: ControlCliModel,
    args: Seq<Seq<char>>,
    i: int,
    n: u32,
    v: Seq<char>,
    port: Seq<char>,
)
    ensures
        no_assignment(args[i]) && option_at(args, i, "--baud"@, "-b"@, decimal(n as nat))
            ==> control_arg(o, args, i)
            == Ok::<(ControlCliModel, int), Seq<char>>(
                (ControlCliModel { baud: Some(n), ..o }, i + 2),
            ),
        no_assignment(args[i]) && option_at(args, i, "--rate"@, "-r"@, decimal(n as nat))
            ==> control_arg(o, args, i)
            == Ok::<(ControlCliModel, int), Seq<char>>(
                (ControlCliModel { rate_hz: Some(n), ..o }, i + 2),
            ),
        no_assignment(args[i]) && option_at(args, i, "--controller"@, "-c"@, v)
            ==> control_arg(o, args, i)
            == Ok::<(ControlCliModel, int), Seq<char>>(
                (ControlCliModel { controller: Some(v), ..o }, i + 2),
            ),
        no_assignment(args[i]) && option_at(args, i, "--log-dir"@, "--log-dir"@, v)
            ==> control_arg(o, args, i)
            == Ok::<(ControlCliModel, int), Seq<char>>(
                (ControlCliModel { log_dir: Some(v), ..o }, i + 2),
            ),
        no_assignment(args[i]) && !begins(v, '-') && option_at(args, i, "--port"@, "-p"@, v)
            ==> control_arg(o, args, i)
            == Ok::<(ControlCliModel, int), Seq<char>>(
                (ControlCliModel { port: Some(BindingArgModel::Provided(v)), ..o }, i + 2),
            ),
        no_assignment(args[i]) && !begins(v, '-') && option_at(args, i, "--format"@, "-f"@, v)
            ==> control_arg(o, args, i)
            == Ok::<(ControlCliModel, int), Seq<char>>(
                (ControlCliModel { format: Some(BindingArgModel::Provided(v)), ..o }, i + 2),
            ),
        no_assignment(args[i]) && !begins(v, '-') && option_at(args, i, "--monitor"@, "-m"@, v)
            ==> control_arg(o, args, i)
            == Ok::<(ControlCliModel, int), Seq<char>>(
                (ControlCliModel { monitor_ports: o.monitor_ports.push(BindingArgModel::Provided(v)), ..o }, i + 2),
            ),
        no_assignment(args[i]) && i + 1 == args.len() && switch_at(args, i, "--port"@, "-p"@)
            ==> control_arg(o, args, i)
            == Ok::<(ControlCliModel, int), Seq<char>>(
                (ControlCliModel { port: Some(BindingArgModel::Prompt), ..o }, i + 1),
            ),
        no_assignment(args[i]) && i + 1 == args.len() && switch_at(args, i, "--format"@, "-f"@)
            ==> control_arg(o, args, i)
            == Ok::<(ControlCliModel, int), Seq<char>>(
                (ControlCliModel { format: Some(BindingArgModel::Prompt), ..o }, i + 1),
            ),
        no_assignment(args[i]) && switch_at(args, i, "--no-log"@, "--no-log"@)
            ==> control_arg(o, args, i)
            == Ok::<(ControlCliModel, int), Seq<char>>(
                (ControlCliModel { no_log: true, ..o }, i + 1),
            ),
        no_assignment(args[i]) && switch_at(args, i, "--s3b"@, "--s3b"@) ==> control_arg(o, args, i)
            == Ok::<(ControlCliModel, int), Seq<char>>((ControlCliModel { s3b: true, ..o }, i + 1)),
{
    lemma_short_words();
    lemma_long_words();
    law_numbers_are_read("--baud"@, n);
    lemma_number_of_decimal(n as nat);
    if 0 <= i < args.len() && no_assignment(args[i]) {
        lemma_word_is_no_assignment(args[i], port_names());
        lemma_word_is_no_assignment(args[i], monitor_names());
        lemma_word_is_no_assignment(args[i], format_options());
        lemma_word_is_no_assignment(args[i], rate_names());
    }
}

/// Each option of `io` sets what it names to the value behind it, and nothing else; inputs and
/// outputs add up in their order.
pub proof fn law_io_options(
    o: IoCliModel,
    args: Seq<Seq<char>>,
    i: int,
    n: u32,
    v: Seq<char>,
    port: Seq<char>,
)
    ensures
        no_assignment(args[i]) && option_at(args, i, "--baud"@, "-b"@, decimal(n as nat))
            ==> io_arg(o, args, i)
            == Ok::<(IoCliModel, int), Seq<char>>(
                (o.with_runtime(IoOptionsModel { baud: Some(n), ..o.runtime_options }), i + 2),
            ),
        no_assignment(args[i]) && option_at(args, i, "--format"@, "-f"@, v) ==> io_arg(o, args, i)
            == Ok::<(IoCliModel, int), Seq<char>>(
                (o.with_runtime(IoOptionsModel { format: Some(v), ..o.runtime_options }), i + 2),
            ),
        no_assignment(args[i]) && option_at(args, i, "--log-dir"@, "--log-dir"@, v)
            ==> io_arg(o, args, i)
            == Ok::<(IoCliModel, int), Seq<char>>(
                (o.with_runtime(IoOptionsModel { log_dir: Some(v), ..o.runtime_options }), i + 2),
            ),
        no_assignment(args[i]) && !begins(v, '-') && option_at(args, i, "--input"@, "-i"@, v)
            ==> io_arg(o, args, i)
            == Ok::<(IoCliModel, int), Seq<char>>(
                (o.with_input(BindingArgModel::Provided(v)), i + 2),
            ),
        no_assignment(args[i]) && !begins(v, '-') && option_at(args, i, "--output"@, "-o"@, v)
            ==> io_arg(o, args, i)
            == Ok::<(IoCliModel, int), Seq<char>>(
                (o.with_output(BindingArgModel::Provided(v)), i + 2),
            ),
        no_assignment(args[i]) && switch_at(args, i, "--no-log"@, "--no-log"@)
            ==> io_arg(o, args, i)
            == Ok::<(IoCliModel, int), Seq<char>>(
                (o.with_runtime(IoOptionsModel { no_log: true, ..o.runtime_options }), i + 1),
            ),
        no_assignment(args[i]) && switch_at(args, i, "--s3b"@, "--s3b"@) ==> io_arg(o, args, i)
            == Ok::<(IoCliModel, int), Seq<char>>(
                (o.with_runtime(IoOptionsModel { s3b: true, ..o.runtime_options }), i + 1),
            ),
{
    lemma_short_words();
    lemma_long_words();
    law_numbers_are_read("--baud"@, n);
    lemma_number_of_decimal(n as nat);
    if 0 <= i < args.len() && no_assignment(args[i]) {
        lemma_word_is_no_assignment(args[i], input_names());
        lemma_word_is_no_assignment(args[i], output_names());
    }
}

} // verus!

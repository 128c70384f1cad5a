//! The command line that a run is summed up in can be typed again: a shell splits it into the words
//! that it was put together from, and these are read as what the run was set to.
use crate::args::{argument_step, arguments_taken, value_behind, PortSpecModel};
use crate::command_line::{
    comma_part, command_text, common_args, display_text, escaped, escaped_char, format_list_text,
    format_names, input_binding_text, is_plain, quoted, with_id,
};
use crate::control::{
    control_arg, control_args, ControlCliModel, ControlCliOptions, ControlRunModel,
};
use crate::control_prompt::{
    control_resolution, control_start, mode_text, monitors_resolved, option_words, AnswersModel,
    ControlCommandModel, ResolutionModel,
};
use crate::control_settings::control_command_text;
use crate::display::{display_mode_name, PortDisplayModel};
use crate::flags::lemma_word_is_no_assignment;
use crate::format::{format_name, OutputFormat};
use crate::help::{action_of, law_commands_run_by_name, ActionModel, Subcommand};
use crate::io::{
    default_rate, io_arg, io_args, io_defaults, send_rate, BindingArgModel, IoCliModel,
    IoCliOptions, IoOptionsModel, IoOutputModel, RateModel, ReadingsModel,
};
use crate::io_command::{
    input_args, io_command_text, output_args, CommandInputModel, CommandOutputModel,
};
use crate::io_prompt::{
    binding_added, bindings_resolved, io_resolution, IoAsking, IoPromptModel, IoResolutionModel,
};
use crate::round_trip::{
    is_trim, law_input_binding_reads_back, law_output_binding_reads_back, law_port_reads_back,
};
use crate::session::{InputBindingModel, OutputSpecModel};
use crate::text::{begins, decimal, lemma_joined_cons, lemma_number_of_decimal};
use vstd::prelude::*;

verus! {

// ---------------------------------------------------------------------------
// Splitting
// ---------------------------------------------------------------------------

/// The words that a shell splits a text into, behind a word that has begun. Single quotes keep what
/// is between them, a backslash outside of them keeps the next character, spaces part words, and
/// any other character must be plain.
pub open spec fn shell_words(s: Seq<char>, begun: Option<Seq<char>>, in_quotes: bool) -> Option<
    Seq<Seq<char>>,
>
    decreases s.len(),
{
    let word = match begun {
        Some(word) => word,
        None => seq![],
    };
    if s.len() == 0 {
        if in_quotes {
            None
        } else {
            match begun {
                Some(word) => Some(seq![word]),
                None => Some(seq![]),
            }
        }
    } else if s[0] == '\'' {
        shell_words(s.skip(1), Some(word), !in_quotes)
    } else if in_quotes || is_plain(s[0]) {
        shell_words(s.skip(1), Some(word.push(s[0])), in_quotes)
    } else if s[0] == '\\' && s.len() > 1 {
        shell_words(s.skip(2), Some(word.push(s[1])), false)
    } else if s[0] == ' ' {
        match (begun, shell_words(s.skip(1), None, false)) {
            (_, None) => None,
            (None, rest) => rest,
            (Some(word), Some(rest)) => Some(seq![word] + rest),
        }
    } else {
        None
    }
}

/// The words that a shell splits a command line into.
pub open spec fn shell_split(s: Seq<char>) -> Option<Seq<Seq<char>>> {
    shell_words(s, None, false)
}

proof fn lemma_escaped(s: Seq<char>, rest: Seq<char>, word: Seq<char>)
    ensures
        shell_words(escaped(s) + seq!['\''] + rest, Some(word), true) == shell_words(
            rest,
            Some(word + s),
            false,
        ),
    decreases s.len(),
{
    let t = escaped(s) + seq!['\''] + rest;
    if s.len() == 0 {
        assert(t =~= seq!['\''] + rest);
        assert(t.skip(1) =~= rest);
        assert(word + s =~= word);
    } else {
        let tail = escaped(s.skip(1)) + seq!['\''] + rest;
        let next = word.push(s[0]);
        lemma_escaped(s.skip(1), rest, next);
        assert(next + s.skip(1) =~= word + s);
        assert(t =~= escaped_char(s[0]) + tail);
        if s[0] == '\'' {
            let t1 = t.skip(1);
            let t2 = t1.skip(2);
            assert(t[0] == '\'' && t1[0] == '\\' && t1[1] == '\'' && t2[0] == '\'');
            assert(t2.skip(1) =~= tail);
            assert(shell_words(t1, Some(word), false) == shell_words(t2, Some(next), false));
        } else {
            assert(t[0] == s[0]);
            assert(t.skip(1) =~= tail);
        }
    }
}

proof fn lemma_plain(s: Seq<char>, rest: Seq<char>, word: Seq<char>)
    requires
        forall|i: int| 0 <= i < s.len() ==> is_plain(#[trigger] s[i]),
    ensures
        shell_words(s + rest, Some(word), false) == shell_words(rest, Some(word + s), false),
    decreases s.len(),
{
    let t = s + rest;
    if s.len() == 0 {
        assert(t =~= rest);
        assert(word + s =~= word);
    } else {
        let tail = s.skip(1);
        assert forall|i: int| 0 <= i < tail.len() implies is_plain(#[trigger] tail[i]) by {
            assert(tail[i] == s[i + 1]);
        }
        lemma_plain(tail, rest, word.push(s[0]));
        assert(is_plain(s[0]));
        assert(t[0] == s[0]);
        assert(t.skip(1) =~= tail + rest);
        assert(word.push(s[0]) + tail =~= word + s);
    }
}

proof fn lemma_quoted(s: Seq<char>, rest: Seq<char>)
    ensures
        shell_words(quoted(s) + rest, None, false) == shell_words(rest, Some(s), false),
{
    let none = Seq::<char>::empty();
    let t = quoted(s) + rest;
    if s.len() > 0 && (forall|i: int| 0 <= i < s.len() ==> is_plain(#[trigger] s[i])) {
        assert(is_plain(s[0]));
        assert(t[0] == s[0]);
        let tail = s.skip(1);
        assert forall|i: int| 0 <= i < tail.len() implies is_plain(#[trigger] tail[i]) by {
            assert(tail[i] == s[i + 1]);
        }
        assert(t.skip(1) =~= tail + rest);
        lemma_plain(tail, rest, none.push(s[0]));
        assert(none.push(s[0]) + tail =~= s);
    } else {
        if s.len() == 0 {
            assert(escaped(s) =~= none);
            assert(quoted(s) =~= seq!['\''] + escaped(s) + seq!['\'']);
        }
        assert(t.skip(1) =~= escaped(s) + seq!['\''] + rest);
        lemma_escaped(s, rest, none);
        assert(none + s =~= s);
    }
}

proof fn lemma_first_word(first: Seq<char>, text: Seq<char>, rest: Seq<Seq<char>>)
    requires
        shell_words(text, None, false) == Some(rest),
    ensures
        shell_words(quoted(first) + " "@ + text, None, false) == Some(seq![first] + rest),
{
    reveal_strlit(" ");
    let tail = " "@ + text;
    lemma_quoted(first, tail);
    assert(quoted(first) + " "@ + text =~= quoted(first) + tail);
    assert(tail[0] == ' ');
    assert(tail.skip(1) =~= text);
}

proof fn lemma_command_cons(first: Seq<char>, rest: Seq<Seq<char>>)
    requires
        rest.len() > 0,
    ensures
        command_text(seq![first] + rest) == quoted(first) + " "@ + command_text(rest),
{
    let words = rest.map_values(|a: Seq<char>| quoted(a));
    lemma_joined_cons(quoted(first), words, " "@);
    assert((seq![first] + rest).map_values(|a: Seq<char>| quoted(a)) =~= seq![quoted(first)]
        + words);
}

/// A shell splits a command line into the words that it was put together from.
pub proof fn law_shell_splits_the_command(args: Seq<Seq<char>>)
    ensures
        shell_split(command_text(args)) == Some(args),
    decreases args.len(),
{
    if args.len() == 0 {
        assert(command_text(args) =~= Seq::<char>::empty());
        assert(args =~= seq![]);
    } else if args.len() == 1 {
        let none = Seq::<char>::empty();
        lemma_quoted(args[0], none);
        assert(command_text(args) =~= quoted(args[0]) + none);
        assert(args =~= seq![args[0]]);
    } else {
        let rest = args.skip(1);
        law_shell_splits_the_command(rest);
        lemma_first_word(args[0], command_text(rest), rest);
        lemma_command_cons(args[0], rest);
        assert(seq![args[0]] + rest =~= args);
    }
}

// ---------------------------------------------------------------------------
// Arguments
// ---------------------------------------------------------------------------

/// A step over arguments, where it is taken.
proof fn lemma_step<O>(
    step: spec_fn(O, Seq<Seq<char>>, int) -> Result<(O, int), Seq<char>>,
    options: O,
    args: Seq<Seq<char>>,
    i: int,
    after: O,
    next: int,
)
    requires
        0 <= i < next <= args.len(),
        step(options, args, i) == Ok::<(O, int), Seq<char>>((after, next)),
    ensures
        arguments_taken(step, options, args, i) == arguments_taken(step, after, args, next),
{
}

/// The options that name inputs: two words each.
proof fn lemma_input_args_len(option: Seq<char>, items: Seq<CommandInputModel>)
    ensures
        input_args(option, items).len() == 2 * items.len(),
    decreases items.len(),
{
    if items.len() > 0 {
        lemma_input_args_len(option, items.drop_last());
    }
}

proof fn lemma_input_arg(option: Seq<char>, items: Seq<CommandInputModel>, k: int)
    requires
        0 <= k < items.len(),
    ensures
        input_args(option, items).len() == 2 * items.len(),
        input_args(option, items)[2 * k] == option,
        input_args(option, items)[2 * k + 1] == items[k].binding(),
    decreases items.len(),
{
    let init = items.drop_last();
    lemma_input_args_len(option, init);
    if k < init.len() {
        lemma_input_arg(option, init, k);
    }
}

/// The options that name outputs: two words each.
proof fn lemma_output_args_len(items: Seq<CommandOutputModel>)
    ensures
        output_args(items).len() == 2 * items.len(),
    decreases items.len(),
{
    if items.len() > 0 {
        lemma_output_args_len(items.drop_last());
    }
}

proof fn lemma_output_arg(items: Seq<CommandOutputModel>, k: int)
    requires
        0 <= k < items.len(),
    ensures
        output_args(items).len() == 2 * items.len(),
        output_args(items)[2 * k] == "-o"@,
        output_args(items)[2 * k + 1] == items[k].binding(),
    decreases items.len(),
{
    let init = items.drop_last();
    lemma_output_args_len(init);
    if k < init.len() {
        lemma_output_arg(init, k);
    }
}

/// The bindings of inputs as arguments give them.
pub open spec fn input_bindings(inputs: Seq<CommandInputModel>) -> Seq<BindingArgModel> {
    inputs.map_values(|m: CommandInputModel| BindingArgModel::Provided(m.binding()))
}

/// The bindings of outputs as arguments give them.
pub open spec fn output_bindings(outputs: Seq<CommandOutputModel>) -> Seq<BindingArgModel> {
    outputs.map_values(|m: CommandOutputModel| BindingArgModel::Provided(m.binding()))
}

proof fn lemma_binding_begins(port: Seq<char>, rest: Seq<char>)
    requires
        !begins(port, '-'),
    ensures
        !begins(port + "@"@ + rest, '-'),
{
    reveal_strlit("@");
    let s = port + "@"@ + rest;
    if port.len() > 0 {
        assert(s[0] == port[0]);
    } else {
        assert(s[0] == '@');
    }
}

proof fn lemma_input_begins(m: CommandInputModel)
    requires
        !begins(m.port, '-'),
    ensures
        !begins(m.binding(), '-'),
{
    let d = decimal(m.baud_rate as nat);
    let tail = comma_part(Some(display_text(m.display_mode, m.line_break_mode))) + comma_part(
        format_list_text(m.formats),
    );
    lemma_binding_begins(m.port, d + tail);
    assert(m.binding() =~= m.port + "@"@ + (d + tail));
}

proof fn lemma_format_begins(format: OutputFormat)
    ensures
        !begins(format_name(format), '-'),
{
    reveal_strlit("packetacv6");
    reveal_strlit("packetacv6usb");
    reveal_strlit("packetmv1");
    reveal_strlit("packetiv1");
    reveal_strlit("packetbv1");
    reveal_strlit("packetgcv1");
    reveal_strlit("packetjfv1");
    reveal_strlit("packetufv2");
    reveal_strlit("roverupgeneral");
    reveal_strlit("roverdowngeneral");
}

// ---------------------------------------------------------------------------
// `control`
// ---------------------------------------------------------------------------

proof fn lemma_control_words()
    ensures
        "--port"@.len() == 6 && "--port"@[2] == 'p',
        "-p"@.len() == 2 && "-p"@[1] == 'p',
        "--config"@.len() == 8 && "--config"@[2] == 'c',
        "--baud"@.len() == 6 && "--baud"@[2] == 'b',
        "-b"@.len() == 2 && "-b"@[1] == 'b',
        "--rate"@.len() == 6 && "--rate"@[2] == 'r',
        "-r"@.len() == 2 && "-r"@[1] == 'r',
        "--controller"@.len() == 12,
        "-c"@.len() == 2 && "-c"@[1] == 'c',
        "--format"@.len() == 8 && "--format"@[2] == 'f',
        "-f"@.len() == 2 && "-f"@[1] == 'f',
        "--display"@.len() == 9 && "--display"@[2] == 'd',
        "--monitor"@.len() == 9 && "--monitor"@[2] == 'm',
        "-m"@.len() == 2 && "-m"@[1] == 'm',
        "--log-dir"@.len() == 9 && "--log-dir"@[2] == 'l',
        "--no-log"@.len() == 8 && "--no-log"@[2] == 'n',
        "--s3b"@.len() == 5,
{
    reveal_strlit("--port");
    reveal_strlit("-p");
    reveal_strlit("--config");
    reveal_strlit("--baud");
    reveal_strlit("-b");
    reveal_strlit("--rate");
    reveal_strlit("-r");
    reveal_strlit("--controller");
    reveal_strlit("-c");
    reveal_strlit("--format");
    reveal_strlit("-f");
    reveal_strlit("--display");
    reveal_strlit("--monitor");
    reveal_strlit("-m");
    reveal_strlit("--log-dir");
    reveal_strlit("--no-log");
    reveal_strlit("--s3b");
}

/// An option of the command line is no assignment.
proof fn lemma_bare(arg: Seq<char>)
    requires
        arg == "-p"@ || arg == "-m"@ || arg == "-i"@ || arg == "-o"@ || arg == "--format"@ || arg
            == "--rate"@ || arg == "--controller"@ || arg == "--log-dir"@ || arg == "--no-log"@
            || arg == "--s3b"@,
    ensures
        forall|names: Seq<Seq<char>>| value_behind(arg, names) is None,
{
    reveal_strlit("-p");
    reveal_strlit("-m");
    reveal_strlit("-i");
    reveal_strlit("-o");
    reveal_strlit("--format");
    reveal_strlit("--rate");
    reveal_strlit("--controller");
    reveal_strlit("--log-dir");
    reveal_strlit("--no-log");
    reveal_strlit("--s3b");
    assert(forall|i: int| 0 <= i < arg.len() ==> #[trigger] arg[i] != '=');
    assert forall|names: Seq<Seq<char>>| value_behind(arg, names) is None by {
        lemma_word_is_no_assignment(arg, names);
    }
}

/// What an option of a command line of `control` sets.
proof fn lemma_control_step(o: ControlCliModel, args: Seq<Seq<char>>, i: int)
    requires
        0 <= i < args.len(),
    ensures
        i + 1 < args.len() && args[i] == "-p"@ && !begins(args[i + 1], '-') ==> control_arg(
            o,
            args,
            i,
        ) == Ok::<(ControlCliModel, int), Seq<char>>(
            (
                ControlCliModel { port: Some(BindingArgModel::Provided(args[i + 1])), ..o },
                i + 2,
            ),
        ),
        i + 1 < args.len() && args[i] == "--format"@ && !begins(args[i + 1], '-') ==> control_arg(
            o,
            args,
            i,
        ) == Ok::<(ControlCliModel, int), Seq<char>>(
            (
                ControlCliModel { format: Some(BindingArgModel::Provided(args[i + 1])), ..o },
                i + 2,
            ),
        ),
        i + 1 < args.len() && args[i] == "--controller"@ ==> control_arg(o, args, i) == Ok::<
            (ControlCliModel, int),
            Seq<char>,
        >((ControlCliModel { controller: Some(args[i + 1]), ..o }, i + 2)),
        i + 1 < args.len() && args[i] == "-m"@ && !begins(args[i + 1], '-') ==> control_arg(
            o,
            args,
            i,
        ) == Ok::<(ControlCliModel, int), Seq<char>>(
            (
                ControlCliModel {
                    monitor_ports: o.monitor_ports.push(BindingArgModel::Provided(args[i + 1])),
                    ..o
                },
                i + 2,
            ),
        ),
        i + 1 < args.len() && args[i] == "--log-dir"@ ==> control_arg(o, args, i) == Ok::<
            (ControlCliModel, int),
            Seq<char>,
        >((ControlCliModel { log_dir: Some(args[i + 1]), ..o }, i + 2)),
        args[i] == "--no-log"@ ==> control_arg(o, args, i) == Ok::<
            (ControlCliModel, int),
            Seq<char>,
        >((ControlCliModel { no_log: true, ..o }, i + 1)),
        args[i] == "--s3b"@ ==> control_arg(o, args, i) == Ok::<(ControlCliModel, int), Seq<char>>(
            (ControlCliModel { s3b: true, ..o }, i + 1),
        ),
{
    lemma_control_words();
    let arg = args[i];
    if arg == "-p"@ || arg == "-m"@ || arg == "--format"@ || arg == "--controller"@ || arg
        == "--log-dir"@ || arg == "--no-log"@ || arg == "--s3b"@ {
        lemma_bare(arg);
    }
}

proof fn lemma_control_rate(o: ControlCliModel, args: Seq<Seq<char>>, i: int, rate_hz: u32)
    requires
        0 <= i,
        i + 1 < args.len(),
        args[i] == "--rate"@,
        args[i + 1] == decimal(rate_hz as nat),
    ensures
        control_arg(o, args, i) == Ok::<(ControlCliModel, int), Seq<char>>(
            (ControlCliModel { rate_hz: Some(rate_hz), ..o }, i + 2),
        ),
{
    lemma_control_words();
    lemma_bare(args[i]);
    lemma_number_of_decimal(rate_hz as nat);
}

/// The options of `control` with monitors behind those that are there.
pub open spec fn with_monitors(o: ControlCliModel, monitors: Seq<CommandInputModel>) -> (
    ControlCliModel) {
    ControlCliModel { monitor_ports: o.monitor_ports + input_bindings(monitors), ..o }
}

proof fn lemma_control_monitors(
    o: ControlCliModel,
    args: Seq<Seq<char>>,
    i: int,
    monitors: Seq<CommandInputModel>,
)
    requires
        0 <= i,
        i + 2 * monitors.len() <= args.len(),
        args.subrange(i, i + 2 * monitors.len()) == input_args("-m"@, monitors),
        forall|k: int| 0 <= k < monitors.len() ==> !begins((#[trigger] monitors[k]).port, '-'),
    ensures
        arguments_taken(argument_step::<ControlCliOptions>(), o, args, i) == arguments_taken(
            argument_step::<ControlCliOptions>(),
            with_monitors(o, monitors),
            args,
            i + 2 * monitors.len(),
        ),
    decreases monitors.len(),
{
    let step = argument_step::<ControlCliOptions>();
    if monitors.len() == 0 {
        assert(with_monitors(o, monitors) =~= o);
    } else {
        let init = monitors.drop_last();
        let n = init.len() as int;
        lemma_input_args_len("-m"@, init);
        lemma_input_arg("-m"@, monitors, n);
        assert(args.subrange(i, i + 2 * n) =~= input_args("-m"@, init)) by {
            assert forall|k: int|
                0 <= k < 2 * n implies args[i + k] == input_args("-m"@, init)[k] by {
                assert(args.subrange(i, i + 2 * monitors.len())[k] == args[i + k]);
            }
        }
        assert forall|k: int| 0 <= k < init.len() implies !begins(
            (#[trigger] init[k]).port,
            '-',
        ) by {
            assert(init[k] == monitors[k]);
        }
        lemma_control_monitors(o, args, i, init);
        let at = i + 2 * n;
        let before = with_monitors(o, init);
        let all = args.subrange(i, i + 2 * monitors.len());
        assert(all[2 * n] == args[at] && all[2 * n + 1] == args[at + 1]);
        lemma_input_begins(monitors[n]);
        lemma_control_step(before, args, at);
        let after = with_monitors(o, monitors);
        assert(before.monitor_ports.push(BindingArgModel::Provided(args[at + 1]))
            =~= after.monitor_ports);
        assert(step(before, args, at) == control_arg(before, args, at));
        lemma_step(step, before, args, at, after, at + 2);
    }
}

proof fn lemma_control_common(
    o: ControlCliModel,
    args: Seq<Seq<char>>,
    i: int,
    log_dir: Option<Seq<char>>,
    no_log: bool,
    s3b: bool,
)
    requires
        0 <= i <= args.len(),
        args.skip(i) == common_args(log_dir, no_log, s3b),
        o.log_dir is None,
        !o.no_log,
        !o.s3b,
    ensures
        arguments_taken(argument_step::<ControlCliOptions>(), o, args, i) == Ok::<
            ControlCliModel,
            Seq<char>,
        >(ControlCliModel { log_dir, no_log, s3b, ..o }),
{
    let step = argument_step::<ControlCliOptions>();
    let rest = args.skip(i);
    assert forall|k: int| 0 <= k < rest.len() implies rest[k] == args[i + k] by {}
    let a = ControlCliModel { log_dir, ..o };
    let n: int = if log_dir is Some {
        i + 2
    } else {
        i
    };
    if log_dir is Some {
        assert(rest[0] == "--log-dir"@ && rest[1] == log_dir->0);
        lemma_control_step(o, args, i);
        assert(step(o, args, i) == control_arg(o, args, i));
        lemma_step(step, o, args, i, a, n);
    }
    let b = ControlCliModel { no_log, ..a };
    let m: int = if no_log {
        n + 1
    } else {
        n
    };
    if no_log {
        assert(rest[n - i] == "--no-log"@);
        lemma_control_step(a, args, n);
        assert(step(a, args, n) == control_arg(a, args, n));
        lemma_step(step, a, args, n, b, m);
    }
    let c = ControlCliModel { s3b, ..b };
    if s3b {
        assert(rest[m - i] == "--s3b"@);
        lemma_control_step(b, args, m);
        assert(step(b, args, m) == control_arg(b, args, m));
        lemma_step(step, b, args, m, c, m + 1);
    }
}

/// The words of the command line of a run of `control`, behind its name.
pub open spec fn control_words(
    output: OutputSpecModel,
    format: OutputFormat,
    rate_hz: u32,
    monitors: Seq<CommandInputModel>,
    controller: Option<Seq<char>>,
    log_dir: Option<Seq<char>>,
    no_log: bool,
    s3b: bool,
) -> Seq<Seq<char>> {
    seq![
        "-p"@,
        output.port + "@"@ + decimal(output.baud_rate as nat) + ","@ + display_mode_name(
            output.display_mode,
        ),
        "--format"@,
        format_name(format),
        "--rate"@,
        decimal(rate_hz as nat),
    ] + option_words("--controller"@, controller) + input_args("-m"@, monitors) + common_args(
        log_dir,
        no_log,
        s3b,
    )
}

/// The options that a run of `control` was set to.
pub open spec fn control_options(
    output: OutputSpecModel,
    format: OutputFormat,
    rate_hz: u32,
    monitors: Seq<CommandInputModel>,
    controller: Option<Seq<char>>,
    log_dir: Option<Seq<char>>,
    no_log: bool,
    s3b: bool,
) -> ControlCliModel {
    ControlCliModel {
        port: Some(
            BindingArgModel::Provided(
                output.port + "@"@ + decimal(output.baud_rate as nat) + ","@ + display_mode_name(
                    output.display_mode,
                ),
            ),
        ),
        baud: None,
        controller,
        format: Some(BindingArgModel::Provided(format_name(format))),
        rate_hz: Some(rate_hz),
        display: PortDisplayModel::empty(),
        monitor_ports: input_bindings(monitors),
        log_dir,
        no_log,
        s3b,
    }
}

proof fn lemma_control_split(
    output: OutputSpecModel,
    format: OutputFormat,
    rate_hz: u32,
    monitors: Seq<CommandInputModel>,
    controller: Option<Seq<char>>,
    log_dir: Option<Seq<char>>,
    no_log: bool,
    s3b: bool,
)
    ensures
        shell_split(control_command_text(
            output,
            format,
            rate_hz,
            monitors,
            controller,
            log_dir,
            no_log,
            s3b,
        )) == Some(
            seq!["acs"@, "control"@] + control_words(
                output,
                format,
                rate_hz,
                monitors,
                controller,
                log_dir,
                no_log,
                s3b,
            ),
        ),
{
    let words = control_words(
        output,
        format,
        rate_hz,
        monitors,
        controller,
        log_dir,
        no_log,
        s3b,
    );
    let d = decimal(output.baud_rate as nat);
    let text = input_binding_text(output.port, Some(d), mode_text(Some(output.display_mode)), None);
    assert(text =~= words[1]);
    let typed = seq!["acs"@, "control"@] + option_words("-p"@, Some(text)) + option_words(
        "--format"@,
        Some(format_name(format)),
    ) + option_words("--rate"@, Some(decimal(rate_hz as nat))) + option_words(
        "--controller"@,
        controller,
    ) + input_args("-m"@, monitors) + common_args(log_dir, no_log, s3b);
    assert(typed =~= seq!["acs"@, "control"@] + words);
    law_shell_splits_the_command(typed);
}

/// The first three options.
proof fn lemma_control_head(words: Seq<Seq<char>>, format: OutputFormat, rate_hz: u32)
    requires
        words.len() >= 6,
        words[0] == "-p"@,
        !begins(words[1], '-'),
        words[2] == "--format"@,
        words[3] == format_name(format),
        words[4] == "--rate"@,
        words[5] == decimal(rate_hz as nat),
    ensures
        arguments_taken(
            argument_step::<ControlCliOptions>(),
            ControlCliModel::empty(),
            words,
            0,
        ) == arguments_taken(
            argument_step::<ControlCliOptions>(),
            ControlCliModel {
                port: Some(BindingArgModel::Provided(words[1])),
                format: Some(BindingArgModel::Provided(format_name(format))),
                rate_hz: Some(rate_hz),
                ..ControlCliModel::empty()
            },
            words,
            6,
        ),
{
    let step = argument_step::<ControlCliOptions>();
    let start = ControlCliModel::empty();
    let o1 = ControlCliModel { port: Some(BindingArgModel::Provided(words[1])), ..start };
    lemma_control_step(start, words, 0);
    assert(step(start, words, 0) == control_arg(start, words, 0));
    lemma_step(step, start, words, 0, o1, 2);
    lemma_format_begins(format);
    let o2 = ControlCliModel {
        format: Some(BindingArgModel::Provided(format_name(format))),
        ..o1
    };
    lemma_control_step(o1, words, 2);
    assert(step(o1, words, 2) == control_arg(o1, words, 2));
    lemma_step(step, o1, words, 2, o2, 4);
    let o3 = ControlCliModel { rate_hz: Some(rate_hz), ..o2 };
    lemma_control_rate(o2, words, 4, rate_hz);
    assert(step(o2, words, 4) == control_arg(o2, words, 4));
    lemma_step(step, o2, words, 4, o3, 6);
}

proof fn lemma_control_controller(
    o: ControlCliModel,
    words: Seq<Seq<char>>,
    controller: Option<Seq<char>>,
)
    requires
        o.controller is None,
        controller is Some ==> words.len() >= 8 && words[6] == "--controller"@ && words[7]
            == controller->0,
    ensures
        arguments_taken(argument_step::<ControlCliOptions>(), o, words, 6) == arguments_taken(
            argument_step::<ControlCliOptions>(),
            ControlCliModel { controller, ..o },
            words,
            if controller is Some {
                8
            } else {
                6
            },
        ),
{
    let step = argument_step::<ControlCliOptions>();
    if controller is Some {
        lemma_control_step(o, words, 6);
        assert(step(o, words, 6) == control_arg(o, words, 6));
        lemma_step(step, o, words, 6, ControlCliModel { controller, ..o }, 8);
    }
}

proof fn lemma_control_parsed(
    output: OutputSpecModel,
    format: OutputFormat,
    rate_hz: u32,
    monitors: Seq<CommandInputModel>,
    controller: Option<Seq<char>>,
    log_dir: Option<Seq<char>>,
    no_log: bool,
    s3b: bool,
)
    requires
        !begins(output.port, '-'),
        forall|k: int| 0 <= k < monitors.len() ==> !begins((#[trigger] monitors[k]).port, '-'),
    ensures
        control_args(control_words(
            output,
            format,
            rate_hz,
            monitors,
            controller,
            log_dir,
            no_log,
            s3b,
        )) == Ok::<ControlCliModel, Seq<char>>(
            control_options(
                output,
                format,
                rate_hz,
                monitors,
                controller,
                log_dir,
                no_log,
                s3b,
            ),
        ),
{
    let words = control_words(
        output,
        format,
        rate_hz,
        monitors,
        controller,
        log_dir,
        no_log,
        s3b,
    );
    let binding = words[1];
    let d = decimal(output.baud_rate as nat);
    let mode = display_mode_name(output.display_mode);
    lemma_binding_begins(output.port, d + ","@ + mode);
    assert(binding =~= output.port + "@"@ + (d + ","@ + mode));
    lemma_control_head(words, format, rate_hz);
    let o3 = ControlCliModel {
        port: Some(BindingArgModel::Provided(words[1])),
        format: Some(BindingArgModel::Provided(format_name(format))),
        rate_hz: Some(rate_hz),
        ..ControlCliModel::empty()
    };
    lemma_control_controller(o3, words, controller);
    let o4 = ControlCliModel { controller, ..o3 };
    let n: int = if controller is Some {
        8
    } else {
        6
    };
    lemma_input_args_len("-m"@, monitors);
    let m = n + 2 * monitors.len();
    assert(words.subrange(n, m) =~= input_args("-m"@, monitors));
    lemma_control_monitors(o4, words, n, monitors);
    let o5 = with_monitors(o4, monitors);
    assert(o5.monitor_ports =~= input_bindings(monitors));
    assert(words.skip(m) =~= common_args(log_dir, no_log, s3b));
    lemma_control_common(o5, words, m, log_dir, no_log, s3b);
}

/// The command line of a run of `control` is split by a shell into the program, the command and
/// words that are read as the options of the run. No port may begin as an option does: behind `-p`
/// and `-m` such a name is the next option.
pub proof fn law_control_command_reads_back(
    output: OutputSpecModel,
    format: OutputFormat,
    rate_hz: u32,
    monitors: Seq<CommandInputModel>,
    controller: Option<Seq<char>>,
    log_dir: Option<Seq<char>>,
    no_log: bool,
    s3b: bool,
)
    requires
        !begins(output.port, '-'),
        forall|k: int| 0 <= k < monitors.len() ==> !begins((#[trigger] monitors[k]).port, '-'),
    ensures
        ({
            let words = control_words(
                output,
                format,
                rate_hz,
                monitors,
                controller,
                log_dir,
                no_log,
                s3b,
            );
            &&& shell_split(
                control_command_text(
                    output,
                    format,
                    rate_hz,
                    monitors,
                    controller,
                    log_dir,
                    no_log,
                    s3b,
                ),
            ) == Some(seq!["acs"@, "control"@] + words)
            &&& action_of(seq!["control"@] + words) == ActionModel::Run(Subcommand::Control, words)
            &&& control_args(words) == Ok::<ControlCliModel, Seq<char>>(
                control_options(
                    output,
                    format,
                    rate_hz,
                    monitors,
                    controller,
                    log_dir,
                    no_log,
                    s3b,
                ),
            )
        }),
{
    let words = control_words(
        output,
        format,
        rate_hz,
        monitors,
        controller,
        log_dir,
        no_log,
        s3b,
    );
    lemma_control_split(
        output,
        format,
        rate_hz,
        monitors,
        controller,
        log_dir,
        no_log,
        s3b,
    );
    lemma_control_parsed(
        output,
        format,
        rate_hz,
        monitors,
        controller,
        log_dir,
        no_log,
        s3b,
    );
    law_commands_run_by_name(Subcommand::Control, words);
}

// ---------------------------------------------------------------------------
// `io`
// ---------------------------------------------------------------------------

proof fn lemma_io_words()
    ensures
        "--input"@.len() == 7,
        "--input-port"@.len() == 12 && "--input-port"@[2] == 'i',
        "-i"@.len() == 2 && "-i"@[1] == 'i',
        "--output"@.len() == 8 && "--output"@[2] == 'o',
        "--output-port"@.len() == 13,
        "-o"@.len() == 2 && "-o"@[1] == 'o',
{
    reveal_strlit("--input");
    reveal_strlit("--input-port");
    reveal_strlit("-i");
    reveal_strlit("--output");
    reveal_strlit("--output-port");
    reveal_strlit("-o");
}

/// What an option of a command line of `io` sets.
proof fn lemma_io_step(o: IoCliModel, args: Seq<Seq<char>>, i: int)
    requires
        0 <= i < args.len(),
    ensures
        i + 1 < args.len() && args[i] == "-i"@ && !begins(args[i + 1], '-') ==> io_arg(o, args, i)
            == Ok::<(IoCliModel, int), Seq<char>>(
            (o.with_input(BindingArgModel::Provided(args[i + 1])), i + 2),
        ),
        i + 1 < args.len() && args[i] == "-o"@ && !begins(args[i + 1], '-') ==> io_arg(o, args, i)
            == Ok::<(IoCliModel, int), Seq<char>>(
            (o.with_output(BindingArgModel::Provided(args[i + 1])), i + 2),
        ),
        i + 1 < args.len() && args[i] == "--log-dir"@ ==> io_arg(o, args, i) == Ok::<
            (IoCliModel, int),
            Seq<char>,
        >(
            (
                o.with_runtime(
                    IoOptionsModel { log_dir: Some(args[i + 1]), ..o.runtime_options },
                ),
                i + 2,
            ),
        ),
        args[i] == "--no-log"@ ==> io_arg(o, args, i) == Ok::<(IoCliModel, int), Seq<char>>(
            (o.with_runtime(IoOptionsModel { no_log: true, ..o.runtime_options }), i + 1),
        ),
        args[i] == "--s3b"@ ==> io_arg(o, args, i) == Ok::<(IoCliModel, int), Seq<char>>(
            (o.with_runtime(IoOptionsModel { s3b: true, ..o.runtime_options }), i + 1),
        ),
{
    lemma_control_words();
    lemma_io_words();
    let arg = args[i];
    if arg == "-i"@ || arg == "-o"@ || arg == "--log-dir"@ || arg == "--no-log"@ || arg
        == "--s3b"@ {
        lemma_bare(arg);
    }
}

proof fn lemma_io_inputs(o: IoCliModel, args: Seq<Seq<char>>, i: int, items: Seq<CommandInputModel>)
    requires
        0 <= i,
        i + 2 * items.len() <= args.len(),
        args.subrange(i, i + 2 * items.len()) == input_args("-i"@, items),
        forall|k: int| 0 <= k < items.len() ==> !begins((#[trigger] items[k]).binding(), '-'),
    ensures
        arguments_taken(argument_step::<IoCliOptions>(), o, args, i) == arguments_taken(
            argument_step::<IoCliOptions>(),
            IoCliModel { inputs: o.inputs + input_bindings(items), ..o },
            args,
            i + 2 * items.len(),
        ),
    decreases items.len(),
{
    let step = argument_step::<IoCliOptions>();
    if items.len() == 0 {
        assert(o.inputs + input_bindings(items) =~= o.inputs);
    } else {
        let init = items.drop_last();
        let n = init.len() as int;
        lemma_input_args_len("-i"@, init);
        lemma_input_arg("-i"@, items, n);
        let all = args.subrange(i, i + 2 * items.len());
        assert(args.subrange(i, i + 2 * n) =~= input_args("-i"@, init)) by {
            assert forall|k: int|
                0 <= k < 2 * n implies args[i + k] == input_args("-i"@, init)[k] by {
                assert(all[k] == args[i + k]);
            }
        }
        assert forall|k: int| 0 <= k < init.len() implies !begins(
            (#[trigger] init[k]).binding(),
            '-',
        ) by {
            assert(init[k] == items[k]);
        }
        lemma_io_inputs(o, args, i, init);
        let at = i + 2 * n;
        let before = IoCliModel { inputs: o.inputs + input_bindings(init), ..o };
        assert(all[2 * n] == args[at] && all[2 * n + 1] == args[at + 1]);
        assert(!begins(items[n].binding(), '-'));
        lemma_io_step(before, args, at);
        let after = IoCliModel { inputs: o.inputs + input_bindings(items), ..o };
        assert(before.inputs.push(BindingArgModel::Provided(args[at + 1])) =~= after.inputs);
        assert(step(before, args, at) == io_arg(before, args, at));
        lemma_step(step, before, args, at, after, at + 2);
    }
}

proof fn lemma_io_outputs(
    o: IoCliModel,
    args: Seq<Seq<char>>,
    i: int,
    items: Seq<CommandOutputModel>,
)
    requires
        0 <= i,
        i + 2 * items.len() <= args.len(),
        args.subrange(i, i + 2 * items.len()) == output_args(items),
        forall|k: int| 0 <= k < items.len() ==> !begins((#[trigger] items[k]).binding(), '-'),
    ensures
        arguments_taken(argument_step::<IoCliOptions>(), o, args, i) == arguments_taken(
            argument_step::<IoCliOptions>(),
            IoCliModel { outputs: o.outputs + output_bindings(items), ..o },
            args,
            i + 2 * items.len(),
        ),
    decreases items.len(),
{
    let step = argument_step::<IoCliOptions>();
    if items.len() == 0 {
        assert(o.outputs + output_bindings(items) =~= o.outputs);
    } else {
        let init = items.drop_last();
        let n = init.len() as int;
        lemma_output_args_len(init);
        lemma_output_arg(items, n);
        let all = args.subrange(i, i + 2 * items.len());
        assert(args.subrange(i, i + 2 * n) =~= output_args(init)) by {
            assert forall|k: int| 0 <= k < 2 * n implies args[i + k] == output_args(init)[k] by {
                assert(all[k] == args[i + k]);
            }
        }
        assert forall|k: int| 0 <= k < init.len() implies !begins(
            (#[trigger] init[k]).binding(),
            '-',
        ) by {
            assert(init[k] == items[k]);
        }
        lemma_io_outputs(o, args, i, init);
        let at = i + 2 * n;
        let before = IoCliModel { outputs: o.outputs + output_bindings(init), ..o };
        assert(all[2 * n] == args[at] && all[2 * n + 1] == args[at + 1]);
        assert(!begins(items[n].binding(), '-'));
        lemma_io_step(before, args, at);
        let after = IoCliModel { outputs: o.outputs + output_bindings(items), ..o };
        assert(before.outputs.push(BindingArgModel::Provided(args[at + 1])) =~= after.outputs);
        assert(step(before, args, at) == io_arg(before, args, at));
        lemma_step(step, before, args, at, after, at + 2);
    }
}

proof fn lemma_io_common(
    o: IoCliModel,
    args: Seq<Seq<char>>,
    i: int,
    log_dir: Option<Seq<char>>,
    no_log: bool,
    s3b: bool,
)
    requires
        0 <= i <= args.len(),
        args.skip(i) == common_args(log_dir, no_log, s3b),
        o.runtime_options.log_dir is None,
        !o.runtime_options.no_log,
        !o.runtime_options.s3b,
    ensures
        arguments_taken(argument_step::<IoCliOptions>(), o, args, i) == Ok::<
            IoCliModel,
            Seq<char>,
        >(o.with_runtime(IoOptionsModel { log_dir, no_log, s3b, ..o.runtime_options })),
{
    let step = argument_step::<IoCliOptions>();
    let rest = args.skip(i);
    assert forall|k: int| 0 <= k < rest.len() implies rest[k] == args[i + k] by {}
    let a = o.with_runtime(IoOptionsModel { log_dir, ..o.runtime_options });
    let n: int = if log_dir is Some {
        i + 2
    } else {
        i
    };
    if log_dir is Some {
        assert(rest[0] == "--log-dir"@ && rest[1] == log_dir->0);
        lemma_io_step(o, args, i);
        assert(step(o, args, i) == io_arg(o, args, i));
        lemma_step(step, o, args, i, a, n);
    }
    let b = a.with_runtime(IoOptionsModel { no_log, ..a.runtime_options });
    let m: int = if no_log {
        n + 1
    } else {
        n
    };
    if no_log {
        assert(rest[n - i] == "--no-log"@);
        lemma_io_step(a, args, n);
        assert(step(a, args, n) == io_arg(a, args, n));
        lemma_step(step, a, args, n, b, m);
    }
    let c = b.with_runtime(IoOptionsModel { s3b, ..b.runtime_options });
    if s3b {
        assert(rest[m - i] == "--s3b"@);
        lemma_io_step(b, args, m);
        assert(step(b, args, m) == io_arg(b, args, m));
        lemma_step(step, b, args, m, c, m + 1);
    }
}

proof fn lemma_output_begins(m: CommandOutputModel)
    requires
        !begins(m.id, '-'),
        !begins(m.port, '-'),
    ensures
        !begins(m.binding(), '-'),
{
    let d = decimal(m.baud_rate as nat);
    let tail = comma_part(Some(display_mode_name(m.display_mode))) + comma_part(
        Some(format_name(m.format)),
    ) + comma_part(Some(m.rate));
    let text = m.port + "@"@ + (d + tail);
    lemma_binding_begins(m.port, d + tail);
    assert(m.binding() =~= with_id(m.id, m.port, text));
    if m.id != m.port {
        reveal_strlit("=");
        if m.id.len() > 0 {
            assert(m.binding()[0] == m.id[0]);
        } else {
            assert(m.binding()[0] == '=');
        }
    }
}

/// The words of the command line of a run of `io`, behind its name.
pub open spec fn io_words(
    inputs: Seq<CommandInputModel>,
    outputs: Seq<CommandOutputModel>,
    log_dir: Option<Seq<char>>,
    no_log: bool,
    s3b: bool,
) -> Seq<Seq<char>> {
    input_args("-i"@, inputs) + output_args(outputs) + common_args(log_dir, no_log, s3b)
}

/// The options that a run of `io` was set to.
pub open spec fn io_options(
    inputs: Seq<CommandInputModel>,
    outputs: Seq<CommandOutputModel>,
    log_dir: Option<Seq<char>>,
    no_log: bool,
    s3b: bool,
    readings: ReadingsModel,
) -> IoCliModel {
    IoCliModel {
        inputs: input_bindings(inputs),
        outputs: output_bindings(outputs),
        runtime_options: IoOptionsModel {
            rate_hz: Some(default_rate()),
            log_dir,
            no_log,
            s3b,
            ..IoOptionsModel::empty(readings)
        },
    }
}

proof fn lemma_io_parsed(
    inputs: Seq<CommandInputModel>,
    outputs: Seq<CommandOutputModel>,
    log_dir: Option<Seq<char>>,
    no_log: bool,
    s3b: bool,
    readings: ReadingsModel,
)
    requires
        inputs.len() + outputs.len() > 0,
        forall|k: int| 0 <= k < inputs.len() ==> !begins((#[trigger] inputs[k]).port, '-'),
        forall|k: int|
            0 <= k < outputs.len() ==> !begins((#[trigger] outputs[k]).id, '-') && !begins(
                outputs[k].port,
                '-',
            ),
    ensures
        io_args(io_words(inputs, outputs, log_dir, no_log, s3b), readings) == Ok::<
            IoCliModel,
            Seq<char>,
        >(io_options(inputs, outputs, log_dir, no_log, s3b, readings)),
{
    let words = io_words(inputs, outputs, log_dir, no_log, s3b);
    let start = io_defaults(readings);
    assert forall|k: int| 0 <= k < inputs.len() implies !begins(
        (#[trigger] inputs[k]).binding(),
        '-',
    ) by {
        lemma_input_begins(inputs[k]);
    }
    assert forall|k: int| 0 <= k < outputs.len() implies !begins(
        (#[trigger] outputs[k]).binding(),
        '-',
    ) by {
        lemma_output_begins(outputs[k]);
    }
    lemma_input_args_len("-i"@, inputs);
    lemma_output_args_len(outputs);
    let n = 2 * inputs.len() as int;
    let m = n + 2 * outputs.len();
    assert(words.subrange(0, n) =~= input_args("-i"@, inputs));
    assert(words.subrange(n, m) =~= output_args(outputs));
    assert(words.skip(m) =~= common_args(log_dir, no_log, s3b));
    lemma_io_inputs(start, words, 0, inputs);
    let a = IoCliModel { inputs: start.inputs + input_bindings(inputs), ..start };
    lemma_io_outputs(a, words, n, outputs);
    let b = IoCliModel { outputs: a.outputs + output_bindings(outputs), ..a };
    lemma_io_common(b, words, m, log_dir, no_log, s3b);
    assert(b.inputs =~= input_bindings(inputs));
    assert(b.outputs =~= output_bindings(outputs));
}

/// The command line of a run of `io` is split by a shell into the program, the command and words
/// that are read as the options of the run. A run has an input or an output, and no port and no id
/// may begin as an option does: behind `-i` and `-o` such a name is the next option.
pub proof fn law_io_command_reads_back(
    inputs: Seq<CommandInputModel>,
    outputs: Seq<CommandOutputModel>,
    log_dir: Option<Seq<char>>,
    no_log: bool,
    s3b: bool,
    readings: ReadingsModel,
)
    requires
        inputs.len() + outputs.len() > 0,
        forall|k: int| 0 <= k < inputs.len() ==> !begins((#[trigger] inputs[k]).port, '-'),
        forall|k: int|
            0 <= k < outputs.len() ==> !begins((#[trigger] outputs[k]).id, '-') && !begins(
                outputs[k].port,
                '-',
            ),
    ensures
        ({
            let words = io_words(inputs, outputs, log_dir, no_log, s3b);
            &&& shell_split(io_command_text(inputs, outputs, log_dir, no_log, s3b)) == Some(
                seq!["acs"@, "io"@] + words,
            )
            &&& action_of(seq!["io"@] + words) == ActionModel::Run(Subcommand::Io, words)
            &&& io_args(words, readings) == Ok::<IoCliModel, Seq<char>>(
                io_options(inputs, outputs, log_dir, no_log, s3b, readings),
            )
        }),
{
    let words = io_words(inputs, outputs, log_dir, no_log, s3b);
    let typed = seq!["acs"@, "io"@] + input_args("-i"@, inputs) + output_args(outputs)
        + common_args(log_dir, no_log, s3b);
    assert(typed =~= seq!["acs"@, "io"@] + words);
    law_shell_splits_the_command(typed);
    law_commands_run_by_name(Subcommand::Io, words);
    lemma_io_parsed(inputs, outputs, log_dir, no_log, s3b, readings);
}

// ---------------------------------------------------------------------------
// Runs
// ---------------------------------------------------------------------------

/// An input as its binding is read.
pub open spec fn input_read(m: CommandInputModel) -> InputBindingModel {
    InputBindingModel {
        port: m.port,
        baud: Some(m.baud_rate),
        formats: format_names(m.formats),
        display_mode: Some(m.display_mode),
        line_break_mode: Some(m.line_break_mode),
    }
}

pub open spec fn inputs_read(inputs: Seq<CommandInputModel>) -> Seq<InputBindingModel> {
    inputs.map_values(|m: CommandInputModel| input_read(m))
}

/// Each input has a port, and no format twice.
pub open spec fn named_inputs(inputs: Seq<CommandInputModel>) -> bool {
    forall|k: int|
        0 <= k < inputs.len() ==> is_trim((#[trigger] inputs[k]).port)
            && inputs[k].formats.no_duplicates()
}

proof fn lemma_monitors_read(
    run: ControlRunModel,
    command: ControlCommandModel,
    monitors: Seq<CommandInputModel>,
    answers: Seq<Seq<char>>,
)
    requires
        named_inputs(monitors),
    ensures
        monitors_resolved(run, command, input_bindings(monitors), answers) == Ok::<
            ResolutionModel,
            Seq<char>,
        >(
            ResolutionModel::Ready(
                ControlRunModel {
                    monitor_ports: run.monitor_ports + inputs_read(monitors),
                    ..run
                },
            ),
        ),
    decreases monitors.len(),
{
    let args = input_bindings(monitors);
    if monitors.len() == 0 {
        assert(run.monitor_ports + inputs_read(monitors) =~= run.monitor_ports);
    } else {
        let rest = monitors.skip(1);
        assert(args.skip(1) =~= input_bindings(rest));
        let first = monitors[0];
        law_input_binding_reads_back(first);
        assert(args[0] == BindingArgModel::Provided(first.binding()));
        let next = ControlRunModel {
            monitor_ports: run.monitor_ports.push(input_read(first)),
            ..run
        };
        assert(named_inputs(rest)) by {
            assert forall|k: int| 0 <= k < rest.len() implies is_trim((#[trigger] rest[k]).port)
                && rest[k].formats.no_duplicates() by {
                assert(rest[k] == monitors[k + 1]);
            }
        }
        lemma_monitors_read(
            next,
            ControlCommandModel { monitors: command.monitors.push(first.binding()), ..command },
            rest,
            answers,
        );
        assert(next.monitor_ports + inputs_read(rest) =~= run.monitor_ports + inputs_read(
            monitors,
        ));
    }
}

/// What a run of `control` is asked for by the options that it was set to.
pub open spec fn control_run(
    output: OutputSpecModel,
    format: OutputFormat,
    rate_hz: u32,
    monitors: Seq<CommandInputModel>,
    controller: Option<Seq<char>>,
    log_dir: Option<Seq<char>>,
    no_log: bool,
    s3b: bool,
) -> ControlRunModel {
    ControlRunModel {
        port: Some(
            PortSpecModel {
                port: output.port,
                baud: Some(output.baud_rate),
                display_mode: Some(output.display_mode),
                line_break_mode: None,
            },
        ),
        baud: None,
        controller,
        format: Some(format_name(format)),
        rate_hz: Some(rate_hz),
        display: PortDisplayModel::empty(),
        monitor_ports: inputs_read(monitors),
        log_dir,
        no_log,
        s3b,
    }
}

/// The options of a run of `control` leave nothing to ask, and ask for the run again: its output,
/// its format and its rate, its monitors, its controller, and how it is logged.
pub proof fn law_control_options_ask_for_the_run(
    output: OutputSpecModel,
    format: OutputFormat,
    rate_hz: u32,
    monitors: Seq<CommandInputModel>,
    controller: Option<Seq<char>>,
    log_dir: Option<Seq<char>>,
    no_log: bool,
    s3b: bool,
    answers: AnswersModel,
)
    requires
        is_trim(output.port),
        named_inputs(monitors),
    ensures
        control_resolution(
            control_options(
                output,
                format,
                rate_hz,
                monitors,
                controller,
                log_dir,
                no_log,
                s3b,
            ),
            answers,
        ) == Ok::<ResolutionModel, Seq<char>>(
            ResolutionModel::Ready(
                control_run(
                    output,
                    format,
                    rate_hz,
                    monitors,
                    controller,
                    log_dir,
                    no_log,
                    s3b,
                ),
            ),
        ),
{
    let o = control_options(
        output,
        format,
        rate_hz,
        monitors,
        controller,
        log_dir,
        no_log,
        s3b,
    );
    let run = control_start(o);
    law_port_reads_back("--port"@, output.port, output.baud_rate, output.display_mode);
    let expected = control_run(
        output,
        format,
        rate_hz,
        monitors,
        controller,
        log_dir,
        no_log,
        s3b,
    );
    let ready = ControlRunModel { port: expected.port, format: expected.format, ..run };
    let command = ControlCommandModel {
        output: Some(o.port->0->Provided_0),
        ..ControlCommandModel {
            format: Some(format_name(format)),
            ..ControlCommandModel::of_options(run)
        }
    }.with_default_format();
    lemma_monitors_read(ready, command, monitors, answers.monitors);
    assert(ready.monitor_ports + inputs_read(monitors) =~= inputs_read(monitors));
}

/// An output as its binding is read.
pub open spec fn output_read(m: CommandOutputModel, rate: RateModel) -> IoOutputModel {
    IoOutputModel {
        id: m.id,
        port: m.port,
        baud: Some(m.baud_rate),
        rate_hz: Some(rate),
        format: Some(format_name(m.format)),
        display_mode: Some(m.display_mode),
    }
}

pub open spec fn outputs_read(outputs: Seq<CommandOutputModel>, rates: Seq<RateModel>) -> Seq<
    IoOutputModel,
> {
    Seq::new(outputs.len(), |k: int| output_read(outputs[k], rates[k]))
}

/// Each output has an id and a port, and its rate is read as the given one.
pub open spec fn named_outputs(
    outputs: Seq<CommandOutputModel>,
    rates: Seq<RateModel>,
    readings: ReadingsModel,
) -> bool {
    &&& rates.len() == outputs.len()
    &&& forall|k: int|
        0 <= k < outputs.len() ==> {
            let output = #[trigger] outputs[k];
            &&& is_trim(output.port)
            &&& output.id.len() > 0
            &&& forall|i: int| 0 <= i < output.id.len() ==> #[trigger] output.id[i] != '='
            &&& forall|i: int| 0 <= i < output.rate.len() ==> #[trigger] output.rate[i] != ','
            &&& send_rate("io output rate"@, output.rate, readings) == Ok::<RateModel, Seq<char>>(
                rates[k],
            )
        }
}

proof fn lemma_inputs_read(s: IoAsking, inputs: Seq<CommandInputModel>, i: int)
    requires
        named_inputs(inputs),
        0 <= i <= inputs.len(),
    ensures
        bindings_resolved(s, false, input_bindings(inputs), i) matches Ok((t, ask)) && ask is None
            && t.answers == s.answers && t.options == (IoOptionsModel {
            inputs: s.options.inputs + inputs_read(inputs).skip(i),
            ..s.options
        }),
    decreases inputs.len() - i,
{
    let args = input_bindings(inputs);
    let read = inputs_read(inputs);
    if i == inputs.len() {
        assert(s.options.inputs + read.skip(i) =~= s.options.inputs);
    } else {
        let value = inputs[i].binding();
        law_input_binding_reads_back(inputs[i]);
        assert(args[i] == BindingArgModel::Provided(value));
        let next = binding_added(s, false, value, s.answers)->Ok_0;
        lemma_inputs_read(next, inputs, i + 1);
        assert(next.options.inputs == s.options.inputs.push(read[i]));
        assert(next.options.inputs + read.skip(i + 1) =~= s.options.inputs + read.skip(i));
    }
}

proof fn lemma_outputs_read(
    s: IoAsking,
    outputs: Seq<CommandOutputModel>,
    rates: Seq<RateModel>,
    i: int,
)
    requires
        named_outputs(outputs, rates, s.options.readings),
        0 <= i <= outputs.len(),
    ensures
        bindings_resolved(s, true, output_bindings(outputs), i) matches Ok((t, ask)) && ask is None
            && t.options == (IoOptionsModel {
            outputs: s.options.outputs + outputs_read(outputs, rates).skip(i),
            ..s.options
        }),
    decreases outputs.len() - i,
{
    let args = output_bindings(outputs);
    let read = outputs_read(outputs, rates);
    if i == outputs.len() {
        assert(s.options.outputs + read.skip(i) =~= s.options.outputs);
    } else {
        let value = outputs[i].binding();
        law_output_binding_reads_back(outputs[i], rates[i], s.options.readings);
        assert(args[i] == BindingArgModel::Provided(value));
        let next = binding_added(s, true, value, s.answers)->Ok_0;
        lemma_outputs_read(next, outputs, rates, i + 1);
        assert(next.options.outputs == s.options.outputs.push(read[i]));
        assert(next.options.outputs + read.skip(i + 1) =~= s.options.outputs + read.skip(i));
    }
}

/// What a run of `io` is asked for by the options that it was set to.
pub open spec fn io_run(
    inputs: Seq<CommandInputModel>,
    outputs: Seq<CommandOutputModel>,
    rates: Seq<RateModel>,
    log_dir: Option<Seq<char>>,
    no_log: bool,
    s3b: bool,
    readings: ReadingsModel,
) -> IoOptionsModel {
    IoOptionsModel {
        inputs: inputs_read(inputs),
        outputs: outputs_read(outputs, rates),
        rate_hz: Some(default_rate()),
        log_dir,
        no_log,
        s3b,
        ..IoOptionsModel::empty(readings)
    }
}

/// The options of a run of `io` leave nothing to ask, and ask for the run again: its inputs, its
/// outputs, and how it is logged.
pub proof fn law_io_options_ask_for_the_run(
    inputs: Seq<CommandInputModel>,
    outputs: Seq<CommandOutputModel>,
    rates: Seq<RateModel>,
    log_dir: Option<Seq<char>>,
    no_log: bool,
    s3b: bool,
    readings: ReadingsModel,
    answers: Seq<Seq<char>>,
)
    requires
        named_inputs(inputs),
        named_outputs(outputs, rates, readings),
    ensures
        io_resolution(io_options(inputs, outputs, log_dir, no_log, s3b, readings), answers) == Ok::<
            IoResolutionModel,
            Seq<char>,
        >(
            IoResolutionModel::Ready(
                io_run(inputs, outputs, rates, log_dir, no_log, s3b, readings),
            ),
        ),
{
    let o = io_options(inputs, outputs, log_dir, no_log, s3b, readings);
    let start = IoAsking {
        options: o.runtime_options,
        command: IoPromptModel::of_options(o.runtime_options),
        answers,
    };
    lemma_inputs_read(start, inputs, 0);
    let s = bindings_resolved(start, false, o.inputs, 0)->Ok_0.0;
    lemma_outputs_read(s, outputs, rates, 0);
    assert(start.options.inputs + inputs_read(inputs).skip(0) =~= inputs_read(inputs));
    assert(start.options.outputs + outputs_read(outputs, rates).skip(0) =~= outputs_read(
        outputs,
        rates,
    ));
}

} // verus!

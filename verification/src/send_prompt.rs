//! `send`: what is left to ask where bindings were left open, and the questions.
use crate::command_line::{
    format_io_input_binding, format_prompt_io_output_binding, input_binding_text,
    output_binding_text, push_word,
};
use crate::commands::PortInfo;
use crate::format::OutputFormat;
use crate::io::{BindingArgModel, IoBindingArg};
use crate::io_questions::{baud_choices, prompt_baud};
use crate::menu::{
    chained, display_asked, format_asked, input_format_asked, nothing_shown, number_asked,
    port_asked, prompt_display_of, prompt_format_of, prompt_input_format_of,
    prompt_serial_port_with_preview, prompt_u32_choice_with_preview, selected, selection, Asked,
    NoPreview, Reply, ReplyModel, Step, StepModel,
};
use crate::send::{
    parse_send_monitor_binding, parse_send_output_binding, send_monitor_binding,
    send_output_binding, IoCliOptions, SendCliOptions, SendIoModel, SendOptionsModel,
};
use crate::text::{decimal, decimal_text, viewed};
use vstd::prelude::*;

verus! {

// ---------------------------------------------------------------------------
// What is left to ask
// ---------------------------------------------------------------------------

/// An input or an output to ask for; or the options, where nothing is left to ask.
#[derive(Debug)]
pub enum SendResolution {
    AskInput,
    AskOutput,
    Ready(SendCliOptions),
}

#[verifier::ext_equal]
pub enum SendResolutionModel {
    AskInput,
    AskOutput,
    Ready(SendOptionsModel),
}

impl DeepView for SendResolution {
    type V = SendResolutionModel;

    open spec fn deep_view(&self) -> SendResolutionModel {
        match self {
            SendResolution::AskInput => SendResolutionModel::AskInput,
            SendResolution::AskOutput => SendResolutionModel::AskOutput,
            SendResolution::Ready(options) => SendResolutionModel::Ready(options.deep_view()),
        }
    }
}

/// The options with one more binding.
pub open spec fn send_binding_added(o: SendOptionsModel, output: bool, value: Seq<char>) -> Result<
    SendOptionsModel,
    Seq<char>,
> {
    if output {
        match send_output_binding(value) {
            Err(e) => Err(e),
            Ok(b) => Ok(SendOptionsModel { outputs: o.outputs.push(b), ..o }),
        }
    } else {
        match send_monitor_binding(value) {
            Err(e) => Err(e),
            Ok(b) => Ok(SendOptionsModel { monitor_ports: o.monitor_ports.push(b), ..o }),
        }
    }
}

/// The options and the answers that are not used yet.
pub struct SendAsking {
    pub options: SendOptionsModel,
    pub answers: Seq<Seq<char>>,
}

/// What becomes of bindings of one direction; nothing where one of them is to be asked for.
pub open spec fn send_bindings_resolved(
    s: SendAsking,
    output: bool,
    args: Seq<BindingArgModel>,
    i: int,
) -> Result<Option<SendAsking>, Seq<char>>
    decreases args.len() - i,
{
    if i < 0 || i >= args.len() {
        Ok(Some(s))
    } else if args[i] is Prompt && s.answers.len() == 0 {
        Ok(None)
    } else {
        let (value, rest) = match args[i] {
            BindingArgModel::Provided(value) => (value, s.answers),
            BindingArgModel::Prompt => (s.answers[0], s.answers.skip(1)),
        };
        match send_binding_added(s.options, output, value) {
            Err(e) => Err(e),
            Ok(options) => send_bindings_resolved(
                SendAsking { options, answers: rest },
                output,
                args,
                i + 1,
            ),
        }
    }
}

/// What to ask next, or the options: first the inputs, then the outputs, each in their order.
pub open spec fn send_resolution(o: SendIoModel, answers: Seq<Seq<char>>) -> Result<
    SendResolutionModel,
    Seq<char>,
> {
    match send_bindings_resolved(
        SendAsking { options: o.send_options, answers },
        false,
        o.inputs,
        0,
    ) {
        Err(e) => Err(e),
        Ok(None) => Ok(SendResolutionModel::AskInput),
        Ok(Some(s)) => match send_bindings_resolved(s, true, o.outputs, 0) {
            Err(e) => Err(e),
            Ok(None) => Ok(SendResolutionModel::AskOutput),
            Ok(Some(s)) => Ok(SendResolutionModel::Ready(s.options)),
        },
    }
}

fn add_binding(options: &mut SendCliOptions, output: bool, value: &str) -> (r: Result<(), String>)
    ensures
        match r {
            Ok(()) => send_binding_added(old(options).deep_view(), output, value@) == Ok::<
                SendOptionsModel,
                Seq<char>,
            >(final(options).deep_view()),
            Err(e) => send_binding_added(old(options).deep_view(), output, value@) == Err::<
                SendOptionsModel,
                Seq<char>,
            >(e@),
        },
{
    if output {
        let binding = parse_send_output_binding(value)?;
        let ghost list = options.outputs.deep_view();
        let ghost added = binding.deep_view();
        options.outputs.push(binding);
        assert(options.outputs.deep_view() =~= list.push(added));
    } else {
        let binding = parse_send_monitor_binding(value)?;
        let ghost list = options.monitor_ports.deep_view();
        let ghost added = binding.deep_view();
        options.monitor_ports.push(binding);
        assert(options.monitor_ports.deep_view() =~= list.push(added));
    }
    Ok(())
}

pub open spec fn send_asking(options: SendOptionsModel, answers: Seq<Seq<char>>) -> SendAsking {
    SendAsking { options, answers }
}

/// Takes bindings of one direction. Tells how many answers are used, unless one is to be asked
/// for.
fn resolve_bindings(
    options: &mut SendCliOptions,
    output: bool,
    args: &Vec<IoBindingArg>,
    answers: &Vec<String>,
    used: usize,
) -> (r: Result<Option<usize>, String>)
    requires
        used <= answers.len(),
    ensures
        match r {
            Ok(Some(now_used)) => now_used <= answers.len() && send_bindings_resolved(
                send_asking(old(options).deep_view(), answers.deep_view().skip(used as int)),
                output,
                args.deep_view(),
                0,
            ) == Ok::<Option<SendAsking>, Seq<char>>(
                Some(
                    send_asking(
                        final(options).deep_view(),
                        answers.deep_view().skip(now_used as int),
                    ),
                ),
            ),
            Ok(None) => send_bindings_resolved(
                send_asking(old(options).deep_view(), answers.deep_view().skip(used as int)),
                output,
                args.deep_view(),
                0,
            ) == Ok::<Option<SendAsking>, Seq<char>>(None),
            Err(e) => send_bindings_resolved(
                send_asking(old(options).deep_view(), answers.deep_view().skip(used as int)),
                output,
                args.deep_view(),
                0,
            ) == Err::<Option<SendAsking>, Seq<char>>(e@),
        },
{
    let ghost all = args.deep_view();
    let ghost said = answers.deep_view();
    let ghost start = send_asking(options.deep_view(), said.skip(used as int));
    let mut now_used: usize = used;
    let mut i: usize = 0;
    while i < args.len()
        invariant
            i <= args.len(),
            now_used <= answers.len(),
            all == args.deep_view(),
            said == answers.deep_view(),
            start == send_asking(old(options).deep_view(), said.skip(used as int)),
            send_bindings_resolved(start, output, all, 0) == send_bindings_resolved(
                send_asking(options.deep_view(), said.skip(now_used as int)),
                output,
                all,
                i as int,
            ),
        decreases args.len() - i,
    {
        let ghost waiting = said.skip(now_used as int);
        proof {
            assert(all[i as int] == args@[i as int].deep_view());
            assert(waiting.len() == answers.len() - now_used);
        }
        let value: &str = match &args[i] {
            IoBindingArg::Provided(value) => value.as_str(),
            IoBindingArg::Prompt => {
                if now_used >= answers.len() {
                    return Ok(None);
                }
                proof {
                    assert(waiting[0] == answers@[now_used as int]@);
                    assert(waiting.skip(1) == said.skip(now_used + 1));
                }
                now_used += 1;
                answers[now_used - 1].as_str()
            },
        };
        add_binding(options, output, value)?;
        i += 1;
    }
    Ok(Some(now_used))
}

pub fn resolve_io_options(io_options: IoCliOptions, answers: &Vec<String>) -> (r: Result<
    SendResolution,
    String,
>)
    ensures
        viewed(r) == send_resolution(io_options.deep_view(), answers.deep_view()),
{
    let mut options = io_options.send_options;
    assert(answers.deep_view().skip(0) == answers.deep_view());
    let used: usize = match resolve_bindings(
        &mut options,
        false,
        &io_options.inputs,
        answers,
        0,
    )? {
        None => return Ok(SendResolution::AskInput),
        Some(used) => used,
    };
    match resolve_bindings(&mut options, true, &io_options.outputs, answers, used)? {
        None => Ok(SendResolution::AskOutput),
        Some(_) => Ok(SendResolution::Ready(options)),
    }
}

// ---------------------------------------------------------------------------
// Questions
// ---------------------------------------------------------------------------

pub open spec fn send_format_choices() -> Seq<OutputFormat> {
    seq![
        OutputFormat::PacketAcV6,
        OutputFormat::PacketMv1,
        OutputFormat::PacketIv1,
        OutputFormat::PacketBv1,
        OutputFormat::PacketJfV1,
        OutputFormat::RoverUpGeneral,
        OutputFormat::RoverDownGeneral,
    ]
}

pub fn output_format_choices() -> (formats: Vec<OutputFormat>)
    ensures
        formats@ == send_format_choices(),
{
    let formats: Vec<OutputFormat> = vec![
        OutputFormat::PacketAcV6,
        OutputFormat::PacketMv1,
        OutputFormat::PacketIv1,
        OutputFormat::PacketBv1,
        OutputFormat::PacketJfV1,
        OutputFormat::RoverUpGeneral,
        OutputFormat::RoverDownGeneral,
    ];
    assert(formats@ =~= send_format_choices());
    formats
}

pub open spec fn send_display_choices(input: bool) -> Seq<Seq<char>> {
    let both = seq!["default"@, "hex"@, "ascii"@, "utf8"@, "hex+ascii"@, "hex+utf8"@];
    if input {
        both + seq!["hex+packet"@, "utf8+packet"@, "hex+utf8+wrap"@]
    } else {
        both
    }
}

/// A display value; the first choice leaves it open.
pub open spec fn send_display_asked(
    prompt: Seq<char>,
    input: bool,
    replies: Seq<ReplyModel>,
    at: int,
) -> Asked<Option<Seq<char>>> {
    let choices = send_display_choices(input);
    if selection(replies, at, choices.len() + 1) == Some(0int) {
        Ok(StepModel::Done(None, at + 1))
    } else {
        display_asked(prompt, choices, "hex+utf8"@, nothing_shown(), replies, at)
    }
}

pub fn prompt_display_mode(prompt: &str, input: bool, replies: &Vec<Reply>, at: usize) -> (r: Result<
    Step<Option<String>>,
    String,
>)
    ensures
        viewed(r) == send_display_asked(prompt@, input, replies.deep_view(), at as int),
{
    let mut choices: Vec<String> = Vec::new();
    push_word(&mut choices, "default");
    push_word(&mut choices, "hex");
    push_word(&mut choices, "ascii");
    push_word(&mut choices, "utf8");
    push_word(&mut choices, "hex+ascii");
    push_word(&mut choices, "hex+utf8");
    if input {
        push_word(&mut choices, "hex+packet");
        push_word(&mut choices, "utf8+packet");
        push_word(&mut choices, "hex+utf8+wrap");
    }
    assert(choices.deep_view() =~= send_display_choices(input));
    assert(choices.deep_view().len() == choices.len());
    if let Some(index) = selected(replies, at, choices.len() + 1) {
        if index == 0 {
            return Ok(Step::Done(None, at + 1));
        }
    }
    prompt_display_of(prompt, &choices, "hex+utf8", &NoPreview, replies, at)
}

/// The binding of an input: its port, its baud rate, its formats and its display.
pub open spec fn send_input_asked(ports: Seq<PortInfo>, replies: Seq<ReplyModel>) -> Asked<
    Seq<char>,
> {
    chained(
        port_asked("受信ポートを選択"@, false, ports, nothing_shown(), replies, 0),
        |port: Seq<char>, used: int|
            chained(
                number_asked(
                    "受信ボーレート"@,
                    115_200,
                    baud_choices(),
                    nothing_shown(),
                    replies,
                    used,
                ),
                |baud: u32, used: int|
                    chained(
                        input_format_asked(
                            "受信フォーマット"@,
                            send_format_choices(),
                            nothing_shown(),
                            replies,
                            used,
                        ),
                        |format: Option<Seq<char>>, used: int|
                            chained(
                                send_display_asked("受信表示形式"@, true, replies, used),
                                |display: Option<Seq<char>>, used: int|
                                    Ok(
                                        StepModel::Done(
                                            input_binding_text(
                                                port,
                                                Some(decimal(baud as nat)),
                                                display,
                                                format,
                                            ),
                                            used,
                                        ),
                                    ),
                            ),
                    ),
            ),
    )
}

fn as_text(text: &Option<String>) -> (r: Option<&str>)
    ensures
        r.deep_view() == text.deep_view(),
{
    match text {
        Some(text) => Some(text.as_str()),
        None => None,
    }
}

/// What to ask next for the binding of an input, or the binding.
pub fn prompt_io_input_binding(ports: &Vec<PortInfo>, replies: &Vec<Reply>) -> (r: Result<
    Step<String>,
    String,
>)
    requires
        ports.len() < usize::MAX,
    ensures
        viewed(r) == send_input_asked(ports@, replies.deep_view()),
{
    let (port, used) = match prompt_serial_port_with_preview(
        "受信ポートを選択",
        false,
        ports,
        &NoPreview,
        replies,
        0,
    )? {
        Step::Ask(question) => return Ok(Step::Ask(question)),
        Step::Done(port, used) => (port, used),
    };
    let (baud, used) = match prompt_baud("受信ボーレート", &NoPreview, replies, used)? {
        Step::Ask(question) => return Ok(Step::Ask(question)),
        Step::Done(baud, used) => (baud, used),
    };
    let formats = output_format_choices();
    let (format, used) = match prompt_input_format_of(
        "受信フォーマット",
        &formats,
        &NoPreview,
        replies,
        used,
    )? {
        Step::Ask(question) => return Ok(Step::Ask(question)),
        Step::Done(format, used) => (format, used),
    };
    let (display, used) = match prompt_display_mode("受信表示形式", true, replies, used)? {
        Step::Ask(question) => return Ok(Step::Ask(question)),
        Step::Done(display, used) => (display, used),
    };
    let binding = format_io_input_binding(
        port.as_str(),
        baud,
        as_text(&display),
        as_text(&format),
    );
    Ok(Step::Done(binding, used))
}

pub open spec fn send_rate_choices() -> Seq<u32> {
    seq![10, 50, 100, 20, 1]
}

/// The binding of an output: its port, its baud rate, its display, its format and its rate.
pub open spec fn send_output_asked(ports: Seq<PortInfo>, replies: Seq<ReplyModel>) -> Asked<
    Seq<char>,
> {
    chained(
        port_asked("送信ポートを選択"@, false, ports, nothing_shown(), replies, 0),
        |port: Seq<char>, used: int|
            chained(
                number_asked(
                    "送信ボーレート"@,
                    115_200,
                    baud_choices(),
                    nothing_shown(),
                    replies,
                    used,
                ),
                |baud: u32, used: int|
                    chained(
                        send_display_asked("送信表示形式"@, false, replies, used),
                        |display: Option<Seq<char>>, used: int|
                            chained(
                                format_asked(
                                    "送信フォーマット"@,
                                    send_format_choices(),
                                    nothing_shown(),
                                    replies,
                                    used,
                                ),
                                |format: Seq<char>, used: int|
                                    chained(
                                        number_asked(
                                            "送信レート (Hz)"@,
                                            10,
                                            send_rate_choices(),
                                            nothing_shown(),
                                            replies,
                                            used,
                                        ),
                                        |rate: u32, used: int|
                                            Ok(
                                                StepModel::Done(
                                                    output_binding_text(
                                                        port,
                                                        Some(decimal(baud as nat)),
                                                        display,
                                                        Some(format),
                                                        Some(decimal(rate as nat)),
                                                    ),
                                                    used,
                                                ),
                                            ),
                                    ),
                            ),
                    ),
            ),
    )
}

/// What to ask next for the binding of an output, or the binding.
pub fn prompt_io_output_binding(ports: &Vec<PortInfo>, replies: &Vec<Reply>) -> (r: Result<
    Step<String>,
    String,
>)
    requires
        ports.len() < usize::MAX,
    ensures
        viewed(r) == send_output_asked(ports@, replies.deep_view()),
{
    let (port, used) = match prompt_serial_port_with_preview(
        "送信ポートを選択",
        false,
        ports,
        &NoPreview,
        replies,
        0,
    )? {
        Step::Ask(question) => return Ok(Step::Ask(question)),
        Step::Done(port, used) => (port, used),
    };
    let (baud, used) = match prompt_baud("送信ボーレート", &NoPreview, replies, used)? {
        Step::Ask(question) => return Ok(Step::Ask(question)),
        Step::Done(baud, used) => (baud, used),
    };
    let (display, used) = match prompt_display_mode("送信表示形式", false, replies, used)? {
        Step::Ask(question) => return Ok(Step::Ask(question)),
        Step::Done(display, used) => (display, used),
    };
    let formats = output_format_choices();
    let (format, used) = match prompt_format_of(
        "送信フォーマット",
        &formats,
        &NoPreview,
        replies,
        used,
    )? {
        Step::Ask(question) => return Ok(Step::Ask(question)),
        Step::Done(format, used) => (format, used),
    };
    let choices: [u32; 5] = [10, 50, 100, 20, 1];
    assert(choices@ =~= send_rate_choices());
    let (rate, used) = match prompt_u32_choice_with_preview(
        "送信レート (Hz)",
        10,
        &choices,
        &NoPreview,
        replies,
        used,
    )? {
        Step::Ask(question) => return Ok(Step::Ask(question)),
        Step::Done(rate, used) => (rate, used),
    };
    let baud_text = decimal_text(baud as u64);
    let rate_text = decimal_text(rate as u64);
    let binding = format_prompt_io_output_binding(
        port.as_str(),
        Some(baud_text.as_str()),
        as_text(&display),
        Some(format.as_str()),
        Some(rate_text.as_str()),
    );
    Ok(Step::Done(binding, used))
}

} // verus!

//! `io`: what is left to ask, and the command line that the answers so far make.
use crate::command_line::{
    append_prompt_common_args, command_text, common_args, format_command_preview, push_word,
};
use crate::io::{
    io_input_binding, io_output_binding, parse_io_input_binding, parse_io_output_binding,
    BindingArgModel, IoBindingArg, IoCliModel, IoCliOptions, IoOptionsModel, IoRuntimeOptions,
};
use crate::text::{cat5, decimal, decimal_text, viewed};
use vstd::prelude::*;
use vstd::string::*;

verus! {

// ---------------------------------------------------------------------------
// Positions
// ---------------------------------------------------------------------------

/// Which of several ports is being asked for.
#[derive(Debug, Clone, Copy, PartialEq, Eq, Structural)]
pub struct IoPromptPortPosition {
    pub output: bool,
    pub index: usize,
    pub total: usize,
}

/// What a port is for.
pub open spec fn direction_text(output: bool) -> Seq<char> {
    if output {
        "送信"@
    } else {
        "受信"@
    }
}

impl IoPromptPortPosition {
    pub fn input(index: usize, total: usize) -> (position: IoPromptPortPosition)
        ensures
            position == (IoPromptPortPosition { output: false, index, total }),
    {
        IoPromptPortPosition { output: false, index, total }
    }

    pub fn output(index: usize, total: usize) -> (position: IoPromptPortPosition)
        ensures
            position == (IoPromptPortPosition { output: true, index, total }),
    {
        IoPromptPortPosition { output: true, index, total }
    }

    /// The prompt, with the position where there are several ports.
    pub open spec fn labelled(self, prompt: Seq<char>) -> Seq<char> {
        if self.total > 1 {
            prompt + " ("@ + direction_text(self.output) + "ポート "@ + decimal(self.index as nat)
                + "/"@ + decimal(self.total as nat) + ")"@
        } else {
            prompt
        }
    }

    pub fn label(self, prompt: &str) -> (r: String)
        ensures
            r@ == self.labelled(prompt@),
    {
        if self.total > 1 {
            let kind = if self.output {
                "送信"
            } else {
                "受信"
            };
            let index = decimal_text(self.index as u64);
            let total = decimal_text(self.total as u64);
            let mut r = cat5(prompt, " (", kind, "ポート ", index.as_str());
            r.append("/");
            r.append(total.as_str());
            r.append(")");
            r
        } else {
            prompt.to_owned()
        }
    }
}

// ---------------------------------------------------------------------------
// The command line so far
// ---------------------------------------------------------------------------

#[derive(Debug)]
pub struct IoPromptCommand {
    pub inputs: Vec<String>,
    pub outputs: Vec<String>,
    pub log_dir: Option<String>,
    pub no_log: bool,
    pub s3b: bool,
}

#[verifier::ext_equal]
pub struct IoPromptModel {
    pub inputs: Seq<Seq<char>>,
    pub outputs: Seq<Seq<char>>,
    pub log_dir: Option<Seq<char>>,
    pub no_log: bool,
    pub s3b: bool,
}

impl DeepView for IoPromptCommand {
    type V = IoPromptModel;

    open spec fn deep_view(&self) -> IoPromptModel {
        IoPromptModel {
            inputs: self.inputs.deep_view(),
            outputs: self.outputs.deep_view(),
            log_dir: self.log_dir.deep_view(),
            no_log: self.no_log,
            s3b: self.s3b,
        }
    }
}

/// What is being chosen.
#[derive(Debug, Clone, Copy)]
pub enum IoPromptBindingPreview<'a> {
    Input(&'a str),
    Output(&'a str),
}

#[verifier::ext_equal]
pub enum PreviewModel {
    Input(Seq<char>),
    Output(Seq<char>),
}

impl<'a> DeepView for IoPromptBindingPreview<'a> {
    type V = PreviewModel;

    open spec fn deep_view(&self) -> PreviewModel {
        match self {
            IoPromptBindingPreview::Input(v) => PreviewModel::Input(v@),
            IoPromptBindingPreview::Output(v) => PreviewModel::Output(v@),
        }
    }
}

/// An option before each of its values.
pub open spec fn repeated(option: Seq<char>, values: Seq<Seq<char>>) -> Seq<Seq<char>>
    decreases values.len(),
{
    if values.len() == 0 {
        seq![]
    } else {
        repeated(option, values.drop_last()).push(option).push(values.last())
    }
}

fn push_repeated(words: &mut Vec<String>, option: &str, values: &Vec<String>)
    ensures
        final(words).deep_view() == old(words).deep_view() + repeated(
            option@,
            values.deep_view(),
        ),
{
    let ghost start = words.deep_view();
    let ghost all = values.deep_view();
    let mut i: usize = 0;
    assert(all.take(0) =~= Seq::<Seq<char>>::empty());
    assert(start + repeated(option@, all.take(0)) =~= start);
    while i < values.len()
        invariant
            i <= values.len(),
            all == values.deep_view(),
            words.deep_view() == start + repeated(option@, all.take(i as int)),
        decreases values.len() - i,
    {
        proof {
            assert(all.take(i + 1).drop_last() == all.take(i as int));
            assert(all.take(i + 1).last() == values@[i as int]@);
        }
        push_word(words, option);
        push_word(words, values[i].as_str());
        assert(words.deep_view() =~= start + repeated(option@, all.take(i + 1)));
        i += 1;
    }
    assert(all.take(i as int) == all);
}

impl IoPromptModel {
    pub open spec fn of_options(o: IoOptionsModel) -> IoPromptModel {
        IoPromptModel {
            inputs: seq![],
            outputs: seq![],
            log_dir: o.log_dir,
            no_log: o.no_log,
            s3b: o.s3b,
        }
    }

    /// The words of the command line with what is being chosen.
    pub open spec fn words(self, candidate: Option<PreviewModel>) -> Seq<Seq<char>> {
        let inputs = match candidate {
            Some(PreviewModel::Input(v)) => self.inputs.push(v),
            _ => self.inputs,
        };
        let outputs = match candidate {
            Some(PreviewModel::Output(v)) => self.outputs.push(v),
            _ => self.outputs,
        };
        seq!["acs"@, "io"@] + repeated("-i"@, inputs) + repeated("-o"@, outputs) + common_args(
            self.log_dir,
            self.no_log,
            self.s3b,
        )
    }
}

impl IoPromptCommand {
    pub fn new(options: &IoRuntimeOptions) -> (command: IoPromptCommand)
        ensures
            command.deep_view() == IoPromptModel::of_options(options.deep_view()),
    {
        let command = IoPromptCommand {
            inputs: Vec::new(),
            outputs: Vec::new(),
            log_dir: options.log_dir.clone(),
            no_log: options.no_log,
            s3b: options.s3b,
        };
        assert(command.deep_view() =~= IoPromptModel::of_options(options.deep_view()));
        command
    }

    pub fn push_input(&mut self, binding: String)
        ensures
            final(self).deep_view() == (IoPromptModel {
                inputs: old(self).deep_view().inputs.push(binding@),
                ..old(self).deep_view()
            }),
    {
        let ghost before = self.inputs.deep_view();
        self.inputs.push(binding);
        assert(self.inputs.deep_view() =~= before.push(binding@));
    }

    pub fn push_output(&mut self, binding: String)
        ensures
            final(self).deep_view() == (IoPromptModel {
                outputs: old(self).deep_view().outputs.push(binding@),
                ..old(self).deep_view()
            }),
    {
        let ghost before = self.outputs.deep_view();
        self.outputs.push(binding);
        assert(self.outputs.deep_view() =~= before.push(binding@));
    }

    pub fn render(&self, candidate: Option<IoPromptBindingPreview<'_>>) -> (r: String)
        ensures
            r@ == command_text(self.deep_view().words(candidate.deep_view())),
    {
        let mut words: Vec<String> = Vec::new();
        assert(words.deep_view() =~= Seq::<Seq<char>>::empty());
        push_word(&mut words, "acs");
        push_word(&mut words, "io");
        assert(words.deep_view() =~= seq!["acs"@, "io"@]);
        push_repeated(&mut words, "-i", &self.inputs);
        let ghost ins = self.inputs.deep_view();
        if let Some(IoPromptBindingPreview::Input(input)) = candidate {
            let ghost before = words.deep_view();
            push_word(&mut words, "-i");
            push_word(&mut words, input);
            proof {
                assert(ins.push(input@).drop_last() =~= ins);
                assert(repeated("-i"@, ins.push(input@)) == repeated("-i"@, ins).push("-i"@).push(
                    input@,
                ));
                assert(words.deep_view() =~= seq!["acs"@, "io"@] + repeated(
                    "-i"@,
                    ins.push(input@),
                ));
            }
        }
        let ghost head = words.deep_view();
        push_repeated(&mut words, "-o", &self.outputs);
        let ghost outs = self.outputs.deep_view();
        if let Some(IoPromptBindingPreview::Output(output)) = candidate {
            push_word(&mut words, "-o");
            push_word(&mut words, output);
            proof {
                assert(outs.push(output@).drop_last() =~= outs);
                assert(repeated("-o"@, outs.push(output@)) == repeated("-o"@, outs).push(
                    "-o"@,
                ).push(output@));
                assert(words.deep_view() =~= head + repeated("-o"@, outs.push(output@)));
            }
        }
        let log_dir: Option<&str> = match &self.log_dir {
            Some(dir) => Some(dir.as_str()),
            None => None,
        };
        append_prompt_common_args(&mut words, log_dir, self.no_log, self.s3b);
        format_command_preview(&words)
    }
}

// ---------------------------------------------------------------------------
// What is left to ask
// ---------------------------------------------------------------------------

/// What to ask next, with the command line so far; or the options, where nothing is left to ask.
#[derive(Debug)]
pub enum IoResolution {
    Ask { position: IoPromptPortPosition, command: IoPromptCommand },
    Ready(IoRuntimeOptions),
}

#[verifier::ext_equal]
pub enum IoResolutionModel {
    Ask { position: IoPromptPortPosition, command: IoPromptModel },
    Ready(IoOptionsModel),
}

impl DeepView for IoResolution {
    type V = IoResolutionModel;

    open spec fn deep_view(&self) -> IoResolutionModel {
        match self {
            IoResolution::Ask { position, command } => IoResolutionModel::Ask {
                position: *position,
                command: command.deep_view(),
            },
            IoResolution::Ready(options) => IoResolutionModel::Ready(options.deep_view()),
        }
    }
}

/// The options and the command line so far, and the answers that are not used yet.
pub struct IoAsking {
    pub options: IoOptionsModel,
    pub command: IoPromptModel,
    pub answers: Seq<Seq<char>>,
}

/// The state with one more binding.
pub open spec fn binding_added(s: IoAsking, output: bool, value: Seq<char>, rest: Seq<Seq<char>>) -> Result<
    IoAsking,
    Seq<char>,
> {
    if output {
        match io_output_binding(value, s.options.readings) {
            Err(e) => Err(e),
            Ok(b) => Ok(
                IoAsking {
                    options: IoOptionsModel { outputs: s.options.outputs.push(b), ..s.options },
                    command: IoPromptModel { outputs: s.command.outputs.push(value), ..s.command },
                    answers: rest,
                },
            ),
        }
    } else {
        match io_input_binding(value) {
            Err(e) => Err(e),
            Ok(b) => Ok(
                IoAsking {
                    options: IoOptionsModel { inputs: s.options.inputs.push(b), ..s.options },
                    command: IoPromptModel { inputs: s.command.inputs.push(value), ..s.command },
                    answers: rest,
                },
            ),
        }
    }
}

/// What becomes of bindings of one direction: the state behind them, or the one in which the
/// binding at a position is to be asked for.
pub open spec fn bindings_resolved(
    s: IoAsking,
    output: bool,
    args: Seq<BindingArgModel>,
    i: int,
) -> Result<(IoAsking, Option<int>), Seq<char>>
    decreases args.len() - i,
{
    if i < 0 || i >= args.len() {
        Ok((s, None))
    } else if args[i] is Prompt && s.answers.len() == 0 {
        Ok((s, Some(i)))
    } else {
        let (value, rest) = match args[i] {
            BindingArgModel::Provided(value) => (value, s.answers),
            BindingArgModel::Prompt => (s.answers[0], s.answers.skip(1)),
        };
        match binding_added(s, output, value, rest) {
            Err(e) => Err(e),
            Ok(next) => bindings_resolved(next, output, args, i + 1),
        }
    }
}

/// What to ask next, or the options where nothing is left to ask: first the inputs, then the
/// outputs, each in their order.
pub open spec fn io_resolution(o: IoCliModel, answers: Seq<Seq<char>>) -> Result<
    IoResolutionModel,
    Seq<char>,
> {
    let start = IoAsking {
        options: o.runtime_options,
        command: IoPromptModel::of_options(o.runtime_options),
        answers,
    };
    match bindings_resolved(start, false, o.inputs, 0) {
        Err(e) => Err(e),
        Ok((s, Some(i))) => Ok(
            IoResolutionModel::Ask {
                position: IoPromptPortPosition {
                    output: false,
                    index: (i + 1) as usize,
                    total: o.inputs.len() as usize,
                },
                command: s.command,
            },
        ),
        Ok((s, None)) => match bindings_resolved(s, true, o.outputs, 0) {
            Err(e) => Err(e),
            Ok((s, Some(i))) => Ok(
                IoResolutionModel::Ask {
                    position: IoPromptPortPosition {
                        output: true,
                        index: (i + 1) as usize,
                        total: o.outputs.len() as usize,
                    },
                    command: s.command,
                },
            ),
            Ok((s, None)) => Ok(IoResolutionModel::Ready(s.options)),
        },
    }
}

pub open spec fn asking(
    options: IoRuntimeOptions,
    command: IoPromptCommand,
    answers: Seq<Seq<char>>,
) -> IoAsking {
    IoAsking { options: options.deep_view(), command: command.deep_view(), answers }
}

fn add_binding(
    options: &mut IoRuntimeOptions,
    command: &mut IoPromptCommand,
    output: bool,
    value: String,
    Ghost(before): Ghost<Seq<Seq<char>>>,
    Ghost(rest): Ghost<Seq<Seq<char>>>,
) -> (r: Result<(), String>)
    ensures
        match r {
            Ok(()) => binding_added(asking(*old(options), *old(command), before), output, value@, rest)
                == Ok::<IoAsking, Seq<char>>(asking(*final(options), *final(command), rest)),
            Err(e) => binding_added(asking(*old(options), *old(command), before), output, value@, rest)
                == Err::<IoAsking, Seq<char>>(e@),
        },
{
    if output {
        let binding = parse_io_output_binding(value.as_str(), &options.readings)?;
        let ghost list = options.outputs.deep_view();
        let ghost added = binding.deep_view();
        options.outputs.push(binding);
        assert(options.outputs.deep_view() =~= list.push(added));
        command.push_output(value);
    } else {
        let binding = parse_io_input_binding(value.as_str())?;
        let ghost list = options.inputs.deep_view();
        let ghost added = binding.deep_view();
        options.inputs.push(binding);
        assert(options.inputs.deep_view() =~= list.push(added));
        command.push_input(value);
    }
    Ok(())
}

/// Takes bindings of one direction; tells which is to be asked for, if one is.
fn resolve_bindings(
    options: &mut IoRuntimeOptions,
    command: &mut IoPromptCommand,
    output: bool,
    args: &Vec<IoBindingArg>,
    answers: &Vec<String>,
    used: usize,
) -> (r: Result<(usize, Option<usize>), String>)
    requires
        used <= answers.len(),
    ensures
        match r {
            Ok((now_used, ask)) => now_used <= answers.len() && (ask matches Some(i) ==> i
                < args.len()) && bindings_resolved(
                asking(*old(options), *old(command), answers.deep_view().skip(used as int)),
                output,
                args.deep_view(),
                0,
            ) == Ok::<(IoAsking, Option<int>), Seq<char>>(
                (
                    asking(
                        *final(options),
                        *final(command),
                        answers.deep_view().skip(now_used as int),
                    ),
                    match ask {
                        Some(i) => Some(i as int),
                        None => None,
                    },
                ),
            ),
            Err(e) => bindings_resolved(
                asking(*old(options), *old(command), answers.deep_view().skip(used as int)),
                output,
                args.deep_view(),
                0,
            ) == Err::<(IoAsking, Option<int>), Seq<char>>(e@),
        },
{
    let ghost all = args.deep_view();
    let ghost said = answers.deep_view();
    let ghost start = asking(*options, *command, said.skip(used as int));
    let mut now_used: usize = used;
    let mut i: usize = 0;
    while i < args.len()
        invariant
            i <= args.len(),
            now_used <= answers.len(),
            all == args.deep_view(),
            said == answers.deep_view(),
            start == asking(*old(options), *old(command), said.skip(used as int)),
            bindings_resolved(start, output, all, 0) == bindings_resolved(
                asking(*options, *command, said.skip(now_used as int)),
                output,
                all,
                i as int,
            ),
        decreases args.len() - i,
    {
        let ghost waiting = said.skip(now_used as int);
        proof {
            assert(all[i as int] == args@[i as int].deep_view());
            assert(waiting.len() == answers.len() - now_used);
        }
        let value = match &args[i] {
            IoBindingArg::Provided(value) => value.clone(),
            IoBindingArg::Prompt => {
                if now_used >= answers.len() {
                    return Ok((now_used, Some(i)));
                }
                proof {
                    assert(waiting[0] == answers@[now_used as int]@);
                    assert(waiting.skip(1) == said.skip(now_used + 1));
                }
                now_used += 1;
                answers[now_used - 1].clone()
            },
        };
        add_binding(
            options,
            command,
            output,
            value,
            Ghost(waiting),
            Ghost(said.skip(now_used as int)),
        )?;
        i += 1;
    }
    Ok((now_used, None))
}

pub fn resolve_io_options(io_options: IoCliOptions, answers: &Vec<String>) -> (r: Result<
    IoResolution,
    String,
>)
    ensures
        viewed(r) == io_resolution(io_options.deep_view(), answers.deep_view()),
{
    let total_inputs: usize = io_options.inputs.len();
    let total_outputs: usize = io_options.outputs.len();
    let mut options = io_options.runtime_options;
    let mut command = IoPromptCommand::new(&options);
    assert(answers.deep_view().skip(0) == answers.deep_view());
    let (used, ask_input) = resolve_bindings(
        &mut options,
        &mut command,
        false,
        &io_options.inputs,
        answers,
        0,
    )?;
    if let Some(i) = ask_input {
        return Ok(
            IoResolution::Ask { position: IoPromptPortPosition::input(i + 1, total_inputs), command },
        );
    }
    let (_, ask_output) = resolve_bindings(
        &mut options,
        &mut command,
        true,
        &io_options.outputs,
        answers,
        used,
    )?;
    if let Some(i) = ask_output {
        return Ok(
            IoResolution::Ask {
                position: IoPromptPortPosition::output(i + 1, total_outputs),
                command,
            },
        );
    }
    Ok(IoResolution::Ready(options))
}

} // verus!

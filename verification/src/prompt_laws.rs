//! Laws of the bindings that are given or asked for: each is read where it stands, and the
//! answers are taken in the order of the questions.
use crate::args::port_spec;
use crate::control::{control_monitor_binding, ControlCliModel, ControlRunModel};
use crate::control_prompt::{
    control_resolution, monitors_resolved, AnswersModel, ControlCommandModel, ResolutionModel,
};
use crate::io::{io_input_binding, io_output_binding, BindingArgModel, IoCliModel};
use crate::io_prompt::{binding_added, bindings_resolved, io_resolution, IoAsking, IoPromptModel};
use crate::send::{send_monitor_binding, send_output_binding, SendIoModel};
use crate::send_prompt::{send_binding_added, send_bindings_resolved, send_resolution, SendAsking};
use vstd::prelude::*;

verus! {

/// How many bindings from `i` up to `j` are asked for.
pub open spec fn questions(args: Seq<BindingArgModel>, i: int, j: int) -> int
    decreases j - i,
{
    if j <= i {
        0
    } else {
        questions(args, i, j - 1) + if args[j - 1] is Prompt {
            1int
        } else {
            0
        }
    }
}

/// The text of the binding at `j`: as given, or the answer to its question.
pub open spec fn text_at(args: Seq<BindingArgModel>, answers: Seq<Seq<char>>, i: int, j: int) -> Seq<
    char,
> {
    match args[j] {
        BindingArgModel::Provided(value) => value,
        BindingArgModel::Prompt => answers[questions(args, i, j)],
    }
}

proof fn lemma_questions(args: Seq<BindingArgModel>, i: int, j: int)
    requires
        0 <= i <= j <= args.len(),
    ensures
        0 <= questions(args, i, j) <= j - i,
        i < j ==> questions(args, i, j) == questions(args, i + 1, j) + if args[i] is Prompt {
            1int
        } else {
            0
        },
    decreases j - i,
{
    if i < j {
        lemma_questions(args, i, j - 1);
        if i < j - 1 {
            lemma_questions(args, i + 1, j - 1);
        }
    }
}

proof fn lemma_fewer_questions(args: Seq<BindingArgModel>, i: int, j: int, k: int)
    requires
        0 <= i <= j <= k <= args.len(),
    ensures
        questions(args, i, j) <= questions(args, i, k),
    decreases k - j,
{
    if j < k {
        lemma_fewer_questions(args, i, j, k - 1);
    }
}

proof fn lemma_text_at(
    args: Seq<BindingArgModel>,
    answers: Seq<Seq<char>>,
    i: int,
    j: int,
    end: int,
)
    requires
        0 <= i < j < end <= args.len(),
        questions(args, i, end) <= answers.len(),
    ensures
        text_at(args, answers, i, j) == text_at(
            args,
            if args[i] is Prompt {
                answers.skip(1)
            } else {
                answers
            },
            i + 1,
            j,
        ),
{
    lemma_questions(args, i, j);
    lemma_questions(args, i + 1, j);
    lemma_fewer_questions(args, i, j + 1, end);
}

// ---------------------------------------------------------------------------
// io
// ---------------------------------------------------------------------------

/// The inputs of `io` that are read up to the first that is asked for without an answer.
pub proof fn lemma_io_inputs(s: IoAsking, args: Seq<BindingArgModel>, i: int, j: int)
    requires
        0 <= i <= args.len(),
    ensures
        bindings_resolved(s, false, args, i) matches Ok((t, stop)) ==> {
            let end = if stop is Some { stop->0 } else { args.len() as int };
            &&& i <= end <= args.len()
            &&& stop is Some ==> end < args.len() && args[end] is Prompt && t.answers.len() == 0
            &&& questions(args, i, end) <= s.answers.len()
            &&& t.answers == s.answers.skip(questions(args, i, end))
            &&& t.options.no_log == s.options.no_log && t.options.s3b == s.options.s3b
                && t.options.log_dir == s.options.log_dir && t.options.readings
                == s.options.readings && t.options.outputs == s.options.outputs
            &&& t.options.inputs.len() == s.options.inputs.len() + end - i
            &&& forall|q: int|
                0 <= q < s.options.inputs.len() ==> #[trigger] t.options.inputs[q]
                    == s.options.inputs[q]
            &&& i <= j < end ==> io_input_binding(text_at(args, s.answers, i, j)) == Ok::<_, Seq<char>>(
                t.options.inputs[s.options.inputs.len() + j - i],
            )
        },
    decreases args.len() - i,
{
    assert(s.answers.skip(0) =~= s.answers);
    if i < args.len() && !(args[i] is Prompt && s.answers.len() == 0) {
        let (value, rest) = match args[i] {
            BindingArgModel::Provided(value) => (value, s.answers),
            BindingArgModel::Prompt => (s.answers[0], s.answers.skip(1)),
        };
        assert(questions(args, i, i) == 0);
        assert(value == text_at(args, s.answers, i, i));
        if binding_added(s, false, value, rest) is Ok {
            let next = binding_added(s, false, value, rest)->Ok_0;
            lemma_io_inputs(next, args, i + 1, j);
            if let Ok((t, stop)) = bindings_resolved(next, false, args, i + 1) {
                let end = if stop is Some { stop->0 } else { args.len() as int };
                lemma_questions(args, i, end);
                lemma_questions(args, i + 1, end);
                assert(t.answers =~= s.answers.skip(questions(args, i, end)));
                assert forall|q: int| 0 <= q < s.options.inputs.len() implies #[trigger] t.options.inputs[q]
                    == s.options.inputs[q] by {
                    assert(next.options.inputs[q] == s.options.inputs[q]);
                }
                let k = s.options.inputs.len() as int;
                assert(t.options.inputs[k] == next.options.inputs[k]);
                if i < j < end {
                    lemma_text_at(args, s.answers, i, j, end);
                }
            }
        }
    }
}

/// The outputs of `io` that are read up to the first that is asked for without an answer.
pub proof fn lemma_io_outputs(s: IoAsking, args: Seq<BindingArgModel>, i: int, j: int)
    requires
        0 <= i <= args.len(),
    ensures
        bindings_resolved(s, true, args, i) matches Ok((t, stop)) ==> {
            let end = if stop is Some { stop->0 } else { args.len() as int };
            &&& i <= end <= args.len()
            &&& stop is Some ==> end < args.len() && args[end] is Prompt && t.answers.len() == 0
            &&& questions(args, i, end) <= s.answers.len()
            &&& t.answers == s.answers.skip(questions(args, i, end))
            &&& t.options.no_log == s.options.no_log && t.options.s3b == s.options.s3b
                && t.options.log_dir == s.options.log_dir && t.options.readings
                == s.options.readings && t.options.inputs == s.options.inputs
            &&& t.options.outputs.len() == s.options.outputs.len() + end - i
            &&& forall|q: int|
                0 <= q < s.options.outputs.len() ==> #[trigger] t.options.outputs[q]
                    == s.options.outputs[q]
            &&& i <= j < end ==> io_output_binding(
                text_at(args, s.answers, i, j),
                s.options.readings,
            ) == Ok::<_, Seq<char>>(
                t.options.outputs[s.options.outputs.len() + j - i],
            )
        },
    decreases args.len() - i,
{
    assert(s.answers.skip(0) =~= s.answers);
    if i < args.len() && !(args[i] is Prompt && s.answers.len() == 0) {
        let (value, rest) = match args[i] {
            BindingArgModel::Provided(value) => (value, s.answers),
            BindingArgModel::Prompt => (s.answers[0], s.answers.skip(1)),
        };
        assert(questions(args, i, i) == 0);
        assert(value == text_at(args, s.answers, i, i));
        if binding_added(s, true, value, rest) is Ok {
            let next = binding_added(s, true, value, rest)->Ok_0;
            lemma_io_outputs(next, args, i + 1, j);
            if let Ok((t, stop)) = bindings_resolved(next, true, args, i + 1) {
                let end = if stop is Some { stop->0 } else { args.len() as int };
                lemma_questions(args, i, end);
                lemma_questions(args, i + 1, end);
                assert(t.answers =~= s.answers.skip(questions(args, i, end)));
                assert forall|q: int| 0 <= q < s.options.outputs.len() implies #[trigger] t.options.outputs[q]
                    == s.options.outputs[q] by {
                    assert(next.options.outputs[q] == s.options.outputs[q]);
                }
                let k = s.options.outputs.len() as int;
                assert(t.options.outputs[k] == next.options.outputs[k]);
                if i < j < end {
                    lemma_text_at(args, s.answers, i, j, end);
                }
            }
        }
    }
}

/// Once every question of `io` is answered, each `-i` and each `-o` stands as it was given, or as
/// its question was answered: those of the inputs first, then those of the outputs, each in the
/// order of the arguments.
pub proof fn law_io_bindings_stand(o: IoCliModel, answers: Seq<Seq<char>>, i: int, j: int)
    requires
        io_resolution(o, answers) matches Ok(r) && r is Ready,
        0 <= i < o.inputs.len(),
        0 <= j < o.outputs.len(),
    ensures
        ({
            let r = io_resolution(o, answers)->Ok_0->Ready_0;
            let before = o.runtime_options;
            let asked = questions(o.inputs, 0, o.inputs.len() as int);
            &&& r.inputs.len() == before.inputs.len() + o.inputs.len()
            &&& r.outputs.len() == before.outputs.len() + o.outputs.len()
            &&& r.no_log == before.no_log && r.s3b == before.s3b && r.log_dir == before.log_dir
            &&& io_input_binding(text_at(o.inputs, answers, 0, i)) == Ok::<_, Seq<char>>(
                r.inputs[before.inputs.len() + i],
            )
            &&& io_output_binding(
                text_at(o.outputs, answers.skip(asked), 0, j),
                before.readings,
            ) == Ok::<_, Seq<char>>(r.outputs[before.outputs.len() + j])
        }),
{
    let start = IoAsking {
        options: o.runtime_options,
        command: IoPromptModel::of_options(o.runtime_options),
        answers,
    };
    lemma_io_inputs(start, o.inputs, 0, i);
    let (s, _) = bindings_resolved(start, false, o.inputs, 0)->Ok_0;
    lemma_io_outputs(s, o.outputs, 0, j);
    let (t, _) = bindings_resolved(s, true, o.outputs, 0)->Ok_0;
}

/// `io` asks for a binding that no answer is left for, and says which of how many it is.
pub proof fn law_io_asks_in_turn(o: IoCliModel, answers: Seq<Seq<char>>)
    requires
        o.inputs.len() <= usize::MAX,
        o.outputs.len() <= usize::MAX,
        io_resolution(o, answers) matches Ok(r) && r is Ask,
    ensures
        ({
            let p = io_resolution(o, answers)->Ok_0->position;
            let args = if p.output { o.outputs } else { o.inputs };
            let earlier = if p.output {
                questions(o.inputs, 0, o.inputs.len() as int)
            } else {
                0
            };
            &&& 1 <= p.index <= p.total
            &&& p.total == args.len()
            &&& args[p.index - 1] is Prompt
            &&& answers.len() == earlier + questions(args, 0, p.index - 1)
        }),
{
    let start = IoAsking {
        options: o.runtime_options,
        command: IoPromptModel::of_options(o.runtime_options),
        answers,
    };
    lemma_io_inputs(start, o.inputs, 0, 0);
    let (s, stop) = bindings_resolved(start, false, o.inputs, 0)->Ok_0;
    if stop is None {
        lemma_questions(o.inputs, 0, o.inputs.len() as int);
        lemma_io_outputs(s, o.outputs, 0, 0);
        let (_, stop) = bindings_resolved(s, true, o.outputs, 0)->Ok_0;
        lemma_questions(o.outputs, 0, stop->0);
    } else {
        lemma_questions(o.inputs, 0, stop->0);
    }
}

// ---------------------------------------------------------------------------
// send
// ---------------------------------------------------------------------------

/// The inputs of `send` that are read where none of them is left to be asked for.
pub proof fn lemma_send_inputs(s: SendAsking, args: Seq<BindingArgModel>, i: int, j: int)
    requires
        0 <= i <= args.len(),
    ensures
        send_bindings_resolved(s, false, args, i) matches Ok(Some(t)) ==> {
            &&& questions(args, i, args.len() as int) <= s.answers.len()
            &&& t.answers == s.answers.skip(questions(args, i, args.len() as int))
            &&& t.options.outputs == s.options.outputs
            &&& t.options.monitor_ports.len() == s.options.monitor_ports.len() + args.len() - i
            &&& forall|q: int|
                0 <= q < s.options.monitor_ports.len() ==> #[trigger] t.options.monitor_ports[q]
                    == s.options.monitor_ports[q]
            &&& i <= j < args.len() ==> send_monitor_binding(text_at(args, s.answers, i, j)) == Ok::<_, Seq<char>>(
                t.options.monitor_ports[s.options.monitor_ports.len() + j - i],
            )
        },
        send_bindings_resolved(s, false, args, i) matches Ok(None) ==> s.answers.len() < questions(
            args,
            i,
            args.len() as int,
        ),
    decreases args.len() - i,
{
    let n = args.len() as int;
    assert(s.answers.skip(0) =~= s.answers);
    if i < n {
        lemma_questions(args, i, n);
        lemma_questions(args, i + 1, n);
    }
    if i < n && !(args[i] is Prompt && s.answers.len() == 0) {
        let (value, rest) = match args[i] {
            BindingArgModel::Provided(value) => (value, s.answers),
            BindingArgModel::Prompt => (s.answers[0], s.answers.skip(1)),
        };
        assert(questions(args, i, i) == 0);
        assert(value == text_at(args, s.answers, i, i));
        if send_binding_added(s.options, false, value) is Ok {
            let next = SendAsking {
                options: send_binding_added(s.options, false, value)->Ok_0,
                answers: rest,
            };
            lemma_send_inputs(next, args, i + 1, j);
            if let Ok(Some(t)) = send_bindings_resolved(next, false, args, i + 1) {
                assert(t.answers =~= s.answers.skip(questions(args, i, n)));
                let k = s.options.monitor_ports.len() as int;
                assert forall|q: int| 0 <= q < k implies #[trigger] t.options.monitor_ports[q]
                    == s.options.monitor_ports[q] by {
                    assert(next.options.monitor_ports[q] == s.options.monitor_ports[q]);
                }
                assert(t.options.monitor_ports[k] == next.options.monitor_ports[k]);
                if i < j < n {
                    lemma_text_at(args, s.answers, i, j, n);
                }
            }
        }
    }
}

/// The outputs of `send` that are read where none of them is left to be asked for.
pub proof fn lemma_send_outputs(s: SendAsking, args: Seq<BindingArgModel>, i: int, j: int)
    requires
        0 <= i <= args.len(),
    ensures
        send_bindings_resolved(s, true, args, i) matches Ok(Some(t)) ==> {
            &&& questions(args, i, args.len() as int) <= s.answers.len()
            &&& t.answers == s.answers.skip(questions(args, i, args.len() as int))
            &&& t.options.monitor_ports == s.options.monitor_ports
            &&& t.options.outputs.len() == s.options.outputs.len() + args.len() - i
            &&& forall|q: int|
                0 <= q < s.options.outputs.len() ==> #[trigger] t.options.outputs[q]
                    == s.options.outputs[q]
            &&& i <= j < args.len() ==> send_output_binding(text_at(args, s.answers, i, j)) == Ok::<_, Seq<char>>(
                t.options.outputs[s.options.outputs.len() + j - i],
            )
        },
        send_bindings_resolved(s, true, args, i) matches Ok(None) ==> s.answers.len() < questions(
            args,
            i,
            args.len() as int,
        ),
    decreases args.len() - i,
{
    let n = args.len() as int;
    assert(s.answers.skip(0) =~= s.answers);
    if i < n {
        lemma_questions(args, i, n);
        lemma_questions(args, i + 1, n);
    }
    if i < n && !(args[i] is Prompt && s.answers.len() == 0) {
        let (value, rest) = match args[i] {
            BindingArgModel::Provided(value) => (value, s.answers),
            BindingArgModel::Prompt => (s.answers[0], s.answers.skip(1)),
        };
        assert(questions(args, i, i) == 0);
        assert(value == text_at(args, s.answers, i, i));
        if send_binding_added(s.options, true, value) is Ok {
            let next = SendAsking {
                options: send_binding_added(s.options, true, value)->Ok_0,
                answers: rest,
            };
            lemma_send_outputs(next, args, i + 1, j);
            if let Ok(Some(t)) = send_bindings_resolved(next, true, args, i + 1) {
                assert(t.answers =~= s.answers.skip(questions(args, i, n)));
                let k = s.options.outputs.len() as int;
                assert forall|q: int| 0 <= q < k implies #[trigger] t.options.outputs[q]
                    == s.options.outputs[q] by {
                    assert(next.options.outputs[q] == s.options.outputs[q]);
                }
                assert(t.options.outputs[k] == next.options.outputs[k]);
                if i < j < n {
                    lemma_text_at(args, s.answers, i, j, n);
                }
            }
        }
    }
}

/// Once every question of `send` is answered, each input is watched and each output sent to as it
/// was given, or as its question was answered.
pub proof fn law_send_bindings_stand(o: SendIoModel, answers: Seq<Seq<char>>, i: int, j: int)
    requires
        send_resolution(o, answers) matches Ok(r) && r is Ready,
        0 <= i < o.inputs.len(),
        0 <= j < o.outputs.len(),
    ensures
        ({
            let r = send_resolution(o, answers)->Ok_0->Ready_0;
            let before = o.send_options;
            let asked = questions(o.inputs, 0, o.inputs.len() as int);
            &&& r.monitor_ports.len() == before.monitor_ports.len() + o.inputs.len()
            &&& r.outputs.len() == before.outputs.len() + o.outputs.len()
            &&& send_monitor_binding(text_at(o.inputs, answers, 0, i)) == Ok::<_, Seq<char>>(
                r.monitor_ports[before.monitor_ports.len() + i],
            )
            &&& send_output_binding(text_at(o.outputs, answers.skip(asked), 0, j)) == Ok::<
                _,
                Seq<char>,
            >(r.outputs[before.outputs.len() + j])
        }),
{
    let start = SendAsking { options: o.send_options, answers };
    lemma_send_inputs(start, o.inputs, 0, i);
    let s = send_bindings_resolved(start, false, o.inputs, 0)->Ok_0->0;
    lemma_send_outputs(s, o.outputs, 0, j);
    let t = send_bindings_resolved(s, true, o.outputs, 0)->Ok_0->0;
}

/// `send` asks on while there are more questions than answers, and no longer.
pub proof fn law_send_asks_in_turn(o: SendIoModel, answers: Seq<Seq<char>>)
    requires
        send_resolution(o, answers) is Ok,
    ensures
        ({
            let first = questions(o.inputs, 0, o.inputs.len() as int);
            let second = questions(o.outputs, 0, o.outputs.len() as int);
            let r = send_resolution(o, answers)->Ok_0;
            &&& r is AskInput <==> answers.len() < first
            &&& r is AskOutput <==> first <= answers.len() < first + second
            &&& r is Ready <==> first + second <= answers.len()
        }),
{
    let start = SendAsking { options: o.send_options, answers };
    lemma_questions(o.inputs, 0, o.inputs.len() as int);
    lemma_questions(o.outputs, 0, o.outputs.len() as int);
    lemma_send_inputs(start, o.inputs, 0, 0);
    if let Ok(Some(s)) = send_bindings_resolved(start, false, o.inputs, 0) {
        lemma_send_outputs(s, o.outputs, 0, 0);
    }
}

// ---------------------------------------------------------------------------
// control
// ---------------------------------------------------------------------------

/// The monitors of `control` that are read where none of them is left to be asked for.
pub proof fn lemma_control_monitors(
    run: ControlRunModel,
    command: ControlCommandModel,
    args: Seq<BindingArgModel>,
    answers: Seq<Seq<char>>,
    j: int,
)
    requires
        0 <= j < args.len() || args.len() == 0,
    ensures
        monitors_resolved(run, command, args, answers) matches Ok(ResolutionModel::Ready(r)) ==> {
            &&& r.monitor_ports.len() == run.monitor_ports.len() + args.len()
            &&& r == (ControlRunModel { monitor_ports: r.monitor_ports, ..run })
            &&& forall|q: int|
                0 <= q < run.monitor_ports.len() ==> #[trigger] r.monitor_ports[q]
                    == run.monitor_ports[q]
            &&& args.len() > 0 && args[j] is Provided ==> control_monitor_binding(
                args[j]->Provided_0,
            ) == Ok::<_, Seq<char>>(r.monitor_ports[run.monitor_ports.len() + j])
            &&& args.len() > 0 && args[0] is Prompt ==> answers.len() > 0
                && control_monitor_binding(answers[0]) == Ok::<_, Seq<char>>(
                r.monitor_ports[run.monitor_ports.len() as int],
            )
        },
    decreases args.len(),
{
    if args.len() > 0 && !(args[0] is Prompt && answers.len() == 0) {
        let (value, rest) = match args[0] {
            BindingArgModel::Provided(value) => (value, answers),
            BindingArgModel::Prompt => (answers[0], answers.skip(1)),
        };
        if let Ok(monitor) = control_monitor_binding(value) {
            let next = ControlRunModel { monitor_ports: run.monitor_ports.push(monitor), ..run };
            let then = ControlCommandModel { monitors: command.monitors.push(value), ..command };
            let k = run.monitor_ports.len() as int;
            lemma_control_monitors(
                next,
                then,
                args.skip(1),
                rest,
                if j > 0 {
                    j - 1
                } else {
                    0
                },
            );
            if let Ok(ResolutionModel::Ready(r)) = monitors_resolved(
                next,
                then,
                args.skip(1),
                rest,
            ) {
                assert(r.monitor_ports[k] == next.monitor_ports[k]);
                assert forall|q: int| 0 <= q < k implies #[trigger] r.monitor_ports[q]
                    == run.monitor_ports[q] by {
                    assert(next.monitor_ports[q] == run.monitor_ports[q]);
                }
            }
        }
    } else if args.len() == 0 {
        assert(run == (ControlRunModel { monitor_ports: run.monitor_ports, ..run }));
    }
}

/// Once every question of `control` is answered, it runs with what was given and, for what was to
/// be asked for, with the answers. A rate is asked for only where the port is, and only where
/// none is given.
pub proof fn law_control_runs_as_answered(o: ControlCliModel, answers: AnswersModel, j: int)
    requires
        control_resolution(o, answers) matches Ok(r) && r is Ready,
        0 <= j < o.monitor_ports.len() || o.monitor_ports.len() == 0,
    ensures
        ({
            let r = control_resolution(o, answers)->Ok_0->Ready_0;
            let asked = !(o.port matches Some(BindingArgModel::Provided(_)));
            &&& r.controller == o.controller && r.baud == o.baud && r.display == o.display
            &&& r.log_dir == o.log_dir && r.no_log == o.no_log && r.s3b == o.s3b
            &&& r.port is Some
            &&& o.port matches Some(BindingArgModel::Provided(text)) ==> port_spec("--port"@, text)
                == Ok::<_, Seq<char>>(r.port->0)
            &&& asked ==> answers.output is Some
            &&& answers.output matches Some((text, _)) ==> asked ==> port_spec("--port"@, text)
                == Ok::<_, Seq<char>>(r.port->0)
            &&& o.format matches Some(BindingArgModel::Provided(name)) ==> r.format == Some(name)
            &&& o.format matches Some(BindingArgModel::Prompt) ==> r.format == answers.format
                && answers.format is Some
            &&& o.format is None && !asked ==> r.format is None
            &&& answers.output matches Some((_, name)) ==> o.format is None && asked ==> r.format
                == name
            &&& o.rate_hz is Some ==> r.rate_hz == o.rate_hz
            &&& o.rate_hz is None && asked ==> r.rate_hz is Some && r.rate_hz == answers.rate_hz
            &&& o.rate_hz is None && !asked ==> r.rate_hz is None
            &&& r.monitor_ports.len() == o.monitor_ports.len()
            &&& o.monitor_ports.len() > 0 && o.monitor_ports[j] is Provided
                ==> control_monitor_binding(o.monitor_ports[j]->Provided_0) == Ok::<_, Seq<char>>(
                r.monitor_ports[j],
            )
            &&& o.monitor_ports.len() > 0 && o.monitor_ports[0] is Prompt ==> answers.monitors.len()
                > 0 && control_monitor_binding(answers.monitors[0]) == Ok::<_, Seq<char>>(
                r.monitor_ports[0],
            )
        }),
{
    assert forall|run: ControlRunModel, command: ControlCommandModel| true implies (
    #[trigger] monitors_resolved(run, command, o.monitor_ports, answers.monitors) matches Ok(
        ResolutionModel::Ready(r),
    ) ==> {
        &&& r.monitor_ports.len() == run.monitor_ports.len() + o.monitor_ports.len()
        &&& r == (ControlRunModel { monitor_ports: r.monitor_ports, ..run })
        &&& o.monitor_ports.len() > 0 && o.monitor_ports[j] is Provided ==> control_monitor_binding(
            o.monitor_ports[j]->Provided_0,
        ) == Ok::<_, Seq<char>>(r.monitor_ports[run.monitor_ports.len() + j])
        &&& o.monitor_ports.len() > 0 && o.monitor_ports[0] is Prompt ==> answers.monitors.len() > 0
            && control_monitor_binding(answers.monitors[0]) == Ok::<_, Seq<char>>(
            r.monitor_ports[run.monitor_ports.len() as int],
        )
    }) by {
        lemma_control_monitors(run, command, o.monitor_ports, answers.monitors, j);
    }
}

} // verus!

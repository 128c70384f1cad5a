//! Laws of the inputs of a session: each port that is to be read is read, and each format that is
//! to be looked for on it is looked for there.
use crate::args::applied;
use crate::display::{LineBreakMode, PortDisplayModel};
use crate::format::{parsed_format, OutputFormat};
use crate::io::IoOptionsModel;
use crate::io_settings::{
    default_baud_of, input_items, input_reader, input_spec, input_step, input_taken, io_line_break,
    io_settings, resolved_input, resolved_inputs, FiguresModel, InputItem, InputState,
    ResolvedInputModel,
};
use crate::ports::Lookup;
use crate::send::SendOptionsModel;
use crate::send_settings::{
    echo_input, echo_noted, has_line, monitor_line_break_for, monitor_step, planned_send_outputs,
    send_bindings, send_items, send_settings, send_step, ResolvedSendModel, SendItem, SendState,
};
use crate::session::{
    extended, format_reader, input_on, name_order, sorted_formats, InputBindingModel,
    InputPlanModel, InputSpecModel, ObservedSpecModel,
};
use crate::settings_laws::lemma_collected_all;
use crate::table::{found, law_insert, lemma_found, lemma_found_is, ordered};
use vstd::prelude::*;

verus! {

// ---------------------------------------------------------------------------
// Plans
// ---------------------------------------------------------------------------

/// A format is looked for on a port.
pub open spec fn looked_for(plan: InputPlanModel, port: Seq<char>, format: OutputFormat) -> bool {
    found(plan.candidates, port) matches Some(formats) && formats.contains(format)
}

pub proof fn lemma_input_on_push(inputs: Seq<InputSpecModel>, more: InputSpecModel, port: Seq<char>)
    ensures
        input_on(inputs.push(more), port) == (match input_on(inputs, port) {
            Some(input) => Some(input),
            None => if more.port == port {
                Some(more)
            } else {
                None
            },
        }),
    decreases inputs.len(),
{
    let all = inputs.push(more);
    if inputs.len() == 0 {
        assert(all.skip(1) =~= Seq::<InputSpecModel>::empty());
        assert(input_on(all.skip(1), port) is None);
    } else {
        assert(all[0] == inputs[0]);
        assert(all.skip(1) =~= inputs.skip(1).push(more));
        lemma_input_on_push(inputs.skip(1), more, port);
    }
}

pub proof fn lemma_input_on(inputs: Seq<InputSpecModel>, port: Seq<char>)
    ensures
        input_on(inputs, port) matches Some(input) ==> inputs.contains(input) && input.port == port,
    decreases inputs.len(),
{
    if inputs.len() > 0 {
        if inputs[0].port != port {
            lemma_input_on(inputs.skip(1), port);
            if input_on(inputs, port) is Some {
                let input = input_on(inputs, port)->0;
                let rest = inputs.skip(1);
                let k = choose|k: int| 0 <= k < rest.len() && rest[k] == input;
                assert(inputs[k + 1] == input);
            }
        } else {
            assert(inputs.contains(inputs[0]));
        }
    }
}

proof fn lemma_extended(formats: Seq<OutputFormat>, more: Seq<OutputFormat>, f: OutputFormat)
    ensures
        extended(formats, more).contains(f) <==> formats.contains(f) || more.contains(f),
    decreases more.len(),
{
    if more.len() > 0 {
        let init = more.drop_last();
        lemma_extended(formats, init, f);
        let before = extended(formats, init);
        let last = more.last();
        assert(more.contains(f) <==> init.contains(f) || f == last) by {
            if more.contains(f) {
                let k = choose|k: int| 0 <= k < more.len() && more[k] == f;
                if k < init.len() {
                    assert(init[k] == f);
                }
            }
            if init.contains(f) {
                let k = choose|k: int| 0 <= k < init.len() && init[k] == f;
                assert(more[k] == f);
            }
            assert(more[more.len() - 1] == last);
        }
        if !before.contains(last) {
            let after = before.push(last);
            if before.contains(f) {
                let k = choose|k: int| 0 <= k < before.len() && before[k] == f;
                assert(after[k] == f);
            }
            assert(after[before.len() as int] == last);
        }
    }
}

proof fn lemma_looking_for(
    plan: InputPlanModel,
    port: Seq<char>,
    formats: Seq<OutputFormat>,
    other: Seq<char>,
    f: OutputFormat,
)
    requires
        ordered(plan.candidates),
    ensures
        ordered(plan.looking_for(port, formats).candidates),
        looked_for(plan.looking_for(port, formats), other, f) <==> looked_for(plan, other, f) || (
        other == port && formats.contains(f)),
        plan.looking_for(port, formats).inputs == plan.inputs,
{
    let known = match found(plan.candidates, port) {
        Some(formats) => formats,
        None => seq![],
    };
    let value = extended(known, formats);
    law_insert(plan.candidates, port, value, other);
    lemma_extended(known, formats, f);
}

/// What it takes to tell of a plan that it reads a port and looks for a format there.
pub proof fn lemma_input_taken(
    state: InputState,
    b: ResolvedInputModel,
    port: Seq<char>,
    baud: u32,
    line_break: LineBreakMode,
    display: PortDisplayModel,
    other: Seq<char>,
    f: OutputFormat,
)
    requires
        ordered(state.0.candidates),
    ensures
        ({
            let after = input_taken(state, b, port, baud, line_break, display).0;
            &&& ordered(after.candidates)
            &&& looked_for(after, other, f) <==> looked_for(state.0, other, f) || (other == port
                && b.formats.contains(f))
            &&& input_on(after.inputs, other) == (match input_on(state.0.inputs, other) {
                Some(input) => Some(input),
                None => if other == port {
                    Some(input_spec(b, port, baud, line_break, display))
                } else {
                    None
                },
            })
            &&& forall|rate: u32| #[trigger]
                has_line(state.0.inputs, other, rate) ==> has_line(after.inputs, other, rate)
        }),
{
    let spec = input_spec(b, port, baud, line_break, display);
    let with = state.0.with_port(spec);
    lemma_input_on_push(state.0.inputs, spec, other);
    let asked = with.shown_as_asked(
        port,
        b.display_mode is Some || display.input_override(port) is Some,
    );
    lemma_looking_for(asked, port, b.formats, other, f);
    let after = input_taken(state, b, port, baud, line_break, display).0;
    assert(after.inputs == with.inputs);
    assert forall|rate: u32| #[trigger] has_line(state.0.inputs, other, rate) implies has_line(
        after.inputs,
        other,
        rate,
    ) by {
        let i = choose|i: int|
            0 <= i < state.0.inputs.len() && (#[trigger] state.0.inputs[i]).port == other
                && state.0.inputs[i].baud_rate == rate;
        assert(after.inputs[i] == state.0.inputs[i]);
    }
}

/// At a place a port was found.
pub open spec fn is_found_at(looked_up: Seq<Lookup>, i: int, port: Seq<char>) -> bool {
    looked_up[i] == Ok::<Seq<char>, Seq<char>>(port)
}

/// A port was found at a place, and at none before it.
pub open spec fn is_first_at(looked_up: Seq<Lookup>, i: int, port: Seq<char>) -> bool {
    is_found_at(looked_up, i, port) && forall|k: int|
        0 <= k < i ==> !#[trigger] is_found_at(looked_up, k, port)
}

/// A step that takes an input in on the port that was found for it.
pub open spec fn takes_inputs(
    step: spec_fn(InputState, InputItem) -> Result<InputState, Seq<char>>,
    line_break: spec_fn(ResolvedInputModel, Seq<char>) -> LineBreakMode,
    baud: u32,
    display: PortDisplayModel,
) -> bool {
    forall|state: InputState, item: InputItem| #[trigger]
        step(state, item) == (match item.1 {
            Err(e) => Err::<InputState, Seq<char>>(e),
            Ok(port) => Ok(
                input_taken(state, item.0, port, baud, line_break(item.0, port), display),
            ),
        })
}

/// What the first `n` inputs make of a plan, for one port and one format.
pub open spec fn taken_up_to(
    start: InputPlanModel,
    plan: InputPlanModel,
    line_break: spec_fn(ResolvedInputModel, Seq<char>) -> LineBreakMode,
    baud: u32,
    display: PortDisplayModel,
    ins: Seq<ResolvedInputModel>,
    looked_up: Seq<Lookup>,
    n: int,
    port: Seq<char>,
    f: OutputFormat,
) -> bool {
    &&& ordered(plan.candidates)
    &&& looked_for(plan, port, f) <==> looked_for(start, port, f) || exists|i: int|
        0 <= i < n && #[trigger] is_found_at(looked_up, i, port) && ins[i].formats.contains(f)
    &&& input_on(start.inputs, port) is Some ==> input_on(plan.inputs, port) == input_on(
        start.inputs,
        port,
    )
    &&& (forall|i: int| 0 <= i < n ==> !#[trigger] is_found_at(looked_up, i, port)) ==> input_on(
        plan.inputs,
        port,
    ) == input_on(start.inputs, port)
    &&& input_on(start.inputs, port) is None ==> forall|i: int|
        0 <= i < n && #[trigger] is_first_at(looked_up, i, port) ==> input_on(plan.inputs, port)
            == Some(input_spec(ins[i], port, baud, line_break(ins[i], port), display))
    &&& forall|rate: u32| #[trigger]
        has_line(start.inputs, port, rate) ==> has_line(plan.inputs, port, rate)
}

pub proof fn lemma_one_taken(
    start: InputPlanModel,
    state: InputState,
    line_break: spec_fn(ResolvedInputModel, Seq<char>) -> LineBreakMode,
    baud: u32,
    display: PortDisplayModel,
    ins: Seq<ResolvedInputModel>,
    looked_up: Seq<Lookup>,
    n: int,
    port: Seq<char>,
    f: OutputFormat,
)
    requires
        taken_up_to(start, state.0, line_break, baud, display, ins, looked_up, n, port, f),
        0 <= n < ins.len(),
        ins.len() == looked_up.len(),
        looked_up[n] is Ok,
    ensures
        taken_up_to(
            start,
            input_taken(
                state,
                ins[n],
                looked_up[n]->Ok_0,
                baud,
                line_break(ins[n], looked_up[n]->Ok_0),
                display,
            ).0,
            line_break,
            baud,
            display,
            ins,
            looked_up,
            n + 1,
            port,
            f,
        ),
{
    let p = looked_up[n]->Ok_0;
    let b = ins[n];
    lemma_input_taken(state, b, p, baud, line_break(b, p), display, port, f);
    let after = input_taken(state, b, p, baud, line_break(b, p), display).0;
    let asked = exists|i: int|
        0 <= i < n && #[trigger] is_found_at(looked_up, i, port) && ins[i].formats.contains(f);
    let asked_now = exists|i: int|
        0 <= i < n + 1 && #[trigger] is_found_at(looked_up, i, port) && ins[i].formats.contains(f);
    assert(is_found_at(looked_up, n, port) <==> p == port);
    assert(asked_now <==> asked || (p == port && b.formats.contains(f))) by {
        if asked_now {
            let i = choose|i: int|
                0 <= i < n + 1 && #[trigger] is_found_at(looked_up, i, port)
                    && ins[i].formats.contains(f);
            assert(i < n ==> asked);
        }
        if asked {
            let i = choose|i: int|
                0 <= i < n && #[trigger] is_found_at(looked_up, i, port)
                    && ins[i].formats.contains(f);
            assert(is_found_at(looked_up, i, port));
        }
    }
    if forall|i: int| 0 <= i < n + 1 ==> !#[trigger] is_found_at(looked_up, i, port) {
        assert(!is_found_at(looked_up, n, port));
    }
    if input_on(start.inputs, port) is None {
        assert forall|i: int|
            0 <= i < n + 1 && #[trigger] is_first_at(looked_up, i, port) implies input_on(
            after.inputs,
            port,
        ) == Some(input_spec(ins[i], port, baud, line_break(ins[i], port), display)) by {
            if i == n {
                assert(input_on(state.0.inputs, port) is None);
            }
        }
    }
}

proof fn lemma_inputs_taken(
    step: spec_fn(InputState, InputItem) -> Result<InputState, Seq<char>>,
    line_break: spec_fn(ResolvedInputModel, Seq<char>) -> LineBreakMode,
    start: InputState,
    baud: u32,
    display: PortDisplayModel,
    ins: Seq<ResolvedInputModel>,
    looked_up: Seq<Lookup>,
    n: int,
    port: Seq<char>,
    f: OutputFormat,
)
    requires
        takes_inputs(step, line_break, baud, display),
        ordered(start.0.candidates),
        ins.len() == looked_up.len(),
        0 <= n <= ins.len(),
    ensures
        applied(step, start, input_items(ins, looked_up).take(n)) matches Ok(state) ==> (forall|
            i: int,
        |
            0 <= i < n ==> (#[trigger] looked_up[i]) is Ok) && taken_up_to(
            start.0,
            state.0,
            line_break,
            baud,
            display,
            ins,
            looked_up,
            n,
            port,
            f,
        ),
    decreases n,
{
    let all = input_items(ins, looked_up);
    if n == 0 {
        assert(all.take(0) =~= Seq::<InputItem>::empty());
    } else {
        let m = n - 1;
        lemma_inputs_taken(step, line_break, start, baud, display, ins, looked_up, m, port, f);
        assert(all.take(n).drop_last() =~= all.take(m));
        assert(all.take(n).last() == (ins[m], looked_up[m]));
        let r = applied(step, start, all.take(m));
        if r is Ok && looked_up[m] is Ok {
            let before = r->Ok_0;
            assert(step(before, (ins[m], looked_up[m])) == Ok::<InputState, Seq<char>>(
                input_taken(
                    before,
                    ins[m],
                    looked_up[m]->Ok_0,
                    baud,
                    line_break(ins[m], looked_up[m]->Ok_0),
                    display,
                ),
            ));
            lemma_one_taken(
                start.0,
                before,
                line_break,
                baud,
                display,
                ins,
                looked_up,
                m,
                port,
                f,
            );
        } else if r is Ok {
            assert(step(before_of(r), (ins[m], looked_up[m])) is Err);
        }
    }
}

spec fn before_of(r: Result<InputState, Seq<char>>) -> InputState {
    r->Ok_0
}

// ---------------------------------------------------------------------------
// What is observed
// ---------------------------------------------------------------------------

proof fn lemma_sorted(formats: Seq<OutputFormat>, f: OutputFormat)
    ensures
        sorted_formats(formats).contains(f) <==> formats.contains(f),
{
    let keep = |g: OutputFormat| formats.contains(g);
    let all = name_order();
    broadcast use vstd::seq_lib::group_filter_ensures;

    let sorted = sorted_formats(formats);
    assert(all[0] == OutputFormat::PacketAcV6 && all[1] == OutputFormat::PacketAcV6Usb && all[2]
        == OutputFormat::PacketBv1 && all[3] == OutputFormat::PacketGcV1 && all[4]
        == OutputFormat::PacketIv1 && all[5] == OutputFormat::PacketJfV1 && all[6]
        == OutputFormat::PacketMv1 && all[7] == OutputFormat::PacketUfV2 && all[8]
        == OutputFormat::RoverDownGeneral && all[9] == OutputFormat::RoverUpGeneral);
    if formats.contains(f) {
        assert(all.contains(f));
        let i = choose|i: int| 0 <= i < all.len() && all[i] == f;
        assert(keep(all[i]));
        assert(all.filter(keep).contains(all[i]));
    }
    if sorted.contains(f) {
        let i = choose|i: int| 0 <= i < sorted.len() && sorted[i] == f;
        assert(keep(all.filter(keep)[i]));
    }
}

proof fn lemma_observed_up_to(
    plan: InputPlanModel,
    n: nat,
    keep: bool,
    port: Seq<char>,
    f: OutputFormat,
    j: int,
)
    requires
        ordered(plan.candidates),
        n <= plan.candidates.len(),
        0 <= j < n,
        plan.candidates[j].0 == port,
        plan.candidates[j].1.contains(f),
        input_on(plan.inputs, port) is Some,
    ensures
        exists|k: int|
            0 <= k < plan.observed_up_to(n, keep).len() && is_observed(
                #[trigger] plan.observed_up_to(n, keep)[k],
                input_on(plan.inputs, port)->0,
                f,
                keep,
            ),
    decreases n,
{
    let m = (n - 1) as nat;
    let before = plan.observed_up_to(m, keep);
    let after = plan.observed_up_to(n, keep);
    if j == n - 1 {
        let entry = plan.candidates[j];
        lemma_sorted(entry.1, f);
        lemma_input_on(plan.inputs, port);
        assert(is_observed(after[before.len() as int], input_on(plan.inputs, port)->0, f, keep));
    } else {
        lemma_observed_up_to(plan, m, keep, port, f, j);
        let k = choose|k: int|
            0 <= k < before.len() && is_observed(
                #[trigger] before[k],
                input_on(plan.inputs, port)->0,
                f,
                keep,
            );
        assert(after[k] == before[k]);
    }
}

/// The packets of a format are picked out of what an input receives. Their line breaks are kept
/// where that is wanted at all and the input ends lines with carriage return and line feed.
pub open spec fn is_observed(
    observed: ObservedSpecModel,
    input: InputSpecModel,
    format: OutputFormat,
    keep_line_breaks: bool,
) -> bool {
    &&& observed.input_id == input.id
    &&& observed.port == input.port
    &&& observed.formats.contains(format)
    &&& observed.preserve_line_breaks <==> keep_line_breaks && input.line_break_mode
        == LineBreakMode::Crlf
}

pub proof fn lemma_observed(plan: InputPlanModel, keep: bool, port: Seq<char>, f: OutputFormat)
    requires
        ordered(plan.candidates),
        looked_for(plan, port, f),
        input_on(plan.inputs, port) is Some,
    ensures
        exists|k: int|
            0 <= k < plan.observed(keep).len() && is_observed(
                #[trigger] plan.observed(keep)[k],
                input_on(plan.inputs, port)->0,
                f,
                keep,
            ),
{
    lemma_found(plan.candidates, port);
    let formats = found(plan.candidates, port)->0;
    let j = choose|j: int|
        0 <= j < plan.candidates.len() && #[trigger] plan.candidates[j] == (port, formats);
    lemma_observed_up_to(plan, plan.candidates.len(), keep, port, f, j);
    let all = plan.observed_up_to(plan.candidates.len(), keep);
    let k = choose|k: int|
        0 <= k < all.len() && is_observed(
            #[trigger] all[k],
            input_on(plan.inputs, port)->0,
            f,
            keep,
        );
    assert(is_observed(plan.observed(keep)[k], input_on(plan.inputs, port)->0, f, keep));
}

pub proof fn lemma_only_looked_for(plan: InputPlanModel, n: nat, keep: bool, k: int, f: OutputFormat)
    requires
        ordered(plan.candidates),
        n <= plan.candidates.len(),
        0 <= k < plan.observed_up_to(n, keep).len(),
        plan.observed_up_to(n, keep)[k].formats.contains(f),
    ensures
        looked_for(plan, plan.observed_up_to(n, keep)[k].port, f),
    decreases n,
{
    if n > 0 {
        let m = (n - 1) as nat;
        let before = plan.observed_up_to(m, keep);
        let after = plan.observed_up_to(n, keep);
        if k < before.len() {
            assert(after[k] == before[k]);
            lemma_only_looked_for(plan, m, keep, k, f);
        } else {
            let entry = plan.candidates[n - 1];
            lemma_sorted(entry.1, f);
            lemma_found_is(plan.candidates, n - 1);
        }
    }
}

// ---------------------------------------------------------------------------
// `io`
// ---------------------------------------------------------------------------

/// The formats that a binding names.
pub open spec fn names_format(b: InputBindingModel, format: OutputFormat) -> bool {
    exists|m: int|
        0 <= m < b.formats.len() && parsed_format(#[trigger] b.formats[m]) == Ok::<
            OutputFormat,
            Seq<char>,
        >(format)
}

pub proof fn lemma_named_input(b: InputBindingModel, f: OutputFormat)
    requires
        resolved_input(b) is Ok,
    ensures
        resolved_input(b)->Ok_0.baud == b.baud,
        resolved_input(b)->Ok_0.display_mode == b.display_mode,
        resolved_input(b)->Ok_0.line_break_mode == b.line_break_mode,
        resolved_input(b)->Ok_0.formats.contains(f) <==> names_format(b, f),
{
    let r = resolved_input(b)->Ok_0;
    lemma_collected_all(format_reader(), b.formats);
    if r.formats.contains(f) {
        let m = choose|m: int| 0 <= m < r.formats.len() && r.formats[m] == f;
        assert(parsed_format(b.formats[m]) == Ok::<OutputFormat, Seq<char>>(f));
    }
    if names_format(b, f) {
        let m = choose|m: int|
            0 <= m < b.formats.len() && parsed_format(#[trigger] b.formats[m]) == Ok::<
                OutputFormat,
                Seq<char>,
            >(f);
        assert(r.formats[m] == f);
    }
}

proof fn lemma_named_formats(inputs: Seq<InputBindingModel>, i: int, f: OutputFormat)
    requires
        resolved_inputs(inputs) is Ok,
        0 <= i < inputs.len(),
    ensures
        resolved_inputs(inputs)->Ok_0.len() == inputs.len(),
        resolved_inputs(inputs)->Ok_0[i].baud == inputs[i].baud,
        resolved_inputs(inputs)->Ok_0[i].display_mode == inputs[i].display_mode,
        resolved_inputs(inputs)->Ok_0[i].line_break_mode == inputs[i].line_break_mode,
        resolved_inputs(inputs)->Ok_0[i].formats.contains(f) <==> names_format(inputs[i], f),
{
    lemma_collected_all(input_reader(), inputs);
    let r = resolved_inputs(inputs)->Ok_0[i];
    lemma_named_input(inputs[i], f);
}

/// An input is as a binding asks: at the baud rate that stands with it, else at that of `--baud`,
/// else at 115200; shown as asked.
pub open spec fn input_as_asked(
    input: InputSpecModel,
    b: InputBindingModel,
    baud: Option<u32>,
) -> bool {
    &&& input.id == input.port
    &&& input.baud_rate == (if b.baud is Some {
        b.baud->0
    } else if baud is Some {
        baud->0
    } else {
        115_200
    })
    &&& b.display_mode matches Some(mode) ==> input.display_mode == mode
    &&& b.line_break_mode matches Some(mode) ==> input.line_break_mode == mode
}

/// Where settings of `io` are made, every input that was named is read on the port that was found
/// for it, as its first binding asks, and every format that it names is looked for there.
pub proof fn law_io_inputs_are_read(
    o: IoOptionsModel,
    output_ports: Seq<Lookup>,
    figures: Seq<FiguresModel>,
    input_ports: Seq<Lookup>,
    current_dir: Option<Seq<char>>,
    i: int,
    f: OutputFormat,
)
    requires
        io_settings(o, output_ports, figures, input_ports, current_dir) is Ok,
        input_ports.len() == o.inputs.len(),
        0 <= i < o.inputs.len(),
    ensures
        input_ports[i] is Ok,
        ({
            let s = io_settings(o, output_ports, figures, input_ports, current_dir)->Ok_0;
            let port = input_ports[i]->Ok_0;
            let first = is_first_at(input_ports, i, port);
            &&& exists|j: int|
                0 <= j < s.inputs.len() && (#[trigger] s.inputs[j]).port == port && (first
                    ==> input_as_asked(s.inputs[j], o.inputs[i], o.baud)) && (names_format(
                    o.inputs[i],
                    f,
                ) ==> exists|k: int|
                    0 <= k < s.observed_inputs.len() && is_observed(
                        #[trigger] s.observed_inputs[k],
                        s.inputs[j],
                        f,
                        true,
                    ))
        }),
{
    let s = io_settings(o, output_ports, figures, input_ports, current_dir)->Ok_0;
    let baud = default_baud_of(o.baud);
    let ins = resolved_inputs(o.inputs)->Ok_0;
    let line_break = |b: ResolvedInputModel, port: Seq<char>| io_line_break(b, port, o.display);
    let step = input_step(baud, o.display);
    assert(takes_inputs(step, line_break, baud, o.display));
    let start: InputState = (InputPlanModel::empty(), Seq::empty());
    lemma_named_formats(o.inputs, i, f);
    let n = ins.len() as int;
    let port = input_ports[i]->Ok_0;
    lemma_inputs_taken(step, line_break, start, baud, o.display, ins, input_ports, n, port, f);
    assert(input_items(ins, input_ports).take(n) =~= input_items(ins, input_ports));
    let state = applied(step, start, input_items(ins, input_ports))->Ok_0;
    assert(input_ports[i] is Ok);
    let first = first_on(input_ports, port, i);
    assert(input_on(start.0.inputs, port) is None);
    assert(is_found_at(input_ports, i, port));
    lemma_first_on(input_ports, port, i);
    assert(is_first_at(input_ports, first, port));
    assert(input_on(state.0.inputs, port) is Some);
    lemma_input_on(state.0.inputs, port);
    let input = input_on(state.0.inputs, port)->0;
    let j = choose|j: int| 0 <= j < s.inputs.len() && s.inputs[j] == input;
    if names_format(o.inputs[i], f) {
        assert(looked_for(state.0, port, f));
        lemma_observed(state.0, true, port, f);
        let k = choose|k: int|
            0 <= k < state.0.observed(true).len() && is_observed(
                #[trigger] state.0.observed(true)[k],
                input,
                f,
                true,
            );
        assert(is_observed(s.observed_inputs[k], s.inputs[j], f, true));
    }
    if is_first_at(input_ports, i, port) {
        assert(input_as_asked(s.inputs[j], o.inputs[i], o.baud));
    }
    assert(s.inputs[j].port == port);
}

/// The first place up to `i` at which a port was found.
pub open spec fn first_on(looked_up: Seq<Lookup>, port: Seq<char>, i: int) -> int
    decreases i,
{
    if i <= 0 {
        0
    } else {
        let before = first_on(looked_up, port, i - 1);
        if is_found_at(looked_up, before, port) {
            before
        } else {
            i
        }
    }
}

pub proof fn lemma_first_on(looked_up: Seq<Lookup>, port: Seq<char>, i: int)
    requires
        0 <= i < looked_up.len(),
    ensures
        0 <= first_on(looked_up, port, i) <= i,
        forall|k: int|
            0 <= k < first_on(looked_up, port, i) ==> !#[trigger] is_found_at(looked_up, k, port),
        is_found_at(looked_up, i, port) ==> is_first_at(
            looked_up,
            first_on(looked_up, port, i),
            port,
        ),
    decreases i,
{
    if i > 0 {
        lemma_first_on(looked_up, port, i - 1);
        assert(first_on(looked_up, port, i) == i || is_found_at(
            looked_up,
            first_on(looked_up, port, i),
            port,
        ));
        if !is_found_at(looked_up, first_on(looked_up, port, i - 1), port) {
            lemma_not_found_before(looked_up, port, i - 1);
        }
    }
}

proof fn lemma_not_found_before(looked_up: Seq<Lookup>, port: Seq<char>, i: int)
    requires
        0 <= i < looked_up.len(),
        !is_found_at(looked_up, first_on(looked_up, port, i), port),
    ensures
        forall|k: int| 0 <= k <= i ==> !#[trigger] is_found_at(looked_up, k, port),
    decreases i,
{
    if i > 0 {
        if is_found_at(looked_up, first_on(looked_up, port, i - 1), port) {
        } else {
            lemma_not_found_before(looked_up, port, i - 1);
        }
    }
}

/// Where settings of `io` are made, nothing is looked for on a port but the formats that bindings
/// of that port name.
pub proof fn law_io_looks_for_nothing_else(
    o: IoOptionsModel,
    output_ports: Seq<Lookup>,
    figures: Seq<FiguresModel>,
    input_ports: Seq<Lookup>,
    current_dir: Option<Seq<char>>,
    k: int,
    f: OutputFormat,
)
    requires
        io_settings(o, output_ports, figures, input_ports, current_dir) is Ok,
        input_ports.len() == o.inputs.len(),
        ({
            let s = io_settings(o, output_ports, figures, input_ports, current_dir)->Ok_0;
            0 <= k < s.observed_inputs.len() && s.observed_inputs[k].formats.contains(f)
        }),
    ensures
        ({
            let s = io_settings(o, output_ports, figures, input_ports, current_dir)->Ok_0;
            exists|i: int|
                0 <= i < o.inputs.len() && #[trigger] is_found_at(
                    input_ports,
                    i,
                    s.observed_inputs[k].port,
                ) && names_format(o.inputs[i], f)
        }),
{
    let s = io_settings(o, output_ports, figures, input_ports, current_dir)->Ok_0;
    let baud = default_baud_of(o.baud);
    let ins = resolved_inputs(o.inputs)->Ok_0;
    let line_break = |b: ResolvedInputModel, port: Seq<char>| io_line_break(b, port, o.display);
    let step = input_step(baud, o.display);
    assert(takes_inputs(step, line_break, baud, o.display));
    let start: InputState = (InputPlanModel::empty(), Seq::empty());
    lemma_collected_all(input_reader(), o.inputs);
    let n = ins.len() as int;
    let port = s.observed_inputs[k].port;
    lemma_inputs_taken(step, line_break, start, baud, o.display, ins, input_ports, n, port, f);
    assert(input_items(ins, input_ports).take(n) =~= input_items(ins, input_ports));
    let state = applied(step, start, input_items(ins, input_ports))->Ok_0;
    lemma_only_looked_for(state.0, state.0.candidates.len(), true, k, f);
    assert(!looked_for(start.0, port, f));
    let i = choose|i: int|
        0 <= i < n && #[trigger] is_found_at(input_ports, i, port) && ins[i].formats.contains(f);
    lemma_named_formats(o.inputs, i, f);
    assert(is_found_at(input_ports, i, port));
}

// ---------------------------------------------------------------------------
// `send`
// ---------------------------------------------------------------------------

proof fn lemma_echoes(
    outs: Seq<ResolvedSendModel>,
    looked_up: Seq<Lookup>,
    baud: u32,
    display: PortDisplayModel,
    interactive: bool,
    n: int,
)
    requires
        outs.len() == looked_up.len(),
        0 <= n <= outs.len(),
    ensures
        applied(
            send_step(baud, display, interactive),
            (Seq::empty(), InputPlanModel::empty()),
            send_items(outs, looked_up).take(n),
        ) matches Ok(state) ==> {
            &&& state.0.len() == n
            &&& ordered(state.1.candidates)
            &&& forall|i: int|
                0 <= i < n ==> has_line(
                    state.1.inputs,
                    (#[trigger] state.0[i]).session.port,
                    state.0[i].session.baud_rate,
                ) && (!interactive ==> looked_for(
                    state.1,
                    state.0[i].session.port,
                    state.0[i].format,
                )) && input_on(state.1.inputs, state.0[i].session.port) is Some
        },
    decreases n,
{
    let all = send_items(outs, looked_up);
    let step = send_step(baud, display, interactive);
    let start: SendState = (Seq::empty(), InputPlanModel::empty());
    if n == 0 {
        assert(all.take(0) =~= Seq::<SendItem>::empty());
    } else {
        lemma_echoes(outs, looked_up, baud, display, interactive, n - 1);
        assert(all.take(n).drop_last() =~= all.take(n - 1));
        assert(all.take(n).last() == (outs[n - 1], looked_up[n - 1]));
        if applied(step, start, all.take(n)) is Ok {
            let before = applied(step, start, all.take(n - 1))->Ok_0;
            let after = applied(step, start, all.take(n))->Ok_0;
            let o = outs[n - 1];
            let last = after.0[n - 1];
            let port = last.session.port;
            let rate = last.session.baud_rate;
            assert(after.1 == echo_noted(before.1, o, port, rate, display, interactive));
            let asked = before.1.shown_as_asked(
                port,
                o.display_mode is Some || display.input_override(port) is Some,
            );
            let spec = echo_input(o, port, rate, display);
            lemma_looking_for(asked, port, seq![o.format], port, o.format);
            assert(seq![o.format][0] == o.format);
            assert(last.format == o.format);
            lemma_input_on_push(before.1.inputs, spec, port);
            if has_line(before.1.inputs, port, rate) {
                let j = choose|j: int|
                    0 <= j < before.1.inputs.len() && (#[trigger] before.1.inputs[j]).port == port
                        && before.1.inputs[j].baud_rate == rate;
                lemma_some_input_on(before.1.inputs, j);
            } else {
                assert(after.1.inputs[before.1.inputs.len() as int] == spec);
            }
            assert(has_line(after.1.inputs, port, rate));
            assert forall|i: int| 0 <= i < n implies has_line(
                after.1.inputs,
                (#[trigger] after.0[i]).session.port,
                after.0[i].session.baud_rate,
            ) && (!interactive ==> looked_for(
                after.1,
                after.0[i].session.port,
                after.0[i].format,
            )) && input_on(after.1.inputs, after.0[i].session.port) is Some by {
                if i < n - 1 {
                    let q = before.0[i];
                    assert(after.0[i] == q);
                    lemma_looking_for(asked, port, seq![o.format], q.session.port, q.format);
                    lemma_input_on_push(before.1.inputs, spec, q.session.port);
                    let k = choose|k: int|
                        0 <= k < before.1.inputs.len() && (#[trigger] before.1.inputs[k]).port
                            == q.session.port && before.1.inputs[k].baud_rate
                            == q.session.baud_rate;
                    assert(after.1.inputs[k] == before.1.inputs[k]);
                }
            }
        }
    }
}

pub proof fn lemma_some_input_on(inputs: Seq<InputSpecModel>, j: int)
    requires
        0 <= j < inputs.len(),
    ensures
        input_on(inputs, inputs[j].port) is Some,
    decreases inputs.len(),
{
    if inputs[0].port != inputs[j].port {
        let rest = inputs.skip(1);
        assert(rest[j - 1] == inputs[j]);
        lemma_some_input_on(rest, j - 1);
    }
}

/// Where settings of `send` are made, the port of every output is read back at its baud rate,
/// and unless texts are sent by hand its format is looked for there.
pub proof fn law_send_outputs_are_read_back(
    o: SendOptionsModel,
    selected: Lookup,
    output_ports: Seq<Lookup>,
    monitor_ports: Seq<Lookup>,
    current_dir: Option<Seq<char>>,
    i: int,
)
    requires
        send_settings(o, selected, output_ports, monitor_ports, current_dir) is Ok,
        send_bindings(o, selected)->Ok_0.0.len() == output_ports.len(),
        monitor_ports.len() == o.monitor_ports.len(),
        0 <= i < output_ports.len(),
    ensures
        ({
            let s = send_settings(o, selected, output_ports, monitor_ports, current_dir)->Ok_0;
            let output = s.outputs[i];
            &&& exists|j: int|
                0 <= j < s.inputs.len() && (#[trigger] s.inputs[j]).port == output.session.port
                    && s.inputs[j].baud_rate == output.session.baud_rate
            &&& !o.interactive ==> exists|k: int|
                0 <= k < s.observed_inputs.len() && (#[trigger] s.observed_inputs[k]).port
                    == output.session.port && s.observed_inputs[k].formats.contains(output.format)
        }),
{
    let s = send_settings(o, selected, output_ports, monitor_ports, current_dir)->Ok_0;
    let baud = default_baud_of(o.baud);
    let (outs, monitors) = send_bindings(o, selected)->Ok_0;
    let n = outs.len() as int;
    lemma_echoes(outs, output_ports, baud, o.display, o.interactive, n);
    assert(send_items(outs, output_ports).take(n) =~= send_items(outs, output_ports));
    let (outputs, plan) = planned_send_outputs(
        outs,
        output_ports,
        baud,
        o.display,
        o.interactive,
    )->Ok_0;
    let output = outputs[i];
    let port = output.session.port;
    let line_break = |b: ResolvedInputModel, port: Seq<char>|
        monitor_line_break_for(b.line_break_mode, b.formats.len() > 0, o.display.line_break(port));
    let step = monitor_step(baud, o.display);
    assert(takes_inputs(step, line_break, baud, o.display));
    lemma_collected_all(input_reader(), o.monitor_ports);
    let start: InputState = (plan, Seq::empty());
    let m = monitors.len() as int;
    lemma_inputs_taken(
        step,
        line_break,
        start,
        baud,
        o.display,
        monitors,
        monitor_ports,
        m,
        port,
        output.format,
    );
    assert(input_items(monitors, monitor_ports).take(m) =~= input_items(monitors, monitor_ports));
    let state = applied(step, start, input_items(monitors, monitor_ports))->Ok_0;
    assert(has_line(state.0.inputs, port, output.session.baud_rate));
    if !o.interactive {
        assert(looked_for(plan, port, output.format));
        lemma_observed(state.0, false, port, output.format);
        lemma_input_on(state.0.inputs, port);
        let k = choose|k: int|
            0 <= k < state.0.observed(false).len() && is_observed(
                #[trigger] state.0.observed(false)[k],
                input_on(state.0.inputs, port)->0,
                output.format,
                false,
            );
        assert(s.observed_inputs[k].port == port);
    }
    let j = choose|j: int|
        0 <= j < state.0.inputs.len() && (#[trigger] state.0.inputs[j]).port == port
            && state.0.inputs[j].baud_rate == output.session.baud_rate;
    assert(s.inputs[j].port == port);
    assert(s.outputs[i] == output);
}

/// Where settings of `send` are made, every monitor is read on the port that was found for it,
/// and every format that it names is looked for there. On a port without an output the first
/// monitor says at which baud rate and how it is shown.
pub proof fn law_send_monitors_are_read(
    o: SendOptionsModel,
    selected: Lookup,
    output_ports: Seq<Lookup>,
    monitor_ports: Seq<Lookup>,
    current_dir: Option<Seq<char>>,
    i: int,
    f: OutputFormat,
)
    requires
        send_settings(o, selected, output_ports, monitor_ports, current_dir) is Ok,
        send_bindings(o, selected)->Ok_0.0.len() == output_ports.len(),
        monitor_ports.len() == o.monitor_ports.len(),
        0 <= i < monitor_ports.len(),
    ensures
        monitor_ports[i] is Ok,
        ({
            let s = send_settings(o, selected, output_ports, monitor_ports, current_dir)->Ok_0;
            let port = monitor_ports[i]->Ok_0;
            exists|j: int|
                0 <= j < s.inputs.len() && (#[trigger] s.inputs[j]).port == port && (output_ports.len()
                    == 0 && is_first_at(monitor_ports, i, port) ==> input_as_asked(s.inputs[j], o.monitor_ports[i], o.baud)) && (
                names_format(o.monitor_ports[i], f) ==> exists|k: int|
                    0 <= k < s.observed_inputs.len() && is_observed(
                        #[trigger] s.observed_inputs[k],
                        s.inputs[j],
                        f,
                        false,
                    ))
        }),
{
    let s = send_settings(o, selected, output_ports, monitor_ports, current_dir)->Ok_0;
    let baud = default_baud_of(o.baud);
    let (outs, monitors) = send_bindings(o, selected)->Ok_0;
    let n = outs.len() as int;
    lemma_echoes(outs, output_ports, baud, o.display, o.interactive, n);
    assert(send_items(outs, output_ports).take(n) =~= send_items(outs, output_ports));
    let (outputs, plan) = planned_send_outputs(
        outs,
        output_ports,
        baud,
        o.display,
        o.interactive,
    )->Ok_0;
    let port = monitor_ports[i]->Ok_0;
    let line_break = |b: ResolvedInputModel, port: Seq<char>|
        monitor_line_break_for(b.line_break_mode, b.formats.len() > 0, o.display.line_break(port));
    let step = monitor_step(baud, o.display);
    assert(takes_inputs(step, line_break, baud, o.display));
    lemma_named_formats(o.monitor_ports, i, f);
    let start: InputState = (plan, Seq::empty());
    let m = monitors.len() as int;
    lemma_inputs_taken(
        step,
        line_break,
        start,
        baud,
        o.display,
        monitors,
        monitor_ports,
        m,
        port,
        f,
    );
    assert(input_items(monitors, monitor_ports).take(m) =~= input_items(monitors, monitor_ports));
    let state = applied(step, start, input_items(monitors, monitor_ports))->Ok_0;
    assert(monitor_ports[i] is Ok);
    assert(is_found_at(monitor_ports, i, port));
    lemma_first_on(monitor_ports, port, i);
    assert(is_first_at(monitor_ports, first_on(monitor_ports, port, i), port));
    if output_ports.len() == 0 {
        assert(send_items(outs, output_ports) =~= Seq::<SendItem>::empty());
        assert(plan.inputs.len() == 0);
        assert(input_on(plan.inputs, port) is None);
    }
    assert(input_on(state.0.inputs, port) is Some);
    lemma_input_on(state.0.inputs, port);
    let input = input_on(state.0.inputs, port)->0;
    let j = choose|j: int| 0 <= j < s.inputs.len() && s.inputs[j] == input;
    if names_format(o.monitor_ports[i], f) {
        assert(looked_for(state.0, port, f));
        lemma_observed(state.0, false, port, f);
        let k = choose|k: int|
            0 <= k < state.0.observed(false).len() && is_observed(
                #[trigger] state.0.observed(false)[k],
                input,
                f,
                false,
            );
        assert(is_observed(s.observed_inputs[k], s.inputs[j], f, false));
    }
    if output_ports.len() == 0 && is_first_at(monitor_ports, i, port) {
        assert(input_as_asked(s.inputs[j], o.monitor_ports[i], o.baud));
    }
    assert(s.inputs[j].port == port);
}

} // verus!

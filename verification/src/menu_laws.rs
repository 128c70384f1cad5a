//! Laws of the questions: what is picked or typed is what comes out.
use crate::command_line::format_list;
use crate::commands::PortInfo;
use crate::control_prompt::ControlCommandModel;
use crate::control_questions::{
    control_formats, control_monitor_asked, control_output_asked, OutputAnswer,
};
use crate::display::display_value;
use crate::format::{format_label, format_name, OutputFormat};
use crate::io_prompt::{IoPromptModel, IoPromptPortPosition};
use crate::io_questions::{
    baud_choices, display_choices, format_choices, input_binding_asked, output_binding_asked,
    rate_asked, rate_choices, rate_labels,
};
use crate::menu::{
    arrow_pressed, choice_line, display_asked, entered, format_asked, format_labels,
    input_format_asked, key_pressed, law_offers_are_distinct, maybe_numbered, menu_head, moved_down,
    moved_up, number_asked, numbered_choice, numbered_line, numbered_menu, offered,
    plain_choice_line, plain_menu, port_asked, port_choice, port_labels, started_on, Asked, MenuKey,
    ReplyModel, Shown, StepModel,
};
use crate::send_prompt::{
    send_display_choices, send_format_choices, send_input_asked, send_output_asked,
    send_rate_choices,
};
use crate::text::{
    decimal, group_holds, holds, joined, lemma_decimal, lemma_holds, lemma_number_of_decimal,
    trimmed,
};
use vstd::prelude::*;

verus! {

// ---------------------------------------------------------------------------
// Picking
// ---------------------------------------------------------------------------

/// The number in front of a label picks it, and every other number is refused.
pub proof fn law_shown_number_picks(
    prompt: Seq<char>,
    labels: Seq<Seq<char>>,
    preview: Option<Seq<char>>,
    n: nat,
)
    requires
        n <= usize::MAX,
    ensures
        1 <= n <= labels.len() ==> {
            &&& numbered_choice(decimal(n), labels.len()) == Ok::<int, Seq<char>>(n - 1)
            &&& numbered_menu(prompt, labels, preview)[n as int] == "  "@ + decimal(n) + ". "@
                + labels[n - 1]
        },
        n == 0 || n > labels.len() ==> numbered_choice(decimal(n), labels.len()) is Err,
{
    lemma_number_of_decimal(n);
    let lines = labels.map(|i: int, label: Seq<char>| numbered_line(i, label));
    if 1 <= n <= labels.len() {
        assert(numbered_menu(prompt, labels, preview)[n as int] == lines[n - 1]);
        assert((n - 1 + 1) as nat == n);
    }
}

/// The keys move by one line and stop at both ends.
pub proof fn law_keys_move_by_one(at: usize, count: usize)
    requires
        at < count,
    ensures
        moved_up(at) == if at > 0 {
            at - 1
        } else {
            0
        },
        moved_down(at, count) < count,
        at + 1 < count ==> moved_down(at, count) == at + 1 && moved_up(moved_down(at, count)) == at,
        at + 1 == count ==> moved_down(at, count) == at,
        at > 0 ==> moved_down(moved_up(at), count) == at,
{
}

/// A menu shows every label, and sets off the one that Enter picks from all others.
pub proof fn law_menu_shows_the_labels(prompt: Seq<char>, labels: Seq<Seq<char>>, at: int, i: int)
    requires
        0 <= i < labels.len(),
    ensures
        plain_menu(prompt, labels, at).len() == labels.len() + 2,
        plain_menu(prompt, labels, at)[0] == prompt,
        holds(plain_menu(prompt, labels, at)[i + 2], labels[i]),
        plain_menu(prompt, labels, at)[i + 2] == "  "@ + labels[i] <==> i != at,
{
    let lines = labels.map(
        |k: int, label: Seq<char>| plain_choice_line(label, k == at),
    );
    assert(plain_menu(prompt, labels, at)[i + 2] == lines[i]);
    reveal_strlit("\x1b[48;5;218m\x1b[30m> ");
    reveal_strlit("  ");
    let marked = "\x1b[48;5;218m\x1b[30m> "@ + labels[i] + "\x1b[0m"@;
    let plain = "  "@ + labels[i];
    assert(marked[0] == '\x1b' && plain[0] == ' ');
    lemma_holds("\x1b[48;5;218m\x1b[30m> "@, labels[i], "\x1b[0m"@);
    lemma_holds("  "@, labels[i], Seq::empty());
    assert("  "@ + labels[i] + Seq::<char>::empty() =~= plain);
}

/// What is typed counts without the blanks around it; where nothing is typed, the default does.
pub proof fn law_typed_text(line: Seq<char>, default: Option<Seq<char>>)
    ensures
        trimmed(line).len() > 0 ==> entered(line, default) == Ok::<Seq<char>, Seq<char>>(
            trimmed(line),
        ),
        trimmed(line).len() == 0 && default is Some ==> entered(line, default) == Ok::<
            Seq<char>,
            Seq<char>,
        >(default->0),
        trimmed(line).len() == 0 && default is None ==> entered(line, default) is Err,
{
}

// ---------------------------------------------------------------------------
// Single questions
// ---------------------------------------------------------------------------

/// The reply at `at` picks the label `i`.
pub open spec fn picks(replies: Seq<ReplyModel>, at: int, i: int) -> bool {
    0 <= at < replies.len() && replies[at] == ReplyModel::Selected(i as usize) && 0 <= i <= usize::MAX
}

/// The line that was typed at `at`.
pub open spec fn types(replies: Seq<ReplyModel>, at: int, line: Seq<char>) -> bool {
    0 <= at < replies.len() && replies[at] == ReplyModel::Typed(line)
}

/// The labels of a menu that is asked.
pub open spec fn labels_asked<T>(asked: Asked<T>) -> Seq<Seq<char>> {
    asked->Ok_0->Ask_0->labels
}

/// Before it is answered, the question for a port offers every port by its name and number, and
/// to type one. A port that is picked comes out by its name, a typed one as typed.
pub proof fn law_port_question(
    prompt: Seq<char>,
    numbered: bool,
    ports: Seq<PortInfo>,
    shown: Shown,
    replies: Seq<ReplyModel>,
    at: int,
    i: int,
    line: Seq<char>,
)
    requires
        ports.len() > 0,
        0 <= i < ports.len() < usize::MAX,
    ensures
        at >= replies.len() ==> {
            let asked = port_asked(prompt, numbered, ports, shown, replies, at);
            &&& asked is Ok && asked->Ok_0 is Ask && asked->Ok_0->Ask_0 is Menu
            &&& asked->Ok_0->Ask_0->title == prompt
            &&& labels_asked(asked).len() == ports.len() + 1
            &&& holds(labels_asked(asked)[i], ports[i].name@)
            &&& numbered ==> exists|rest: Seq<char>|
                labels_asked(asked)[i] == "["@ + decimal(i as nat) + "] "@ + #[trigger] (
                ports[i].name@ + rest)
        },
        picks(replies, at, i) ==> port_asked(prompt, numbered, ports, shown, replies, at) == Ok::<
            StepModel<Seq<char>>,
            Seq<char>,
        >(StepModel::Done(ports[i].name@, at + 1)),
        picks(replies, at, ports.len() as int) && types(replies, at + 1, line) && trimmed(line).len()
            > 0 ==> port_asked(prompt, numbered, ports, shown, replies, at) == Ok::<
            StepModel<Seq<char>>,
            Seq<char>,
        >(StepModel::Done(trimmed(line), at + 2)),
{
    if at >= replies.len() {
        let asked = port_asked(prompt, numbered, ports, shown, replies, at);
        let choice = port_choice(ports[i]);
        assert(labels_asked(asked) == port_labels(numbered, ports));
        assert(labels_asked(asked)[i] == maybe_numbered(numbered, i as nat, choice));
        let name = ports[i].name@;
        let rest = choice.skip(name.len() as int);
        assert(choice =~= name + rest);
        lemma_holds(Seq::empty(), name, rest);
        assert(Seq::<char>::empty() + name + rest =~= choice);
        lemma_holds("["@ + decimal(i as nat) + "] "@, name, rest);
        assert("["@ + decimal(i as nat) + "] "@ + name + rest =~= "["@ + decimal(i as nat) + "] "@ + (
        name + rest));
    }
}

/// The default and each of the choices are on offer.
pub proof fn law_choices_are_offered(default: u32, choices: Seq<u32>)
    ensures
        offered(default, choices).contains(default),
        forall|k: int|
            0 <= k < choices.len() ==> offered(default, choices).contains(#[trigger] choices[k]),
        forall|v: u32| #[trigger]
            offered(default, choices).contains(v) ==> v == default || choices.contains(v),
    decreases choices.len(),
{
    law_offers_are_distinct(default, choices);
    assert(offered(default, choices)[0] == default);
    if choices.len() > 0 {
        let before = choices.drop_last();
        law_choices_are_offered(default, before);
        let rest = offered(default, before);
        let all = offered(default, choices);
        assert forall|k: int| 0 <= k < choices.len() implies all.contains(#[trigger] choices[k]) by {
            if k < before.len() {
                assert(before[k] == choices[k]);
                let j = rest.index_of(before[k]);
                assert(all[j] == before[k]);
            } else if !rest.contains(choices.last()) {
                assert(all[rest.len() as int] == choices[k]);
            }
        }
        assert forall|v: u32| #[trigger] all.contains(v) implies v == default || choices.contains(
            v,
        ) by {
            let j = all.index_of(v);
            if j < rest.len() && all[j] == rest[j] {
                assert(rest.contains(v));
                if before.contains(v) {
                    let k = before.index_of(v);
                    assert(choices[k] == v);
                }
            } else {
                assert(choices[choices.len() - 1] == v);
            }
        }
    }
}

/// The question for a number offers each value by its digits. The value that is picked comes out;
/// a typed one does where it is a number above 0, and nothing typed is the default.
pub proof fn law_number_question(
    prompt: Seq<char>,
    default: u32,
    choices: Seq<u32>,
    shown: Shown,
    replies: Seq<ReplyModel>,
    at: int,
    i: int,
    line: Seq<char>,
    n: u32,
)
    requires
        choices.len() < usize::MAX - 1,
    ensures
        ({
            let values = offered(default, choices);
            let r = number_asked(prompt, default, choices, shown, replies, at);
            let done = |v: u32, used: int| Ok::<StepModel<u32>, Seq<char>>(StepModel::Done(v, used));
            let typing = picks(replies, at, values.len() as int) && types(replies, at + 1, line);
            &&& at >= replies.len() ==> {
                &&& r is Ok && r->Ok_0 is Ask && r->Ok_0->Ask_0 is Menu
                &&& labels_asked(r).len() == values.len() + 1
                &&& 0 <= i < values.len() ==> labels_asked(r)[i] == decimal(values[i] as nat)
            }
            &&& picks(replies, at, i) && i < values.len() ==> r == done(values[i], at + 1)
            &&& typing && trimmed(line) == decimal(n as nat) && n > 0 ==> r == done(n, at + 2)
            &&& typing && trimmed(line).len() == 0 && default > 0 ==> r == done(default, at + 2)
            &&& typing && trimmed(line) == decimal(0) ==> r is Err
        }),
{
    lemma_offer_len(default, choices);
    lemma_number_of_decimal(n as nat);
    lemma_number_of_decimal(default as nat);
    lemma_number_of_decimal(0);
    lemma_decimal(n as nat);
    lemma_decimal(0);
}

proof fn lemma_offer_len(default: u32, choices: Seq<u32>)
    ensures
        1 <= offered(default, choices).len() <= choices.len() + 1,
    decreases choices.len(),
{
    if choices.len() > 0 {
        lemma_offer_len(default, choices.drop_last());
    }
}

/// The question for a format offers each by its label, and the one that is picked comes out.
pub proof fn law_format_question(
    prompt: Seq<char>,
    formats: Seq<OutputFormat>,
    shown: Shown,
    replies: Seq<ReplyModel>,
    at: int,
    i: int,
)
    requires
        0 <= i < formats.len() < usize::MAX - 1,
    ensures
        at >= replies.len() ==> {
            let asked = format_asked(prompt, formats, shown, replies, at);
            &&& asked is Ok && asked->Ok_0 is Ask && asked->Ok_0->Ask_0 is Menu
            &&& labels_asked(asked).len() == formats.len()
            &&& labels_asked(asked)[i] == format_label(formats[i])
        },
        picks(replies, at, i) ==> format_asked(prompt, formats, shown, replies, at) == Ok::<
            StepModel<Seq<char>>,
            Seq<char>,
        >(StepModel::Done(format_name(formats[i]), at + 1)),
{
}

/// The question for the formats of an input offers none, then each by its label, then to type
/// several. What is picked or typed comes out.
pub proof fn law_input_format_question(
    prompt: Seq<char>,
    formats: Seq<OutputFormat>,
    shown: Shown,
    replies: Seq<ReplyModel>,
    at: int,
    i: int,
    line: Seq<char>,
)
    requires
        0 <= i < formats.len() < usize::MAX - 1,
    ensures
        ({
            let r = input_format_asked(prompt, formats, shown, replies, at);
            let done = |v: Option<Seq<char>>, used: int|
                Ok::<StepModel<Option<Seq<char>>>, Seq<char>>(StepModel::Done(v, used));
            &&& at >= replies.len() ==> {
                &&& r is Ok && r->Ok_0 is Ask && r->Ok_0->Ask_0 is Menu
                &&& labels_asked(r).len() == formats.len() + 2
                &&& labels_asked(r)[i + 1] == format_label(formats[i])
            }
            &&& picks(replies, at, 0) ==> r == done(None, at + 1)
            &&& picks(replies, at, i + 1) ==> r == done(Some(format_name(formats[i])), at + 1)
            &&& picks(replies, at, formats.len() as int + 1) && types(replies, at + 1, line) && trimmed(
                line,
            ).len() > 0 ==> {
                &&& r is Err <==> format_list(trimmed(line)) is None
                &&& format_list(trimmed(line)) is Some ==> r == done(
                    Some(joined(format_list(trimmed(line))->0, "+"@)),
                    at + 2,
                )
            }
        }),
{
    if at >= replies.len() {
        let asked = input_format_asked(prompt, formats, shown, replies, at);
        assert(labels_asked(asked)[i + 1] == format_labels(formats)[i]);
    }
}

/// The question for a display offers the choices as they are written. The one that is picked
/// comes out; a typed one does where it can be read, and nothing typed is the default.
pub proof fn law_display_question(
    prompt: Seq<char>,
    choices: Seq<Seq<char>>,
    default: Seq<char>,
    shown: Shown,
    replies: Seq<ReplyModel>,
    at: int,
    i: int,
    line: Seq<char>,
)
    requires
        0 <= i < choices.len() < usize::MAX,
    ensures
        ({
            let r = display_asked(prompt, choices, default, shown, replies, at);
            let done = |v: Option<Seq<char>>, used: int|
                Ok::<StepModel<Option<Seq<char>>>, Seq<char>>(StepModel::Done(v, used));
            let typing = picks(replies, at, choices.len() as int) && types(replies, at + 1, line);
            &&& at >= replies.len() ==> {
                &&& r is Ok && r->Ok_0 is Ask && r->Ok_0->Ask_0 is Menu
                &&& labels_asked(r).len() == choices.len() + 1
                &&& labels_asked(r)[i] == choices[i]
            }
            &&& picks(replies, at, i) ==> r == done(Some(choices[i]), at + 1)
            &&& typing && trimmed(line).len() > 0 ==> {
                &&& r is Err <==> display_value(trimmed(line)) is Err
                &&& r is Ok ==> r == done(Some(trimmed(line)), at + 2)
            }
            &&& typing && trimmed(line).len() == 0 && display_value(default) is Ok ==> r == done(
                Some(default),
                at + 2,
            )
        }),
{
}

/// The rate that is picked comes out, and its label says as much: so many Hz, or every so many
/// seconds.
pub proof fn law_rate_question(
    prompt: Seq<char>,
    shown: Shown,
    replies: Seq<ReplyModel>,
    at: int,
    i: int,
)
    requires
        0 <= i < 8,
    ensures
        rate_choices().len() == 8,
        at >= replies.len() ==> {
            let asked = rate_asked(prompt, shown, replies, at);
            &&& asked is Ok && asked->Ok_0 is Ask && asked->Ok_0->Ask_0 is Menu
            &&& labels_asked(asked).len() == 9
            &&& i < 5 ==> labels_asked(asked)[i] == rate_choices()[i] + " Hz"@
            &&& i >= 5 ==> exists|rest: Seq<char>|
                labels_asked(asked)[i] == #[trigger] ("every "@ + rate_choices()[i] + " ("@ + rest)
        },
        picks(replies, at, i) ==> rate_asked(prompt, shown, replies, at) == Ok::<
            StepModel<Seq<char>>,
            Seq<char>,
        >(StepModel::Done(rate_choices()[i], at + 1)),
{
    let labels = rate_labels();
    lemma_rate_labels();
    if at >= replies.len() {
        let asked = rate_asked(prompt, shown, replies, at);
        assert(labels_asked(asked)[i] == labels[i]);
        if i >= 5 {
            let head = "every "@ + rate_choices()[i] + " ("@;
            let rest = labels[i].skip(head.len() as int);
            assert(labels[i] =~= head + rest);
        }
    }
}

proof fn lemma_rate_labels()
    ensures
        ({
            let labels = rate_labels();
            let values = rate_choices();
            &&& labels[0] == values[0] + " Hz"@
            &&& labels[1] == values[1] + " Hz"@
            &&& labels[2] == values[2] + " Hz"@
            &&& labels[3] == values[3] + " Hz"@
            &&& labels[4] == values[4] + " Hz"@
            &&& forall|i: int|
                5 <= i < 8 ==> {
                    let head = "every "@ + #[trigger] values[i] + " ("@;
                    labels[i].len() >= head.len() && labels[i].take(head.len() as int) == head
                }
        }),
{
    let labels = rate_labels();
    let values = rate_choices();
    reveal_strlit(" Hz");
    reveal_strlit("every ");
    reveal_strlit(" (");
    reveal_strlit("10");
    reveal_strlit("10 Hz");
    assert(labels[0] =~= values[0] + " Hz"@);
    reveal_strlit("50");
    reveal_strlit("50 Hz");
    assert(labels[1] =~= values[1] + " Hz"@);
    reveal_strlit("100");
    reveal_strlit("100 Hz");
    assert(labels[2] =~= values[2] + " Hz"@);
    reveal_strlit("20");
    reveal_strlit("20 Hz");
    assert(labels[3] =~= values[3] + " Hz"@);
    reveal_strlit("1");
    reveal_strlit("1 Hz");
    assert(labels[4] =~= values[4] + " Hz"@);
    reveal_strlit("2s");
    reveal_strlit("every 2s (0.5 Hz)");
    let two = "every "@ + values[5] + " ("@;
    assert(labels[5].take(two.len() as int) =~= two);
    reveal_strlit("3s");
    reveal_strlit("every 3s (0.333333 Hz)");
    let three = "every "@ + values[6] + " ("@;
    assert(labels[6].take(three.len() as int) =~= three);
    reveal_strlit("5s");
    reveal_strlit("every 5s (0.2 Hz)");
    let five = "every "@ + values[7] + " ("@;
    assert(labels[7].take(five.len() as int) =~= five);
}

// ---------------------------------------------------------------------------
// Whole bindings
// ---------------------------------------------------------------------------

/// A port and a baud rate as a binding writes them.
pub open spec fn port_at_baud(port: Seq<char>, baud: u32) -> Seq<char> {
    port + "@"@ + decimal(baud as nat)
}

/// The baud rates that are on offer.
pub open spec fn bauds() -> Seq<u32> {
    offered(115_200, baud_choices())
}

/// The picked port, baud rate, formats and display of an input of `io` make up its binding, in
/// the order port, baud rate, display, format.
pub proof fn law_io_input_questions(
    command: IoPromptModel,
    position: IoPromptPortPosition,
    ports: Seq<PortInfo>,
    replies: Seq<ReplyModel>,
    port: int,
    baud: int,
    format: int,
    display: int,
)
    requires
        0 <= port < ports.len() < usize::MAX,
        0 <= baud < bauds().len(),
        0 <= format <= format_choices().len(),
        0 <= display < display_choices(true).len(),
        picks(replies, 0, port),
        picks(replies, 1, baud),
        picks(replies, 2, format),
        picks(replies, 3, display),
    ensures
        input_binding_asked(command, position, ports, replies) == Ok::<
            StepModel<Seq<char>>,
            Seq<char>,
        >(
            StepModel::Done(
                port_at_baud(ports[port].name@, bauds()[baud]) + (","@ + display_choices(
                    true,
                )[display]) + (if format == 0 {
                    Seq::empty()
                } else {
                    ","@ + format_name(format_choices()[format - 1])
                }),
                4,
            ),
        ),
{
}

/// The picked port, baud rate, display, format and rate of an output of `io` make up its binding,
/// in this order.
pub proof fn law_io_output_questions(
    command: IoPromptModel,
    position: IoPromptPortPosition,
    ports: Seq<PortInfo>,
    replies: Seq<ReplyModel>,
    port: int,
    baud: int,
    display: int,
    format: int,
    rate: int,
)
    requires
        0 <= port < ports.len() < usize::MAX,
        0 <= baud < bauds().len(),
        0 <= display < display_choices(false).len(),
        0 <= format < format_choices().len(),
        0 <= rate < 8,
        picks(replies, 0, port),
        picks(replies, 1, baud),
        picks(replies, 2, display),
        picks(replies, 3, format),
        picks(replies, 4, rate),
    ensures
        output_binding_asked(command, position, ports, replies) == Ok::<
            StepModel<Seq<char>>,
            Seq<char>,
        >(
            StepModel::Done(
                port_at_baud(ports[port].name@, bauds()[baud]) + (","@ + display_choices(
                    false,
                )[display]) + (","@ + format_name(format_choices()[format])) + (","@
                    + rate_choices()[rate]),
                5,
            ),
        ),
{
}

/// The picked port, baud rate, formats and display of an input of `send` make up its binding; the
/// first display is the usual one and is left out.
pub proof fn law_send_input_questions(
    ports: Seq<PortInfo>,
    replies: Seq<ReplyModel>,
    port: int,
    baud: int,
    format: int,
    display: int,
)
    requires
        0 <= port < ports.len() < usize::MAX,
        0 <= baud < bauds().len(),
        0 <= format <= send_format_choices().len(),
        0 <= display < send_display_choices(true).len(),
        picks(replies, 0, port),
        picks(replies, 1, baud),
        picks(replies, 2, format),
        picks(replies, 3, display),
    ensures
        send_input_asked(ports, replies) == Ok::<StepModel<Seq<char>>, Seq<char>>(
            StepModel::Done(
                port_at_baud(ports[port].name@, bauds()[baud]) + (if display == 0 {
                    Seq::empty()
                } else {
                    ","@ + send_display_choices(true)[display]
                }) + (if format == 0 {
                    Seq::empty()
                } else {
                    ","@ + format_name(send_format_choices()[format - 1])
                }),
                4,
            ),
        ),
{
}

/// The picked port, baud rate, display, format and rate of an output of `send` make up its
/// binding; the first display is the usual one and is left out.
pub proof fn law_send_output_questions(
    ports: Seq<PortInfo>,
    replies: Seq<ReplyModel>,
    port: int,
    baud: int,
    display: int,
    format: int,
    rate: int,
)
    requires
        0 <= port < ports.len() < usize::MAX,
        0 <= baud < bauds().len(),
        0 <= display < send_display_choices(false).len(),
        0 <= format < send_format_choices().len(),
        0 <= rate < offered(10, send_rate_choices()).len(),
        picks(replies, 0, port),
        picks(replies, 1, baud),
        picks(replies, 2, display),
        picks(replies, 3, format),
        picks(replies, 4, rate),
    ensures
        send_output_asked(ports, replies) == Ok::<StepModel<Seq<char>>, Seq<char>>(
            StepModel::Done(
                port_at_baud(ports[port].name@, bauds()[baud]) + (if display == 0 {
                    Seq::empty()
                } else {
                    ","@ + send_display_choices(false)[display]
                }) + (","@ + format_name(send_format_choices()[format])) + (","@ + decimal(
                    offered(10, send_rate_choices())[rate] as nat,
                )),
                5,
            ),
        ),
{
}

/// The picked port, baud rate, formats and display of an input of `control` make up its binding.
pub proof fn law_control_monitor_questions(
    command: ControlCommandModel,
    ports: Seq<PortInfo>,
    replies: Seq<ReplyModel>,
    port: int,
    baud: int,
    format: int,
    display: int,
)
    requires
        0 <= port < ports.len() < usize::MAX,
        0 <= baud < bauds().len(),
        0 <= format <= format_choices().len(),
        0 <= display < display_choices(true).len(),
        picks(replies, 0, port),
        picks(replies, 1, baud),
        picks(replies, 2, format),
        picks(replies, 3, display),
    ensures
        control_monitor_asked(command, ports, replies) == Ok::<StepModel<Seq<char>>, Seq<char>>(
            StepModel::Done(
                port_at_baud(ports[port].name@, bauds()[baud]) + (","@ + display_choices(
                    true,
                )[display]) + (if format == 0 {
                    Seq::empty()
                } else {
                    ","@ + format_name(format_choices()[format - 1])
                }),
                4,
            ),
        ),
{
}

/// The picked port and baud rate of the output of `control` stand in its binding, and the picked
/// format, where one is asked for, beside it.
pub proof fn law_control_output_questions(
    command: ControlCommandModel,
    prompt_format: bool,
    ports: Seq<PortInfo>,
    replies: Seq<ReplyModel>,
    port: int,
    baud: int,
    display: int,
    format: int,
)
    requires
        0 <= port < ports.len() < usize::MAX,
        0 <= baud < bauds().len(),
        0 <= display < display_choices(false).len(),
        0 <= format < control_formats().len(),
        picks(replies, 0, port),
        picks(replies, 1, baud),
        picks(replies, 2, display),
        picks(replies, 3, format),
    ensures
        ({
            let r = control_output_asked(command, prompt_format, ports, replies);
            let head = port_at_baud(ports[port].name@, bauds()[baud]);
            let answer: OutputAnswer = r->Ok_0->Done_0;
            let mode = display_value(display_choices(false)[display]);
            &&& r is Err <==> mode is Err
            &&& r is Ok ==> {
                &&& r->Ok_0 is Done
                &&& r->Ok_0->Done_1 == if prompt_format { 4int } else { 3int }
                &&& answer.1 == if prompt_format {
                    Some(format_name(control_formats()[format]))
                } else {
                    None
                }
                &&& answer.0.len() >= head.len() && answer.0.take(head.len() as int) == head
                &&& mode->Ok_0.0 is None ==> answer.0 == head
            }
        }),
{
    let head = port_at_baud(ports[port].name@, bauds()[baud]);
    let r = control_output_asked(command, prompt_format, ports, replies);
    if r is Ok {
        let answer: OutputAnswer = r->Ok_0->Done_0;
        assert(answer.0.take(head.len() as int) =~= head);
    }
}

// ---------------------------------------------------------------------------
// Keys
// ---------------------------------------------------------------------------

/// A menu starts on a choice that it has, on the usual one where it has that, and on none where it
/// is empty.
pub proof fn law_menu_starts_on_a_choice(count: usize, default_index: usize)
    ensures
        count == 0 <==> started_on(count, default_index) is None,
        started_on(count, default_index) matches Some(at) ==> at < count && at <= default_index,
        default_index < count ==> started_on(count, default_index) == Some(default_index),
        0 < count <= default_index ==> started_on(count, default_index) == Some(
            (count - 1) as usize,
        ),
{
}

/// Enter picks, Ctrl-C ends, `k` and the arrow up go up, `j` and the arrow down go down, Escape
/// begins an arrow, and any other key changes nothing.
pub proof fn law_menu_keys(at: usize, count: usize, byte: u8, first: u8, second: u8)
    requires
        at < count,
    ensures
        key_pressed(at, count, byte) == MenuKey::Chosen <==> byte == 0x0D || byte == 0x0A,
        key_pressed(at, count, byte) == MenuKey::Interrupted <==> byte == 0x03,
        key_pressed(at, count, byte) == MenuKey::Escape <==> byte == 0x1B,
        at > 0 && byte == 'k' as u8 ==> key_pressed(at, count, byte) == MenuKey::Moved(
            (at - 1) as usize,
        ),
        at + 1 < count && byte == 'j' as u8 ==> key_pressed(at, count, byte) == MenuKey::Moved(
            (at + 1) as usize,
        ),
        key_pressed(at, count, byte) matches MenuKey::Moved(to) ==> to == at || byte == 'j' as u8
            || byte == 'k' as u8,
        at > 0 && first == '[' as u8 && second == 'A' as u8 ==> arrow_pressed(
            at,
            count,
            first,
            second,
        ) == at - 1,
        at + 1 < count && first == '[' as u8 && second == 'B' as u8 ==> arrow_pressed(
            at,
            count,
            first,
            second,
        ) == at + 1,
        arrow_pressed(at, count, first, second) != at ==> first == '[' as u8 && (second
            == 'A' as u8 || second == 'B' as u8),
{
}

/// A menu on the whole screen begins with its title, and with the command so far where there is
/// one; the choice that is on show differs from the others.
pub proof fn law_menu_on_the_screen(
    prompt: Seq<char>,
    preview: Option<Seq<char>>,
    label: Seq<char>,
)
    ensures
        holds(menu_head(prompt, preview)[0], prompt),
        preview is None ==> menu_head(prompt, preview).len() == 2,
        preview matches Some(command) ==> menu_head(prompt, preview).len() == 6 && holds(
            menu_head(prompt, preview)[4],
            command,
        ),
        holds(choice_line(label, true), label) && holds(choice_line(label, false), label),
        choice_line(label, true) != choice_line(label, false),
{
    broadcast use group_holds;

    reveal_strlit("\x1b[48;5;218m\x1b[30m  ");
    reveal_strlit("  ");
    let on = choice_line(label, true);
    let off = choice_line(label, false);
    assert(on[0] == '\x1b' && off[0] == ' ');
}

} // verus!

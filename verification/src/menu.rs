//! Questions to the user: menus, lines of text, and what answers to them mean.
use crate::args::{parse_u32_arg, u32_arg};
use crate::command_line::{format_list, parse_output_format_list};
use crate::commands::{or_unknown, PortInfo, PortKind};
use crate::display::{display_value, parse_display_value};
use crate::format::{format_label, format_name, OutputFormat};
use crate::io::NumberReading;
use crate::text::{
    cat2, cat3, cat4, cat5, decimal, decimal_text, hex_fixed, hex_text, is_blank, join, joined,
    number_up_to, parse_number, texts, trim, trimmed, viewed,
};
use vstd::prelude::*;

verus! {

// ---------------------------------------------------------------------------
// Questions and replies
// ---------------------------------------------------------------------------

/// What the user is asked.
#[derive(Debug)]
pub enum Question {
    /// One of several; each with the command line that it would make.
    Menu { title: String, labels: Vec<String>, previews: Vec<Option<String>> },
    /// A line of text; the default stands for an empty one.
    Text { prompt: String, default: Option<String>, preview: Option<String> },
    /// What a rate amounts to, which takes more than integers to tell.
    Rate { text: String },
}

#[verifier::ext_equal]
pub enum QuestionModel {
    Menu { title: Seq<char>, labels: Seq<Seq<char>>, previews: Seq<Option<Seq<char>>> },
    Text { prompt: Seq<char>, default: Option<Seq<char>>, preview: Option<Seq<char>> },
    Rate { text: Seq<char> },
}

impl DeepView for Question {
    type V = QuestionModel;

    open spec fn deep_view(&self) -> QuestionModel {
        match self {
            Question::Menu { title, labels, previews } => QuestionModel::Menu {
                title: title@,
                labels: labels.deep_view(),
                previews: previews.deep_view(),
            },
            Question::Text { prompt, default, preview } => QuestionModel::Text {
                prompt: prompt@,
                default: default.deep_view(),
                preview: preview.deep_view(),
            },
            Question::Rate { text } => QuestionModel::Rate { text: text@ },
        }
    }
}

/// What came back.
#[derive(Debug)]
pub enum Reply {
    Selected(usize),
    /// A line as it was typed.
    Typed(String),
    /// How the number of a rate reads, and the rate in its shortest form.
    Rate { reading: NumberReading, value: String },
}

#[verifier::ext_equal]
pub enum ReplyModel {
    Selected(usize),
    Typed(Seq<char>),
    Rate { reading: NumberReading, value: Seq<char> },
}

impl DeepView for Reply {
    type V = ReplyModel;

    open spec fn deep_view(&self) -> ReplyModel {
        match self {
            Reply::Selected(index) => ReplyModel::Selected(*index),
            Reply::Typed(line) => ReplyModel::Typed(line@),
            Reply::Rate { reading, value } => ReplyModel::Rate { reading: *reading, value: value@ },
        }
    }
}

/// A question that is open, or what the replies came to and how many of them are used.
#[derive(Debug)]
pub enum Step<T> {
    Ask(Question),
    Done(T, usize),
}

#[verifier::ext_equal]
pub enum StepModel<T> {
    Ask(QuestionModel),
    Done(T, int),
}

impl<T: DeepView> DeepView for Step<T> {
    type V = StepModel<T::V>;

    open spec fn deep_view(&self) -> StepModel<T::V> {
        match self {
            Step::Ask(question) => StepModel::Ask(question.deep_view()),
            Step::Done(value, used) => StepModel::Done(value.deep_view(), *used as int),
        }
    }
}

/// What replies make of a question.
pub type Asked<T> = Result<StepModel<T>, Seq<char>>;

/// Two questions one after the other: the second is asked where the first is answered.
pub open spec fn chained<A, B>(first: Asked<A>, second: spec_fn(A, int) -> Asked<B>) -> Asked<B> {
    match first {
        Err(e) => Err(e),
        Ok(StepModel::Ask(question)) => Ok(StepModel::Ask(question)),
        Ok(StepModel::Done(value, used)) => second(value, used),
    }
}

/// The choice that the reply at a position makes among so many.
pub open spec fn selection(replies: Seq<ReplyModel>, at: int, count: nat) -> Option<int> {
    if 0 <= at < replies.len() {
        match replies[at] {
            ReplyModel::Selected(index) if index < count => Some(index as int),
            _ => None,
        }
    } else {
        None
    }
}

pub fn selected(replies: &Vec<Reply>, at: usize, count: usize) -> (r: Option<usize>)
    ensures
        match r {
            Some(index) => index < count && at < replies.len() && selection(
                replies.deep_view(),
                at as int,
                count as nat,
            ) == Some(index as int),
            None => selection(replies.deep_view(), at as int, count as nat) is None,
        },
{
    if at >= replies.len() {
        return None;
    }
    assert(replies.deep_view()[at as int] == replies@[at as int].deep_view());
    match &replies[at] {
        Reply::Selected(index) => {
            if *index < count {
                Some(*index)
            } else {
                None
            }
        },
        _ => None,
    }
}

/// The value of a line: what it holds between blanks, or the default.
pub open spec fn entered(line: Seq<char>, default: Option<Seq<char>>) -> Result<
    Seq<char>,
    Seq<char>,
> {
    if trimmed(line).len() > 0 {
        Ok(trimmed(line))
    } else {
        match default {
            Some(default) => Ok(default),
            None => Err("empty value"@),
        }
    }
}

/// The value of a line that was typed.
pub fn entered_text(line: &str, default: Option<&str>) -> (r: Result<String, String>)
    ensures
        viewed(r) == entered(line@, default.deep_view()),
{
    if !is_blank(line) {
        return Ok(trim(line).to_owned());
    }
    match default {
        Some(default) => Ok(default.to_owned()),
        None => Err("empty value".to_owned()),
    }
}

/// A line of text.
pub open spec fn text_asked(
    prompt: Seq<char>,
    default: Option<Seq<char>>,
    preview: Option<Seq<char>>,
    replies: Seq<ReplyModel>,
    at: int,
) -> Asked<Seq<char>> {
    if 0 <= at < replies.len() && replies[at] is Typed {
        match entered(replies[at]->Typed_0, default) {
            Ok(value) => Ok(StepModel::Done(value, at + 1)),
            Err(e) => Err(e),
        }
    } else {
        Ok(StepModel::Ask(QuestionModel::Text { prompt, default, preview }))
    }
}

fn owned(text: Option<&str>) -> (r: Option<String>)
    ensures
        r.deep_view() == text.deep_view(),
{
    match text {
        Some(text) => Some(text.to_owned()),
        None => None,
    }
}

pub fn prompt_text(
    prompt: &str,
    default: Option<&str>,
    preview: Option<String>,
    replies: &Vec<Reply>,
    at: usize,
) -> (r: Result<Step<String>, String>)
    ensures
        viewed(r) == text_asked(
            prompt@,
            default.deep_view(),
            preview.deep_view(),
            replies.deep_view(),
            at as int,
        ),
{
    if at < replies.len() {
        assert(replies.deep_view()[at as int] == replies@[at as int].deep_view());
        if let Reply::Typed(line) = &replies[at] {
            let value = entered_text(line.as_str(), default)?;
            return Ok(Step::Done(value, at + 1));
        }
    }
    Ok(Step::Ask(Question::Text { prompt: prompt.to_owned(), default: owned(default), preview }))
}

// ---------------------------------------------------------------------------
// Previews
// ---------------------------------------------------------------------------

/// The command line that a candidate would make, where one is shown.
pub type Shown = spec_fn(Option<Seq<char>>) -> Option<Seq<char>>;

pub trait Preview {
    spec fn shown(&self) -> Shown;

    fn show(&self, candidate: Option<&str>) -> (r: Option<String>)
        ensures
            r.deep_view() == (self.shown())(candidate.deep_view()),
    ;
}

/// No command line is shown.
#[derive(Debug, Clone, Copy)]
pub struct NoPreview;

pub open spec fn nothing_shown() -> Shown {
    |candidate: Option<Seq<char>>| None
}

impl Preview for NoPreview {
    open spec fn shown(&self) -> Shown {
        nothing_shown()
    }

    fn show(&self, _candidate: Option<&str>) -> (r: Option<String>) {
        None
    }
}

/// A menu with what each of its choices would make.
pub open spec fn menu_question(
    title: Seq<char>,
    labels: Seq<Seq<char>>,
    candidates: Seq<Option<Seq<char>>>,
    shown: Shown,
) -> QuestionModel {
    QuestionModel::Menu { title, labels, previews: candidates.map_values(shown) }
}

/// Asks for one of several.
pub fn ask_menu<P: Preview>(
    title: &str,
    labels: Vec<String>,
    candidates: &Vec<Option<String>>,
    preview: &P,
) -> (question: Question)
    ensures
        question.deep_view() == menu_question(
            title@,
            labels.deep_view(),
            candidates.deep_view(),
            preview.shown(),
        ),
{
    let ghost all = candidates.deep_view();
    let mut previews: Vec<Option<String>> = Vec::new();
    let mut i: usize = 0;
    assert(previews.deep_view() =~= all.take(0).map_values(preview.shown()));
    while i < candidates.len()
        invariant
            i <= candidates.len(),
            all == candidates.deep_view(),
            previews.deep_view() == all.take(i as int).map_values(preview.shown()),
        decreases candidates.len() - i,
    {
        let candidate: Option<&str> = match &candidates[i] {
            Some(text) => Some(text.as_str()),
            None => None,
        };
        let ghost before = previews.deep_view();
        let shown = preview.show(candidate);
        let ghost m = shown.deep_view();
        previews.push(shown);
        proof {
            assert(candidate.deep_view() == all[i as int]);
            assert(previews.deep_view() =~= before.push(m));
            assert(all.take(i + 1).map_values(preview.shown()) =~= all.take(i as int).map_values(
                preview.shown(),
            ).push(m));
        }
        i += 1;
    }
    assert(all.take(i as int) == all);
    Question::Menu { title: title.to_owned(), labels, previews }
}

// ---------------------------------------------------------------------------
// Ports
// ---------------------------------------------------------------------------

pub open spec fn port_choice(port: PortInfo) -> Seq<char> {
    match port.kind {
        PortKind::Usb(info) => port.name@ + "  usb vid=0x"@ + hex_fixed(info.vendor_id as nat, 4)
            + " pid=0x"@ + hex_fixed(info.product_id as nat, 4) + (" product="@ + or_unknown(
            info.product,
        )),
        PortKind::Bluetooth => port.name@ + "  bluetooth"@,
        PortKind::Pci => port.name@ + "  pci"@,
        PortKind::Unknown => port.name@,
    }
}

fn describe_port_choice(port: &PortInfo) -> (r: String)
    ensures
        r@ == port_choice(*port),
{
    match &port.kind {
        PortKind::Usb(info) => {
            let vid = hex_text(info.vendor_id as u64, 4);
            let pid = hex_text(info.product_id as u64, 4);
            let product: &str = match &info.product {
                Some(product) => product.as_str(),
                None => "unknown",
            };
            let head = cat5(
                port.name.as_str(),
                "  usb vid=0x",
                vid.as_str(),
                " pid=0x",
                pid.as_str(),
            );
            let tail = cat2(" product=", product);
            cat2(head.as_str(), tail.as_str())
        },
        PortKind::Bluetooth => cat2(port.name.as_str(), "  bluetooth"),
        PortKind::Pci => cat2(port.name.as_str(), "  pci"),
        PortKind::Unknown => port.name.as_str().to_owned(),
    }
}

pub open spec fn maybe_numbered(numbered: bool, index: nat, text: Seq<char>) -> Seq<char> {
    if numbered {
        "["@ + decimal(index) + "] "@ + text
    } else {
        text
    }
}

fn number_label(numbered: bool, index: usize, text: &str) -> (r: String)
    ensures
        r@ == maybe_numbered(numbered, index as nat, text@),
{
    if numbered {
        let digits = decimal_text(index as u64);
        cat4("[", digits.as_str(), "] ", text)
    } else {
        text.to_owned()
    }
}

/// A port in a menu.
pub fn format_serial_port_choice(index: usize, port: &PortInfo) -> (r: String)
    ensures
        r@ == maybe_numbered(true, index as nat, port_choice(*port)),
{
    let text = describe_port_choice(port);
    number_label(true, index, text.as_str())
}

pub open spec fn port_labels(numbered: bool, ports: Seq<PortInfo>) -> Seq<Seq<char>> {
    Seq::new(
        ports.len(),
        |i: int| maybe_numbered(numbered, i as nat, port_choice(ports[i])),
    ).push(maybe_numbered(numbered, ports.len(), "手入力..."@))
}

pub open spec fn port_candidates(ports: Seq<PortInfo>) -> Seq<Option<Seq<char>>> {
    Seq::new(ports.len(), |i: int| Some(ports[i].name@)).push(Some("PORT"@))
}

/// A port: one of those that are there, or one that is typed.
pub open spec fn port_asked(
    prompt: Seq<char>,
    numbered: bool,
    ports: Seq<PortInfo>,
    shown: Shown,
    replies: Seq<ReplyModel>,
    at: int,
) -> Asked<Seq<char>> {
    if ports.len() == 0 {
        text_asked(prompt + ": "@, None, shown(Some("PORT"@)), replies, at)
    } else {
        match selection(replies, at, ports.len() + 1) {
            None => Ok(
                StepModel::Ask(
                    menu_question(
                        prompt,
                        port_labels(numbered, ports),
                        port_candidates(ports),
                        shown,
                    ),
                ),
            ),
            Some(index) => if index == ports.len() {
                text_asked("ポート名: "@, None, None, replies, at + 1)
            } else {
                Ok(StepModel::Done(ports[index].name@, at + 1))
            },
        }
    }
}

fn port_menu<P: Preview>(prompt: &str, numbered: bool, ports: &Vec<PortInfo>, preview: &P) -> (r:
    Question)
    ensures
        r.deep_view() == menu_question(
            prompt@,
            port_labels(numbered, ports@),
            port_candidates(ports@),
            preview.shown(),
        ),
{
    let mut labels: Vec<String> = Vec::new();
    let mut candidates: Vec<Option<String>> = Vec::new();
    let mut i: usize = 0;
    while i < ports.len()
        invariant
            i <= ports.len(),
            labels.len() == i,
            candidates.len() == i,
            forall|k: int|
                0 <= k < i ==> (#[trigger] labels@[k])@ == maybe_numbered(
                    numbered,
                    k as nat,
                    port_choice(ports@[k]),
                ),
            forall|k: int|
                0 <= k < i ==> (#[trigger] candidates@[k]).deep_view() == Some(ports@[k].name@),
        decreases ports.len() - i,
    {
        let text = describe_port_choice(&ports[i]);
        labels.push(number_label(numbered, i, text.as_str()));
        candidates.push(Some(ports[i].name.as_str().to_owned()));
        i += 1;
    }
    labels.push(number_label(numbered, ports.len(), "手入力..."));
    candidates.push(Some("PORT".to_owned()));
    assert(labels.deep_view() =~= port_labels(numbered, ports@));
    assert(candidates.deep_view() =~= port_candidates(ports@));
    ask_menu(prompt, labels, &candidates, preview)
}

/// Asks for a port, of those that are there.
pub fn prompt_serial_port_with_preview<P: Preview>(
    prompt: &str,
    numbered: bool,
    ports: &Vec<PortInfo>,
    preview: &P,
    replies: &Vec<Reply>,
    at: usize,
) -> (r: Result<Step<String>, String>)
    requires
        ports.len() < usize::MAX,
    ensures
        viewed(r) == port_asked(
            prompt@,
            numbered,
            ports@,
            preview.shown(),
            replies.deep_view(),
            at as int,
        ),
{
    if ports.len() == 0 {
        let text = cat2(prompt, ": ");
        let shown = preview.show(Some("PORT"));
        return prompt_text(text.as_str(), None, shown, replies, at);
    }
    match selected(replies, at, ports.len() + 1) {
        None => Ok(Step::Ask(port_menu(prompt, numbered, ports, preview))),
        Some(index) => {
            if index == ports.len() {
                prompt_text("ポート名: ", None, None, replies, at + 1)
            } else {
                Ok(Step::Done(ports[index].name.as_str().to_owned(), at + 1))
            }
        },
    }
}

// ---------------------------------------------------------------------------
// Numbers
// ---------------------------------------------------------------------------

/// The values on offer: the default, then the choices that are not there yet.
pub open spec fn offered(default: u32, choices: Seq<u32>) -> Seq<u32>
    decreases choices.len(),
{
    if choices.len() == 0 {
        seq![default]
    } else {
        let rest = offered(default, choices.drop_last());
        if rest.contains(choices.last()) {
            rest
        } else {
            rest.push(choices.last())
        }
    }
}

fn has_value(values: &Vec<u32>, value: u32) -> (r: bool)
    ensures
        r == values@.contains(value),
{
    let mut i: usize = 0;
    while i < values.len()
        invariant
            i <= values.len(),
            forall|k: int| 0 <= k < i ==> values@[k] != value,
        decreases values.len() - i,
    {
        if values[i] == value {
            return true;
        }
        i += 1;
    }
    false
}

fn offer(default: u32, choices: &[u32]) -> (values: Vec<u32>)
    requires
        choices.len() < usize::MAX - 1,
    ensures
        values@ == offered(default, choices@),
        values.len() <= choices.len() + 1,
{
    let mut values: Vec<u32> = Vec::new();
    values.push(default);
    let mut i: usize = 0;
    assert(choices@.take(0) =~= Seq::<u32>::empty());
    assert(values@ =~= offered(default, choices@.take(0)));
    while i < choices.len()
        invariant
            i <= choices.len(),
            values.len() <= i + 1,
            values@ == offered(default, choices@.take(i as int)),
        decreases choices.len() - i,
    {
        assert(choices@.take(i + 1).drop_last() == choices@.take(i as int));
        if !has_value(&values, choices[i]) {
            values.push(choices[i]);
        }
        i += 1;
    }
    assert(choices@.take(i as int) == choices@);
    values
}

/// No value is on offer twice, and the default comes first.
pub proof fn law_offers_are_distinct(default: u32, choices: Seq<u32>)
    ensures
        offered(default, choices).no_duplicates(),
        offered(default, choices).len() > 0,
        offered(default, choices)[0] == default,
    decreases choices.len(),
{
    if choices.len() > 0 {
        law_offers_are_distinct(default, choices.drop_last());
    }
}

pub open spec fn number_labels(values: Seq<u32>) -> Seq<Seq<char>> {
    Seq::new(values.len(), |i: int| decimal(values[i] as nat)).push("手入力..."@)
}

pub open spec fn number_candidates(values: Seq<u32>) -> Seq<Option<Seq<char>>> {
    Seq::new(values.len(), |i: int| Some(decimal(values[i] as nat))).push(Some("VALUE"@))
}

/// A number that was typed.
pub open spec fn positive_number(prompt: Seq<char>, typed: Seq<char>, used: int) -> Asked<u32> {
    match u32_arg(prompt, typed) {
        Err(e) => Err(e),
        Ok(n) => if n == 0 {
            Err(prompt + " must be greater than 0"@)
        } else {
            Ok(StepModel::Done(n, used))
        },
    }
}

/// A number: one of those on offer, or a positive one that is typed.
pub open spec fn number_asked(
    prompt: Seq<char>,
    default: u32,
    choices: Seq<u32>,
    shown: Shown,
    replies: Seq<ReplyModel>,
    at: int,
) -> Asked<u32> {
    let values = offered(default, choices);
    match selection(replies, at, values.len() + 1) {
        None => Ok(
            StepModel::Ask(
                menu_question(prompt, number_labels(values), number_candidates(values), shown),
            ),
        ),
        Some(index) => if index == values.len() {
            chained(
                text_asked(prompt + ": "@, Some(decimal(default as nat)), None, replies, at + 1),
                |typed: Seq<char>, used: int| positive_number(prompt, typed, used),
            )
        } else {
            Ok(StepModel::Done(values[index], at + 1))
        },
    }
}

fn number_menu<P: Preview>(prompt: &str, values: &Vec<u32>, preview: &P) -> (r: Question)
    ensures
        r.deep_view() == menu_question(
            prompt@,
            number_labels(values@),
            number_candidates(values@),
            preview.shown(),
        ),
{
    let mut labels: Vec<String> = Vec::new();
    let mut candidates: Vec<Option<String>> = Vec::new();
    let mut i: usize = 0;
    while i < values.len()
        invariant
            i <= values.len(),
            labels.len() == i,
            candidates.len() == i,
            forall|k: int|
                0 <= k < i ==> (#[trigger] labels@[k])@ == decimal(values@[k] as nat),
            forall|k: int|
                0 <= k < i ==> (#[trigger] candidates@[k]).deep_view() == Some(
                    decimal(values@[k] as nat),
                ),
        decreases values.len() - i,
    {
        labels.push(decimal_text(values[i] as u64));
        candidates.push(Some(decimal_text(values[i] as u64)));
        i += 1;
    }
    labels.push("手入力...".to_owned());
    candidates.push(Some("VALUE".to_owned()));
    assert(labels.deep_view() =~= number_labels(values@));
    assert(candidates.deep_view() =~= number_candidates(values@));
    ask_menu(prompt, labels, &candidates, preview)
}

pub fn prompt_u32_choice_with_preview<P: Preview>(
    prompt: &str,
    default: u32,
    choices: &[u32],
    preview: &P,
    replies: &Vec<Reply>,
    at: usize,
) -> (r: Result<Step<u32>, String>)
    requires
        choices.len() < usize::MAX - 1,
    ensures
        viewed(r) == number_asked(
            prompt@,
            default,
            choices@,
            preview.shown(),
            replies.deep_view(),
            at as int,
        ),
{
    let values = offer(default, choices);
    match selected(replies, at, values.len() + 1) {
        None => Ok(Step::Ask(number_menu(prompt, &values, preview))),
        Some(index) => {
            if index < values.len() {
                return Ok(Step::Done(values[index], at + 1));
            }
            let text = cat2(prompt, ": ");
            let digits = decimal_text(default as u64);
            match prompt_text(text.as_str(), Some(digits.as_str()), None, replies, at + 1)? {
                Step::Ask(question) => Ok(Step::Ask(question)),
                Step::Done(typed, used) => {
                    let parsed: u32 = parse_u32_arg(prompt, typed.as_str())?;
                    if parsed == 0 {
                        return Err(cat2(prompt, " must be greater than 0"));
                    }
                    Ok(Step::Done(parsed, used))
                },
            }
        },
    }
}

// ---------------------------------------------------------------------------
// Formats
// ---------------------------------------------------------------------------

pub open spec fn format_labels(formats: Seq<OutputFormat>) -> Seq<Seq<char>> {
    formats.map_values(|f: OutputFormat| format_label(f))
}

pub open spec fn format_candidates(formats: Seq<OutputFormat>) -> Seq<Option<Seq<char>>> {
    formats.map_values(|f: OutputFormat| Some(format_name(f)))
}

/// One of some formats, by its name.
pub open spec fn format_asked(
    prompt: Seq<char>,
    formats: Seq<OutputFormat>,
    shown: Shown,
    replies: Seq<ReplyModel>,
    at: int,
) -> Asked<Seq<char>> {
    match selection(replies, at, formats.len()) {
        None => Ok(
            StepModel::Ask(
                menu_question(prompt, format_labels(formats), format_candidates(formats), shown),
            ),
        ),
        Some(index) => Ok(StepModel::Done(format_name(formats[index]), at + 1)),
    }
}

/// Puts the formats behind the labels and the candidates.
fn push_formats(
    labels: &mut Vec<String>,
    candidates: &mut Vec<Option<String>>,
    formats: &Vec<OutputFormat>,
)
    ensures
        final(labels).deep_view() == old(labels).deep_view() + format_labels(formats@),
        final(candidates).deep_view() == old(candidates).deep_view() + format_candidates(formats@),
{
    let ghost l0 = labels.deep_view();
    let ghost c0 = candidates.deep_view();
    let mut i: usize = 0;
    assert(labels.deep_view() =~= l0 + format_labels(formats@.take(0)));
    assert(candidates.deep_view() =~= c0 + format_candidates(formats@.take(0)));
    while i < formats.len()
        invariant
            i <= formats.len(),
            labels.deep_view() == l0 + format_labels(formats@.take(i as int)),
            candidates.deep_view() == c0 + format_candidates(formats@.take(i as int)),
        decreases formats.len() - i,
    {
        let ghost l1 = labels.deep_view();
        let ghost c1 = candidates.deep_view();
        labels.push(formats[i].display_name().to_owned());
        candidates.push(Some(formats[i].as_str().to_owned()));
        proof {
            assert(labels.deep_view() =~= l1.push(format_label(formats@[i as int])));
            assert(candidates.deep_view() =~= c1.push(Some(format_name(formats@[i as int]))));
            assert(labels.deep_view() =~= l0 + format_labels(formats@.take(i + 1)));
            assert(candidates.deep_view() =~= c0 + format_candidates(formats@.take(i + 1)));
        }
        i += 1;
    }
    assert(formats@.take(i as int) == formats@);
}

pub fn prompt_format_of<P: Preview>(
    prompt: &str,
    formats: &Vec<OutputFormat>,
    preview: &P,
    replies: &Vec<Reply>,
    at: usize,
) -> (r: Result<Step<String>, String>)
    ensures
        viewed(r) == format_asked(
            prompt@,
            formats@,
            preview.shown(),
            replies.deep_view(),
            at as int,
        ),
{
    match selected(replies, at, formats.len()) {
        None => {
            let mut labels: Vec<String> = Vec::new();
            let mut candidates: Vec<Option<String>> = Vec::new();
            assert(labels.deep_view() =~= Seq::<Seq<char>>::empty());
            assert(candidates.deep_view() =~= Seq::<Option<Seq<char>>>::empty());
            push_formats(&mut labels, &mut candidates, formats);
            assert(labels.deep_view() =~= format_labels(formats@));
            assert(candidates.deep_view() =~= format_candidates(formats@));
            Ok(Step::Ask(ask_menu(prompt, labels, &candidates, preview)))
        },
        Some(index) => Ok(Step::Done(formats[index].as_str().to_owned(), at + 1)),
    }
}

pub open spec fn input_format_labels(formats: Seq<OutputFormat>) -> Seq<Seq<char>> {
    (seq!["raw (フォーマット指定なし)"@] + format_labels(formats)).push("複数/手入力..."@)
}

pub open spec fn input_format_candidates(formats: Seq<OutputFormat>) -> Seq<Option<Seq<char>>> {
    (seq![None::<Seq<char>>] + format_candidates(formats)).push(Some("FORMAT"@))
}

/// A list of formats that was typed.
pub open spec fn typed_formats(typed: Seq<char>, used: int) -> Asked<Option<Seq<char>>> {
    match format_list(typed) {
        None => Err("invalid input format list: "@ + typed),
        Some(names) => Ok(StepModel::Done(Some(joined(names, "+"@)), used)),
    }
}

/// The formats of an input: none, one of some, or several that are typed.
pub open spec fn input_format_asked(
    prompt: Seq<char>,
    formats: Seq<OutputFormat>,
    shown: Shown,
    replies: Seq<ReplyModel>,
    at: int,
) -> Asked<Option<Seq<char>>> {
    match selection(replies, at, formats.len() + 2) {
        None => Ok(
            StepModel::Ask(
                menu_question(
                    prompt,
                    input_format_labels(formats),
                    input_format_candidates(formats),
                    shown,
                ),
            ),
        ),
        Some(index) => if index == 0 {
            Ok(StepModel::Done(None, at + 1))
        } else if index == formats.len() + 1 {
            chained(
                text_asked(
                    "フォーマット (例: packetacv6+packetjfv1): "@,
                    None,
                    None,
                    replies,
                    at + 1,
                ),
                |typed: Seq<char>, used: int| typed_formats(typed, used),
            )
        } else {
            Ok(StepModel::Done(Some(format_name(formats[index - 1])), at + 1))
        },
    }
}

pub fn prompt_input_format_of<P: Preview>(
    prompt: &str,
    formats: &Vec<OutputFormat>,
    preview: &P,
    replies: &Vec<Reply>,
    at: usize,
) -> (r: Result<Step<Option<String>>, String>)
    requires
        formats.len() < usize::MAX - 1,
    ensures
        viewed(r) == input_format_asked(
            prompt@,
            formats@,
            preview.shown(),
            replies.deep_view(),
            at as int,
        ),
{
    match selected(replies, at, formats.len() + 2) {
        None => {
            let mut labels: Vec<String> = Vec::new();
            let mut candidates: Vec<Option<String>> = Vec::new();
            labels.push("raw (フォーマット指定なし)".to_owned());
            candidates.push(None);
            assert(labels.deep_view() =~= seq!["raw (フォーマット指定なし)"@]);
            assert(candidates.deep_view() =~= seq![None::<Seq<char>>]);
            push_formats(&mut labels, &mut candidates, formats);
            labels.push("複数/手入力...".to_owned());
            candidates.push(Some("FORMAT".to_owned()));
            assert(labels.deep_view() =~= input_format_labels(formats@));
            assert(candidates.deep_view() =~= input_format_candidates(formats@));
            Ok(Step::Ask(ask_menu(prompt, labels, &candidates, preview)))
        },
        Some(index) => {
            if index == 0 {
                return Ok(Step::Done(None, at + 1));
            }
            if index <= formats.len() {
                return Ok(Step::Done(Some(formats[index - 1].as_str().to_owned()), at + 1));
            }
            match prompt_text(
                "フォーマット (例: packetacv6+packetjfv1): ",
                None,
                None,
                replies,
                at + 1,
            )? {
                Step::Ask(question) => Ok(Step::Ask(question)),
                Step::Done(typed, used) => match parse_output_format_list(typed.as_str()) {
                    None => Err(cat2("invalid input format list: ", typed.as_str())),
                    Some(names) => {
                        assert(texts(names@) =~= names.deep_view());
                        Ok(Step::Done(Some(join(&names, "+")), used))
                    },
                },
            }
        },
    }
}

// ---------------------------------------------------------------------------
// Displays
// ---------------------------------------------------------------------------

/// A display value that was typed.
pub open spec fn typed_display(typed: Seq<char>, used: int) -> Asked<Option<Seq<char>>> {
    match display_value(typed) {
        Err(e) => Err(e),
        Ok(_) => Ok(StepModel::Done(Some(typed), used)),
    }
}

pub open spec fn display_candidates(choices: Seq<Seq<char>>) -> Seq<Option<Seq<char>>> {
    choices.map_values(|c: Seq<char>| Some(c)).push(Some("DISPLAY"@))
}

/// A display value: one of some, or one that is typed.
pub open spec fn display_asked(
    prompt: Seq<char>,
    choices: Seq<Seq<char>>,
    default: Seq<char>,
    shown: Shown,
    replies: Seq<ReplyModel>,
    at: int,
) -> Asked<Option<Seq<char>>> {
    match selection(replies, at, choices.len() + 1) {
        None => Ok(
            StepModel::Ask(
                menu_question(
                    prompt,
                    choices.push("手入力..."@),
                    display_candidates(choices),
                    shown,
                ),
            ),
        ),
        Some(index) => if index == choices.len() {
            chained(
                text_asked(prompt + ": "@, Some(default), None, replies, at + 1),
                |typed: Seq<char>, used: int| typed_display(typed, used),
            )
        } else {
            Ok(StepModel::Done(Some(choices[index]), at + 1))
        },
    }
}

pub fn prompt_display_of<P: Preview>(
    prompt: &str,
    choices: &Vec<String>,
    default: &str,
    preview: &P,
    replies: &Vec<Reply>,
    at: usize,
) -> (r: Result<Step<Option<String>>, String>)
    requires
        choices.len() < usize::MAX,
    ensures
        viewed(r) == display_asked(
            prompt@,
            choices.deep_view(),
            default@,
            preview.shown(),
            replies.deep_view(),
            at as int,
        ),
{
    let ghost all = choices.deep_view();
    match selected(replies, at, choices.len() + 1) {
        None => {
            let mut labels: Vec<String> = Vec::new();
            let mut candidates: Vec<Option<String>> = Vec::new();
            let mut i: usize = 0;
            while i < choices.len()
                invariant
                    i <= choices.len(),
                    labels.len() == i,
                    candidates.len() == i,
                    forall|k: int| 0 <= k < i ==> (#[trigger] labels@[k])@ == choices@[k]@,
                    forall|k: int|
                        0 <= k < i ==> (#[trigger] candidates@[k]).deep_view() == Some(
                            choices@[k]@,
                        ),
                decreases choices.len() - i,
            {
                labels.push(choices[i].as_str().to_owned());
                candidates.push(Some(choices[i].as_str().to_owned()));
                i += 1;
            }
            labels.push("手入力...".to_owned());
            candidates.push(Some("DISPLAY".to_owned()));
            assert(labels.deep_view() =~= all.push("手入力..."@));
            assert(candidates.deep_view() =~= display_candidates(all));
            Ok(Step::Ask(ask_menu(prompt, labels, &candidates, preview)))
        },
        Some(index) => {
            if index < choices.len() {
                return Ok(Step::Done(Some(choices[index].as_str().to_owned()), at + 1));
            }
            let text = cat2(prompt, ": ");
            match prompt_text(text.as_str(), Some(default), None, replies, at + 1)? {
                Step::Ask(question) => Ok(Step::Ask(question)),
                Step::Done(typed, used) => {
                    let _ = parse_display_value(typed.as_str())?;
                    Ok(Step::Done(Some(typed), used))
                },
            }
        },
    }
}

// ---------------------------------------------------------------------------
// Menus on a terminal
// ---------------------------------------------------------------------------

/// The choice that a menu starts on: the usual one, or the last where there are fewer.
pub open spec fn started_on(count: usize, default_index: usize) -> Option<usize> {
    if count == 0 {
        None
    } else if default_index < count {
        Some(default_index)
    } else {
        Some((count - 1) as usize)
    }
}

/// The choice that a menu starts on.
pub fn menu_start(prompt: &str, count: usize, default_index: usize) -> (r: Result<usize, String>)
    ensures
        r is Ok <==> started_on(count, default_index) is Some,
        r is Ok ==> started_on(count, default_index) == Some(r->Ok_0),
        match r {
            Ok(index) => count > 0 && index == if default_index < count {
                default_index as int
            } else {
                count - 1
            },
            Err(e) => count == 0 && e@ == prompt@ + ": no choices available"@,
        },
{
    if count == 0 {
        return Err(cat2(prompt, ": no choices available"));
    }
    Ok(
        if default_index < count {
            default_index
        } else {
            count - 1
        },
    )
}

/// The choice that a number makes, counted from one.
pub open spec fn numbered_choice(value: Seq<char>, count: nat) -> Result<int, Seq<char>> {
    match number_up_to(value, usize::MAX as nat) {
        None => Err("invalid selection: "@ + value),
        Some(n) => if n == 0 || n > count {
            Err("selection out of range: "@ + value)
        } else {
            Ok(n - 1)
        },
    }
}

pub fn choose_from_numbered_prompt(value: &str, count: usize) -> (r: Result<usize, String>)
    ensures
        match r {
            Ok(index) => numbered_choice(value@, count as nat) == Ok::<int, Seq<char>>(
                index as int,
            ),
            Err(e) => numbered_choice(value@, count as nat) == Err::<int, Seq<char>>(e@),
        },
{
    match parse_number(value, usize::MAX as u64) {
        None => Err(cat2("invalid selection: ", value)),
        Some(n) => {
            if n == 0 || n > count as u64 {
                return Err(cat2("selection out of range: ", value));
            }
            Ok((n - 1) as usize)
        },
    }
}

/// What a key does in a menu.
#[derive(Debug, Clone, Copy, PartialEq, Eq, Structural)]
pub enum MenuKey {
    /// The choice is made.
    Chosen,
    /// The menu is given up.
    Interrupted,
    /// Another choice, or the same, is on show.
    Moved(usize),
    /// Two more bytes tell which key it is.
    Escape,
}

pub open spec fn moved_up(at: usize) -> usize {
    if at == 0 {
        0
    } else {
        (at - 1) as usize
    }
}

pub open spec fn moved_down(at: usize, count: usize) -> usize {
    if at + 1 < count {
        (at + 1) as usize
    } else {
        at
    }
}

/// What a key does: Enter picks, Ctrl-C ends, `k` and `j` move, and Escape may begin an arrow.
pub open spec fn key_pressed(at: usize, count: usize, byte: u8) -> MenuKey {
    if byte == 13 || byte == 10 {
        MenuKey::Chosen
    } else if byte == 3 {
        MenuKey::Interrupted
    } else if byte == 107 {
        MenuKey::Moved(moved_up(at))
    } else if byte == 106 {
        MenuKey::Moved(moved_down(at, count))
    } else if byte == 27 {
        MenuKey::Escape
    } else {
        MenuKey::Moved(at)
    }
}

/// Carriage return or line feed chooses, Ctrl-C gives up, `k` and `j` move.
pub fn menu_key(at: usize, count: usize, byte: u8) -> (key: MenuKey)
    requires
        at < count,
    ensures
        key == key_pressed(at, count, byte),
        key == if byte == 13 || byte == 10 {
            MenuKey::Chosen
        } else if byte == 3 {
            MenuKey::Interrupted
        } else if byte == 107 {
            MenuKey::Moved(moved_up(at))
        } else if byte == 106 {
            MenuKey::Moved(moved_down(at, count))
        } else if byte == 27 {
            MenuKey::Escape
        } else {
            MenuKey::Moved(at)
        },
        key matches MenuKey::Moved(to) ==> to < count,
{
    if byte == 13 || byte == 10 {
        MenuKey::Chosen
    } else if byte == 3 {
        MenuKey::Interrupted
    } else if byte == 107 {
        MenuKey::Moved(
            if at == 0 {
                0
            } else {
                at - 1
            },
        )
    } else if byte == 106 {
        MenuKey::Moved(
            if at < count - 1 {
                at + 1
            } else {
                at
            },
        )
    } else if byte == 27 {
        MenuKey::Escape
    } else {
        MenuKey::Moved(at)
    }
}

/// Where an arrow moves to: the codes behind Escape are `[A` for up and `[B` for down.
pub open spec fn arrow_pressed(at: usize, count: usize, first: u8, second: u8) -> usize {
    if first == 91 && second == 65 {
        moved_up(at)
    } else if first == 91 && second == 66 {
        moved_down(at, count)
    } else {
        at
    }
}

/// The choice on show after an escape sequence: the arrow keys move.
pub fn menu_escape(at: usize, count: usize, first: u8, second: u8) -> (to: usize)
    requires
        at < count,
    ensures
        to == arrow_pressed(at, count, first, second),
        to == if first == 91 && second == 65 {
            moved_up(at)
        } else if first == 91 && second == 66 {
            moved_down(at, count)
        } else {
            at
        },
        to < count,
{
    if first == 91 && second == 65 {
        if at == 0 {
            0
        } else {
            at - 1
        }
    } else if first == 91 && second == 66 {
        if at < count - 1 {
            at + 1
        } else {
            at
        }
    } else {
        at
    }
}

/// The line of a choice: the one on show stands out.
pub open spec fn choice_line(label: Seq<char>, on_show: bool) -> Seq<char> {
    if on_show {
        "\x1b[48;5;218m\x1b[30m  "@ + label + "\x1b[K\x1b[0m"@
    } else {
        "  "@ + label
    }
}

pub open spec fn menu_head(prompt: Seq<char>, preview: Option<Seq<char>>) -> Seq<Seq<char>> {
    let title = seq![
        "\x1b[47m\x1b[30m "@ + prompt + "\x1b[K\x1b[0m"@,
        "↑/↓ で選択、Enter で決定"@,
    ];
    match preview {
        Some(command) => title + seq![""@, "現在のコマンド:"@, "  "@ + command, ""@],
        None => title,
    }
}

/// The lines of a menu.
pub fn render_menu(prompt: &str, labels: &Vec<String>, at: usize, preview: Option<&str>) -> (lines:
    Vec<String>)
    ensures
        lines.deep_view() == menu_head(prompt@, preview.deep_view()) + Seq::new(
            labels.len() as nat,
            |i: int| choice_line(labels@[i]@, i == at),
        ),
{
    let mut lines: Vec<String> = Vec::new();
    lines.push(cat3("\x1b[47m\x1b[30m ", prompt, "\x1b[K\x1b[0m"));
    lines.push("↑/↓ で選択、Enter で決定".to_owned());
    if let Some(command) = preview {
        lines.push("".to_owned());
        lines.push("現在のコマンド:".to_owned());
        lines.push(cat2("  ", command));
        lines.push("".to_owned());
    }
    let ghost head = lines.deep_view();
    assert(head =~= menu_head(prompt@, preview.deep_view()));
    let mut i: usize = 0;
    assert(lines.deep_view() =~= head + Seq::new(
        0,
        |k: int| choice_line(labels@[k]@, k == at),
    ));
    while i < labels.len()
        invariant
            i <= labels.len(),
            lines.deep_view() == head + Seq::new(
                i as nat,
                |k: int| choice_line(labels@[k]@, k == at),
            ),
        decreases labels.len() - i,
    {
        let ghost before = lines.deep_view();
        if i == at {
            lines.push(
                cat3("\x1b[48;5;218m\x1b[30m  ", labels[i].as_str(), "\x1b[K\x1b[0m"),
            );
        } else {
            lines.push(cat2("  ", labels[i].as_str()));
        }
        proof {
            assert(lines.deep_view() =~= before.push(choice_line(labels@[i as int]@, i == at)));
            assert(lines.deep_view() =~= head + Seq::new(
                (i + 1) as nat,
                |k: int| choice_line(labels@[k]@, k == at),
            ));
        }
        i += 1;
    }
    lines
}

/// The line of a choice in a plain menu: the one on show stands out, behind a mark.
pub open spec fn plain_choice_line(label: Seq<char>, on_show: bool) -> Seq<char> {
    if on_show {
        "\x1b[48;5;218m\x1b[30m> "@ + label + "\x1b[0m"@
    } else {
        "  "@ + label
    }
}

/// The lines of a plain menu, which shows no command.
pub open spec fn plain_menu(prompt: Seq<char>, labels: Seq<Seq<char>>, at: int) -> Seq<Seq<char>> {
    seq![prompt, "↑/↓ で選択、Enter で決定"@] + labels.map(
        |i: int, label: Seq<char>| plain_choice_line(label, i == at),
    )
}

/// The lines of a menu that shows no command.
pub fn render_plain_menu(prompt: &str, labels: &Vec<String>, at: usize) -> (lines: Vec<String>)
    ensures
        lines.deep_view() == plain_menu(prompt@, labels.deep_view(), at as int),
{
    let ghost all = labels.deep_view();
    let mut lines: Vec<String> = Vec::new();
    lines.push(prompt.to_owned());
    lines.push("↑/↓ で選択、Enter で決定".to_owned());
    let mut i: usize = 0;
    assert(lines.deep_view() =~= plain_menu(prompt@, all.take(0), at as int));
    while i < labels.len()
        invariant
            i <= labels.len(),
            all == labels.deep_view(),
            lines.deep_view() == plain_menu(prompt@, all.take(i as int), at as int),
        decreases labels.len() - i,
    {
        let ghost before = lines.deep_view();
        let label = labels[i].as_str();
        let line = if i == at {
            cat3("\x1b[48;5;218m\x1b[30m> ", label, "\x1b[0m")
        } else {
            cat2("  ", label)
        };
        let ghost shown = line@;
        lines.push(line);
        proof {
            assert(all[i as int] == label@);
            assert(lines.deep_view() =~= before.push(shown));
            assert(lines.deep_view() =~= plain_menu(prompt@, all.take(i + 1), at as int));
        }
        i += 1;
    }
    assert(all.take(i as int) == all);
    lines
}

/// The line of a choice with its number, counted from one.
pub open spec fn numbered_line(i: int, label: Seq<char>) -> Seq<char> {
    "  "@ + decimal((i + 1) as nat) + ". "@ + label
}

pub open spec fn shown_command(preview: Option<Seq<char>>) -> Seq<Seq<char>> {
    match preview {
        Some(command) => seq!["現在のコマンド:"@, "  "@ + command],
        None => Seq::empty(),
    }
}

/// The lines of a menu whose choices are made by number, and of the command so far.
pub open spec fn numbered_menu(
    prompt: Seq<char>,
    labels: Seq<Seq<char>>,
    preview: Option<Seq<char>>,
) -> Seq<Seq<char>> {
    seq![prompt] + labels.map(|i: int, label: Seq<char>| numbered_line(i, label)) + shown_command(
        preview,
    )
}

pub fn render_numbered_menu(prompt: &str, labels: &Vec<String>, preview: Option<&str>) -> (lines:
    Vec<String>)
    ensures
        lines.deep_view() == numbered_menu(prompt@, labels.deep_view(), preview.deep_view()),
{
    let ghost all = labels.deep_view();
    let mut lines: Vec<String> = Vec::new();
    lines.push(prompt.to_owned());
    let mut i: usize = 0;
    assert(lines.deep_view() =~= numbered_menu(prompt@, all.take(0), None));
    while i < labels.len()
        invariant
            i <= labels.len(),
            all == labels.deep_view(),
            lines.deep_view() == numbered_menu(prompt@, all.take(i as int), None),
        decreases labels.len() - i,
    {
        let ghost before = lines.deep_view();
        let number = decimal_text(i as u64 + 1);
        let line = cat4("  ", number.as_str(), ". ", labels[i].as_str());
        let ghost shown = line@;
        lines.push(line);
        proof {
            assert(all[i as int] == labels@[i as int]@);
            assert(lines.deep_view() =~= before.push(shown));
            assert(lines.deep_view() =~= numbered_menu(prompt@, all.take(i + 1), None));
        }
        i += 1;
    }
    assert(all.take(i as int) == all);
    let ghost listed = lines.deep_view();
    if let Some(command) = preview {
        lines.push("現在のコマンド:".to_owned());
        lines.push(cat2("  ", command));
    }
    assert(lines.deep_view() =~= listed + shown_command(preview.deep_view()));
    assert(lines.deep_view() =~= numbered_menu(prompt@, all, preview.deep_view()));
    lines
}

} // verus!

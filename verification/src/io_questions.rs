//! `io`: the questions that make up a binding.
use crate::args::default_baud_rate;
use crate::command_line::{
    command_text, format_io_input_binding, format_prompt_io_input_binding,
    format_prompt_io_output_binding, input_binding_text, output_binding_text, push_word,
};
use crate::commands::PortInfo;
use crate::format::OutputFormat;
use crate::io::{rate_number, rate_parts, send_rate, IoSendRate, NumberReadings};
use crate::io_prompt::{
    IoPromptBindingPreview, IoPromptCommand, IoPromptModel, IoPromptPortPosition, PreviewModel,
};
use crate::menu::{
    ask_menu, chained, display_asked, format_asked, input_format_asked, menu_question, number_asked,
    port_asked, prompt_display_of, prompt_format_of, prompt_input_format_of,
    prompt_serial_port_with_preview, prompt_text, prompt_u32_choice_with_preview, selected,
    selection, text_asked, Asked, Preview, Question, QuestionModel, Reply, ReplyModel, Shown, Step,
    StepModel,
};
use crate::table::entries;
use crate::text::{cat2, decimal, decimal_text, lower, trimmed, viewed};
use vstd::prelude::*;

verus! {

// ---------------------------------------------------------------------------
// A binding in the making
// ---------------------------------------------------------------------------

/// A part of a binding.
#[derive(Debug, Clone, Copy, PartialEq, Eq, Structural)]
pub enum Slot {
    Port,
    Baud,
    Display,
    Format,
    Rate,
}

/// The parts of a binding that are settled.
#[derive(Debug)]
pub struct Draft {
    pub port: Option<String>,
    pub baud: Option<String>,
    pub display: Option<String>,
    pub format: Option<String>,
}

#[verifier::ext_equal]
pub struct DraftModel {
    pub port: Option<Seq<char>>,
    pub baud: Option<Seq<char>>,
    pub display: Option<Seq<char>>,
    pub format: Option<Seq<char>>,
}

impl DeepView for Draft {
    type V = DraftModel;

    open spec fn deep_view(&self) -> DraftModel {
        DraftModel {
            port: self.port.deep_view(),
            baud: self.baud.deep_view(),
            display: self.display.deep_view(),
            format: self.format.deep_view(),
        }
    }
}

/// The text of a part that may be missing.
pub open spec fn or_empty(text: Option<Seq<char>>) -> Seq<char> {
    match text {
        Some(text) => text,
        None => seq![],
    }
}

impl DraftModel {
    pub open spec fn empty() -> DraftModel {
        DraftModel { port: None, baud: None, display: None, format: None }
    }

    /// The draft with a candidate for one of its parts; a rate is no part of it.
    pub open spec fn with(self, slot: Slot, candidate: Option<Seq<char>>) -> DraftModel {
        match slot {
            Slot::Port => DraftModel { port: candidate, ..self },
            Slot::Baud => DraftModel { baud: candidate, ..self },
            Slot::Display => DraftModel { display: candidate, ..self },
            Slot::Format => DraftModel { format: candidate, ..self },
            Slot::Rate => self,
        }
    }

    /// The binding as far as it is settled.
    pub open spec fn text(self) -> Seq<char> {
        input_binding_text(or_empty(self.port), self.baud, self.display, self.format)
    }
}

fn as_text(text: &Option<String>) -> (r: Option<&str>)
    ensures
        r.deep_view() == text.deep_view(),
{
    match text {
        Some(text) => Some(text.as_str()),
        None => None,
    }
}

impl Draft {
    pub fn new() -> (draft: Draft)
        ensures
            draft.deep_view() == DraftModel::empty(),
    {
        Draft { port: None, baud: None, display: None, format: None }
    }

    /// The binding with a candidate for one of its parts.
    pub fn text_with(&self, slot: Slot, candidate: Option<&str>) -> (r: String)
        ensures
            r@ == self.deep_view().with(slot, candidate.deep_view()).text(),
    {
        let port: Option<&str> = match slot {
            Slot::Port => candidate,
            _ => as_text(&self.port),
        };
        let baud: Option<&str> = match slot {
            Slot::Baud => candidate,
            _ => as_text(&self.baud),
        };
        let display: Option<&str> = match slot {
            Slot::Display => candidate,
            _ => as_text(&self.display),
        };
        let format: Option<&str> = match slot {
            Slot::Format => candidate,
            _ => as_text(&self.format),
        };
        match port {
            Some(port) => format_prompt_io_input_binding(port, baud, display, format),
            None => {
                proof {
                    reveal_strlit("");
                    assert(""@ =~= Seq::<char>::empty());
                }
                format_prompt_io_input_binding("", baud, display, format)
            },
        }
    }
}

/// The binding with a candidate for one of its parts, behind its rate where that is the part.
pub open spec fn candidate_binding(
    draft: DraftModel,
    slot: Slot,
    candidate: Option<Seq<char>>,
) -> Seq<char> {
    if slot == Slot::Rate {
        output_binding_text(
            or_empty(draft.port),
            draft.baud,
            draft.display,
            draft.format,
            candidate,
        )
    } else {
        draft.with(slot, candidate).text()
    }
}

fn binding_with(draft: &Draft, slot: Slot, candidate: Option<&str>) -> (r: String)
    ensures
        r@ == candidate_binding(draft.deep_view(), slot, candidate.deep_view()),
{
    if slot == Slot::Rate {
        let port: &str = match &draft.port {
            Some(port) => port.as_str(),
            None => {
                proof {
                    reveal_strlit("");
                    assert(""@ =~= Seq::<char>::empty());
                }
                ""
            },
        };
        format_prompt_io_output_binding(
            port,
            as_text(&draft.baud),
            as_text(&draft.display),
            as_text(&draft.format),
            candidate,
        )
    } else {
        draft.text_with(slot, candidate)
    }
}

/// The command line that a candidate for a part of a binding would make.
pub open spec fn io_shown(command: IoPromptModel, output: bool, draft: DraftModel, slot: Slot) -> Shown {
    |candidate: Option<Seq<char>>|
        {
            let binding = candidate_binding(draft, slot, candidate);
            Some(
                command_text(
                    command.words(
                        Some(
                            if output {
                                PreviewModel::Output(binding)
                            } else {
                                PreviewModel::Input(binding)
                            },
                        ),
                    ),
                ),
            )
        }
}

struct IoPreview<'a> {
    command: &'a IoPromptCommand,
    output: bool,
    draft: &'a Draft,
    slot: Slot,
}

impl<'a> Preview for IoPreview<'a> {
    closed spec fn shown(&self) -> Shown {
        io_shown(self.command.deep_view(), self.output, self.draft.deep_view(), self.slot)
    }

    fn show(&self, candidate: Option<&str>) -> (r: Option<String>) {
        let binding = binding_with(self.draft, self.slot, candidate);
        let preview = if self.output {
            IoPromptBindingPreview::Output(binding.as_str())
        } else {
            IoPromptBindingPreview::Input(binding.as_str())
        };
        Some(self.command.render(Some(preview)))
    }
}

// ---------------------------------------------------------------------------
// Choices
// ---------------------------------------------------------------------------

pub open spec fn baud_choices() -> Seq<u32> {
    seq![115_200, 921_600, 460_800, 230_400, 57_600, 38_400, 9_600]
}

pub open spec fn format_choices() -> Seq<OutputFormat> {
    seq![
        OutputFormat::PacketAcV6,
        OutputFormat::PacketAcV6Usb,
        OutputFormat::PacketMv1,
        OutputFormat::PacketIv1,
        OutputFormat::PacketBv1,
        OutputFormat::PacketGcV1,
        OutputFormat::PacketJfV1,
        OutputFormat::PacketUfV2,
        OutputFormat::RoverUpGeneral,
        OutputFormat::RoverDownGeneral,
    ]
}

pub fn output_format_choices() -> (formats: Vec<OutputFormat>)
    ensures
        formats@ == format_choices(),
{
    let formats: Vec<OutputFormat> = vec![
        OutputFormat::PacketAcV6,
        OutputFormat::PacketAcV6Usb,
        OutputFormat::PacketMv1,
        OutputFormat::PacketIv1,
        OutputFormat::PacketBv1,
        OutputFormat::PacketGcV1,
        OutputFormat::PacketJfV1,
        OutputFormat::PacketUfV2,
        OutputFormat::RoverUpGeneral,
        OutputFormat::RoverDownGeneral,
    ];
    assert(formats@ =~= format_choices());
    formats
}

/// Asks for a baud rate.
pub fn prompt_baud<P: Preview>(prompt: &str, preview: &P, replies: &Vec<Reply>, at: usize) -> (r:
    Result<Step<u32>, String>)
    ensures
        viewed(r) == number_asked(
            prompt@,
            115_200,
            baud_choices(),
            preview.shown(),
            replies.deep_view(),
            at as int,
        ),
{
    let choices: [u32; 7] = [115_200, 921_600, 460_800, 230_400, 57_600, 38_400, 9_600];
    assert(choices@ =~= baud_choices());
    prompt_u32_choice_with_preview(prompt, default_baud_rate(), &choices, preview, replies, at)
}

pub fn prompt_output_format_with_title_and_preview<P: Preview>(
    prompt: &str,
    preview: &P,
    replies: &Vec<Reply>,
    at: usize,
) -> (r: Result<Step<String>, String>)
    ensures
        viewed(r) == format_asked(
            prompt@,
            format_choices(),
            preview.shown(),
            replies.deep_view(),
            at as int,
        ),
{
    let formats = output_format_choices();
    prompt_format_of(prompt, &formats, preview, replies, at)
}

pub fn prompt_input_format_with_title_and_preview<P: Preview>(
    prompt: &str,
    preview: &P,
    replies: &Vec<Reply>,
    at: usize,
) -> (r: Result<Step<Option<String>>, String>)
    ensures
        viewed(r) == input_format_asked(
            prompt@,
            format_choices(),
            preview.shown(),
            replies.deep_view(),
            at as int,
        ),
{
    let formats = output_format_choices();
    prompt_input_format_of(prompt, &formats, preview, replies, at)
}

pub fn prompt_input_format_with_preview<P: Preview>(preview: &P, replies: &Vec<Reply>, at: usize) -> (r:
    Result<Step<Option<String>>, String>)
    ensures
        viewed(r) == input_format_asked(
            "受信フォーマット"@,
            format_choices(),
            preview.shown(),
            replies.deep_view(),
            at as int,
        ),
{
    prompt_input_format_with_title_and_preview("受信フォーマット", preview, replies, at)
}

/// The display values on offer; those for inputs may break lines.
pub open spec fn display_choices(input: bool) -> Seq<Seq<char>> {
    let both = seq!["hex"@, "ascii"@, "utf8"@, "hex+ascii"@, "hex+utf8"@];
    if input {
        both + seq!["ascii+crlf"@, "utf8+crlf"@, "hex+packet"@, "utf8+packet"@, "hex+utf8+wrap"@]
    } else {
        both
    }
}

pub fn prompt_display_mode_with_preview<P: Preview>(
    prompt: &str,
    input: bool,
    preview: &P,
    replies: &Vec<Reply>,
    at: usize,
) -> (r: Result<Step<Option<String>>, String>)
    ensures
        viewed(r) == display_asked(
            prompt@,
            display_choices(input),
            "hex"@,
            preview.shown(),
            replies.deep_view(),
            at as int,
        ),
{
    let mut choices: Vec<String> = Vec::new();
    push_word(&mut choices, "hex");
    push_word(&mut choices, "ascii");
    push_word(&mut choices, "utf8");
    push_word(&mut choices, "hex+ascii");
    push_word(&mut choices, "hex+utf8");
    if input {
        push_word(&mut choices, "ascii+crlf");
        push_word(&mut choices, "utf8+crlf");
        push_word(&mut choices, "hex+packet");
        push_word(&mut choices, "utf8+packet");
        push_word(&mut choices, "hex+utf8+wrap");
    }
    assert(choices.deep_view() =~= display_choices(input));
    assert(choices.deep_view().len() == choices.len());
    prompt_display_of(prompt, &choices, "hex", preview, replies, at)
}

// ---------------------------------------------------------------------------
// Rates
// ---------------------------------------------------------------------------

/// The rates on offer.
pub open spec fn rate_choices() -> Seq<Seq<char>> {
    seq!["10"@, "50"@, "100"@, "20"@, "1"@, "2s"@, "3s"@, "5s"@]
}

/// What the rates on offer amount to.
pub open spec fn rate_labels() -> Seq<Seq<char>> {
    seq![
        "10 Hz"@,
        "50 Hz"@,
        "100 Hz"@,
        "20 Hz"@,
        "1 Hz"@,
        "every 2s (0.5 Hz)"@,
        "every 3s (0.333333 Hz)"@,
        "every 5s (0.2 Hz)"@,
    ]
}

pub open spec fn rate_candidates() -> Seq<Option<Seq<char>>> {
    rate_choices().push("10"@).map_values(|c: Seq<char>| Some(c))
}

/// A rate that was typed, in its shortest form.
pub open spec fn typed_rate(
    prompt: Seq<char>,
    typed: Seq<char>,
    replies: Seq<ReplyModel>,
    at: int,
) -> Asked<Seq<char>> {
    if 0 <= at < replies.len() && replies[at] is Rate {
        match send_rate(
            prompt,
            typed,
            seq![(rate_parts(lower(trimmed(typed))).0, replies[at]->reading)],
        ) {
            Ok(_) => Ok(StepModel::Done(replies[at]->value, at + 1)),
            Err(e) => Err(e),
        }
    } else {
        Ok(StepModel::Ask(QuestionModel::Rate { text: typed }))
    }
}

/// A rate: one of those on offer, or one that is typed.
pub open spec fn rate_asked(
    prompt: Seq<char>,
    shown: Shown,
    replies: Seq<ReplyModel>,
    at: int,
) -> Asked<Seq<char>> {
    match selection(replies, at, 9) {
        None => Ok(
            StepModel::Ask(
                menu_question(prompt, rate_labels().push("手入力..."@), rate_candidates(), shown),
            ),
        ),
        Some(index) => if index == 8 {
            chained(
                text_asked(
                    prompt + " (例: 10, 0.5, 2s): "@,
                    Some("10"@),
                    None,
                    replies,
                    at + 1,
                ),
                |typed: Seq<char>, used: int| typed_rate(prompt, typed, replies, used),
            )
        } else {
            Ok(StepModel::Done(rate_choices()[index], at + 1))
        },
    }
}

fn offered_rates() -> (rates: Vec<String>)
    ensures
        rates.deep_view() == rate_choices(),
        rates.len() == 8,
{
    let mut rates: Vec<String> = Vec::new();
    push_word(&mut rates, "10");
    push_word(&mut rates, "50");
    push_word(&mut rates, "100");
    push_word(&mut rates, "20");
    push_word(&mut rates, "1");
    push_word(&mut rates, "2s");
    push_word(&mut rates, "3s");
    push_word(&mut rates, "5s");
    assert(rates.deep_view() =~= rate_choices());
    assert(rates.deep_view().len() == rates.len());
    rates
}

fn rate_menu<P: Preview>(prompt: &str, preview: &P) -> (r: Question)
    ensures
        r.deep_view() == menu_question(
            prompt@,
            rate_labels().push("手入力..."@),
            rate_candidates(),
            preview.shown(),
        ),
{
    let mut labels: Vec<String> = Vec::new();
    push_word(&mut labels, "10 Hz");
    push_word(&mut labels, "50 Hz");
    push_word(&mut labels, "100 Hz");
    push_word(&mut labels, "20 Hz");
    push_word(&mut labels, "1 Hz");
    push_word(&mut labels, "every 2s (0.5 Hz)");
    push_word(&mut labels, "every 3s (0.333333 Hz)");
    push_word(&mut labels, "every 5s (0.2 Hz)");
    push_word(&mut labels, "手入力...");
    assert(labels.deep_view() =~= rate_labels().push("手入力..."@));
    let mut rates = offered_rates();
    push_word(&mut rates, "10");
    let ghost all = rates.deep_view();
    assert(all =~= rate_choices().push("10"@));
    let mut candidates: Vec<Option<String>> = Vec::new();
    let mut i: usize = 0;
    while i < rates.len()
        invariant
            i <= rates.len(),
            candidates.len() == i,
            all == rates.deep_view(),
            forall|k: int| 0 <= k < i ==> (#[trigger] candidates@[k]).deep_view() == Some(all[k]),
        decreases rates.len() - i,
    {
        candidates.push(Some(rates[i].as_str().to_owned()));
        i += 1;
    }
    assert(candidates.deep_view() =~= rate_candidates());
    ask_menu(prompt, labels, &candidates, preview)
}

fn take_typed_rate(prompt: &str, typed: String, replies: &Vec<Reply>, at: usize) -> (r: Result<
    Step<String>,
    String,
>)
    ensures
        viewed(r) == typed_rate(prompt@, typed@, replies.deep_view(), at as int),
{
    if at < replies.len() {
        assert(replies.deep_view()[at as int] == replies@[at as int].deep_view());
        if let Reply::Rate { reading, value } = &replies[at] {
            let number = rate_number(typed.as_str());
            let ghost n = number@;
            let mut readings: NumberReadings = Vec::new();
            readings.push((number, *reading));
            assert(entries(readings@) =~= seq![(n, *reading)]);
            let _ = IoSendRate::parse(prompt, typed.as_str(), &readings)?;
            return Ok(Step::Done(value.as_str().to_owned(), at + 1));
        }
    }
    Ok(Step::Ask(Question::Rate { text: typed }))
}

pub fn prompt_io_send_rate_with_preview<P: Preview>(
    prompt: &str,
    preview: &P,
    replies: &Vec<Reply>,
    at: usize,
) -> (r: Result<Step<String>, String>)
    ensures
        viewed(r) == rate_asked(prompt@, preview.shown(), replies.deep_view(), at as int),
{
    match selected(replies, at, 9) {
        None => Ok(Step::Ask(rate_menu(prompt, preview))),
        Some(index) => {
            let rates = offered_rates();
            if index < 8 {
                assert(rates.deep_view()[index as int] == rates@[index as int]@);
                return Ok(Step::Done(rates[index].as_str().to_owned(), at + 1));
            }
            let text = cat2(prompt, " (例: 10, 0.5, 2s): ");
            match prompt_text(text.as_str(), Some("10"), None, replies, at + 1)? {
                Step::Ask(question) => Ok(Step::Ask(question)),
                Step::Done(typed, used) => take_typed_rate(prompt, typed, replies, used),
            }
        },
    }
}

// ---------------------------------------------------------------------------
// Bindings
// ---------------------------------------------------------------------------

pub open spec fn with_port(port: Seq<char>) -> DraftModel {
    DraftModel { port: Some(port), ..DraftModel::empty() }
}

pub open spec fn with_baud(port: Seq<char>, baud: u32) -> DraftModel {
    DraftModel { baud: Some(decimal(baud as nat)), ..with_port(port) }
}

/// The display of an input whose other parts are settled, and its binding.
pub open spec fn input_display_asked(
    command: IoPromptModel,
    position: IoPromptPortPosition,
    port: Seq<char>,
    baud: u32,
    format: Option<Seq<char>>,
    replies: Seq<ReplyModel>,
    at: int,
) -> Asked<Seq<char>> {
    let draft = DraftModel { format, ..with_baud(port, baud) };
    chained(
        display_asked(
            position.labelled("受信表示形式"@),
            display_choices(true),
            "hex"@,
            io_shown(command, false, draft, Slot::Display),
            replies,
            at,
        ),
        |display: Option<Seq<char>>, used: int|
            Ok(
                StepModel::Done(
                    input_binding_text(port, Some(decimal(baud as nat)), display, format),
                    used,
                ),
            ),
    )
}

/// The binding of an input: its port, its baud rate, its formats and its display.
pub open spec fn input_binding_asked(
    command: IoPromptModel,
    position: IoPromptPortPosition,
    ports: Seq<PortInfo>,
    replies: Seq<ReplyModel>,
) -> Asked<Seq<char>> {
    chained(
        port_asked(
            position.labelled("受信ポートを選択"@),
            true,
            ports,
            io_shown(command, false, DraftModel::empty(), Slot::Port),
            replies,
            0,
        ),
        |port: Seq<char>, used: int|
            chained(
                number_asked(
                    position.labelled("受信ボーレート"@),
                    115_200,
                    baud_choices(),
                    io_shown(command, false, with_port(port), Slot::Baud),
                    replies,
                    used,
                ),
                |baud: u32, used: int|
                    chained(
                        input_format_asked(
                            position.labelled("受信フォーマット"@),
                            format_choices(),
                            io_shown(command, false, with_baud(port, baud), Slot::Format),
                            replies,
                            used,
                        ),
                        |format: Option<Seq<char>>, used: int|
                            input_display_asked(
                                command,
                                position,
                                port,
                                baud,
                                format,
                                replies,
                                used,
                            ),
                    ),
            ),
    )
}

/// What to ask next for the binding of an input, or the binding.
pub fn prompt_io_input_binding(
    command: &IoPromptCommand,
    position: IoPromptPortPosition,
    ports: &Vec<PortInfo>,
    replies: &Vec<Reply>,
) -> (r: Result<Step<String>, String>)
    requires
        ports.len() < usize::MAX,
    ensures
        viewed(r) == input_binding_asked(
            command.deep_view(),
            position,
            ports@,
            replies.deep_view(),
        ),
{
    let mut draft = Draft::new();
    let title = position.label("受信ポートを選択");
    let preview = IoPreview { command, output: false, draft: &draft, slot: Slot::Port };
    let (port, used) = match prompt_serial_port_with_preview(
        title.as_str(),
        true,
        ports,
        &preview,
        replies,
        0,
    )? {
        Step::Ask(question) => return Ok(Step::Ask(question)),
        Step::Done(port, used) => (port, used),
    };
    draft.port = Some(port.as_str().to_owned());
    assert(draft.deep_view() =~= with_port(port@));
    let title = position.label("受信ボーレート");
    let preview = IoPreview { command, output: false, draft: &draft, slot: Slot::Baud };
    let (baud, used) = match prompt_baud(title.as_str(), &preview, replies, used)? {
        Step::Ask(question) => return Ok(Step::Ask(question)),
        Step::Done(baud, used) => (baud, used),
    };
    draft.baud = Some(decimal_text(baud as u64));
    assert(draft.deep_view() =~= with_baud(port@, baud));
    let title = position.label("受信フォーマット");
    let preview = IoPreview { command, output: false, draft: &draft, slot: Slot::Format };
    let (format, used) = match prompt_input_format_with_title_and_preview(
        title.as_str(),
        &preview,
        replies,
        used,
    )? {
        Step::Ask(question) => return Ok(Step::Ask(question)),
        Step::Done(format, used) => (format, used),
    };
    draft.format = format;
    let title = position.label("受信表示形式");
    let preview = IoPreview { command, output: false, draft: &draft, slot: Slot::Display };
    let (display, used) = match prompt_display_mode_with_preview(
        title.as_str(),
        true,
        &preview,
        replies,
        used,
    )? {
        Step::Ask(question) => return Ok(Step::Ask(question)),
        Step::Done(display, used) => (display, used),
    };
    let binding = format_io_input_binding(
        port.as_str(),
        baud,
        as_text(&display),
        as_text(&draft.format),
    );
    Ok(Step::Done(binding, used))
}

/// The rate of an output whose other parts are settled, and its binding.
pub open spec fn output_rate_asked(
    command: IoPromptModel,
    position: IoPromptPortPosition,
    draft: DraftModel,
    replies: Seq<ReplyModel>,
    at: int,
) -> Asked<Seq<char>> {
    chained(
        rate_asked(
            position.labelled("送信レート (Hz)"@),
            io_shown(command, true, draft, Slot::Rate),
            replies,
            at,
        ),
        |rate: Seq<char>, used: int|
            Ok(
                StepModel::Done(
                    output_binding_text(
                        or_empty(draft.port),
                        draft.baud,
                        draft.display,
                        draft.format,
                        Some(rate),
                    ),
                    used,
                ),
            ),
    )
}

/// The binding of an output: its port, its baud rate, its display, its format and its rate.
pub open spec fn output_binding_asked(
    command: IoPromptModel,
    position: IoPromptPortPosition,
    ports: Seq<PortInfo>,
    replies: Seq<ReplyModel>,
) -> Asked<Seq<char>> {
    chained(
        port_asked(
            position.labelled("送信ポートを選択"@),
            true,
            ports,
            io_shown(command, true, DraftModel::empty(), Slot::Port),
            replies,
            0,
        ),
        |port: Seq<char>, used: int|
            chained(
                number_asked(
                    position.labelled("送信ボーレート"@),
                    115_200,
                    baud_choices(),
                    io_shown(command, true, with_port(port), Slot::Baud),
                    replies,
                    used,
                ),
                |baud: u32, used: int|
                    chained(
                        display_asked(
                            position.labelled("送信表示形式"@),
                            display_choices(false),
                            "hex"@,
                            io_shown(command, true, with_baud(port, baud), Slot::Display),
                            replies,
                            used,
                        ),
                        |display: Option<Seq<char>>, used: int|
                            {
                                let draft = DraftModel { display, ..with_baud(port, baud) };
                                chained(
                                    format_asked(
                                        position.labelled("送信フォーマット"@),
                                        format_choices(),
                                        io_shown(command, true, draft, Slot::Format),
                                        replies,
                                        used,
                                    ),
                                    |format: Seq<char>, used: int|
                                        output_rate_asked(
                                            command,
                                            position,
                                            DraftModel { format: Some(format), ..draft },
                                            replies,
                                            used,
                                        ),
                                )
                            },
                    ),
            ),
    )
}

fn prompt_output_rate(
    command: &IoPromptCommand,
    position: IoPromptPortPosition,
    draft: &Draft,
    replies: &Vec<Reply>,
    at: usize,
) -> (r: Result<Step<String>, String>)
    ensures
        viewed(r) == output_rate_asked(
            command.deep_view(),
            position,
            draft.deep_view(),
            replies.deep_view(),
            at as int,
        ),
{
    let title = position.label("送信レート (Hz)");
    let preview = IoPreview { command, output: true, draft, slot: Slot::Rate };
    match prompt_io_send_rate_with_preview(title.as_str(), &preview, replies, at)? {
        Step::Ask(question) => Ok(Step::Ask(question)),
        Step::Done(rate, used) => Ok(
            Step::Done(binding_with(draft, Slot::Rate, Some(rate.as_str())), used),
        ),
    }
}

/// What to ask next for the binding of an output, or the binding.
pub fn prompt_io_output_binding(
    command: &IoPromptCommand,
    position: IoPromptPortPosition,
    ports: &Vec<PortInfo>,
    replies: &Vec<Reply>,
) -> (r: Result<Step<String>, String>)
    requires
        ports.len() < usize::MAX,
    ensures
        viewed(r) == output_binding_asked(
            command.deep_view(),
            position,
            ports@,
            replies.deep_view(),
        ),
{
    let mut draft = Draft::new();
    let title = position.label("送信ポートを選択");
    let preview = IoPreview { command, output: true, draft: &draft, slot: Slot::Port };
    let (port, used) = match prompt_serial_port_with_preview(
        title.as_str(),
        true,
        ports,
        &preview,
        replies,
        0,
    )? {
        Step::Ask(question) => return Ok(Step::Ask(question)),
        Step::Done(port, used) => (port, used),
    };
    let ghost port_text = port@;
    draft.port = Some(port);
    assert(draft.deep_view() =~= with_port(port_text));
    let title = position.label("送信ボーレート");
    let preview = IoPreview { command, output: true, draft: &draft, slot: Slot::Baud };
    let (baud, used) = match prompt_baud(title.as_str(), &preview, replies, used)? {
        Step::Ask(question) => return Ok(Step::Ask(question)),
        Step::Done(baud, used) => (baud, used),
    };
    draft.baud = Some(decimal_text(baud as u64));
    assert(draft.deep_view() =~= with_baud(port_text, baud));
    let title = position.label("送信表示形式");
    let preview = IoPreview { command, output: true, draft: &draft, slot: Slot::Display };
    let (display, used) = match prompt_display_mode_with_preview(
        title.as_str(),
        false,
        &preview,
        replies,
        used,
    )? {
        Step::Ask(question) => return Ok(Step::Ask(question)),
        Step::Done(display, used) => (display, used),
    };
    draft.display = display;
    let title = position.label("送信フォーマット");
    let preview = IoPreview { command, output: true, draft: &draft, slot: Slot::Format };
    let (format, used) = match prompt_output_format_with_title_and_preview(
        title.as_str(),
        &preview,
        replies,
        used,
    )? {
        Step::Ask(question) => return Ok(Step::Ask(question)),
        Step::Done(format, used) => (format, used),
    };
    draft.format = Some(format);
    prompt_output_rate(command, position, &draft, replies, used)
}

} // verus!

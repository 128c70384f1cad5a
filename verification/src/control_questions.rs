//! `control`: the questions that make up an output, a monitor, a format and a rate.
use crate::command_line::{command_text, format_io_input_binding, input_binding_text};
use crate::commands::{format_device_line, DeviceInfo, device_text, numbered, PortInfo};
use crate::control_prompt::{
    chosen_mode, control_rate_of, default_control_rate_hz, display_mode_from_prompt,
    format_control_port_binding, mode_text, CandidateModel, ControlCommandModel,
    ControlPromptCandidate, ControlPromptCommand,
};
use crate::format::OutputFormat;
use crate::io_questions::{
    baud_choices, display_choices, format_choices, prompt_baud, prompt_display_mode_with_preview,
    prompt_input_format_with_preview, with_baud, with_port, Draft, DraftModel, Slot,
};
use crate::menu::{
    chained, display_asked, format_asked, input_format_asked, number_asked, port_asked,
    prompt_format_of, prompt_serial_port_with_preview, prompt_u32_choice_with_preview, Asked,
    Preview, Reply, ReplyModel, Shown, Step, StepModel,
};
use crate::route::copy_texts;
use crate::text::{decimal, decimal_text, viewed};
use vstd::prelude::*;

verus! {

impl ControlPromptCommand {
    /// A copy of the command.
    pub fn duplicate(&self) -> (copy: ControlPromptCommand)
        ensures
            copy.deep_view() == self.deep_view(),
    {
        ControlPromptCommand {
            output: self.output.clone(),
            format: self.format.clone(),
            rate_hz: self.rate_hz,
            controller: self.controller.clone(),
            monitors: copy_texts(&self.monitors),
            log_dir: self.log_dir.clone(),
            no_log: self.no_log,
            s3b: self.s3b,
        }
    }
}

// ---------------------------------------------------------------------------
// Previews
// ---------------------------------------------------------------------------

/// The command line that a candidate for a part of the output would make.
pub open spec fn output_shown(command: ControlCommandModel, draft: DraftModel, slot: Slot) -> Shown {
    |candidate: Option<Seq<char>>|
        Some(
            command_text(
                command.words(Some(CandidateModel::Output(draft.with(slot, candidate).text()))),
            ),
        )
}

/// The command line that a candidate for a part of a monitor would make.
pub open spec fn monitor_shown(command: ControlCommandModel, draft: DraftModel, slot: Slot) -> Shown {
    |candidate: Option<Seq<char>>|
        Some(
            command_text(
                command.words(Some(CandidateModel::Monitor(draft.with(slot, candidate).text()))),
            ),
        )
}

/// The command line that a candidate for the format would make.
pub open spec fn format_shown(command: ControlCommandModel) -> Shown {
    |candidate: Option<Seq<char>>|
        match candidate {
            Some(format) => Some(
                command_text(command.words(Some(CandidateModel::Format(format)))),
            ),
            None => None,
        }
}

/// The command line that a candidate for the rate would make.
pub open spec fn rate_shown(command: ControlCommandModel) -> Shown {
    |candidate: Option<Seq<char>>|
        match candidate {
            Some(rate) => Some(command_text(command.words(Some(CandidateModel::Rate(rate))))),
            None => None,
        }
}

struct OutputPreview<'a> {
    command: &'a ControlPromptCommand,
    draft: &'a Draft,
    slot: Slot,
}

impl<'a> Preview for OutputPreview<'a> {
    closed spec fn shown(&self) -> Shown {
        output_shown(self.command.deep_view(), self.draft.deep_view(), self.slot)
    }

    fn show(&self, candidate: Option<&str>) -> (r: Option<String>) {
        let binding = self.draft.text_with(self.slot, candidate);
        Some(self.command.render(Some(ControlPromptCandidate::Output(binding.as_str()))))
    }
}

struct MonitorPreview<'a> {
    command: &'a ControlPromptCommand,
    draft: &'a Draft,
    slot: Slot,
}

impl<'a> Preview for MonitorPreview<'a> {
    closed spec fn shown(&self) -> Shown {
        monitor_shown(self.command.deep_view(), self.draft.deep_view(), self.slot)
    }

    fn show(&self, candidate: Option<&str>) -> (r: Option<String>) {
        let binding = self.draft.text_with(self.slot, candidate);
        Some(self.command.render(Some(ControlPromptCandidate::Monitor(binding.as_str()))))
    }
}

struct FormatPreview<'a> {
    command: &'a ControlPromptCommand,
}

impl<'a> Preview for FormatPreview<'a> {
    closed spec fn shown(&self) -> Shown {
        format_shown(self.command.deep_view())
    }

    fn show(&self, candidate: Option<&str>) -> (r: Option<String>) {
        match candidate {
            Some(format) => Some(self.command.render(Some(ControlPromptCandidate::Format(format)))),
            None => None,
        }
    }
}

struct RatePreview<'a> {
    command: &'a ControlPromptCommand,
}

impl<'a> Preview for RatePreview<'a> {
    closed spec fn shown(&self) -> Shown {
        rate_shown(self.command.deep_view())
    }

    fn show(&self, candidate: Option<&str>) -> (r: Option<String>) {
        match candidate {
            Some(rate) => Some(self.command.render(Some(ControlPromptCandidate::Rate(rate)))),
            None => None,
        }
    }
}

// ---------------------------------------------------------------------------
// Format and rate
// ---------------------------------------------------------------------------

/// The formats that a controller can be sent in.
pub open spec fn control_formats() -> Seq<OutputFormat> {
    seq![OutputFormat::PacketAcV6, OutputFormat::PacketMv1, OutputFormat::PacketGcV1]
}

/// The format of the output, which may be named already.
pub open spec fn control_format_asked(
    command: ControlCommandModel,
    output: Option<Seq<char>>,
    replies: Seq<ReplyModel>,
    at: int,
) -> Asked<Seq<char>> {
    let previewed = match output {
        Some(binding) => ControlCommandModel { output: Some(binding), ..command },
        None => command,
    };
    format_asked("送信フォーマット"@, control_formats(), format_shown(previewed), replies, at)
}

pub fn prompt_control_output_format_with_preview(
    command: &ControlPromptCommand,
    output_binding: Option<&str>,
    replies: &Vec<Reply>,
    at: usize,
) -> (r: Result<Step<String>, String>)
    ensures
        viewed(r) == control_format_asked(
            command.deep_view(),
            output_binding.deep_view(),
            replies.deep_view(),
            at as int,
        ),
{
    let formats: Vec<OutputFormat> = vec![
        OutputFormat::PacketAcV6,
        OutputFormat::PacketMv1,
        OutputFormat::PacketGcV1,
    ];
    assert(formats@ =~= control_formats());
    let mut previewed = command.duplicate();
    if let Some(binding) = output_binding {
        previewed.set_output(binding.to_owned());
    }
    let preview = FormatPreview { command: &previewed };
    prompt_format_of("送信フォーマット", &formats, &preview, replies, at)
}

pub fn prompt_control_output_format(
    command: &ControlPromptCommand,
    replies: &Vec<Reply>,
    at: usize,
) -> (r: Result<Step<String>, String>)
    ensures
        viewed(r) == control_format_asked(
            command.deep_view(),
            None,
            replies.deep_view(),
            at as int,
        ),
{
    prompt_control_output_format_with_preview(command, None, replies, at)
}

pub fn prompt_control_output_format_with_output(
    command: &ControlPromptCommand,
    output_binding: &str,
    replies: &Vec<Reply>,
    at: usize,
) -> (r: Result<Step<String>, String>)
    ensures
        viewed(r) == control_format_asked(
            command.deep_view(),
            Some(output_binding@),
            replies.deep_view(),
            at as int,
        ),
{
    prompt_control_output_format_with_preview(command, Some(output_binding), replies, at)
}

pub open spec fn control_rate_choices() -> Seq<u32> {
    seq![10, 50, 100, 20, 1]
}

/// How often the output is sent.
pub fn prompt_control_output_rate(
    command: &ControlPromptCommand,
    format: OutputFormat,
    replies: &Vec<Reply>,
    at: usize,
) -> (r: Result<Step<u32>, String>)
    ensures
        viewed(r) == number_asked(
            "送信レート (Hz)"@,
            control_rate_of(format),
            control_rate_choices(),
            rate_shown(command.deep_view()),
            replies.deep_view(),
            at as int,
        ),
{
    let choices: [u32; 5] = [10, 50, 100, 20, 1];
    assert(choices@ =~= control_rate_choices());
    let preview = RatePreview { command };
    prompt_u32_choice_with_preview(
        "送信レート (Hz)",
        default_control_rate_hz(format),
        &choices,
        &preview,
        replies,
        at,
    )
}

// ---------------------------------------------------------------------------
// Bindings
// ---------------------------------------------------------------------------

/// What an output comes to: its binding, and its format where that was asked for.
pub type OutputAnswer = (Seq<char>, Option<Seq<char>>);

/// The binding of an output whose parts are settled.
pub open spec fn control_output_done(
    port: Seq<char>,
    baud: u32,
    display: Option<Seq<char>>,
    format: Option<Seq<char>>,
    used: int,
) -> Asked<OutputAnswer> {
    match chosen_mode(display) {
        Err(e) => Err(e),
        Ok(mode) => Ok(
            StepModel::Done(
                (
                    input_binding_text(port, Some(decimal(baud as nat)), mode_text(mode), None),
                    format,
                ),
                used,
            ),
        ),
    }
}

/// The output of a controller: its port, its baud rate, its display and, where it is open, its
/// format.
pub open spec fn control_output_asked(
    command: ControlCommandModel,
    prompt_format: bool,
    ports: Seq<PortInfo>,
    replies: Seq<ReplyModel>,
) -> Asked<OutputAnswer> {
    chained(
        port_asked(
            "送信ポートを選択"@,
            true,
            ports,
            output_shown(command, DraftModel::empty(), Slot::Port),
            replies,
            0,
        ),
        |port: Seq<char>, used: int|
            chained(
                number_asked(
                    "送信ボーレート"@,
                    115_200,
                    baud_choices(),
                    output_shown(command, with_port(port), Slot::Baud),
                    replies,
                    used,
                ),
                |baud: u32, used: int|
                    chained(
                        display_asked(
                            "送信表示形式"@,
                            display_choices(false),
                            "hex"@,
                            output_shown(command, with_baud(port, baud), Slot::Display),
                            replies,
                            used,
                        ),
                        |display: Option<Seq<char>>, used: int|
                            if prompt_format {
                                chained(
                                    control_format_asked(
                                        command,
                                        Some(
                                            input_binding_text(
                                                port,
                                                Some(decimal(baud as nat)),
                                                display,
                                                None,
                                            ),
                                        ),
                                        replies,
                                        used,
                                    ),
                                    |format: Seq<char>, used: int|
                                        control_output_done(
                                            port,
                                            baud,
                                            display,
                                            Some(format),
                                            used,
                                        ),
                                )
                            } else {
                                control_output_done(port, baud, display, None, used)
                            },
                    ),
            ),
    )
}

fn as_text(text: &Option<String>) -> (r: Option<&str>)
    ensures
        r.deep_view() == text.deep_view(),
{
    match text {
        Some(text) => Some(text.as_str()),
        None => None,
    }
}

fn finish_output(
    port: &str,
    baud: u32,
    display: &Option<String>,
    format: Option<String>,
    used: usize,
) -> (r: Result<Step<(String, Option<String>)>, String>)
    ensures
        viewed(r) == control_output_done(
            port@,
            baud,
            display.deep_view(),
            format.deep_view(),
            used as int,
        ),
{
    let mode = display_mode_from_prompt(as_text(display))?;
    let binding = format_control_port_binding(port, baud, mode);
    Ok(Step::Done((binding, format), used))
}

/// What to ask next for the output, or the output.
pub fn prompt_control_output_binding(
    command: &ControlPromptCommand,
    prompt_format: bool,
    ports: &Vec<PortInfo>,
    replies: &Vec<Reply>,
) -> (r: Result<Step<(String, Option<String>)>, String>)
    requires
        ports.len() < usize::MAX,
    ensures
        viewed(r) == control_output_asked(
            command.deep_view(),
            prompt_format,
            ports@,
            replies.deep_view(),
        ),
{
    let mut draft = Draft::new();
    let preview = OutputPreview { command, draft: &draft, slot: Slot::Port };
    let (port, used) = match prompt_serial_port_with_preview(
        "送信ポートを選択",
        true,
        ports,
        &preview,
        replies,
        0,
    )? {
        Step::Ask(question) => return Ok(Step::Ask(question)),
        Step::Done(port, used) => (port, used),
    };
    draft.port = Some(port.as_str().to_owned());
    assert(draft.deep_view() =~= with_port(port@));
    let preview = OutputPreview { command, draft: &draft, slot: Slot::Baud };
    let (baud, used) = match prompt_baud("送信ボーレート", &preview, replies, used)? {
        Step::Ask(question) => return Ok(Step::Ask(question)),
        Step::Done(baud, used) => (baud, used),
    };
    draft.baud = Some(decimal_text(baud as u64));
    assert(draft.deep_view() =~= with_baud(port@, baud));
    let preview = OutputPreview { command, draft: &draft, slot: Slot::Display };
    let (display, used) = match prompt_display_mode_with_preview(
        "送信表示形式",
        false,
        &preview,
        replies,
        used,
    )? {
        Step::Ask(question) => return Ok(Step::Ask(question)),
        Step::Done(display, used) => (display, used),
    };
    if prompt_format {
        let binding = format_io_input_binding(port.as_str(), baud, as_text(&display), None);
        match prompt_control_output_format_with_output(command, binding.as_str(), replies, used)? {
            Step::Ask(question) => Ok(Step::Ask(question)),
            Step::Done(format, used) => finish_output(
                port.as_str(),
                baud,
                &display,
                Some(format),
                used,
            ),
        }
    } else {
        finish_output(port.as_str(), baud, &display, None, used)
    }
}

/// The binding of a monitor: its port, its baud rate, its formats and its display.
pub open spec fn control_monitor_asked(
    command: ControlCommandModel,
    ports: Seq<PortInfo>,
    replies: Seq<ReplyModel>,
) -> Asked<Seq<char>> {
    chained(
        port_asked(
            "受信ポートを選択"@,
            true,
            ports,
            monitor_shown(command, DraftModel::empty(), Slot::Port),
            replies,
            0,
        ),
        |port: Seq<char>, used: int|
            chained(
                number_asked(
                    "受信ボーレート"@,
                    115_200,
                    baud_choices(),
                    monitor_shown(command, with_port(port), Slot::Baud),
                    replies,
                    used,
                ),
                |baud: u32, used: int|
                    chained(
                        input_format_asked(
                            "受信フォーマット"@,
                            format_choices(),
                            monitor_shown(command, with_baud(port, baud), Slot::Format),
                            replies,
                            used,
                        ),
                        |format: Option<Seq<char>>, used: int|
                            chained(
                                display_asked(
                                    "受信表示形式"@,
                                    display_choices(true),
                                    "hex"@,
                                    monitor_shown(
                                        command,
                                        DraftModel { format, ..with_baud(port, baud) },
                                        Slot::Display,
                                    ),
                                    replies,
                                    used,
                                ),
                                |display: Option<Seq<char>>, used: int|
                                    Ok(
                                        StepModel::Done(
                                            input_binding_text(
                                                port,
                                                Some(decimal(baud as nat)),
                                                display,
                                                format,
                                            ),
                                            used,
                                        ),
                                    ),
                            ),
                    ),
            ),
    )
}

/// What to ask next for a monitor, or its binding.
pub fn prompt_control_monitor_binding(
    command: &ControlPromptCommand,
    ports: &Vec<PortInfo>,
    replies: &Vec<Reply>,
) -> (r: Result<Step<String>, String>)
    requires
        ports.len() < usize::MAX,
    ensures
        viewed(r) == control_monitor_asked(command.deep_view(), ports@, replies.deep_view()),
{
    let mut draft = Draft::new();
    let preview = MonitorPreview { command, draft: &draft, slot: Slot::Port };
    let (port, used) = match prompt_serial_port_with_preview(
        "受信ポートを選択",
        true,
        ports,
        &preview,
        replies,
        0,
    )? {
        Step::Ask(question) => return Ok(Step::Ask(question)),
        Step::Done(port, used) => (port, used),
    };
    draft.port = Some(port.as_str().to_owned());
    assert(draft.deep_view() =~= with_port(port@));
    let preview = MonitorPreview { command, draft: &draft, slot: Slot::Baud };
    let (baud, used) = match prompt_baud("受信ボーレート", &preview, replies, used)? {
        Step::Ask(question) => return Ok(Step::Ask(question)),
        Step::Done(baud, used) => (baud, used),
    };
    draft.baud = Some(decimal_text(baud as u64));
    assert(draft.deep_view() =~= with_baud(port@, baud));
    let preview = MonitorPreview { command, draft: &draft, slot: Slot::Format };
    let (format, used) = match prompt_input_format_with_preview(&preview, replies, used)? {
        Step::Ask(question) => return Ok(Step::Ask(question)),
        Step::Done(format, used) => (format, used),
    };
    draft.format = format;
    let preview = MonitorPreview { command, draft: &draft, slot: Slot::Display };
    let (display, used) = match prompt_display_mode_with_preview(
        "受信表示形式",
        true,
        &preview,
        replies,
        used,
    )? {
        Step::Ask(question) => return Ok(Step::Ask(question)),
        Step::Done(display, used) => (display, used),
    };
    let binding = format_io_input_binding(
        port.as_str(),
        baud,
        as_text(&display),
        as_text(&draft.format),
    );
    Ok(Step::Done(binding, used))
}

/// A controller in a menu.
pub fn format_controller_choice(index: usize, device: &DeviceInfo) -> (r: String)
    ensures
        r@ == numbered(index as nat, device_text(*device)),
{
    format_device_line(index, device)
}

} // verus!

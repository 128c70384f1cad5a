//! The command line of `io` that a run stands for.
use crate::command_line::{
    append_prompt_common_args, command_text, common_args, display_mode_value, display_text,
    format_command_preview, format_input_display_value, format_io_input_binding, format_list_text,
    format_output_format_list, format_prompt_io_output_binding, input_binding_text,
    output_binding_text, push_word, put_id, with_id,
};
use crate::display::{display_mode_name, LineBreakMode, PortDisplayMode};
use crate::format::{format_name, OutputFormat};
use crate::text::{decimal, decimal_text};
use vstd::prelude::*;

verus! {

/// An input as it was resolved.
#[derive(Debug)]
pub struct IoCommandInput {
    pub port: String,
    pub baud_rate: u32,
    pub display_mode: PortDisplayMode,
    pub line_break_mode: LineBreakMode,
    pub formats: Vec<OutputFormat>,
}

#[verifier::ext_equal]
pub struct CommandInputModel {
    pub port: Seq<char>,
    pub baud_rate: u32,
    pub display_mode: PortDisplayMode,
    pub line_break_mode: LineBreakMode,
    pub formats: Seq<OutputFormat>,
}

impl DeepView for IoCommandInput {
    type V = CommandInputModel;

    open spec fn deep_view(&self) -> CommandInputModel {
        CommandInputModel {
            port: self.port@,
            baud_rate: self.baud_rate,
            display_mode: self.display_mode,
            line_break_mode: self.line_break_mode,
            formats: self.formats@,
        }
    }
}

impl CommandInputModel {
    /// The binding that names the input.
    pub open spec fn binding(self) -> Seq<char> {
        input_binding_text(
            self.port,
            Some(decimal(self.baud_rate as nat)),
            Some(display_text(self.display_mode, self.line_break_mode)),
            format_list_text(self.formats),
        )
    }
}

impl IoCommandInput {
    pub fn binding(&self) -> (r: String)
        ensures
            r@ == self.deep_view().binding(),
    {
        let display = format_input_display_value(self.display_mode, self.line_break_mode);
        match format_output_format_list(&self.formats) {
            Some(list) => format_io_input_binding(
                self.port.as_str(),
                self.baud_rate,
                Some(display.as_str()),
                Some(list.as_str()),
            ),
            None => format_io_input_binding(
                self.port.as_str(),
                self.baud_rate,
                Some(display.as_str()),
                None,
            ),
        }
    }
}

/// An output as it was resolved; its rate as a binding writes it.
#[derive(Debug)]
pub struct IoCommandOutput {
    pub id: String,
    pub port: String,
    pub baud_rate: u32,
    pub display_mode: PortDisplayMode,
    pub format: OutputFormat,
    pub rate: String,
}

#[verifier::ext_equal]
pub struct CommandOutputModel {
    pub id: Seq<char>,
    pub port: Seq<char>,
    pub baud_rate: u32,
    pub display_mode: PortDisplayMode,
    pub format: OutputFormat,
    pub rate: Seq<char>,
}

impl DeepView for IoCommandOutput {
    type V = CommandOutputModel;

    open spec fn deep_view(&self) -> CommandOutputModel {
        CommandOutputModel {
            id: self.id@,
            port: self.port@,
            baud_rate: self.baud_rate,
            display_mode: self.display_mode,
            format: self.format,
            rate: self.rate@,
        }
    }
}

impl CommandOutputModel {
    /// The binding that names the output.
    pub open spec fn binding(self) -> Seq<char> {
        with_id(
            self.id,
            self.port,
            output_binding_text(
                self.port,
                Some(decimal(self.baud_rate as nat)),
                Some(display_mode_name(self.display_mode)),
                Some(format_name(self.format)),
                Some(self.rate),
            ),
        )
    }
}

/// `PORT@BAUD[,DISPLAY],FORMAT,RATE`.
pub fn format_io_output_binding(
    port: &str,
    baud: u32,
    display: Option<&str>,
    format: &str,
    rate: &str,
) -> (r: String)
    ensures
        r@ == output_binding_text(
            port@,
            Some(decimal(baud as nat)),
            display.deep_view(),
            Some(format@),
            Some(rate@),
        ),
{
    let digits = decimal_text(baud as u64);
    format_prompt_io_output_binding(port, Some(digits.as_str()), display, Some(format), Some(rate))
}

pub fn format_io_output_command_binding(output: &IoCommandOutput) -> (r: String)
    ensures
        r@ == output.deep_view().binding(),
{
    let binding = format_io_output_binding(
        output.port.as_str(),
        output.baud_rate,
        Some(display_mode_value(output.display_mode)),
        output.format.as_str(),
        output.rate.as_str(),
    );
    put_id(output.id.as_str(), output.port.as_str(), binding)
}

/// The options that name inputs.
pub open spec fn input_args(option: Seq<char>, inputs: Seq<CommandInputModel>) -> Seq<Seq<char>>
    decreases inputs.len(),
{
    if inputs.len() == 0 {
        seq![]
    } else {
        input_args(option, inputs.drop_last()).push(option).push(inputs.last().binding())
    }
}

/// The options that name outputs.
pub open spec fn output_args(outputs: Seq<CommandOutputModel>) -> Seq<Seq<char>>
    decreases outputs.len(),
{
    if outputs.len() == 0 {
        seq![]
    } else {
        output_args(outputs.drop_last()).push("-o"@).push(outputs.last().binding())
    }
}

pub fn push_input_args(args: &mut Vec<String>, option: &str, inputs: &Vec<IoCommandInput>)
    ensures
        final(args).deep_view() == old(args).deep_view() + input_args(
            option@,
            inputs.deep_view(),
        ),
{
    let ghost start = args.deep_view();
    let ghost all = inputs.deep_view();
    let mut i: usize = 0;
    assert(all.take(0) =~= Seq::<CommandInputModel>::empty());
    assert(start + input_args(option@, all.take(0)) =~= start);
    while i < inputs.len()
        invariant
            i <= inputs.len(),
            all == inputs.deep_view(),
            args.deep_view() == start + input_args(option@, all.take(i as int)),
        decreases inputs.len() - i,
    {
        proof {
            assert(all.take(i + 1).drop_last() == all.take(i as int));
            assert(all.take(i + 1).last() == inputs@[i as int].deep_view());
        }
        let binding = inputs[i].binding();
        push_word(args, option);
        push_word(args, binding.as_str());
        assert(args.deep_view() =~= start + input_args(option@, all.take(i + 1)));
        i += 1;
    }
    assert(all.take(i as int) == all);
}

fn push_output_args(args: &mut Vec<String>, outputs: &Vec<IoCommandOutput>)
    ensures
        final(args).deep_view() == old(args).deep_view() + output_args(outputs.deep_view()),
{
    let ghost start = args.deep_view();
    let ghost all = outputs.deep_view();
    let mut i: usize = 0;
    assert(all.take(0) =~= Seq::<CommandOutputModel>::empty());
    assert(start + output_args(all.take(0)) =~= start);
    while i < outputs.len()
        invariant
            i <= outputs.len(),
            all == outputs.deep_view(),
            args.deep_view() == start + output_args(all.take(i as int)),
        decreases outputs.len() - i,
    {
        proof {
            assert(all.take(i + 1).drop_last() == all.take(i as int));
            assert(all.take(i + 1).last() == outputs@[i as int].deep_view());
        }
        let binding = format_io_output_command_binding(&outputs[i]);
        push_word(args, "-o");
        push_word(args, binding.as_str());
        assert(args.deep_view() =~= start + output_args(all.take(i + 1)));
        i += 1;
    }
    assert(all.take(i as int) == all);
}

/// The command line that runs with given inputs and outputs.
pub open spec fn io_command_text(
    inputs: Seq<CommandInputModel>,
    outputs: Seq<CommandOutputModel>,
    log_dir: Option<Seq<char>>,
    no_log: bool,
    s3b: bool,
) -> Seq<char> {
    command_text(
        seq!["acs"@, "io"@] + input_args("-i"@, inputs) + output_args(outputs) + common_args(
            log_dir,
            no_log,
            s3b,
        ),
    )
}

pub fn build_io_executed_command(
    inputs: &Vec<IoCommandInput>,
    outputs: &Vec<IoCommandOutput>,
    log_dir: Option<&str>,
    no_log: bool,
    s3b: bool,
) -> (r: String)
    ensures
        r@ == io_command_text(
            inputs.deep_view(),
            outputs.deep_view(),
            log_dir.deep_view(),
            no_log,
            s3b,
        ),
{
    let mut args: Vec<String> = Vec::new();
    assert(args.deep_view() =~= Seq::<Seq<char>>::empty());
    push_word(&mut args, "acs");
    push_word(&mut args, "io");
    assert(args.deep_view() =~= seq!["acs"@, "io"@]);
    push_input_args(&mut args, "-i", inputs);
    push_output_args(&mut args, outputs);
    append_prompt_common_args(&mut args, log_dir, no_log, s3b);
    format_command_preview(&args)
}

} // verus!

//! What is said of a session when it is over.
use crate::format::{format_name, OutputFormat};
use crate::text::{cat2, cat3, cat4, cat5, decimal, decimal_text};
use vstd::prelude::*;

verus! {

/// What went out to an output.
#[derive(Debug)]
pub struct OutputRunResult {
    pub id: String,
    pub port: String,
    pub baud_rate: u32,
    pub format: OutputFormat,
    /// The rate that was aimed at, as it is shown.
    pub target: String,
    pub sent_count: u64,
    pub payload_len: usize,
}

#[verifier::ext_equal]
pub struct OutputResultModel {
    pub id: Seq<char>,
    pub port: Seq<char>,
    pub baud_rate: u32,
    pub format: OutputFormat,
    pub target: Seq<char>,
    pub sent_count: u64,
    pub payload_len: nat,
}

impl DeepView for OutputRunResult {
    type V = OutputResultModel;

    open spec fn deep_view(&self) -> OutputResultModel {
        OutputResultModel {
            id: self.id@,
            port: self.port@,
            baud_rate: self.baud_rate,
            format: self.format,
            target: self.target@,
            sent_count: self.sent_count,
            payload_len: self.payload_len as nat,
        }
    }
}

/// A port with its baud rate.
pub open spec fn place_text(o: OutputResultModel) -> Seq<char> {
    o.port + " @ "@ + decimal(o.baud_rate as nat) + " baud"@
}

fn describe_place(output: &OutputRunResult) -> (r: String)
    ensures
        r@ == place_text(output.deep_view()),
{
    let baud = decimal_text(output.baud_rate as u64);
    cat4(output.port.as_str(), " @ ", baud.as_str(), " baud")
}

/// The packets that went out to an output.
pub open spec fn packets_text(o: OutputResultModel) -> Seq<char> {
    decimal(o.sent_count as nat) + " packets ("@ + decimal(o.payload_len) + " bytes each) to "@
        + place_text(o) + (", format="@ + format_name(o.format) + ", target="@ + o.target)
}

fn describe_packets(output: &OutputRunResult) -> (r: String)
    ensures
        r@ == packets_text(output.deep_view()),
{
    let sent = decimal_text(output.sent_count);
    let len = decimal_text(output.payload_len as u64);
    let place = describe_place(output);
    let front = cat5(
        sent.as_str(),
        " packets (",
        len.as_str(),
        " bytes each) to ",
        place.as_str(),
    );
    let back = cat4(", format=", output.format.as_str(), ", target=", output.target.as_str());
    cat2(front.as_str(), back.as_str())
}

pub open spec fn packet_lines(outputs: Seq<OutputResultModel>) -> Seq<Seq<char>> {
    outputs.map_values(|o: OutputResultModel| "  "@ + o.id + ": "@ + packets_text(o))
}

pub open spec fn write_lines(outputs: Seq<OutputResultModel>) -> Seq<Seq<char>> {
    outputs.map_values(
        |o: OutputResultModel|
            "  "@ + o.id + ": "@ + decimal(o.sent_count as nat) + " writes to "@ + place_text(o),
    )
}

/// What was sent: one line for one output, else a line for each behind their number.
pub open spec fn sent_lines(outputs: Seq<OutputResultModel>) -> Seq<Seq<char>> {
    if outputs.len() == 1 {
        seq!["sent "@ + packets_text(outputs[0])]
    } else {
        seq!["sent dummy packets to "@ + decimal(outputs.len()) + " outputs"@] + packet_lines(
            outputs,
        )
    }
}

fn list_sent(outputs: &Vec<OutputRunResult>) -> (lines: Vec<String>)
    ensures
        lines.deep_view() == sent_lines(outputs.deep_view()),
{
    let ghost all = outputs.deep_view();
    let mut lines: Vec<String> = Vec::new();
    if outputs.len() == 1 {
        let text = describe_packets(&outputs[0]);
        lines.push(cat2("sent ", text.as_str()));
        assert(all[0] == outputs@[0].deep_view());
        assert(lines.deep_view() =~= sent_lines(all));
        return lines;
    }
    let count = decimal_text(outputs.len() as u64);
    lines.push(cat3("sent dummy packets to ", count.as_str(), " outputs"));
    let ghost head = lines@[0]@;
    let mut i: usize = 0;
    while i < outputs.len()
        invariant
            i <= outputs.len(),
            all == outputs.deep_view(),
            lines.len() == i + 1,
            lines@[0]@ == head,
            forall|k: int|
                0 < k <= i ==> (#[trigger] lines@[k])@ == "  "@ + all[k - 1].id + ": "@
                    + packets_text(all[k - 1]),
        decreases outputs.len() - i,
    {
        let text = describe_packets(&outputs[i]);
        lines.push(cat4("  ", outputs[i].id.as_str(), ": ", text.as_str()));
        assert(all[i as int] == outputs@[i as int].deep_view());
        i += 1;
    }
    assert(lines.deep_view() =~= sent_lines(all));
    lines
}

pub open spec fn saved_lines(logging_enabled: bool, log_path: Seq<char>) -> Seq<Seq<char>> {
    if logging_enabled {
        seq!["log saved to "@ + log_path]
    } else {
        Seq::empty()
    }
}

/// The command line that would run the session again.
pub open spec fn command_lines(command: Option<Seq<char>>) -> Seq<Seq<char>> {
    match command {
        Some(command) => seq!["Command:"@, command],
        None => Seq::empty(),
    }
}

fn push_end(
    lines: &mut Vec<String>,
    logging_enabled: bool,
    log_path: &str,
    command: Option<&str>,
)
    ensures
        final(lines).deep_view() == old(lines).deep_view() + saved_lines(logging_enabled, log_path@)
            + command_lines(command.deep_view()),
{
    let ghost before = lines.deep_view();
    if logging_enabled {
        lines.push(cat2("log saved to ", log_path));
    }
    assert(lines.deep_view() =~= before + saved_lines(logging_enabled, log_path@));
    if let Some(command) = command {
        lines.push("Command:".to_owned());
        lines.push(command.to_owned());
    }
    assert(lines.deep_view() =~= before + saved_lines(logging_enabled, log_path@) + command_lines(
        command.deep_view(),
    ));
}

/// What `io` ends with: what was sent, or that it only received, and where the log is.
pub open spec fn io_ended(
    outputs: Seq<OutputResultModel>,
    logging_enabled: bool,
    log_path: Seq<char>,
) -> Seq<Seq<char>> {
    (if outputs.len() == 0 {
        seq!["io session finished (receive only)"@]
    } else {
        sent_lines(outputs)
    }) + saved_lines(logging_enabled, log_path)
}

/// What `send` ends with: the messages where it was typed into, else the packets.
pub open spec fn send_ended(
    interactive: bool,
    message_count: u64,
    outputs: Seq<OutputResultModel>,
    logging_enabled: bool,
    log_path: Seq<char>,
) -> Seq<Seq<char>> {
    (if interactive {
        message_lines(message_count, outputs)
    } else {
        sent_lines(outputs)
    }) + saved_lines(logging_enabled, log_path)
}

/// What is said of a session of `io`.
pub fn format_io_result(
    outputs: &Vec<OutputRunResult>,
    logging_enabled: bool,
    log_path: &str,
    command: Option<&str>,
) -> (lines: Vec<String>)
    ensures
        lines.deep_view() == io_ended(outputs.deep_view(), logging_enabled, log_path@)
            + command_lines(command.deep_view()),
        lines.deep_view() == (if outputs.len() == 0 {
            seq!["io session finished (receive only)"@]
        } else {
            sent_lines(outputs.deep_view())
        }) + saved_lines(logging_enabled, log_path@) + command_lines(command.deep_view()),
{
    let mut lines: Vec<String> = Vec::new();
    if outputs.len() == 0 {
        lines.push("io session finished (receive only)".to_owned());
        assert(lines.deep_view() =~= seq!["io session finished (receive only)"@]);
    } else {
        lines = list_sent(outputs);
    }
    push_end(&mut lines, logging_enabled, log_path, command);
    lines
}

/// The command line that would run the session again, on one line behind a label.
pub open spec fn command_line(command: Option<Seq<char>>) -> Seq<Seq<char>> {
    match command {
        Some(command) => seq!["実行コマンド: "@ + command],
        None => Seq::empty(),
    }
}

/// What is said of a session of the `io` that sends at whole packets per second.
pub fn format_whole_rate_io_result(
    outputs: &Vec<OutputRunResult>,
    logging_enabled: bool,
    log_path: &str,
    command: Option<&str>,
) -> (lines: Vec<String>)
    ensures
        lines.deep_view() == io_ended(outputs.deep_view(), logging_enabled, log_path@)
            + command_line(command.deep_view()),
        lines.deep_view() == (if outputs.len() == 0 {
            seq!["io session finished (receive only)"@]
        } else {
            sent_lines(outputs.deep_view())
        }) + saved_lines(logging_enabled, log_path@) + command_line(command.deep_view()),
{
    let mut lines = format_io_result(outputs, logging_enabled, log_path, None);
    let ghost before = lines.deep_view();
    if let Some(command) = command {
        lines.push(cat2("実行コマンド: ", command));
    }
    assert(lines.deep_view() =~= before + command_line(command.deep_view()));
    lines
}

/// What is said of a session of `control`.
pub fn format_control_result(logging_enabled: bool, log_path: &str, command: Option<&str>) -> (lines:
    Vec<String>)
    ensures
        lines.deep_view() == saved_lines(logging_enabled, log_path@) + command_lines(
            command.deep_view(),
        ),
{
    let mut lines: Vec<String> = Vec::new();
    push_end(&mut lines, logging_enabled, log_path, command);
    assert(lines.deep_view() =~= saved_lines(logging_enabled, log_path@) + command_lines(
        command.deep_view(),
    ));
    lines
}

pub open spec fn messages_text(count: u64, o: OutputResultModel) -> Seq<char> {
    "sent "@ + decimal(count as nat) + " messages to "@ + place_text(o)
}

/// What was typed and sent.
pub open spec fn message_lines(count: u64, outputs: Seq<OutputResultModel>) -> Seq<Seq<char>> {
    if outputs.len() == 1 {
        seq![messages_text(count, outputs[0])]
    } else {
        seq![
            "sent "@ + decimal(count as nat) + " messages to "@ + decimal(outputs.len())
                + " outputs"@,
        ] + write_lines(outputs)
    }
}

fn list_messages(count: u64, outputs: &Vec<OutputRunResult>) -> (lines: Vec<String>)
    ensures
        lines.deep_view() == message_lines(count, outputs.deep_view()),
{
    let ghost all = outputs.deep_view();
    let mut lines: Vec<String> = Vec::new();
    let messages = decimal_text(count);
    if outputs.len() == 1 {
        let place = describe_place(&outputs[0]);
        lines.push(cat4("sent ", messages.as_str(), " messages to ", place.as_str()));
        assert(all[0] == outputs@[0].deep_view());
        assert(lines.deep_view() =~= message_lines(count, all));
        return lines;
    }
    let number = decimal_text(outputs.len() as u64);
    lines.push(cat5("sent ", messages.as_str(), " messages to ", number.as_str(), " outputs"));
    let ghost head = lines@[0]@;
    let mut i: usize = 0;
    while i < outputs.len()
        invariant
            i <= outputs.len(),
            all == outputs.deep_view(),
            lines.len() == i + 1,
            lines@[0]@ == head,
            forall|k: int|
                0 < k <= i ==> (#[trigger] lines@[k])@ == "  "@ + all[k - 1].id + ": "@ + decimal(
                    all[k - 1].sent_count as nat,
                ) + " writes to "@ + place_text(all[k - 1]),
        decreases outputs.len() - i,
    {
        let sent = decimal_text(outputs[i].sent_count);
        let place = describe_place(&outputs[i]);
        let front = cat4("  ", outputs[i].id.as_str(), ": ", sent.as_str());
        lines.push(cat3(front.as_str(), " writes to ", place.as_str()));
        assert(all[i as int] == outputs@[i as int].deep_view());
        i += 1;
    }
    assert(lines.deep_view() =~= message_lines(count, all));
    lines
}

/// What is said of a session of `send`.
pub fn format_send_result(
    interactive: bool,
    message_count: u64,
    outputs: &Vec<OutputRunResult>,
    logging_enabled: bool,
    log_path: &str,
) -> (lines: Vec<String>)
    ensures
        lines.deep_view() == send_ended(
            interactive,
            message_count,
            outputs.deep_view(),
            logging_enabled,
            log_path@,
        ),
        lines.deep_view() == (if interactive {
            message_lines(message_count, outputs.deep_view())
        } else {
            sent_lines(outputs.deep_view())
        }) + saved_lines(logging_enabled, log_path@),
{
    let mut lines = if interactive {
        list_messages(message_count, outputs)
    } else {
        list_sent(outputs)
    };
    let ghost before = lines.deep_view();
    push_end(&mut lines, logging_enabled, log_path, None);
    assert(before + saved_lines(logging_enabled, log_path@) + command_lines(None) =~= before
        + saved_lines(logging_enabled, log_path@));
    lines
}

/// What is said of a session of `xbee-talk`.
pub fn format_talk_result(count: u64, output: &OutputRunResult) -> (line: String)
    ensures
        line@ == messages_text(count, output.deep_view()),
{
    let messages = decimal_text(count);
    let place = describe_place(output);
    cat4("sent ", messages.as_str(), " messages to ", place.as_str())
}

/// A line of a log file: when, what and where, with the bytes or the message.
pub open spec fn log_entry(
    at: Seq<char>,
    kind: Seq<char>,
    port: Seq<char>,
    bytes: Option<(Seq<char>, Seq<char>)>,
    message: Option<Seq<char>>,
) -> Seq<char> {
    "ts="@ + at + " kind="@ + kind + " port="@ + port + (match bytes {
        Some(b) => " hex="@ + b.0 + " ascii="@ + b.1,
        None => seq![],
    }) + (match message {
        Some(message) => " message="@ + message,
        None => seq![],
    })
}

pub fn format_log_entry(
    at: &str,
    kind: &str,
    port: &str,
    bytes: Option<(&str, &str)>,
    message: Option<&str>,
) -> (line: String)
    ensures
        line@ == log_entry(
            at@,
            kind@,
            port@,
            match bytes {
                Some(b) => Some((b.0@, b.1@)),
                None => None,
            },
            message.deep_view(),
        ),
{
    let front = cat5("ts=", at, " kind=", kind, " port=");
    let mut line = cat2(front.as_str(), port);
    let ghost head = line@;
    if let Some((hex, ascii)) = bytes {
        line.append(cat4(" hex=", hex, " ascii=", ascii).as_str());
    } else {
        assert(head + Seq::<char>::empty() =~= head);
    }
    let ghost middle = line@;
    if let Some(message) = message {
        line.append(cat2(" message=", message).as_str());
    } else {
        assert(middle + Seq::<char>::empty() =~= middle);
    }
    line
}

} // verus!

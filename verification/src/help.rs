//! Which command is asked for, and what help.
use crate::text::{cat2, same, texts};
use vstd::prelude::*;

verus! {

/// The argument asks for help.
pub open spec fn asks_help(arg: Seq<char>) -> bool {
    arg == "-h"@ || arg == "--help"@
}

pub fn is_help_flag(arg: &str) -> (r: bool)
    ensures
        r == asks_help(arg@),
{
    same(arg, "-h") || same(arg, "--help")
}

/// One of the arguments asks for help.
pub fn any_help_flag(args: &Vec<String>) -> (r: bool)
    ensures
        r == exists|i: int| 0 <= i < args.len() && asks_help(#[trigger] args@[i]@),
{
    let mut i: usize = 0;
    while i < args.len()
        invariant
            i <= args.len(),
            forall|k: int| 0 <= k < i ==> !asks_help(#[trigger] args@[k]@),
        decreases args.len() - i,
    {
        if is_help_flag(args[i].as_str()) {
            return true;
        }
        i += 1;
    }
    false
}

/// A command that takes arguments of its own.
#[derive(Debug, Clone, Copy, PartialEq, Eq, Structural)]
pub enum Subcommand {
    Control,
    Io,
    Monitor,
    Route,
    Send,
    XbeeTalk,
    XbeeMock,
    XbeeRtt,
    XbeeTest,
    Update,
}

/// What help is about.
#[derive(Debug, Clone, Copy, PartialEq, Eq, Structural)]
pub enum HelpTopic {
    Overview,
    Command(Subcommand),
    Controllers,
    Ports,
    Version,
    /// There is no such topic: the overview is shown instead, and the program fails.
    Unknown,
}

pub open spec fn subcommand_named(name: Seq<char>) -> Option<Subcommand> {
    if name == "control"@ {
        Some(Subcommand::Control)
    } else if name == "io"@ {
        Some(Subcommand::Io)
    } else if name == "monitor"@ {
        Some(Subcommand::Monitor)
    } else if name == "route"@ {
        Some(Subcommand::Route)
    } else if name == "send"@ {
        Some(Subcommand::Send)
    } else if name == "xbee-talk"@ {
        Some(Subcommand::XbeeTalk)
    } else if name == "xbee-mock"@ {
        Some(Subcommand::XbeeMock)
    } else if name == "xbee-rtt"@ {
        Some(Subcommand::XbeeRtt)
    } else if name == "xbee-test"@ {
        Some(Subcommand::XbeeTest)
    } else if name == "update"@ {
        Some(Subcommand::Update)
    } else {
        None
    }
}

pub fn find_subcommand(name: &str) -> (r: Option<Subcommand>)
    ensures
        r == subcommand_named(name@),
{
    if same(name, "control") {
        Some(Subcommand::Control)
    } else if same(name, "io") {
        Some(Subcommand::Io)
    } else if same(name, "monitor") {
        Some(Subcommand::Monitor)
    } else if same(name, "route") {
        Some(Subcommand::Route)
    } else if same(name, "send") {
        Some(Subcommand::Send)
    } else if same(name, "xbee-talk") {
        Some(Subcommand::XbeeTalk)
    } else if same(name, "xbee-mock") {
        Some(Subcommand::XbeeMock)
    } else if same(name, "xbee-rtt") {
        Some(Subcommand::XbeeRtt)
    } else if same(name, "xbee-test") {
        Some(Subcommand::XbeeTest)
    } else if same(name, "update") {
        Some(Subcommand::Update)
    } else {
        None
    }
}

/// The topic that `help` is asked about.
pub open spec fn topic_named(topic: Option<Seq<char>>) -> HelpTopic {
    match topic {
        None => HelpTopic::Overview,
        Some(name) => match subcommand_named(name) {
            Some(command) => HelpTopic::Command(command),
            None => if name == "controllers"@ {
                HelpTopic::Controllers
            } else if name == "ports"@ {
                HelpTopic::Ports
            } else if name == "version"@ {
                HelpTopic::Version
            } else {
                HelpTopic::Unknown
            },
        },
    }
}

pub fn help_topic(topic: Option<&str>) -> (r: HelpTopic)
    ensures
        r == topic_named(topic.deep_view()),
{
    match topic {
        None => HelpTopic::Overview,
        Some(name) => match find_subcommand(name) {
            Some(command) => HelpTopic::Command(command),
            None => if same(name, "controllers") {
                HelpTopic::Controllers
            } else if same(name, "ports") {
                HelpTopic::Ports
            } else if same(name, "version") {
                HelpTopic::Version
            } else {
                HelpTopic::Unknown
            },
        },
    }
}

/// What the program is asked to do.
#[derive(Debug)]
pub enum Action {
    Help,
    Topic(Option<String>),
    Version,
    Controllers,
    Ports,
    /// A command, with the arguments behind its name.
    Run(Subcommand, Vec<String>),
    Unknown(String),
}

#[verifier::ext_equal]
pub enum ActionModel {
    Help,
    Topic(Option<Seq<char>>),
    Version,
    Controllers,
    Ports,
    Run(Subcommand, Seq<Seq<char>>),
    Unknown(Seq<char>),
}

impl DeepView for Action {
    type V = ActionModel;

    open spec fn deep_view(&self) -> ActionModel {
        match self {
            Action::Help => ActionModel::Help,
            Action::Topic(topic) => ActionModel::Topic(topic.deep_view()),
            Action::Version => ActionModel::Version,
            Action::Controllers => ActionModel::Controllers,
            Action::Ports => ActionModel::Ports,
            Action::Run(command, args) => ActionModel::Run(*command, texts(args@)),
            Action::Unknown(name) => ActionModel::Unknown(name@),
        }
    }
}

/// What the arguments behind the program's name ask for.
pub open spec fn action_of(args: Seq<Seq<char>>) -> ActionModel {
    if args.len() == 0 {
        ActionModel::Help
    } else {
        let name = args[0];
        if asks_help(name) {
            ActionModel::Help
        } else if name == "--version"@ || name == "-V"@ || name == "version"@ {
            ActionModel::Version
        } else if name == "help"@ {
            ActionModel::Topic(
                if args.len() > 1 {
                    Some(args[1])
                } else {
                    None
                },
            )
        } else if name == "controllers"@ {
            ActionModel::Controllers
        } else if name == "ports"@ {
            ActionModel::Ports
        } else {
            match subcommand_named(name) {
                Some(command) => ActionModel::Run(command, args.skip(1)),
                None => ActionModel::Unknown(name),
            }
        }
    }
}

fn texts_from(args: &Vec<String>, from: usize) -> (rest: Vec<String>)
    requires
        from <= args.len(),
    ensures
        texts(rest@) == texts(args@).skip(from as int),
{
    let mut rest: Vec<String> = Vec::new();
    let mut i: usize = from;
    while i < args.len()
        invariant
            from <= i <= args.len(),
            rest.len() == i - from,
            forall|k: int| 0 <= k < rest.len() ==> (#[trigger] rest@[k])@ == args@[from + k]@,
        decreases args.len() - i,
    {
        rest.push(args[i].as_str().to_owned());
        i += 1;
    }
    assert(texts(rest@) =~= texts(args@).skip(from as int));
    rest
}

/// What the program is asked to do by the arguments behind its name.
pub fn parse_action(args: &Vec<String>) -> (r: Action)
    ensures
        r.deep_view() == action_of(texts(args@)),
{
    if args.len() == 0 {
        return Action::Help;
    }
    assert(texts(args@)[0] == args@[0]@);
    let name = args[0].as_str();
    if is_help_flag(name) {
        Action::Help
    } else if same(name, "--version") || same(name, "-V") || same(name, "version") {
        Action::Version
    } else if same(name, "help") {
        if args.len() > 1 {
            assert(texts(args@)[1] == args@[1]@);
            Action::Topic(Some(args[1].as_str().to_owned()))
        } else {
            Action::Topic(None)
        }
    } else if same(name, "controllers") {
        Action::Controllers
    } else if same(name, "ports") {
        Action::Ports
    } else {
        match find_subcommand(name) {
            Some(command) => Action::Run(command, texts_from(args, 1)),
            None => Action::Unknown(name.to_owned()),
        }
    }
}

/// What is said of a command that is not there.
pub fn unknown_command(name: &str) -> (r: String)
    ensures
        r@ == "不明なサブコマンドです: "@ + name@,
{
    cat2("不明なサブコマンドです: ", name)
}

/// What is said of a topic that is not there.
pub fn unknown_topic(name: &str) -> (r: String)
    ensures
        r@ == "不明なヘルプトピックです: "@ + name@,
{
    cat2("不明なヘルプトピックです: ", name)
}

/// The name under which a command is called.
pub open spec fn subcommand_name(command: Subcommand) -> Seq<char> {
    match command {
        Subcommand::Control => "control"@,
        Subcommand::Io => "io"@,
        Subcommand::Monitor => "monitor"@,
        Subcommand::Route => "route"@,
        Subcommand::Send => "send"@,
        Subcommand::XbeeTalk => "xbee-talk"@,
        Subcommand::XbeeMock => "xbee-mock"@,
        Subcommand::XbeeRtt => "xbee-rtt"@,
        Subcommand::XbeeTest => "xbee-test"@,
        Subcommand::Update => "update"@,
    }
}

proof fn lemma_names()
    ensures
        "control"@.len() == 7,
        "io"@.len() == 2,
        "monitor"@.len() == 7 && "monitor"@[0] != "control"@[0],
        "route"@.len() == 5,
        "send"@.len() == 4,
        "xbee-talk"@.len() == 9,
        "xbee-mock"@.len() == 9 && "xbee-mock"@[5] != "xbee-talk"@[5],
        "xbee-rtt"@.len() == 8,
        "xbee-test"@.len() == 9 && "xbee-test"@[6] != "xbee-talk"@[6] && "xbee-test"@[5]
            != "xbee-mock"@[5],
        "update"@.len() == 6,
        "-h"@.len() == 2 && "-h"@[0] != "io"@[0],
        "--help"@.len() == 6 && "--help"@[0] != "update"@[0],
        "--version"@.len() == 9 && "--version"@[0] != "xbee-talk"@[0] && "--version"@[0]
            != "xbee-mock"@[0] && "--version"@[0] != "xbee-test"@[0],
        "-V"@.len() == 2 && "-V"@[0] != "io"@[0],
        "version"@.len() == 7 && "version"@[0] != "control"@[0] && "version"@[0] != "monitor"@[0],
        "help"@.len() == 4 && "help"@[0] != "send"@[0],
        "controllers"@.len() == 11,
        "ports"@.len() == 5 && "ports"@[0] != "route"@[0],
{
    reveal_strlit("control");
    reveal_strlit("io");
    reveal_strlit("monitor");
    reveal_strlit("route");
    reveal_strlit("send");
    reveal_strlit("xbee-talk");
    reveal_strlit("xbee-mock");
    reveal_strlit("xbee-rtt");
    reveal_strlit("xbee-test");
    reveal_strlit("update");
    reveal_strlit("-h");
    reveal_strlit("--help");
    reveal_strlit("--version");
    reveal_strlit("-V");
    reveal_strlit("version");
    reveal_strlit("help");
    reveal_strlit("controllers");
    reveal_strlit("ports");
}

/// A command is run by its name, with the arguments behind it, and `help` with that name is about
/// it.
pub proof fn law_commands_run_by_name(command: Subcommand, rest: Seq<Seq<char>>)
    ensures
        action_of(seq![subcommand_name(command)] + rest) == ActionModel::Run(command, rest),
        topic_named(Some(subcommand_name(command))) == HelpTopic::Command(command),
{
    lemma_names();
    let args = seq![subcommand_name(command)] + rest;
    assert(args[0] == subcommand_name(command));
    assert(args.skip(1) =~= rest);
}

/// Every command has a topic of its own.
pub proof fn law_commands_have_topics(args: Seq<Seq<char>>)
    ensures
        action_of(args) matches ActionModel::Run(command, _) ==> topic_named(Some(args[0]))
            == HelpTopic::Command(command),
{
}

/// Each command runs under its own name and under no other, and what follows the name is left to
/// it; a name that is none is told of.
pub proof fn law_command_names(args: Seq<Seq<char>>)
    requires
        args.len() > 0,
    ensures
        ({
            let name = args[0];
            let rest = args.skip(1);
            let runs = |command: Subcommand| action_of(args) == ActionModel::Run(command, rest);
            &&& runs(Subcommand::Control) <==> name == "control"@
            &&& runs(Subcommand::Io) <==> name == "io"@
            &&& runs(Subcommand::Monitor) <==> name == "monitor"@
            &&& runs(Subcommand::Route) <==> name == "route"@
            &&& runs(Subcommand::Send) <==> name == "send"@
            &&& runs(Subcommand::XbeeTalk) <==> name == "xbee-talk"@
            &&& runs(Subcommand::XbeeMock) <==> name == "xbee-mock"@
            &&& runs(Subcommand::XbeeRtt) <==> name == "xbee-rtt"@
            &&& runs(Subcommand::XbeeTest) <==> name == "xbee-test"@
            &&& runs(Subcommand::Update) <==> name == "update"@
            &&& action_of(args) == ActionModel::Ports <==> name == "ports"@
            &&& action_of(args) == ActionModel::Controllers <==> name == "controllers"@
            &&& action_of(args) == ActionModel::Version <==> name == "--version"@ || name == "-V"@
                || name == "version"@
            &&& action_of(args) matches ActionModel::Unknown(unknown) ==> unknown == name
        }),
{
    lemma_command_names();
    lemma_other_names();
}

proof fn lemma_command_names()
    ensures
        "control"@.len() == 7 && "control"@[0] == 'c',
        "io"@.len() == 2 && "io"@[0] == 'i',
        "monitor"@.len() == 7 && "monitor"@[0] == 'm',
        "route"@.len() == 5 && "route"@[0] == 'r',
        "send"@.len() == 4 && "send"@[0] == 's',
        "update"@.len() == 6 && "update"@[0] == 'u',
        "xbee-talk"@.len() == 9 && "xbee-talk"@[5] == 't' && "xbee-talk"@[6] == 'a',
        "xbee-mock"@.len() == 9 && "xbee-mock"@[5] == 'm',
        "xbee-rtt"@.len() == 8 && "xbee-rtt"@[0] == 'x',
        "xbee-test"@.len() == 9 && "xbee-test"@[5] == 't' && "xbee-test"@[6] == 'e',
{
    reveal_strlit("control");
    assert("control"@.len() == 7);
    reveal_strlit("io");
    assert("io"@.len() == 2);
    reveal_strlit("monitor");
    assert("monitor"@.len() == 7);
    reveal_strlit("route");
    assert("route"@.len() == 5);
    reveal_strlit("send");
    assert("send"@.len() == 4);
    reveal_strlit("update");
    assert("update"@.len() == 6);
    reveal_strlit("xbee-talk");
    assert("xbee-talk"@.len() == 9);
    reveal_strlit("xbee-mock");
    assert("xbee-mock"@.len() == 9);
    reveal_strlit("xbee-rtt");
    assert("xbee-rtt"@.len() == 8);
    reveal_strlit("xbee-test");
    assert("xbee-test"@.len() == 9);
}

proof fn lemma_other_names()
    ensures
        "-h"@.len() == 2 && "-h"@[0] == '-' && "-h"@[1] == 'h',
        "-V"@.len() == 2 && "-V"@[0] == '-' && "-V"@[1] == 'V',
        "--help"@.len() == 6 && "--help"@[0] == '-',
        "--version"@.len() == 9 && "--version"@[0] == '-',
        "version"@.len() == 7 && "version"@[0] == 'v',
        "help"@.len() == 4 && "help"@[0] == 'h',
        "ports"@.len() == 5 && "ports"@[0] == 'p',
        "controllers"@.len() == 11 && "controllers"@[0] == 'c',
        "xbee-talk"@[0] == 'x' && "xbee-mock"@[0] == 'x' && "xbee-test"@[0] == 'x',
{
    reveal_strlit("-h");
    reveal_strlit("-V");
    assert("-h"@.len() == 2 && "-V"@.len() == 2);
    reveal_strlit("--help");
    reveal_strlit("--version");
    assert("--help"@.len() == 6 && "--version"@.len() == 9);
    reveal_strlit("version");
    reveal_strlit("help");
    assert("version"@.len() == 7 && "help"@.len() == 4);
    reveal_strlit("ports");
    reveal_strlit("controllers");
    assert("ports"@.len() == 5 && "controllers"@.len() == 11);
    reveal_strlit("xbee-talk");
    reveal_strlit("xbee-mock");
    reveal_strlit("xbee-test");
}

} // verus!

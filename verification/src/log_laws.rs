//! Laws that hold of every command: where its log goes, and whether an S3B is first brought back
//! from its bootloader menu; and which port is meant by what is asked for.
use crate::control::ControlRunModel;
use crate::control_settings::{control_plan, control_settings};
use crate::io::IoOptionsModel;
use crate::io_settings::{io_settings, FiguresModel};
use crate::monitor::{monitor_settings, MonitorOptionsModel};
use crate::paths::usual_log_dir;
use crate::ports::{port_meant, Lookup};
use crate::route::RouteOptionsModel;
use crate::route_pipeline::route_settings;
use crate::send::SendOptionsModel;
use crate::send_settings::send_settings;
use crate::text::{decimal, lemma_number_of_decimal, number};
use crate::xbee_mock::MockOptionsModel;
use crate::xbee_mock_plan::mock_settings;
use crate::xbee_talk::{talk_settings, TalkOptionsModel};
use vstd::prelude::*;

verus! {

/// The directory that is given, else `logs` in the current directory.
pub open spec fn goes_to(
    log_dir: Seq<char>,
    given: Option<Seq<char>>,
    current_dir: Option<Seq<char>>,
) -> bool {
    &&& given matches Some(dir) ==> log_dir == dir
    &&& given is None ==> log_dir == usual_log_dir(current_dir)
}

/// `send` logs where it is told to, and not at all where it is told not to.
pub proof fn law_send_logs(
    o: SendOptionsModel,
    selected: Lookup,
    output_ports: Seq<Lookup>,
    monitor_ports: Seq<Lookup>,
    current_dir: Option<Seq<char>>,
)
    ensures
        send_settings(o, selected, output_ports, monitor_ports, current_dir) matches Ok(s) ==> {
            &&& goes_to(s.log_dir, o.log_dir, current_dir)
            &&& s.logging_enabled == !o.no_log
            &&& s.s3b == o.s3b
            &&& s.interactive == o.interactive
            &&& o.title is None ==> s.title == "acs send"@
            &&& o.title matches Some(title) ==> s.title == title
            &&& o.command_name is None ==> s.command_name == "send"@
            &&& s.executed_command is Some <==> s.command_name == "io"@
        },
{
}

/// `io` logs where it is told to, and not at all where it is told not to.
pub proof fn law_io_logs(
    o: IoOptionsModel,
    output_ports: Seq<Lookup>,
    figures: Seq<FiguresModel>,
    input_ports: Seq<Lookup>,
    current_dir: Option<Seq<char>>,
)
    ensures
        io_settings(o, output_ports, figures, input_ports, current_dir) matches Ok(s) ==> {
            &&& goes_to(s.log_dir, o.log_dir, current_dir)
            &&& s.logging_enabled == !o.no_log
            &&& s.s3b == o.s3b
        },
{
}

/// `monitor`, `xbee-talk`, `route` and `xbee-mock` log where they are told to, and not at all
/// where they are told not to.
pub proof fn law_others_log(
    m: MonitorOptionsModel,
    t: TalkOptionsModel,
    r: RouteOptionsModel,
    x: MockOptionsModel,
    selected: Lookup,
    other: Lookup,
    found: Seq<Lookup>,
    more: Seq<Lookup>,
    current_dir: Option<Seq<char>>,
)
    ensures
        monitor_settings(m, found, current_dir) matches Ok(s) ==> goes_to(
            s.log_dir,
            m.log_dir,
            current_dir,
        ) && s.logging_enabled == !m.no_log,
        talk_settings(t, selected, found, current_dir) matches Ok(s) ==> goes_to(
            s.log_dir,
            t.log_dir,
            current_dir,
        ) && s.logging_enabled == !t.no_log && s.s3b == t.s3b,
        route_settings(r, found, more, current_dir) matches Ok(s) ==> goes_to(
            s.log_dir,
            r.log_dir,
            current_dir,
        ) && s.logging_enabled == !r.no_log && s.s3b == r.s3b,
        mock_settings(x, selected, other, current_dir) matches Ok(s) ==> goes_to(
            s.log_dir,
            x.log_dir,
            current_dir,
        ) && s.logging_enabled == !x.no_log && s.s3b == x.s3b,
{
}

/// `control` logs where it is told to, and not at all where it is told not to, and drives the
/// controller that was found.
pub proof fn law_control_logs(
    o: ControlRunModel,
    selected: Lookup,
    found: Seq<Lookup>,
    current_dir: Option<Seq<char>>,
    controller: Result<Option<Seq<char>>, Seq<char>>,
)
    ensures
        control_plan(o, selected, found, current_dir) matches Ok(p) ==> goes_to(
            p.log_dir,
            o.log_dir,
            current_dir,
        ) && p.s3b == o.s3b,
        ({
            let plan = control_plan(o, selected, found, current_dir);
            let r = control_settings(plan, controller);
            &&& r is Ok <==> plan is Ok && controller is Ok
            &&& r is Ok ==> r->Ok_0.plan == plan->Ok_0 && r->Ok_0.controller == controller->Ok_0
            &&& r is Ok ==> r->Ok_0.logging_enabled == !o.no_log
        }),
{
}

/// A port is meant by its number in the list or by its name; where nothing is asked for, the only
/// port there is is meant, and none or several are an error.
pub proof fn law_port_that_is_meant(names: Seq<Seq<char>>, name: Seq<char>, n: nat)
    ensures
        number(name) is None ==> port_meant(Some(name), names) == Ok::<Seq<char>, Seq<char>>(name),
        n < names.len() && n <= usize::MAX ==> port_meant(Some(decimal(n)), names) == Ok::<
            Seq<char>,
            Seq<char>,
        >(names[n as int]),
        names.len() <= n <= usize::MAX ==> port_meant(Some(decimal(n)), names) is Err,
        names.len() == 1 ==> port_meant(None, names) == Ok::<Seq<char>, Seq<char>>(names[0]),
        names.len() != 1 ==> port_meant(None, names) is Err,
{
    lemma_number_of_decimal(n);
}

} // verus!

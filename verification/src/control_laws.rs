//! Laws of `control`: what goes out where and how often, what is watched beside it, and when a
//! report of the controller is sent.
use crate::args::applied;
use crate::control::ControlRunModel;
use crate::control_settings::{
    control_change, control_monitor_step, control_pipeline, control_plan, controller_of,
    monitor_items, pipeline_status, planned_control_monitors, ControlSending, ControllerPoll,
    MonitorItem, MonitorState,
};
use crate::display::PortDisplayModel;
use crate::format::{parsed_format, OutputFormat};
use crate::input_laws::{
    input_as_asked, is_first_at, is_found_at, is_observed, lemma_input_on, lemma_input_taken,
    lemma_named_input, lemma_observed, lemma_one_taken, looked_for, names_format, taken_up_to,
};
use crate::io_settings::{
    default_baud_of, input_taken, io_line_break, resolved_input, ResolvedInputModel,
};
use crate::outputs::{law_realign, realigned};
use crate::pipeline::{FilterModel, RouterModel, TransformModel};
use crate::ports::Lookup;
use crate::send_run::ChangeModel;
use crate::session::{input_on, InputBindingModel, InputPlanModel};
use crate::text::{decimal, has_prefix, trimmed};
use vstd::prelude::*;

verus! {

// ---------------------------------------------------------------------------
// The output
// ---------------------------------------------------------------------------

/// Reports go out on the port that was selected, at the baud rate that stands behind it, else at
/// that of `--baud`, else at 115200; in the format that was named, else in PacketACv6; at the rate
/// that was given, else a hundred times a second for PacketACv6, PacketACv6USB and PacketMv1 and
/// twenty times a second for the other formats.
pub proof fn law_control_output_is_as_asked(
    o: ControlRunModel,
    selected: Lookup,
    looked_up: Seq<Lookup>,
    current_dir: Option<Seq<char>>,
)
    requires
        control_plan(o, selected, looked_up, current_dir) is Ok,
    ensures
        ({
            let p = control_plan(o, selected, looked_up, current_dir)->Ok_0;
            let named = match o.format {
                Some(name) => name,
                None => "packetacv6"@,
            };
            &&& selected == Ok::<Seq<char>, Seq<char>>(p.output.port)
            &&& p.output.id == "main"@
            &&& p.output.baud_rate == (if o.port is Some && trimmed(o.port->0.port).len() > 0
                && o.port->0.baud is Some {
                o.port->0.baud->0
            } else if o.baud is Some {
                o.baud->0
            } else {
                115_200
            })
            &&& parsed_format(named) == Ok::<OutputFormat, Seq<char>>(p.format)
            &&& p.rate_hz > 0
            &&& o.rate_hz matches Some(rate) ==> p.rate_hz == rate
            &&& o.rate_hz is None && (p.format == OutputFormat::PacketAcV6 || p.format
                == OutputFormat::PacketAcV6Usb || p.format == OutputFormat::PacketMv1)
                ==> p.rate_hz == 100
            &&& o.rate_hz is None && p.format != OutputFormat::PacketAcV6 && p.format
                != OutputFormat::PacketAcV6Usb && p.format != OutputFormat::PacketMv1
                ==> p.rate_hz == 20
            &&& o.port is Some && trimmed(o.port->0.port).len() > 0
                && o.port->0.display_mode is Some ==> p.output.display_mode
                == o.port->0.display_mode->0
            &&& p.no_log == o.no_log
            &&& p.s3b == o.s3b
        }),
        o.rate_hz != Some(0u32),
{
}

/// A controller that was named is used. Otherwise the only one there is is used without being
/// named, and of several the selected one by its number.
pub proof fn law_controller_is_picked(
    given: Option<Seq<char>>,
    devices: Result<usize, Seq<char>>,
    selected: Result<usize, Seq<char>>,
)
    ensures
        given is Some ==> controller_of(given, devices, selected) == Ok::<
            Option<Seq<char>>,
            Seq<char>,
        >(given),
        given is None && devices is Err ==> controller_of(given, devices, selected) is Err,
        given is None && (devices matches Ok(n) && n <= 1) ==> controller_of(
            given,
            devices,
            selected,
        ) == Ok::<Option<Seq<char>>, Seq<char>>(None),
        given is None && (devices matches Ok(n) && n > 1) && (selected matches Ok(i)) ==> controller_of(
            given,
            devices,
            selected,
        ) == Ok::<Option<Seq<char>>, Seq<char>>(Some(decimal(selected->Ok_0 as nat))),
        given is None && (devices matches Ok(n) && n > 1) && selected is Err ==> controller_of(
            given,
            devices,
            selected,
        ) is Err,
{
}

/// What the controller reports is taken in whole, made compact, encoded in the format of the run
/// and sent to its output, in this order.
pub proof fn law_reports_become_packets(input: Seq<char>, format: OutputFormat)
    ensures
        control_pipeline(input, format).inputs == seq![input],
        control_pipeline(input, format).filter == FilterModel::AllowAll,
        control_pipeline(input, format).transform.len() == 2,
        control_pipeline(input, format).transform[0] == TransformModel::Ds4ToCompact,
        control_pipeline(input, format).transform[1] == (TransformModel::OutputEncode { format }),
        control_pipeline(input, format).router == (RouterModel::Broadcast {
            outputs: seq!["main"@],
        }),
{
}

// ---------------------------------------------------------------------------
// Monitors
// ---------------------------------------------------------------------------

/// The monitors as they are read.
spec fn read_monitors(monitors: Seq<InputBindingModel>) -> Seq<ResolvedInputModel> {
    monitors.map_values(|b: InputBindingModel| resolved_input(b)->Ok_0)
}

proof fn lemma_monitors_taken(
    monitors: Seq<InputBindingModel>,
    looked_up: Seq<Lookup>,
    baud: u32,
    output_port: Seq<char>,
    output_baud: u32,
    display: PortDisplayModel,
    n: int,
    port: Seq<char>,
    f: OutputFormat,
)
    requires
        monitors.len() == looked_up.len(),
        0 <= n <= monitors.len(),
    ensures
        applied(
            control_monitor_step(baud, output_port, output_baud, display),
            (InputPlanModel::empty(), Seq::empty()),
            monitor_items(monitors, looked_up).take(n),
        ) matches Ok(state) ==> {
            &&& taken_up_to(
                InputPlanModel::empty(),
                state.0,
                |b: ResolvedInputModel, p: Seq<char>| io_line_break(b, p, display),
                baud,
                display,
                read_monitors(monitors),
                looked_up,
                n,
                port,
                f,
            )
            &&& forall|i: int|
                0 <= i < n ==> (#[trigger] looked_up[i]) is Ok && resolved_input(monitors[i]) is Ok
            &&& forall|i: int|
                0 <= i < n && #[trigger] is_found_at(looked_up, i, port) ==> {
                    let own = match monitors[i].baud {
                        Some(own) => own,
                        None => baud,
                    };
                    &&& input_on(state.0.inputs, port) is Some
                    &&& input_on(state.0.inputs, port)->0.baud_rate == own
                    &&& port == output_port ==> own == output_baud
                }
        },
    decreases n,
{
    let all = monitor_items(monitors, looked_up);
    let step = control_monitor_step(baud, output_port, output_baud, display);
    let start: MonitorState = (InputPlanModel::empty(), Seq::empty());
    let line_break = |b: ResolvedInputModel, p: Seq<char>| io_line_break(b, p, display);
    let ins = read_monitors(monitors);
    if n == 0 {
        assert(all.take(0) =~= Seq::<MonitorItem>::empty());
    } else {
        let m = n - 1;
        lemma_monitors_taken(
            monitors,
            looked_up,
            baud,
            output_port,
            output_baud,
            display,
            m,
            port,
            f,
        );
        assert(all.take(n).drop_last() =~= all.take(m));
        assert(all.take(n).last() == (monitors[m], looked_up[m]));
        let r = applied(step, start, all.take(n));
        if r is Ok {
            let before = applied(step, start, all.take(m))->Ok_0;
            let after = r->Ok_0;
            let p = looked_up[m]->Ok_0;
            let b = resolved_input(monitors[m])->Ok_0;
            assert(ins[m] == b);
            assert(after.0 == input_taken(before, b, p, baud, line_break(b, p), display).0);
            lemma_one_taken(
                start.0,
                before,
                line_break,
                baud,
                display,
                ins,
                looked_up,
                m,
                port,
                f,
            );
            lemma_input_taken(
                before,
                b,
                p,
                baud,
                line_break(b, p),
                display,
                port,
                f,
            );
            assert(is_found_at(looked_up, m, port) <==> p == port);
        }
    }
}

/// Where settings of `control` are made, every monitor is read on the port that was found for it,
/// at the baud rate that stands with it or else the default, and every format that it names is
/// looked for there. On the port of the output it has the baud rate of the output.
pub proof fn law_control_monitors_are_read(
    o: ControlRunModel,
    selected: Lookup,
    looked_up: Seq<Lookup>,
    current_dir: Option<Seq<char>>,
    i: int,
    f: OutputFormat,
)
    requires
        control_plan(o, selected, looked_up, current_dir) is Ok,
        looked_up.len() == o.monitor_ports.len(),
        0 <= i < looked_up.len(),
    ensures
        looked_up[i] is Ok,
        ({
            let p = control_plan(o, selected, looked_up, current_dir)->Ok_0;
            let port = looked_up[i]->Ok_0;
            exists|j: int|
                0 <= j < p.inputs.len() && (#[trigger] p.inputs[j]).port == port
                    && p.inputs[j].baud_rate == (if o.monitor_ports[i].baud is Some {
                    o.monitor_ports[i].baud->0
                } else if o.baud is Some {
                    o.baud->0
                } else {
                    115_200
                }) && (port == p.output.port ==> p.inputs[j].baud_rate == p.output.baud_rate) && (
                is_first_at(looked_up, i, port) ==> input_as_asked(
                    p.inputs[j],
                    o.monitor_ports[i],
                    o.baud,
                )) && (names_format(o.monitor_ports[i], f) ==> exists|k: int|
                    0 <= k < p.observed_inputs.len() && is_observed(
                        #[trigger] p.observed_inputs[k],
                        p.inputs[j],
                        f,
                        true,
                    ))
        }),
{
    let p = control_plan(o, selected, looked_up, current_dir)->Ok_0;
    let baud = default_baud_of(o.baud);
    let n = looked_up.len() as int;
    let port = looked_up[i]->Ok_0;
    lemma_monitors_taken(
        o.monitor_ports,
        looked_up,
        baud,
        p.output.port,
        p.output.baud_rate,
        o.display,
        n,
        port,
        f,
    );
    assert(monitor_items(o.monitor_ports, looked_up).take(n) =~= monitor_items(
        o.monitor_ports,
        looked_up,
    ));
    let state = planned_control_monitors(
        o.monitor_ports,
        looked_up,
        baud,
        p.output.port,
        p.output.baud_rate,
        o.display,
    )->Ok_0;
    let ins = read_monitors(o.monitor_ports);
    assert(looked_up[i] is Ok && resolved_input(o.monitor_ports[i]) is Ok);
    lemma_named_input(o.monitor_ports[i], f);
    assert(ins[i] == resolved_input(o.monitor_ports[i])->Ok_0);
    assert(is_found_at(looked_up, i, port));
    lemma_input_on(state.0.inputs, port);
    let input = input_on(state.0.inputs, port)->0;
    let j = choose|j: int| 0 <= j < p.inputs.len() && p.inputs[j] == input;
    assert(p.inputs[j].port == port);
    if names_format(o.monitor_ports[i], f) {
        assert(looked_for(state.0, port, f));
        lemma_observed(state.0, true, port, f);
        let k = choose|k: int|
            0 <= k < state.0.observed(true).len() && is_observed(
                #[trigger] state.0.observed(true)[k],
                input,
                f,
                true,
            );
        assert(is_observed(p.observed_inputs[k], p.inputs[j], f, true));
    }
    if is_first_at(looked_up, i, port) {
        assert(input_on(InputPlanModel::empty().inputs, port) is None);
        assert(input_as_asked(p.inputs[j], o.monitor_ports[i], o.baud));
    }
}

// ---------------------------------------------------------------------------
// When reports are sent
// ---------------------------------------------------------------------------

/// A report is sent exactly when its time has come, one was ever read and the controller answers;
/// the next is due a whole number of periods later, after now and within one period.
pub proof fn law_report_is_sent_in_time(
    s: ControlSending,
    now: u64,
    request: bool,
    poll: ControllerPoll,
)
    requires
        s.period > 0,
        now + s.period <= u64::MAX,
    ensures
        s.ticked(now, request, poll).1 is Some <==> poll != ControllerPoll::Failed && now
            >= s.next_send_at && (s.has_report || poll == ControllerPoll::Report),
        s.ticked(now, request, poll).0.period == s.period,
        poll == ControllerPoll::Report ==> s.ticked(now, request, poll).0.has_report,
        s.has_report ==> s.ticked(now, request, poll).0.has_report,
        poll == ControllerPoll::Nothing ==> s.ticked(now, request, poll).0.has_report
            == s.has_report,
        now < s.next_send_at || poll == ControllerPoll::Failed ==> s.ticked(
            now,
            request,
            poll,
        ).0.next_send_at == s.next_send_at,
        poll != ControllerPoll::Failed && now >= s.next_send_at && (now - s.next_send_at) / (
        s.period as int) <= u32::MAX ==> now < s.ticked(now, request, poll).0.next_send_at <= now
            + s.period,
{
    law_realign(s.next_send_at as int, s.period as int, now as int);
    if now == s.next_send_at {
        assert(realigned(s.next_send_at as int, s.period as int, now as int) == now);
    }
}

/// Within one period no second report is sent.
pub proof fn law_one_report_per_period(
    s: ControlSending,
    now: u64,
    request: bool,
    poll: ControllerPoll,
    later: u64,
    later_request: bool,
    later_poll: ControllerPoll,
)
    requires
        s.period > 0,
        now + s.period <= u64::MAX,
        later + s.period <= u64::MAX,
        s.next_send_at == now,
        s.ticked(now, request, poll).1 is Some,
        now <= later,
    ensures
        s.ticked(now, request, poll).0.ticked(later, later_request, later_poll).1 is Some ==> later
            - now >= s.period,
{
    law_realign(s.next_send_at as int, s.period as int, now as int);
    law_report_is_sent_in_time(s, now, request, poll);
    law_report_is_sent_in_time(s.ticked(now, request, poll).0, later, later_request, later_poll);
}

/// A request for READ USB goes with every report of the next quarter of a second, and with at
/// least one. Once one was sent and that time is over, reports go without it.
pub proof fn law_read_usb_lasts_a_quarter_of_a_second(
    s: ControlSending,
    asked_at: u64,
    poll: ControllerPoll,
    later: u64,
    later_poll: ControllerPoll,
)
    requires
        asked_at + 250_000_000 <= u64::MAX,
        asked_at <= later,
    ensures
        ({
            let asked = s.ticked(asked_at, true, poll);
            let after = asked.0.ticked(later, false, later_poll);
            &&& asked.1 is Some ==> asked.1 == Some(true)
            &&& after.1 is Some && later < asked_at + 250_000_000 ==> after.1 == Some(true)
            &&& after.1 is Some && asked.1 is Some && later >= asked_at + 250_000_000 ==> after.1
                == Some(false)
            &&& after.1 is Some && asked.1 is None ==> after.1 == Some(true)
        }),
        !s.read_usb_pending && s.read_usb_until is None ==> s.ticked(later, false, later_poll).1
            != Some(true),
{
}

/// What cannot be made of a report is passed over where the report itself is at fault, and told
/// where anything else is; a write that fails is told, and one that succeeds clears what was told.
pub proof fn law_control_errors(reason: Seq<char>, error: Seq<char>)
    ensures
        pipeline_status("failed to convert DS4 report:"@ + reason) is None,
        !has_prefix(error, "failed to convert DS4 report:"@) ==> pipeline_status(error) == Some(
            "pipeline error: "@ + error,
        ),
        control_change(Err(error)) == ChangeModel::ShowError(error),
        control_change(Ok(())) == ChangeModel::ClearError,
{
    let text = "failed to convert DS4 report:"@ + reason;
    assert(text.take("failed to convert DS4 report:"@.len() as int)
        =~= "failed to convert DS4 report:"@);
}

} // verus!

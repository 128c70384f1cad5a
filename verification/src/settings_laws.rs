//! Laws of the settings of `send` and `io`: what goes out where, at which baud rate, in which
//! format and how often, and what is looked for on the ports.
use crate::args::{applied, collected};
use crate::display::PortDisplayModel;
use crate::format::{format_packet_len, parsed_format, OutputFormat};
use crate::io::{
    rate_parts, send_rate, IoOptionsModel, IoOutputModel, NumberReading, RateModel, RateUnit,
    ReadingsModel,
};
use crate::io_settings::{
    default_baud_of, default_format_of, default_rate_of, io_settings, output_items, output_reader,
    output_step, resolved_outputs, FiguresModel, IoOutputsModel, OutputItem, ResolvedOutputModel,
};
use crate::output_plan::OutputSettingsModel;
use crate::outputs::{law_loads, loads_checked, on_line, same_line, total_bps, LoadModel};
use crate::ports::Lookup;
use crate::send::{SendOptionsModel, SendOutputBindingModel};
use crate::send_settings::{
    send_bindings, send_items, send_load, send_output_reader, send_rate_of, send_settings,
    send_step, ResolvedSendModel, SendItem, SendState,
};
use crate::session::InputPlanModel;
use crate::table::found;
use crate::text::{
    decimal, has_suffix, is_digit, is_white, lemma_decimal, lemma_trim_end, lemma_trim_start, lower,
    trimmed,
};
use vstd::prelude::*;

verus! {

// ---------------------------------------------------------------------------
// Lists that are read item by item
// ---------------------------------------------------------------------------

/// Where no item is read as nothing, a list that is read has one value for each item, in order.
pub proof fn lemma_collected_all<I, T>(
    read: spec_fn(I) -> Result<Option<T>, Seq<char>>,
    items: Seq<I>,
)
    requires
        forall|x: I| #[trigger] read(x) != Ok::<Option<T>, Seq<char>>(None),
    ensures
        collected(read, items) matches Ok(values) ==> values.len() == items.len() && forall|i: int|
            0 <= i < items.len() ==> read(items[i]) == Ok::<Option<T>, Seq<char>>(
                Some(#[trigger] values[i]),
            ),
        (forall|i: int| 0 <= i < items.len() ==> read(#[trigger] items[i]) is Ok) ==> collected(
            read,
            items,
        ) is Ok,
    decreases items.len(),
{
    if items.len() > 0 {
        let init = items.drop_last();
        lemma_collected_all(read, init);
        if forall|i: int| 0 <= i < items.len() ==> read(#[trigger] items[i]) is Ok {
            assert forall|i: int| 0 <= i < init.len() implies read(#[trigger] init[i]) is Ok by {
                assert(init[i] == items[i]);
            }
            assert(read(items[items.len() - 1]) is Ok);
        }
        if collected(read, items) is Ok {
            let values = collected(read, items)->Ok_0;
            assert(read(items.last()) != Ok::<Option<T>, Seq<char>>(None));
            assert forall|i: int| 0 <= i < items.len() implies read(items[i]) == Ok::<
                Option<T>,
                Seq<char>,
            >(Some(#[trigger] values[i])) by {
                if i < init.len() {
                    assert(init[i] == items[i]);
                    assert(values[i] == collected(read, init)->Ok_0[i]);
                }
            }
        }
    }
}

// ---------------------------------------------------------------------------
// Outputs of `send`
// ---------------------------------------------------------------------------

proof fn lemma_send_outputs(
    outs: Seq<ResolvedSendModel>,
    looked_up: Seq<Lookup>,
    baud: u32,
    display: PortDisplayModel,
    interactive: bool,
    n: int,
)
    requires
        outs.len() == looked_up.len(),
        0 <= n <= outs.len(),
    ensures
        applied(
            send_step(baud, display, interactive),
            (Seq::empty(), InputPlanModel::empty()),
            send_items(outs, looked_up).take(n),
        ) matches Ok(state) ==> state.0.len() == n && forall|i: int|
            0 <= i < n ==> send_output_stands(#[trigger] state.0[i], outs[i], looked_up[i], baud),
    decreases n,
{
    let all = send_items(outs, looked_up);
    let step = send_step(baud, display, interactive);
    let start: SendState = (Seq::empty(), InputPlanModel::empty());
    if n > 0 {
        lemma_send_outputs(outs, looked_up, baud, display, interactive, n - 1);
        assert(all.take(n).drop_last() =~= all.take(n - 1));
        assert(all.take(n).last() == (outs[n - 1], looked_up[n - 1]));
        if applied(step, start, all.take(n)) is Ok {
            let before = applied(step, start, all.take(n - 1))->Ok_0;
            let after = applied(step, start, all.take(n))->Ok_0;
            assert forall|i: int| 0 <= i < n implies send_output_stands(
                #[trigger] after.0[i],
                outs[i],
                looked_up[i],
                baud,
            ) by {
                if i < n - 1 {
                    assert(after.0[i] == before.0[i]);
                }
            }
        }
    } else {
        assert(all.take(0) =~= Seq::<SendItem>::empty());
    }
}

/// An output is what was asked for, on the port that was found for it, at its own baud rate or
/// else the one for all.
pub open spec fn send_output_stands(
    output: OutputSettingsModel<u32>,
    asked: ResolvedSendModel,
    looked_up: Lookup,
    baud: u32,
) -> bool {
    &&& output.session.id == asked.id
    &&& looked_up == Ok::<Seq<char>, Seq<char>>(output.session.port)
    &&& asked.baud matches Some(own) ==> output.session.baud_rate == own
    &&& asked.baud is None ==> output.session.baud_rate == baud
    &&& output.format == asked.format
    &&& output.rate_hz == asked.rate_hz
    &&& asked.display_mode matches Some(mode) ==> output.session.display_mode == mode
}

/// The output that a binding of `send` asks for: its own baud rate, format and rate, and where it
/// names none those of the options. Without a `--baud` that is 115200, without a `--format`
/// PacketACv6, and without a `--rate` 50 packets per second.
pub open spec fn send_output_as_asked(
    output: OutputSettingsModel<u32>,
    b: SendOutputBindingModel,
    looked_up: Lookup,
    o: SendOptionsModel,
) -> bool {
    &&& output.session.id == b.id
    &&& looked_up == Ok::<Seq<char>, Seq<char>>(output.session.port)
    &&& output.session.baud_rate == (if b.baud is Some {
        b.baud->0
    } else if o.baud is Some {
        o.baud->0
    } else {
        115_200
    })
    &&& output.rate_hz > 0
    &&& output.rate_hz == (if b.rate_hz is Some {
        b.rate_hz->0
    } else if o.rate_hz is Some {
        o.rate_hz->0
    } else {
        50
    })
    &&& Ok::<OutputFormat, Seq<char>>(output.format) == parsed_format(
        if b.format is Some {
            b.format->0
        } else if o.format is Some {
            o.format->0
        } else {
            "packetacv6"@
        },
    )
    &&& b.display_mode matches Some(mode) ==> output.session.display_mode == mode
}

/// Where settings are made, each output that was named is there, in order and as it was asked
/// for. Without named outputs there is one on the port of `--port`, at the baud rate that stands
/// behind it.
pub proof fn law_send_outputs_are_as_asked(
    o: SendOptionsModel,
    selected: Lookup,
    output_ports: Seq<Lookup>,
    monitor_ports: Seq<Lookup>,
    current_dir: Option<Seq<char>>,
)
    requires
        send_settings(o, selected, output_ports, monitor_ports, current_dir) is Ok,
        o.outputs.len() > 0 ==> output_ports.len() == o.outputs.len(),
        o.outputs.len() == 0 && o.port is Some ==> output_ports.len() == 1,
        o.outputs.len() == 0 && o.port is None ==> output_ports.len() == (
        if o.allow_receive_only {
            0int
        } else {
            1
        }),
    ensures
        ({
            let s = send_settings(o, selected, output_ports, monitor_ports, current_dir)->Ok_0;
            &&& s.outputs.len() == output_ports.len()
            &&& o.outputs.len() > 0 ==> o.port is None && forall|i: int|
                0 <= i < o.outputs.len() ==> send_output_as_asked(
                    #[trigger] s.outputs[i],
                    o.outputs[i],
                    output_ports[i],
                    o,
                )
            &&& o.outputs.len() == 0 && o.port is Some && trimmed(o.port->0.port).len() > 0
                ==> send_output_as_asked(
                s.outputs[0],
                SendOutputBindingModel {
                    id: "main"@,
                    port: o.port->0.port,
                    baud: o.port->0.baud,
                    rate_hz: None,
                    format: None,
                    display_mode: o.port->0.display_mode,
                    line_break_mode: o.port->0.line_break_mode,
                },
                output_ports[0],
                o,
            )
            &&& s.logging_enabled == !o.no_log
            &&& s.interactive == o.interactive
            &&& s.s3b == o.s3b
        }),
{
    let baud = default_baud_of(o.baud);
    let (outs, monitors) = send_bindings(o, selected)->Ok_0;
    let rate = send_rate_of(o);
    let format = default_format_of(o.format)->Ok_0;
    lemma_collected_all(send_output_reader(rate, format), o.outputs);
    assert(outs.len() == output_ports.len());
    let n = outs.len() as int;
    lemma_send_outputs(outs, output_ports, baud, o.display, o.interactive, n);
    assert(send_items(outs, output_ports).take(n) =~= send_items(outs, output_ports));
    let s = send_settings(o, selected, output_ports, monitor_ports, current_dir)->Ok_0;
    if o.outputs.len() > 0 {
        assert forall|i: int| 0 <= i < o.outputs.len() implies send_output_as_asked(
            #[trigger] s.outputs[i],
            o.outputs[i],
            output_ports[i],
            o,
        ) by {
            let asked = outs[i];
            assert(send_output_stands(s.outputs[i], outs[i], output_ports[i], baud));
        }
    } else if o.port is Some {
        assert(send_output_stands(s.outputs[0], outs[0], output_ports[0], baud));
    }
}

// ---------------------------------------------------------------------------
// Outputs of `io`
// ---------------------------------------------------------------------------

/// The output that a binding of `io` asks for: its own baud rate, format and rate, and where it
/// names none those of the options; 115200 baud and PacketACv6 where these name none either.
pub open spec fn io_output_as_asked(
    output: OutputSettingsModel<FiguresModel>,
    b: IoOutputModel,
    looked_up: Lookup,
    figures: FiguresModel,
    o: IoOptionsModel,
) -> bool {
    &&& output.session.id == b.id
    &&& looked_up == Ok::<Seq<char>, Seq<char>>(output.session.port)
    &&& output.session.baud_rate == (if b.baud is Some {
        b.baud->0
    } else if o.baud is Some {
        o.baud->0
    } else {
        115_200
    })
    &&& output.rate_hz == figures
    &&& Ok::<OutputFormat, Seq<char>>(output.format) == parsed_format(
        if b.format is Some {
            b.format->0
        } else if o.format is Some {
            o.format->0
        } else {
            "packetacv6"@
        },
    )
    &&& b.display_mode matches Some(mode) ==> output.session.display_mode == mode
}

/// The rate that the figures of an output are made from: its own, else that of the options, else
/// ten packets per second.
pub proof fn law_io_rates_are_as_asked(o: IoOptionsModel, i: int)
    requires
        resolved_outputs(o) is Ok,
        0 <= i < o.outputs.len(),
    ensures
        resolved_outputs(o)->Ok_0.len() == o.outputs.len(),
        ({
            let rate = resolved_outputs(o)->Ok_0[i].rate_hz;
            &&& o.outputs[i].rate_hz matches Some(own) ==> rate == own
            &&& o.outputs[i].rate_hz is None && o.rate_hz is Some ==> rate == o.rate_hz->0
            &&& o.outputs[i].rate_hz is None && o.rate_hz is None ==> rate == (RateModel {
                number: "10"@,
                unit: RateUnit::Hz,
            })
        }),
{
    let format = default_format_of(o.format)->Ok_0;
    let rate = default_rate_of(o);
    lemma_collected_all(output_reader(rate, format), o.outputs);
    let output = resolved_outputs(o)->Ok_0[i];
}

proof fn lemma_io_outputs(
    outs: Seq<ResolvedOutputModel>,
    looked_up: Seq<Lookup>,
    figures: Seq<FiguresModel>,
    baud: u32,
    display: PortDisplayModel,
    n: int,
)
    requires
        outs.len() == looked_up.len(),
        outs.len() == figures.len(),
        0 <= n <= outs.len(),
    ensures
        applied(
            output_step(baud, display),
            Seq::empty(),
            output_items(outs, looked_up, figures).take(n),
        ) matches Ok(outputs) ==> outputs.len() == n && forall|i: int|
            0 <= i < n ==> {
                let output = #[trigger] outputs[i];
                &&& output.session.id == outs[i].id
                &&& looked_up[i] == Ok::<Seq<char>, Seq<char>>(output.session.port)
                &&& outs[i].baud matches Some(own) ==> output.session.baud_rate == own
                &&& outs[i].baud is None ==> output.session.baud_rate == baud
                &&& output.format == outs[i].format
                &&& output.rate_hz == figures[i]
                &&& outs[i].display_mode matches Some(mode) ==> output.session.display_mode == mode
            },
    decreases n,
{
    let all = output_items(outs, looked_up, figures);
    let step = output_step(baud, display);
    let start: IoOutputsModel = Seq::empty();
    if n > 0 {
        lemma_io_outputs(outs, looked_up, figures, baud, display, n - 1);
        assert(all.take(n).drop_last() =~= all.take(n - 1));
        assert(all.take(n).last() == (outs[n - 1], looked_up[n - 1], figures[n - 1]));
        if applied(step, start, all.take(n)) is Ok {
            let before = applied(step, start, all.take(n - 1))->Ok_0;
            let after = applied(step, start, all.take(n))->Ok_0;
            assert(forall|i: int| 0 <= i < n - 1 ==> #[trigger] after[i] == before[i]);
        }
    } else {
        assert(all.take(0) =~= Seq::<OutputItem>::empty());
    }
}

/// Where settings are made, each output that was named is there, in order and as it was asked
/// for.
pub proof fn law_io_outputs_are_as_asked(
    o: IoOptionsModel,
    output_ports: Seq<Lookup>,
    figures: Seq<FiguresModel>,
    input_ports: Seq<Lookup>,
    current_dir: Option<Seq<char>>,
)
    requires
        io_settings(o, output_ports, figures, input_ports, current_dir) is Ok,
        output_ports.len() == o.outputs.len(),
        figures.len() == o.outputs.len(),
    ensures
        ({
            let s = io_settings(o, output_ports, figures, input_ports, current_dir)->Ok_0;
            &&& s.outputs.len() == o.outputs.len()
            &&& forall|i: int|
                0 <= i < o.outputs.len() ==> io_output_as_asked(
                    #[trigger] s.outputs[i],
                    o.outputs[i],
                    output_ports[i],
                    figures[i],
                    o,
                )
            &&& s.logging_enabled == !o.no_log
            &&& s.s3b == o.s3b
        }),
{
    let baud = default_baud_of(o.baud);
    let outs = resolved_outputs(o)->Ok_0;
    let rate = default_rate_of(o);
    let format = default_format_of(o.format)->Ok_0;
    lemma_collected_all(output_reader(rate, format), o.outputs);
    let n = outs.len() as int;
    lemma_io_outputs(outs, output_ports, figures, baud, o.display, n);
    assert(output_items(outs, output_ports, figures).take(n) =~= output_items(
        outs,
        output_ports,
        figures,
    ));
    let s = io_settings(o, output_ports, figures, input_ports, current_dir)->Ok_0;
    assert forall|i: int| 0 <= i < o.outputs.len() implies io_output_as_asked(
        #[trigger] s.outputs[i],
        o.outputs[i],
        output_ports[i],
        figures[i],
        o,
    ) by {
        let asked = outs[i];
    }
}

// ---------------------------------------------------------------------------
// What lines carry
// ---------------------------------------------------------------------------

/// The bits per second that the outputs on a line ask of it together.
pub open spec fn asked_of_line(loads: Seq<LoadModel>, port: Seq<char>, baud_rate: u32) -> int {
    loads.fold_left(
        0int,
        |sum: int, l: LoadModel|
            if l.port == port && l.baud_rate == baud_rate {
                sum + l.line_bps
            } else {
                sum
            },
    )
}

proof fn lemma_total_bps(loads: Seq<LoadModel>, line: LoadModel)
    ensures
        ({
            let asked = asked_of_line(loads, line.port, line.baud_rate);
            total_bps(on_line(loads, line)) == if asked <= u64::MAX {
                asked
            } else {
                u64::MAX as int
            }
        }),
        asked_of_line(loads, line.port, line.baud_rate) >= 0,
    decreases loads.len(),
{
    reveal(Seq::filter);
    let keep = |l: LoadModel| same_line(l, line);
    if loads.len() > 0 {
        let init = loads.drop_last();
        lemma_total_bps(init, line);
        if keep(loads.last()) {
            assert(loads.filter(keep) =~= init.filter(keep).push(loads.last()));
            assert(loads.filter(keep).drop_last() =~= init.filter(keep));
        } else {
            assert(loads.filter(keep) =~= init.filter(keep));
        }
    }
}

/// Outputs are accepted exactly where the bits per second that they ask of each line together,
/// ten for each byte, are no more than its baud rate.
pub proof fn law_lines_carry_what_is_asked(kind: Seq<char>, loads: Seq<LoadModel>)
    ensures
        loads_checked(kind, loads) is Ok <==> forall|i: int|
            0 <= i < loads.len() ==> asked_of_line(
                loads,
                (#[trigger] loads[i]).port,
                loads[i].baud_rate,
            ) <= loads[i].baud_rate,
{
    law_loads(kind, loads);
    assert forall|i: int| 0 <= i < loads.len() implies (asked_of_line(
        loads,
        (#[trigger] loads[i]).port,
        loads[i].baud_rate,
    ) <= loads[i].baud_rate <==> total_bps(on_line(loads, loads[i])) <= loads[i].baud_rate) by {
        lemma_total_bps(loads, loads[i]);
    }
}

proof fn lemma_asked_at_least(loads: Seq<LoadModel>, i: int)
    requires
        0 <= i < loads.len(),
    ensures
        asked_of_line(loads, loads[i].port, loads[i].baud_rate) >= loads[i].line_bps,
    decreases loads.len(),
{
    let init = loads.drop_last();
    if i < loads.len() - 1 {
        assert(init[i] == loads[i]);
        lemma_asked_at_least(init, i);
    } else {
        lemma_total_bps(init, loads[i]);
    }
}

/// The bytes of the packets of an output, ten bits each and as many times a second as it sends,
/// fit the baud rate of its port, unless texts are sent by hand.
pub proof fn law_send_output_fits_its_line(
    o: SendOptionsModel,
    selected: Lookup,
    output_ports: Seq<Lookup>,
    monitor_ports: Seq<Lookup>,
    current_dir: Option<Seq<char>>,
    i: int,
)
    requires
        send_settings(o, selected, output_ports, monitor_ports, current_dir) is Ok,
        !o.interactive,
        0 <= i < send_settings(
            o,
            selected,
            output_ports,
            monitor_ports,
            current_dir,
        )->Ok_0.outputs.len(),
    ensures
        ({
            let s = send_settings(o, selected, output_ports, monitor_ports, current_dir)->Ok_0;
            let output = s.outputs[i];
            format_packet_len(output.format) * 10 * output.rate_hz <= output.session.baud_rate
        }),
{
    let s = send_settings(o, selected, output_ports, monitor_ports, current_dir)->Ok_0;
    let loads = s.outputs.map_values(|x: OutputSettingsModel<u32>| send_load(x));
    law_lines_carry_what_is_asked("send"@, loads);
    lemma_asked_at_least(loads, i);
    let output = s.outputs[i];
    assert(loads[i] == send_load(output));
    let len = format_packet_len(output.format);
    assert(0 <= len * 10 * output.rate_hz <= 400 * 0xFFFF_FFFF) by (nonlinear_arith)
        requires
            len <= 40,
            output.rate_hz <= 0xFFFF_FFFF,
    ;
}

// ---------------------------------------------------------------------------
// Units of rates
// ---------------------------------------------------------------------------

/// A text with a unit behind it, and what stands before the unit.
proof fn lemma_unit(d: Seq<char>, unit: Seq<char>)
    requires
        unit.len() > 0,
    ensures
        (d + unit).take((d + unit).len() - unit.len()) == d,
        has_suffix(d + unit, unit),
        (d + unit).last() == unit.last(),
{
    let s = d + unit;
    assert(s.take(s.len() - unit.len()) =~= d);
    assert(s.skip(s.len() - unit.len()) =~= unit);
}

proof fn lemma_suffix_char(s: Seq<char>, suffix: Seq<char>, k: int)
    requires
        has_suffix(s, suffix),
        1 <= k <= suffix.len(),
    ensures
        s[s.len() - k] == suffix[suffix.len() - k],
{
    assert(s.skip(s.len() - suffix.len())[suffix.len() - k] == s[s.len() - k]);
}

proof fn lemma_plain_number(n: nat, unit: Seq<char>)
    requires
        unit.len() > 0,
        !is_white(unit.last()),
    ensures
        trimmed(decimal(n)) == decimal(n),
        trimmed(decimal(n) + unit) == decimal(n) + unit,
        is_digit(decimal(n).last()),
{
    let d = decimal(n);
    let s = d + unit;
    lemma_decimal(n);
    assert(is_digit(d[0]) && is_digit(d[d.len() - 1]));
    assert(s[0] == d[0] && s[s.len() - 1] == unit[unit.len() - 1]);
    lemma_trim_start(d, 0);
    assert(d.skip(0) =~= d);
    lemma_trim_end(d, d.len() as int);
    assert(d.take(d.len() as int) =~= d);
    lemma_trim_start(s, 0);
    assert(s.skip(0) =~= s);
    lemma_trim_end(s, s.len() as int);
    assert(s.take(s.len() as int) =~= s);
}

/// A number with `s` behind it is a time between two packets in seconds; a number with `hz` behind
/// it, or with nothing, is how many packets a second has.
pub proof fn law_units_of_rates(n: nat)
    ensures
        rate_parts(decimal(n) + "s"@) == (decimal(n), RateUnit::Seconds),
        rate_parts(decimal(n) + "hz"@) == (decimal(n), RateUnit::Hz),
        rate_parts(decimal(n)) == (decimal(n), RateUnit::Hz),
{
    let d = decimal(n);
    lemma_units();
    lemma_plain_number(n, "s"@);
    lemma_plain_number(n, "hz"@);
    lemma_unit(d, "s"@);
    lemma_unit(d, "hz"@);
    let s = d + "s"@;
    assert(s[s.len() - 2] == d.last());
    if has_suffix(s, "seconds"@) {
        lemma_suffix_char(s, "seconds"@, 2);
    }
    if has_suffix(s, "secs"@) {
        lemma_suffix_char(s, "secs"@, 2);
    }
    if has_suffix(s, "second"@) {
        lemma_suffix_char(s, "second"@, 1);
    }
    if has_suffix(s, "sec"@) {
        lemma_suffix_char(s, "sec"@, 1);
    }
    lemma_other_units(d + "hz"@, 'z');
    lemma_other_units(d, d.last());
    if has_suffix(d, "hz"@) {
        lemma_suffix_char(d, "hz"@, 1);
    }
    if has_suffix(d, "h"@) {
        lemma_suffix_char(d, "h"@, 1);
    }
}

proof fn lemma_units()
    ensures
        "seconds"@.len() == 7 && "seconds"@[6] == 's' && "seconds"@[5] == 'd',
        "second"@.len() == 6 && "second"@[5] == 'd',
        "secs"@.len() == 4 && "secs"@[3] == 's' && "secs"@[2] == 'c',
        "sec"@.len() == 3 && "sec"@[2] == 'c',
        "s"@.len() == 1 && "s"@[0] == 's',
        "hz"@.len() == 2 && "hz"@[1] == 'z',
        "h"@.len() == 1 && "h"@[0] == 'h',
{
    reveal_strlit("seconds");
    reveal_strlit("second");
    reveal_strlit("secs");
    reveal_strlit("sec");
    reveal_strlit("s");
    reveal_strlit("hz");
    reveal_strlit("h");
}

proof fn lemma_other_units(s: Seq<char>, c: char)
    requires
        s.len() > 0,
        s.last() == c,
        c != 's' && c != 'd' && c != 'c',
    ensures
        !has_suffix(s, "seconds"@) && !has_suffix(s, "second"@) && !has_suffix(s, "secs"@)
            && !has_suffix(s, "sec"@) && !has_suffix(s, "s"@),
{
    lemma_units();
    if has_suffix(s, "seconds"@) {
        lemma_suffix_char(s, "seconds"@, 1);
    }
    if has_suffix(s, "second"@) {
        lemma_suffix_char(s, "second"@, 1);
    }
    if has_suffix(s, "secs"@) {
        lemma_suffix_char(s, "secs"@, 1);
    }
    if has_suffix(s, "sec"@) {
        lemma_suffix_char(s, "sec"@, 1);
    }
    if has_suffix(s, "s"@) {
        lemma_suffix_char(s, "s"@, 1);
    }
}

/// A rate must be above 0, and counts with its unit in capital letters or small ones.
pub proof fn law_rates_are_positive(context: Seq<char>, value: Seq<char>, readings: ReadingsModel)
    requires
        trimmed(value).len() > 0,
    ensures
        ({
            let (number, unit) = rate_parts(lower(trimmed(value)));
            let r = send_rate(context, value, readings);
            &&& r is Ok <==> found(readings, number) == Some(NumberReading::Positive)
            &&& r matches Ok(rate) ==> rate.number == number && rate.unit == unit
        }),
{
}

} // verus!

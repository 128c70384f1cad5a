//! Laws of the settings of `monitor` and `xbee-talk`: which ports are read, at which baud rates,
//! and how they are shown.
use crate::args::{applied, PortSpecModel};
use crate::control_settings::chosen_port;
use crate::display::PortDisplayModel;
use crate::input_laws::{
    first_on, is_first_at, is_found_at, lemma_first_on, lemma_input_on, lemma_input_on_push,
};
use crate::io_settings::default_baud_of;
use crate::monitor::{
    monitor_settings, ports_to_watch, watch_items, watch_step, watched, MonitorOptionsModel,
    WatchItem,
};
use crate::ports::Lookup;
use crate::session::{input_on, InputSpecModel};
use crate::text::trimmed;
use crate::xbee_talk::{
    talk_input, talk_items, talk_settings, talk_step, TalkItem, TalkOptionsModel,
};
use vstd::prelude::*;

verus! {

/// An input is as a port asks: at the baud rate that stands behind it, else at that of `--baud`,
/// else at 115200; shown as asked.
pub open spec fn port_as_asked(
    input: InputSpecModel,
    spec: PortSpecModel,
    baud: Option<u32>,
) -> bool {
    &&& input.id == input.port
    &&& input.baud_rate == (if spec.baud is Some {
        spec.baud->0
    } else if baud is Some {
        baud->0
    } else {
        115_200
    })
    &&& spec.display_mode matches Some(mode) ==> input.display_mode == mode
    &&& spec.line_break_mode matches Some(mode) ==> input.line_break_mode == mode
}

proof fn lemma_watched(
    ports: Seq<PortSpecModel>,
    looked_up: Seq<Lookup>,
    baud: u32,
    display: PortDisplayModel,
    n: int,
    port: Seq<char>,
)
    requires
        ports.len() == looked_up.len(),
        0 <= n <= ports.len(),
    ensures
        applied(watch_step(baud, display), Seq::empty(), watch_items(ports, looked_up).take(n)) matches
            Ok(inputs) ==> {
            &&& forall|i: int| 0 <= i < n ==> (#[trigger] looked_up[i]) is Ok
            &&& forall|i: int|
                0 <= i < n && #[trigger] is_first_at(looked_up, i, port) ==> input_on(inputs, port)
                    == Some(watched(ports[i], port, baud, display))
            &&& (forall|i: int| 0 <= i < n ==> !#[trigger] is_found_at(looked_up, i, port))
                ==> input_on(inputs, port) is None
            &&& inputs.len() <= n
        },
        (forall|i: int| 0 <= i < looked_up.len() ==> (#[trigger] looked_up[i]) is Ok) ==> applied(
            watch_step(baud, display),
            Seq::empty(),
            watch_items(ports, looked_up).take(n),
        ) is Ok,
    decreases n,
{
    let all = watch_items(ports, looked_up);
    let step = watch_step(baud, display);
    let start = Seq::<InputSpecModel>::empty();
    if n == 0 {
        assert(all.take(0) =~= Seq::<WatchItem>::empty());
        assert(input_on(start, port) is None);
    } else {
        let m = n - 1;
        lemma_watched(ports, looked_up, baud, display, m, port);
        assert(all.take(n).drop_last() =~= all.take(m));
        assert(all.take(n).last() == (ports[m], looked_up[m]));
        let r = applied(step, start, all.take(m));
        if r is Ok && looked_up[m] is Ok {
            let p = looked_up[m]->Ok_0;
            let before = r->Ok_0;
            let after = applied(step, start, all.take(n))->Ok_0;
            let more = watched(ports[m], p, baud, display);
            lemma_input_on_push(before, more, port);
            assert(is_found_at(looked_up, m, port) <==> p == port);
            assert forall|i: int| 0 <= i < n && #[trigger] is_first_at(
                looked_up,
                i,
                port,
            ) implies input_on(after, port) == Some(watched(ports[i], port, baud, display)) by {
                if i == m {
                    assert(input_on(before, port) is None);
                }
            }
        }
    }
}

/// Where settings of `monitor` are made, every port that was named is read, as the first that
/// names it asks. Without one the port that is there is read.
pub proof fn law_monitor_reads_the_ports(
    o: MonitorOptionsModel,
    looked_up: Seq<Lookup>,
    current_dir: Option<Seq<char>>,
    i: int,
)
    requires
        looked_up.len() == (if o.ports.len() == 0 {
            1
        } else {
            o.ports.len()
        }),
        0 <= i < looked_up.len(),
    ensures
        (forall|k: int| 0 <= k < looked_up.len() ==> (#[trigger] looked_up[k]) is Ok)
            <==> monitor_settings(o, looked_up, current_dir) is Ok,
        monitor_settings(o, looked_up, current_dir) matches Ok(s) ==> {
            let port = looked_up[i]->Ok_0;
            let spec = if o.ports.len() == 0 {
                PortSpecModel {
                    port: seq![],
                    baud: None,
                    display_mode: None,
                    line_break_mode: None,
                }
            } else {
                o.ports[i]
            };
            &&& s.logging_enabled == !o.no_log
            &&& exists|j: int|
                0 <= j < s.inputs.len() && (#[trigger] s.inputs[j]).port == port && (is_first_at(
                    looked_up,
                    i,
                    port,
                ) ==> port_as_asked(s.inputs[j], spec, o.baud))
        },
{
    let ports = ports_to_watch(o.ports);
    let n = ports.len() as int;
    let baud = default_baud_of(o.baud);
    let port = looked_up[i]->Ok_0;
    lemma_watched(ports, looked_up, baud, o.display, n, port);
    assert(watch_items(ports, looked_up).take(n) =~= watch_items(ports, looked_up));
    if let Ok(s) = monitor_settings(o, looked_up, current_dir) {
        assert(looked_up[i] is Ok);
        assert(is_found_at(looked_up, i, port));
        lemma_first_on(looked_up, port, i);
        assert(is_first_at(looked_up, first_on(looked_up, port, i), port));
        lemma_input_on(s.inputs, port);
        let input = input_on(s.inputs, port)->0;
        let j = choose|j: int| 0 <= j < s.inputs.len() && s.inputs[j] == input;
        assert(s.inputs[j].port == port);
    }
}

proof fn lemma_talk_inputs(
    first: InputSpecModel,
    specs: Seq<PortSpecModel>,
    looked_up: Seq<Lookup>,
    baud: u32,
    display: PortDisplayModel,
    n: int,
    port: Seq<char>,
)
    requires
        specs.len() == looked_up.len(),
        0 <= n <= specs.len(),
    ensures
        applied(talk_step(baud, display), seq![first], talk_items(specs, looked_up).take(n)) matches
            Ok(inputs) ==> {
            &&& inputs.len() > 0 && inputs[0] == first
            &&& forall|i: int|
                0 <= i < n && #[trigger] is_found_at(looked_up, i, port) ==> exists|j: int|
                    0 <= j < inputs.len() && (#[trigger] inputs[j]).port == port
                        && inputs[j].baud_rate == talk_input(
                        specs[i].normalized(),
                        port,
                        baud,
                        display,
                    ).baud_rate
            &&& forall|i: int| 0 <= i < n ==> (#[trigger] looked_up[i]) is Ok
        },
    decreases n,
{
    let all = talk_items(specs, looked_up);
    let step = talk_step(baud, display);
    if n == 0 {
        assert(all.take(0) =~= Seq::<TalkItem>::empty());
    } else {
        let m = n - 1;
        lemma_talk_inputs(first, specs, looked_up, baud, display, m, port);
        assert(all.take(n).drop_last() =~= all.take(m));
        assert(all.take(n).last() == (specs[m], looked_up[m]));
        let r = applied(step, seq![first], all.take(n));
        if r is Ok {
            let before = applied(step, seq![first], all.take(m))->Ok_0;
            let after = r->Ok_0;
            let p = looked_up[m]->Ok_0;
            let input = talk_input(specs[m].normalized(), p, baud, display);
            assert(forall|k: int| 0 <= k < before.len() ==> #[trigger] before[k] == after[k]);
            assert forall|i: int| 0 <= i < n && #[trigger] is_found_at(
                looked_up,
                i,
                port,
            ) implies exists|j: int|
                0 <= j < after.len() && (#[trigger] after[j]).port == port && after[j].baud_rate
                    == talk_input(specs[i].normalized(), port, baud, display).baud_rate by {
                if i < m {
                    let j = choose|j: int|
                        0 <= j < before.len() && (#[trigger] before[j]).port == port
                            && before[j].baud_rate == talk_input(
                            specs[i].normalized(),
                            port,
                            baud,
                            display,
                        ).baud_rate;
                    assert(after[j] == before[j]);
                } else if exists|j: int| 0 <= j < before.len() && (#[trigger] before[j]).port
                    == input.port {
                    let j = choose|j: int| 0 <= j < before.len() && (#[trigger] before[j]).port
                        == input.port;
                    assert(after[j] == before[j]);
                } else {
                    assert(after[before.len() as int] == input);
                }
            }
        }
    }
}

/// Where settings of `xbee-talk` are made, what is typed goes out on the port that was selected,
/// at the baud rate that stands behind it, else at that of `--baud`, else at 115200. That port is
/// read, and every further one, each at its own baud rate or else the same default.
pub proof fn law_talk_uses_the_ports(
    o: TalkOptionsModel,
    selected: Lookup,
    looked_up: Seq<Lookup>,
    current_dir: Option<Seq<char>>,
    i: int,
)
    requires
        looked_up.len() == o.inputs.len(),
        talk_settings(o, selected, looked_up, current_dir) is Ok,
    ensures
        ({
            let s = talk_settings(o, selected, looked_up, current_dir)->Ok_0;
            &&& selected == Ok::<Seq<char>, Seq<char>>(s.output.port)
            &&& s.output.baud_rate == (if o.port is Some && trimmed(o.port->0.port).len() > 0
                && o.port->0.baud is Some {
                o.port->0.baud->0
            } else if o.baud is Some {
                o.baud->0
            } else {
                115_200
            })
            &&& s.inputs.len() > 0 && s.inputs[0].port == s.output.port
            &&& s.inputs[0].baud_rate == s.output.baud_rate
            &&& s.logging_enabled == !o.no_log
            &&& s.s3b == o.s3b
            &&& 0 <= i < o.inputs.len() ==> looked_up[i] is Ok && exists|j: int|
                0 <= j < s.inputs.len() && (#[trigger] s.inputs[j]).port == looked_up[i]->Ok_0
                    && s.inputs[j].baud_rate == (if o.inputs[i].baud is Some {
                    o.inputs[i].baud->0
                } else if o.baud is Some {
                    o.baud->0
                } else {
                    115_200
                })
        }),
{
    let s = talk_settings(o, selected, looked_up, current_dir)->Ok_0;
    let baud = default_baud_of(o.baud);
    let first = talk_input(chosen_port(o.port), selected->Ok_0, baud, o.display);
    let n = o.inputs.len() as int;
    let port = if 0 <= i < n {
        looked_up[i]->Ok_0
    } else {
        seq![]
    };
    lemma_talk_inputs(first, o.inputs, looked_up, baud, o.display, n, port);
    assert(talk_items(o.inputs, looked_up).take(n) =~= talk_items(o.inputs, looked_up));
    if 0 <= i < n {
        assert(looked_up[i] is Ok);
        assert(is_found_at(looked_up, i, port));
        lemma_talk_names(first, o.inputs, looked_up, baud, o.display, n, i);
        let j = choose|j: int|
            0 <= j < s.inputs.len() && (#[trigger] s.inputs[j]).port == port
                && s.inputs[j].baud_rate == talk_input(
                o.inputs[i].normalized(),
                port,
                baud,
                o.display,
            ).baud_rate;
        assert(s.inputs[j].port == looked_up[i]->Ok_0);
    }
}

proof fn lemma_talk_names(
    first: InputSpecModel,
    specs: Seq<PortSpecModel>,
    looked_up: Seq<Lookup>,
    baud: u32,
    display: PortDisplayModel,
    n: int,
    i: int,
)
    requires
        specs.len() == looked_up.len(),
        0 <= i < n <= specs.len(),
        applied(
            talk_step(baud, display),
            seq![first],
            talk_items(specs, looked_up).take(n),
        ) is Ok,
    ensures
        specs[i].normalized() is Some,
    decreases n,
{
    let all = talk_items(specs, looked_up);
    assert(all.take(n).drop_last() =~= all.take(n - 1));
    assert(all.take(n).last() == (specs[n - 1], looked_up[n - 1]));
    if i < n - 1 {
        lemma_talk_names(first, specs, looked_up, baud, display, n - 1, i);
    }
}

} // verus!

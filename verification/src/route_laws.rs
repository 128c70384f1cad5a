//! Laws of `route`: which inputs reach which outputs, and on which ports.
use crate::args::{applied, collected};
use crate::display::PortDisplayModel;
use crate::io_settings::default_baud_of;
use crate::pipeline::{
    ClassifyModel, FilterModel, PipelineModel, RouteTable, RouterModel, TransformModel,
};
use crate::ports::Lookup;
use crate::route::{
    input_ids, lemma_extended_texts, output_ids, route_input_step, route_inputs, route_items,
    route_output_step, route_outputs, RouteItem, RouteOptionsModel, RoutePortModel,
};
use crate::route_pipeline::{
    default_pipeline, filled, first_unknown, normal_reader, one_to_one_template, pair_count, paired,
    pipeline_fault, route_settings, routed, router_outputs, template_pipelines,
};
use crate::session::{InputSpecModel, OutputSpecModel};
use crate::table::{found, law_insert, lemma_slot_range, ordered, slot};
use vstd::prelude::*;

verus! {

// ---------------------------------------------------------------------------
// Ports
// ---------------------------------------------------------------------------

/// The ids of ports of a route.
pub open spec fn port_ids(ports: Seq<RoutePortModel>) -> Seq<Seq<char>> {
    ports.map_values(|p: RoutePortModel| p.id)
}

/// A port was found for every one.
pub open spec fn all_found(looked_up: Seq<Lookup>) -> bool {
    forall|i: int| 0 <= i < looked_up.len() ==> (#[trigger] looked_up[i]) is Ok
}

/// An input is on the port that was found for it, at the baud rate that was given with it, else
/// at the one for all; shown as was said for it.
pub open spec fn input_stands(
    input: InputSpecModel,
    port: RoutePortModel,
    looked_up: Lookup,
    baud: u32,
) -> bool {
    &&& input.id == port.id
    &&& looked_up == Ok::<Seq<char>, Seq<char>>(input.port)
    &&& port.baud matches Some(own) ==> input.baud_rate == own
    &&& port.baud is None ==> input.baud_rate == baud
    &&& port.display_mode matches Some(mode) ==> input.display_mode == mode
    &&& port.line_break_mode matches Some(mode) ==> input.line_break_mode == mode
}

pub open spec fn output_stands(
    output: OutputSpecModel,
    port: RoutePortModel,
    looked_up: Lookup,
    baud: u32,
) -> bool {
    &&& output.id == port.id
    &&& looked_up == Ok::<Seq<char>, Seq<char>>(output.port)
    &&& port.baud matches Some(own) ==> output.baud_rate == own
    &&& port.baud is None ==> output.baud_rate == baud
    &&& port.display_mode matches Some(mode) ==> output.display_mode == mode
}

proof fn lemma_inputs_stand(
    ports: Seq<RoutePortModel>,
    looked_up: Seq<Lookup>,
    baud: u32,
    display: PortDisplayModel,
    n: int,
)
    requires
        ports.len() == looked_up.len(),
        0 <= n <= ports.len(),
    ensures
        ({
            let items = route_items(ports, looked_up).take(n);
            let r = applied(route_input_step(baud, display), Seq::empty(), items);
            &&& r matches Ok(inputs) ==> {
                &&& inputs.len() == n
                &&& input_ids(inputs) == port_ids(ports).take(n)
                &&& port_ids(ports).take(n).no_duplicates()
                &&& forall|i: int|
                    0 <= i < n ==> input_stands(#[trigger] inputs[i], ports[i], looked_up[i], baud)
            }
            &&& port_ids(ports).no_duplicates() && all_found(looked_up) ==> r is Ok
        }),
    decreases n,
{
    let all = route_items(ports, looked_up);
    let step = route_input_step(baud, display);
    let start = Seq::<InputSpecModel>::empty();
    let ids = port_ids(ports);
    if n == 0 {
        assert(all.take(0) =~= Seq::<RouteItem>::empty());
        assert(input_ids(start) =~= ids.take(0));
    } else {
        lemma_inputs_stand(ports, looked_up, baud, display, n - 1);
        assert(all.take(n).drop_last() =~= all.take(n - 1));
        assert(all.take(n).last() == (ports[n - 1], looked_up[n - 1]));
        let before = applied(step, start, all.take(n - 1));
        if before is Ok {
            let inputs = before->Ok_0;
            let id = ids[n - 1];
            assert(id == ports[n - 1].id);
            if ids.no_duplicates() {
                assert(!ids.take(n - 1).contains(id)) by {
                    if ids.take(n - 1).contains(id) {
                        let part = ids.take(n - 1);
                        let k = choose|k: int| 0 <= k < part.len() && part[k] == id;
                        assert(ids[k] == ids[n - 1]);
                    }
                }
            }
            let r = applied(step, start, all.take(n));
            if r is Ok {
                let more = r->Ok_0;
                assert(!input_ids(inputs).contains(id));
                assert(input_ids(more) =~= ids.take(n));
                assert(ids.take(n) =~= ids.take(n - 1).push(id));
                assert(ids.take(n).no_duplicates());
                assert forall|i: int| 0 <= i < n implies input_stands(
                    #[trigger] more[i],
                    ports[i],
                    looked_up[i],
                    baud,
                ) by {
                    if i < n - 1 {
                        assert(more[i] == inputs[i]);
                    }
                }
            }
        }
    }
}

proof fn lemma_outputs_stand(
    ports: Seq<RoutePortModel>,
    looked_up: Seq<Lookup>,
    baud: u32,
    display: PortDisplayModel,
    n: int,
)
    requires
        ports.len() == looked_up.len(),
        0 <= n <= ports.len(),
    ensures
        ({
            let items = route_items(ports, looked_up).take(n);
            let r = applied(route_output_step(baud, display), Seq::empty(), items);
            &&& r matches Ok(outputs) ==> {
                &&& outputs.len() == n
                &&& output_ids(outputs) == port_ids(ports).take(n)
                &&& port_ids(ports).take(n).no_duplicates()
                &&& forall|i: int|
                    0 <= i < n ==> output_stands(
                        #[trigger] outputs[i],
                        ports[i],
                        looked_up[i],
                        baud,
                    )
            }
            &&& port_ids(ports).no_duplicates() && all_found(looked_up) ==> r is Ok
        }),
    decreases n,
{
    let all = route_items(ports, looked_up);
    let step = route_output_step(baud, display);
    let start = Seq::<OutputSpecModel>::empty();
    let ids = port_ids(ports);
    if n == 0 {
        assert(all.take(0) =~= Seq::<RouteItem>::empty());
        assert(output_ids(start) =~= ids.take(0));
    } else {
        lemma_outputs_stand(ports, looked_up, baud, display, n - 1);
        assert(all.take(n).drop_last() =~= all.take(n - 1));
        assert(all.take(n).last() == (ports[n - 1], looked_up[n - 1]));
        let before = applied(step, start, all.take(n - 1));
        if before is Ok {
            let outputs = before->Ok_0;
            let id = ids[n - 1];
            assert(id == ports[n - 1].id);
            if ids.no_duplicates() {
                assert(!ids.take(n - 1).contains(id)) by {
                    if ids.take(n - 1).contains(id) {
                        let part = ids.take(n - 1);
                        let k = choose|k: int| 0 <= k < part.len() && part[k] == id;
                        assert(ids[k] == ids[n - 1]);
                    }
                }
            }
            let r = applied(step, start, all.take(n));
            if r is Ok {
                let more = r->Ok_0;
                assert(!output_ids(outputs).contains(id));
                assert(output_ids(more) =~= ids.take(n));
                assert(ids.take(n) =~= ids.take(n - 1).push(id));
                assert(ids.take(n).no_duplicates());
                assert forall|i: int| 0 <= i < n implies output_stands(
                    #[trigger] more[i],
                    ports[i],
                    looked_up[i],
                    baud,
                ) by {
                    if i < n - 1 {
                        assert(more[i] == outputs[i]);
                    }
                }
            }
        }
    }
}

/// A run has the inputs and the outputs that were given, in their order and with ids that all
/// differ. Each is on the port that was found for it, at the baud rate that was given with it, or
/// at that of `--baud`, or at 115200 without it.
pub proof fn law_ports_of_a_run(
    o: RouteOptionsModel,
    input_ports: Seq<Lookup>,
    output_ports: Seq<Lookup>,
    current_dir: Option<Seq<char>>,
)
    requires
        input_ports.len() == o.inputs.len(),
        output_ports.len() == o.outputs.len(),
        route_settings(o, input_ports, output_ports, current_dir) is Ok,
    ensures
        ({
            let s = route_settings(o, input_ports, output_ports, current_dir)->Ok_0;
            let baud = match o.baud {
                Some(baud) => baud,
                None => 115_200,
            };
            &&& s.inputs.len() == o.inputs.len() && s.inputs.len() > 0
            &&& s.outputs.len() == o.outputs.len() && s.outputs.len() > 0
            &&& port_ids(o.inputs).no_duplicates()
            &&& port_ids(o.outputs).no_duplicates()
            &&& input_ids(s.inputs) == port_ids(o.inputs)
            &&& output_ids(s.outputs) == port_ids(o.outputs)
            &&& forall|i: int|
                0 <= i < s.inputs.len() ==> input_stands(
                    #[trigger] s.inputs[i],
                    o.inputs[i],
                    input_ports[i],
                    baud,
                )
            &&& forall|i: int|
                0 <= i < s.outputs.len() ==> output_stands(
                    #[trigger] s.outputs[i],
                    o.outputs[i],
                    output_ports[i],
                    baud,
                )
            &&& s.logging_enabled == !o.no_log
            &&& s.s3b == o.s3b
        }),
{
    let baud = match o.baud {
        Some(baud) => baud,
        None => 115_200,
    };
    let n = o.inputs.len() as int;
    let m = o.outputs.len() as int;
    lemma_inputs_stand(o.inputs, input_ports, baud, o.display, n);
    lemma_outputs_stand(o.outputs, output_ports, baud, o.display, m);
    assert(route_items(o.inputs, input_ports).take(n) =~= route_items(o.inputs, input_ports));
    assert(route_items(o.outputs, output_ports).take(m) =~= route_items(o.outputs, output_ports));
    assert(port_ids(o.inputs).take(n) =~= port_ids(o.inputs));
    assert(port_ids(o.outputs).take(m) =~= port_ids(o.outputs));
}

// ---------------------------------------------------------------------------
// Pipelines
// ---------------------------------------------------------------------------

proof fn lemma_all_known(list: Seq<Seq<char>>, known: Seq<Seq<char>>)
    requires
        forall|i: int| 0 <= i < list.len() ==> known.contains(#[trigger] list[i]),
    ensures
        first_unknown(list, known) is None,
    decreases list.len(),
{
    if list.len() > 0 {
        assert(known.contains(list[0]));
        let rest = list.skip(1);
        assert forall|i: int| 0 <= i < rest.len() implies known.contains(#[trigger] rest[i]) by {
            assert(rest[i] == list[i + 1]);
        }
        lemma_all_known(rest, known);
    }
}

proof fn lemma_one_pipeline(
    d: PipelineModel,
    inputs: Seq<Seq<char>>,
    outputs: Seq<Seq<char>>,
)
    requires
        pipeline_fault(filled(d, inputs, outputs), inputs, outputs) is None,
    ensures
        collected(normal_reader(inputs, outputs), seq![d]) == Ok::<Seq<PipelineModel>, Seq<char>>(
            seq![filled(d, inputs, outputs)],
        ),
{
    assert(seq![d].drop_last() =~= Seq::<PipelineModel>::empty());
    reveal_with_fuel(collected, 2);
    assert(Seq::<PipelineModel>::empty().push(filled(d, inputs, outputs)) =~= seq![
        filled(d, inputs, outputs),
    ]);
}

/// One pipeline that passes on everything that comes in, as it is, to the outputs of its router.
pub open spec fn passes_everything(d: PipelineModel) -> bool {
    &&& d.filter == FilterModel::AllowAll
    &&& d.transform == seq![TransformModel::Identity]
    &&& d.classify == ClassifyModel::Unclassified
}

/// With ids that all differ and a port for each, a run without a template and one with the
/// template `merge` has one pipeline: it takes every input and passes everything on, as it is, to
/// every output.
pub proof fn law_merge_reaches_every_output(
    o: RouteOptionsModel,
    input_ports: Seq<Lookup>,
    output_ports: Seq<Lookup>,
    current_dir: Option<Seq<char>>,
)
    requires
        input_ports.len() == o.inputs.len(),
        output_ports.len() == o.outputs.len(),
        o.inputs.len() > 0,
        o.outputs.len() > 0,
        port_ids(o.inputs).no_duplicates(),
        port_ids(o.outputs).no_duplicates(),
        all_found(input_ports),
        all_found(output_ports),
        o.template is None || o.template == Some("merge"@),
    ensures
        ({
            let r = route_settings(o, input_ports, output_ports, current_dir);
            &&& r is Ok
            &&& r->Ok_0.pipeline.len() == 1
            &&& r->Ok_0.pipeline[0].inputs == port_ids(o.inputs)
            &&& r->Ok_0.pipeline[0].router == (RouterModel::Broadcast {
                outputs: port_ids(o.outputs),
            })
            &&& passes_everything(r->Ok_0.pipeline[0])
        }),
{
    lemma_settings_of_ids(o, input_ports, output_ports);
    let inputs = port_ids(o.inputs);
    let outputs = port_ids(o.outputs);
    let given = template_pipelines(o.template, inputs, outputs)->Ok_0;
    let used = if given.len() == 0 {
        seq![default_pipeline(inputs, outputs)]
    } else {
        given
    };
    let d = used[0];
    assert(used =~= seq![d]);
    lemma_all_known(inputs, inputs);
    lemma_all_known(outputs, outputs);
    assert(inputs.len() > 0 && outputs.len() > 0);
    lemma_one_pipeline(d, inputs, outputs);
}

proof fn lemma_settings_of_ids(
    o: RouteOptionsModel,
    input_ports: Seq<Lookup>,
    output_ports: Seq<Lookup>,
)
    requires
        input_ports.len() == o.inputs.len(),
        output_ports.len() == o.outputs.len(),
        o.inputs.len() > 0,
        o.outputs.len() > 0,
        port_ids(o.inputs).no_duplicates(),
        port_ids(o.outputs).no_duplicates(),
        all_found(input_ports),
        all_found(output_ports),
    ensures
        ({
            let baud = default_baud_of(o.baud);
            let ins = route_inputs(o.inputs, input_ports, baud, o.display);
            let outs = route_outputs(o.outputs, output_ports, baud, o.display);
            &&& ins is Ok && input_ids(ins->Ok_0) == port_ids(o.inputs)
            &&& outs is Ok && output_ids(outs->Ok_0) == port_ids(o.outputs)
        }),
{
    let baud = default_baud_of(o.baud);
    let n = o.inputs.len() as int;
    let m = o.outputs.len() as int;
    lemma_inputs_stand(o.inputs, input_ports, baud, o.display, n);
    lemma_outputs_stand(o.outputs, output_ports, baud, o.display, m);
    assert(route_items(o.inputs, input_ports).take(n) =~= route_items(o.inputs, input_ports));
    assert(route_items(o.outputs, output_ports).take(m) =~= route_items(o.outputs, output_ports));
    assert(port_ids(o.inputs).take(n) =~= port_ids(o.inputs));
    assert(port_ids(o.outputs).take(m) =~= port_ids(o.outputs));
}

proof fn lemma_paired(inputs: Seq<Seq<char>>, outputs: Seq<Seq<char>>, n: nat)
    requires
        n <= inputs.len(),
        n <= outputs.len(),
        inputs.no_duplicates(),
    ensures
        ordered(paired(inputs, outputs, n)),
        forall|i: int|
            0 <= i < n ==> found(paired(inputs, outputs, n), #[trigger] inputs[i]) == Some(
                seq![outputs[i]],
            ),
        forall|i: int|
            n <= i < inputs.len() ==> found(
                paired(inputs, outputs, n),
                #[trigger] inputs[i],
            ) is None,
        forall|k: int|
            0 <= k < paired(inputs, outputs, n).len() ==> exists|i: int|
                0 <= i < n && (#[trigger] paired(inputs, outputs, n)[k]).1 == seq![
                    #[trigger] outputs[i],
                ],
    decreases n,
{
    if n > 0 {
        let m = (n - 1) as nat;
        let t = paired(inputs, outputs, m);
        lemma_paired(inputs, outputs, m);
        let key = inputs[n - 1];
        let value = seq![outputs[n - 1]];
        law_insert(t, key, value, key);
        let all = paired(inputs, outputs, n);
        assert forall|i: int| 0 <= i < n implies found(all, #[trigger] inputs[i]) == Some(
            seq![outputs[i]],
        ) by {
            if i < n - 1 {
                assert(inputs[i] != key);
                law_insert(t, key, value, inputs[i]);
            }
        }
        assert forall|i: int| n <= i < inputs.len() implies found(
            all,
            #[trigger] inputs[i],
        ) is None by {
            assert(inputs[i] != key);
            law_insert(t, key, value, inputs[i]);
        }
        let s = slot(t, key) as int;
        lemma_slot_range(t, key);
        assert forall|k: int| 0 <= k < all.len() implies exists|i: int|
            0 <= i < n && (#[trigger] all[k]).1 == seq![#[trigger] outputs[i]] by {
            if all[k].1 == value {
                assert(all[k].1 == seq![outputs[n - 1]]);
            } else {
                let j = if s < t.len() && t[s].0 == key {
                    k
                } else if k < s {
                    k
                } else {
                    k - 1
                };
                assert(all[k] == t[j]);
                let i = choose|i: int| 0 <= i < m && t[j].1 == seq![#[trigger] outputs[i]];
                assert(all[k].1 == seq![outputs[i]]);
            }
        }
    }
}

proof fn lemma_routed_known(routes: RouteTable, known: Seq<Seq<char>>, t: Seq<char>)
    requires
        forall|k: int, i: int|
            0 <= k < routes.len() && 0 <= i < routes[k].1.len() ==> known.contains(
                #[trigger] routes[k].1[i],
            ),
        routed(Seq::empty(), routes).contains(t),
    ensures
        known.contains(t),
    decreases routes.len(),
{
    if routes.len() > 0 {
        let rest = routes.drop_last();
        lemma_extended_texts(routed(Seq::empty(), rest), routes.last().1, t);
        if routed(Seq::empty(), rest).contains(t) {
            assert forall|k: int, i: int|
                0 <= k < rest.len() && 0 <= i < rest[k].1.len() implies known.contains(
                #[trigger] rest[k].1[i],
            ) by {
                assert(rest[k] == routes[k]);
            }
            lemma_routed_known(rest, known, t);
        } else {
            let i = choose|i: int| 0 <= i < routes.last().1.len() && routes.last().1[i] == t;
            assert(known.contains(routes[routes.len() - 1].1[i]));
        }
    }
}

/// With ids that all differ and a port for each, the template `one-to-one` gives one pipeline
/// that takes every input. It sends the input at each place to the output at that place and to no
/// other, as it is; inputs without an output at their place go nowhere.
pub proof fn law_one_to_one_keeps_places(
    o: RouteOptionsModel,
    input_ports: Seq<Lookup>,
    output_ports: Seq<Lookup>,
    current_dir: Option<Seq<char>>,
)
    requires
        input_ports.len() == o.inputs.len(),
        output_ports.len() == o.outputs.len(),
        o.inputs.len() > 0,
        o.outputs.len() > 0,
        port_ids(o.inputs).no_duplicates(),
        port_ids(o.outputs).no_duplicates(),
        all_found(input_ports),
        all_found(output_ports),
        o.template == Some("one-to-one"@),
    ensures
        ({
            let r = route_settings(o, input_ports, output_ports, current_dir);
            &&& r is Ok
            &&& r->Ok_0.pipeline.len() == 1
            &&& r->Ok_0.pipeline[0].inputs == port_ids(o.inputs)
            &&& passes_everything(r->Ok_0.pipeline[0])
            &&& r->Ok_0.pipeline[0].router matches RouterModel::SourceMap { routes, default_outputs }
            &&& default_outputs.len() == 0
            &&& forall|i: int|
                0 <= i < o.inputs.len() && i < o.outputs.len() ==> found(
                    routes,
                    (#[trigger] o.inputs[i]).id,
                ) == Some(seq![o.outputs[i].id])
            &&& forall|i: int|
                o.outputs.len() <= i < o.inputs.len() ==> found(
                    routes,
                    (#[trigger] o.inputs[i]).id,
                ) is None
        }),
{
    reveal_strlit("merge");
    reveal_strlit("one-to-one");
    assert("merge"@.len() != "one-to-one"@.len());
    lemma_settings_of_ids(o, input_ports, output_ports);
    let inputs = port_ids(o.inputs);
    let outputs = port_ids(o.outputs);
    let n = pair_count(inputs, outputs);
    lemma_paired(inputs, outputs, n);
    let routes = paired(inputs, outputs, n);
    let d = one_to_one_template(inputs, outputs).pipelines[0];
    lemma_all_known(inputs, inputs);
    let reached = router_outputs(d.router);
    assert forall|i: int| 0 <= i < reached.len() implies outputs.contains(#[trigger] reached[i]) by {
        assert forall|k: int, j: int|
            0 <= k < routes.len() && 0 <= j < routes[k].1.len() implies outputs.contains(
            #[trigger] routes[k].1[j],
        ) by {
            let p = choose|p: int| 0 <= p < n && routes[k].1 == seq![#[trigger] outputs[p]];
            assert(routes[k].1[j] == outputs[p]);
        }
        assert(reached.contains(reached[i]));
        lemma_routed_known(routes, outputs, reached[i]);
    }
    lemma_all_known(reached, outputs);
    assert(filled(d, inputs, outputs) =~= d);
    lemma_one_pipeline(d, inputs, outputs);
    assert(one_to_one_template(inputs, outputs).pipelines =~= seq![d]);
    assert forall|i: int| 0 <= i < o.inputs.len() && i < o.outputs.len() implies found(
        routes,
        (#[trigger] o.inputs[i]).id,
    ) == Some(seq![o.outputs[i].id]) by {
        assert(inputs[i] == o.inputs[i].id);
        assert(outputs[i] == o.outputs[i].id);
    }
    assert forall|i: int| o.outputs.len() <= i < o.inputs.len() implies found(
        routes,
        (#[trigger] o.inputs[i]).id,
    ) is None by {
        assert(inputs[i] == o.inputs[i].id);
    }
}

/// Any other template is refused, and so is a run without inputs or without outputs.
pub proof fn law_routes_that_are_refused(
    o: RouteOptionsModel,
    input_ports: Seq<Lookup>,
    output_ports: Seq<Lookup>,
    current_dir: Option<Seq<char>>,
)
    requires
        input_ports.len() == o.inputs.len(),
        output_ports.len() == o.outputs.len(),
    ensures
        o.template matches Some(name) && name != "merge"@ && name != "one-to-one"@
            ==> route_settings(o, input_ports, output_ports, current_dir) is Err,
        o.inputs.len() == 0 || o.outputs.len() == 0 ==> route_settings(
            o,
            input_ports,
            output_ports,
            current_dir,
        ) is Err,
        !port_ids(o.inputs).no_duplicates() || !port_ids(o.outputs).no_duplicates()
            ==> route_settings(o, input_ports, output_ports, current_dir) is Err,
        !all_found(input_ports) || !all_found(output_ports) ==> route_settings(
            o,
            input_ports,
            output_ports,
            current_dir,
        ) is Err,
{
    if route_settings(o, input_ports, output_ports, current_dir) is Ok {
        law_ports_of_a_run(o, input_ports, output_ports, current_dir);
        let s = route_settings(o, input_ports, output_ports, current_dir)->Ok_0;
        assert forall|i: int| 0 <= i < input_ports.len() implies (#[trigger] input_ports[i]) is Ok by {
            let input = s.inputs[i];
        }
        assert forall|i: int| 0 <= i < output_ports.len() implies (
        #[trigger] output_ports[i]) is Ok by {
            let output = s.outputs[i];
        }
    }
}

} // verus!

//! The inputs of a running session: what comes in is observed, and what there is to show is
//! handed out a little at a time.
use crate::format::{format_label, OutputFormat};
use crate::observe::{
    enqueued, format_count, packets_shown, recent, repeated, ObservedInput, ObservedInputBatch,
    PacketDecoding, PacketDecodingModel, ShowRule,
};
use crate::packet::{matchers, stream_packets, DecodedPacket, PacketMatcher, PacketModel};
use crate::session::{ObservedInputSpec, ObservedSpecModel};
use crate::table::{entries, insert_entry, inserted, lemma_slot_range, slot};
use crate::text::same;
use crate::ufv2::{expired, idle, option_seq, DisplayedModel, DisplayedPacket, ReassemblerModel};
use vstd::prelude::*;

verus! {

/// How many entries go to the display in one tick at most.
pub const DISPLAY_FLUSH_PACKET_BUDGET: usize = 256;

/// How many entries of one input go to the display before the next input has its turn.
pub const DISPLAY_FLUSH_SLICE: usize = 32;

// ---------------------------------------------------------------------------
// One input
// ---------------------------------------------------------------------------

#[verifier::ext_equal]
pub struct ObservedModel {
    pub id: Seq<char>,
    pub port: Seq<char>,
    pub formats: Seq<OutputFormat>,
    pub matchers: Seq<PacketMatcher>,
    /// The received bytes that wait for more.
    pub pending: Seq<u8>,
    /// The entries that wait for the display.
    pub queue: Seq<DisplayedModel>,
    pub text: ReassemblerModel,
    pub rule: ShowRule,
    pub trackers: Seq<(OutputFormat, Seq<u64>)>,
}

impl DeepView for ObservedInput {
    type V = ObservedModel;

    open spec fn deep_view(&self) -> ObservedModel {
        ObservedModel {
            id: self.id(),
            port: self.port(),
            formats: self.formats(),
            matchers: self.matchers(),
            pending: self.pending_bytes(),
            queue: self.queue(),
            text: self.collected_text(),
            rule: self.rule(),
            trackers: self.trackers(),
        }
    }
}

/// The place where a format stands first.
pub open spec fn place_of(formats: Seq<OutputFormat>, format: OutputFormat) -> Option<int>
    decreases formats.len(),
{
    if formats.len() == 0 {
        None
    } else {
        match place_of(formats.drop_last(), format) {
            Some(i) => Some(i),
            None => if formats.last() == format {
                Some(formats.len() - 1)
            } else {
                None
            },
        }
    }
}

proof fn lemma_place_absent(formats: Seq<OutputFormat>, format: OutputFormat)
    requires
        !formats.contains(format),
    ensures
        place_of(formats, format) is None,
    decreases formats.len(),
{
    if formats.len() > 0 {
        assert(formats.contains(formats.last()));
        assert forall|i: int| 0 <= i < formats.drop_last().len() implies formats.drop_last()[i]
            != format by {
            assert(formats.contains(formats[i]));
        }
        lemma_place_absent(formats.drop_last(), format);
    }
}

proof fn lemma_place(formats: Seq<OutputFormat>, format: OutputFormat, i: int)
    requires
        0 <= i < formats.len(),
        formats[i] == format,
        !formats.take(i).contains(format),
    ensures
        place_of(formats, format) == Some(i),
    decreases formats.len(),
{
    if i == formats.len() - 1 {
        assert(formats.drop_last() == formats.take(i));
        lemma_place_absent(formats.take(i), format);
    } else {
        assert(formats.drop_last().take(i) == formats.take(i));
        lemma_place(formats.drop_last(), format, i);
    }
}

impl ObservedModel {
    /// There is one tracker for each format, in the order of the formats.
    pub open spec fn wf(self) -> bool {
        &&& self.trackers.len() == self.formats.len()
        &&& forall|i: int|
            0 <= i < self.formats.len() ==> (#[trigger] self.trackers[i]).0 == self.formats[i]
    }

    /// An input before anything came in.
    pub open spec fn fresh(spec: ObservedSpecModel, reduced_crc: bool) -> ObservedModel {
        ObservedModel {
            id: spec.input_id,
            port: spec.port,
            formats: spec.formats,
            matchers: matchers(spec.formats, reduced_crc),
            pending: seq![],
            queue: seq![],
            text: idle(),
            rule: ShowRule {
                per_format_display_modes: spec.per_format_display_modes,
                preserve_line_breaks: spec.preserve_line_breaks,
            },
            trackers: spec.formats.map_values(|f: OutputFormat| (f, Seq::<u64>::empty())),
        }
    }

    /// The packets that received bytes complete.
    pub open spec fn found(self, bytes: Seq<u8>) -> Seq<PacketModel> {
        stream_packets(self.matchers, self.pending + bytes).0
    }

    /// The input after bytes came in.
    pub open spec fn observed(
        self,
        bytes: Seq<u8>,
        table: Seq<PacketDecodingModel>,
        at: u64,
    ) -> ObservedModel {
        let packets = self.found(bytes);
        let shown = packets_shown(self.rule, self.text, packets, table, at);
        ObservedModel {
            pending: stream_packets(self.matchers, self.pending + bytes).1,
            queue: enqueued(self.queue, shown.1),
            text: shown.0,
            trackers: self.trackers.map_values(
                |t: (OutputFormat, Seq<u64>)|
                    (t.0, t.1 + repeated(at, format_count(packets, t.0))),
            ),
            ..self
        }
    }

    /// The input after a text that waited too long was given up.
    pub open spec fn expired(self, now: u64) -> ObservedModel {
        ObservedModel {
            text: expired(self.text, now).0,
            queue: enqueued(self.queue, option_seq(expired(self.text, now).1)),
            ..self
        }
    }

    /// The input after entries left its queue.
    pub open spec fn flushed(self, n: int) -> ObservedModel {
        ObservedModel { queue: self.queue.skip(n), ..self }
    }

    /// The input after its packets of a format were counted, and how many there were within the
    /// last second.
    pub open spec fn rated(self, format: OutputFormat, now: u64) -> (ObservedModel, Option<nat>) {
        match place_of(self.formats, format) {
            None => (self, None),
            Some(i) => {
                let kept = recent(self.trackers[i].1, now);
                (
                    ObservedModel { trackers: self.trackers.update(i, (format, kept)), ..self },
                    Some(kept.len()),
                )
            },
        }
    }
}

fn rate_of_input(input: &mut ObservedInput, format: OutputFormat, now: u64) -> (r: Option<usize>)
    requires
        old(input).deep_view().wf(),
    ensures
        final(input).deep_view().wf(),
        final(input).deep_view() == old(input).deep_view().rated(format, now).0,
        match r {
            Some(n) => old(input).deep_view().rated(format, now).1 == Some(n as nat),
            None => old(input).deep_view().rated(format, now).1 is None,
        },
{
    let ghost m = input.deep_view();
    assert(input.wf());
    let r = input.packet_rate_hz(format, now);
    proof {
        if r is Some {
            let i = choose|i: int|
                0 <= i < m.formats.len() && (#[trigger] m.formats[i]) == format
                    && !m.formats.take(i).contains(format) && r->0 == recent(
                    m.trackers[i].1,
                    now,
                ).len() && input.trackers() == m.trackers.update(
                    i,
                    (format, recent(m.trackers[i].1, now)),
                );
            lemma_place(m.formats, format, i);
            assert(input.deep_view() =~= m.rated(format, now).0);
        } else {
            lemma_place_absent(m.formats, format);
            assert(input.deep_view() =~= m.rated(format, now).0);
        }
    }
    r
}

/// A copy of a list.
pub fn copy_list<T: Copy>(list: &Vec<T>) -> (copy: Vec<T>)
    ensures
        copy@ == list@,
{
    let mut copy: Vec<T> = Vec::new();
    let mut i: usize = 0;
    while i < list.len()
        invariant
            i <= list.len(),
            copy@ == list@.take(i as int),
        decreases list.len() - i,
    {
        copy.push(list[i]);
        assert(copy@ =~= list@.take(i + 1));
        i += 1;
    }
    assert(list@.take(i as int) == list@);
    copy
}

// ---------------------------------------------------------------------------
// All inputs
// ---------------------------------------------------------------------------

/// Inputs under their ids.
pub type InputsModel = Seq<(Seq<char>, ObservedModel)>;

pub open spec fn inputs_wf(inputs: InputsModel) -> bool {
    forall|i: int| 0 <= i < inputs.len() ==> (#[trigger] inputs[i]).1.wf()
}

/// The inputs that are observed, in the order of their ids.
#[derive(Debug)]
pub struct ObservedInputs {
    inputs: Vec<(String, ObservedInput)>,
}

impl DeepView for ObservedInputs {
    type V = InputsModel;

    closed spec fn deep_view(&self) -> InputsModel {
        entries(self.inputs@)
    }
}

/// Inputs before anything came in; of two with one id the later one counts.
pub open spec fn fresh_inputs(specs: Seq<ObservedSpecModel>, reduced_crc: bool) -> InputsModel
    decreases specs.len(),
{
    if specs.len() == 0 {
        Seq::empty()
    } else {
        inserted(
            fresh_inputs(specs.drop_last(), reduced_crc),
            specs.last().input_id,
            ObservedModel::fresh(specs.last(), reduced_crc),
        )
    }
}

/// The place of an id, from a place on.
pub open spec fn id_from(inputs: InputsModel, id: Seq<char>, i: int) -> Option<int>
    decreases inputs.len() - i,
{
    if i < 0 || i >= inputs.len() {
        None
    } else if inputs[i].0 == id {
        Some(i)
    } else {
        id_from(inputs, id, i + 1)
    }
}

/// The place of the first input on a port, from a place on.
pub open spec fn port_from(inputs: InputsModel, port: Seq<char>, i: int) -> Option<int>
    decreases inputs.len() - i,
{
    if i < 0 || i >= inputs.len() {
        None
    } else if inputs[i].1.port == port {
        Some(i)
    } else {
        port_from(inputs, port, i + 1)
    }
}

/// The inputs with one of them changed.
pub open spec fn changed(inputs: InputsModel, i: int, input: ObservedModel) -> InputsModel {
    inputs.update(i, (inputs[i].0, input))
}

/// Packets that came in on a port.
#[verifier::ext_equal]
pub struct RecordModel {
    pub port: Seq<char>,
    pub packets: Seq<PacketModel>,
}

/// The packets that bytes for an id complete; nothing where the id is not observed.
pub open spec fn found_for(inputs: InputsModel, id: Seq<char>, bytes: Seq<u8>) -> Seq<PacketModel> {
    match id_from(inputs, id, 0) {
        None => Seq::empty(),
        Some(i) => inputs[i].1.found(bytes),
    }
}

/// The inputs after bytes came in for an id, and the packets that they completed; nothing where
/// the id is not observed. The table says what decoding packets for the display gave.
pub open spec fn input_handled(
    inputs: InputsModel,
    id: Seq<char>,
    bytes: Seq<u8>,
    table: Seq<PacketDecodingModel>,
    at: u64,
) -> (InputsModel, Option<RecordModel>) {
    match id_from(inputs, id, 0) {
        None => (inputs, None),
        Some(i) => {
            let input = inputs[i].1;
            let found = input.found(bytes);
            (
                changed(inputs, i, input.observed(bytes, table, at)),
                if found.len() > 0 {
                    Some(RecordModel { port: input.port, packets: found })
                } else {
                    None
                },
            )
        },
    }
}

/// The inputs after packets of a format on a port were counted, and their number.
pub open spec fn rated_on(inputs: InputsModel, port: Seq<char>, format: OutputFormat, now: u64) -> (
    InputsModel,
    Option<nat>,
) {
    match port_from(inputs, port, 0) {
        None => (inputs, None),
        Some(i) => {
            let (input, rate) = inputs[i].1.rated(format, now);
            (changed(inputs, i, input), rate)
        },
    }
}

/// The inputs after texts that waited too long were given up.
pub open spec fn all_expired(inputs: InputsModel, now: u64) -> InputsModel {
    inputs.map_values(|e: (Seq<char>, ObservedModel)| (e.0, e.1.expired(now)))
}

/// What a session is told of an input before it runs.
#[derive(Debug)]
pub struct InputSetup {
    pub input_id: String,
    pub port: String,
    pub known_formats: Vec<String>,
}

#[verifier::ext_equal]
pub struct SetupModel {
    pub input_id: Seq<char>,
    pub port: Seq<char>,
    pub known_formats: Seq<Seq<char>>,
}

impl DeepView for InputSetup {
    type V = SetupModel;

    open spec fn deep_view(&self) -> SetupModel {
        SetupModel {
            input_id: self.input_id@,
            port: self.port@,
            known_formats: self.known_formats.deep_view(),
        }
    }
}

/// An input is recorded by hand, its packets are counted, and its formats are known by name.
pub open spec fn input_setup(input: ObservedModel) -> SetupModel {
    SetupModel {
        input_id: input.id,
        port: input.port,
        known_formats: input.formats.map_values(|f: OutputFormat| format_label(f)),
    }
}

/// The packets that came in on a port.
#[derive(Debug)]
pub struct InputRecord {
    pub port: String,
    pub batch: ObservedInputBatch,
}

/// Entries of an input on their way to the display.
#[derive(Debug)]
pub struct FlushedBatch {
    /// The place of the input.
    pub input: usize,
    pub port: String,
    pub entries: Vec<DisplayedPacket>,
}

#[verifier::ext_equal]
pub struct FlushedModel {
    pub input: int,
    pub port: Seq<char>,
    pub entries: Seq<DisplayedModel>,
}

impl DeepView for FlushedBatch {
    type V = FlushedModel;

    open spec fn deep_view(&self) -> FlushedModel {
        FlushedModel {
            input: self.input as int,
            port: self.port@,
            entries: self.entries.deep_view(),
        }
    }
}

/// Inputs while their queues are emptied, what has left them, and how much still may.
#[verifier::ext_equal]
pub struct Flushing {
    pub inputs: InputsModel,
    pub out: Seq<FlushedModel>,
    pub budget: nat,
}

pub open spec fn flushing(inputs: InputsModel, out: Seq<FlushedModel>, budget: nat) -> Flushing {
    Flushing { inputs, out, budget }
}

/// How many entries of a queue go at a time.
pub open spec fn slice_of(budget: nat, waiting: nat) -> nat {
    let slice = if budget < DISPLAY_FLUSH_SLICE {
        budget
    } else {
        DISPLAY_FLUSH_SLICE as nat
    };
    if slice < waiting {
        slice
    } else {
        waiting
    }
}

/// One input has its turn.
pub open spec fn turn(s: Flushing, i: int) -> Flushing {
    let input = s.inputs[i].1;
    let n = slice_of(s.budget, input.queue.len());
    if n == 0 {
        s
    } else {
        Flushing {
            inputs: changed(s.inputs, i, input.flushed(n as int)),
            out: s.out.push(
                FlushedModel { input: i, port: input.port, entries: input.queue.take(n as int) },
            ),
            budget: (s.budget - n) as nat,
        }
    }
}

/// The inputs from a place on have their turns.
pub open spec fn round(s: Flushing, i: int) -> Flushing
    decreases s.inputs.len() - i,
{
    if i < 0 || i >= s.inputs.len() {
        s
    } else {
        round(turn(s, i), i + 1)
    }
}

/// Rounds until the budget is used up or nothing waits.
pub open spec fn rounds(s: Flushing) -> Flushing
    decreases s.budget,
{
    let next = round(s, 0);
    if next.budget >= s.budget {
        next
    } else {
        rounds(next)
    }
}

/// The queues of inputs are emptied as far as the budget of one tick goes.
pub open spec fn queues_flushed(inputs: InputsModel) -> Flushing {
    rounds(flushing(inputs, Seq::empty(), DISPLAY_FLUSH_PACKET_BUDGET as nat))
}

impl ObservedInputs {
    pub open spec fn wf(&self) -> bool {
        inputs_wf(self.deep_view())
    }

    pub fn new(specs: &Vec<ObservedInputSpec>, reduced_crc: bool) -> (inputs: ObservedInputs)
        ensures
            inputs.wf(),
            inputs.deep_view() == fresh_inputs(specs.deep_view(), reduced_crc),
    {
        let ghost all = specs.deep_view();
        let mut inputs: Vec<(String, ObservedInput)> = Vec::new();
        let mut i: usize = 0;
        assert(all.take(0) =~= Seq::<ObservedSpecModel>::empty());
        assert(entries(inputs@) =~= Seq::<(Seq<char>, ObservedModel)>::empty());
        while i < specs.len()
            invariant
                i <= specs.len(),
                all == specs.deep_view(),
                inputs_wf(entries(inputs@)),
                entries(inputs@) == fresh_inputs(all.take(i as int), reduced_crc),
            decreases specs.len() - i,
        {
            let spec = &specs[i];
            let ghost m = spec.deep_view();
            proof {
                assert(all.take(i + 1).drop_last() == all.take(i as int));
                assert(all.take(i + 1).last() == m);
            }
            let modes = match &spec.per_format_display_modes {
                Some(modes) => Some(copy_list(modes)),
                None => None,
            };
            let input = ObservedInput::with_rule(
                spec.input_id.clone(),
                spec.port.clone(),
                copy_list(&spec.formats),
                reduced_crc,
                modes,
                spec.preserve_line_breaks,
            );
            proof {
                let fresh = ObservedModel::fresh(m, reduced_crc);
                assert forall|k: int| 0 <= k < m.formats.len() implies (
                #[trigger] input.trackers()[k]) == fresh.trackers[k] by {
                    assert(input.trackers()[k].0 == m.formats[k]);
                }
                assert(input.trackers() =~= fresh.trackers);
                assert(input.deep_view() =~= fresh);
            }
            let ghost before = entries(inputs@);
            let ghost fm = input.deep_view();
            insert_entry(&mut inputs, spec.input_id.clone(), input);
            proof {
                lemma_inserted_wf(before, m.input_id, fm);
            }
            i += 1;
        }
        assert(all.take(i as int) == all);
        ObservedInputs { inputs }
    }

    /// How many inputs there are.
    pub fn count(&self) -> (n: usize)
        ensures
            n == self.deep_view().len(),
    {
        self.inputs.len()
    }

    /// What a session is told of the inputs, in their order.
    pub fn setups(&self) -> (setups: Vec<InputSetup>)
        ensures
            setups.deep_view() == self.deep_view().map_values(
                |e: (Seq<char>, ObservedModel)| input_setup(e.1),
            ),
    {
        let ghost all = self.deep_view();
        let mut setups: Vec<InputSetup> = Vec::new();
        let mut i: usize = 0;
        while i < self.inputs.len()
            invariant
                i <= self.inputs.len(),
                all == self.deep_view(),
                all.len() == self.inputs.len(),
                setups.len() == i,
                forall|k: int|
                    0 <= k < i ==> (#[trigger] setups@[k]).deep_view() == input_setup(all[k].1),
            decreases self.inputs.len() - i,
        {
            let input = &self.inputs[i].1;
            let formats = input.known_formats();
            let mut names: Vec<String> = Vec::new();
            let mut j: usize = 0;
            while j < formats.len()
                invariant
                    j <= formats.len(),
                    names.len() == j,
                    forall|k: int|
                        0 <= k < j ==> (#[trigger] names@[k])@ == format_label(formats@[k]),
                decreases formats.len() - j,
            {
                names.push(formats[j].display_name().to_owned());
                j += 1;
            }
            let setup = InputSetup {
                input_id: input.input_id().to_owned(),
                port: input.port_name().to_owned(),
                known_formats: names,
            };
            proof {
                assert(all[i as int].1 == self.inputs@[i as int].1.deep_view());
                assert(setup.deep_view() =~= input_setup(all[i as int].1));
            }
            setups.push(setup);
            i += 1;
        }
        assert(setups.deep_view() =~= all.map_values(
            |e: (Seq<char>, ObservedModel)| input_setup(e.1),
        ));
        setups
    }

    /// The packets that received bytes would complete.
    pub fn packets_completed_by(&self, input_id: &str, bytes: &[u8]) -> (packets: Vec<
        DecodedPacket,
    >)
        ensures
            packets.deep_view() == found_for(self.deep_view(), input_id@, bytes@),
    {
        let ghost all = self.deep_view();
        let mut i: usize = 0;
        while i < self.inputs.len()
            invariant
                i <= self.inputs.len(),
                all == self.deep_view(),
                all.len() == self.inputs.len(),
                id_from(all, input_id@, 0) == id_from(all, input_id@, i as int),
            decreases self.inputs.len() - i,
        {
            proof {
                assert(all[i as int] == (
                    self.inputs@[i as int].0@,
                    self.inputs@[i as int].1.deep_view(),
                ));
            }
            if same(self.inputs[i].0.as_str(), input_id) {
                return self.inputs[i].1.packets_completed_by(bytes);
            }
            i += 1;
        }
        let none: Vec<DecodedPacket> = Vec::new();
        assert(none.deep_view() =~= Seq::<PacketModel>::empty());
        none
    }

    /// Takes received bytes in, with what decoding their packets for the display gave. Tells what
    /// to record, where there were packets.
    pub fn handle_input(
        &mut self,
        input_id: &str,
        bytes: &[u8],
        decodings: &Vec<PacketDecoding>,
        at: u64,
    ) -> (r: Option<InputRecord>)
        requires
            old(self).wf(),
        ensures
            final(self).wf(),
            ({
                let handled = input_handled(
                    old(self).deep_view(),
                    input_id@,
                    bytes@,
                    decodings.deep_view(),
                    at,
                );
                &&& final(self).deep_view() == handled.0
                &&& match r {
                    Some(record) => handled.1 matches Some(m) && record.port@ == m.port
                        && record.batch.counts(m.packets),
                    None => handled.1 is None,
                }
            }),
    {
        let ghost all = self.deep_view();
        let mut i: usize = 0;
        while i < self.inputs.len()
            invariant
                i <= self.inputs.len(),
                *self == *old(self),
                all == self.deep_view(),
                all.len() == self.inputs.len(),
                inputs_wf(all),
                id_from(all, input_id@, 0) == id_from(all, input_id@, i as int),
            decreases self.inputs.len() - i,
        {
            proof {
                assert(all[i as int] == (
                    self.inputs@[i as int].0@,
                    self.inputs@[i as int].1.deep_view(),
                ));
                assert(all[i as int].1.wf());
            }
            if same(self.inputs[i].0.as_str(), input_id) {
                let batch = self.inputs[i].1.observe(bytes, decodings, at);
                let ghost table = decodings.deep_view();
                proof {
                    let input = all[i as int].1;
                    let seen = input.observed(bytes@, table, at);
                    assert(self.inputs@[i as int].1.deep_view() =~= seen);
                    assert(self.deep_view() =~= changed(all, i as int, seen));
                    assert(self.inputs@[i as int].1.wf());
                    assert(seen.wf());
                }
                if batch.valid_packet_count > 0 {
                    let port = self.inputs[i].1.port_name().to_owned();
                    return Some(InputRecord { port, batch });
                }
                return None;
            }
            i += 1;
        }
        None
    }

    /// Gives texts up that waited too long.
    pub fn expire_pending_transfers(&mut self, now: u64)
        requires
            old(self).wf(),
        ensures
            final(self).wf(),
            final(self).deep_view() == all_expired(old(self).deep_view(), now),
    {
        let ghost all = self.deep_view();
        let mut i: usize = 0;
        while i < self.inputs.len()
            invariant
                i <= self.inputs.len(),
                all == old(self).deep_view(),
                inputs_wf(all),
                self.inputs.len() == all.len(),
                forall|k: int|
                    0 <= k < all.len() ==> (#[trigger] self.deep_view()[k]) == if k < i {
                        (all[k].0, all[k].1.expired(now))
                    } else {
                        all[k]
                    },
            decreases self.inputs.len() - i,
        {
            let ghost before = self.deep_view();
            proof {
                assert(before[i as int] == all[i as int]);
                assert(before[i as int] == (
                    self.inputs@[i as int].0@,
                    self.inputs@[i as int].1.deep_view(),
                ));
                assert(all[i as int].1.wf());
            }
            self.inputs[i].1.expire_pending_transfers(now);
            proof {
                assert(self.inputs@[i as int].1.deep_view() =~= all[i as int].1.expired(now));
                assert(self.deep_view() =~= changed(before, i as int, all[i as int].1.expired(now)));
            }
            i += 1;
        }
        proof {
            assert(self.deep_view() =~= all_expired(all, now));
            assert forall|k: int| 0 <= k < self.deep_view().len() implies (
            #[trigger] self.deep_view()[k]).1.wf() by {
                assert(all[k].1.wf());
            }
        }
    }

    /// How many packets of a format arrived on a port within the last second; nothing where they
    /// are not looked for.
    pub fn rx_rate_hz(&mut self, port: &str, format: OutputFormat, now: u64) -> (r: Option<usize>)
        requires
            old(self).wf(),
        ensures
            final(self).wf(),
            final(self).deep_view() == rated_on(old(self).deep_view(), port@, format, now).0,
            match r {
                Some(n) => rated_on(old(self).deep_view(), port@, format, now).1 == Some(n as nat),
                None => rated_on(old(self).deep_view(), port@, format, now).1 is None,
            },
    {
        let ghost all = self.deep_view();
        let mut i: usize = 0;
        while i < self.inputs.len()
            invariant
                i <= self.inputs.len(),
                *self == *old(self),
                all == self.deep_view(),
                all.len() == self.inputs.len(),
                inputs_wf(all),
                port_from(all, port@, 0) == port_from(all, port@, i as int),
            decreases self.inputs.len() - i,
        {
            proof {
                assert(all[i as int] == (
                    self.inputs@[i as int].0@,
                    self.inputs@[i as int].1.deep_view(),
                ));
                assert(all[i as int].1.wf());
            }
            if same(self.inputs[i].1.port_name(), port) {
                let r = rate_of_input(&mut self.inputs[i].1, format, now);
                proof {
                    let input = all[i as int].1;
                    assert(self.deep_view() =~= changed(all, i as int, input.rated(format, now).0));
                }
                return r;
            }
            i += 1;
        }
        None
    }

    fn flush_turn(&mut self, i: usize, budget: usize, out: &mut Vec<FlushedBatch>) -> (left: usize)
        requires
            old(self).wf(),
            i < old(self).deep_view().len(),
        ensures
            final(self).wf(),
            left <= budget,
            flushing(final(self).deep_view(), final(out).deep_view(), left as nat) == turn(
                flushing(old(self).deep_view(), old(out).deep_view(), budget as nat),
                i as int,
            ),
    {
        let ghost all = self.deep_view();
        let ghost before = out.deep_view();
        proof {
            assert(all[i as int] == (
                self.inputs@[i as int].0@,
                self.inputs@[i as int].1.deep_view(),
            ));
            assert(all[i as int].1.wf());
        }
        let slice: usize = if budget < DISPLAY_FLUSH_SLICE {
            budget
        } else {
            DISPLAY_FLUSH_SLICE
        };
        let batch = self.inputs[i].1.flush_display_batch(slice);
        let ghost input = all[i as int].1;
        let ghost n = slice_of(budget as nat, input.queue.len());
        assert(batch.deep_view().len() == batch.len());
        proof {
            assert(self.inputs@[i as int].1.deep_view() =~= input.flushed(n as int));
            assert(self.deep_view() =~= changed(all, i as int, input.flushed(n as int)));
            assert(input.flushed(n as int).wf());
        }
        let flushed: usize = batch.len();
        assert(flushed == n);
        if flushed == 0 {
            assert(input.queue.skip(0) == input.queue);
            assert(input.flushed(0) =~= input);
            assert(self.deep_view() =~= all);
            return budget;
        }
        let port = self.inputs[i].1.port_name().to_owned();
        let item = FlushedBatch { input: i, port, entries: batch };
        let ghost m = item.deep_view();
        out.push(item);
        assert(out.deep_view() =~= before.push(m));
        budget - flushed
    }

    fn flush_round(&mut self, budget: usize, out: &mut Vec<FlushedBatch>) -> (left: usize)
        requires
            old(self).wf(),
        ensures
            final(self).wf(),
            left <= budget,
            flushing(final(self).deep_view(), final(out).deep_view(), left as nat) == round(
                flushing(old(self).deep_view(), old(out).deep_view(), budget as nat),
                0,
            ),
    {
        let ghost start = flushing(self.deep_view(), out.deep_view(), budget as nat);
        let mut left: usize = budget;
        let mut i: usize = 0;
        while i < self.inputs.len()
            invariant
                self.wf(),
                i <= self.deep_view().len(),
                self.deep_view().len() == self.inputs.len(),
                left <= budget,
                round(start, 0) == round(
                    flushing(self.deep_view(), out.deep_view(), left as nat),
                    i as int,
                ),
            decreases self.inputs.len() - i,
        {
            left = self.flush_turn(i, left, out);
            i += 1;
        }
        left
    }

    /// Takes entries out of the queues for the display: the inputs take turns until the budget of
    /// a tick is used up or nothing waits.
    pub fn flush_display_queues(&mut self) -> (out: Vec<FlushedBatch>)
        requires
            old(self).wf(),
        ensures
            final(self).wf(),
            final(self).deep_view() == queues_flushed(old(self).deep_view()).inputs,
            out.deep_view() == queues_flushed(old(self).deep_view()).out,
    {
        let mut out: Vec<FlushedBatch> = Vec::new();
        assert(out.deep_view() =~= Seq::<FlushedModel>::empty());
        let ghost start = flushing(self.deep_view(), out.deep_view(), DISPLAY_FLUSH_PACKET_BUDGET as nat);
        let mut budget: usize = DISPLAY_FLUSH_PACKET_BUDGET;
        loop
            invariant
                self.wf(),
                start == flushing(old(self).deep_view(), Seq::empty(), DISPLAY_FLUSH_PACKET_BUDGET as nat),
                rounds(start) == rounds(
                    flushing(self.deep_view(), out.deep_view(), budget as nat),
                ),
            decreases budget,
        {
            let left = self.flush_round(budget, &mut out);
            if left >= budget {
                return out;
            }
            budget = left;
        }
    }
}

proof fn lemma_inserted_wf(inputs: InputsModel, id: Seq<char>, input: ObservedModel)
    requires
        inputs_wf(inputs),
        input.wf(),
    ensures
        inputs_wf(inserted(inputs, id, input)),
{
    lemma_slot_range(inputs, id);
    let k = slot(inputs, id) as int;
    let r = inserted(inputs, id, input);
    assert forall|i: int| 0 <= i < r.len() implies (#[trigger] r[i]).1.wf() by {
        if r.len() == inputs.len() {
            if i != k {
                assert(r[i] == inputs[i]);
            }
        } else if i < k {
            assert(r[i] == inputs[i]);
        } else if i > k {
            assert(r[i] == inputs[i - 1]);
        }
    }
}

// ---------------------------------------------------------------------------
// What flushing keeps
// ---------------------------------------------------------------------------

/// The entries of one input among what left the queues.
pub open spec fn taken_from(out: Seq<FlushedModel>, i: int) -> Seq<DisplayedModel>
    decreases out.len(),
{
    if out.len() == 0 {
        Seq::empty()
    } else {
        let rest = taken_from(out.drop_last(), i);
        if out.last().input == i {
            rest + out.last().entries
        } else {
            rest
        }
    }
}

/// How many entries left the queues.
pub open spec fn taken_count(out: Seq<FlushedModel>) -> nat
    decreases out.len(),
{
    if out.len() == 0 {
        0
    } else {
        taken_count(out.drop_last()) + out.last().entries.len()
    }
}

spec fn flush_keeps(start: InputsModel, budget: nat, s: Flushing) -> bool {
    &&& s.inputs.len() == start.len()
    &&& taken_count(s.out) + s.budget == budget
    &&& forall|i: int|
        0 <= i < start.len() ==> taken_from(s.out, i) + (#[trigger] s.inputs[i]).1.queue
            == start[i].1.queue
}

proof fn lemma_turn_keeps(start: InputsModel, budget: nat, s: Flushing, i: int)
    requires
        flush_keeps(start, budget, s),
        0 <= i < s.inputs.len(),
    ensures
        flush_keeps(start, budget, turn(s, i)),
{
    let input = s.inputs[i].1;
    let n = slice_of(s.budget, input.queue.len());
    if n > 0 {
        let t = turn(s, i);
        assert(t.out.drop_last() == s.out);
        assert forall|k: int| 0 <= k < start.len() implies taken_from(t.out, k) + (
        #[trigger] t.inputs[k]).1.queue == start[k].1.queue by {
            assert(taken_from(s.out, k) + s.inputs[k].1.queue == start[k].1.queue);
            if k == i {
                let q = input.queue;
                assert(q == q.take(n as int) + q.skip(n as int));
                assert(taken_from(s.out, k) + q.take(n as int) + q.skip(n as int) =~= taken_from(
                    s.out,
                    k,
                ) + q);
            }
        }
    }
}

proof fn lemma_round_keeps(start: InputsModel, budget: nat, s: Flushing, i: int)
    requires
        flush_keeps(start, budget, s),
        0 <= i <= s.inputs.len(),
    ensures
        flush_keeps(start, budget, round(s, i)),
        round(s, i).budget <= s.budget,
        round(s, i).budget == s.budget && s.budget > 0 ==> round(s, i) == s && forall|k: int|
            i <= k < s.inputs.len() ==> (#[trigger] s.inputs[k]).1.queue.len() == 0,
    decreases s.inputs.len() - i,
{
    if i < s.inputs.len() {
        lemma_turn_keeps(start, budget, s, i);
        lemma_round_keeps(start, budget, turn(s, i), i + 1);
    }
}

proof fn lemma_rounds_keep(start: InputsModel, budget: nat, s: Flushing)
    requires
        flush_keeps(start, budget, s),
    ensures
        flush_keeps(start, budget, rounds(s)),
        rounds(s).budget > 0 ==> forall|i: int|
            0 <= i < start.len() ==> (#[trigger] rounds(s).inputs[i]).1.queue.len() == 0,
    decreases s.budget,
{
    lemma_round_keeps(start, budget, s, 0);
    let next = round(s, 0);
    if next.budget < s.budget {
        lemma_rounds_keep(start, budget, next);
    }
}

/// Flushing loses, repeats and reorders nothing: what leaves a queue is its front, in its order.
/// No more than the budget leaves, and less only where nothing is left to show.
pub proof fn law_flush_keeps_order(inputs: InputsModel, i: int)
    requires
        0 <= i < inputs.len(),
    ensures
        ({
            let done = queues_flushed(inputs);
            &&& taken_from(done.out, i) + done.inputs[i].1.queue == inputs[i].1.queue
            &&& taken_count(done.out) <= DISPLAY_FLUSH_PACKET_BUDGET
            &&& taken_count(done.out) < DISPLAY_FLUSH_PACKET_BUDGET ==> done.inputs[i].1.queue.len()
                == 0
        }),
{
    let start = flushing(inputs, Seq::empty(), DISPLAY_FLUSH_PACKET_BUDGET as nat);
    assert forall|k: int| 0 <= k < inputs.len() implies taken_from(start.out, k) + (
    #[trigger] start.inputs[k]).1.queue == inputs[k].1.queue by {
        assert(taken_from(start.out, k) + inputs[k].1.queue =~= inputs[k].1.queue);
    }
    lemma_rounds_keep(inputs, DISPLAY_FLUSH_PACKET_BUDGET as nat, start);
    let done = queues_flushed(inputs);
    assert(taken_from(done.out, i) + done.inputs[i].1.queue == inputs[i].1.queue);
}

} // verus!

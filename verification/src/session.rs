//! Sessions: the inputs and outputs of a run, and what is looked for in the inputs.
use crate::args::{collected, lemma_collected_error, parse_port_spec, port_spec};
use crate::command_line::{format_list, parse_output_format_list};
use crate::display::{LineBreakMode, PortDisplayMode};
use crate::format::{format_display_mode, format_name, parsed_format, OutputFormat};
use crate::table::{before, found, inserted, Table};
use crate::text::{cut_at_last, rsplit_once, same, viewed};
use vstd::prelude::*;

verus! {

// ---------------------------------------------------------------------------
// Inputs and outputs
// ---------------------------------------------------------------------------

#[derive(Debug, PartialEq, Eq)]
pub struct SessionInputSpec {
    pub id: String,
    pub port: String,
    pub baud_rate: u32,
    pub display_mode: PortDisplayMode,
    pub line_break_mode: LineBreakMode,
}

#[verifier::ext_equal]
pub struct InputSpecModel {
    pub id: Seq<char>,
    pub port: Seq<char>,
    pub baud_rate: u32,
    pub display_mode: PortDisplayMode,
    pub line_break_mode: LineBreakMode,
}

impl DeepView for SessionInputSpec {
    type V = InputSpecModel;

    open spec fn deep_view(&self) -> InputSpecModel {
        InputSpecModel {
            id: self.id@,
            port: self.port@,
            baud_rate: self.baud_rate,
            display_mode: self.display_mode,
            line_break_mode: self.line_break_mode,
        }
    }
}

#[derive(Debug, PartialEq, Eq)]
pub struct SessionOutputSpec {
    pub id: String,
    pub port: String,
    pub baud_rate: u32,
    pub format_name: String,
    pub display_mode: PortDisplayMode,
}

#[verifier::ext_equal]
pub struct OutputSpecModel {
    pub id: Seq<char>,
    pub port: Seq<char>,
    pub baud_rate: u32,
    pub format_name: Seq<char>,
    pub display_mode: PortDisplayMode,
}

impl DeepView for SessionOutputSpec {
    type V = OutputSpecModel;

    open spec fn deep_view(&self) -> OutputSpecModel {
        OutputSpecModel {
            id: self.id@,
            port: self.port@,
            baud_rate: self.baud_rate,
            format_name: self.format_name@,
            display_mode: self.display_mode,
        }
    }
}

/// An input whose packets are picked out of its bytes.
#[derive(Debug)]
pub struct ObservedInputSpec {
    pub input_id: String,
    pub port: String,
    pub formats: Vec<OutputFormat>,
    pub per_format_display_modes: Option<Vec<(OutputFormat, PortDisplayMode)>>,
    pub preserve_line_breaks: bool,
}

#[verifier::ext_equal]
pub struct ObservedSpecModel {
    pub input_id: Seq<char>,
    pub port: Seq<char>,
    pub formats: Seq<OutputFormat>,
    pub per_format_display_modes: Option<Seq<(OutputFormat, PortDisplayMode)>>,
    pub preserve_line_breaks: bool,
}

impl DeepView for ObservedInputSpec {
    type V = ObservedSpecModel;

    open spec fn deep_view(&self) -> ObservedSpecModel {
        ObservedSpecModel {
            input_id: self.input_id@,
            port: self.port@,
            formats: self.formats@,
            per_format_display_modes: match self.per_format_display_modes {
                Some(modes) => Some(modes@),
                None => None,
            },
            preserve_line_breaks: self.preserve_line_breaks,
        }
    }
}

// ---------------------------------------------------------------------------
// PORT[@BAUD][,DISPLAY][,FORMAT[+FORMAT]]
// ---------------------------------------------------------------------------

/// An input as an option names it.
#[derive(Debug, PartialEq, Eq)]
pub struct InputBinding {
    pub port: String,
    pub baud: Option<u32>,
    pub formats: Vec<String>,
    pub display_mode: Option<PortDisplayMode>,
    pub line_break_mode: Option<LineBreakMode>,
}

#[verifier::ext_equal]
pub struct InputBindingModel {
    pub port: Seq<char>,
    pub baud: Option<u32>,
    pub formats: Seq<Seq<char>>,
    pub display_mode: Option<PortDisplayMode>,
    pub line_break_mode: Option<LineBreakMode>,
}

impl DeepView for InputBinding {
    type V = InputBindingModel;

    open spec fn deep_view(&self) -> InputBindingModel {
        InputBindingModel {
            port: self.port@,
            baud: self.baud,
            formats: self.formats.deep_view(),
            display_mode: self.display_mode,
            line_break_mode: self.line_break_mode,
        }
    }
}

/// What stands before a format list at the end, and the list; everything and nothing where there
/// is none.
pub open spec fn split_formats(value: Seq<char>) -> (Seq<char>, Seq<Seq<char>>) {
    match cut_at_last(value, ',') {
        Some((rest, names)) => match format_list(names) {
            Some(formats) => (rest, formats),
            None => (value, seq![]),
        },
        None => (value, seq![]),
    }
}

/// The input that a text names.
pub open spec fn input_binding(value: Seq<char>, empty: Seq<char>, option: Seq<char>) -> Result<
    InputBindingModel,
    Seq<char>,
> {
    if value.len() == 0 {
        Err(empty)
    } else {
        let (rest, formats) = split_formats(value);
        match port_spec(option, rest) {
            Err(e) => Err(e),
            Ok(spec) => Ok(
                InputBindingModel {
                    port: spec.port,
                    baud: spec.baud,
                    formats,
                    display_mode: spec.display_mode,
                    line_break_mode: spec.line_break_mode,
                },
            ),
        }
    }
}

pub fn parse_input_binding(value: &str, empty: &str, option: &str) -> (r: Result<
    InputBinding,
    String,
>)
    ensures
        viewed(r) == input_binding(value@, empty@, option@),
{
    if value.is_empty() {
        return Err(empty.to_owned());
    }
    let mut formats: Vec<String> = Vec::new();
    let mut rest = value;
    if let Some((head, names)) = rsplit_once(value, ',') {
        if let Some(list) = parse_output_format_list(names) {
            rest = head;
            formats = list;
        }
    }
    assert(rest@ == split_formats(value@).0);
    assert(formats.deep_view() =~= split_formats(value@).1);
    let spec = parse_port_spec(option, rest)?;
    Ok(
        InputBinding {
            port: spec.port,
            baud: spec.baud,
            formats,
            display_mode: spec.display_mode,
            line_break_mode: spec.line_break_mode,
        },
    )
}

pub open spec fn format_reader() -> spec_fn(Seq<char>) -> Result<
    Option<OutputFormat>,
    Seq<char>,
> {
    |name: Seq<char>|
        match parsed_format(name) {
            Err(e) => Err(e),
            Ok(format) => Ok(Some(format)),
        }
}

/// The formats that names stand for, or the error of the first that stands for none.
pub open spec fn formats_named(names: Seq<Seq<char>>) -> Result<Seq<OutputFormat>, Seq<char>> {
    collected(format_reader(), names)
}

pub fn resolve_formats(names: &Vec<String>) -> (r: Result<Vec<OutputFormat>, String>)
    ensures
        match r {
            Ok(formats) => formats_named(names.deep_view()) == Ok::<Seq<OutputFormat>, Seq<char>>(
                formats@,
            ),
            Err(e) => formats_named(names.deep_view()) == Err::<Seq<OutputFormat>, Seq<char>>(e@),
        },
{
    let mut formats: Vec<OutputFormat> = Vec::new();
    let ghost all = names.deep_view();
    let mut i: usize = 0;
    assert(all.take(0) =~= Seq::<Seq<char>>::empty());
    assert(formats@ =~= Seq::<OutputFormat>::empty());
    while i < names.len()
        invariant
            i <= names.len(),
            all == names.deep_view(),
            formats_named(all.take(i as int)) == Ok::<Seq<OutputFormat>, Seq<char>>(formats@),
        decreases names.len() - i,
    {
        proof {
            assert(all.take(i + 1).drop_last() == all.take(i as int));
            assert(all.take(i + 1).last() == names@[i as int]@);
        }
        match OutputFormat::parse(names[i].as_str()) {
            Ok(format) => {
                formats.push(format);
            },
            Err(e) => {
                proof {
                    lemma_collected_error(format_reader(), all, i + 1, e@);
                }
                return Err(e);
            },
        }
        i += 1;
    }
    assert(all.take(i as int) == all);
    Ok(formats)
}

// ---------------------------------------------------------------------------
// Formats, each one once
// ---------------------------------------------------------------------------

/// The formats with others behind them, where these are not there yet.
pub open spec fn extended(formats: Seq<OutputFormat>, more: Seq<OutputFormat>) -> Seq<OutputFormat>
    decreases more.len(),
{
    if more.len() == 0 {
        formats
    } else {
        let before = extended(formats, more.drop_last());
        if before.contains(more.last()) {
            before
        } else {
            before.push(more.last())
        }
    }
}

pub fn has_format(formats: &Vec<OutputFormat>, format: OutputFormat) -> (r: bool)
    ensures
        r == formats@.contains(format),
{
    let mut i: usize = 0;
    while i < formats.len()
        invariant
            i <= formats.len(),
            forall|k: int| 0 <= k < i ==> #[trigger] formats@[k] != format,
        decreases formats.len() - i,
    {
        if formats[i] == format {
            return true;
        }
        i += 1;
    }
    false
}

pub fn extend_unique_formats(target: &mut Vec<OutputFormat>, values: &Vec<OutputFormat>)
    ensures
        final(target)@ == extended(old(target)@, values@),
{
    let mut i: usize = 0;
    assert(values@.take(0) =~= Seq::<OutputFormat>::empty());
    while i < values.len()
        invariant
            i <= values.len(),
            target@ == extended(old(target)@, values@.take(i as int)),
        decreases values.len() - i,
    {
        proof {
            assert(values@.take(i + 1).drop_last() == values@.take(i as int));
            assert(values@.take(i + 1).last() == values@[i as int]);
        }
        if !has_format(target, values[i]) {
            target.push(values[i]);
        }
        i += 1;
    }
    assert(values@.take(i as int) == values@);
}

/// All formats in the order of their names.
pub open spec fn name_order() -> Seq<OutputFormat> {
    seq![
        OutputFormat::PacketAcV6,
        OutputFormat::PacketAcV6Usb,
        OutputFormat::PacketBv1,
        OutputFormat::PacketGcV1,
        OutputFormat::PacketIv1,
        OutputFormat::PacketJfV1,
        OutputFormat::PacketMv1,
        OutputFormat::PacketUfV2,
        OutputFormat::RoverDownGeneral,
        OutputFormat::RoverUpGeneral,
    ]
}

/// Formats, each one once, in the order of their names.
pub open spec fn sorted_formats(formats: Seq<OutputFormat>) -> Seq<OutputFormat> {
    name_order().filter(|f: OutputFormat| formats.contains(f))
}

proof fn lemma_first_difference(a: Seq<char>, b: Seq<char>, k: int)
    requires
        0 <= k <= a.len(),
        k < b.len(),
        forall|i: int| 0 <= i < k ==> a[i] == b[i],
        k == a.len() || a[k] < b[k],
    ensures
        before(a, b),
    decreases k,
{
    if k > 0 {
        assert forall|i: int| 0 <= i < k - 1 implies a.skip(1)[i] == b.skip(1)[i] by {
            assert(a[i + 1] == b[i + 1]);
        }
        lemma_first_difference(a.skip(1), b.skip(1), k - 1);
    }
}

/// The order of all formats is that of their names, and no format is left out.
pub proof fn law_name_order(i: int, format: OutputFormat)
    requires
        0 <= i < 9,
    ensures
        before(format_name(name_order()[i]), format_name(name_order()[i + 1])),
        name_order().contains(format),
{
    reveal_strlit("packetacv6");
    reveal_strlit("packetacv6usb");
    reveal_strlit("packetmv1");
    reveal_strlit("packetiv1");
    reveal_strlit("packetbv1");
    reveal_strlit("packetgcv1");
    reveal_strlit("packetjfv1");
    reveal_strlit("packetufv2");
    reveal_strlit("roverupgeneral");
    reveal_strlit("roverdowngeneral");
    let a = format_name(name_order()[i]);
    let b = format_name(name_order()[i + 1]);
    if i == 0 {
        lemma_first_difference(a, b, 10);
    } else if i == 7 {
        lemma_first_difference(a, b, 0);
    } else if i == 8 {
        lemma_first_difference(a, b, 5);
    } else {
        lemma_first_difference(a, b, 6);
    }
    let k = match format {
        OutputFormat::PacketAcV6 => 0int,
        OutputFormat::PacketAcV6Usb => 1,
        OutputFormat::PacketBv1 => 2,
        OutputFormat::PacketGcV1 => 3,
        OutputFormat::PacketIv1 => 4,
        OutputFormat::PacketJfV1 => 5,
        OutputFormat::PacketMv1 => 6,
        OutputFormat::PacketUfV2 => 7,
        OutputFormat::RoverDownGeneral => 8,
        OutputFormat::RoverUpGeneral => 9,
    };
    assert(name_order()[k] == format);
}

pub fn sort_formats(formats: &Vec<OutputFormat>) -> (r: Vec<OutputFormat>)
    ensures
        r@ == sorted_formats(formats@),
{
    let order = [
        OutputFormat::PacketAcV6,
        OutputFormat::PacketAcV6Usb,
        OutputFormat::PacketBv1,
        OutputFormat::PacketGcV1,
        OutputFormat::PacketIv1,
        OutputFormat::PacketJfV1,
        OutputFormat::PacketMv1,
        OutputFormat::PacketUfV2,
        OutputFormat::RoverDownGeneral,
        OutputFormat::RoverUpGeneral,
    ];
    assert(order@ =~= name_order());
    let ghost keep = |f: OutputFormat| formats@.contains(f);
    let mut out: Vec<OutputFormat> = Vec::new();
    let mut i: usize = 0;
    proof {
        reveal(Seq::filter);
        assert(order@.take(0) =~= Seq::<OutputFormat>::empty());
    }
    while i < 10
        invariant
            i <= 10,
            order@ == name_order(),
            keep == (|f: OutputFormat| formats@.contains(f)),
            out@ == order@.take(i as int).filter(keep),
        decreases 10 - i,
    {
        proof {
            reveal(Seq::filter);
            assert(order@.take(i + 1).drop_last() == order@.take(i as int));
            assert(order@.take(i + 1).last() == order@[i as int]);
        }
        if has_format(formats, order[i]) {
            out.push(order[i]);
        }
        i += 1;
    }
    assert(order@.take(10) =~= order@);
    out
}

// ---------------------------------------------------------------------------
// Planning inputs
// ---------------------------------------------------------------------------

/// The inputs of a session so far, the formats that are looked for on each port, and whether how
/// they are shown was asked for.
#[derive(Debug)]
pub struct InputPlan {
    pub inputs: Vec<SessionInputSpec>,
    pub candidates: Table<Vec<OutputFormat>>,
    pub explicit: Table<bool>,
}

#[verifier::ext_equal]
pub struct InputPlanModel {
    pub inputs: Seq<InputSpecModel>,
    pub candidates: Seq<(Seq<char>, Seq<OutputFormat>)>,
    pub explicit: Seq<(Seq<char>, bool)>,
}

impl DeepView for InputPlan {
    type V = InputPlanModel;

    open spec fn deep_view(&self) -> InputPlanModel {
        InputPlanModel {
            inputs: self.inputs.deep_view(),
            candidates: self.candidates.deep_view(),
            explicit: self.explicit.deep_view(),
        }
    }
}

/// The first input on a port.
pub open spec fn input_on(inputs: Seq<InputSpecModel>, port: Seq<char>) -> Option<InputSpecModel>
    decreases inputs.len(),
{
    if inputs.len() == 0 {
        None
    } else if inputs[0].port == port {
        Some(inputs[0])
    } else {
        input_on(inputs.skip(1), port)
    }
}

pub fn find_input<'a>(inputs: &'a Vec<SessionInputSpec>, port: &str) -> (r: Option<
    &'a SessionInputSpec,
>)
    ensures
        r.deep_view() == input_on(inputs.deep_view(), port@),
{
    let ghost all = inputs.deep_view();
    let mut i: usize = 0;
    assert(all.skip(0) == all);
    while i < inputs.len()
        invariant
            i <= inputs.len(),
            all == inputs.deep_view(),
            input_on(all, port@) == input_on(all.skip(i as int), port@),
        decreases inputs.len() - i,
    {
        assert(all.skip(i as int)[0] == inputs@[i as int].deep_view());
        if same(inputs[i].port.as_str(), port) {
            return Some(&inputs[i]);
        }
        assert(all.skip(i as int).skip(1) == all.skip(i + 1));
        i += 1;
    }
    None
}

impl InputPlanModel {
    pub open spec fn empty() -> InputPlanModel {
        InputPlanModel { inputs: seq![], candidates: seq![], explicit: seq![] }
    }

    /// The plan with one more input.
    pub open spec fn with_input(self, input: InputSpecModel) -> InputPlanModel {
        InputPlanModel { inputs: self.inputs.push(input), ..self }
    }

    /// The plan with one more input, unless there is one on its port.
    pub open spec fn with_port(self, input: InputSpecModel) -> InputPlanModel {
        if input_on(self.inputs, input.port) is Some {
            self
        } else {
            self.with_input(input)
        }
    }

    /// The plan with formats to look for on a port.
    pub open spec fn looking_for(
        self,
        port: Seq<char>,
        formats: Seq<OutputFormat>,
    ) -> InputPlanModel {
        InputPlanModel {
            candidates: inserted(
                self.candidates,
                port,
                extended(
                    match found(self.candidates, port) {
                        Some(formats) => formats,
                        None => seq![],
                    },
                    formats,
                ),
            ),
            ..self
        }
    }

    /// The plan where it is known for a port whether its display was asked for.
    pub open spec fn shown_as_asked(self, port: Seq<char>, asked: bool) -> InputPlanModel {
        InputPlanModel {
            explicit: inserted(
                self.explicit,
                port,
                found(self.explicit, port) == Some(true) || asked,
            ),
            ..self
        }
    }

    /// What is looked for on a port, where that has an input.
    pub open spec fn observed_on(
        self,
        port: Seq<char>,
        formats: Seq<OutputFormat>,
        keep_line_breaks: bool,
    ) -> Option<ObservedSpecModel> {
        match input_on(self.inputs, port) {
            None => None,
            Some(input) => if formats.len() == 0 {
                None
            } else {
                Some(
                    ObservedSpecModel {
                        input_id: input.id,
                        port,
                        formats: sorted_formats(formats),
                        per_format_display_modes: modes_per_format(
                            found(self.explicit, port) == Some(true),
                            sorted_formats(formats),
                        ),
                        preserve_line_breaks: keep_line_breaks && input.line_break_mode
                            == LineBreakMode::Crlf,
                    },
                )
            },
        }
    }

    pub open spec fn observed_up_to(self, n: nat, keep_line_breaks: bool) -> Seq<ObservedSpecModel>
        decreases n,
    {
        if n == 0 {
            seq![]
        } else {
            let before = self.observed_up_to((n - 1) as nat, keep_line_breaks);
            let entry = self.candidates[n - 1];
            match self.observed_on(entry.0, entry.1, keep_line_breaks) {
                Some(spec) => before.push(spec),
                None => before,
            }
        }
    }

    /// The inputs whose packets are picked out, in the order of their ports.
    pub open spec fn observed(self, keep_line_breaks: bool) -> Seq<ObservedSpecModel> {
        self.observed_up_to(self.candidates.len(), keep_line_breaks)
    }
}

/// How each of several formats is shown, unless a display was asked for.
pub open spec fn modes_per_format(asked: bool, formats: Seq<OutputFormat>) -> Option<
    Seq<(OutputFormat, PortDisplayMode)>,
> {
    if asked || formats.len() <= 1 {
        None
    } else {
        Some(formats.map_values(|f: OutputFormat| (f, format_display_mode(f))))
    }
}

fn display_modes_per_format(asked: bool, formats: &Vec<OutputFormat>) -> (r: Option<
    Vec<(OutputFormat, PortDisplayMode)>,
>)
    ensures
        match r {
            Some(modes) => modes_per_format(asked, formats@) == Some(modes@),
            None => modes_per_format(asked, formats@) is None,
        },
{
    if asked || formats.len() <= 1 {
        return None;
    }
    let mut modes: Vec<(OutputFormat, PortDisplayMode)> = Vec::new();
    let mut i: usize = 0;
    while i < formats.len()
        invariant
            i <= formats.len(),
            modes@ == formats@.take(i as int).map_values(
                |f: OutputFormat| (f, format_display_mode(f)),
            ),
        decreases formats.len() - i,
    {
        let ghost before = modes@;
        modes.push((formats[i], formats[i].default_display_mode()));
        assert(formats@.take(i + 1).map_values(|f: OutputFormat| (f, format_display_mode(f)))
            =~= before.push((formats@[i as int], format_display_mode(formats@[i as int]))));
        i += 1;
    }
    assert(formats@.take(i as int) == formats@);
    Some(modes)
}

impl Default for InputPlan {
    fn default() -> (plan: InputPlan)
        ensures
            plan.deep_view() == InputPlanModel::empty(),
    {
        let plan = InputPlan {
            inputs: Vec::new(),
            candidates: Table::new(),
            explicit: Table::new(),
        };
        assert(plan.deep_view() =~= InputPlanModel::empty());
        plan
    }
}

impl InputPlan {
    pub fn add_input(&mut self, input: SessionInputSpec)
        ensures
            final(self).deep_view() == old(self).deep_view().with_input(input.deep_view()),
    {
        let ghost before = self.inputs.deep_view();
        let ghost m = input.deep_view();
        self.inputs.push(input);
        assert(self.inputs.deep_view() =~= before.push(m));
    }

    pub fn add_port(&mut self, input: SessionInputSpec)
        ensures
            final(self).deep_view() == old(self).deep_view().with_port(input.deep_view()),
    {
        if find_input(&self.inputs, input.port.as_str()).is_none() {
            self.add_input(input);
        }
    }

    pub fn look_for(&mut self, port: &str, formats: &Vec<OutputFormat>)
        ensures
            final(self).deep_view() == old(self).deep_view().looking_for(port@, formats@),
    {
        let mut wanted: Vec<OutputFormat> = Vec::new();
        assert(wanted@ =~= Seq::<OutputFormat>::empty());
        if let Some(already) = self.candidates.get(port) {
            assert(already.deep_view() =~= already@);
            extend_from(&mut wanted, already);
        }
        extend_unique_formats(&mut wanted, formats);
        assert(wanted.deep_view() =~= wanted@);
        self.candidates.insert(port.to_owned(), wanted);
    }

    pub fn note_display(&mut self, port: &str, asked: bool)
        ensures
            final(self).deep_view() == old(self).deep_view().shown_as_asked(port@, asked),
    {
        let already = match self.explicit.get(port) {
            Some(already) => *already,
            None => false,
        };
        self.explicit.insert(port.to_owned(), already || asked);
    }

    fn observed_input(
        &self,
        port: &str,
        formats: &Vec<OutputFormat>,
        keep_line_breaks: bool,
    ) -> (r: Option<ObservedInputSpec>)
        ensures
            r.deep_view() == self.deep_view().observed_on(port@, formats@, keep_line_breaks),
    {
        match find_input(&self.inputs, port) {
            None => None,
            Some(input) => if formats.len() == 0 {
                None
            } else {
                let sorted = sort_formats(formats);
                let asked = match self.explicit.get(port) {
                    Some(asked) => *asked,
                    None => false,
                };
                let per_format_display_modes = display_modes_per_format(asked, &sorted);
                Some(
                    ObservedInputSpec {
                        input_id: input.id.clone(),
                        port: port.to_owned(),
                        formats: sorted,
                        per_format_display_modes,
                        preserve_line_breaks: keep_line_breaks
                            && input.line_break_mode.preserve_entry_line_breaks(),
                    },
                )
            },
        }
    }

    /// What is looked for on each port.
    pub fn observed_inputs(&self, keep_line_breaks: bool) -> (r: Vec<ObservedInputSpec>)
        ensures
            r.deep_view() == self.deep_view().observed(keep_line_breaks),
    {
        let ghost plan = self.deep_view();
        let mut specs: Vec<ObservedInputSpec> = Vec::new();
        let mut i: usize = 0;
        assert(specs.deep_view() =~= Seq::<ObservedSpecModel>::empty());
        while i < self.candidates.len()
            invariant
                plan == self.deep_view(),
                i <= plan.candidates.len(),
                specs.deep_view() == plan.observed_up_to(i as nat, keep_line_breaks),
            decreases plan.candidates.len() - i,
        {
            let ghost before = specs.deep_view();
            let formats = self.candidates.value(i);
            assert(formats.deep_view() =~= formats@);
            match self.observed_input(self.candidates.key(i), formats, keep_line_breaks) {
                Some(spec) => {
                    let ghost m = spec.deep_view();
                    specs.push(spec);
                    assert(specs.deep_view() =~= before.push(m));
                },
                None => {},
            }
            i += 1;
        }
        specs
    }
}

/// Takes formats over as they are.
fn extend_from(target: &mut Vec<OutputFormat>, values: &Vec<OutputFormat>)
    requires
        old(target)@.len() == 0,
    ensures
        final(target)@ == values@,
{
    let mut i: usize = 0;
    while i < values.len()
        invariant
            i <= values.len(),
            target@ == values@.take(i as int),
        decreases values.len() - i,
    {
        target.push(values[i]);
        assert(values@.take(i + 1) =~= values@.take(i as int).push(values@[i as int]));
        i += 1;
    }
    assert(values@.take(i as int) == values@);
}

} // verus!

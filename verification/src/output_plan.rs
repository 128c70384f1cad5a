//! Planning outputs: each id once, and one baud rate on each port.
use crate::command_line::{display_mode_for, resolve_display_mode};
use crate::display::{PortDisplayConfig, PortDisplayMode, PortDisplayModel};
use crate::format::{format_display_mode, format_name, OutputFormat};
use crate::ports::{copy_lookup, Lookup};
use crate::session::{OutputSpecModel, SessionOutputSpec};
use crate::text::{cat4, cat5, decimal, decimal_text, same, viewed};
use vstd::prelude::*;
use vstd::string::*;

verus! {

/// An output with its format and its rate.
#[derive(Debug)]
pub struct OutputSettings<R> {
    pub session: SessionOutputSpec,
    pub format: OutputFormat,
    pub rate_hz: R,
}

#[verifier::ext_equal]
pub struct OutputSettingsModel<M> {
    pub session: OutputSpecModel,
    pub format: OutputFormat,
    pub rate_hz: M,
}

impl<R: DeepView> DeepView for OutputSettings<R> {
    type V = OutputSettingsModel<R::V>;

    open spec fn deep_view(&self) -> OutputSettingsModel<R::V> {
        OutputSettingsModel {
            session: self.session.deep_view(),
            format: self.format,
            rate_hz: self.rate_hz.deep_view(),
        }
    }
}

/// An output has the id.
pub open spec fn has_id<M>(outputs: Seq<OutputSettingsModel<M>>, id: Seq<char>) -> bool {
    exists|i: int| 0 <= i < outputs.len() && (#[trigger] outputs[i]).session.id == id
}

/// The baud rate of the first output on a port.
pub open spec fn baud_on<M>(outputs: Seq<OutputSettingsModel<M>>, port: Seq<char>) -> Option<u32>
    decreases outputs.len(),
{
    if outputs.len() == 0 {
        None
    } else if outputs[0].session.port == port {
        Some(outputs[0].session.baud_rate)
    } else {
        baud_on(outputs.skip(1), port)
    }
}

fn find_id<R: DeepView>(outputs: &Vec<OutputSettings<R>>, id: &str) -> (r: bool)
    ensures
        r == has_id(outputs.deep_view(), id@),
{
    let ghost all = outputs.deep_view();
    let mut i: usize = 0;
    while i < outputs.len()
        invariant
            i <= outputs.len(),
            all == outputs.deep_view(),
            forall|k: int| 0 <= k < i ==> (#[trigger] all[k]).session.id != id@,
        decreases outputs.len() - i,
    {
        assert(all[i as int] == outputs@[i as int].deep_view());
        if same(outputs[i].session.id.as_str(), id) {
            return true;
        }
        i += 1;
    }
    false
}

fn find_baud<R: DeepView>(outputs: &Vec<OutputSettings<R>>, port: &str) -> (r: Option<u32>)
    ensures
        r == baud_on(outputs.deep_view(), port@),
{
    let ghost all = outputs.deep_view();
    let mut i: usize = 0;
    assert(all.skip(0) == all);
    while i < outputs.len()
        invariant
            i <= outputs.len(),
            all == outputs.deep_view(),
            baud_on(all, port@) == baud_on(all.skip(i as int), port@),
        decreases outputs.len() - i,
    {
        assert(all.skip(i as int)[0] == outputs@[i as int].deep_view());
        if same(outputs[i].session.port.as_str(), port) {
            return Some(outputs[i].session.baud_rate);
        }
        assert(all.skip(i as int).skip(1) == all.skip(i + 1));
        i += 1;
    }
    None
}

/// What is wrong with a port that is asked for two baud rates.
#[verifier::opaque]
pub open spec fn two_bauds(kind: Seq<char>, port: Seq<char>, a: u32, b: u32) -> Seq<char> {
    kind + " output port `"@ + port + "` cannot use multiple baud rates ("@ + decimal(a as nat)
        + " and "@ + decimal(b as nat) + ")"@
}

fn two_bauds_message(kind: &str, port: &str, a: u32, b: u32) -> (r: String)
    ensures
        r@ == two_bauds(kind@, port@, a, b),
{
    reveal(two_bauds);
    let first = decimal_text(a as u64);
    let second = decimal_text(b as u64);
    let mut r = cat5(
        kind,
        " output port `",
        port,
        "` cannot use multiple baud rates (",
        first.as_str(),
    );
    r.append(" and ");
    r.append(second.as_str());
    r.append(")");
    r
}

/// What one output asks for, beside its port.
pub struct OutputWishModel<M> {
    pub id: Seq<char>,
    pub baud_rate: u32,
    pub format: OutputFormat,
    pub display_mode: Option<PortDisplayMode>,
    pub rate_hz: M,
}

/// The next output, or what stands against it: an id that is taken, a port that was not found, or
/// another baud rate on its port.
pub open spec fn planned<M>(
    kind: Seq<char>,
    outputs: Seq<OutputSettingsModel<M>>,
    wish: OutputWishModel<M>,
    found: Lookup,
    display: PortDisplayModel,
) -> Result<OutputSettingsModel<M>, Seq<char>> {
    if has_id(outputs, wish.id) {
        Err("duplicate "@ + kind + " output id: "@ + wish.id)
    } else {
        match found {
            Err(e) => Err(e),
            Ok(port) => match baud_on(outputs, port) {
                Some(baud) => if baud != wish.baud_rate {
                    Err(two_bauds(kind, port, baud, wish.baud_rate))
                } else {
                    Ok(settled(wish, port, display))
                },
                None => Ok(settled(wish, port, display)),
            },
        }
    }
}

/// An output on the port that was found for it.
pub open spec fn settled<M>(
    wish: OutputWishModel<M>,
    port: Seq<char>,
    display: PortDisplayModel,
) -> OutputSettingsModel<M> {
    OutputSettingsModel {
        session: OutputSpecModel {
            id: wish.id,
            port,
            baud_rate: wish.baud_rate,
            format_name: format_name(wish.format),
            display_mode: display_mode_for(
                wish.display_mode,
                display.output_override(port),
                Some(format_display_mode(wish.format)),
            ),
        },
        format: wish.format,
        rate_hz: wish.rate_hz,
    }
}

pub struct OutputWish<R> {
    pub id: String,
    pub baud_rate: u32,
    pub format: OutputFormat,
    pub display_mode: Option<PortDisplayMode>,
    pub rate_hz: R,
}

impl<R: DeepView> DeepView for OutputWish<R> {
    type V = OutputWishModel<R::V>;

    open spec fn deep_view(&self) -> OutputWishModel<R::V> {
        OutputWishModel {
            id: self.id@,
            baud_rate: self.baud_rate,
            format: self.format,
            display_mode: self.display_mode,
            rate_hz: self.rate_hz.deep_view(),
        }
    }
}

pub fn plan_output<R: DeepView>(
    kind: &str,
    outputs: &Vec<OutputSettings<R>>,
    wish: OutputWish<R>,
    found: &Result<String, String>,
    display: &PortDisplayConfig,
) -> (r: Result<OutputSettings<R>, String>)
    ensures
        viewed(r) == planned(
            kind@,
            outputs.deep_view(),
            wish.deep_view(),
            viewed(*found),
            display.deep_view(),
        ),
{
    if find_id(outputs, wish.id.as_str()) {
        return Err(cat4("duplicate ", kind, " output id: ", wish.id.as_str()));
    }
    let port = copy_lookup(found)?;
    if let Some(baud) = find_baud(outputs, port.as_str()) {
        if baud != wish.baud_rate {
            return Err(two_bauds_message(kind, port.as_str(), baud, wish.baud_rate));
        }
    }
    let display_mode = resolve_display_mode(
        wish.display_mode,
        display.resolve_output_override(port.as_str()),
        Some(wish.format.default_display_mode()),
    );
    Ok(
        OutputSettings {
            session: SessionOutputSpec {
                id: wish.id,
                port,
                baud_rate: wish.baud_rate,
                format_name: wish.format.as_str().to_owned(),
                display_mode,
            },
            format: wish.format,
            rate_hz: wish.rate_hz,
        },
    )
}

/// Planned outputs have ids of their own, and outputs on one port share its baud rate.
pub open spec fn well_planned<M>(outputs: Seq<OutputSettingsModel<M>>) -> bool {
    &&& forall|i: int, j: int|
        0 <= i < j < outputs.len() ==> (#[trigger] outputs[i]).session.id != (
        #[trigger] outputs[j]).session.id
    &&& forall|i: int, j: int|
        0 <= i < j < outputs.len() && (#[trigger] outputs[i]).session.port == (
        #[trigger] outputs[j]).session.port ==> outputs[i].session.baud_rate
            == outputs[j].session.baud_rate
}

proof fn lemma_baud_on<M>(outputs: Seq<OutputSettingsModel<M>>, i: int)
    requires
        well_planned(outputs),
        0 <= i < outputs.len(),
    ensures
        baud_on(outputs, outputs[i].session.port) == Some(outputs[i].session.baud_rate),
    decreases outputs.len(),
{
    let port = outputs[i].session.port;
    if outputs[0].session.port != port {
        let rest = outputs.skip(1);
        assert(rest[i - 1] == outputs[i]);
        assert(well_planned(rest)) by {
            assert forall|a: int, b: int| 0 <= a < b < rest.len() implies (
            #[trigger] rest[a]).session.id != (#[trigger] rest[b]).session.id by {
                assert(rest[a] == outputs[a + 1] && rest[b] == outputs[b + 1]);
            }
            assert forall|a: int, b: int|
                0 <= a < b < rest.len() && (#[trigger] rest[a]).session.port == (
                #[trigger] rest[b]).session.port implies rest[a].session.baud_rate
                == rest[b].session.baud_rate by {
                assert(rest[a] == outputs[a + 1] && rest[b] == outputs[b + 1]);
            }
        }
        lemma_baud_on(rest, i - 1);
    }
}

/// A planned output goes with those planned before it.
pub proof fn law_planned<M>(
    kind: Seq<char>,
    outputs: Seq<OutputSettingsModel<M>>,
    wish: OutputWishModel<M>,
    found: Lookup,
    display: PortDisplayModel,
)
    requires
        well_planned(outputs),
        planned(kind, outputs, wish, found, display) is Ok,
    ensures
        well_planned(outputs.push(planned(kind, outputs, wish, found, display)->Ok_0)),
{
    let added = planned(kind, outputs, wish, found, display)->Ok_0;
    let all = outputs.push(added);
    assert forall|i: int, j: int| 0 <= i < j < all.len() implies (#[trigger] all[i]).session.id
        != (#[trigger] all[j]).session.id by {
        if j == outputs.len() {
            assert(outputs[i].session.id != wish.id);
        }
    }
    assert forall|i: int, j: int|
        0 <= i < j < all.len() && (#[trigger] all[i]).session.port == (
        #[trigger] all[j]).session.port implies all[i].session.baud_rate
        == all[j].session.baud_rate by {
        if j == outputs.len() {
            lemma_baud_on(outputs, i);
        }
    }
}

} // verus!

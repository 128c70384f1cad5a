//! What the subcommands' options have in common: values, `KEY=VALUE` lists and port specs.
use crate::display::{
    display_value, parse_display_value, DisplayValue, LineBreakMode, PortDisplayMode,
};
use crate::text::{
    begins, begins_with, cat2, cat4, cat5, cut_at_first, cut_at_last, has_prefix, is_blank,
    number_up_to, parse_number, parse_u32, pieces, rsplit_once, split, split_once, strip_prefix,
    texts, trim, trimmed, viewed,
};
use vstd::prelude::*;

verus! {

pub const DEFAULT_BAUD_RATE: u32 = 115_200;

/// The baud rate of a port for which none is given.
pub fn default_baud_rate() -> (baud: u32)
    ensures
        baud == 115_200,
{
    DEFAULT_BAUD_RATE
}

// ---------------------------------------------------------------------------
// Values
// ---------------------------------------------------------------------------

/// The value that follows an option: the argument at `index`.
pub open spec fn value_at(args: Seq<Seq<char>>, index: int, option: Seq<char>) -> Result<
    Seq<char>,
    Seq<char>,
> {
    if 0 <= index < args.len() {
        Ok(args[index])
    } else {
        Err("missing value for "@ + option)
    }
}

pub fn next_value<'a>(args: &'a Vec<String>, index: usize, option: &str) -> (r: Result<
    &'a str,
    String,
>)
    ensures
        viewed(r) == value_at(texts(args@), index as int, option@),
{
    if index < args.len() {
        Ok(args[index].as_str())
    } else {
        Err(cat2("missing value for ", option))
    }
}

pub open spec fn invalid_value(option: Seq<char>, value: Seq<char>) -> Seq<char> {
    "invalid value for "@ + option + ": "@ + value
}

/// A number that a `u32` holds.
pub open spec fn u32_arg(option: Seq<char>, value: Seq<char>) -> Result<u32, Seq<char>> {
    match number_up_to(value, u32::MAX as nat) {
        Some(n) => Ok(n as u32),
        None => Err(invalid_value(option, value)),
    }
}

pub fn parse_u32_arg(option: &str, value: &str) -> (r: Result<u32, String>)
    ensures
        viewed(r) == u32_arg(option@, value@),
{
    match parse_u32(value) {
        Some(n) => Ok(n),
        None => Err(cat4("invalid value for ", option, ": ", value)),
    }
}

/// A number that a `usize` holds.
pub open spec fn usize_arg(option: Seq<char>, value: Seq<char>) -> Result<usize, Seq<char>> {
    match number_up_to(value, usize::MAX as nat) {
        Some(n) => Ok(n as usize),
        None => Err(invalid_value(option, value)),
    }
}

pub fn parse_usize_arg(option: &str, value: &str) -> (r: Result<usize, String>)
    ensures
        viewed(r) == usize_arg(option@, value@),
{
    match parse_number(value, usize::MAX as u64) {
        Some(n) => Ok(n as usize),
        None => Err(cat4("invalid value for ", option, ": ", value)),
    }
}

// ---------------------------------------------------------------------------
// KEY=VALUE,KEY=VALUE
// ---------------------------------------------------------------------------

#[derive(Debug, Clone, PartialEq, Eq)]
pub struct KeyValueArg {
    pub key: String,
    pub value: String,
}

impl DeepView for KeyValueArg {
    type V = (Seq<char>, Seq<char>);

    open spec fn deep_view(&self) -> (Seq<char>, Seq<char>) {
        (self.key@, self.value@)
    }
}

/// A key and a value, neither of them blank, around the first `=`.
pub open spec fn key_value(piece: Seq<char>) -> Option<(Seq<char>, Seq<char>)> {
    match cut_at_first(trimmed(piece), '=') {
        None => None,
        Some((key, value)) => if trimmed(key).len() == 0 || trimmed(value).len() == 0 {
            None
        } else {
            Some((trimmed(key), trimmed(value)))
        },
    }
}

pub open spec fn invalid_key_value(option: Seq<char>, value: Seq<char>) -> Seq<char> {
    "invalid value for "@ + option + ": "@ + value
        + " (expected KEY=VALUE or KEY=VALUE,KEY=VALUE)"@
}

/// The assignments of a list in order; each piece between commas must be one.
pub open spec fn key_values(option: Seq<char>, value: Seq<char>) -> Result<
    Seq<(Seq<char>, Seq<char>)>,
    Seq<char>,
> {
    let ps = pieces(value, ',');
    if trimmed(value).len() == 0 {
        Err("missing value for "@ + option)
    } else if forall|i: int| 0 <= i < ps.len() ==> key_value(#[trigger] ps[i]) is Some {
        Ok(ps.map_values(|p: Seq<char>| key_value(p)->0))
    } else {
        Err(invalid_key_value(option, value))
    }
}

pub fn parse_key_value_args(option: &str, value: &str) -> (r: Result<Vec<KeyValueArg>, String>)
    ensures
        viewed(r) == key_values(option@, value@),
{
    if is_blank(value) {
        return Err(cat2("missing value for ", option));
    }
    let parts = split(value, ',');
    let ghost ps = pieces(value@, ',');
    let mut args: Vec<KeyValueArg> = Vec::new();
    let mut i: usize = 0;
    while i < parts.len()
        invariant
            i <= parts.len(),
            ps == pieces(value@, ','),
            parts.deep_view() == ps,
            trimmed(value@).len() > 0,
            forall|k: int| 0 <= k < i ==> key_value(#[trigger] ps[k]) is Some,
            args.deep_view() == ps.take(i as int).map_values(|p: Seq<char>| key_value(p)->0),
        decreases parts.len() - i,
    {
        let ghost before = args.deep_view();
        assert(parts.deep_view()[i as int] == parts@[i as int]@);
        let assignment = trim(parts[i]);
        let (key, raw_value) = match split_once(assignment, '=') {
            Some(pair) => pair,
            None => {
                assert(key_value(ps[i as int]) is None);
                return Err(
                    cat5(
                        "invalid value for ",
                        option,
                        ": ",
                        value,
                        " (expected KEY=VALUE or KEY=VALUE,KEY=VALUE)",
                    ),
                );
            },
        };
        let key = trim(key);
        let raw_value = trim(raw_value);
        if key.is_empty() || raw_value.is_empty() {
            assert(key_value(ps[i as int]) is None);
            return Err(
                cat5(
                    "invalid value for ",
                    option,
                    ": ",
                    value,
                    " (expected KEY=VALUE or KEY=VALUE,KEY=VALUE)",
                ),
            );
        }
        args.push(KeyValueArg { key: key.to_owned(), value: raw_value.to_owned() });
        proof {
            let found = key_value(ps[i as int])->0;
            assert(args.deep_view() =~= before.push(found));
            assert(ps.take(i + 1).map_values(|p: Seq<char>| key_value(p)->0) =~= ps.take(
                i as int,
            ).map_values(|p: Seq<char>| key_value(p)->0).push(found));
        }
        i += 1;
    }
    assert(ps.take(i as int) == ps);
    Ok(args)
}

/// A key and a value.
pub type KeyValue = (Seq<char>, Seq<char>);

/// What items make of options, applied in order up to the first error.
pub open spec fn applied<O, I>(
    step: spec_fn(O, I) -> Result<O, Seq<char>>,
    options: O,
    items: Seq<I>,
) -> Result<O, Seq<char>>
    decreases items.len(),
{
    if items.len() == 0 {
        Ok(options)
    } else {
        match applied(step, options, items.drop_last()) {
            Ok(before) => step(before, items.last()),
            Err(e) => Err(e),
        }
    }
}

/// An error stays the outcome, whatever follows.
pub proof fn lemma_applied_error<O, I>(
    step: spec_fn(O, I) -> Result<O, Seq<char>>,
    options: O,
    items: Seq<I>,
    n: int,
    e: Seq<char>,
)
    requires
        0 <= n <= items.len(),
        applied(step, options, items.take(n)) == Err::<O, Seq<char>>(e),
    ensures
        applied(step, options, items) == Err::<O, Seq<char>>(e),
    decreases items.len(),
{
    if n == items.len() {
        assert(items.take(n) == items);
    } else {
        assert(items.drop_last().take(n) == items.take(n));
        lemma_applied_error(step, options, items.drop_last(), n, e);
    }
}

/// What each item is read as, in order, or the first error; items that are read as nothing are
/// left out.
pub open spec fn collected<I, T>(
    read: spec_fn(I) -> Result<Option<T>, Seq<char>>,
    items: Seq<I>,
) -> Result<Seq<T>, Seq<char>>
    decreases items.len(),
{
    if items.len() == 0 {
        Ok(seq![])
    } else {
        match collected(read, items.drop_last()) {
            Err(e) => Err(e),
            Ok(before) => match read(items.last()) {
                Err(e) => Err(e),
                Ok(Some(value)) => Ok(before.push(value)),
                Ok(None) => Ok(before),
            },
        }
    }
}

/// An error stays the outcome, whatever follows.
pub proof fn lemma_collected_error<I, T>(
    read: spec_fn(I) -> Result<Option<T>, Seq<char>>,
    items: Seq<I>,
    n: int,
    e: Seq<char>,
)
    requires
        0 <= n <= items.len(),
        collected(read, items.take(n)) == Err::<Seq<T>, Seq<char>>(e),
    ensures
        collected(read, items) == Err::<Seq<T>, Seq<char>>(e),
    decreases items.len(),
{
    if n == items.len() {
        assert(items.take(n) == items);
    } else {
        assert(items.drop_last().take(n) == items.take(n));
        lemma_collected_error(read, items.drop_last(), n, e);
    }
}

/// What the value of `--config` makes of options.
pub open spec fn configured<O>(
    step: spec_fn(O, KeyValue) -> Result<O, Seq<char>>,
    options: O,
    value: Seq<char>,
) -> Result<O, Seq<char>> {
    match key_values("--config"@, value) {
        Ok(kvs) => applied(step, options, kvs),
        Err(e) => Err(e),
    }
}

/// The options after the items up to the first one that cannot be applied.
pub open spec fn applied_up_to_error<O, I>(
    step: spec_fn(O, I) -> Result<O, Seq<char>>,
    options: O,
    items: Seq<I>,
) -> O
    decreases items.len(),
{
    if items.len() == 0 {
        options
    } else {
        match applied(step, options, items) {
            Ok(after) => after,
            Err(_) => applied_up_to_error(step, options, items.drop_last()),
        }
    }
}

/// The options that a value of `--config` leaves, whether it is refused or not. A list that cannot
/// be read changes nothing; otherwise what stands before a refused assignment stays applied.
pub open spec fn left_by_config<O>(
    step: spec_fn(O, KeyValue) -> Result<O, Seq<char>>,
    options: O,
    value: Seq<char>,
) -> O {
    match key_values("--config"@, value) {
        Ok(kvs) => applied_up_to_error(step, options, kvs),
        Err(_) => options,
    }
}

proof fn lemma_applied_up_to<O, I>(
    step: spec_fn(O, I) -> Result<O, Seq<char>>,
    options: O,
    items: Seq<I>,
    n: int,
    after: O,
)
    requires
        0 <= n < items.len(),
        applied(step, options, items.take(n)) == Ok::<O, Seq<char>>(after),
        applied(step, options, items.take(n + 1)) is Err,
    ensures
        applied_up_to_error(step, options, items) == after,
    decreases items.len(),
{
    let init = items.drop_last();
    if n + 1 == items.len() {
        assert(items.take(n + 1) == items);
        assert(items.take(n) == init);
        reveal_with_fuel(applied_up_to_error, 2);
        if n == 0 {
            assert(init == Seq::<I>::empty());
        }
    } else {
        let e = applied(step, options, items.take(n + 1))->Err_0;
        lemma_applied_error(step, options, items, n + 1, e);
        assert(init.take(n) == items.take(n));
        assert(init.take(n + 1) == items.take(n + 1));
        lemma_applied_up_to(step, options, init, n, after);
    }
}

/// What the arguments from position `i` on make of options; a step gives the options after one
/// argument and the values that it takes, and the position behind them.
pub open spec fn arguments_taken<O>(
    step: spec_fn(O, Seq<Seq<char>>, int) -> Result<(O, int), Seq<char>>,
    options: O,
    args: Seq<Seq<char>>,
    i: int,
) -> Result<O, Seq<char>>
    decreases args.len() - i,
{
    if i < 0 || i >= args.len() {
        Ok(options)
    } else {
        match step(options, args, i) {
            Err(e) => Err(e),
            Ok((next_options, next)) => if i < next <= args.len() {
                arguments_taken(step, next_options, args, next)
            } else {
                Ok(next_options)
            },
        }
    }
}

/// The outcome of a step that changes options in place.
pub open spec fn stepped<O: DeepView>(r: Result<(), String>, after: O) -> Result<O::V, Seq<char>> {
    match r {
        Ok(()) => Ok(after.deep_view()),
        Err(e) => Err(e@),
    }
}

/// The outcome of a step over arguments that changes options in place.
pub open spec fn stepped_to<O: DeepView>(r: Result<usize, String>, after: O) -> Result<
    (O::V, int),
    Seq<char>,
> {
    match r {
        Ok(next) => Ok((after.deep_view(), next as int)),
        Err(e) => Err(e@),
    }
}

/// The outcome of a step over arguments that hands the options on.
pub open spec fn handed_on<O: DeepView>(r: Result<(O, usize), String>) -> Result<
    (O::V, int),
    Seq<char>,
> {
    match r {
        Ok((options, next)) => Ok((options.deep_view(), next as int)),
        Err(e) => Err(e@),
    }
}

/// The value behind the option at `i`, handed to `f`; two positions are taken.
pub open spec fn with_value<O>(
    args: Seq<Seq<char>>,
    i: int,
    option: Seq<char>,
    f: spec_fn(Seq<char>) -> Result<O, Seq<char>>,
) -> Result<(O, int), Seq<char>> {
    match value_at(args, i + 1, option) {
        Err(e) => Err(e),
        Ok(value) => match f(value) {
            Err(e) => Err(e),
            Ok(o) => Ok((o, i + 2)),
        },
    }
}

/// A value where the outcome is one, put to use by `f`.
pub open spec fn mapped<T, O>(r: Result<T, Seq<char>>, f: spec_fn(T) -> O) -> Result<O, Seq<char>> {
    match r {
        Ok(v) => Ok(f(v)),
        Err(e) => Err(e),
    }
}

/// What stands behind the first of the names that the argument starts with, followed by `=`.
pub open spec fn value_behind(arg: Seq<char>, names: Seq<Seq<char>>) -> Option<Seq<char>>
    decreases names.len(),
{
    if names.len() == 0 {
        None
    } else if has_prefix(arg, names[0] + "="@) {
        Some(arg.skip(names[0].len() as int + 1))
    } else {
        value_behind(arg, names.skip(1))
    }
}

pub fn strip_value<'a>(arg: &'a str, names: &[&str]) -> (r: Option<&'a str>)
    ensures
        r.deep_view() == value_behind(arg@, names@.map_values(|n: &str| n@)),
{
    let ghost all = names@.map_values(|n: &str| n@);
    let mut i: usize = 0;
    assert(all.skip(0) == all);
    while i < names.len()
        invariant
            i <= names@.len(),
            all == names@.map_values(|n: &str| n@),
            value_behind(arg@, all) == value_behind(arg@, all.skip(i as int)),
        decreases names@.len() - i,
    {
        assert(all.skip(i as int)[0] == names@[i as int]@);
        let head = cat2(names[i], "=");
        if let Some(value) = strip_prefix(arg, head.as_str()) {
            proof {
                reveal_strlit("=");
            }
            return Some(value);
        }
        assert(all.skip(i as int).skip(1) == all.skip(i + 1));
        i += 1;
    }
    None
}

/// The argument at a position, where it does not start as an option does.
pub open spec fn optional_value(args: Seq<Seq<char>>, index: int) -> Option<Seq<char>> {
    if 0 <= index < args.len() && !begins(args[index], '-') {
        Some(args[index])
    } else {
        None
    }
}

pub fn next_optional_value<'a>(args: &'a Vec<String>, index: usize) -> (r: Option<&'a str>)
    ensures
        r.deep_view() == optional_value(texts(args@), index as int),
{
    if index < args.len() && !begins_with(args[index].as_str(), '-') {
        Some(args[index].as_str())
    } else {
        None
    }
}

/// Options that `--config` sets.
pub trait Configurable: DeepView + Sized {
    /// The options with one assignment of `--config` applied.
    spec fn setting(m: Self::V, kv: KeyValue) -> Result<Self::V, Seq<char>>;

    /// Applies one assignment; where it cannot be applied, nothing changes.
    fn apply_setting(&mut self, kv: &KeyValueArg) -> (r: Result<(), String>)
        ensures
            stepped(r, *final(self)) == Self::setting(old(self).deep_view(), kv.deep_view()),
            r is Err ==> final(self).deep_view() == old(self).deep_view(),
    ;
}

/// Options that arguments set.
pub trait CommandOptions: DeepView + Sized {
    /// The options after the argument at `i` and the values that it takes, and the position
    /// behind them.
    spec fn argument(m: Self::V, args: Seq<Seq<char>>, i: int) -> Result<
        (Self::V, int),
        Seq<char>,
    >;

    fn take_argument(self, args: &Vec<String>, i: usize) -> (r: Result<(Self, usize), String>)
        requires
            i < args.len(),
        ensures
            handed_on(r) == Self::argument(self.deep_view(), texts(args@), i as int),
            r matches Ok((_, next)) ==> i < next <= args.len(),
    ;
}

pub open spec fn setting_step<O: Configurable>() -> spec_fn(O::V, KeyValue) -> Result<
    O::V,
    Seq<char>,
> {
    |m: O::V, kv: KeyValue| O::setting(m, kv)
}

pub open spec fn argument_step<O: CommandOptions>() -> spec_fn(O::V, Seq<Seq<char>>, int) -> Result<
    (O::V, int),
    Seq<char>,
> {
    |m: O::V, args: Seq<Seq<char>>, i: int| O::argument(m, args, i)
}

/// Applies the assignments of a value of `--config`.
pub fn apply_settings<O: Configurable>(options: &mut O, value: &str) -> (r: Result<(), String>)
    ensures
        stepped(r, *final(options)) == configured(
            setting_step::<O>(),
            old(options).deep_view(),
            value@,
        ),
        final(options).deep_view() == left_by_config(
            setting_step::<O>(),
            old(options).deep_view(),
            value@,
        ),
{
    let assignments = parse_key_value_args("--config", value)?;
    let ghost kvs = assignments.deep_view();
    let ghost start = options.deep_view();
    let mut i: usize = 0;
    assert(kvs.take(0) == Seq::<KeyValue>::empty());
    while i < assignments.len()
        invariant
            i <= assignments.len(),
            kvs == assignments.deep_view(),
            start == old(options).deep_view(),
            key_values("--config"@, value@) == Ok::<Seq<KeyValue>, Seq<char>>(kvs),
            applied(setting_step::<O>(), start, kvs.take(i as int)) == Ok::<O::V, Seq<char>>(
                options.deep_view(),
            ),
        decreases assignments.len() - i,
    {
        proof {
            assert(kvs.take(i + 1).drop_last() == kvs.take(i as int));
            assert(kvs.take(i + 1).last() == assignments@[i as int].deep_view());
        }
        if let Err(e) = options.apply_setting(&assignments[i]) {
            proof {
                lemma_applied_error(setting_step::<O>(), start, kvs, i + 1, e@);
                lemma_applied_up_to(setting_step::<O>(), start, kvs, i as int, options.deep_view());
            }
            return Err(e);
        }
        i += 1;
    }
    assert(kvs.take(i as int) == kvs);
    Ok(())
}

/// Takes the arguments, one after the other.
pub fn take_arguments<O: CommandOptions>(options: O, args: &Vec<String>) -> (r: Result<O, String>)
    ensures
        viewed(r) == arguments_taken(argument_step::<O>(), options.deep_view(), texts(args@), 0),
{
    let mut current = options;
    let mut i: usize = 0;
    while i < args.len()
        invariant
            i <= args.len(),
            arguments_taken(argument_step::<O>(), options.deep_view(), texts(args@), 0)
                == arguments_taken(
                argument_step::<O>(),
                current.deep_view(),
                texts(args@),
                i as int,
            ),
        decreases args.len() - i,
    {
        let (next_options, next) = current.take_argument(args, i)?;
        current = next_options;
        i = next;
    }
    Ok(current)
}

// ---------------------------------------------------------------------------
// PORT[@BAUD][,DISPLAY]
// ---------------------------------------------------------------------------

#[derive(Debug, PartialEq, Eq)]
pub struct PortSpec {
    pub port: String,
    pub baud: Option<u32>,
    pub display_mode: Option<PortDisplayMode>,
    pub line_break_mode: Option<LineBreakMode>,
}

#[verifier::ext_equal]
pub struct PortSpecModel {
    pub port: Seq<char>,
    pub baud: Option<u32>,
    pub display_mode: Option<PortDisplayMode>,
    pub line_break_mode: Option<LineBreakMode>,
}

impl DeepView for PortSpec {
    type V = PortSpecModel;

    open spec fn deep_view(&self) -> PortSpecModel {
        PortSpecModel {
            port: self.port@,
            baud: self.baud,
            display_mode: self.display_mode,
            line_break_mode: self.line_break_mode,
        }
    }
}

impl PortSpecModel {
    /// The spec with its port trimmed, where that leaves something.
    pub open spec fn normalized(self) -> Option<PortSpecModel> {
        if trimmed(self.port).len() > 0 {
            Some(PortSpecModel { port: trimmed(self.port), ..self })
        } else {
            None
        }
    }
}

impl Default for PortSpec {
    fn default() -> (spec: PortSpec)
        ensures
            spec.port@ == Seq::<char>::empty(),
            spec.baud is None,
            spec.display_mode is None,
            spec.line_break_mode is None,
    {
        PortSpec { port: String::new(), baud: None, display_mode: None, line_break_mode: None }
    }
}

impl PortSpec {
    pub fn normalized(self) -> (r: Option<PortSpec>)
        ensures
            r.deep_view() == self.deep_view().normalized(),
    {
        let port = trim(self.port.as_str());
        if port.is_empty() {
            None
        } else {
            Some(
                PortSpec {
                    port: port.to_owned(),
                    baud: self.baud,
                    display_mode: self.display_mode,
                    line_break_mode: self.line_break_mode,
                },
            )
        }
    }

    /// A copy of the spec.
    pub fn duplicate(&self) -> (copy: PortSpec)
        ensures
            copy.deep_view() == self.deep_view(),
    {
        PortSpec {
            port: self.port.clone(),
            baud: self.baud,
            display_mode: self.display_mode,
            line_break_mode: self.line_break_mode,
        }
    }
}

/// What stands before a display value at the end, and the display value; everything and nothing
/// where there is none.
pub open spec fn split_display(value: Seq<char>) -> (Seq<char>, DisplayValue) {
    match cut_at_last(value, ',') {
        Some((head, mode)) => match display_value(mode) {
            Ok(v) => if v.0 is Some || v.1 is Some {
                (head, v)
            } else {
                (value, (None, None))
            },
            Err(_) => (value, (None, None)),
        },
        None => (value, (None, None)),
    }
}

pub fn split_display_value(value: &str) -> (r: (&str, DisplayValue))
    ensures
        r.0@ == split_display(value@).0,
        r.1 == split_display(value@).1,
{
    if let Some((head, mode)) = rsplit_once(value, ',') {
        if let Ok(v) = parse_display_value(mode) {
            if v.0.is_some() || v.1.is_some() {
                return (head, v);
            }
        }
    }
    (value, (None, None))
}

pub open spec fn invalid_port_spec(option: Seq<char>, value: Seq<char>) -> Seq<char> {
    "invalid value for "@ + option + ": "@ + value + " (expected PORT[@BAUD][,DISPLAY])"@
}

/// The spec that a text names.
pub open spec fn port_spec(option: Seq<char>, text: Seq<char>) -> Result<PortSpecModel, Seq<char>> {
    let value = trimmed(text);
    let (port_and_baud, (display_mode, line_break_mode)) = split_display(value);
    if value.len() == 0 {
        Err(option + " must not be empty"@)
    } else {
        let (port, baud) = match cut_at_last(port_and_baud, '@') {
            Some((port, digits)) => (
                port,
                Some(number_up_to(trimmed(digits), u32::MAX as nat)),
            ),
            None => (port_and_baud, None),
        };
        if baud == Some(None::<nat>) || trimmed(port).len() == 0 {
            Err(invalid_port_spec(option, value))
        } else {
            Ok(
                PortSpecModel {
                    port: trimmed(port),
                    baud: match baud {
                        Some(Some(n)) => Some(n as u32),
                        _ => None,
                    },
                    display_mode,
                    line_break_mode,
                },
            )
        }
    }
}

pub fn parse_port_spec(option: &str, text: &str) -> (r: Result<PortSpec, String>)
    ensures
        viewed(r) == port_spec(option@, text@),
{
    let value = trim(text);
    if value.is_empty() {
        return Err(cat2(option, " must not be empty"));
    }
    let (port_and_baud, (display_mode, line_break_mode)) = split_display_value(value);
    let (port, baud): (&str, Option<u32>) = match rsplit_once(port_and_baud, '@') {
        Some((port, digits)) => match parse_u32(trim(digits)) {
            Some(baud) => (port, Some(baud)),
            None => {
                return Err(
                    cat5(
                        "invalid value for ",
                        option,
                        ": ",
                        value,
                        " (expected PORT[@BAUD][,DISPLAY])",
                    ),
                );
            },
        },
        None => (port_and_baud, None),
    };
    let port = trim(port);
    if port.is_empty() {
        return Err(
            cat5(
                "invalid value for ",
                option,
                ": ",
                value,
                " (expected PORT[@BAUD][,DISPLAY])",
            ),
        );
    }
    Ok(PortSpec { port: port.to_owned(), baud, display_mode, line_break_mode })
}

} // verus!

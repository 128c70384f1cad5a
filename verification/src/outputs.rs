//! Sending to outputs: when each is due, what came of it, and whether a line carries the load.
//!
//! Times are whole nanoseconds.
use crate::format::{format_label, format_packet_len, OutputFormat};
use crate::table::{before, comes_before, lemma_before_irreflexive, lemma_before_transitive};
use crate::text::{cat5, decimal, decimal_text, join, joined, same, texts, viewed};
use vstd::prelude::*;
use vstd::string::*;

verus! {

/// A byte takes ten bits on a serial line: eight bits, a start bit and a stop bit.
pub const SERIAL_FRAME_BITS_PER_BYTE: u64 = 10;

// ---------------------------------------------------------------------------
// Schedules
// ---------------------------------------------------------------------------

/// When an output is due next, and how long it is from one time to the next.
#[derive(Debug, Clone, Copy, PartialEq, Eq, Structural)]
pub struct OutputSchedule {
    pub next_send_at: u64,
    pub period: u64,
}

/// How many whole periods a schedule is behind; a `u32` counts them.
pub open spec fn periods_behind(next: int, period: int, now: int) -> int {
    if now <= next || period <= 0 {
        0
    } else if (now - next) / period <= u32::MAX {
        (now - next) / period
    } else {
        u32::MAX as int
    }
}

/// The time of a schedule without the whole periods that it is behind.
pub open spec fn realigned(next: int, period: int, now: int) -> int {
    next + period * periods_behind(next, period, now)
}

proof fn lemma_realigned(next: int, period: int, now: int)
    requires
        next < now,
        period > 0,
    ensures
        0 <= periods_behind(next, period, now),
        next <= realigned(next, period, now) <= now,
        (now - next) / period <= u32::MAX ==> now - realigned(next, period, now) < period,
{
    let overdue = now - next;
    let k = periods_behind(next, period, now);
    let q = overdue / period;
    assert(q * period <= overdue < q * period + period && q >= 0) by (nonlinear_arith)
        requires
            q == overdue / period,
            period > 0,
            overdue >= 0,
    ;
    assert(0 <= period * k && period * k <= q * period) by (nonlinear_arith)
        requires
            0 <= k <= q,
            period > 0,
    ;
    assert(period * q == q * period) by (nonlinear_arith);
}

/// Realigning moves a schedule forward by whole periods, never past the present; unless it is
/// more periods behind than a `u32` counts, less than one period stays.
pub proof fn law_realign(next: int, period: int, now: int)
    requires
        period > 0,
    ensures
        realigned(next, period, now) == next + period * periods_behind(next, period, now),
        periods_behind(next, period, now) >= 0,
        next >= now ==> realigned(next, period, now) == next,
        next < now ==> realigned(next, period, now) <= now,
        next < now && (now - next) / period <= u32::MAX ==> now - realigned(next, period, now)
            < period,
        realigned(realigned(next, period, now), period, now) == realigned(next, period, now)
            || (now - next) / period > u32::MAX,
{
    if next < now {
        lemma_realigned(next, period, now);
        let r = realigned(next, period, now);
        if (now - next) / period <= u32::MAX && r < now {
            assert((now - r) / period == 0) by (nonlinear_arith)
                requires
                    0 <= now - r < period,
            ;
            assert(period * 0 == 0) by (nonlinear_arith);
        }
        assert(period * 0 == 0) by (nonlinear_arith);
    } else {
        assert(period * 0 == 0) by (nonlinear_arith);
    }
}

/// A time without the whole periods that it is behind.
pub fn realign_send_time(next_send_at: u64, period: u64, now: u64) -> (r: u64)
    ensures
        r == realigned(next_send_at as int, period as int, now as int),
{
    if now <= next_send_at || period == 0 {
        assert(period * 0 == 0) by (nonlinear_arith);
        return next_send_at;
    }
    let overdue: u64 = now - next_send_at;
    let whole: u64 = overdue / period;
    let skipped: u64 = if whole <= u32::MAX as u64 {
        whole
    } else {
        u32::MAX as u64
    };
    proof {
        lemma_realigned(next_send_at as int, period as int, now as int);
        assert(skipped == periods_behind(next_send_at as int, period as int, now as int));
        assert(0 <= period * skipped) by (nonlinear_arith);
    }
    next_send_at + period * skipped
}

pub fn realign_output_schedule(schedule: &mut OutputSchedule, now: u64)
    ensures
        final(schedule).period == old(schedule).period,
        final(schedule).next_send_at == realigned(
            old(schedule).next_send_at as int,
            old(schedule).period as int,
            now as int,
        ),
{
    schedule.next_send_at = realign_send_time(schedule.next_send_at, schedule.period, now);
}

// ---------------------------------------------------------------------------
// Runs
// ---------------------------------------------------------------------------

/// An output while it is sent to.
#[derive(Debug)]
pub struct OutputRun {
    pub id: String,
    pub schedule: OutputSchedule,
    pub sent_count: u64,
    pub has_error: bool,
    pub last_error: Option<String>,
}

#[verifier::ext_equal]
pub struct RunModel {
    pub id: Seq<char>,
    pub schedule: OutputSchedule,
    pub sent_count: u64,
    pub has_error: bool,
    pub last_error: Option<Seq<char>>,
}

impl DeepView for OutputRun {
    type V = RunModel;

    open spec fn deep_view(&self) -> RunModel {
        RunModel {
            id: self.id@,
            schedule: self.schedule,
            sent_count: self.sent_count,
            has_error: self.has_error,
            last_error: self.last_error.deep_view(),
        }
    }
}

impl RunModel {
    /// An error is kept exactly as long as the output has one.
    pub open spec fn wf(self) -> bool {
        self.has_error == (self.last_error is Some)
    }

    /// The output one period later.
    pub open spec fn advanced(self) -> RunModel {
        RunModel {
            schedule: OutputSchedule {
                next_send_at: if self.schedule.next_send_at + self.schedule.period <= u64::MAX {
                    (self.schedule.next_send_at + self.schedule.period) as u64
                } else {
                    u64::MAX
                },
                period: self.schedule.period,
            },
            ..self
        }
    }

    /// The output after a write.
    pub open spec fn written(self, outcome: Result<(), Seq<char>>) -> RunModel {
        match outcome {
            Ok(()) => RunModel {
                sent_count: if self.sent_count < u64::MAX {
                    (self.sent_count + 1) as u64
                } else {
                    self.sent_count
                },
                has_error: false,
                last_error: None,
                ..self
            },
            Err(e) => RunModel { has_error: true, last_error: Some(e), ..self },
        }
    }
}

impl OutputRun {
    /// An output that is due at once.
    pub fn new(id: String, started_at: u64, period: u64) -> (run: OutputRun)
        ensures
            run.deep_view() == (RunModel {
                id: id@,
                schedule: OutputSchedule { next_send_at: started_at, period },
                sent_count: 0,
                has_error: false,
                last_error: None,
            }),
            run.deep_view().wf(),
    {
        OutputRun {
            id,
            schedule: OutputSchedule { next_send_at: started_at, period },
            sent_count: 0,
            has_error: false,
            last_error: None,
        }
    }

    /// Whether a packet is to be sent; if so, the schedule forgets the periods it is behind.
    pub fn due(&mut self, now: u64) -> (r: bool)
        ensures
            r == (now >= old(self).schedule.next_send_at),
            !r ==> final(self).deep_view() == old(self).deep_view(),
            r ==> final(self).deep_view() == (RunModel {
                schedule: OutputSchedule {
                    next_send_at: realigned(
                        old(self).schedule.next_send_at as int,
                        old(self).schedule.period as int,
                        now as int,
                    ) as u64,
                    period: old(self).schedule.period,
                },
                ..old(self).deep_view()
            }),
            r ==> final(self).schedule.next_send_at == realigned(
                old(self).schedule.next_send_at as int,
                old(self).schedule.period as int,
                now as int,
            ),
    {
        if now < self.schedule.next_send_at {
            return false;
        }
        realign_output_schedule(&mut self.schedule, now);
        true
    }

    /// Takes the outcome of a write down. Tells whether a shown error is to be cleared.
    pub fn record(&mut self, outcome: Result<(), String>) -> (clear: bool)
        ensures
            final(self).deep_view() == old(self).deep_view().written(viewed(outcome)),
            final(self).deep_view().wf(),
            clear == (outcome is Ok && old(self).has_error),
    {
        match outcome {
            Ok(()) => {
                let clear = self.has_error;
                self.has_error = false;
                self.last_error = None;
                if self.sent_count < u64::MAX {
                    self.sent_count = self.sent_count + 1;
                }
                clear
            },
            Err(e) => {
                self.has_error = true;
                self.last_error = Some(e);
                false
            },
        }
    }

    /// Moves the schedule on by one period.
    pub fn advance(&mut self)
        ensures
            final(self).deep_view() == old(self).deep_view().advanced(),
            final(self).deep_view() == (RunModel {
                schedule: OutputSchedule {
                    next_send_at: if old(self).schedule.next_send_at
                        + old(self).schedule.period <= u64::MAX {
                        (old(self).schedule.next_send_at + old(self).schedule.period) as u64
                    } else {
                        u64::MAX
                    },
                    period: old(self).schedule.period,
                },
                ..old(self).deep_view()
            }),
    {
        let next: u64 = self.schedule.next_send_at;
        let period: u64 = self.schedule.period;
        self.schedule.next_send_at = if next <= u64::MAX - period {
            next + period
        } else {
            u64::MAX
        };
    }
}

/// The place of the output with the lowest id among those that have an error.
pub open spec fn first_failed(runs: Seq<RunModel>) -> Option<int>
    decreases runs.len(),
{
    if runs.len() == 0 {
        None
    } else {
        let last = runs.len() - 1;
        match (first_failed(runs.drop_last()), runs[last].last_error) {
            (best, None) => best,
            (None, Some(_)) => Some(last),
            (Some(best), Some(_)) => if before(runs[last].id, runs[best].id) {
                Some(last)
            } else {
                Some(best)
            },
        }
    }
}

/// Why a run failed as a whole: nothing was sent, and an output has an error.
pub open spec fn run_failure(runs: Seq<RunModel>) -> Option<Seq<char>> {
    if forall|i: int| 0 <= i < runs.len() ==> (#[trigger] runs[i]).sent_count == 0 {
        match first_failed(runs) {
            Some(i) => runs[i].last_error,
            None => None,
        }
    } else {
        None
    }
}

proof fn lemma_first_failed(runs: Seq<RunModel>)
    ensures
        first_failed(runs) matches Some(i) ==> 0 <= i < runs.len() && runs[i].last_error is Some,
        first_failed(runs) matches Some(i) ==> forall|j: int|
            0 <= j < runs.len() && (#[trigger] runs[j]).last_error is Some ==> !before(
                runs[j].id,
                runs[i].id,
            ),
        first_failed(runs) is None ==> forall|i: int|
            0 <= i < runs.len() ==> (#[trigger] runs[i]).last_error is None,
    decreases runs.len(),
{
    if runs.len() > 0 {
        let init = runs.drop_last();
        let last = runs.len() - 1;
        lemma_first_failed(init);
        assert forall|i: int|
            0 <= i < runs.len() && first_failed(runs) is None implies (
        #[trigger] runs[i]).last_error is None by {
            if i < last {
                assert(init[i] == runs[i]);
            }
        }
        if let Some(i) = first_failed(runs) {
            assert forall|j: int|
                0 <= j < runs.len() && (#[trigger] runs[j]).last_error is Some implies !before(
                runs[j].id,
                runs[i].id,
            ) by {
                lemma_before_irreflexive(runs[i].id);
                if j < last {
                    assert(init[j] == runs[j]);
                    if i == last && before(runs[j].id, runs[i].id) {
                        let best = first_failed(init)->0;
                        lemma_before_transitive(runs[j].id, runs[i].id, runs[best].id);
                    }
                }
            }
        }
    }
}

/// A run fails exactly when nothing was sent and an output has an error, and then with the error
/// of an output that no other failing one comes before by its id.
pub proof fn law_run_failure(runs: Seq<RunModel>)
    ensures
        run_failure(runs) is Some <==> (forall|i: int|
            0 <= i < runs.len() ==> (#[trigger] runs[i]).sent_count == 0) && (exists|i: int|
            0 <= i < runs.len() && (#[trigger] runs[i]).last_error is Some),
        run_failure(runs) is Some ==> exists|i: int|
            0 <= i < runs.len() && (#[trigger] runs[i]).last_error == run_failure(runs)
                && forall|j: int|
                0 <= j < runs.len() && (#[trigger] runs[j]).last_error is Some ==> !before(
                    runs[j].id,
                    runs[i].id,
                ),
{
    lemma_first_failed(runs);
    if let Some(i) = first_failed(runs) {
        assert(runs[i].last_error is Some);
    }
}

pub fn failed_run(runs: &Vec<OutputRun>) -> (r: Option<String>)
    ensures
        r.deep_view() == run_failure(runs.deep_view()),
{
    let ghost all = runs.deep_view();
    let mut best: Option<usize> = None;
    let mut i: usize = 0;
    assert(all.take(0) =~= Seq::<RunModel>::empty());
    while i < runs.len()
        invariant
            i <= runs.len(),
            all == runs.deep_view(),
            forall|k: int| 0 <= k < i ==> (#[trigger] all[k]).sent_count == 0,
            first_failed(all.take(i as int)) == (match best {
                Some(b) => Some(b as int),
                None => None,
            }),
            best matches Some(b) ==> b < i,
        decreases runs.len() - i,
    {
        proof {
            assert(all[i as int] == runs@[i as int].deep_view());
            assert(all.take(i + 1).drop_last() == all.take(i as int));
        }
        if runs[i].sent_count != 0 {
            return None;
        }
        if runs[i].last_error.is_some() {
            best = match best {
                None => Some(i),
                Some(b) => {
                    assert(all.take(i + 1)[b as int] == runs@[b as int].deep_view());
                    if comes_before(runs[i].id.as_str(), runs[b].id.as_str()) {
                        Some(i)
                    } else {
                        Some(b)
                    }
                },
            };
        }
        i += 1;
    }
    assert(all.take(i as int) == all);
    match best {
        Some(b) => {
            assert(all[b as int] == runs@[b as int].deep_view());
            match &runs[b].last_error {
                Some(e) => Some(e.clone()),
                None => None,
            }
        },
        None => None,
    }
}

// ---------------------------------------------------------------------------
// Loads
// ---------------------------------------------------------------------------

/// What an output puts on a line: packets of a format at a rate.
#[derive(Debug)]
pub struct OutputLoad {
    pub port: String,
    pub baud_rate: u32,
    pub format: OutputFormat,
    pub rate_label: String,
    pub line_bps: u64,
}

#[verifier::ext_equal]
pub struct LoadModel {
    pub port: Seq<char>,
    pub baud_rate: u32,
    pub format: OutputFormat,
    pub rate_label: Seq<char>,
    pub line_bps: u64,
}

impl DeepView for OutputLoad {
    type V = LoadModel;

    open spec fn deep_view(&self) -> LoadModel {
        LoadModel {
            port: self.port@,
            baud_rate: self.baud_rate,
            format: self.format,
            rate_label: self.rate_label@,
            line_bps: self.line_bps,
        }
    }
}

/// Two outputs share a line.
pub open spec fn same_line(a: LoadModel, b: LoadModel) -> bool {
    a.port == b.port && a.baud_rate == b.baud_rate
}

/// The line of one output comes before that of another: by port, then by baud rate.
pub open spec fn line_before(a: LoadModel, b: LoadModel) -> bool {
    before(a.port, b.port) || (a.port == b.port && a.baud_rate < b.baud_rate)
}

/// The outputs on the line of one of them.
pub open spec fn on_line(loads: Seq<LoadModel>, line: LoadModel) -> Seq<LoadModel> {
    loads.filter(|l: LoadModel| same_line(l, line))
}

/// The bits per second of outputs together, as far as a `u64` counts.
pub open spec fn total_bps(loads: Seq<LoadModel>) -> int
    decreases loads.len(),
{
    if loads.len() == 0 {
        0
    } else {
        let sum = total_bps(loads.drop_last()) + loads.last().line_bps;
        if sum <= u64::MAX {
            sum
        } else {
            u64::MAX as int
        }
    }
}

/// A line is asked for more bits per second than its baud rate.
pub open spec fn overloaded(loads: Seq<LoadModel>, line: LoadModel) -> bool {
    total_bps(on_line(loads, line)) > line.baud_rate
}

/// Among the first `n` outputs, one on the first overloaded line.
pub open spec fn first_overload(loads: Seq<LoadModel>, n: nat) -> Option<int>
    decreases n,
{
    if n == 0 {
        None
    } else {
        let best = first_overload(loads, (n - 1) as nat);
        if overloaded(loads, loads[n - 1]) && (best is None || line_before(
            loads[n - 1],
            loads[best->0],
        )) {
            Some(n - 1)
        } else {
            best
        }
    }
}

/// What an output asks of a line.
pub open spec fn load_detail(l: LoadModel) -> Seq<char> {
    format_label(l.format) + " "@ + l.rate_label + "="@ + decimal(l.line_bps as nat) + "bps"@
}

/// What is wrong with an overloaded line.
#[verifier::opaque]
pub open spec fn overload_text(kind: Seq<char>, loads: Seq<LoadModel>, line: LoadModel) -> Seq<
    char,
> {
    let shared = on_line(loads, line);
    let baud = decimal(line.baud_rate as nat);
    kind + " output load on `"@ + line.port + "` @ "@ + baud
        + " baud exceeds serial capacity: estimated "@ + decimal(total_bps(shared) as nat)
        + " bps assuming 10 bits/byte ("@ + joined(
        shared.map_values(|l: LoadModel| load_detail(l)),
        ", "@,
    ) + ") > "@ + baud + " baud. Reduce rates or increase baud."@
}

/// The loads of outputs are in order where no line is overloaded; else the first overloaded line
/// is told.
pub open spec fn loads_checked(kind: Seq<char>, loads: Seq<LoadModel>) -> Result<(), Seq<char>> {
    match first_overload(loads, loads.len()) {
        None => Ok(()),
        Some(i) => Err(overload_text(kind, loads, loads[i])),
    }
}

proof fn lemma_first_overload(loads: Seq<LoadModel>, n: nat)
    requires
        n <= loads.len(),
    ensures
        first_overload(loads, n) matches Some(i) ==> 0 <= i < n && overloaded(loads, loads[i])
            && forall|j: int|
            0 <= j < n && overloaded(loads, #[trigger] loads[j]) ==> !line_before(
                loads[j],
                loads[i],
            ),
        first_overload(loads, n) is None ==> forall|j: int|
            0 <= j < n ==> !overloaded(loads, #[trigger] loads[j]),
    decreases n,
{
    if n > 0 {
        lemma_first_overload(loads, (n - 1) as nat);
        let best = first_overload(loads, (n - 1) as nat);
        let l = loads[n - 1];
        if overloaded(loads, l) && best is Some && line_before(l, loads[best->0]) {
            let b = loads[best->0];
            assert forall|j: int|
                0 <= j < n && overloaded(loads, #[trigger] loads[j]) implies !line_before(
                loads[j],
                l,
            ) by {
                if line_before(loads[j], l) {
                    lemma_line_order(loads[j], l, b);
                }
            }
        } else if overloaded(loads, l) && best is None {
            lemma_line_order(l, l, l);
        }
    }
}

proof fn lemma_line_order(a: LoadModel, b: LoadModel, c: LoadModel)
    ensures
        !line_before(a, a),
        line_before(a, b) && line_before(b, c) ==> line_before(a, c),
{
    lemma_before_irreflexive(a.port);
    if before(a.port, b.port) && before(b.port, c.port) {
        lemma_before_transitive(a.port, b.port, c.port);
    }
}

/// Loads pass exactly when each line carries what its outputs ask of it together, and the line
/// that is told otherwise is the first of those that do not.
pub proof fn law_loads(kind: Seq<char>, loads: Seq<LoadModel>)
    ensures
        loads_checked(kind, loads) is Ok <==> forall|i: int|
            0 <= i < loads.len() ==> total_bps(on_line(loads, #[trigger] loads[i]))
                <= loads[i].baud_rate,
        loads_checked(kind, loads) is Err ==> exists|i: int|
            0 <= i < loads.len() && overloaded(loads, #[trigger] loads[i]) && loads_checked(
                kind,
                loads,
            ) == Err::<(), Seq<char>>(overload_text(kind, loads, loads[i])) && forall|j: int|
                0 <= j < loads.len() && overloaded(loads, #[trigger] loads[j]) ==> !line_before(
                    loads[j],
                    loads[i],
                ),
{
    lemma_first_overload(loads, loads.len());
}

fn on_same_line(a: &OutputLoad, b: &OutputLoad) -> (r: bool)
    ensures
        r == same_line(a.deep_view(), b.deep_view()),
{
    same(a.port.as_str(), b.port.as_str()) && a.baud_rate == b.baud_rate
}

fn line_comes_before(a: &OutputLoad, b: &OutputLoad) -> (r: bool)
    ensures
        r == line_before(a.deep_view(), b.deep_view()),
{
    comes_before(a.port.as_str(), b.port.as_str()) || (same(a.port.as_str(), b.port.as_str())
        && a.baud_rate < b.baud_rate)
}

fn load_detail_text(load: &OutputLoad) -> (r: String)
    ensures
        r@ == load_detail(load.deep_view()),
{
    let bps = decimal_text(load.line_bps);
    let mut r = cat5(
        load.format.display_name(),
        " ",
        load.rate_label.as_str(),
        "=",
        bps.as_str(),
    );
    r.append("bps");
    r
}

/// The bits per second on a line, and what each output asks of it.
fn line_details(loads: &Vec<OutputLoad>, line: usize) -> (r: (u64, Vec<String>))
    requires
        line < loads.len(),
    ensures
        r.0 == total_bps(on_line(loads.deep_view(), loads@[line as int].deep_view())),
        texts(r.1@) == on_line(
            loads.deep_view(),
            loads@[line as int].deep_view(),
        ).map_values(|l: LoadModel| load_detail(l)),
{
    let ghost all = loads.deep_view();
    let ghost key = loads@[line as int].deep_view();
    let ghost keep = |l: LoadModel| same_line(l, key);
    let mut total: u64 = 0;
    let mut details: Vec<String> = Vec::new();
    let mut i: usize = 0;
    proof {
        reveal(Seq::filter);
        assert(all.take(0) =~= Seq::<LoadModel>::empty());
        assert(all.take(0).filter(keep) =~= Seq::<LoadModel>::empty());
        assert(texts(details@) =~= all.take(0).filter(keep).map_values(
            |l: LoadModel| load_detail(l),
        ));
    }
    while i < loads.len()
        invariant
            line < loads.len(),
            i <= loads.len(),
            all == loads.deep_view(),
            key == loads@[line as int].deep_view(),
            keep == (|l: LoadModel| same_line(l, key)),
            total == total_bps(all.take(i as int).filter(keep)),
            texts(details@) == all.take(i as int).filter(keep).map_values(
                |l: LoadModel| load_detail(l),
            ),
        decreases loads.len() - i,
    {
        let ghost so_far = all.take(i as int).filter(keep);
        let ghost l = loads@[i as int].deep_view();
        proof {
            reveal(Seq::filter);
            assert(all.take(i + 1).drop_last() == all.take(i as int));
            assert(all.take(i + 1).last() == l);
        }
        if on_same_line(&loads[i], &loads[line]) {
            let bps: u64 = loads[i].line_bps;
            total = if total <= u64::MAX - bps {
                total + bps
            } else {
                u64::MAX
            };
            let ghost shown = texts(details@);
            details.push(load_detail_text(&loads[i]));
            proof {
                assert(all.take(i + 1).filter(keep) == so_far.push(l));
                assert(so_far.push(l).drop_last() =~= so_far);
                assert(texts(details@) =~= shown.push(load_detail(l)));
                assert(so_far.push(l).map_values(|l: LoadModel| load_detail(l)) =~= shown.push(
                    load_detail(l),
                ));
            }
        }
        i += 1;
    }
    assert(all.take(i as int) == all);
    (total, details)
}

fn is_overloaded(loads: &Vec<OutputLoad>, line: usize) -> (r: bool)
    requires
        line < loads.len(),
    ensures
        r == overloaded(loads.deep_view(), loads@[line as int].deep_view()),
{
    let (total, _) = line_details(loads, line);
    total > loads[line].baud_rate as u64
}

fn overload_message(kind: &str, loads: &Vec<OutputLoad>, line: usize) -> (r: String)
    requires
        line < loads.len(),
    ensures
        r@ == overload_text(kind@, loads.deep_view(), loads@[line as int].deep_view()),
{
    reveal(overload_text);
    let (total, details) = line_details(loads, line);
    let baud = decimal_text(loads[line].baud_rate as u64);
    let total_text = decimal_text(total);
    let detail = join(&details, ", ");
    let mut r = cat5(
        kind,
        " output load on `",
        loads[line].port.as_str(),
        "` @ ",
        baud.as_str(),
    );
    r.append(" baud exceeds serial capacity: estimated ");
    r.append(total_text.as_str());
    r.append(" bps assuming 10 bits/byte (");
    r.append(detail.as_str());
    r.append(") > ");
    r.append(baud.as_str());
    r.append(" baud. Reduce rates or increase baud.");
    r
}

/// Checks that each line carries the load of its outputs.
pub fn check_port_loads(kind: &str, loads: &Vec<OutputLoad>) -> (r: Result<(), String>)
    ensures
        viewed(r) == loads_checked(kind@, loads.deep_view()),
{
    let ghost all = loads.deep_view();
    let mut best: Option<usize> = None;
    let mut i: usize = 0;
    while i < loads.len()
        invariant
            i <= loads.len(),
            all == loads.deep_view(),
            first_overload(all, i as nat) == (match best {
                Some(b) => Some(b as int),
                None => None,
            }),
            best matches Some(b) ==> b < i,
        decreases loads.len() - i,
    {
        assert(all[i as int] == loads@[i as int].deep_view());
        if is_overloaded(loads, i) {
            best = match best {
                None => Some(i),
                Some(b) => {
                    assert(all[b as int] == loads@[b as int].deep_view());
                    if line_comes_before(&loads[i], &loads[b]) {
                        Some(i)
                    } else {
                        Some(b)
                    }
                },
            };
        }
        i += 1;
    }
    match best {
        None => Ok(()),
        Some(b) => {
            assert(all[b as int] == loads@[b as int].deep_view());
            Err(overload_message(kind, loads, b))
        },
    }
}

/// The bits per second that packets of a format take at a rate of whole packets per second.
pub fn estimated_output_line_bps(format: OutputFormat, rate_hz: u32) -> (bps: u64)
    ensures
        bps == format_packet_len(format) * 10 * rate_hz,
{
    let len: u64 = format.packet_len() as u64;
    assert(len <= 40);
    assert(len * 10 * rate_hz <= 400 * 0xffff_ffff) by (nonlinear_arith)
        requires
            len <= 40,
            rate_hz <= 0xffff_ffff,
    ;
    assert(len * 10 <= 400);
    len * SERIAL_FRAME_BITS_PER_BYTE * rate_hz as u64
}

} // verus!

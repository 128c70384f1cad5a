//! A session that sends: which outputs are due, what becomes of writes to them, and how the
//! session ends. Times are in nanoseconds.
use crate::outputs::{
    failed_run, law_realign, realigned, run_failure, OutputRun, OutputSchedule, RunModel,
};
use crate::text::viewed;
use vstd::prelude::*;

verus! {

/// The outputs of a session, and how many messages were typed.
#[derive(Debug)]
pub struct SendRun {
    runs: Vec<OutputRun>,
    message_count: u64,
}

#[verifier::ext_equal]
pub struct SendRunModel {
    pub runs: Seq<RunModel>,
    pub message_count: u64,
}

impl SendRunModel {
    /// The run after one more message was typed.
    pub open spec fn with_message(self) -> SendRunModel {
        SendRunModel {
            message_count: if self.message_count < u64::MAX {
                (self.message_count + 1) as u64
            } else {
                u64::MAX
            },
            ..self
        }
    }

    /// How a session ends in which messages are typed.
    pub open spec fn talked(self, place: int) -> Result<(), Seq<char>> {
        match self.runs[place].last_error {
            Some(e) => if self.message_count == 0 {
                Err(e)
            } else {
                Ok(())
            },
            None => Ok(()),
        }
    }
}

impl DeepView for SendRun {
    type V = SendRunModel;

    closed spec fn deep_view(&self) -> SendRunModel {
        SendRunModel { runs: self.runs.deep_view(), message_count: self.message_count }
    }
}

/// An output that is due at once.
pub open spec fn fresh_run(id: Seq<char>, started_at: u64, period: u64) -> RunModel {
    RunModel {
        id,
        schedule: OutputSchedule { next_send_at: started_at, period },
        sent_count: 0,
        has_error: false,
        last_error: None,
    }
}

/// A time and a span, at most the last time there is.
pub open spec fn later_by(at: int, span: int) -> u64 {
    if at + span <= u64::MAX {
        (at + span) as u64
    } else {
        u64::MAX
    }
}

pub open spec fn is_due(run: RunModel, now: u64) -> bool {
    now >= run.schedule.next_send_at
}

/// An output after a tick: where it was due it forgets the periods that it is behind, and is due
/// again one period later.
pub open spec fn passed(run: RunModel, now: u64) -> RunModel {
    if is_due(run, now) {
        RunModel {
            schedule: OutputSchedule {
                next_send_at: later_by(
                    realigned(
                        run.schedule.next_send_at as int,
                        run.schedule.period as int,
                        now as int,
                    ),
                    run.schedule.period as int,
                ),
                period: run.schedule.period,
            },
            ..run
        }
    } else {
        run
    }
}

/// The places of the outputs that are due, in their order.
pub open spec fn due_places(runs: Seq<RunModel>, now: u64) -> Seq<usize>
    decreases runs.len(),
{
    if runs.len() == 0 {
        Seq::empty()
    } else {
        let rest = due_places(runs.drop_last(), now);
        if is_due(runs.last(), now) {
            rest.push((runs.len() - 1) as usize)
        } else {
            rest
        }
    }
}

/// What a write changes on the display of an output.
#[derive(Debug, PartialEq, Eq)]
pub enum OutputChange {
    Nothing,
    ClearError,
    ShowError(String),
}

#[verifier::ext_equal]
pub enum ChangeModel {
    Nothing,
    ClearError,
    ShowError(Seq<char>),
}

impl DeepView for OutputChange {
    type V = ChangeModel;

    open spec fn deep_view(&self) -> ChangeModel {
        match self {
            OutputChange::Nothing => ChangeModel::Nothing,
            OutputChange::ClearError => ChangeModel::ClearError,
            OutputChange::ShowError(e) => ChangeModel::ShowError(e@),
        }
    }
}

/// An error is shown when it comes up, and cleared by the next write that succeeds.
pub open spec fn change_of(run: RunModel, outcome: Result<(), Seq<char>>) -> ChangeModel {
    match outcome {
        Ok(()) => if run.has_error {
            ChangeModel::ClearError
        } else {
            ChangeModel::Nothing
        },
        Err(e) => ChangeModel::ShowError(e),
    }
}

impl SendRun {
    pub fn new(ids: &Vec<String>, periods: &Vec<u64>, started_at: u64) -> (run: SendRun)
        requires
            ids.len() == periods.len(),
        ensures
            run.deep_view().message_count == 0,
            run.deep_view().runs == Seq::new(
                ids.len() as nat,
                |i: int| fresh_run(ids@[i]@, started_at, periods@[i]),
            ),
    {
        let mut runs: Vec<OutputRun> = Vec::new();
        let mut i: usize = 0;
        while i < ids.len()
            invariant
                i <= ids.len(),
                ids.len() == periods.len(),
                runs.len() == i,
                forall|k: int|
                    0 <= k < i ==> (#[trigger] runs@[k]).deep_view() == fresh_run(
                        ids@[k]@,
                        started_at,
                        periods@[k],
                    ),
            decreases ids.len() - i,
        {
            runs.push(OutputRun::new(ids[i].clone(), started_at, periods[i]));
            i += 1;
        }
        let run = SendRun { runs, message_count: 0 };
        assert(run.deep_view().runs =~= Seq::new(
            ids.len() as nat,
            |i: int| fresh_run(ids@[i]@, started_at, periods@[i]),
        ));
        run
    }

    /// The outputs that a packet goes to now.
    pub fn due(&mut self, now: u64) -> (places: Vec<usize>)
        ensures
            places@ == due_places(old(self).deep_view().runs, now),
            final(self).deep_view().message_count == old(self).deep_view().message_count,
            final(self).deep_view().runs == old(self).deep_view().runs.map_values(
                |run: RunModel| passed(run, now),
            ),
    {
        let ghost all = self.runs.deep_view();
        let mut places: Vec<usize> = Vec::new();
        let mut i: usize = 0;
        assert(all.take(0) =~= Seq::<RunModel>::empty());
        while i < self.runs.len()
            invariant
                i <= self.runs.len(),
                self.runs.len() == all.len(),
                self.message_count == old(self).message_count,
                all == old(self).runs.deep_view(),
                places@ == due_places(all.take(i as int), now),
                forall|k: int|
                    0 <= k < i ==> (#[trigger] self.runs@[k]).deep_view() == passed(all[k], now),
                forall|k: int|
                    i <= k < all.len() ==> (#[trigger] self.runs@[k]).deep_view() == all[k],
            decreases self.runs.len() - i,
        {
            proof {
                assert(all.take(i + 1).drop_last() == all.take(i as int));
                assert(all.take(i + 1).last() == self.runs@[i as int].deep_view());
            }
            let ghost run = all[i as int];
            if self.runs[i].due(now) {
                self.runs[i].advance();
                places.push(i);
                assert(self.runs@[i as int].deep_view() =~= passed(run, now));
            }
            i += 1;
        }
        proof {
            assert(all.take(i as int) == all);
            assert(self.runs.deep_view() =~= all.map_values(|run: RunModel| passed(run, now)));
        }
        places
    }

    /// Notes that a message was typed; it goes to every output.
    pub fn take_message(&mut self)
        ensures
            final(self).deep_view() == old(self).deep_view().with_message(),
            final(self).deep_view() == (SendRunModel {
                message_count: if old(self).deep_view().message_count < u64::MAX {
                    (old(self).deep_view().message_count + 1) as u64
                } else {
                    u64::MAX
                },
                ..old(self).deep_view()
            }),
    {
        self.message_count = self.message_count.saturating_add(1);
    }

    /// Takes the outcome of a write down.
    pub fn record(&mut self, place: usize, outcome: Result<(), String>) -> (change: OutputChange)
        requires
            place < old(self).deep_view().runs.len(),
        ensures
            change.deep_view() == change_of(
                old(self).deep_view().runs[place as int],
                viewed(outcome),
            ),
            final(self).deep_view() == (SendRunModel {
                runs: old(self).deep_view().runs.update(
                    place as int,
                    old(self).deep_view().runs[place as int].written(viewed(outcome)),
                ),
                ..old(self).deep_view()
            }),
    {
        let ghost all = self.runs.deep_view();
        assert(all[place as int] == self.runs@[place as int].deep_view());
        let change = match &outcome {
            Ok(()) => if self.runs[place].has_error {
                OutputChange::ClearError
            } else {
                OutputChange::Nothing
            },
            Err(e) => OutputChange::ShowError(e.clone()),
        };
        let ghost told = viewed(outcome);
        self.runs[place].record(outcome);
        assert(self.runs.deep_view() =~= all.update(place as int, all[place as int].written(told)));
        change
    }

    /// How many packets or messages an output got.
    pub fn sent_count(&self, place: usize) -> (count: u64)
        requires
            place < self.deep_view().runs.len(),
        ensures
            count == self.deep_view().runs[place as int].sent_count,
    {
        assert(self.runs.deep_view()[place as int] == self.runs@[place as int].deep_view());
        self.runs[place].sent_count
    }

    pub fn message_count(&self) -> (count: u64)
        ensures
            count == self.deep_view().message_count,
    {
        self.message_count
    }

    /// How a session ends that sends on its own: it fails where nothing went out and an output
    /// has an error.
    pub fn finish(&self) -> (r: Result<(), String>)
        ensures
            viewed(r) == match run_failure(self.deep_view().runs) {
                Some(e) => Err::<(), Seq<char>>(e),
                None => Ok(()),
            },
    {
        match failed_run(&self.runs) {
            Some(e) => Err(e),
            None => Ok(()),
        }
    }

    /// How a session ends in which messages are typed: it fails where none was and the output
    /// has an error.
    pub fn finish_talk(&self, place: usize) -> (r: Result<(), String>)
        requires
            place < self.deep_view().runs.len(),
        ensures
            viewed(r) == self.deep_view().talked(place as int),
            viewed(r) == match self.deep_view().runs[place as int].last_error {
                Some(e) => if self.deep_view().message_count == 0 {
                    Err::<(), Seq<char>>(e)
                } else {
                    Ok(())
                },
                None => Ok(()),
            },
    {
        assert(self.runs.deep_view()[place as int] == self.runs@[place as int].deep_view());
        match &self.runs[place].last_error {
            Some(e) => if self.message_count == 0 {
                Err(e.clone())
            } else {
                Ok(())
            },
            None => Ok(()),
        }
    }
}

/// An output that was due is not due again before its period is over, unless it was further
/// behind than its schedule counts.
pub proof fn law_due_once_per_period(run: RunModel, now: u64)
    requires
        is_due(run, now),
        run.schedule.period > 0,
        now < u64::MAX,
        (now - run.schedule.next_send_at) / run.schedule.period as int <= u32::MAX,
    ensures
        !is_due(passed(run, now), now),
        passed(run, now).schedule.next_send_at <= now + run.schedule.period,
{
    law_realign(
        run.schedule.next_send_at as int,
        run.schedule.period as int,
        now as int,
    );
}

} // verus!

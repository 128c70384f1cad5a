//! `xbee-rtt`: the rounds of a session, step by step.
//!
//! The caller owns the serial port and the clock. It asks for the next step with the time in
//! nanoseconds, does what the step says, and hands in each frame that arrives.
use crate::rtt::{
    build_probe_payload, outcome_of, probe_payload, summary_of, summary_to_outcome,
    MeasurementAccumulator, MeasurementOutcome, TallyModel, XbeeRttSettings,
};
use crate::rtt_session::{
    control_step, probe_answer, responder_step, result_timeout_text, round_timeout_text,
    sync_timeout_text, waiting, LocalPeer, PeerModel, ResponderModel, ResponderStep, Waiting,
};
use crate::rtt_wire::{
    FrameKind, FrameModel, MeasurementSpecWire, MeasurementSummaryWire, ProtocolFrame,
};
use crate::text::viewed;
use vstd::prelude::*;

verus! {

/// Nanoseconds in a millisecond.
pub const MILLI: u64 = 1_000_000;

/// Milliseconds in nanoseconds, as far as 64 bits hold them.
pub open spec fn nanos(ms: u64) -> u64 {
    if ms > u64::MAX / MILLI {
        u64::MAX
    } else {
        (ms * MILLI) as u64
    }
}

fn to_nanos(ms: u64) -> (r: u64)
    ensures
        r == nanos(ms),
{
    if ms > u64::MAX / MILLI {
        u64::MAX
    } else {
        ms * MILLI
    }
}

// ---------------------------------------------------------------------------
// Terms and steps
// ---------------------------------------------------------------------------

/// What a session is held to; times are in nanoseconds.
#[derive(Debug, Clone, Copy, PartialEq, Eq, Structural)]
pub struct RoundTerms {
    pub spec: MeasurementSpecWire,
    pub payload_size: usize,
    pub probe_count: u16,
    pub interval: u64,
    pub probe_timeout: u64,
    pub connect_timeout_ms: u32,
    pub connect_timeout: u64,
    pub round_timeout: u64,
}

impl RoundTerms {
    /// What is agreed on with the peer says the same as the rest.
    pub open spec fn coherent(self) -> bool {
        &&& self.spec.payload_size == self.payload_size % 65536
        &&& self.spec.probe_count == self.probe_count
    }

    pub fn new(settings: &XbeeRttSettings) -> (terms: RoundTerms)
        ensures
            terms == (RoundTerms {
                spec: MeasurementSpecWire {
                    payload_size: (settings.payload_size % 65536) as u16,
                    probe_count: settings.probe_count,
                    interval_ms: settings.interval_ms,
                    probe_timeout_ms: settings.probe_timeout_ms,
                },
                payload_size: settings.payload_size,
                probe_count: settings.probe_count,
                interval: nanos(settings.interval_ms as u64),
                probe_timeout: nanos(settings.probe_timeout_ms as u64),
                connect_timeout_ms: settings.connect_timeout_ms,
                connect_timeout: nanos(settings.connect_timeout_ms as u64),
                round_timeout: nanos(settings.round_limit() as u64),
            }),
            terms.coherent(),
    {
        RoundTerms {
            spec: settings.spec(),
            payload_size: settings.payload_size,
            probe_count: settings.probe_count,
            interval: to_nanos(settings.interval_ms as u64),
            probe_timeout: to_nanos(settings.probe_timeout_ms as u64),
            connect_timeout_ms: settings.connect_timeout_ms,
            connect_timeout: to_nanos(settings.connect_timeout_ms as u64),
            round_timeout: to_nanos(settings.estimated_round_timeout()),
        }
    }
}

/// What to do next.
#[derive(Debug)]
pub enum RoundStep {
    /// Ask again.
    Continue,
    /// Send this, and ask again.
    Send(ProtocolFrame),
    /// Send what there is to send, and wait for one frame, not beyond the given time.
    Wait { send: Option<ProtocolFrame>, until: u64 },
    /// The round is over.
    Finished(MeasurementOutcome),
}

pub enum StepModel {
    Continue,
    Send(FrameModel),
    Wait { send: Option<FrameModel>, until: u64 },
    Finished(MeasurementOutcome),
}

impl DeepView for RoundStep {
    type V = StepModel;

    open spec fn deep_view(&self) -> StepModel {
        match self {
            RoundStep::Continue => StepModel::Continue,
            RoundStep::Send(frame) => StepModel::Send(frame.deep_view()),
            RoundStep::Wait { send, until } => StepModel::Wait {
                send: send.deep_view(),
                until: *until,
            },
            RoundStep::Finished(outcome) => StepModel::Finished(*outcome),
        }
    }
}

// ---------------------------------------------------------------------------
// The measuring side
// ---------------------------------------------------------------------------

/// Where the measuring side of a round is.
#[derive(Debug, Clone, Copy, PartialEq, Eq, Structural)]
pub enum Phase {
    /// The peer is asked to start.
    Starting { deadline: u64, next_send_at: u64 },
    /// The next probe goes out at this time.
    Pausing { until: u64 },
    /// A probe is on its way.
    Sent { sent_at: u64 },
    /// Its answer is awaited.
    Probing { sent_at: u64, deadline: u64 },
    /// The result is reported.
    Reporting { deadline: u64, next_send_at: u64 },
    /// The peer has the result.
    Done,
}

/// The measuring side of a round.
#[derive(Debug)]
pub struct InitiatorRound {
    pub round_id: u8,
    pub terms: RoundTerms,
    pub tally: MeasurementAccumulator,
    /// How many probes are accounted for.
    pub index: u16,
    pub phase: Phase,
}

#[verifier::ext_equal]
pub struct InitiatorModel {
    pub round_id: u8,
    pub terms: RoundTerms,
    pub tally: TallyModel,
    pub index: u16,
    pub phase: Phase,
}

impl DeepView for InitiatorRound {
    type V = InitiatorModel;

    open spec fn deep_view(&self) -> InitiatorModel {
        InitiatorModel {
            round_id: self.round_id,
            terms: self.terms,
            tally: self.tally.deep_view(),
            index: self.index,
            phase: self.phase,
        }
    }
}

/// The frame to send where one is due.
pub open spec fn when_due(due: bool, frame: Result<FrameModel, Seq<char>>) -> Result<
    Option<FrameModel>,
    Seq<char>,
> {
    if due {
        match frame {
            Ok(f) => Ok(Some(f)),
            Err(e) => Err(e),
        }
    } else {
        Ok(None)
    }
}

impl InitiatorModel {
    pub open spec fn begin(
        round_id: u8,
        terms: RoundTerms,
        local_nonce: u64,
        peer_nonce: u64,
        now: u64,
    ) -> InitiatorModel {
        InitiatorModel {
            round_id,
            terms,
            tally: TallyModel::empty(
                local_nonce,
                peer_nonce,
                terms.payload_size,
                terms.probe_count,
            ),
            index: 0,
            phase: Phase::Starting {
                deadline: now.saturating_add(terms.connect_timeout),
                next_send_at: now,
            },
        }
    }

    pub open spec fn at(self, phase: Phase) -> InitiatorModel {
        InitiatorModel { phase, ..self }
    }

    /// The number of the probe that is next or on its way.
    pub open spec fn seq(self) -> u16 {
        (self.index + 1) as u16
    }

    /// The round at the next probe, or at its report where no probe is left.
    pub open spec fn turned(self, probe_at: u64, now: u64) -> InitiatorModel {
        if self.index < self.terms.probe_count {
            self.at(Phase::Pausing { until: probe_at })
        } else {
            self.at(
                Phase::Reporting {
                    deadline: now.saturating_add(self.terms.connect_timeout),
                    next_send_at: now,
                },
            )
        }
    }

    /// The round after a probe that was sent at the given time is accounted for.
    pub open spec fn counted(self, tally: TallyModel, sent_at: u64, now: u64) -> InitiatorModel {
        (InitiatorModel { tally, index: self.seq(), ..self }).turned(
            sent_at.saturating_add(self.terms.interval),
            now,
        )
    }

    /// The next step at a time. The start and the result are sent again and again until they are
    /// confirmed, for as long as connecting may take; a probe whose answer does not come in time
    /// counts as lost.
    pub open spec fn polled(self, peer: PeerModel, now: u64) -> Result<
        (InitiatorModel, StepModel),
        Seq<char>,
    > {
        let port = peer.local_port.port;
        match self.phase {
            Phase::Starting { deadline, next_send_at } => match waiting(
                now,
                deadline,
                next_send_at,
            ) {
                Waiting::Expired => Err(
                    sync_timeout_text(self.round_id, port, self.terms.connect_timeout_ms),
                ),
                Waiting::Wait { send, next_send_at, until } => match when_due(
                    send,
                    peer.session_frame(
                        self.round_id,
                        0,
                        FrameKind::MeasureStart,
                        self.terms.spec.wire(),
                    ),
                ) {
                    Err(e) => Err(e),
                    Ok(send) => Ok(
                        (
                            self.at(Phase::Starting { deadline, next_send_at }),
                            StepModel::Wait { send, until },
                        ),
                    ),
                },
            },
            Phase::Pausing { until } => if now < until {
                Ok((self, StepModel::Wait { send: None, until }))
            } else {
                match peer.session_frame(
                    self.round_id,
                    self.seq(),
                    FrameKind::Probe,
                    self.payload(peer),
                ) {
                    Err(e) => Err(e),
                    Ok(probe) => Ok((self.at(Phase::Sent { sent_at: now }), StepModel::Send(probe))),
                }
            },
            Phase::Sent { sent_at } => Ok(
                (
                    self.at(
                        Phase::Probing {
                            sent_at,
                            deadline: now.saturating_add(self.terms.probe_timeout),
                        },
                    ),
                    StepModel::Continue,
                ),
            ),
            Phase::Probing { sent_at, deadline } => if now >= deadline {
                Ok((self.counted(self.tally.with_timeout(), sent_at, now), StepModel::Continue))
            } else {
                Ok((self, StepModel::Wait { send: None, until: deadline }))
            },
            Phase::Reporting { deadline, next_send_at } => match waiting(
                now,
                deadline,
                next_send_at,
            ) {
                Waiting::Expired => Err(
                    result_timeout_text(self.round_id, port, self.terms.connect_timeout_ms),
                ),
                Waiting::Wait { send, next_send_at, until } => match when_due(
                    send,
                    peer.session_frame(
                        self.round_id,
                        0,
                        FrameKind::Result,
                        summary_of(self.tally.outcome()).wire(),
                    ),
                ) {
                    Err(e) => Err(e),
                    Ok(send) => Ok(
                        (
                            self.at(Phase::Reporting { deadline, next_send_at }),
                            StepModel::Wait { send, until },
                        ),
                    ),
                },
            },
            Phase::Done => Ok((self, StepModel::Finished(self.tally.outcome()))),
        }
    }

    /// The payload of the probe that is next or on its way.
    pub open spec fn payload(self, peer: PeerModel) -> Seq<u8> {
        probe_payload(
            peer.session_id->0,
            self.round_id,
            self.seq(),
            self.terms.payload_size as nat,
        )
    }

    /// The round after a frame that is not of the handshake. What confirms the start lets the
    /// probes begin, the answer to the probe on its way accounts for it, and what confirms the
    /// result ends the round; anything else is dropped.
    pub open spec fn heard(self, peer: PeerModel, f: FrameModel, now: u64) -> InitiatorModel {
        match self.phase {
            Phase::Starting { .. } => if peer.in_round(f, self.round_id) && f.kind
                == FrameKind::MeasureAck {
                self.turned(now, now)
            } else {
                self
            },
            Phase::Probing { sent_at, .. } => match probe_answer(
                peer,
                f,
                self.round_id,
                self.seq(),
                self.payload(peer),
            ) {
                Some(true) => self.counted(
                    self.tally.with_sample(now.saturating_sub(sent_at)),
                    sent_at,
                    now,
                ),
                Some(false) => self.counted(self.tally.with_mismatch(), sent_at, now),
                None => self,
            },
            Phase::Reporting { .. } => if peer.in_round(f, self.round_id) && f.kind
                == FrameKind::ResultAck {
                self.at(Phase::Done)
            } else {
                self
            },
            _ => self,
        }
    }

    /// Each probe is accounted for once: as many as the index says, and all of them once the
    /// result is reported.
    pub open spec fn sound(self) -> bool {
        &&& self.tally.recorded() == self.index
        &&& self.tally.probe_count == self.terms.probe_count
        &&& self.tally.payload_size == self.terms.payload_size
        &&& match self.phase {
            Phase::Starting { .. } => self.index == 0,
            Phase::Reporting { .. } | Phase::Done => self.index == self.terms.probe_count,
            _ => self.index < self.terms.probe_count,
        }
    }
}

impl InitiatorRound {
    /// A round that this peer measures in.
    pub fn new(peer: &LocalPeer, peer_nonce: u64, round_id: u8, terms: RoundTerms, now: u64) -> (
    round: InitiatorRound)
        ensures
            round.deep_view() == InitiatorModel::begin(
                round_id,
                terms,
                peer.local_nonce,
                peer_nonce,
                now,
            ),
            round.deep_view().sound(),
    {
        InitiatorRound {
            round_id,
            terms,
            tally: MeasurementAccumulator::new(
                peer.local_nonce,
                peer_nonce,
                terms.payload_size,
                terms.probe_count,
            ),
            index: 0,
            phase: Phase::Starting {
                deadline: now.saturating_add(terms.connect_timeout),
                next_send_at: now,
            },
        }
    }

    /// Goes on to the next probe, or to the report.
    fn turn(&mut self, probe_at: u64, now: u64)
        ensures
            final(self).deep_view() == old(self).deep_view().turned(probe_at, now),
    {
        self.phase = if self.index < self.terms.probe_count {
            Phase::Pausing { until: probe_at }
        } else {
            Phase::Reporting {
                deadline: now.saturating_add(self.terms.connect_timeout),
                next_send_at: now,
            }
        };
    }

    /// Goes on after a probe is accounted for.
    fn count(&mut self, sent_at: u64, now: u64)
        requires
            old(self).index < u16::MAX,
        ensures
            final(self).deep_view() == old(self).deep_view().counted(
                old(self).deep_view().tally,
                sent_at,
                now,
            ),
    {
        self.index = self.index + 1;
        self.turn(sent_at.saturating_add(self.terms.interval), now);
    }

    /// The next step.
    pub fn poll(&mut self, peer: &LocalPeer, now: u64) -> (r: Result<RoundStep, String>)
        requires
            old(self).deep_view().sound(),
        ensures
            match viewed(r) {
                Ok(step) => old(self).deep_view().polled(peer.deep_view(), now) == Ok::<
                    (InitiatorModel, StepModel),
                    Seq<char>,
                >((final(self).deep_view(), step)),
                Err(e) => old(self).deep_view().polled(peer.deep_view(), now) == Err::<
                    (InitiatorModel, StepModel),
                    Seq<char>,
                >(e) && final(self).deep_view() == old(self).deep_view(),
            },
            final(self).deep_view().sound(),
    {
        match self.phase {
            Phase::Starting { deadline, next_send_at } => {
                match control_step(now, deadline, next_send_at) {
                    Waiting::Expired => {
                        Err(peer.measure_ack_timeout(self.round_id, self.terms.connect_timeout_ms))
                    },
                    Waiting::Wait { send, next_send_at: next, until } => {
                        let frame = if send {
                            Some(peer.send_measure_start(self.round_id, self.terms.spec)?)
                        } else {
                            None
                        };
                        self.phase = Phase::Starting { deadline, next_send_at: next };
                        Ok(RoundStep::Wait { send: frame, until })
                    },
                }
            },
            Phase::Pausing { until } => {
                if now < until {
                    return Ok(RoundStep::Wait { send: None, until });
                }
                let seq: u16 = self.index + 1;
                let session_id: u32 = peer.session_id()?;
                let payload = build_probe_payload(
                    session_id,
                    self.round_id,
                    seq,
                    self.terms.payload_size,
                );
                let probe = peer.send_probe(self.round_id, seq, payload)?;
                self.phase = Phase::Sent { sent_at: now };
                Ok(RoundStep::Send(probe))
            },
            Phase::Sent { sent_at } => {
                self.phase = Phase::Probing {
                    sent_at,
                    deadline: now.saturating_add(self.terms.probe_timeout),
                };
                Ok(RoundStep::Continue)
            },
            Phase::Probing { sent_at, deadline } => {
                if now < deadline {
                    return Ok(RoundStep::Wait { send: None, until: deadline });
                }
                self.tally.record_timeout();
                self.count(sent_at, now);
                Ok(RoundStep::Continue)
            },
            Phase::Reporting { deadline, next_send_at } => {
                match control_step(now, deadline, next_send_at) {
                    Waiting::Expired => {
                        Err(peer.result_ack_timeout(self.round_id, self.terms.connect_timeout_ms))
                    },
                    Waiting::Wait { send, next_send_at: next, until } => {
                        let frame = if send {
                            let outcome = self.tally.outcome();
                            let summary = MeasurementSummaryWire::from_outcome(&outcome);
                            Some(peer.send_result(self.round_id, summary)?)
                        } else {
                            None
                        };
                        self.phase = Phase::Reporting { deadline, next_send_at: next };
                        Ok(RoundStep::Wait { send: frame, until })
                    },
                }
            },
            Phase::Done => Ok(RoundStep::Finished(self.tally.outcome())),
        }
    }

    /// Takes a frame that is not of the handshake.
    pub fn hear(&mut self, peer: &LocalPeer, frame: &ProtocolFrame, now: u64)
        requires
            old(self).deep_view().sound(),
        ensures
            final(self).deep_view() == old(self).deep_view().heard(
                peer.deep_view(),
                frame.deep_view(),
                now,
            ),
            final(self).deep_view().sound(),
    {
        match self.phase {
            Phase::Starting { .. } => {
                if peer.wait_for_measure_ack(frame, self.round_id) {
                    self.turn(now, now);
                }
            },
            Phase::Probing { sent_at, .. } => {
                let seq: u16 = self.index + 1;
                let session_id: u32 = match peer.session_id {
                    Some(id) => id,
                    None => return ,
                };
                let payload = build_probe_payload(
                    session_id,
                    self.round_id,
                    seq,
                    self.terms.payload_size,
                );
                match peer.wait_for_probe_echo(frame, self.round_id, seq, &payload) {
                    Some(true) => {
                        self.tally.record_success(now.saturating_sub(sent_at));
                        self.count(sent_at, now);
                    },
                    Some(false) => {
                        self.tally.record_mismatch();
                        self.count(sent_at, now);
                    },
                    None => {},
                }
            },
            Phase::Reporting { .. } => {
                if peer.wait_for_result_ack(frame, self.round_id) {
                    self.phase = Phase::Done;
                }
            },
            _ => {},
        }
    }
}

// ---------------------------------------------------------------------------
// The answering side
// ---------------------------------------------------------------------------

/// The answering side of a round.
#[derive(Debug, Clone, Copy, PartialEq, Eq, Structural)]
pub struct ResponderRound {
    pub round_id: u8,
    pub initiator_nonce: u64,
    pub terms: RoundTerms,
    pub started: bool,
    pub deadline: u64,
    /// What the peer measured, once it has said so.
    pub outcome: Option<MeasurementOutcome>,
}

impl ResponderRound {
    pub open spec fn begin(round_id: u8, terms: RoundTerms, initiator_nonce: u64, now: u64) -> (
        ResponderRound) {
        ResponderRound {
            round_id,
            initiator_nonce,
            terms,
            started: false,
            deadline: now.saturating_add(terms.connect_timeout),
            outcome: None,
        }
    }

    /// The next step at a time: the start must come while connecting may take, and the result as
    /// long as a round may take after the start.
    pub open spec fn polled(self, peer: PeerModel, now: u64) -> Result<StepModel, Seq<char>> {
        match self.outcome {
            Some(outcome) => Ok(StepModel::Finished(outcome)),
            None => if now >= self.deadline {
                Err(round_timeout_text(self.round_id, peer.local_port.port))
            } else {
                Ok(StepModel::Wait { send: None, until: self.deadline })
            },
        }
    }

    /// The round after a frame that is not of the handshake, and the answer to it.
    pub open spec fn heard(self, peer: PeerModel, f: FrameModel, now: u64) -> Result<
        (ResponderRound, Option<FrameModel>),
        Seq<char>,
    > {
        match responder_step(
            peer,
            f,
            self.round_id,
            self.terms.spec,
            self.terms.payload_size as nat,
            self.started,
        ) {
            Err(e) => Err(e),
            Ok(ResponderModel::Ignore) => Ok((self, None)),
            Ok(ResponderModel::Start(answer)) => Ok(
                (
                    ResponderRound {
                        started: true,
                        deadline: now.saturating_add(self.terms.round_timeout),
                        ..self
                    },
                    Some(answer),
                ),
            ),
            Ok(ResponderModel::Echo(answer)) => Ok((self, Some(answer))),
            Ok(ResponderModel::Finish(answer, summary)) => Ok(
                (
                    ResponderRound {
                        outcome: Some(outcome_of(summary, self.initiator_nonce, peer.local_nonce)),
                        ..self
                    },
                    Some(answer),
                ),
            ),
        }
    }

    /// A round that the peer measures in.
    pub fn new(round_id: u8, terms: RoundTerms, initiator_nonce: u64, now: u64) -> (round:
        ResponderRound)
        ensures
            round == ResponderRound::begin(round_id, terms, initiator_nonce, now),
    {
        ResponderRound {
            round_id,
            initiator_nonce,
            terms,
            started: false,
            deadline: now.saturating_add(terms.connect_timeout),
            outcome: None,
        }
    }

    /// The next step.
    pub fn poll(&self, peer: &LocalPeer, now: u64) -> (r: Result<RoundStep, String>)
        ensures
            viewed(r) == self.polled(peer.deep_view(), now),
    {
        match self.outcome {
            Some(outcome) => Ok(RoundStep::Finished(outcome)),
            None => if now >= self.deadline {
                Err(peer.round_timeout(self.round_id))
            } else {
                Ok(RoundStep::Wait { send: None, until: self.deadline })
            },
        }
    }

    /// Takes a frame that is not of the handshake; gives the answer to it.
    pub fn hear(&mut self, peer: &LocalPeer, frame: &ProtocolFrame, now: u64) -> (r: Result<
        Option<ProtocolFrame>,
        String,
    >)
        ensures
            match viewed(r) {
                Ok(answer) => old(self).heard(peer.deep_view(), frame.deep_view(), now) == Ok::<
                    (ResponderRound, Option<FrameModel>),
                    Seq<char>,
                >((*final(self), answer)),
                Err(e) => old(self).heard(peer.deep_view(), frame.deep_view(), now) == Err::<
                    (ResponderRound, Option<FrameModel>),
                    Seq<char>,
                >(e) && *final(self) == *old(self),
            },
    {
        let step = peer.run_responder_round(
            frame,
            self.round_id,
            self.terms.spec,
            self.terms.payload_size,
            self.started,
        )?;
        match step {
            ResponderStep::Ignore => Ok(None),
            ResponderStep::Start(answer) => {
                self.started = true;
                self.deadline = now.saturating_add(self.terms.round_timeout);
                Ok(Some(answer))
            },
            ResponderStep::Echo(answer) => Ok(Some(answer)),
            ResponderStep::Finish(answer, summary) => {
                let nonce: u64 = self.initiator_nonce;
                self.outcome = Some(summary_to_outcome(summary, nonce, peer.local_nonce));
                Ok(Some(answer))
            },
        }
    }
}

// ---------------------------------------------------------------------------
// Laws
// ---------------------------------------------------------------------------

/// Whatever happens, each probe is accounted for once, and an outcome accounts for all of them.
pub proof fn law_every_probe_counts_once(
    m: InitiatorModel,
    peer: PeerModel,
    f: FrameModel,
    now: u64,
)
    requires
        m.sound(),
    ensures
        m.heard(peer, f, now).sound(),
        m.polled(peer, now) matches Ok((next, step)) ==> {
            &&& next.sound()
            &&& step matches StepModel::Finished(o) ==> o.success_count + o.timeout_count
                + o.mismatch_count == o.probe_count && o.probe_count == m.terms.probe_count
        },
{
}

/// A probe that follows another goes out no sooner than the interval after it.
pub proof fn law_probes_keep_their_distance(
    m: InitiatorModel,
    peer: PeerModel,
    f: FrameModel,
    now: u64,
    later: u64,
)
    requires
        m.phase is Probing,
    ensures
        ({
            let sent_at = m.phase->Probing_sent_at;
            let earliest = sent_at.saturating_add(m.terms.interval);
            let answered = m.heard(peer, f, now);
            let lost = m.polled(peer, now);
            &&& answered.phase is Pausing && later < earliest ==> answered.polled(peer, later)
                == Ok::<(InitiatorModel, StepModel), Seq<char>>(
                (answered, StepModel::Wait { send: None, until: earliest }),
            )
            &&& lost is Ok && lost->Ok_0.0.phase is Pausing && later < earliest
                ==> lost->Ok_0.0.polled(peer, later) == Ok::<
                (InitiatorModel, StepModel),
                Seq<char>,
            >((lost->Ok_0.0, StepModel::Wait { send: None, until: earliest }))
        }),
{
}

/// Both sides are in one session and one round, and agree on its terms.
pub open spec fn facing(m: InitiatorModel, a: PeerModel, r: ResponderRound, b: PeerModel) -> bool {
    &&& a.session_id is Some
    &&& a.session_id == b.session_id
    &&& m.round_id == r.round_id
    &&& m.terms.spec == r.terms.spec
    &&& m.terms.payload_size == r.terms.payload_size
    &&& m.terms.coherent()
    &&& m.sound()
}

/// The request to start is confirmed, and what confirms it lets the probes begin.
pub proof fn law_start_is_taken(
    m: InitiatorModel,
    a: PeerModel,
    r: ResponderRound,
    b: PeerModel,
    now: u64,
    arrival: u64,
    back: u64,
)
    requires
        facing(m, a, r, b),
        m.phase matches Phase::Starting { deadline, next_send_at } && next_send_at <= now
            < deadline,
    ensures
        ({
            let asked = m.polled(a, now)->Ok_0;
            let request = asked.1->send->0;
            let taken = r.heard(b, request, arrival)->Ok_0;
            &&& m.polled(a, now) is Ok
            &&& asked.1 is Wait
            &&& asked.1->send is Some
            &&& r.heard(b, request, arrival) is Ok
            &&& taken.0.started
            &&& taken.1 is Some
            &&& asked.0.heard(a, taken.1->0, back) == asked.0.turned(back, back)
        }),
{
    m.terms.spec.law_round_trip();
}

/// A probe is sent back by a side that has started, and is counted with the time that it took.
pub proof fn law_probe_is_counted(
    m: InitiatorModel,
    a: PeerModel,
    r: ResponderRound,
    b: PeerModel,
    now: u64,
    sent: u64,
    arrival: u64,
    back: u64,
)
    requires
        facing(m, a, r, b),
        r.started,
        m.phase matches Phase::Pausing { until } && until <= now,
        now <= back,
    ensures
        ({
            let gone = m.polled(a, now)->Ok_0;
            let probe = gone.1->Send_0;
            let waits = gone.0.polled(a, sent)->Ok_0.0;
            let taken = r.heard(b, probe, arrival)->Ok_0;
            &&& m.polled(a, now) is Ok
            &&& gone.1 is Send
            &&& r.heard(b, probe, arrival) is Ok
            &&& taken.0 == r
            &&& taken.1 is Some
            &&& waits.heard(a, taken.1->0, back).tally == m.tally.with_sample((back - now) as u64)
        }),
{
}

/// When a probe is sent and when its answer is back.
pub struct Passage {
    pub sent: u64,
    pub back: u64,
}

/// The measuring side after a probe went to the other side and its answer came back.
pub open spec fn probed(
    m: InitiatorModel,
    a: PeerModel,
    r: ResponderRound,
    b: PeerModel,
    t: Passage,
) -> InitiatorModel {
    let gone = m.polled(a, t.sent)->Ok_0;
    let waits = gone.0.polled(a, t.sent)->Ok_0.0;
    let taken = r.heard(b, gone.1->Send_0, t.sent)->Ok_0;
    waits.heard(a, taken.1->0, t.back)
}

/// The measuring side after one probe after the other came back.
pub open spec fn all_probed(
    m: InitiatorModel,
    a: PeerModel,
    r: ResponderRound,
    b: PeerModel,
    times: Seq<Passage>,
) -> InitiatorModel
    decreases times.len(),
{
    if times.len() == 0 {
        m
    } else {
        probed(all_probed(m, a, r, b, times.drop_last()), a, r, b, times.last())
    }
}

proof fn lemma_all_probed(
    m: InitiatorModel,
    a: PeerModel,
    r: ResponderRound,
    b: PeerModel,
    times: Seq<Passage>,
)
    requires
        facing(m, a, r, b),
        r.started,
        m.index == 0,
        m.tally.recorded() == 0,
        times.len() <= m.terms.probe_count,
        m.phase matches Phase::Pausing { until } && (times.len() > 0 ==> until <= times[0].sent),
        forall|i: int| 0 <= i < times.len() ==> (#[trigger] times[i]).sent <= times[i].back,
        forall|i: int, j: int|
            0 <= i && j == i + 1 && j < times.len() ==> (#[trigger] times[i]).sent.saturating_add(
                m.terms.interval,
            ) <= (#[trigger] times[j]).sent,
    ensures
        ({
            let end = all_probed(m, a, r, b, times);
            &&& facing(end, a, r, b)
            &&& end.terms == m.terms
            &&& end.index == times.len()
            &&& end.tally.samples.len() == times.len()
            &&& end.phase is Pausing || end.phase is Reporting
            &&& end.phase is Pausing && times.len() > 0 ==> end.phase->Pausing_until
                == times.last().sent.saturating_add(m.terms.interval)
            &&& times.len() == 0 ==> end == m
        }),
    decreases times.len(),
{
    if times.len() > 0 {
        let before = times.drop_last();
        assert forall|i: int| 0 <= i < before.len() implies (#[trigger] before[i]).sent
            <= before[i].back by {
            assert(before[i] == times[i]);
        }
        assert forall|i: int, j: int| 0 <= i && j == i + 1 && j < before.len() implies (
        #[trigger] before[i]).sent.saturating_add(m.terms.interval) <= (
        #[trigger] before[j]).sent by {
            assert(before[i] == times[i] && before[j] == times[j]);
        }
        lemma_all_probed(m, a, r, b, before);
        let mid = all_probed(m, a, r, b, before);
        let n = times.len() - 1;
        assert(times[n] == times.last());
        if n > 0 {
            assert(before.last() == times[n - 1]);
        }
        let t = times.last();
        law_probe_is_counted(mid, a, r, b, t.sent, t.sent, t.sent, t.back);
    }
}

proof fn lemma_full_tally(end: InitiatorModel)
    requires
        end.sound(),
        end.index == end.terms.probe_count,
        end.tally.samples.len() == end.index,
        end.phase is Pausing || end.phase is Reporting,
    ensures
        end.phase is Reporting,
        end.tally.outcome().clean(),
{
}

/// Where every probe comes back, the outcome is clean and is reported next.
pub proof fn law_round_without_loss_is_clean(
    m: InitiatorModel,
    a: PeerModel,
    r: ResponderRound,
    b: PeerModel,
    times: Seq<Passage>,
)
    requires
        facing(m, a, r, b),
        r.started,
        m.index == 0,
        times.len() == m.terms.probe_count,
        m.phase matches Phase::Pausing { until } && until <= times[0].sent,
        forall|i: int| 0 <= i < times.len() ==> (#[trigger] times[i]).sent <= times[i].back,
        forall|i: int, j: int|
            0 <= i && j == i + 1 && j < times.len() ==> (#[trigger] times[i]).sent.saturating_add(
                m.terms.interval,
            ) <= (#[trigger] times[j]).sent,
    ensures
        all_probed(m, a, r, b, times).phase is Reporting,
        all_probed(m, a, r, b, times).tally.outcome().clean(),
{
    lemma_all_probed(m, a, r, b, times);
    lemma_full_tally(all_probed(m, a, r, b, times));
}

/// The result reaches the other side, and what confirms it ends the round.
pub proof fn law_result_is_shared(
    m: InitiatorModel,
    a: PeerModel,
    r: ResponderRound,
    b: PeerModel,
    now: u64,
    arrival: u64,
    back: u64,
)
    requires
        facing(m, a, r, b),
        r.started,
        m.phase matches Phase::Reporting { deadline, next_send_at } && next_send_at <= now
            < deadline,
    ensures
        ({
            let told = m.polled(a, now)->Ok_0;
            let report = told.1->send->0;
            let taken = r.heard(b, report, arrival)->Ok_0;
            let ended = told.0.heard(a, taken.1->0, back);
            &&& m.polled(a, now) is Ok
            &&& told.1 is Wait
            &&& told.1->send is Some
            &&& r.heard(b, report, arrival) is Ok
            &&& taken.0.outcome == Some(
                outcome_of(summary_of(m.tally.outcome()), r.initiator_nonce, b.local_nonce),
            )
            &&& taken.1 is Some
            &&& ended.polled(a, back) == Ok::<(InitiatorModel, StepModel), Seq<char>>(
                (ended, StepModel::Finished(m.tally.outcome())),
            )
        }),
{
    summary_of(m.tally.outcome()).law_round_trip();
}

} // verus!

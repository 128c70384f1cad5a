//! `xbee-rtt`: a session from the first greeting to the result.
//!
//! The peers greet each other; the one with the lower nonce measures first, then the other does.
use crate::rtt::{
    first_initiator, first_initiator_nonce, other_nonce, other_of, MeasurementOutcome,
    ROUND_ID_FIRST, ROUND_ID_SECOND,
};
use crate::rtt_round::{
    InitiatorModel, InitiatorRound, ResponderRound, RoundStep, RoundTerms, StepModel,
};
use crate::rtt_session::{
    connect_timeout_text, sort_rounds, sorted_rounds, waiting, ConnectStep, Handshake, LocalPeer,
    PeerModel, PeerRunModel, PeerRunResult, Waiting,
};
use crate::rtt_wire::{FrameModel, ProtocolFrame};
use crate::text::viewed;
use vstd::prelude::*;

verus! {

// ---------------------------------------------------------------------------
// A round
// ---------------------------------------------------------------------------

/// A round, from the side that this peer has in it.
#[derive(Debug)]
pub enum Round {
    Measuring(InitiatorRound),
    Answering(ResponderRound),
}

pub enum RoundModel {
    Measuring(InitiatorModel),
    Answering(ResponderRound),
}

impl DeepView for Round {
    type V = RoundModel;

    open spec fn deep_view(&self) -> RoundModel {
        match self {
            Round::Measuring(round) => RoundModel::Measuring(round.deep_view()),
            Round::Answering(round) => RoundModel::Answering(*round),
        }
    }
}

impl RoundModel {
    /// The round that the peer with the given nonce measures in.
    pub open spec fn begin(
        peer: PeerModel,
        peer_nonce: u64,
        round_id: u8,
        initiator_nonce: u64,
        terms: RoundTerms,
        now: u64,
    ) -> RoundModel {
        if initiator_nonce == peer.local_nonce {
            RoundModel::Measuring(
                InitiatorModel::begin(round_id, terms, peer.local_nonce, peer_nonce, now),
            )
        } else {
            RoundModel::Answering(ResponderRound::begin(round_id, terms, initiator_nonce, now))
        }
    }

    pub open spec fn polled(self, peer: PeerModel, now: u64) -> Result<
        (RoundModel, StepModel),
        Seq<char>,
    > {
        match self {
            RoundModel::Measuring(round) => match round.polled(peer, now) {
                Err(e) => Err(e),
                Ok((next, step)) => Ok((RoundModel::Measuring(next), step)),
            },
            RoundModel::Answering(round) => match round.polled(peer, now) {
                Err(e) => Err(e),
                Ok(step) => Ok((self, step)),
            },
        }
    }

    pub open spec fn heard(self, peer: PeerModel, f: FrameModel, now: u64) -> Result<
        (RoundModel, Option<FrameModel>),
        Seq<char>,
    > {
        match self {
            RoundModel::Measuring(round) => Ok(
                (RoundModel::Measuring(round.heard(peer, f, now)), None),
            ),
            RoundModel::Answering(round) => match round.heard(peer, f, now) {
                Err(e) => Err(e),
                Ok((next, answer)) => Ok((RoundModel::Answering(next), answer)),
            },
        }
    }

    pub open spec fn sound(self) -> bool {
        self matches RoundModel::Measuring(round) ==> round.sound()
    }
}

impl Round {
    /// A round, by who measures in it.
    pub fn run_round(
        peer: &LocalPeer,
        peer_nonce: u64,
        round_id: u8,
        initiator_nonce: u64,
        terms: RoundTerms,
        now: u64,
    ) -> (round: Round)
        ensures
            round.deep_view() == RoundModel::begin(
                peer.deep_view(),
                peer_nonce,
                round_id,
                initiator_nonce,
                terms,
                now,
            ),
            round.deep_view().sound(),
    {
        if initiator_nonce == peer.local_nonce {
            Round::Measuring(InitiatorRound::new(peer, peer_nonce, round_id, terms, now))
        } else {
            Round::Answering(ResponderRound::new(round_id, terms, initiator_nonce, now))
        }
    }

    /// The next step.
    pub fn poll(&mut self, peer: &LocalPeer, now: u64) -> (r: Result<RoundStep, String>)
        requires
            old(self).deep_view().sound(),
        ensures
            match viewed(r) {
                Ok(step) => old(self).deep_view().polled(peer.deep_view(), now) == Ok::<
                    (RoundModel, StepModel),
                    Seq<char>,
                >((final(self).deep_view(), step)),
                Err(e) => old(self).deep_view().polled(peer.deep_view(), now) == Err::<
                    (RoundModel, StepModel),
                    Seq<char>,
                >(e) && final(self).deep_view() == old(self).deep_view(),
            },
            final(self).deep_view().sound(),
    {
        match self {
            Round::Measuring(round) => round.poll(peer, now),
            Round::Answering(round) => round.poll(peer, now),
        }
    }

    /// Takes a frame that is not of the handshake; gives the answer to it.
    pub fn hear(&mut self, peer: &LocalPeer, frame: &ProtocolFrame, now: u64) -> (r: Result<
        Option<ProtocolFrame>,
        String,
    >)
        requires
            old(self).deep_view().sound(),
        ensures
            match viewed(r) {
                Ok(answer) => old(self).deep_view().heard(
                    peer.deep_view(),
                    frame.deep_view(),
                    now,
                ) == Ok::<(RoundModel, Option<FrameModel>), Seq<char>>(
                    (final(self).deep_view(), answer),
                ),
                Err(e) => old(self).deep_view().heard(peer.deep_view(), frame.deep_view(), now)
                    == Err::<(RoundModel, Option<FrameModel>), Seq<char>>(e)
                    && final(self).deep_view() == old(self).deep_view(),
            },
            final(self).deep_view().sound(),
    {
        match self {
            Round::Measuring(round) => {
                round.hear(peer, frame, now);
                Ok(None)
            },
            Round::Answering(round) => round.hear(peer, frame, now),
        }
    }
}

// ---------------------------------------------------------------------------
// A session
// ---------------------------------------------------------------------------

/// What to do next in a session.
#[derive(Debug)]
pub enum SessionStep {
    /// Ask again.
    Continue,
    /// Send this, and ask again.
    Send(ProtocolFrame),
    /// Send what there is to send, and wait for one frame, not beyond the given time.
    Wait { send: Option<ProtocolFrame>, until: u64 },
    /// Both directions are measured.
    Finished(PeerRunResult),
}

pub enum SessionStepModel {
    Continue,
    Send(FrameModel),
    Wait { send: Option<FrameModel>, until: u64 },
    Finished(PeerRunModel),
}

impl DeepView for SessionStep {
    type V = SessionStepModel;

    open spec fn deep_view(&self) -> SessionStepModel {
        match self {
            SessionStep::Continue => SessionStepModel::Continue,
            SessionStep::Send(frame) => SessionStepModel::Send(frame.deep_view()),
            SessionStep::Wait { send, until } => SessionStepModel::Wait {
                send: send.deep_view(),
                until: *until,
            },
            SessionStep::Finished(result) => SessionStepModel::Finished(result.deep_view()),
        }
    }
}

/// Where a session is.
#[derive(Debug)]
pub enum Stage {
    Connecting { deadline: u64, next_hello_at: u64 },
    Measuring {
        peer_nonce: u64,
        session_id: u32,
        first_initiator_nonce: u64,
        /// The outcome of the first round, once it is over.
        first: Option<MeasurementOutcome>,
        round: Round,
    },
}

pub enum StageModel {
    Connecting { deadline: u64, next_hello_at: u64 },
    Measuring {
        peer_nonce: u64,
        session_id: u32,
        first_initiator_nonce: u64,
        first: Option<MeasurementOutcome>,
        round: RoundModel,
    },
}

impl DeepView for Stage {
    type V = StageModel;

    open spec fn deep_view(&self) -> StageModel {
        match self {
            Stage::Connecting { deadline, next_hello_at } => StageModel::Connecting {
                deadline: *deadline,
                next_hello_at: *next_hello_at,
            },
            Stage::Measuring { peer_nonce, session_id, first_initiator_nonce, first, round } => {
                StageModel::Measuring {
                    peer_nonce: *peer_nonce,
                    session_id: *session_id,
                    first_initiator_nonce: *first_initiator_nonce,
                    first: *first,
                    round: round.deep_view(),
                }
            },
        }
    }
}

/// One peer of a session.
#[derive(Debug)]
pub struct PeerSession {
    pub peer: LocalPeer,
    pub terms: RoundTerms,
    pub stage: Stage,
}

#[verifier::ext_equal]
pub struct SessionModel {
    pub peer: PeerModel,
    pub terms: RoundTerms,
    pub stage: StageModel,
}

impl DeepView for PeerSession {
    type V = SessionModel;

    open spec fn deep_view(&self) -> SessionModel {
        SessionModel {
            peer: self.peer.deep_view(),
            terms: self.terms,
            stage: self.stage.deep_view(),
        }
    }
}

impl SessionModel {
    pub open spec fn begin(peer: PeerModel, terms: RoundTerms, now: u64) -> SessionModel {
        SessionModel {
            peer,
            terms,
            stage: StageModel::Connecting {
                deadline: now.saturating_add(terms.connect_timeout),
                next_hello_at: now,
            },
        }
    }

    pub open spec fn at(self, stage: StageModel) -> SessionModel {
        SessionModel { stage, ..self }
    }

    /// Who greeted is known with the session, and a round that is measured accounts for its
    /// probes.
    pub open spec fn sound(self) -> bool {
        &&& self.peer.peer_hello is Some ==> self.peer.session_id is Some
        &&& self.stage matches StageModel::Measuring { round, .. } ==> round.sound()
    }

    /// The session at the first round.
    pub open spec fn connected(self, now: u64) -> Result<SessionModel, Seq<char>> {
        let peer_nonce = self.peer.peer_hello->0.nonce;
        match first_initiator(self.peer.local_nonce, peer_nonce) {
            Err(e) => Err(e),
            Ok(first) => Ok(
                self.at(
                    StageModel::Measuring {
                        peer_nonce,
                        session_id: self.peer.session_id->0,
                        first_initiator_nonce: first,
                        first: None,
                        round: RoundModel::begin(
                            self.peer,
                            peer_nonce,
                            ROUND_ID_FIRST,
                            first,
                            self.terms,
                            now,
                        ),
                    },
                ),
            ),
        }
    }

    /// The result once both rounds are over.
    pub open spec fn result(
        self,
        peer_nonce: u64,
        session_id: u32,
        first_initiator_nonce: u64,
        first: MeasurementOutcome,
        second: MeasurementOutcome,
    ) -> PeerRunModel {
        let (outbound, inbound) = sorted_rounds(first, second, self.peer.local_nonce);
        PeerRunModel {
            local_port: self.peer.local_port,
            local_nonce: self.peer.local_nonce,
            peer_nonce,
            session_id,
            payload_size: self.terms.payload_size,
            probe_count: self.terms.probe_count,
            interval_ms: self.terms.spec.interval_ms,
            connect_timeout_ms: self.terms.connect_timeout_ms,
            probe_timeout_ms: self.terms.spec.probe_timeout_ms,
            first_initiator_nonce,
            outbound,
            inbound,
        }
    }

    /// The next step at a time: greet until both sides have, then the two rounds, one after the
    /// other.
    pub open spec fn polled(self, now: u64) -> Result<(SessionModel, SessionStepModel), Seq<char>> {
        match self.stage {
            StageModel::Connecting { deadline, next_hello_at } => if self.peer.connected() {
                match self.connected(now) {
                    Err(e) => Err(e),
                    Ok(next) => Ok((next, SessionStepModel::Continue)),
                }
            } else {
                match waiting(now, deadline, next_hello_at) {
                    Waiting::Expired => Err(connect_timeout_text(self.peer.local_port.port)),
                    Waiting::Wait { send, next_send_at, until } => Ok(
                        (
                            self.at(
                                StageModel::Connecting { deadline, next_hello_at: next_send_at },
                            ),
                            SessionStepModel::Wait {
                                send: if send {
                                    Some(self.peer.hello())
                                } else {
                                    None
                                },
                                until,
                            },
                        ),
                    ),
                }
            },
            StageModel::Measuring {
                peer_nonce,
                session_id,
                first_initiator_nonce,
                first,
                round,
            } => match round.polled(self.peer, now) {
                Err(e) => Err(e),
                Ok((round, step)) => {
                    let here = self.at(
                        StageModel::Measuring {
                            peer_nonce,
                            session_id,
                            first_initiator_nonce,
                            first,
                            round,
                        },
                    );
                    match step {
                        StepModel::Continue => Ok((here, SessionStepModel::Continue)),
                        StepModel::Send(frame) => Ok((here, SessionStepModel::Send(frame))),
                        StepModel::Wait { send, until } => Ok(
                            (here, SessionStepModel::Wait { send, until }),
                        ),
                        StepModel::Finished(outcome) => match first {
                            None => Ok(
                                (
                                    self.at(
                                        StageModel::Measuring {
                                            peer_nonce,
                                            session_id,
                                            first_initiator_nonce,
                                            first: Some(outcome),
                                            round: RoundModel::begin(
                                                self.peer,
                                                peer_nonce,
                                                ROUND_ID_SECOND,
                                                other_of(
                                                    first_initiator_nonce,
                                                    self.peer.local_nonce,
                                                    peer_nonce,
                                                ),
                                                self.terms,
                                                now,
                                            ),
                                        },
                                    ),
                                    SessionStepModel::Continue,
                                ),
                            ),
                            Some(earlier) => Ok(
                                (
                                    here,
                                    SessionStepModel::Finished(
                                        self.result(
                                            peer_nonce,
                                            session_id,
                                            first_initiator_nonce,
                                            earlier,
                                            outcome,
                                        ),
                                    ),
                                ),
                            ),
                        },
                    }
                },
            },
        }
    }

    /// The session after a frame, and the answer to it. Frames of the handshake are answered at
    /// any time; other frames belong to the round, if there is one.
    pub open spec fn heard(self, f: FrameModel, now: u64) -> Result<
        (SessionModel, Option<FrameModel>),
        Seq<char>,
    > {
        if PeerModel::is_handshake(f) {
            match self.peer.after_handshake(f) {
                Err(e) => Err(e),
                Ok((peer, answer)) => Ok((SessionModel { peer, ..self }, answer)),
            }
        } else {
            match self.stage {
                StageModel::Connecting { .. } => Ok((self, None)),
                StageModel::Measuring {
                    peer_nonce,
                    session_id,
                    first_initiator_nonce,
                    first,
                    round,
                } => match round.heard(self.peer, f, now) {
                    Err(e) => Err(e),
                    Ok((round, answer)) => Ok(
                        (
                            self.at(
                                StageModel::Measuring {
                                    peer_nonce,
                                    session_id,
                                    first_initiator_nonce,
                                    first,
                                    round,
                                },
                            ),
                            answer,
                        ),
                    ),
                },
            }
        }
    }
}

impl PeerSession {
    /// A session that begins at the given time.
    pub fn new(peer: LocalPeer, terms: RoundTerms, now: u64) -> (session: PeerSession)
        requires
            peer.peer_hello is Some ==> peer.session_id is Some,
        ensures
            session.deep_view() == SessionModel::begin(peer.deep_view(), terms, now),
            session.deep_view().sound(),
    {
        PeerSession {
            peer,
            terms,
            stage: Stage::Connecting {
                deadline: now.saturating_add(terms.connect_timeout),
                next_hello_at: now,
            },
        }
    }

    fn begin_rounds(&mut self, now: u64) -> (r: Result<(), String>)
        requires
            old(self).deep_view().sound(),
            old(self).deep_view().peer.connected(),
        ensures
            match viewed(r) {
                Ok(_) => old(self).deep_view().connected(now) == Ok::<SessionModel, Seq<char>>(
                    final(self).deep_view(),
                ),
                Err(e) => old(self).deep_view().connected(now) == Err::<SessionModel, Seq<char>>(e)
                    && final(self).deep_view() == old(self).deep_view(),
            },
            final(self).deep_view().sound(),
    {
        let peer_nonce: u64 = self.peer.peer_nonce()?;
        let session_id: u32 = self.peer.session_id()?;
        let first: u64 = first_initiator_nonce(self.peer.local_nonce, peer_nonce)?;
        let round = Round::run_round(
            &self.peer,
            peer_nonce,
            ROUND_ID_FIRST,
            first,
            self.terms,
            now,
        );
        self.stage = Stage::Measuring {
            peer_nonce,
            session_id,
            first_initiator_nonce: first,
            first: None,
            round,
        };
        Ok(())
    }

    fn result(
        &self,
        peer_nonce: u64,
        session_id: u32,
        first_initiator_nonce: u64,
        first: MeasurementOutcome,
        second: MeasurementOutcome,
    ) -> (r: PeerRunResult)
        ensures
            r.deep_view() == self.deep_view().result(
                peer_nonce,
                session_id,
                first_initiator_nonce,
                first,
                second,
            ),
    {
        let (outbound, inbound) = sort_rounds(first, second, self.peer.local_nonce);
        PeerRunResult {
            local_port: self.peer.local_port.duplicate(),
            local_nonce: self.peer.local_nonce,
            peer_nonce,
            session_id,
            payload_size: self.terms.payload_size,
            probe_count: self.terms.probe_count,
            interval_ms: self.terms.spec.interval_ms,
            connect_timeout_ms: self.terms.connect_timeout_ms,
            probe_timeout_ms: self.terms.spec.probe_timeout_ms,
            first_initiator_nonce,
            outbound,
            inbound,
        }
    }

    /// The next step.
    pub fn poll(&mut self, now: u64) -> (r: Result<SessionStep, String>)
        requires
            old(self).deep_view().sound(),
        ensures
            match viewed(r) {
                Ok(step) => old(self).deep_view().polled(now) == Ok::<
                    (SessionModel, SessionStepModel),
                    Seq<char>,
                >((final(self).deep_view(), step)),
                Err(e) => old(self).deep_view().polled(now) == Err::<
                    (SessionModel, SessionStepModel),
                    Seq<char>,
                >(e) && final(self).deep_view() == old(self).deep_view(),
            },
            final(self).deep_view().sound(),
    {
        match &mut self.stage {
            Stage::Connecting { deadline, next_hello_at } => {
                match self.peer.run_connectivity_check(now, *deadline, *next_hello_at)? {
                    ConnectStep::Connected => {
                        self.begin_rounds(now)?;
                        Ok(SessionStep::Continue)
                    },
                    ConnectStep::Wait { hello, next_hello_at: next, until } => {
                        *next_hello_at = next;
                        Ok(SessionStep::Wait { send: hello, until })
                    },
                }
            },
            Stage::Measuring { peer_nonce, session_id, first_initiator_nonce, first, round } => {
                let outcome = match round.poll(&self.peer, now)? {
                    RoundStep::Continue => return Ok(SessionStep::Continue),
                    RoundStep::Send(frame) => return Ok(SessionStep::Send(frame)),
                    RoundStep::Wait { send, until } => return Ok(SessionStep::Wait { send, until }),
                    RoundStep::Finished(outcome) => outcome,
                };
                match *first {
                    None => {
                        let second: u64 = other_nonce(
                            *first_initiator_nonce,
                            self.peer.local_nonce,
                            *peer_nonce,
                        );
                        *first = Some(outcome);
                        *round = Round::run_round(
                            &self.peer,
                            *peer_nonce,
                            ROUND_ID_SECOND,
                            second,
                            self.terms,
                            now,
                        );
                        Ok(SessionStep::Continue)
                    },
                    Some(earlier) => {
                        let (nonce, id, initiator): (u64, u32, u64) = (
                            *peer_nonce,
                            *session_id,
                            *first_initiator_nonce,
                        );
                        Ok(
                            SessionStep::Finished(
                                self.result(nonce, id, initiator, earlier, outcome),
                            ),
                        )
                    },
                }
            },
        }
    }

    /// Takes a frame; gives the answer to it.
    pub fn hear(&mut self, frame: &ProtocolFrame, now: u64) -> (r: Result<
        Option<ProtocolFrame>,
        String,
    >)
        requires
            old(self).deep_view().sound(),
        ensures
            match viewed(r) {
                Ok(answer) => old(self).deep_view().heard(frame.deep_view(), now) == Ok::<
                    (SessionModel, Option<FrameModel>),
                    Seq<char>,
                >((final(self).deep_view(), answer)),
                Err(e) => old(self).deep_view().heard(frame.deep_view(), now) == Err::<
                    (SessionModel, Option<FrameModel>),
                    Seq<char>,
                >(e) && final(self).deep_view() == old(self).deep_view(),
            },
            final(self).deep_view().sound(),
    {
        match self.peer.handle_hello_or_ack(frame)? {
            Handshake::Noted => Ok(None),
            Handshake::Answer(answer) => Ok(Some(answer)),
            Handshake::Other => match &mut self.stage {
                Stage::Connecting { .. } => Ok(None),
                Stage::Measuring { round, .. } => round.hear(&self.peer, frame, now),
            },
        }
    }
}

/// Two peers that have connected to each other take turns: in each round one measures and the
/// other answers, and who measured in the first round answers in the second.
pub proof fn law_peers_take_turns(a: SessionModel, b: SessionModel, now: u64, later: u64)
    requires
        a.peer.local_nonce != b.peer.local_nonce,
        a.peer.peer_hello matches Some(hello) && hello.nonce == b.peer.local_nonce,
        b.peer.peer_hello matches Some(hello) && hello.nonce == a.peer.local_nonce,
    ensures
        a.connected(now) is Ok,
        b.connected(now) is Ok,
        ({
            let first = a.connected(now)->Ok_0.stage->first_initiator_nonce;
            let second_a = other_of(first, a.peer.local_nonce, b.peer.local_nonce);
            let second_b = other_of(first, b.peer.local_nonce, a.peer.local_nonce);
            let a_first = a.connected(now)->Ok_0.stage->round;
            let b_first = b.connected(now)->Ok_0.stage->round;
            let a_second = RoundModel::begin(
                a.peer,
                b.peer.local_nonce,
                ROUND_ID_SECOND,
                second_a,
                a.terms,
                later,
            );
            let b_second = RoundModel::begin(
                b.peer,
                a.peer.local_nonce,
                ROUND_ID_SECOND,
                second_b,
                b.terms,
                later,
            );
            &&& b.connected(now)->Ok_0.stage->first_initiator_nonce == first
            &&& a_first is Measuring <==> b_first is Answering
            &&& a_second is Measuring <==> b_second is Answering
            &&& a_first is Measuring <==> a_second is Answering
        }),
{
}

} // verus!

//! `xbee-rtt`: what a peer decides while it connects and measures.
//!
//! The caller owns the serial port and the clock. It hands received frames and the time in
//! nanoseconds in, and is told what to send, how long to wait, and how things ended.
use crate::bytes::{bytes_equal, sub_bytes};
use crate::rtt::{
    derive_session_id, session_of, law_session_is_symmetric, MeasurementOutcome, ResolvedPortModel,
    ResolvedXbeeRttPort,
};
use crate::rtt_report::{format_spec, round_label, round_name, spec_text};
use crate::rtt_wire::{
    FrameKind, FrameModel, HelloAckWire, HelloWire, MeasurementSpecWire, MeasurementSummaryWire,
    ProtocolFrame, FRAME_OVERHEAD_BYTES,
};
use crate::text::{cat2, cat3, cat4, cat5, decimal, decimal_text, hex_fixed, hex_text, viewed};
use vstd::prelude::*;
use vstd::string::*;

verus! {

/// How often a frame that waits for an answer is sent again: 200 ms, in nanoseconds.
pub const CONTROL_RETRY_INTERVAL: u64 = 200_000_000;

// ---------------------------------------------------------------------------
// The peer
// ---------------------------------------------------------------------------

/// What a peer knows of itself and of the other side.
#[derive(Debug)]
pub struct LocalPeer {
    pub local_port: ResolvedXbeeRttPort,
    pub local_nonce: u64,
    pub local_spec: MeasurementSpecWire,
    pub peer_hello: Option<HelloWire>,
    pub hello_acked: bool,
    pub session_id: Option<u32>,
}

#[verifier::ext_equal]
pub struct PeerModel {
    pub local_port: ResolvedPortModel,
    pub local_nonce: u64,
    pub local_spec: MeasurementSpecWire,
    pub peer_hello: Option<HelloWire>,
    pub hello_acked: bool,
    pub session_id: Option<u32>,
}

impl DeepView for LocalPeer {
    type V = PeerModel;

    open spec fn deep_view(&self) -> PeerModel {
        PeerModel {
            local_port: self.local_port.deep_view(),
            local_nonce: self.local_nonce,
            local_spec: self.local_spec,
            peer_hello: self.peer_hello,
            hello_acked: self.hello_acked,
            session_id: self.session_id,
        }
    }
}

/// A frame of the handshake.
pub open spec fn handshake_frame(kind: FrameKind, payload: Seq<u8>) -> FrameModel {
    FrameModel { kind, session_id: 0, round_id: 0, seq: 0, payload }
}

/// `0x` and sixteen hexadecimal digits.
pub open spec fn nonce_text(nonce: u64) -> Seq<char> {
    "0x"@ + hex_fixed(nonce as nat, 16)
}

fn format_nonce(nonce: u64) -> (r: String)
    ensures
        r@ == nonce_text(nonce),
{
    cat2("0x", hex_text(nonce, 16).as_str())
}

#[verifier::opaque]
pub open spec fn collision_text(port: Seq<char>, nonce: u64) -> Seq<char> {
    "xbee-rtt nonce collision on "@ + port + " ("@ + nonce_text(nonce) + "); rerun the command"@
}

#[verifier::opaque]
pub open spec fn mismatch_text(
    what: Seq<char>,
    port: Seq<char>,
    local: MeasurementSpecWire,
    peer: MeasurementSpecWire,
) -> Seq<char> {
    "xbee-rtt "@ + what + " mismatch on "@ + port + ": local="@ + spec_text(local) + " peer="@
        + spec_text(peer)
}

#[verifier::opaque]
pub open spec fn several_peers_text(port: Seq<char>, first: u64, second: u64) -> Seq<char> {
    "xbee-rtt received HELLO from multiple peers on "@ + port + " ("@ + nonce_text(first) + " and "@
        + nonce_text(second) + ")"@
}

fn collision_message(port: &str, nonce: u64) -> (r: String)
    ensures
        r@ == collision_text(port@, nonce),
{
    reveal(collision_text);
    cat5(
        "xbee-rtt nonce collision on ",
        port,
        " (",
        format_nonce(nonce).as_str(),
        "); rerun the command",
    )
}

fn mismatch_message(
    what: &str,
    port: &str,
    local: MeasurementSpecWire,
    peer: MeasurementSpecWire,
) -> (r: String)
    ensures
        r@ == mismatch_text(what@, port@, local, peer),
{
    reveal(mismatch_text);
    let mut s = cat5("xbee-rtt ", what, " mismatch on ", port, ": local=");
    s.append(format_spec(local).as_str());
    s.append(" peer=");
    s.append(format_spec(peer).as_str());
    s
}

fn several_peers_message(port: &str, first: u64, second: u64) -> (r: String)
    ensures
        r@ == several_peers_text(port@, first, second),
{
    reveal(several_peers_text);
    let mut s = cat4(
        "xbee-rtt received HELLO from multiple peers on ",
        port,
        " (",
        format_nonce(first).as_str(),
    );
    s.append(" and ");
    s.append(format_nonce(second).as_str());
    s.append(")");
    s
}

impl PeerModel {
    /// The greeting that this peer sends.
    pub open spec fn hello(self) -> FrameModel {
        handshake_frame(
            FrameKind::Hello,
            (HelloWire { nonce: self.local_nonce, spec: self.local_spec }).wire(),
        )
    }

    /// The peer after the greeting of another one. Its nonce must differ, its settings must be
    /// the same, and no other peer may have greeted before.
    pub open spec fn greeted(self, hello: HelloWire) -> Result<PeerModel, Seq<char>> {
        if hello.nonce == self.local_nonce {
            Err(collision_text(self.local_port.port, self.local_nonce))
        } else if hello.spec != self.local_spec {
            Err(
                mismatch_text("option"@, self.local_port.port, self.local_spec, hello.spec),
            )
        } else if self.peer_hello is Some && self.peer_hello->0.nonce != hello.nonce {
            Err(
                several_peers_text(
                    self.local_port.port,
                    self.peer_hello->0.nonce,
                    hello.nonce,
                ),
            )
        } else {
            Ok(
                PeerModel {
                    session_id: Some(session_of(self.local_nonce, hello.nonce)),
                    peer_hello: Some(hello),
                    ..self
                },
            )
        }
    }

    /// The frame belongs to the handshake.
    pub open spec fn is_handshake(f: FrameModel) -> bool {
        &&& f.session_id == 0
        &&& f.round_id == 0
        &&& f.seq == 0
        &&& f.kind == FrameKind::Hello || f.kind == FrameKind::HelloAck
    }

    /// The peer after a frame of the handshake, and the answer to send.
    pub open spec fn after_handshake(self, f: FrameModel) -> Result<
        (PeerModel, Option<FrameModel>),
        Seq<char>,
    > {
        if f.kind == FrameKind::Hello {
            match HelloWire::read(f.payload) {
                Err(e) => Err(e),
                Ok(hello) => match self.greeted(hello) {
                    Err(e) => Err(e),
                    Ok(next) => Ok(
                        (
                            next,
                            Some(
                                handshake_frame(
                                    FrameKind::HelloAck,
                                    (HelloAckWire { ack_nonce: hello.nonce }).wire(),
                                ),
                            ),
                        ),
                    ),
                },
            }
        } else {
            match HelloAckWire::read(f.payload) {
                Err(e) => Err(e),
                Ok(ack) => Ok(
                    (
                        PeerModel {
                            hello_acked: self.hello_acked || ack.ack_nonce == self.local_nonce,
                            ..self
                        },
                        None,
                    ),
                ),
            }
        }
    }

    /// Both directions of the handshake are done.
    pub open spec fn connected(self) -> bool {
        self.peer_hello is Some && self.hello_acked
    }

    /// The frame belongs to this session and this round.
    pub open spec fn in_round(self, f: FrameModel, round_id: u8) -> bool {
        self.session_id == Some(f.session_id) && f.round_id == round_id
    }

    /// A frame of the session.
    pub open spec fn session_frame(
        self,
        round_id: u8,
        seq: u16,
        kind: FrameKind,
        payload: Seq<u8>,
    ) -> Result<FrameModel, Seq<char>> {
        match self.session_id {
            Some(session_id) => Ok(FrameModel { kind, session_id, round_id, seq, payload }),
            None => Err("xbee-rtt internal error: session_id is not ready"@),
        }
    }
}

/// What a received frame means for the handshake.
#[derive(Debug)]
pub enum Handshake {
    /// Nothing: the frame belongs to something else.
    Other,
    /// It was noted, and there is nothing to answer.
    Noted,
    /// It was noted, and this is the answer.
    Answer(ProtocolFrame),
}

impl LocalPeer {
    pub fn new(local_port: ResolvedXbeeRttPort, local_nonce: u64, local_spec: MeasurementSpecWire) -> (
    peer: LocalPeer)
        ensures
            peer.deep_view() == (PeerModel {
                local_port: local_port.deep_view(),
                local_nonce,
                local_spec,
                peer_hello: None,
                hello_acked: false,
                session_id: None,
            }),
    {
        LocalPeer {
            local_port,
            local_nonce,
            local_spec,
            peer_hello: None,
            hello_acked: false,
            session_id: None,
        }
    }

    pub fn observe_peer_hello(&mut self, hello: HelloWire) -> (r: Result<(), String>)
        ensures
            match r {
                Ok(()) => old(self).deep_view().greeted(hello) == Ok::<PeerModel, Seq<char>>(
                    final(self).deep_view(),
                ),
                Err(e) => old(self).deep_view().greeted(hello) == Err::<PeerModel, Seq<char>>(e@)
                    && final(self).deep_view() == old(self).deep_view(),
            },
    {
        if hello.nonce == self.local_nonce {
            return Err(collision_message(self.local_port.port.as_str(), self.local_nonce));
        }
        if hello.spec != self.local_spec {
            return Err(
                mismatch_message(
                    "option",
                    self.local_port.port.as_str(),
                    self.local_spec,
                    hello.spec,
                ),
            );
        }
        if let Some(existing) = self.peer_hello {
            if existing.nonce != hello.nonce {
                return Err(
                    several_peers_message(
                        self.local_port.port.as_str(),
                        existing.nonce,
                        hello.nonce,
                    ),
                );
            }
        }
        self.session_id = Some(derive_session_id(self.local_nonce, hello.nonce));
        self.peer_hello = Some(hello);
        Ok(())
    }

    /// Notes what a received frame says of the handshake.
    pub fn handle_hello_or_ack(&mut self, frame: &ProtocolFrame) -> (r: Result<Handshake, String>)
        ensures
            !PeerModel::is_handshake(frame.deep_view()) ==> r == Ok::<Handshake, String>(
                Handshake::Other,
            ) && final(self).deep_view() == old(self).deep_view(),
            PeerModel::is_handshake(frame.deep_view()) ==> match r {
                Ok(Handshake::Other) => false,
                Ok(Handshake::Noted) => old(self).deep_view().after_handshake(frame.deep_view())
                    == Ok::<(PeerModel, Option<FrameModel>), Seq<char>>(
                    (final(self).deep_view(), None),
                ),
                Ok(Handshake::Answer(answer)) => old(self).deep_view().after_handshake(
                    frame.deep_view(),
                ) == Ok::<(PeerModel, Option<FrameModel>), Seq<char>>(
                    (final(self).deep_view(), Some(answer.deep_view())),
                ),
                Err(e) => old(self).deep_view().after_handshake(frame.deep_view()) == Err::<
                    (PeerModel, Option<FrameModel>),
                    Seq<char>,
                >(e@) && final(self).deep_view() == old(self).deep_view(),
            },
    {
        if frame.session_id != 0 || frame.round_id != 0 || frame.seq != 0 {
            return Ok(Handshake::Other);
        }
        match frame.kind {
            FrameKind::Hello => {
                let hello = HelloWire::decode(frame.payload.as_slice())?;
                self.observe_peer_hello(hello)?;
                Ok(Handshake::Answer(LocalPeer::hello_ack(hello.nonce)))
            },
            FrameKind::HelloAck => {
                let ack = HelloAckWire::decode(frame.payload.as_slice())?;
                if ack.ack_nonce == self.local_nonce {
                    self.hello_acked = true;
                }
                Ok(Handshake::Noted)
            },
            _ => Ok(Handshake::Other),
        }
    }

    /// The greeting to send.
    pub fn send_hello(&self) -> (frame: ProtocolFrame)
        ensures
            frame.deep_view() == self.deep_view().hello(),
    {
        let hello = HelloWire { nonce: self.local_nonce, spec: self.local_spec };
        ProtocolFrame {
            kind: FrameKind::Hello,
            session_id: 0,
            round_id: 0,
            seq: 0,
            payload: hello.encode(),
        }
    }

    fn hello_ack(ack_nonce: u64) -> (frame: ProtocolFrame)
        ensures
            frame.deep_view() == handshake_frame(
                FrameKind::HelloAck,
                (HelloAckWire { ack_nonce }).wire(),
            ),
    {
        let ack = HelloAckWire { ack_nonce };
        ProtocolFrame {
            kind: FrameKind::HelloAck,
            session_id: 0,
            round_id: 0,
            seq: 0,
            payload: ack.encode(),
        }
    }

    pub fn is_connected(&self) -> (r: bool)
        ensures
            r == self.deep_view().connected(),
    {
        self.peer_hello.is_some() && self.hello_acked
    }

    pub fn matches_session(&self, frame: &ProtocolFrame) -> (r: bool)
        ensures
            r == (self.session_id == Some(frame.session_id)),
    {
        match self.session_id {
            Some(id) => id == frame.session_id,
            None => false,
        }
    }

    pub fn matches_round(&self, frame: &ProtocolFrame, round_id: u8) -> (r: bool)
        ensures
            r == self.deep_view().in_round(frame.deep_view(), round_id),
    {
        self.matches_session(frame) && frame.round_id == round_id
    }

    pub fn session_id(&self) -> (r: Result<u32, String>)
        ensures
            viewed(r) == (match self.session_id {
                Some(id) => Ok(id),
                None => Err("xbee-rtt internal error: session_id is not ready"@),
            }),
    {
        match self.session_id {
            Some(id) => Ok(id),
            None => Err("xbee-rtt internal error: session_id is not ready".to_owned()),
        }
    }

    pub fn peer_nonce(&self) -> (r: Result<u64, String>)
        ensures
            viewed(r) == (match self.peer_hello {
                Some(hello) => Ok(hello.nonce),
                None => Err("xbee-rtt internal error: peer hello is not ready"@),
            }),
    {
        match self.peer_hello {
            Some(hello) => Ok(hello.nonce),
            None => Err("xbee-rtt internal error: peer hello is not ready".to_owned()),
        }
    }

    pub fn local_nonce_hex(&self) -> (r: String)
        ensures
            r@ == nonce_text(self.local_nonce),
    {
        format_nonce(self.local_nonce)
    }

    pub fn send_session_frame(&self, round_id: u8, seq: u16, kind: FrameKind, payload: Vec<u8>) -> (
    r: Result<ProtocolFrame, String>)
        ensures
            viewed(r) == self.deep_view().session_frame(round_id, seq, kind, payload@),
    {
        let session_id: u32 = self.session_id()?;
        Ok(ProtocolFrame { kind, session_id, round_id, seq, payload })
    }

    /// The frame that asks the peer to start a round.
    pub fn send_measure_start(&self, round_id: u8, spec: MeasurementSpecWire) -> (r: Result<
        ProtocolFrame,
        String,
    >)
        ensures
            viewed(r) == self.deep_view().session_frame(
                round_id,
                0,
                FrameKind::MeasureStart,
                spec.wire(),
            ),
    {
        self.send_session_frame(round_id, 0, FrameKind::MeasureStart, spec.encode())
    }

    /// A probe.
    pub fn send_probe(&self, round_id: u8, seq: u16, payload: Vec<u8>) -> (r: Result<
        ProtocolFrame,
        String,
    >)
        ensures
            viewed(r) == self.deep_view().session_frame(round_id, seq, FrameKind::Probe, payload@),
    {
        self.send_session_frame(round_id, seq, FrameKind::Probe, payload)
    }

    /// The frame that reports the result of a round.
    pub fn send_result(&self, round_id: u8, summary: MeasurementSummaryWire) -> (r: Result<
        ProtocolFrame,
        String,
    >)
        ensures
            viewed(r) == self.deep_view().session_frame(
                round_id,
                0,
                FrameKind::Result,
                summary.wire(),
            ),
    {
        self.send_session_frame(round_id, 0, FrameKind::Result, summary.encode())
    }
}

/// Two peers with different nonces and the same settings that greet each other get the same
/// session, and each knows the nonce of the other.
pub proof fn law_greetings_make_one_session(a: PeerModel, b: PeerModel)
    requires
        a.local_nonce != b.local_nonce,
        a.local_spec == b.local_spec,
        a.peer_hello is None,
        b.peer_hello is None,
    ensures
        ({
            let to_a = a.after_handshake(b.hello());
            let to_b = b.after_handshake(a.hello());
            &&& to_a is Ok
            &&& to_b is Ok
            &&& to_a->Ok_0.0.session_id == to_b->Ok_0.0.session_id
            &&& to_a->Ok_0.0.session_id is Some
            &&& to_a->Ok_0.0.peer_hello->0.nonce == b.local_nonce
            &&& to_b->Ok_0.0.peer_hello->0.nonce == a.local_nonce
        }),
{
    (HelloWire { nonce: a.local_nonce, spec: a.local_spec }).law_round_trip();
    (HelloWire { nonce: b.local_nonce, spec: b.local_spec }).law_round_trip();
    law_session_is_symmetric(a.local_nonce, b.local_nonce);
}

/// Once two such peers have greeted each other, the answers to the greetings connect both.
pub proof fn law_answers_connect(a: PeerModel, b: PeerModel)
    requires
        a.local_nonce != b.local_nonce,
        a.local_spec == b.local_spec,
        a.peer_hello is None,
        b.peer_hello is None,
    ensures
        ({
            let to_a = a.after_handshake(b.hello())->Ok_0;
            let to_b = b.after_handshake(a.hello())->Ok_0;
            &&& to_a.1 is Some
            &&& to_b.1 is Some
            &&& to_a.0.after_handshake(to_b.1->0) is Ok
            &&& to_b.0.after_handshake(to_a.1->0) is Ok
            &&& to_a.0.after_handshake(to_b.1->0)->Ok_0.0.connected()
            &&& to_b.0.after_handshake(to_a.1->0)->Ok_0.0.connected()
        }),
{
    law_greetings_make_one_session(a, b);
    (HelloWire { nonce: a.local_nonce, spec: a.local_spec }).law_round_trip();
    (HelloWire { nonce: b.local_nonce, spec: b.local_spec }).law_round_trip();
    (HelloAckWire { ack_nonce: a.local_nonce }).law_round_trip();
    (HelloAckWire { ack_nonce: b.local_nonce }).law_round_trip();
}

// ---------------------------------------------------------------------------
// Waiting
// ---------------------------------------------------------------------------

/// What to do while an answer is awaited: give up, or send where it is time, and wait.
#[derive(Debug, Clone, Copy, PartialEq, Eq, Structural)]
pub enum Waiting {
    Expired,
    Wait {
        /// Whether to send now.
        send: bool,
        /// When to send the next time.
        next_send_at: u64,
        /// Until when to wait for a frame.
        until: u64,
    },
}

pub open spec fn earlier(a: u64, b: u64) -> u64 {
    if a < b {
        a
    } else {
        b
    }
}

/// Give up at the deadline; until then send at `next_send_at` and again after each interval.
pub open spec fn waiting(now: u64, deadline: u64, next_send_at: u64) -> Waiting {
    if now >= deadline {
        Waiting::Expired
    } else {
        let next = if now >= next_send_at {
            now.saturating_add(CONTROL_RETRY_INTERVAL)
        } else {
            next_send_at
        };
        Waiting::Wait {
            send: now >= next_send_at,
            next_send_at: next,
            until: earlier(next, deadline),
        }
    }
}

pub fn control_step(now: u64, deadline: u64, next_send_at: u64) -> (step: Waiting)
    ensures
        step == waiting(now, deadline, next_send_at),
{
    if now >= deadline {
        return Waiting::Expired;
    }
    let send = now >= next_send_at;
    let next: u64 = if send {
        now.saturating_add(CONTROL_RETRY_INTERVAL)
    } else {
        next_send_at
    };
    let until: u64 = if next < deadline {
        next
    } else {
        deadline
    };
    Waiting::Wait { send, next_send_at: next, until }
}

/// A wait never passes the deadline, and is over before the next time to send.
pub proof fn law_waits_end(now: u64, deadline: u64, next_send_at: u64)
    ensures
        waiting(now, deadline, next_send_at) matches Waiting::Wait { send, next_send_at: n, until }
            ==> now < until <= deadline && until <= n && (send <==> now >= next_send_at),
        waiting(now, deadline, next_send_at) is Expired <==> now >= deadline,
{
}

/// How the handshake goes on.
#[derive(Debug)]
pub enum ConnectStep {
    Connected,
    Wait {
        /// The greeting to send now.
        hello: Option<ProtocolFrame>,
        next_hello_at: u64,
        until: u64,
    },
}

#[verifier::opaque]
pub open spec fn connect_timeout_text(port: Seq<char>) -> Seq<char> {
    "xbee-rtt connectivity check timed out on "@ + port
        + " before the peer handshake completed"@
}

impl LocalPeer {
    /// Decides how the handshake goes on at the given time.
    pub fn run_connectivity_check(&self, now: u64, deadline: u64, next_hello_at: u64) -> (r: Result<
        ConnectStep,
        String,
    >)
        ensures
            match r {
                Ok(ConnectStep::Connected) => self.deep_view().connected(),
                Ok(ConnectStep::Wait { hello, next_hello_at: next, until }) => {
                    &&& !self.deep_view().connected()
                    &&& waiting(now, deadline, next_hello_at) == (Waiting::Wait {
                        send: hello is Some,
                        next_send_at: next,
                        until,
                    })
                    &&& hello matches Some(frame) ==> frame.deep_view() == self.deep_view().hello()
                },
                Err(e) => !self.deep_view().connected() && now >= deadline && e@
                    == connect_timeout_text(self.local_port.port@),
            },
    {
        if self.is_connected() {
            return Ok(ConnectStep::Connected);
        }
        match control_step(now, deadline, next_hello_at) {
            Waiting::Expired => {
                reveal(connect_timeout_text);
                Err(
                    cat3(
                        "xbee-rtt connectivity check timed out on ",
                        self.local_port.port.as_str(),
                        " before the peer handshake completed",
                    ),
                )
            },
            Waiting::Wait { send, next_send_at, until } => {
                let hello = if send {
                    Some(self.send_hello())
                } else {
                    None
                };
                Ok(ConnectStep::Wait { hello, next_hello_at: next_send_at, until })
            },
        }
    }
}

#[verifier::opaque]
pub open spec fn sync_timeout_text(round_id: u8, port: Seq<char>, limit_ms: u32) -> Seq<char> {
    "xbee-rtt failed to synchronize "@ + round_name(round_id) + " on "@ + port + " within "@
        + decimal(limit_ms as nat) + " ms"@
}

#[verifier::opaque]
pub open spec fn result_timeout_text(round_id: u8, port: Seq<char>, limit_ms: u32) -> Seq<char> {
    "xbee-rtt failed to exchange "@ + round_name(round_id) + " result on "@ + port + " within "@
        + decimal(limit_ms as nat) + " ms"@
}

#[verifier::opaque]
pub open spec fn round_timeout_text(round_id: u8, port: Seq<char>) -> Seq<char> {
    "xbee-rtt timed out on "@ + port + " while waiting for the peer to finish "@ + round_name(
        round_id,
    )
}

impl LocalPeer {
    /// The message when the peer did not confirm the start of a round.
    pub fn measure_ack_timeout(&self, round_id: u8, connect_timeout_ms: u32) -> (r: String)
        ensures
            r@ == sync_timeout_text(round_id, self.local_port.port@, connect_timeout_ms),
    {
        reveal(sync_timeout_text);
        let mut s = cat5(
            "xbee-rtt failed to synchronize ",
            round_label(round_id),
            " on ",
            self.local_port.port.as_str(),
            " within ",
        );
        s.append(decimal_text(connect_timeout_ms as u64).as_str());
        s.append(" ms");
        s
    }

    /// The message when the peer did not confirm a result.
    pub fn result_ack_timeout(&self, round_id: u8, connect_timeout_ms: u32) -> (r: String)
        ensures
            r@ == result_timeout_text(round_id, self.local_port.port@, connect_timeout_ms),
    {
        reveal(result_timeout_text);
        let mut s = cat5(
            "xbee-rtt failed to exchange ",
            round_label(round_id),
            " result on ",
            self.local_port.port.as_str(),
            " within ",
        );
        s.append(decimal_text(connect_timeout_ms as u64).as_str());
        s.append(" ms");
        s
    }

    /// The message when the peer did not finish a round.
    pub fn round_timeout(&self, round_id: u8) -> (r: String)
        ensures
            r@ == round_timeout_text(round_id, self.local_port.port@),
    {
        reveal(round_timeout_text);
        cat4(
            "xbee-rtt timed out on ",
            self.local_port.port.as_str(),
            " while waiting for the peer to finish ",
            round_label(round_id),
        )
    }

    /// Whether a frame confirms the start of the round.
    pub fn wait_for_measure_ack(&self, frame: &ProtocolFrame, round_id: u8) -> (r: bool)
        ensures
            r == (self.deep_view().in_round(frame.deep_view(), round_id) && frame.kind
                == FrameKind::MeasureAck),
    {
        self.matches_round(frame, round_id) && frame.kind == FrameKind::MeasureAck
    }

    /// Whether a frame confirms the result of the round.
    pub fn wait_for_result_ack(&self, frame: &ProtocolFrame, round_id: u8) -> (r: bool)
        ensures
            r == (self.deep_view().in_round(frame.deep_view(), round_id) && frame.kind
                == FrameKind::ResultAck),
    {
        self.matches_round(frame, round_id) && frame.kind == FrameKind::ResultAck
    }

    /// Whether a frame answers the probe, and where it does, whether with the same payload.
    pub fn wait_for_probe_echo(
        &self,
        frame: &ProtocolFrame,
        round_id: u8,
        seq: u16,
        payload: &Vec<u8>,
    ) -> (r: Option<bool>)
        ensures
            r == probe_answer(self.deep_view(), frame.deep_view(), round_id, seq, payload@),
    {
        if self.matches_round(frame, round_id) && frame.kind == FrameKind::ProbeEcho && frame.seq
            == seq {
            Some(bytes_equal(frame.payload.as_slice(), payload.as_slice()))
        } else {
            None
        }
    }
}

/// Whether a frame answers a probe, and where it does, whether with the same payload.
pub open spec fn probe_answer(
    peer: PeerModel,
    f: FrameModel,
    round_id: u8,
    seq: u16,
    payload: Seq<u8>,
) -> Option<bool> {
    if peer.in_round(f, round_id) && f.kind == FrameKind::ProbeEcho && f.seq == seq {
        Some(f.payload == payload)
    } else {
        None
    }
}

// ---------------------------------------------------------------------------
// Answering a round
// ---------------------------------------------------------------------------

/// What the answering side does with a frame of the round.
#[derive(Debug)]
pub enum ResponderStep {
    Ignore,
    /// The round starts: send this, and wait as long as a round may take.
    Start(ProtocolFrame),
    /// Send the probe back.
    Echo(ProtocolFrame),
    /// The round is over: send this; the peer measured this.
    Finish(ProtocolFrame, MeasurementSummaryWire),
}

/// What the answering side does, by models.
pub enum ResponderModel {
    Ignore,
    Start(FrameModel),
    Echo(FrameModel),
    Finish(FrameModel, MeasurementSummaryWire),
}

impl DeepView for ResponderStep {
    type V = ResponderModel;

    open spec fn deep_view(&self) -> ResponderModel {
        match self {
            ResponderStep::Ignore => ResponderModel::Ignore,
            ResponderStep::Start(frame) => ResponderModel::Start(frame.deep_view()),
            ResponderStep::Echo(frame) => ResponderModel::Echo(frame.deep_view()),
            ResponderStep::Finish(frame, summary) => ResponderModel::Finish(
                frame.deep_view(),
                *summary,
            ),
        }
    }
}

#[verifier::opaque]
pub open spec fn inconsistent_text(
    port: Seq<char>,
    spec: MeasurementSpecWire,
    summary: MeasurementSummaryWire,
) -> Seq<char> {
    "xbee-rtt received inconsistent result metadata on "@ + port + ": expected="@ + spec_text(spec)
        + " peer=payload="@ + decimal(summary.payload_size as nat) + "B,count="@ + decimal(
        summary.probe_count as nat,
    )
}

/// A summary must speak of the agreed payload and count.
pub open spec fn summary_checked(
    summary: MeasurementSummaryWire,
    spec: MeasurementSpecWire,
    port: Seq<char>,
) -> Result<(), Seq<char>> {
    if summary.payload_size != spec.payload_size || summary.probe_count != spec.probe_count {
        Err(inconsistent_text(port, spec, summary))
    } else {
        Ok(())
    }
}

pub fn validate_summary(summary: MeasurementSummaryWire, spec: MeasurementSpecWire, port: &str) -> (r:
    Result<(), String>)
    ensures
        viewed(r) == summary_checked(summary, spec, port@),
{
    if summary.payload_size != spec.payload_size || summary.probe_count != spec.probe_count {
        reveal(inconsistent_text);
        let mut s = cat5(
            "xbee-rtt received inconsistent result metadata on ",
            port,
            ": expected=",
            format_spec(spec).as_str(),
            " peer=payload=",
        );
        s.append(decimal_text(summary.payload_size as u64).as_str());
        s.append("B,count=");
        s.append(decimal_text(summary.probe_count as u64).as_str());
        return Err(s);
    }
    Ok(())
}

/// What the answering side does with a frame that is not of the handshake. Before the round has
/// started only its start counts; after that probes of the agreed length are sent back, and the
/// result ends the round.
pub open spec fn responder_step(
    peer: PeerModel,
    f: FrameModel,
    round_id: u8,
    spec: MeasurementSpecWire,
    payload_size: nat,
    started: bool,
) -> Result<ResponderModel, Seq<char>> {
    if !peer.in_round(f, round_id) {
        Ok(ResponderModel::Ignore)
    } else if f.kind == FrameKind::MeasureStart {
        match MeasurementSpecWire::read(f.payload) {
            Err(e) => Err(e),
            Ok(asked) => if asked != spec {
                Err(mismatch_text("round spec"@, peer.local_port.port, spec, asked))
            } else {
                Ok(
                    ResponderModel::Start(
                        peer.session_frame(round_id, 0, FrameKind::MeasureAck, seq![])->Ok_0,
                    ),
                )
            },
        }
    } else if f.kind == FrameKind::Probe && started && f.payload.len() == payload_size {
        Ok(
            ResponderModel::Echo(
                peer.session_frame(round_id, f.seq, FrameKind::ProbeEcho, f.payload)->Ok_0,
            ),
        )
    } else if f.kind == FrameKind::Result && started {
        match MeasurementSummaryWire::read(f.payload) {
            Err(e) => Err(e),
            Ok(summary) => match summary_checked(summary, spec, peer.local_port.port) {
                Err(e) => Err(e),
                Ok(()) => Ok(
                    ResponderModel::Finish(
                        peer.session_frame(round_id, 0, FrameKind::ResultAck, seq![])->Ok_0,
                        summary,
                    ),
                ),
            },
        }
    } else {
        Ok(ResponderModel::Ignore)
    }
}

impl LocalPeer {
    /// Decides what the answering side does with a frame that is not of the handshake.
    pub fn run_responder_round(
        &self,
        frame: &ProtocolFrame,
        round_id: u8,
        expected_spec: MeasurementSpecWire,
        payload_size: usize,
        round_started: bool,
    ) -> (r: Result<ResponderStep, String>)
        ensures
            viewed(r) == responder_step(
                self.deep_view(),
                frame.deep_view(),
                round_id,
                expected_spec,
                payload_size as nat,
                round_started,
            ),
    {
        if !self.matches_round(frame, round_id) {
            return Ok(ResponderStep::Ignore);
        }
        match frame.kind {
            FrameKind::MeasureStart => {
                let spec = MeasurementSpecWire::decode(frame.payload.as_slice())?;
                if spec != expected_spec {
                    return Err(
                        mismatch_message(
                            "round spec",
                            self.local_port.port.as_str(),
                            expected_spec,
                            spec,
                        ),
                    );
                }
                let answer = self.send_session_frame(
                    round_id,
                    0,
                    FrameKind::MeasureAck,
                    Vec::new(),
                )?;
                Ok(ResponderStep::Start(answer))
            },
            FrameKind::Probe => {
                if round_started && frame.payload.len() == payload_size {
                    let payload = sub_bytes(frame.payload.as_slice(), 0, frame.payload.len());
                    assert(payload@ =~= frame.payload@);
                    let answer = self.send_session_frame(
                        round_id,
                        frame.seq,
                        FrameKind::ProbeEcho,
                        payload,
                    )?;
                    Ok(ResponderStep::Echo(answer))
                } else {
                    Ok(ResponderStep::Ignore)
                }
            },
            FrameKind::Result => {
                if round_started {
                    let summary = MeasurementSummaryWire::decode(frame.payload.as_slice())?;
                    validate_summary(summary, expected_spec, self.local_port.port.as_str())?;
                    let answer = self.send_session_frame(
                        round_id,
                        0,
                        FrameKind::ResultAck,
                        Vec::new(),
                    )?;
                    Ok(ResponderStep::Finish(answer, summary))
                } else {
                    Ok(ResponderStep::Ignore)
                }
            },
            _ => Ok(ResponderStep::Ignore),
        }
    }
}

/// A probe of the agreed length comes back from the answering side unchanged, and the measuring
/// side takes it for its answer.
pub proof fn law_probe_comes_back(
    a: PeerModel,
    b: PeerModel,
    round_id: u8,
    seq: u16,
    spec: MeasurementSpecWire,
    payload: Seq<u8>,
)
    requires
        a.session_id is Some,
        a.session_id == b.session_id,
    ensures
        ({
            let probe = a.session_frame(round_id, seq, FrameKind::Probe, payload)->Ok_0;
            let step = responder_step(b, probe, round_id, spec, payload.len(), true);
            &&& step matches Ok(ResponderModel::Echo(echo))
            &&& probe_answer(a, echo, round_id, seq, payload) == Some(true)
        }),
{
}

// ---------------------------------------------------------------------------
// Results
// ---------------------------------------------------------------------------

/// What one peer found out in both rounds.
#[derive(Debug, PartialEq, Eq)]
pub struct PeerRunResult {
    pub local_port: ResolvedXbeeRttPort,
    pub local_nonce: u64,
    pub peer_nonce: u64,
    pub session_id: u32,
    pub payload_size: usize,
    pub probe_count: u16,
    pub interval_ms: u32,
    pub connect_timeout_ms: u32,
    pub probe_timeout_ms: u32,
    pub first_initiator_nonce: u64,
    pub outbound: MeasurementOutcome,
    pub inbound: MeasurementOutcome,
}

#[verifier::ext_equal]
pub struct PeerRunModel {
    pub local_port: ResolvedPortModel,
    pub local_nonce: u64,
    pub peer_nonce: u64,
    pub session_id: u32,
    pub payload_size: usize,
    pub probe_count: u16,
    pub interval_ms: u32,
    pub connect_timeout_ms: u32,
    pub probe_timeout_ms: u32,
    pub first_initiator_nonce: u64,
    pub outbound: MeasurementOutcome,
    pub inbound: MeasurementOutcome,
}

impl DeepView for PeerRunResult {
    type V = PeerRunModel;

    open spec fn deep_view(&self) -> PeerRunModel {
        PeerRunModel {
            local_port: self.local_port.deep_view(),
            local_nonce: self.local_nonce,
            peer_nonce: self.peer_nonce,
            session_id: self.session_id,
            payload_size: self.payload_size,
            probe_count: self.probe_count,
            interval_ms: self.interval_ms,
            connect_timeout_ms: self.connect_timeout_ms,
            probe_timeout_ms: self.probe_timeout_ms,
            first_initiator_nonce: self.first_initiator_nonce,
            outbound: self.outbound,
            inbound: self.inbound,
        }
    }
}

/// What the two peers of a local pair found out.
#[derive(Debug, PartialEq, Eq)]
pub struct LocalPairRunResult {
    pub first_port: ResolvedXbeeRttPort,
    pub second_port: ResolvedXbeeRttPort,
    pub first_nonce: u64,
    pub second_nonce: u64,
    pub session_id: u32,
    pub payload_size: usize,
    pub probe_count: u16,
    pub interval_ms: u32,
    pub connect_timeout_ms: u32,
    pub probe_timeout_ms: u32,
    pub first_initiator_nonce: u64,
    pub first_to_second: MeasurementOutcome,
    pub second_to_first: MeasurementOutcome,
    pub summaries_match: bool,
}

/// The outcomes of the two rounds as outbound and inbound: outbound is what this peer measured.
pub open spec fn sorted_rounds(
    first_round: MeasurementOutcome,
    second_round: MeasurementOutcome,
    local_nonce: u64,
) -> (MeasurementOutcome, MeasurementOutcome) {
    if first_round.initiator_nonce == local_nonce {
        (first_round, second_round)
    } else {
        (second_round, first_round)
    }
}

pub fn sort_rounds(
    first_round: MeasurementOutcome,
    second_round: MeasurementOutcome,
    local_nonce: u64,
) -> (r: (MeasurementOutcome, MeasurementOutcome))
    ensures
        r == sorted_rounds(first_round, second_round, local_nonce),
{
    if first_round.initiator_nonce == local_nonce {
        (first_round, second_round)
    } else {
        (second_round, first_round)
    }
}

/// The bytes on the wire of a probe and its answer.
pub open spec fn wire_bytes(payload_size: usize) -> int {
    (FRAME_OVERHEAD_BYTES + payload_size) * 2
}

impl PeerRunResult {
    pub fn protocol_name(&self) -> (r: &'static str)
        ensures
            r@ == "xbee-rtt/2"@,
    {
        "xbee-rtt/2"
    }

    pub fn is_clean(&self) -> (r: bool)
        ensures
            r == (self.outbound.clean() && self.inbound.clean()),
    {
        self.outbound.is_clean() && self.inbound.is_clean()
    }

    pub fn round_trip_wire_bytes(&self) -> (n: usize)
        requires
            wire_bytes(self.payload_size) <= usize::MAX,
        ensures
            n == wire_bytes(self.payload_size),
    {
        (FRAME_OVERHEAD_BYTES + self.payload_size) * 2
    }

    pub fn first_initiator_is_local(&self) -> (r: bool)
        ensures
            r == (self.first_initiator_nonce == self.local_nonce),
    {
        self.first_initiator_nonce == self.local_nonce
    }
}

impl LocalPairRunResult {
    pub fn protocol_name(&self) -> (r: &'static str)
        ensures
            r@ == "xbee-rtt/2"@,
    {
        "xbee-rtt/2"
    }

    pub fn is_clean(&self) -> (r: bool)
        ensures
            r == (self.first_to_second.clean() && self.second_to_first.clean()
                && self.summaries_match),
    {
        self.first_to_second.is_clean() && self.second_to_first.is_clean() && self.summaries_match
    }

    pub fn round_trip_wire_bytes(&self) -> (n: usize)
        requires
            wire_bytes(self.payload_size) <= usize::MAX,
        ensures
            n == wire_bytes(self.payload_size),
    {
        (FRAME_OVERHEAD_BYTES + self.payload_size) * 2
    }

    pub fn first_initiator_is_first_port(&self) -> (r: bool)
        ensures
            r == (self.first_initiator_nonce == self.first_nonce),
    {
        self.first_initiator_nonce == self.first_nonce
    }
}

#[verifier::opaque]
pub open spec fn not_paired_text(
    first_port: Seq<char>,
    first_peer: u64,
    second_port: Seq<char>,
    second_peer: u64,
) -> Seq<char> {
    "xbee-rtt local-pair mode expected the two local ports to pair with each other, but got "@
        + first_port + " -> "@ + nonce_text(first_peer) + " and "@ + second_port + " -> "@
        + nonce_text(second_peer)
}

fn not_paired_message(first_port: &str, first_peer: u64, second_port: &str, second_peer: u64) -> (r:
    String)
    ensures
        r@ == not_paired_text(first_port@, first_peer, second_port@, second_peer),
{
    reveal(not_paired_text);
    let mut s = cat4(
        "xbee-rtt local-pair mode expected the two local ports to pair with each other, but got ",
        first_port,
        " -> ",
        format_nonce(first_peer).as_str(),
    );
    s.append(" and ");
    s.append(second_port);
    s.append(" -> ");
    s.append(format_nonce(second_peer).as_str());
    s
}

/// Each of the two peers met the other one.
pub open spec fn paired(first: PeerRunResult, second: PeerRunResult) -> bool {
    first.peer_nonce == second.local_nonce && second.peer_nonce == first.local_nonce
}

/// Both measured with the same settings.
pub open spec fn same_metadata(first: PeerRunResult, second: PeerRunResult) -> bool {
    &&& first.payload_size == second.payload_size
    &&& first.probe_count == second.probe_count
    &&& first.interval_ms == second.interval_ms
    &&& first.connect_timeout_ms == second.connect_timeout_ms
    &&& first.probe_timeout_ms == second.probe_timeout_ms
}

/// What two peers that met each other found out: each direction by the side that measured it.
pub open spec fn pair_of(first: PeerRunResult, second: PeerRunResult) -> LocalPairRunResult {
    LocalPairRunResult {
        first_port: first.local_port,
        second_port: second.local_port,
        first_nonce: first.local_nonce,
        second_nonce: second.local_nonce,
        session_id: first.session_id,
        payload_size: first.payload_size,
        probe_count: first.probe_count,
        interval_ms: first.interval_ms,
        connect_timeout_ms: first.connect_timeout_ms,
        probe_timeout_ms: first.probe_timeout_ms,
        first_initiator_nonce: first.first_initiator_nonce,
        first_to_second: first.outbound,
        second_to_first: second.outbound,
        summaries_match: first.inbound == second.outbound && second.inbound == first.outbound,
    }
}

/// Puts the results of the two peers of a local pair together.
pub fn aggregate_local_pair(first: PeerRunResult, second: PeerRunResult) -> (r: Result<
    LocalPairRunResult,
    String,
>)
    ensures
        r is Ok <==> paired(first, second) && first.session_id == second.session_id
            && same_metadata(first, second),
        r is Ok ==> r->Ok_0 == pair_of(first, second),
        match r {
            Err(e) => e@ == (if !paired(first, second) {
                not_paired_text(
                    first.local_port.port@,
                    first.peer_nonce,
                    second.local_port.port@,
                    second.peer_nonce,
                )
            } else if first.session_id != second.session_id {
                "xbee-rtt local-pair mode failed because the two local ports negotiated different sessions"@
            } else {
                "xbee-rtt local-pair mode failed because the two local workers disagreed on measurement metadata"@
            }),
            Ok(pair) => pair == (LocalPairRunResult {
                first_port: first.local_port,
                second_port: second.local_port,
                first_nonce: first.local_nonce,
                second_nonce: second.local_nonce,
                session_id: first.session_id,
                payload_size: first.payload_size,
                probe_count: first.probe_count,
                interval_ms: first.interval_ms,
                connect_timeout_ms: first.connect_timeout_ms,
                probe_timeout_ms: first.probe_timeout_ms,
                first_initiator_nonce: first.first_initiator_nonce,
                first_to_second: first.outbound,
                second_to_first: second.outbound,
                summaries_match: first.inbound == second.outbound && second.inbound
                    == first.outbound,
            }),
        },
{
    if first.peer_nonce != second.local_nonce || second.peer_nonce != first.local_nonce {
        return Err(
            not_paired_message(
                first.local_port.port.as_str(),
                first.peer_nonce,
                second.local_port.port.as_str(),
                second.peer_nonce,
            ),
        );
    }
    if first.session_id != second.session_id {
        return Err(
            "xbee-rtt local-pair mode failed because the two local ports negotiated different sessions".to_owned(),
        );
    }
    if first.payload_size != second.payload_size || first.probe_count != second.probe_count
        || first.interval_ms != second.interval_ms || first.connect_timeout_ms
        != second.connect_timeout_ms || first.probe_timeout_ms != second.probe_timeout_ms {
        return Err(
            "xbee-rtt local-pair mode failed because the two local workers disagreed on measurement metadata".to_owned(),
        );
    }
    let summaries_match = first.inbound == second.outbound && second.inbound == first.outbound;
    Ok(
        LocalPairRunResult {
            first_port: first.local_port,
            second_port: second.local_port,
            first_nonce: first.local_nonce,
            second_nonce: second.local_nonce,
            session_id: first.session_id,
            payload_size: first.payload_size,
            probe_count: first.probe_count,
            interval_ms: first.interval_ms,
            connect_timeout_ms: first.connect_timeout_ms,
            probe_timeout_ms: first.probe_timeout_ms,
            first_initiator_nonce: first.first_initiator_nonce,
            first_to_second: first.outbound,
            second_to_first: second.outbound,
            summaries_match,
        },
    )
}

// ---------------------------------------------------------------------------
// The lines of the report
// ---------------------------------------------------------------------------

/// A round-trip time as it is printed, for average, least and greatest.
pub type TimeTexts = (Seq<char>, Seq<char>, Seq<char>);

#[verifier::opaque]
pub open spec fn measurement_text(label: Seq<char>, o: MeasurementOutcome, times: TimeTexts) -> Seq<
    char,
> {
    label + " avg="@ + times.0 + " min="@ + times.1 + " max="@ + times.2 + " success="@ + decimal(
        o.success_count as nat,
    ) + "/"@ + decimal(o.probe_count as nat) + " timeout="@ + decimal(o.timeout_count as nat)
        + " mismatch="@ + decimal(o.mismatch_count as nat)
}

/// The line of one measured direction, with its round-trip times in words.
pub fn labeled_measurement(
    label: &str,
    outcome: &MeasurementOutcome,
    average: &str,
    min: &str,
    max: &str,
) -> (r: String)
    ensures
        r@ == measurement_text(label@, *outcome, (average@, min@, max@)),
{
    reveal(measurement_text);
    let mut s = cat5(label, " avg=", average, " min=", min);
    s.append(" max=");
    s.append(max);
    s.append(" success=");
    s.append(decimal_text(outcome.success_count as u64).as_str());
    s.append("/");
    s.append(decimal_text(outcome.probe_count as u64).as_str());
    s.append(" timeout=");
    s.append(decimal_text(outcome.timeout_count as u64).as_str());
    s.append(" mismatch=");
    s.append(decimal_text(outcome.mismatch_count as u64).as_str());
    s
}

#[verifier::opaque]
pub open spec fn status_text(clean: bool, mode: Seq<char>, session_id: u32) -> Seq<char> {
    "status="@ + (if clean {
        "ok"@
    } else {
        "degraded"@
    }) + " protocol=xbee-rtt/2 mode="@ + mode + " session=0x"@ + hex_fixed(session_id as nat, 8)
}

/// The line that says how a run ended.
pub fn status_line(clean: bool, mode: &str, session_id: u32) -> (r: String)
    ensures
        r@ == status_text(clean, mode@, session_id),
{
    reveal(status_text);
    let word = if clean {
        "ok"
    } else {
        "degraded"
    };
    let mut s = cat5("status=", word, " protocol=xbee-rtt/2 mode=", mode, " session=0x");
    s.append(hex_text(session_id as u64, 8).as_str());
    s
}

#[verifier::opaque]
pub open spec fn port_text(label: Seq<char>, port: ResolvedPortModel, nonce: u64) -> Seq<char> {
    label + "="@ + port.port + "@"@ + decimal(port.baud_rate as nat) + " nonce="@ + nonce_text(
        nonce,
    )
}

/// The line that says which port and nonce a side has.
pub fn port_line(label: &str, port: &ResolvedXbeeRttPort, nonce: u64) -> (r: String)
    ensures
        r@ == port_text(label@, port.deep_view(), nonce),
{
    reveal(port_text);
    let mut s = cat5(
        label,
        "=",
        port.port.as_str(),
        "@",
        decimal_text(port.baud_rate as u64).as_str(),
    );
    s.append(" nonce=");
    s.append(format_nonce(nonce).as_str());
    s
}

#[verifier::opaque]
pub open spec fn probe_settings_text(
    payload_size: usize,
    probe_count: u16,
    interval_ms: u32,
    probe_timeout_ms: u32,
    connect_timeout_ms: u32,
) -> Seq<char> {
    "probe payload="@ + decimal(payload_size as nat) + "B count="@ + decimal(probe_count as nat)
        + " interval="@ + decimal(interval_ms as nat) + "ms probe-timeout="@ + decimal(
        probe_timeout_ms as nat,
    ) + "ms connect-timeout="@ + decimal(connect_timeout_ms as nat)
        + "ms frame-overhead=15B round-trip-wire="@ + decimal(wire_bytes(payload_size) as nat)
        + "B"@
}

/// The line that says what was sent.
pub fn probe_settings_line(
    payload_size: usize,
    probe_count: u16,
    interval_ms: u32,
    probe_timeout_ms: u32,
    connect_timeout_ms: u32,
) -> (r: String)
    requires
        wire_bytes(payload_size) <= usize::MAX,
    ensures
        r@ == probe_settings_text(
            payload_size,
            probe_count,
            interval_ms,
            probe_timeout_ms,
            connect_timeout_ms,
        ),
{
    reveal(probe_settings_text);
    let wire: usize = (FRAME_OVERHEAD_BYTES + payload_size) * 2;
    let mut s = cat5(
        "probe payload=",
        decimal_text(payload_size as u64).as_str(),
        "B count=",
        decimal_text(probe_count as u64).as_str(),
        " interval=",
    );
    s.append(decimal_text(interval_ms as u64).as_str());
    s.append("ms probe-timeout=");
    s.append(decimal_text(probe_timeout_ms as u64).as_str());
    s.append("ms connect-timeout=");
    s.append(decimal_text(connect_timeout_ms as u64).as_str());
    s.append("ms frame-overhead=15B round-trip-wire=");
    s.append(decimal_text(wire as u64).as_str());
    s.append("B");
    s
}

#[verifier::opaque]
pub open spec fn peer_text(peer_nonce: u64, first_is_local: bool) -> Seq<char> {
    "peer nonce="@ + nonce_text(peer_nonce) + " first-initiator="@ + (if first_is_local {
        "local"@
    } else {
        "peer"@
    })
}

/// The report of a run on one port, line by line: how it ended, this side, the other side, what was
/// sent, and both directions.
pub open spec fn single_lines(r: PeerRunModel, outbound: TimeTexts, inbound: TimeTexts) -> Seq<
    Seq<char>,
> {
    seq![
        status_text(r.outbound.clean() && r.inbound.clean(), "single-port"@, r.session_id),
        port_text("local"@, r.local_port, r.local_nonce),
        peer_text(r.peer_nonce, r.first_initiator_nonce == r.local_nonce),
        probe_settings_text(
            r.payload_size,
            r.probe_count,
            r.interval_ms,
            r.probe_timeout_ms,
            r.connect_timeout_ms,
        ),
        measurement_text("local->peer"@, r.outbound, outbound),
        measurement_text("peer->local"@, r.inbound, inbound),
    ]
}

pub fn single_result_lines(
    result: &PeerRunResult,
    outbound_times: (&str, &str, &str),
    inbound_times: (&str, &str, &str),
) -> (lines: Vec<String>)
    requires
        wire_bytes(result.payload_size) <= usize::MAX,
    ensures
        lines.deep_view() == single_lines(
            result.deep_view(),
            (outbound_times.0@, outbound_times.1@, outbound_times.2@),
            (inbound_times.0@, inbound_times.1@, inbound_times.2@),
        ),
{
    reveal(peer_text);
    let first = if result.first_initiator_is_local() {
        "local"
    } else {
        "peer"
    };
    let mut lines: Vec<String> = Vec::new();
    lines.push(status_line(result.is_clean(), "single-port", result.session_id));
    lines.push(port_line("local", &result.local_port, result.local_nonce));
    lines.push(
        cat4(
            "peer nonce=",
            format_nonce(result.peer_nonce).as_str(),
            " first-initiator=",
            first,
        ),
    );
    lines.push(
        probe_settings_line(
            result.payload_size,
            result.probe_count,
            result.interval_ms,
            result.probe_timeout_ms,
            result.connect_timeout_ms,
        ),
    );
    let (average, min, max) = outbound_times;
    lines.push(labeled_measurement("local->peer", &result.outbound, average, min, max));
    let (average, min, max) = inbound_times;
    lines.push(labeled_measurement("peer->local", &result.inbound, average, min, max));
    assert(lines.deep_view() =~= single_lines(
        result.deep_view(),
        (outbound_times.0@, outbound_times.1@, outbound_times.2@),
        (inbound_times.0@, inbound_times.1@, inbound_times.2@),
    ));
    lines
}

#[verifier::opaque]
pub open spec fn cross_check_text(first_is_first_port: bool, summaries_match: bool) -> Seq<char> {
    "first-initiator="@ + (if first_is_first_port {
        "port[0]"@
    } else {
        "port[1]"@
    }) + " cross-check="@ + (if summaries_match {
        "ok"@
    } else {
        "mismatch"@
    })
}

/// The report of a run on two ports of this machine, line by line.
pub open spec fn pair_lines(r: LocalPairRunResult, forth: TimeTexts, back: TimeTexts) -> Seq<
    Seq<char>,
> {
    seq![
        status_text(
            r.first_to_second.clean() && r.second_to_first.clean() && r.summaries_match,
            "local-pair"@,
            r.session_id,
        ),
        port_text("port[0]"@, r.first_port.deep_view(), r.first_nonce),
        port_text("port[1]"@, r.second_port.deep_view(), r.second_nonce),
        cross_check_text(r.first_initiator_nonce == r.first_nonce, r.summaries_match),
        probe_settings_text(
            r.payload_size,
            r.probe_count,
            r.interval_ms,
            r.probe_timeout_ms,
            r.connect_timeout_ms,
        ),
        measurement_text(
            r.first_port.port@ + "->"@ + r.second_port.port@,
            r.first_to_second,
            forth,
        ),
        measurement_text(
            r.second_port.port@ + "->"@ + r.first_port.port@,
            r.second_to_first,
            back,
        ),
    ]
}

pub fn local_pair_result_lines(
    result: &LocalPairRunResult,
    forth_times: (&str, &str, &str),
    back_times: (&str, &str, &str),
) -> (lines: Vec<String>)
    requires
        wire_bytes(result.payload_size) <= usize::MAX,
    ensures
        lines.deep_view() == pair_lines(
            *result,
            (forth_times.0@, forth_times.1@, forth_times.2@),
            (back_times.0@, back_times.1@, back_times.2@),
        ),
{
    reveal(cross_check_text);
    let first = if result.first_initiator_is_first_port() {
        "port[0]"
    } else {
        "port[1]"
    };
    let check = if result.summaries_match {
        "ok"
    } else {
        "mismatch"
    };
    let mut lines: Vec<String> = Vec::new();
    lines.push(status_line(result.is_clean(), "local-pair", result.session_id));
    lines.push(port_line("port[0]", &result.first_port, result.first_nonce));
    lines.push(port_line("port[1]", &result.second_port, result.second_nonce));
    lines.push(cat4("first-initiator=", first, " cross-check=", check));
    lines.push(
        probe_settings_line(
            result.payload_size,
            result.probe_count,
            result.interval_ms,
            result.probe_timeout_ms,
            result.connect_timeout_ms,
        ),
    );
    let there = cat3(result.first_port.port.as_str(), "->", result.second_port.port.as_str());
    let (average, min, max) = forth_times;
    lines.push(
        labeled_measurement(there.as_str(), &result.first_to_second, average, min, max),
    );
    let back = cat3(result.second_port.port.as_str(), "->", result.first_port.port.as_str());
    let (average, min, max) = back_times;
    lines.push(labeled_measurement(back.as_str(), &result.second_to_first, average, min, max));
    assert(lines.deep_view() =~= pair_lines(
        *result,
        (forth_times.0@, forth_times.1@, forth_times.2@),
        (back_times.0@, back_times.1@, back_times.2@),
    ));
    lines
}

} // verus!

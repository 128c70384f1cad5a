//! Laws of `xbee-rtt`: what is asked for is what is measured, what goes over the wire, and when
//! what is waited for is given up.
use crate::bytes::le32;
use crate::ports::Lookup;
use crate::rtt::{
    first_initiator, outcome_of, probe_payload, probe_state, rtt_micros, rtt_of_micros, rtt_ports,
    rtt_settings, summary_of, MeasurementOutcome, ResolvedPortModel, RttOptionsModel, RttPortModel,
    XbeeRttSettings,
};
use crate::rtt_round::{nanos, InitiatorModel, ResponderRound, RoundTerms, StepModel};
use crate::rtt_run::SessionModel;
use crate::rtt_session::{
    pair_of, paired, same_metadata, sorted_rounds, waiting, wire_bytes, PeerModel, PeerRunResult,
};
use crate::rtt_wire::{encoded, frame_body, FrameKind, FrameModel};
use vstd::prelude::*;

verus! {

// ---------------------------------------------------------------------------
// Settings
// ---------------------------------------------------------------------------

/// Every lookup gives its port, with the baud rate asked for in its place, else 115200.
pub proof fn law_rtt_ports_keep_their_places(
    ports: Seq<RttPortModel>,
    found: Seq<Lookup>,
    i: int,
)
    requires
        rtt_ports(ports, found) is Ok,
        0 <= i < found.len(),
    ensures
        rtt_ports(ports, found)->Ok_0.len() == found.len(),
        found[i] == Ok::<Seq<char>, Seq<char>>(rtt_ports(ports, found)->Ok_0[i].port),
        i < ports.len() && ports[i].baud is Some ==> rtt_ports(ports, found)->Ok_0[i].baud_rate
            == ports[i].baud->0,
        i >= ports.len() || ports[i].baud is None ==> rtt_ports(ports, found)->Ok_0[i].baud_rate
            == 115_200,
    decreases found.len(),
{
    let before = found.drop_last();
    if before.len() > 0 {
        law_rtt_ports_keep_their_places(
            ports,
            before,
            if i < before.len() {
                i
            } else {
                0
            },
        );
    } else {
        assert(rtt_ports(ports, before)->Ok_0 =~= Seq::<ResolvedPortModel>::empty());
    }
}

/// Ports that are all found give settings, unless a value is out of its range.
pub proof fn lemma_rtt_ports_found(ports: Seq<RttPortModel>, found: Seq<Lookup>)
    ensures
        rtt_ports(ports, found) is Ok <==> forall|i: int|
            0 <= i < found.len() ==> #[trigger] found[i] is Ok,
    decreases found.len(),
{
    if found.len() > 0 {
        let before = found.drop_last();
        lemma_rtt_ports_found(ports, before);
        if rtt_ports(ports, found) is Ok {
            assert forall|i: int| 0 <= i < found.len() implies #[trigger] found[i] is Ok by {
                if i < before.len() {
                    assert(before[i] is Ok);
                }
            }
        } else if rtt_ports(ports, before) is Ok {
            assert(found[found.len() - 1] is Err);
        } else {
            let i = choose|i: int| 0 <= i < before.len() && #[trigger] before[i] is Err;
            assert(found[i] is Err);
        }
    }
}

/// What is asked for is what is measured with; what is not asked for has its usual value: 10
/// probes of 32 bytes, 100 ms apart, 3 s to connect and 1 s for an answer.
pub proof fn law_rtt_is_as_asked(o: RttOptionsModel, found: Seq<Lookup>, i: int)
    requires
        rtt_settings(o, found) is Ok,
    ensures
        ({
            let s = rtt_settings(o, found)->Ok_0;
            &&& s.payload_size == (if o.payload_size is Some { o.payload_size->0 } else { 32 })
            &&& s.probe_count == (if o.probe_count is Some { o.probe_count->0 } else { 10 })
            &&& s.interval_ms == (if o.interval_ms is Some { o.interval_ms->0 } else { 100 })
            &&& s.connect_timeout_ms == (if o.connect_timeout_ms is Some {
                o.connect_timeout_ms->0
            } else {
                3_000
            })
            &&& s.probe_timeout_ms == (if o.probe_timeout_ms is Some {
                o.probe_timeout_ms->0
            } else {
                1_000
            })
            &&& s.s3b == o.s3b
            &&& s.trace is Some <==> o.show_wire || o.show_protocol
            &&& s.trace is Some ==> s.trace->0.show_wire == o.show_wire
                && s.trace->0.show_protocol == o.show_protocol
                && s.trace->0.local_pair == (found.len() == 2)
            &&& s.local_ports.len() == found.len()
            &&& 0 <= i < found.len() ==> found[i] == Ok::<Seq<char>, Seq<char>>(
                s.local_ports[i].port,
            )
            &&& 0 <= i < found.len() && i < o.ports.len() && o.ports[i].baud is Some
                ==> s.local_ports[i].baud_rate == o.ports[i].baud->0
            &&& 0 <= i < found.len() && (i >= o.ports.len() || o.ports[i].baud is None)
                ==> s.local_ports[i].baud_rate == 115_200
        }),
{
    if 0 <= i < found.len() {
        law_rtt_ports_keep_their_places(o.ports, found, i);
    } else if found.len() > 0 {
        law_rtt_ports_keep_their_places(o.ports, found, 0);
    }
}

/// Settings come out just where at most two ports are given, every lookup found a port, a pair
/// is of two different ports, the payload fits a frame, there is a probe to send and as many as
/// 16 bits count, and there is time to wait.
pub proof fn law_rtt_settings_that_are_refused(o: RttOptionsModel, found: Seq<Lookup>)
    ensures
        rtt_settings(o, found) is Ok <==> {
            &&& o.ports.len() <= 2
            &&& forall|i: int| 0 <= i < found.len() ==> #[trigger] found[i] is Ok
            &&& found.len() == 2 ==> found[0] != found[1]
            &&& o.payload_size is Some ==> o.payload_size->0 <= 4096
            &&& o.probe_count is Some ==> 1 <= o.probe_count->0 <= 65_535
            &&& o.connect_timeout_ms is Some ==> o.connect_timeout_ms->0 >= 1
            &&& o.probe_timeout_ms is Some ==> o.probe_timeout_ms->0 >= 1
        },
{
    lemma_rtt_ports_found(o.ports, found);
    if rtt_ports(o.ports, found) is Ok {
        if found.len() == 0 {
            assert(rtt_ports(o.ports, found)->Ok_0.len() == 0);
        } else {
            law_rtt_ports_keep_their_places(o.ports, found, 0);
            law_rtt_ports_keep_their_places(o.ports, found, found.len() - 1);
        }
    }
}

/// A round may take as long as all its probes do, each as long as its interval and its time limit
/// ask for, and twice the time for connecting beyond that.
pub proof fn law_round_has_time_for_its_probes(s: XbeeRttSettings)
    ensures
        s.round_limit() >= s.probe_count * s.interval_ms + 2 * s.connect_timeout_ms,
        s.round_limit() >= s.probe_count * s.probe_timeout_ms + 2 * s.connect_timeout_ms,
        s.round_limit() == s.probe_count * s.interval_ms + 2 * s.connect_timeout_ms
            || s.round_limit() == s.probe_count * s.probe_timeout_ms + 2 * s.connect_timeout_ms,
{
    let n = s.probe_count as int;
    let a = s.interval_ms as int;
    let b = s.probe_timeout_ms as int;
    assert(n * a == a * n && n * b == b * n && (a <= b ==> n * a <= n * b) && (b <= a ==> n * b <= n
        * a)) by (nonlinear_arith)
        requires
            n >= 0,
    ;
}

/// A millisecond is a million nanoseconds.
pub proof fn law_milliseconds_in_nanoseconds(ms: u32)
    ensures
        nanos(ms as u64) == ms * 1_000_000,
{
}

// ---------------------------------------------------------------------------
// Times on the wire
// ---------------------------------------------------------------------------

/// A time goes over the wire in whole microseconds, rounded down, and comes back less than a
/// microsecond short. A time below a microsecond, or none, is none; one that is too long for 32
/// bits is the longest.
pub proof fn law_times_on_the_wire(ns: u64)
    ensures
        rtt_micros(None) == 0,
        ns < 0x1_0000_0000 * 1000 ==> rtt_micros(Some(ns)) * 1000 <= ns < rtt_micros(Some(ns))
            * 1000 + 1000,
        ns >= 0x1_0000_0000 * 1000 ==> rtt_micros(Some(ns)) == 0xFFFF_FFFF,
        1000 <= ns < 0x1_0000_0000 * 1000 ==> {
            let back = rtt_of_micros(rtt_micros(Some(ns)));
            back is Some && back->0 <= ns < back->0 + 1000
        },
        ns < 1000 ==> rtt_of_micros(rtt_micros(Some(ns))) is None,
        rtt_of_micros(rtt_micros(None)) is None,
{
}

/// What one side measured is what the other side is told: the counts and the payload as they
/// are, the times to the microsecond, and who asked whom.
pub proof fn law_outcome_is_told(o: MeasurementOutcome, initiator: u64, responder: u64)
    requires
        o.payload_size <= 4096,
    ensures
        ({
            let told = outcome_of(summary_of(o), initiator, responder);
            &&& told.initiator_nonce == initiator && told.responder_nonce == responder
            &&& told.payload_size == o.payload_size
            &&& told.probe_count == o.probe_count
            &&& told.success_count == o.success_count
            &&& told.timeout_count == o.timeout_count
            &&& told.mismatch_count == o.mismatch_count
            &&& told.average_rtt == rtt_of_micros(rtt_micros(o.average_rtt))
            &&& told.min_rtt == rtt_of_micros(rtt_micros(o.min_rtt))
            &&& told.max_rtt == rtt_of_micros(rtt_micros(o.max_rtt))
            &&& told.clean() == o.clean()
        }),
{
}

/// An outcome is clean where every probe was answered, rightly and in time.
pub proof fn law_clean_outcome(o: MeasurementOutcome)
    requires
        o.success_count + o.timeout_count + o.mismatch_count == o.probe_count,
    ensures
        o.clean() <==> o.success_count == o.probe_count,
{
}

// ---------------------------------------------------------------------------
// Who measures
// ---------------------------------------------------------------------------

/// The peer with the lower nonce measures first.
pub proof fn law_lower_nonce_measures_first(a: u64, b: u64)
    ensures
        a < b ==> first_initiator(a, b) == Ok::<u64, Seq<char>>(a) && first_initiator(b, a)
            == Ok::<u64, Seq<char>>(a),
        a == b ==> first_initiator(a, b) is Err,
{
}

/// Outbound is the round that this peer measured in, inbound the other one.
pub proof fn law_outbound_is_measured_here(
    first: MeasurementOutcome,
    second: MeasurementOutcome,
    local_nonce: u64,
)
    requires
        first.initiator_nonce == local_nonce || second.initiator_nonce == local_nonce,
        first.initiator_nonce != second.initiator_nonce,
    ensures
        sorted_rounds(first, second, local_nonce).0.initiator_nonce == local_nonce,
        sorted_rounds(first, second, local_nonce).1.initiator_nonce != local_nonce,
        sorted_rounds(first, second, local_nonce) == (first, second)
            || sorted_rounds(first, second, local_nonce) == (second, first),
{
}

/// What a session ends with tells of its own port and nonce, of the terms that it was held to
/// and of the two rounds.
pub proof fn law_session_tells_of_its_rounds(m: SessionModel, now: u64, first: MeasurementOutcome)
    requires
        m.stage is Measuring,
        m.stage->first == Some(first),
        m.stage->round.polled(m.peer, now) is Ok,
        m.stage->round.polled(m.peer, now)->Ok_0.1 is Finished,
    ensures
        ({
            let second = m.stage->round.polled(m.peer, now)->Ok_0.1->Finished_0;
            let end = m.polled(now)->Ok_0.1;
            let r = end->Finished_0;
            &&& m.polled(now) is Ok
            &&& end is Finished
            &&& r.local_port == m.peer.local_port
            &&& r.local_nonce == m.peer.local_nonce
            &&& r.peer_nonce == m.stage->peer_nonce
            &&& r.session_id == m.stage->session_id
            &&& r.payload_size == m.terms.payload_size
            &&& r.probe_count == m.terms.probe_count
            &&& r.interval_ms == m.terms.spec.interval_ms
            &&& r.probe_timeout_ms == m.terms.spec.probe_timeout_ms
            &&& r.connect_timeout_ms == m.terms.connect_timeout_ms
            &&& r.first_initiator_nonce == m.stage->first_initiator_nonce
            &&& first.initiator_nonce == m.peer.local_nonce ==> r.outbound == first && r.inbound
                == second
            &&& first.initiator_nonce != m.peer.local_nonce ==> r.outbound == second && r.inbound
                == first
        }),
{
}

// ---------------------------------------------------------------------------
// Waiting
// ---------------------------------------------------------------------------

/// A frame that waits for an answer goes out at once where it is due, again 200 ms after that,
/// and until its deadline.
pub proof fn law_frames_are_sent_again(now: u64, deadline: u64, next_send_at: u64)
    requires
        now < deadline,
    ensures
        ({
            let w = waiting(now, deadline, next_send_at);
            &&& w is Wait
            &&& w->send <==> next_send_at <= now
            &&& next_send_at <= now && now <= u64::MAX - 200_000_000 ==> w->next_send_at == now
                + 200_000_000
            &&& next_send_at > now ==> w->next_send_at == next_send_at
            &&& w->until == if w->next_send_at < deadline { w->next_send_at } else { deadline }
        }),
{
}

/// A session that nobody answers greets from the start, and gives up when its time to connect is
/// over.
pub proof fn law_connecting_ends(peer: PeerModel, terms: RoundTerms, start: u64, now: u64)
    requires
        !peer.connected(),
        start + terms.connect_timeout <= u64::MAX,
        terms.connect_timeout > 0,
    ensures
        ({
            let m = SessionModel::begin(peer, terms, start);
            &&& m.polled(start) is Ok
            &&& m.polled(start)->Ok_0.1 is Wait
            &&& m.polled(start)->Ok_0.1->send == Some(peer.hello())
            &&& start <= now ==> (m.polled(now) is Err <==> now >= start + terms.connect_timeout)
        }),
{
}

/// An answer is waited for from when the probe is out until its time limit, and no longer: then
/// the probe is lost, and nothing else changes in the tally.
pub proof fn law_lost_probe_is_counted(m: InitiatorModel, peer: PeerModel, out: u64, now: u64)
    requires
        m.sound(),
        m.phase is Sent,
        out + m.terms.probe_timeout <= u64::MAX,
    ensures
        ({
            let waits = m.polled(peer, out)->Ok_0.0;
            let next = waits.polled(peer, now)->Ok_0;
            &&& m.polled(peer, out) is Ok && waits.polled(peer, now) is Ok
            &&& now < out + m.terms.probe_timeout ==> next.0 == waits && next.1 == (
            StepModel::Wait { send: None, until: (out + m.terms.probe_timeout) as u64 })
            &&& now >= out + m.terms.probe_timeout ==> {
                &&& next.0.tally.timeouts == m.tally.timeouts + 1
                &&& next.0.tally.mismatches == m.tally.mismatches
                &&& next.0.tally.samples == m.tally.samples
                &&& next.0.index == m.index + 1
            }
        }),
{
}

/// An answer to the probe on its way that holds other bytes is counted as a mismatch, and a frame
/// of another session, of another round or with another number changes nothing.
pub proof fn law_wrong_answers(m: InitiatorModel, peer: PeerModel, f: FrameModel, now: u64)
    requires
        m.sound(),
        m.phase is Probing,
    ensures
        ({
            let next = m.heard(peer, f, now);
            let answers = f.kind == FrameKind::ProbeEcho && peer.session_id == Some(f.session_id)
                && f.round_id == m.round_id && f.seq == m.index + 1;
            &&& !answers ==> next == m
            &&& answers && f.payload != m.payload(peer) ==> {
                &&& next.tally.mismatches == m.tally.mismatches + 1
                &&& next.tally.timeouts == m.tally.timeouts
                &&& next.tally.samples == m.tally.samples
                &&& next.index == m.index + 1
            }
            &&& answers && f.payload == m.payload(peer) ==> {
                &&& next.tally.mismatches == m.tally.mismatches
                &&& next.tally.timeouts == m.tally.timeouts
                &&& next.tally.samples == m.tally.samples.push(
                    now.saturating_sub(m.phase->Probing_sent_at),
                )
                &&& next.index == m.index + 1
            }
        }),
{
}

/// The answering side waits for the start as long as connecting may take, and after the start as
/// long as a round may take.
pub proof fn law_answering_ends(
    r: ResponderRound,
    peer: PeerModel,
    f: FrameModel,
    at: u64,
    now: u64,
)
    requires
        r.outcome is None,
        peer.session_id == Some(f.session_id),
        f.round_id == r.round_id,
        f.kind == FrameKind::MeasureStart,
        f.payload == r.terms.spec.wire(),
        at + r.terms.round_timeout <= u64::MAX,
    ensures
        r.polled(peer, now) is Err <==> now >= r.deadline,
        ({
            let begun = r.heard(peer, f, at)->Ok_0.0;
            &&& r.heard(peer, f, at) is Ok
            &&& begun.started
            &&& begun.polled(peer, now) is Err <==> now >= at + r.terms.round_timeout
        }),
{
    r.terms.spec.law_round_trip();
}

// ---------------------------------------------------------------------------
// Layouts
// ---------------------------------------------------------------------------

/// A frame is 15 bytes longer than its payload. It begins with `XR`, the version 2, its kind, the
/// session, the round, the number of the probe and the length of the payload, all of them lowest
/// byte first; the checksum ends it.
pub proof fn law_frame_layout(f: FrameModel)
    requires
        f.payload.len() <= 4096,
    ensures
        ({
            let b = encoded(f);
            &&& b.len() == 15 + f.payload.len()
            &&& b[0] == 0x58 && b[1] == 0x52 && b[2] == 2
            &&& 1 <= b[3] <= 8
            &&& b[4] + b[5] * 0x100 + b[6] * 0x1_0000 + b[7] * 0x100_0000 == f.session_id
            &&& b[8] == f.round_id
            &&& b[9] + b[10] * 0x100 == f.seq
            &&& b[11] + b[12] * 0x100 == f.payload.len()
            &&& b.subrange(13, 13 + f.payload.len() as int) == f.payload
        }),
{
    let b = encoded(f);
    let body = frame_body(f);
    assert(body.len() == 11 + f.payload.len());
    assert(b[4] == le32(f.session_id)[0] && b[5] == le32(f.session_id)[1] && b[6] == le32(
        f.session_id,
    )[2] && b[7] == le32(f.session_id)[3]);
    assert(b.subrange(13, 13 + f.payload.len() as int) =~= f.payload);
}

/// A probe and its answer take twice their frame on the wire.
pub proof fn law_wire_bytes(a: FrameModel, b: FrameModel)
    requires
        a.payload.len() == b.payload.len(),
        a.payload.len() <= 4096,
    ensures
        wire_bytes(a.payload.len() as usize) == encoded(a).len() + encoded(b).len(),
{
    law_frame_layout(a);
    law_frame_layout(b);
}

/// A probe carries as many bytes as asked for, and a longer one begins with them.
pub proof fn law_probe_payload(session_id: u32, round_id: u8, seq: u16, size: nat, longer: nat)
    requires
        size <= longer,
    ensures
        probe_payload(session_id, round_id, seq, size).len() == size,
        probe_payload(session_id, round_id, seq, longer).take(size as int) == probe_payload(
            session_id,
            round_id,
            seq,
            size,
        ),
{
    assert(probe_payload(session_id, round_id, seq, longer).take(size as int) =~= probe_payload(
        session_id,
        round_id,
        seq,
        size,
    ));
}

/// No two probes of a round, nor two probes of different sessions, start from one state.
pub proof fn law_probes_differ(session_a: u32, session_b: u32, round_id: u8, a: u16, b: u16)
    requires
        session_a != session_b || a != b,
    ensures
        probe_state(session_a, round_id, a, 0) != probe_state(session_b, round_id, b, 0),
{
    assert(session_a != session_b || a != b ==> ((session_a as u64) << 16) ^ ((round_id as u64) << 8)
        ^ (a as u64) ^ 0x9E37_79B9_7F4A_7C15 != ((session_b as u64) << 16) ^ ((round_id as u64)
        << 8) ^ (b as u64) ^ 0x9E37_79B9_7F4A_7C15) by (bit_vector);
}

/// What is agreed on with the peer is what was asked for.
pub proof fn law_agreed_is_what_was_asked(s: XbeeRttSettings)
    requires
        s.payload_size <= 4096,
    ensures
        s.agreed().payload_size == s.payload_size,
        s.agreed().probe_count == s.probe_count,
        s.agreed().interval_ms == s.interval_ms,
        s.agreed().probe_timeout_ms == s.probe_timeout_ms,
{
}

/// A pair is told of by both its sides: each direction as the side that sent the probes measured
/// it, and both as agreeing exactly where each side was told what the other measured.
pub proof fn law_pair_tells_of_both_sides(first: PeerRunResult, second: PeerRunResult)
    requires
        paired(first, second),
        same_metadata(first, second),
        first.session_id == second.session_id,
        first.first_initiator_nonce == second.first_initiator_nonce,
    ensures
        ({
            let forth = pair_of(first, second);
            let back = pair_of(second, first);
            &&& forth.first_to_second == first.outbound && forth.second_to_first == second.outbound
            &&& forth.first_port == first.local_port && forth.second_port == second.local_port
            &&& forth.first_nonce == first.local_nonce && forth.second_nonce == second.local_nonce
            &&& back.first_to_second == forth.second_to_first
            &&& back.second_to_first == forth.first_to_second
            &&& back.summaries_match == forth.summaries_match
            &&& forth.summaries_match <==> first.inbound == second.outbound && second.inbound
                == first.outbound
            &&& forth.session_id == second.session_id
            &&& forth.payload_size == second.payload_size
            &&& forth.probe_count == second.probe_count
            &&& forth.interval_ms == second.interval_ms
            &&& forth.connect_timeout_ms == second.connect_timeout_ms
            &&& forth.probe_timeout_ms == second.probe_timeout_ms
            &&& forth.first_initiator_nonce == first.first_initiator_nonce
        }),
{
}

/// Two peers met exactly where each saw the other's nonce.
pub proof fn law_paired(first: PeerRunResult, second: PeerRunResult)
    ensures
        paired(first, second) == paired(second, first),
        same_metadata(first, second) == same_metadata(second, first),
        paired(first, second) ==> first.peer_nonce == second.local_nonce && second.peer_nonce
            == first.local_nonce,
        same_metadata(first, second) ==> first.payload_size == second.payload_size
            && first.probe_count == second.probe_count && first.interval_ms == second.interval_ms
            && first.connect_timeout_ms == second.connect_timeout_ms && first.probe_timeout_ms
            == second.probe_timeout_ms,
{
}

} // verus!

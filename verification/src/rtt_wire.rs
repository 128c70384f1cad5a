//! The binary protocol of the round-trip measurement: frames and the payloads they carry.
use crate::bytes::{
    crc16, crc16_range, drop_front, le16, le32, le64, lemma_value16, lemma_value32, lemma_value64,
    push_bytes, push_u16, push_u32, push_u64, read_u16, read_u32, read_u64, sub_bytes, value16,
    value32, value64,
};
use crate::text::{cat2, decimal, decimal_text, viewed};
use vstd::prelude::*;

verus! {

pub const PROTOCOL_VERSION: u8 = 2;

/// The first magic byte, `X`.
pub const MAGIC_FIRST: u8 = 0x58;

/// The second magic byte, `R`.
pub const MAGIC_SECOND: u8 = 0x52;

pub const MAX_FRAME_PAYLOAD_SIZE: usize = 4096;

pub const FRAME_FIXED_PREFIX_LEN: usize = 13;

pub const FRAME_OVERHEAD_BYTES: usize = 15;

#[derive(Debug, Clone, Copy, PartialEq, Eq, Structural)]
pub enum FrameKind {
    Hello,
    HelloAck,
    MeasureStart,
    MeasureAck,
    Probe,
    ProbeEcho,
    Result,
    ResultAck,
}

/// The number of each kind on the wire.
pub open spec fn kind_code(kind: FrameKind) -> u8 {
    match kind {
        FrameKind::Hello => 1,
        FrameKind::HelloAck => 2,
        FrameKind::MeasureStart => 3,
        FrameKind::MeasureAck => 4,
        FrameKind::Probe => 5,
        FrameKind::ProbeEcho => 6,
        FrameKind::Result => 7,
        FrameKind::ResultAck => 8,
    }
}

/// The kind that a number on the wire stands for.
pub open spec fn kind_of(code: u8) -> Option<FrameKind> {
    if code == 1 {
        Some(FrameKind::Hello)
    } else if code == 2 {
        Some(FrameKind::HelloAck)
    } else if code == 3 {
        Some(FrameKind::MeasureStart)
    } else if code == 4 {
        Some(FrameKind::MeasureAck)
    } else if code == 5 {
        Some(FrameKind::Probe)
    } else if code == 6 {
        Some(FrameKind::ProbeEcho)
    } else if code == 7 {
        Some(FrameKind::Result)
    } else if code == 8 {
        Some(FrameKind::ResultAck)
    } else {
        None
    }
}

/// Numbers and kinds stand for each other one to one.
pub proof fn law_kind_codes(kind: FrameKind, code: u8)
    ensures
        kind_of(kind_code(kind)) == Some(kind),
        kind_of(code) == Some(kind) <==> code == kind_code(kind),
{
}

impl FrameKind {
    pub fn as_u8(self) -> (code: u8)
        ensures
            code == kind_code(self),
    {
        match self {
            FrameKind::Hello => 1,
            FrameKind::HelloAck => 2,
            FrameKind::MeasureStart => 3,
            FrameKind::MeasureAck => 4,
            FrameKind::Probe => 5,
            FrameKind::ProbeEcho => 6,
            FrameKind::Result => 7,
            FrameKind::ResultAck => 8,
        }
    }

    pub fn from_u8(value: u8) -> (kind: Option<FrameKind>)
        ensures
            kind == kind_of(value),
    {
        match value {
            1 => Some(FrameKind::Hello),
            2 => Some(FrameKind::HelloAck),
            3 => Some(FrameKind::MeasureStart),
            4 => Some(FrameKind::MeasureAck),
            5 => Some(FrameKind::Probe),
            6 => Some(FrameKind::ProbeEcho),
            7 => Some(FrameKind::Result),
            8 => Some(FrameKind::ResultAck),
            _ => None,
        }
    }
}

// ---------------------------------------------------------------------------
// Frames
// ---------------------------------------------------------------------------

#[derive(Debug, Clone, PartialEq, Eq)]
pub struct ProtocolFrame {
    pub kind: FrameKind,
    pub session_id: u32,
    pub round_id: u8,
    pub seq: u16,
    pub payload: Vec<u8>,
}

/// A frame with its payload as a sequence of bytes.
#[verifier::ext_equal]
pub struct FrameModel {
    pub kind: FrameKind,
    pub session_id: u32,
    pub round_id: u8,
    pub seq: u16,
    pub payload: Seq<u8>,
}

impl DeepView for ProtocolFrame {
    type V = FrameModel;

    open spec fn deep_view(&self) -> FrameModel {
        FrameModel {
            kind: self.kind,
            session_id: self.session_id,
            round_id: self.round_id,
            seq: self.seq,
            payload: self.payload@,
        }
    }
}

/// What the checksum of a frame covers: everything between the magic and the checksum.
pub open spec fn frame_body(f: FrameModel) -> Seq<u8> {
    seq![PROTOCOL_VERSION, kind_code(f.kind)] + le32(f.session_id) + seq![f.round_id] + le16(f.seq)
        + le16((f.payload.len() % 65536) as u16) + f.payload
}

/// A frame on the wire: the magic, the body and the checksum of the body.
pub open spec fn encoded(f: FrameModel) -> Seq<u8> {
    seq![MAGIC_FIRST, MAGIC_SECOND] + frame_body(f) + le16(crc16(frame_body(f)))
}

/// The position of the first magic in `b`, or the length of `b` where there is none.
pub open spec fn magic_at(b: Seq<u8>) -> nat
    decreases b.len(),
{
    if b.len() < 2 {
        b.len()
    } else if b[0] == MAGIC_FIRST && b[1] == MAGIC_SECOND {
        0
    } else {
        1 + magic_at(b.skip(1))
    }
}

/// What bytes that start with the magic turn out to be.
pub enum Candidate {
    /// Too few bytes to tell.
    Wait,
    /// No frame starts here.
    Reject,
    /// A whole frame.
    Frame(FrameModel),
}

/// The fixed part of a frame at the start of `t` holds this version, a known kind and a
/// payload length within the limit.
pub open spec fn plausible(t: Seq<u8>) -> bool {
    &&& t[2] == PROTOCOL_VERSION
    &&& kind_of(t[3]) is Some
    &&& value16(t, 11) <= MAX_FRAME_PAYLOAD_SIZE
}

pub open spec fn frame_len(t: Seq<u8>) -> int {
    FRAME_OVERHEAD_BYTES + value16(t, 11)
}

pub open spec fn frame_at(t: Seq<u8>) -> FrameModel {
    FrameModel {
        kind: kind_of(t[3])->0,
        session_id: value32(t, 4),
        round_id: t[8],
        seq: value16(t, 9),
        payload: t.subrange(FRAME_FIXED_PREFIX_LEN as int, frame_len(t) - 2),
    }
}

pub open spec fn candidate(t: Seq<u8>) -> Candidate {
    if t.len() < FRAME_OVERHEAD_BYTES {
        Candidate::Wait
    } else if !plausible(t) {
        Candidate::Reject
    } else if t.len() < frame_len(t) {
        Candidate::Wait
    } else if crc16(t.subrange(2, frame_len(t) - 2)) != value16(t, frame_len(t) - 2) {
        Candidate::Reject
    } else {
        Candidate::Frame(frame_at(t))
    }
}

/// The frames in a byte stream, and the bytes at its end that wait for more.
pub open spec fn decoded(b: Seq<u8>) -> (Seq<FrameModel>, Seq<u8>)
    decreases b.len(),
{
    let k = magic_at(b);
    if k >= b.len() {
        (seq![], if b.len() < 2 {
            b
        } else {
            b.skip(b.len() - 1)
        })
    } else {
        let t = b.skip(k as int);
        match candidate(t) {
            Candidate::Wait => (seq![], t),
            Candidate::Reject => decoded(t.skip(1)),
            Candidate::Frame(f) => {
                let (later, rest) = decoded(t.skip(FRAME_OVERHEAD_BYTES + f.payload.len()));
                (seq![f] + later, rest)
            },
        }
    }
}

pub proof fn lemma_magic_at(b: Seq<u8>)
    ensures
        magic_at(b) <= b.len(),
        magic_at(b) < b.len() ==> magic_at(b) + 1 < b.len() && b[magic_at(b) as int] == MAGIC_FIRST
            && b[magic_at(b) as int + 1] == MAGIC_SECOND,
        forall|i: int|
            0 <= i < magic_at(b) && i + 1 < b.len() ==> !(#[trigger] b[i] == MAGIC_FIRST && b[i + 1]
                == MAGIC_SECOND),
    decreases b.len(),
{
    if b.len() >= 2 && !(b[0] == MAGIC_FIRST && b[1] == MAGIC_SECOND) {
        let t = b.skip(1);
        lemma_magic_at(t);
        assert forall|i: int| 0 <= i < magic_at(b) && i + 1 < b.len() implies !(#[trigger] b[i]
            == MAGIC_FIRST && b[i + 1] == MAGIC_SECOND) by {
            if i > 0 {
                assert(t[i - 1] == b[i]);
                assert(t[i] == b[i + 1]);
            }
        }
    }
}

/// The first magic, by what stands before it.
pub proof fn lemma_magic_is_at(b: Seq<u8>, k: int)
    requires
        0 <= k <= b.len(),
        forall|i: int|
            0 <= i < k && i + 1 < b.len() ==> !(#[trigger] b[i] == MAGIC_FIRST && b[i + 1]
                == MAGIC_SECOND),
        k < b.len() ==> k + 1 < b.len() && b[k] == MAGIC_FIRST && b[k + 1] == MAGIC_SECOND,
    ensures
        magic_at(b) == k,
{
    lemma_magic_at(b);
    let m = magic_at(b) as int;
    if m < k {
        assert(b[m] == MAGIC_FIRST);
    } else if k < m {
        assert(b[k] == MAGIC_FIRST);
    }
}

/// Bytes before the first magic do not matter, as long as one byte is left.
pub proof fn lemma_skip_noise(b: Seq<u8>, j: int)
    requires
        0 <= j <= magic_at(b),
        j < b.len(),
    ensures
        decoded(b) == decoded(b.skip(j)),
{
    lemma_magic_at(b);
    let k = magic_at(b) as int;
    let s = b.skip(j);
    assert forall|i: int| 0 <= i < k - j && i + 1 < s.len() implies !(#[trigger] s[i] == MAGIC_FIRST
        && s[i + 1] == MAGIC_SECOND) by {
        assert(s[i] == b[i + j]);
        assert(s[i + 1] == b[i + j + 1]);
    }
    lemma_magic_is_at(s, k - j);
    if k < b.len() {
        assert(s.skip(k - j) == b.skip(k));
    } else if s.len() < 2 {
        if b.len() >= 2 {
            assert(s == b.skip(b.len() - 1));
        } else {
            assert(s == b);
        }
    } else {
        assert(s.skip(s.len() - 1) == b.skip(b.len() - 1));
    }
}

/// More bytes behind a decided candidate do not change the decision.
proof fn lemma_candidate_stable(t: Seq<u8>, c: Seq<u8>)
    requires
        candidate(t) !is Wait,
    ensures
        candidate(t + c) == candidate(t),
{
    let u = t + c;
    assert(u[2] == t[2] && u[3] == t[3] && u[11] == t[11] && u[12] == t[12]);
    if plausible(t) {
        let n = frame_len(t);
        assert(u.subrange(2, n - 2) == t.subrange(2, n - 2));
        assert(u[n - 2] == t[n - 2] && u[n - 1] == t[n - 1]);
        assert(u.subrange(13, n - 2) == t.subrange(13, n - 2));
        assert(value32(u, 4) == value32(t, 4));
        assert(value16(u, 9) == value16(t, 9));
    }
}

/// The frames of a stream do not depend on how it was cut into chunks: decoding `a`, and then
/// what `a` left behind together with `c`, gives the frames of `a + c` in order and leaves the
/// same bytes behind.
pub proof fn law_decoding_is_independent_of_chunks(a: Seq<u8>, c: Seq<u8>)
    ensures
        decoded(a + c).0 == decoded(a).0 + decoded(decoded(a).1 + c).0,
        decoded(a + c).1 == decoded(decoded(a).1 + c).1,
    decreases a.len(),
{
    lemma_magic_at(a);
    let k = magic_at(a) as int;
    let b = a + c;
    if k >= a.len() {
        let r = decoded(a).1;
        if a.len() == 0 {
            assert(r + c == b);
        } else {
            let j = a.len() - 1;
            assert(r == a.skip(j));
            assert(r + c == b.skip(j));
            lemma_magic_at(b);
            if magic_at(b) < j {
                let m = magic_at(b) as int;
                assert(a[m] == b[m] && a[m + 1] == b[m + 1]);
            }
            lemma_skip_noise(b, j);
        }
        assert(Seq::<FrameModel>::empty() + decoded(r + c).0 == decoded(r + c).0);
    } else {
        let t = a.skip(k);
        assert forall|i: int| 0 <= i < k && i + 1 < b.len() implies !(#[trigger] b[i] == MAGIC_FIRST
            && b[i + 1] == MAGIC_SECOND) by {
            assert(a[i] == b[i] && a[i + 1] == b[i + 1]);
        }
        lemma_magic_is_at(b, k);
        assert(b.skip(k) == t + c);
        match candidate(t) {
            Candidate::Wait => {
                assert(Seq::<FrameModel>::empty() + decoded(t + c).0 == decoded(t + c).0);
                lemma_skip_noise(b, k);
            },
            Candidate::Reject => {
                lemma_candidate_stable(t, c);
                assert((t + c).skip(1) == t.skip(1) + c);
                law_decoding_is_independent_of_chunks(t.skip(1), c);
            },
            Candidate::Frame(f) => {
                lemma_candidate_stable(t, c);
                let n = FRAME_OVERHEAD_BYTES + f.payload.len();
                assert((t + c).skip(n) == t.skip(n) + c);
                law_decoding_is_independent_of_chunks(t.skip(n), c);
                let rest = decoded(t.skip(n));
                assert(seq![f] + (rest.0 + decoded(rest.1 + c).0) == seq![f] + rest.0 + decoded(
                    rest.1 + c,
                ).0);
            },
        }
    }
}

/// A frame at the start of a stream is found.
proof fn lemma_candidate_of_encoded(f: FrameModel, rest: Seq<u8>)
    requires
        f.payload.len() <= MAX_FRAME_PAYLOAD_SIZE,
    ensures
        candidate(encoded(f) + rest) == Candidate::Frame(f),
        encoded(f).len() == FRAME_OVERHEAD_BYTES + f.payload.len(),
{
    let body = frame_body(f);
    let t = encoded(f) + rest;
    let len = f.payload.len() as u16;
    let n = 15 + f.payload.len() as int;
    assert(body.len() == 11 + f.payload.len());
    assert(t[2] == body[0] && t[3] == body[1]);
    assert(t.subrange(4, 8) == le32(f.session_id));
    lemma_value32(t, 4, f.session_id);
    assert(t[8] == body[6]);
    assert(t.subrange(9, 11) == le16(f.seq));
    lemma_value16(t, 9, f.seq);
    assert(t.subrange(11, 13) == le16(len));
    lemma_value16(t, 11, len);
    assert(t.subrange(2, n - 2) == body);
    assert(t.subrange(n - 2, n) == le16(crc16(body)));
    lemma_value16(t, n - 2, crc16(body));
    assert(t.subrange(13, n - 2) == f.payload);
    assert(frame_at(t) == f);
}

/// What a decoder reads of a frame is the frame that was written, also behind noise that holds
/// no magic, and the bytes behind the frame are decoded as if they stood alone.
pub proof fn law_frame_survives_noise(noise: Seq<u8>, f: FrameModel, rest: Seq<u8>)
    requires
        f.payload.len() <= MAX_FRAME_PAYLOAD_SIZE,
        magic_at(noise) == noise.len(),
    ensures
        decoded(noise + encoded(f) + rest).0 == seq![f] + decoded(rest).0,
        decoded(noise + encoded(f) + rest).1 == decoded(rest).1,
{
    let b = noise + encoded(f) + rest;
    let k = noise.len() as int;
    lemma_magic_at(noise);
    lemma_candidate_of_encoded(f, rest);
    assert forall|i: int| 0 <= i < k && i + 1 < b.len() implies !(#[trigger] b[i] == MAGIC_FIRST
        && b[i + 1] == MAGIC_SECOND) by {
        assert(b[i] == noise[i]);
        if i + 1 < k {
            assert(b[i + 1] == noise[i + 1]);
        } else {
            assert(b[i + 1] == encoded(f)[0]);
        }
    }
    assert(b[k] == encoded(f)[0] && b[k + 1] == encoded(f)[1]);
    lemma_magic_is_at(b, k);
    assert(b.skip(k) == encoded(f) + rest);
    assert((encoded(f) + rest).skip(FRAME_OVERHEAD_BYTES + f.payload.len()) == rest);
}

impl ProtocolFrame {
    /// The frame on the wire. A payload length beyond 65535 is written modulo 65536.
    pub fn encode(&self) -> (bytes: Vec<u8>)
        ensures
            bytes@ == encoded(self.deep_view()),
    {
        let payload_len: u16 = (self.payload.len() % 65536) as u16;
        let mut bytes: Vec<u8> = Vec::new();
        bytes.push(MAGIC_FIRST);
        bytes.push(MAGIC_SECOND);
        bytes.push(PROTOCOL_VERSION);
        bytes.push(self.kind.as_u8());
        push_u32(&mut bytes, self.session_id);
        bytes.push(self.round_id);
        push_u16(&mut bytes, self.seq);
        push_u16(&mut bytes, payload_len);
        push_bytes(&mut bytes, self.payload.as_slice());
        let ghost body = frame_body(self.deep_view());
        assert(bytes@ =~= seq![MAGIC_FIRST, MAGIC_SECOND] + body);
        assert(bytes@.subrange(2, bytes@.len() as int) =~= body);
        let crc: u16 = crc16_range(bytes.as_slice(), 2, bytes.len());
        push_u16(&mut bytes, crc);
        bytes
    }

    /// A copy of the frame.
    pub fn duplicate(&self) -> (copy: ProtocolFrame)
        ensures
            copy.deep_view() == self.deep_view(),
    {
        ProtocolFrame {
            kind: self.kind,
            session_id: self.session_id,
            round_id: self.round_id,
            seq: self.seq,
            payload: sub_bytes(self.payload.as_slice(), 0, self.payload.len()),
        }
    }
}

/// Finds frames in a byte stream that arrives in chunks and may hold noise.
#[derive(Debug)]
pub struct FrameDecoder {
    buffer: Vec<u8>,
}

impl Default for FrameDecoder {
    fn default() -> (decoder: Self)
        ensures
            decoder.pending() == Seq::<u8>::empty(),
    {
        FrameDecoder { buffer: Vec::new() }
    }
}

/// The position of the first magic in the buffer.
pub fn find_magic(buffer: &[u8]) -> (r: Option<usize>)
    ensures
        r == (if magic_at(buffer@) < buffer@.len() {
            Some(magic_at(buffer@) as usize)
        } else {
            None
        }),
{
    let n: usize = buffer.len();
    let mut i: usize = 0;
    while i < n && i + 1 < n
        invariant
            i <= n,
            n == buffer@.len(),
            forall|k: int|
                0 <= k < i && k + 1 < n ==> !(#[trigger] buffer@[k] == MAGIC_FIRST && buffer@[k + 1]
                    == MAGIC_SECOND),
        decreases n - i,
    {
        if buffer[i] == MAGIC_FIRST && buffer[i + 1] == MAGIC_SECOND {
            proof {
                lemma_magic_is_at(buffer@, i as int);
            }
            return Some(i);
        }
        i += 1;
    }
    proof {
        lemma_magic_is_at(buffer@, n as int);
    }
    None
}

impl FrameDecoder {
    /// The bytes that wait for more.
    pub closed spec fn pending(&self) -> Seq<u8> {
        self.buffer@
    }

    /// Takes the next chunk in and gives the frames that are complete now.
    pub fn push(&mut self, bytes: &[u8]) -> (frames: Vec<ProtocolFrame>)
        ensures
            frames.deep_view() == decoded(old(self).pending() + bytes@).0,
            final(self).pending() == decoded(old(self).pending() + bytes@).1,
    {
        push_bytes(&mut self.buffer, bytes);
        let mut frames: Vec<ProtocolFrame> = Vec::new();
        let ghost all = self.buffer@;
        assert(frames.deep_view() + decoded(all).0 == decoded(all).0);
        loop
            invariant
                decoded(all).0 == frames.deep_view() + decoded(self.buffer@).0,
                decoded(all).1 == decoded(self.buffer@).1,
                all == old(self).pending() + bytes@,
            decreases self.buffer@.len(),
        {
            let ghost b = self.buffer@;
            proof {
                lemma_magic_at(b);
            }
            if self.buffer.len() < 2 {
                assert(magic_at(b) == b.len());
                assert(frames.deep_view() + Seq::<FrameModel>::empty() == frames.deep_view());
                return frames;
            }
            match find_magic(self.buffer.as_slice()) {
                None => {
                    let keep: usize = self.buffer.len() - 1;
                    drop_front(&mut self.buffer, keep);
                    assert(frames.deep_view() + Seq::<FrameModel>::empty() == frames.deep_view());
                    return frames;
                },
                Some(index) => {
                    drop_front(&mut self.buffer, index);
                },
            }
            let ghost t = self.buffer@;
            proof {
                lemma_skip_noise(b, magic_at(b) as int);
                assert(t[0] == MAGIC_FIRST && t[1] == MAGIC_SECOND);
                lemma_magic_is_at(t, 0);
                assert(t.skip(0) == t);
            }
            if self.buffer.len() < FRAME_OVERHEAD_BYTES {
                assert(frames.deep_view() + Seq::<FrameModel>::empty() == frames.deep_view());
                return frames;
            }
            let payload_len: usize = read_u16(self.buffer.as_slice(), 11) as usize;
            let kind = match FrameKind::from_u8(self.buffer[3]) {
                Some(kind) => kind,
                None => {
                    drop_front(&mut self.buffer, 1);
                    continue ;
                },
            };
            if self.buffer[2] != PROTOCOL_VERSION || payload_len > MAX_FRAME_PAYLOAD_SIZE {
                drop_front(&mut self.buffer, 1);
                continue ;
            }
            let frame_len: usize = FRAME_OVERHEAD_BYTES + payload_len;
            if self.buffer.len() < frame_len {
                assert(frames.deep_view() + Seq::<FrameModel>::empty() == frames.deep_view());
                return frames;
            }
            let expected_crc: u16 = crc16_range(self.buffer.as_slice(), 2, frame_len - 2);
            let actual_crc: u16 = read_u16(self.buffer.as_slice(), frame_len - 2);
            if expected_crc != actual_crc {
                drop_front(&mut self.buffer, 1);
                continue ;
            }
            let frame = ProtocolFrame {
                kind,
                session_id: read_u32(self.buffer.as_slice(), 4),
                round_id: self.buffer[8],
                seq: read_u16(self.buffer.as_slice(), 9),
                payload: sub_bytes(
                    self.buffer.as_slice(),
                    FRAME_FIXED_PREFIX_LEN,
                    FRAME_FIXED_PREFIX_LEN + payload_len,
                ),
            };
            let ghost before = frames.deep_view();
            let ghost f = frame.deep_view();
            frames.push(frame);
            drop_front(&mut self.buffer, frame_len);
            proof {
                assert(f == frame_at(t));
                assert(frames.deep_view() =~= before.push(f));
                let later = decoded(self.buffer@).0;
                assert(before + (seq![f] + later) =~= before.push(f) + later);
            }
        }
    }
}

// ---------------------------------------------------------------------------
// Payloads
// ---------------------------------------------------------------------------

/// What both sides agree on before measuring.
#[derive(Debug, Clone, Copy, PartialEq, Eq, Structural)]
pub struct MeasurementSpecWire {
    pub payload_size: u16,
    pub probe_count: u16,
    pub interval_ms: u32,
    pub probe_timeout_ms: u32,
}

impl DeepView for MeasurementSpecWire {
    type V = MeasurementSpecWire;

    open spec fn deep_view(&self) -> MeasurementSpecWire {
        *self
    }
}

/// The outcome of reading a payload that must be `len` bytes long.
pub open spec fn read_exact<T>(b: Seq<u8>, len: nat, label: Seq<char>, value: T) -> Result<
    T,
    Seq<char>,
> {
    if b.len() == len {
        Ok(value)
    } else {
        Err(label + decimal(b.len()))
    }
}

impl MeasurementSpecWire {
    pub open spec fn wire(self) -> Seq<u8> {
        le16(self.payload_size) + le16(self.probe_count) + le32(self.interval_ms) + le32(
            self.probe_timeout_ms,
        )
    }

    /// The value at position `i` of a payload.
    pub open spec fn at(b: Seq<u8>, i: int) -> MeasurementSpecWire {
        MeasurementSpecWire {
            payload_size: value16(b, i),
            probe_count: value16(b, i + 2),
            interval_ms: value32(b, i + 4),
            probe_timeout_ms: value32(b, i + 8),
        }
    }

    pub open spec fn read(b: Seq<u8>) -> Result<MeasurementSpecWire, Seq<char>> {
        read_exact(
            b,
            12,
            "invalid xbee-rtt measurement spec payload length: "@,
            MeasurementSpecWire::at(b, 0),
        )
    }

    pub fn encode(self) -> (payload: Vec<u8>)
        ensures
            payload@ == self.wire(),
    {
        let mut payload: Vec<u8> = Vec::new();
        push_u16(&mut payload, self.payload_size);
        push_u16(&mut payload, self.probe_count);
        push_u32(&mut payload, self.interval_ms);
        push_u32(&mut payload, self.probe_timeout_ms);
        assert(payload@ =~= self.wire());
        payload
    }

    pub fn decode(payload: &[u8]) -> (r: Result<MeasurementSpecWire, String>)
        ensures
            viewed(r) == MeasurementSpecWire::read(payload@),
    {
        if payload.len() != 12 {
            return Err(
                cat2(
                    "invalid xbee-rtt measurement spec payload length: ",
                    decimal_text(payload.len() as u64).as_str(),
                ),
            );
        }
        Ok(MeasurementSpecWire::decode_at(payload, 0))
    }

    fn decode_at(payload: &[u8], i: usize) -> (r: MeasurementSpecWire)
        requires
            i + 12 <= payload@.len(),
        ensures
            r == MeasurementSpecWire::at(payload@, i as int),
    {
        assert(payload@.len() == payload.len());
        MeasurementSpecWire {
            payload_size: read_u16(payload, i),
            probe_count: read_u16(payload, i + 2),
            interval_ms: read_u32(payload, i + 4),
            probe_timeout_ms: read_u32(payload, i + 8),
        }
    }

    proof fn lemma_at(self, b: Seq<u8>, i: int)
        requires
            0 <= i,
            i + 12 <= b.len(),
            b.subrange(i, i + 12) == self.wire(),
        ensures
            MeasurementSpecWire::at(b, i) == self,
    {
        let s = b.subrange(i, i + 12);
        assert(b.subrange(i, i + 2) == s.subrange(0, 2));
        assert(s.subrange(0, 2) == le16(self.payload_size));
        assert(b.subrange(i + 2, i + 4) == s.subrange(2, 4));
        assert(s.subrange(2, 4) == le16(self.probe_count));
        assert(b.subrange(i + 4, i + 8) == s.subrange(4, 8));
        assert(s.subrange(4, 8) == le32(self.interval_ms));
        assert(b.subrange(i + 8, i + 12) == s.subrange(8, 12));
        assert(s.subrange(8, 12) == le32(self.probe_timeout_ms));
        lemma_value16(b, i, self.payload_size);
        lemma_value16(b, i + 2, self.probe_count);
        lemma_value32(b, i + 4, self.interval_ms);
        lemma_value32(b, i + 8, self.probe_timeout_ms);
    }

    /// What was written is read back.
    pub proof fn law_round_trip(self)
        ensures
            MeasurementSpecWire::read(self.wire()) == Ok::<MeasurementSpecWire, Seq<char>>(self),
    {
        assert(self.wire().subrange(0, 12) == self.wire());
        self.lemma_at(self.wire(), 0);
    }
}

/// The greeting of a peer: its nonce and its measurement settings.
#[derive(Debug, Clone, Copy, PartialEq, Eq, Structural)]
pub struct HelloWire {
    pub nonce: u64,
    pub spec: MeasurementSpecWire,
}

impl DeepView for HelloWire {
    type V = HelloWire;

    open spec fn deep_view(&self) -> HelloWire {
        *self
    }
}

impl HelloWire {
    pub open spec fn wire(self) -> Seq<u8> {
        le64(self.nonce) + self.spec.wire()
    }

    pub open spec fn read(b: Seq<u8>) -> Result<HelloWire, Seq<char>> {
        read_exact(
            b,
            20,
            "invalid xbee-rtt hello payload length: "@,
            (HelloWire { nonce: value64(b, 0), spec: MeasurementSpecWire::at(b, 8) }),
        )
    }

    pub fn encode(self) -> (payload: Vec<u8>)
        ensures
            payload@ == self.wire(),
    {
        let mut payload: Vec<u8> = Vec::new();
        push_u64(&mut payload, self.nonce);
        let spec = self.spec.encode();
        push_bytes(&mut payload, spec.as_slice());
        assert(payload@ =~= self.wire());
        payload
    }

    pub fn decode(payload: &[u8]) -> (r: Result<HelloWire, String>)
        ensures
            viewed(r) == HelloWire::read(payload@),
    {
        if payload.len() != 20 {
            return Err(
                cat2(
                    "invalid xbee-rtt hello payload length: ",
                    decimal_text(payload.len() as u64).as_str(),
                ),
            );
        }
        Ok(
            HelloWire {
                nonce: read_u64(payload, 0),
                spec: MeasurementSpecWire::decode_at(payload, 8),
            },
        )
    }

    /// What was written is read back.
    pub proof fn law_round_trip(self)
        ensures
            HelloWire::read(self.wire()) == Ok::<HelloWire, Seq<char>>(self),
    {
        let b = self.wire();
        assert(b.len() == 20);
        assert(b.subrange(0, 8) == le64(self.nonce));
        lemma_value64(b, 0, self.nonce);
        assert(b.subrange(8, 20) == self.spec.wire());
        self.spec.lemma_at(b, 8);
    }
}

/// The answer to a greeting: the nonce that was greeted with.
#[derive(Debug, Clone, Copy, PartialEq, Eq, Structural)]
pub struct HelloAckWire {
    pub ack_nonce: u64,
}

impl DeepView for HelloAckWire {
    type V = HelloAckWire;

    open spec fn deep_view(&self) -> HelloAckWire {
        *self
    }
}

impl HelloAckWire {
    pub open spec fn wire(self) -> Seq<u8> {
        le64(self.ack_nonce)
    }

    pub open spec fn read(b: Seq<u8>) -> Result<HelloAckWire, Seq<char>> {
        read_exact(
            b,
            8,
            "invalid xbee-rtt hello-ack payload length: "@,
            (HelloAckWire { ack_nonce: value64(b, 0) }),
        )
    }

    pub fn encode(self) -> (payload: Vec<u8>)
        ensures
            payload@ == self.wire(),
    {
        let mut payload: Vec<u8> = Vec::new();
        push_u64(&mut payload, self.ack_nonce);
        assert(payload@ =~= self.wire());
        payload
    }

    pub fn decode(payload: &[u8]) -> (r: Result<HelloAckWire, String>)
        ensures
            viewed(r) == HelloAckWire::read(payload@),
    {
        if payload.len() != 8 {
            return Err(
                cat2(
                    "invalid xbee-rtt hello-ack payload length: ",
                    decimal_text(payload.len() as u64).as_str(),
                ),
            );
        }
        Ok(HelloAckWire { ack_nonce: read_u64(payload, 0) })
    }

    /// What was written is read back.
    pub proof fn law_round_trip(self)
        ensures
            HelloAckWire::read(self.wire()) == Ok::<HelloAckWire, Seq<char>>(self),
    {
        assert(self.wire().subrange(0, 8) == self.wire());
        lemma_value64(self.wire(), 0, self.ack_nonce);
    }
}

/// The result of one measured direction.
#[derive(Debug, Clone, Copy, PartialEq, Eq, Structural)]
pub struct MeasurementSummaryWire {
    pub probe_count: u16,
    pub success_count: u16,
    pub timeout_count: u16,
    pub mismatch_count: u16,
    pub payload_size: u16,
    pub mean_rtt_us: u32,
    pub min_rtt_us: u32,
    pub max_rtt_us: u32,
}

impl DeepView for MeasurementSummaryWire {
    type V = MeasurementSummaryWire;

    open spec fn deep_view(&self) -> MeasurementSummaryWire {
        *self
    }
}

impl MeasurementSummaryWire {
    pub open spec fn wire(self) -> Seq<u8> {
        le16(self.probe_count) + le16(self.success_count) + le16(self.timeout_count) + le16(
            self.mismatch_count,
        ) + le16(self.payload_size) + le32(self.mean_rtt_us) + le32(self.min_rtt_us) + le32(
            self.max_rtt_us,
        )
    }

    pub open spec fn read(b: Seq<u8>) -> Result<MeasurementSummaryWire, Seq<char>> {
        read_exact(
            b,
            22,
            "invalid xbee-rtt result payload length: "@,
            (MeasurementSummaryWire {
                probe_count: value16(b, 0),
                success_count: value16(b, 2),
                timeout_count: value16(b, 4),
                mismatch_count: value16(b, 6),
                payload_size: value16(b, 8),
                mean_rtt_us: value32(b, 10),
                min_rtt_us: value32(b, 14),
                max_rtt_us: value32(b, 18),
            }),
        )
    }

    pub fn encode(self) -> (payload: Vec<u8>)
        ensures
            payload@ == self.wire(),
    {
        let mut payload: Vec<u8> = Vec::new();
        push_u16(&mut payload, self.probe_count);
        push_u16(&mut payload, self.success_count);
        push_u16(&mut payload, self.timeout_count);
        push_u16(&mut payload, self.mismatch_count);
        push_u16(&mut payload, self.payload_size);
        push_u32(&mut payload, self.mean_rtt_us);
        push_u32(&mut payload, self.min_rtt_us);
        push_u32(&mut payload, self.max_rtt_us);
        assert(payload@ =~= self.wire());
        payload
    }

    pub fn decode(payload: &[u8]) -> (r: Result<MeasurementSummaryWire, String>)
        ensures
            viewed(r) == MeasurementSummaryWire::read(payload@),
    {
        if payload.len() != 22 {
            return Err(
                cat2(
                    "invalid xbee-rtt result payload length: ",
                    decimal_text(payload.len() as u64).as_str(),
                ),
            );
        }
        Ok(
            MeasurementSummaryWire {
                probe_count: read_u16(payload, 0),
                success_count: read_u16(payload, 2),
                timeout_count: read_u16(payload, 4),
                mismatch_count: read_u16(payload, 6),
                payload_size: read_u16(payload, 8),
                mean_rtt_us: read_u32(payload, 10),
                min_rtt_us: read_u32(payload, 14),
                max_rtt_us: read_u32(payload, 18),
            },
        )
    }

    /// What was written is read back.
    pub proof fn law_round_trip(self)
        ensures
            MeasurementSummaryWire::read(self.wire()) == Ok::<MeasurementSummaryWire, Seq<char>>(
                self,
            ),
    {
        let b = self.wire();
        assert(b.subrange(0, 2) == le16(self.probe_count));
        assert(b.subrange(2, 4) == le16(self.success_count));
        assert(b.subrange(4, 6) == le16(self.timeout_count));
        assert(b.subrange(6, 8) == le16(self.mismatch_count));
        assert(b.subrange(8, 10) == le16(self.payload_size));
        assert(b.subrange(10, 14) == le32(self.mean_rtt_us));
        assert(b.subrange(14, 18) == le32(self.min_rtt_us));
        assert(b.subrange(18, 22) == le32(self.max_rtt_us));
        lemma_value16(b, 0, self.probe_count);
        lemma_value16(b, 2, self.success_count);
        lemma_value16(b, 4, self.timeout_count);
        lemma_value16(b, 6, self.mismatch_count);
        lemma_value16(b, 8, self.payload_size);
        lemma_value32(b, 10, self.mean_rtt_us);
        lemma_value32(b, 14, self.min_rtt_us);
        lemma_value32(b, 18, self.max_rtt_us);
    }
}

} // verus!

//! Bytes on the wire: little-endian numbers, byte queues and the CRC-16/CCITT-FALSE checksum.
use vstd::prelude::*;
use vstd::slice::slice_subrange;
use vstd::slice::slice_to_vec;

verus! {

/// A 16-bit number, lowest byte first.
pub open spec fn le16(n: u16) -> Seq<u8> {
    seq![(n % 256) as u8, (n / 256) as u8]
}

/// A 32-bit number, lowest byte first.
pub open spec fn le32(n: u32) -> Seq<u8> {
    le16((n % 65536) as u16) + le16((n / 65536) as u16)
}

/// A 64-bit number, lowest byte first.
pub open spec fn le64(n: u64) -> Seq<u8> {
    le32((n % 0x1_0000_0000) as u32) + le32((n / 0x1_0000_0000) as u32)
}

/// The 16-bit number at position `i`.
pub open spec fn value16(b: Seq<u8>, i: int) -> u16 {
    (b[i] + b[i + 1] * 256) as u16
}

/// The 32-bit number at position `i`.
pub open spec fn value32(b: Seq<u8>, i: int) -> u32 {
    (value16(b, i) + value16(b, i + 2) * 65536) as u32
}

/// The 64-bit number at position `i`.
pub open spec fn value64(b: Seq<u8>, i: int) -> u64 {
    (value32(b, i) + value32(b, i + 4) * 0x1_0000_0000) as u64
}

/// Reading a 16-bit number back from where it was written gives the number.
pub proof fn lemma_value16(b: Seq<u8>, i: int, n: u16)
    requires
        0 <= i,
        i + 2 <= b.len(),
        b.subrange(i, i + 2) == le16(n),
    ensures
        value16(b, i) == n,
{
    let s = b.subrange(i, i + 2);
    assert(s[0] == b[i] && s[1] == b[i + 1]);
    assert(n == (n / 256) * 256 + n % 256);
}

/// Reading a 32-bit number back from where it was written gives the number.
pub proof fn lemma_value32(b: Seq<u8>, i: int, n: u32)
    requires
        0 <= i,
        i + 4 <= b.len(),
        b.subrange(i, i + 4) == le32(n),
    ensures
        value32(b, i) == n,
{
    let s = b.subrange(i, i + 4);
    let lo = (n % 65536) as u16;
    let hi = (n / 65536) as u16;
    assert(b.subrange(i, i + 2) == s.subrange(0, 2));
    assert(s.subrange(0, 2) == le16(lo));
    assert(b.subrange(i + 2, i + 4) == s.subrange(2, 4));
    assert(s.subrange(2, 4) == le16(hi));
    lemma_value16(b, i, lo);
    lemma_value16(b, i + 2, hi);
}

/// Reading a 64-bit number back from where it was written gives the number.
pub proof fn lemma_value64(b: Seq<u8>, i: int, n: u64)
    requires
        0 <= i,
        i + 8 <= b.len(),
        b.subrange(i, i + 8) == le64(n),
    ensures
        value64(b, i) == n,
{
    let s = b.subrange(i, i + 8);
    let lo = (n % 0x1_0000_0000) as u32;
    let hi = (n / 0x1_0000_0000) as u32;
    assert(b.subrange(i, i + 4) == s.subrange(0, 4));
    assert(s.subrange(0, 4) == le32(lo));
    assert(b.subrange(i + 4, i + 8) == s.subrange(4, 8));
    assert(s.subrange(4, 8) == le32(hi));
    lemma_value32(b, i, lo);
    lemma_value32(b, i + 4, hi);
}

pub fn push_u16(out: &mut Vec<u8>, n: u16)
    ensures
        final(out)@ == old(out)@ + le16(n),
{
    out.push((n % 256) as u8);
    out.push((n / 256) as u8);
    assert(out@ == old(out)@ + le16(n));
}

pub fn push_u32(out: &mut Vec<u8>, n: u32)
    ensures
        final(out)@ == old(out)@ + le32(n),
{
    push_u16(out, (n % 65536) as u16);
    push_u16(out, (n / 65536) as u16);
    assert(out@ == old(out)@ + le32(n));
}

pub fn push_u64(out: &mut Vec<u8>, n: u64)
    ensures
        final(out)@ == old(out)@ + le64(n),
{
    push_u32(out, (n % 0x1_0000_0000) as u32);
    push_u32(out, (n / 0x1_0000_0000) as u32);
    assert(out@ == old(out)@ + le64(n));
}

pub fn read_u16(b: &[u8], i: usize) -> (n: u16)
    requires
        i + 2 <= b@.len(),
    ensures
        n == value16(b@, i as int),
{
    (b[i] as u16) + (b[i + 1] as u16) * 256
}

pub fn read_u32(b: &[u8], i: usize) -> (n: u32)
    requires
        i + 4 <= b@.len(),
    ensures
        n == value32(b@, i as int),
{
    assert(b@.len() == b.len());
    (read_u16(b, i) as u32) + (read_u16(b, i + 2) as u32) * 65536
}

pub fn read_u64(b: &[u8], i: usize) -> (n: u64)
    requires
        i + 8 <= b@.len(),
    ensures
        n == value64(b@, i as int),
{
    assert(b@.len() == b.len());
    (read_u32(b, i) as u64) + (read_u32(b, i + 4) as u64) * 0x1_0000_0000
}

/// Appends bytes.
pub fn push_bytes(out: &mut Vec<u8>, bytes: &[u8])
    ensures
        final(out)@ == old(out)@ + bytes@,
{
    out.extend_from_slice(bytes);
    assert(out@ =~= old(out)@ + bytes@);
}

/// Takes the first `n` bytes away.
pub fn drop_front(buffer: &mut Vec<u8>, n: usize)
    requires
        n <= old(buffer)@.len(),
    ensures
        final(buffer)@ == old(buffer)@.skip(n as int),
{
    let tail = buffer.split_off(n);
    *buffer = tail;
}

/// The bytes from `i` up to `j`.
pub fn sub_bytes(b: &[u8], i: usize, j: usize) -> (out: Vec<u8>)
    requires
        i <= j <= b@.len(),
    ensures
        out@ == b@.subrange(i as int, j as int),
{
    slice_to_vec(slice_subrange(b, i, j))
}

/// Whether two byte sequences are equal.
pub fn bytes_equal(a: &[u8], b: &[u8]) -> (r: bool)
    ensures
        r == (a@ == b@),
{
    if a.len() != b.len() {
        return false;
    }
    let mut i: usize = 0;
    while i < a.len()
        invariant
            i <= a@.len(),
            a@.len() == b@.len(),
            forall|k: int| 0 <= k < i ==> a@[k] == b@[k],
        decreases a@.len() - i,
    {
        if a[i] != b[i] {
            return false;
        }
        i += 1;
    }
    assert(a@ =~= b@);
    true
}

// ---------------------------------------------------------------------------
// CRC-16/CCITT-FALSE
// ---------------------------------------------------------------------------

/// One shift of the CRC register, with the polynomial 0x1021.
pub open spec fn crc_shift(register: u16) -> u16 {
    if register & 0x8000 != 0 {
        (register << 1) ^ 0x1021
    } else {
        register << 1
    }
}

pub open spec fn crc_shifts(register: u16, n: nat) -> u16
    decreases n,
{
    if n == 0 {
        register
    } else {
        crc_shift(crc_shifts(register, (n - 1) as nat))
    }
}

/// CRC-16/CCITT-FALSE: the register starts at 0xFFFF, and each byte enters at its top.
pub open spec fn crc16(bytes: Seq<u8>) -> u16
    decreases bytes.len(),
{
    if bytes.len() == 0 {
        0xFFFF
    } else {
        crc_shifts(crc16(bytes.drop_last()) ^ ((bytes.last() as u16) << 8), 8)
    }
}

/// The checksum of the bytes from `i` up to `j`.
pub fn crc16_range(bytes: &[u8], i: usize, j: usize) -> (crc: u16)
    requires
        i <= j <= bytes@.len(),
    ensures
        crc == crc16(bytes@.subrange(i as int, j as int)),
{
    let mut crc: u16 = 0xFFFF;
    let mut k: usize = i;
    let ghost s = bytes@.subrange(i as int, j as int);
    assert(s.take(0) == Seq::<u8>::empty());
    while k < j
        invariant
            i <= k <= j <= bytes@.len(),
            s == bytes@.subrange(i as int, j as int),
            crc == crc16(s.take(k - i)),
        decreases j - k,
    {
        proof {
            assert(s.take(k - i + 1).drop_last() == s.take(k - i));
            assert(s.take(k - i + 1).last() == bytes@[k as int]);
        }
        let entered: u16 = crc ^ ((bytes[k] as u16) << 8);
        crc = entered;
        let mut n: u32 = 0;
        while n < 8
            invariant
                n <= 8,
                crc == crc_shifts(entered, n as nat),
            decreases 8 - n,
        {
            if crc & 0x8000 != 0 {
                crc = (crc << 1) ^ 0x1021;
            } else {
                crc = crc << 1;
            }
            n += 1;
        }
        k += 1;
    }
    assert(s.take(j - i) == s);
    crc
}

/// The checksum of all the bytes.
pub fn crc16_ccitt_false(bytes: &[u8]) -> (crc: u16)
    ensures
        crc == crc16(bytes@),
{
    assert(bytes@.subrange(0, bytes@.len() as int) == bytes@);
    crc16_range(bytes, 0, bytes.len())
}

} // verus!

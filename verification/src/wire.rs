//! Little-endian integers inside a byte sequence.
//!
//! The format stores every multi-byte integer with its least significant byte
//! first. The spec functions here say what value stands at a position and which
//! bytes a value is written as; the executable functions read and append them.
use vstd::prelude::*;

verus! {

/// The 16-bit value whose two bytes start at `at`.
pub open spec fn u16_at(s: Seq<u8>, at: int) -> int {
    s[at] as int + 0x100 * (s[at + 1] as int)
}

/// The 24-bit value whose three bytes start at `at`.
pub open spec fn u24_at(s: Seq<u8>, at: int) -> int {
    s[at] as int + 0x100 * (s[at + 1] as int) + 0x1_0000 * (s[at + 2] as int)
}

/// The 32-bit value whose four bytes start at `at`.
pub open spec fn u32_at(s: Seq<u8>, at: int) -> int {
    s[at] as int + 0x100 * (s[at + 1] as int) + 0x1_0000 * (s[at + 2] as int) + 0x100_0000 * (
    s[at + 3] as int)
}

/// Byte number `k` of `v`, counted from the least significant one.
pub open spec fn byte_of(v: int, k: nat) -> u8 {
    if k == 0 {
        (v % 0x100) as u8
    } else if k == 1 {
        (v / 0x100 % 0x100) as u8
    } else if k == 2 {
        (v / 0x1_0000 % 0x100) as u8
    } else {
        (v / 0x100_0000 % 0x100) as u8
    }
}

/// The two bytes that `v` is written as.
pub open spec fn u16_bytes(v: int) -> Seq<u8> {
    seq![byte_of(v, 0), byte_of(v, 1)]
}

/// The three bytes that `v` is written as.
pub open spec fn u24_bytes(v: int) -> Seq<u8> {
    seq![byte_of(v, 0), byte_of(v, 1), byte_of(v, 2)]
}

/// The four bytes that `v` is written as.
pub open spec fn u32_bytes(v: int) -> Seq<u8> {
    seq![byte_of(v, 0), byte_of(v, 1), byte_of(v, 2), byte_of(v, 3)]
}

/// Reading back what was written gives the value, for each of the three widths.
pub proof fn lemma_read_written(v: int)
    ensures
        0 <= v < 0x1_0000 ==> u16_at(u16_bytes(v), 0) == v,
        0 <= v < 0x100_0000 ==> u24_at(u24_bytes(v), 0) == v,
        0 <= v < 0x1_0000_0000 ==> u32_at(u32_bytes(v), 0) == v,
{
}

/// The bytes of a value made of four bytes are those four bytes.
proof fn lemma_bytes_of_sum(b0: u8, b1: u8, b2: u8, b3: u8)
    ensures
        byte_of(b0 + 0x100 * b1 + 0x1_0000 * b2 + 0x100_0000 * b3, 0) == b0,
        byte_of(b0 + 0x100 * b1 + 0x1_0000 * b2 + 0x100_0000 * b3, 1) == b1,
        byte_of(b0 + 0x100 * b1 + 0x1_0000 * b2 + 0x100_0000 * b3, 2) == b2,
        byte_of(b0 + 0x100 * b1 + 0x1_0000 * b2 + 0x100_0000 * b3, 3) == b3,
{
    let v: int = b0 + 0x100 * b1 + 0x1_0000 * b2 + 0x100_0000 * b3;
    let q1: int = b1 + 0x100 * b2 + 0x1_0000 * b3;
    let q2: int = b2 + 0x100 * b3;
    assert(v == b0 + 0x100 * q1);
    assert(v / 0x100 == q1 && v % 0x100 == b0);
    assert(v == (b0 + 0x100 * b1) + 0x1_0000 * q2);
    assert(v / 0x1_0000 == q2);
    assert(q1 % 0x100 == b1);
    assert(v == (b0 + 0x100 * b1 + 0x1_0000 * b2) + 0x100_0000 * b3);
    assert(v / 0x100_0000 == b3);
    assert(q2 % 0x100 == b2);
}

/// Writing what was read gives the bytes back, for each of the three widths.
pub proof fn lemma_written_read(s: Seq<u8>, at: int)
    ensures
        0 <= at && at + 2 <= s.len() ==> u16_bytes(u16_at(s, at)) == s.subrange(at, at + 2),
        0 <= at && at + 3 <= s.len() ==> u24_bytes(u24_at(s, at)) == s.subrange(at, at + 3),
        0 <= at && at + 4 <= s.len() ==> u32_bytes(u32_at(s, at)) == s.subrange(at, at + 4),
{
    if 0 <= at && at + 2 <= s.len() {
        lemma_bytes_of_sum(s[at], s[at + 1], 0, 0);
        assert(u16_bytes(u16_at(s, at)) =~= s.subrange(at, at + 2));
    }
    if 0 <= at && at + 3 <= s.len() {
        lemma_bytes_of_sum(s[at], s[at + 1], s[at + 2], 0);
        assert(u24_bytes(u24_at(s, at)) =~= s.subrange(at, at + 3));
    }
    if 0 <= at && at + 4 <= s.len() {
        lemma_bytes_of_sum(s[at], s[at + 1], s[at + 2], s[at + 3]);
        assert(u32_bytes(u32_at(s, at)) =~= s.subrange(at, at + 4));
    }
}

/// A position inside a buffer, or at its end, is no larger than the largest
/// index there is.
pub proof fn lemma_len_fits(buf: &[u8])
    ensures
        buf@.len() <= usize::MAX,
{
    assert(buf.len() == buf@.len());
}

/// Reads the 16-bit value at `at`.
pub fn read_u16(buf: &[u8], at: usize) -> (r: u16)
    requires
        at + 2 <= buf@.len(),
    ensures
        r == u16_at(buf@, at as int),
{
    let b0: u16 = buf[at] as u16;
    let b1: u16 = buf[at + 1] as u16;
    b0 + 0x100 * b1
}

/// Reads the 24-bit value at `at`.
pub fn read_u24(buf: &[u8], at: usize) -> (r: u32)
    requires
        at + 3 <= buf@.len(),
    ensures
        r == u24_at(buf@, at as int),
        r < 0x100_0000,
{
    let b0: u32 = buf[at] as u32;
    let b1: u32 = buf[at + 1] as u32;
    let b2: u32 = buf[at + 2] as u32;
    b0 + 0x100 * b1 + 0x1_0000 * b2
}

/// Reads the 32-bit value at `at`.
pub fn read_u32(buf: &[u8], at: usize) -> (r: u32)
    requires
        at + 4 <= buf@.len(),
    ensures
        r == u32_at(buf@, at as int),
{
    let b0: u32 = buf[at] as u32;
    let b1: u32 = buf[at + 1] as u32;
    let b2: u32 = buf[at + 2] as u32;
    let b3: u32 = buf[at + 3] as u32;
    b0 + 0x100 * b1 + 0x1_0000 * b2 + 0x100_0000 * b3
}

/// Appends the two bytes of `v` to `out`.
pub fn push_u16(out: &mut Vec<u8>, v: u16)
    ensures
        final(out)@ == old(out)@ + u16_bytes(v as int),
{
    out.push((v % 0x100) as u8);
    out.push((v / 0x100 % 0x100) as u8);
    assert(out@ =~= old(out)@ + u16_bytes(v as int));
}

/// Appends the four bytes of `v` to `out`.
pub fn push_u32(out: &mut Vec<u8>, v: u32)
    ensures
        final(out)@ == old(out)@ + u32_bytes(v as int),
{
    out.push((v % 0x100) as u8);
    out.push((v / 0x100 % 0x100) as u8);
    out.push((v / 0x1_0000 % 0x100) as u8);
    out.push((v / 0x100_0000 % 0x100) as u8);
    assert(out@ =~= old(out)@ + u32_bytes(v as int));
}

/// Appends every byte of `src` to `out`.
pub fn push_all(out: &mut Vec<u8>, src: &[u8])
    ensures
        final(out)@ == old(out)@ + src@,
{
    let mut i: usize = 0;
    while i < src.len()
        invariant
            i <= src@.len(),
            out@ == old(out)@ + src@.subrange(0, i as int),
        decreases src@.len() - i,
    {
        out.push(src[i]);
        i = i + 1;
        assert(out@ =~= old(out)@ + src@.subrange(0, i as int));
    }
    assert(src@.subrange(0, i as int) =~= src@);
}

/// Whether the two slices hold the same bytes.
pub fn bytes_equal(a: &[u8], b: &[u8]) -> (r: bool)
    ensures
        r == (a@ == b@),
{
    if a.len() != b.len() {
        return false;
    }
    let mut i: usize = 0;
    while i < a.len()
        invariant
            a@.len() == b@.len(),
            i <= a@.len(),
            a@.subrange(0, i as int) == b@.subrange(0, i as int),
        decreases a@.len() - i,
    {
        if a[i] != b[i] {
            return false;
        }
        i = i + 1;
        assert(a@.subrange(0, i as int) =~= a@.subrange(0, i - 1).push(a@[i - 1]));
        assert(b@.subrange(0, i as int) =~= b@.subrange(0, i - 1).push(b@[i - 1]));
    }
    assert(a@ =~= a@.subrange(0, i as int));
    assert(b@ =~= b@.subrange(0, i as int));
    true
}

} // verus!

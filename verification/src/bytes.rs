//! Little-endian integer codecs over byte sequences.

use vstd::prelude::*;

verus! {

/// The two little-endian bytes of a `u16`.
pub open spec fn le16(v: u16) -> Seq<u8> {
    seq![(v & 0xff) as u8, ((v >> 8u16) & 0xff) as u8]
}

/// The four little-endian bytes of a `u32`.
pub open spec fn le32(v: u32) -> Seq<u8> {
    seq![
        (v & 0xff) as u8,
        ((v >> 8u32) & 0xff) as u8,
        ((v >> 16u32) & 0xff) as u8,
        ((v >> 24u32) & 0xff) as u8,
    ]
}

/// The eight little-endian bytes of a `u64`.
pub open spec fn le64(v: u64) -> Seq<u8> {
    seq![
        (v & 0xff) as u8,
        ((v >> 8u64) & 0xff) as u8,
        ((v >> 16u64) & 0xff) as u8,
        ((v >> 24u64) & 0xff) as u8,
        ((v >> 32u64) & 0xff) as u8,
        ((v >> 40u64) & 0xff) as u8,
        ((v >> 48u64) & 0xff) as u8,
        ((v >> 56u64) & 0xff) as u8,
    ]
}

/// The `u16` stored little-endian at `off`.
pub open spec fn u16_at(s: Seq<u8>, off: int) -> u16 {
    (s[off] as u16) | ((s[off + 1] as u16) << 8u16)
}

/// The `u32` stored little-endian at `off`.
pub open spec fn u32_at(s: Seq<u8>, off: int) -> u32 {
    (s[off] as u32) | ((s[off + 1] as u32) << 8u32) | ((s[off + 2] as u32) << 16u32) | ((
    s[off + 3] as u32) << 24u32)
}

/// The `u64` stored little-endian at `off`.
pub open spec fn u64_at(s: Seq<u8>, off: int) -> u64 {
    (s[off] as u64) | ((s[off + 1] as u64) << 8u64) | ((s[off + 2] as u64) << 16u64) | ((s[off
        + 3] as u64) << 24u64) | ((s[off + 4] as u64) << 32u64) | ((s[off + 5] as u64) << 40u64)
        | ((s[off + 6] as u64) << 48u64) | ((s[off + 7] as u64) << 56u64)
}

/// Reading back the bytes of a `u16` gives the `u16`.
pub proof fn lemma_u16_roundtrip(v: u16)
    ensures
        u16_at(le16(v), 0) == v,
{
    let b0 = (v & 0xff) as u8;
    let b1 = ((v >> 8u16) & 0xff) as u8;
    assert((b0 as u16) | ((b1 as u16) << 8u16) == v) by (bit_vector)
        requires
            b0 == (v & 0xff) as u8,
            b1 == ((v >> 8u16) & 0xff) as u8,
    ;
}

/// Reading back the bytes of a `u32` gives the `u32`.
pub proof fn lemma_u32_roundtrip(v: u32)
    ensures
        u32_at(le32(v), 0) == v,
{
    let b0 = (v & 0xff) as u8;
    let b1 = ((v >> 8u32) & 0xff) as u8;
    let b2 = ((v >> 16u32) & 0xff) as u8;
    let b3 = ((v >> 24u32) & 0xff) as u8;
    assert((b0 as u32) | ((b1 as u32) << 8u32) | ((b2 as u32) << 16u32) | ((b3 as u32) << 24u32)
        == v) by (bit_vector)
        requires
            b0 == (v & 0xff) as u8,
            b1 == ((v >> 8u32) & 0xff) as u8,
            b2 == ((v >> 16u32) & 0xff) as u8,
            b3 == ((v >> 24u32) & 0xff) as u8,
    ;
}

/// Reading back the bytes of a `u64` gives the `u64`.
pub proof fn lemma_u64_roundtrip(v: u64)
    ensures
        u64_at(le64(v), 0) == v,
{
    let b0 = (v & 0xff) as u8;
    let b1 = ((v >> 8u64) & 0xff) as u8;
    let b2 = ((v >> 16u64) & 0xff) as u8;
    let b3 = ((v >> 24u64) & 0xff) as u8;
    let b4 = ((v >> 32u64) & 0xff) as u8;
    let b5 = ((v >> 40u64) & 0xff) as u8;
    let b6 = ((v >> 48u64) & 0xff) as u8;
    let b7 = ((v >> 56u64) & 0xff) as u8;
    assert((b0 as u64) | ((b1 as u64) << 8u64) | ((b2 as u64) << 16u64) | ((b3 as u64) << 24u64)
        | ((b4 as u64) << 32u64) | ((b5 as u64) << 40u64) | ((b6 as u64) << 48u64) | ((
    b7 as u64) << 56u64) == v) by (bit_vector)
        requires
            b0 == (v & 0xff) as u8,
            b1 == ((v >> 8u64) & 0xff) as u8,
            b2 == ((v >> 16u64) & 0xff) as u8,
            b3 == ((v >> 24u64) & 0xff) as u8,
            b4 == ((v >> 32u64) & 0xff) as u8,
            b5 == ((v >> 40u64) & 0xff) as u8,
            b6 == ((v >> 48u64) & 0xff) as u8,
            b7 == ((v >> 56u64) & 0xff) as u8,
    ;
}

/// Writing the `u32` read at `off` reproduces the four bytes found there.
pub proof fn lemma_u32_bytes_of_read(s: Seq<u8>, off: int)
    requires
        0 <= off,
        off + 4 <= s.len(),
    ensures
        le32(u32_at(s, off)) == s.subrange(off, off + 4),
{
    let b0 = s[off];
    let b1 = s[off + 1];
    let b2 = s[off + 2];
    let b3 = s[off + 3];
    let v = u32_at(s, off);
    assert(v == (b0 as u32) | ((b1 as u32) << 8u32) | ((b2 as u32) << 16u32) | ((b3 as u32)
        << 24u32));
    assert((v & 0xff) as u8 == b0 && ((v >> 8u32) & 0xff) as u8 == b1 && ((v >> 16u32) & 0xff) as u8
        == b2 && ((v >> 24u32) & 0xff) as u8 == b3) by (bit_vector)
        requires
            v == (b0 as u32) | ((b1 as u32) << 8u32) | ((b2 as u32) << 16u32) | ((b3 as u32)
                << 24u32),
    ;
    assert(le32(v) =~= s.subrange(off, off + 4));
}

/// Writing the `u16` read at `off` reproduces the two bytes found there.
pub proof fn lemma_u16_bytes_of_read(s: Seq<u8>, off: int)
    requires
        0 <= off,
        off + 2 <= s.len(),
    ensures
        le16(u16_at(s, off)) == s.subrange(off, off + 2),
{
    let b0 = s[off];
    let b1 = s[off + 1];
    let v = u16_at(s, off);
    assert((v & 0xff) as u8 == b0 && ((v >> 8u16) & 0xff) as u8 == b1) by (bit_vector)
        requires
            v == (b0 as u16) | ((b1 as u16) << 8u16),
    ;
    assert(le16(v) =~= s.subrange(off, off + 2));
}

/// Reading a `u16` only looks at the two bytes at `off`.
pub proof fn lemma_u16_at_subrange(s: Seq<u8>, t: Seq<u8>, off: int, toff: int)
    requires
        0 <= off,
        off + 2 <= s.len(),
        0 <= toff,
        toff + 2 <= t.len(),
        s.subrange(off, off + 2) == t.subrange(toff, toff + 2),
    ensures
        u16_at(s, off) == u16_at(t, toff),
{
    assert(s[off] == s.subrange(off, off + 2)[0]);
    assert(s[off + 1] == s.subrange(off, off + 2)[1]);
    assert(t[toff] == t.subrange(toff, toff + 2)[0]);
    assert(t[toff + 1] == t.subrange(toff, toff + 2)[1]);
}

/// Reading a `u32` only looks at the four bytes at `off`.
pub proof fn lemma_u32_at_subrange(s: Seq<u8>, t: Seq<u8>, off: int, toff: int)
    requires
        0 <= off,
        off + 4 <= s.len(),
        0 <= toff,
        toff + 4 <= t.len(),
        s.subrange(off, off + 4) == t.subrange(toff, toff + 4),
    ensures
        u32_at(s, off) == u32_at(t, toff),
{
    assert(s[off + 0] == s.subrange(off, off + 4)[0] && t[toff + 0] == t.subrange(toff, toff + 4)[0]);
    assert(s[off + 1] == s.subrange(off, off + 4)[1] && t[toff + 1] == t.subrange(toff, toff + 4)[1]);
    assert(s[off + 2] == s.subrange(off, off + 4)[2] && t[toff + 2] == t.subrange(toff, toff + 4)[2]);
    assert(s[off + 3] == s.subrange(off, off + 4)[3] && t[toff + 3] == t.subrange(toff, toff + 4)[3]);
}

/// Reading a `u64` only looks at the eight bytes at `off`.
pub proof fn lemma_u64_at_subrange(s: Seq<u8>, t: Seq<u8>, off: int, toff: int)
    requires
        0 <= off,
        off + 8 <= s.len(),
        0 <= toff,
        toff + 8 <= t.len(),
        s.subrange(off, off + 8) == t.subrange(toff, toff + 8),
    ensures
        u64_at(s, off) == u64_at(t, toff),
{
    assert(s[off + 0] == s.subrange(off, off + 8)[0] && t[toff + 0] == t.subrange(toff, toff + 8)[0]);
    assert(s[off + 1] == s.subrange(off, off + 8)[1] && t[toff + 1] == t.subrange(toff, toff + 8)[1]);
    assert(s[off + 2] == s.subrange(off, off + 8)[2] && t[toff + 2] == t.subrange(toff, toff + 8)[2]);
    assert(s[off + 3] == s.subrange(off, off + 8)[3] && t[toff + 3] == t.subrange(toff, toff + 8)[3]);
    assert(s[off + 4] == s.subrange(off, off + 8)[4] && t[toff + 4] == t.subrange(toff, toff + 8)[4]);
    assert(s[off + 5] == s.subrange(off, off + 8)[5] && t[toff + 5] == t.subrange(toff, toff + 8)[5]);
    assert(s[off + 6] == s.subrange(off, off + 8)[6] && t[toff + 6] == t.subrange(toff, toff + 8)[6]);
    assert(s[off + 7] == s.subrange(off, off + 8)[7] && t[toff + 7] == t.subrange(toff, toff + 8)[7]);
}

pub fn read_u16_le(s: &[u8], off: usize) -> (r: u16)
    requires
        off + 2 <= s@.len(),
    ensures
        r == u16_at(s@, off as int),
{
    (s[off] as u16) | ((s[off + 1] as u16) << 8u16)
}

pub fn read_u32_le(s: &[u8], off: usize) -> (r: u32)
    requires
        off + 4 <= s@.len(),
    ensures
        r == u32_at(s@, off as int),
{
    (s[off] as u32) | ((s[off + 1] as u32) << 8u32) | ((s[off + 2] as u32) << 16u32) | ((s[off
        + 3] as u32) << 24u32)
}

pub fn read_u64_le(s: &[u8], off: usize) -> (r: u64)
    requires
        off + 8 <= s@.len(),
    ensures
        r == u64_at(s@, off as int),
{
    (s[off] as u64) | ((s[off + 1] as u64) << 8u64) | ((s[off + 2] as u64) << 16u64) | ((s[off
        + 3] as u64) << 24u64) | ((s[off + 4] as u64) << 32u64) | ((s[off + 5] as u64) << 40u64)
        | ((s[off + 6] as u64) << 48u64) | ((s[off + 7] as u64) << 56u64)
}

pub fn write_u16_le(out: &mut Vec<u8>, v: u16)
    ensures
        final(out)@ == old(out)@ + le16(v),
{
    out.push((v & 0xff) as u8);
    out.push(((v >> 8u16) & 0xff) as u8);
    assert(final(out)@ =~= old(out)@ + le16(v));
}

pub fn write_u32_le(out: &mut Vec<u8>, v: u32)
    ensures
        final(out)@ == old(out)@ + le32(v),
{
    out.push((v & 0xff) as u8);
    out.push(((v >> 8u32) & 0xff) as u8);
    out.push(((v >> 16u32) & 0xff) as u8);
    out.push(((v >> 24u32) & 0xff) as u8);
    assert(final(out)@ =~= old(out)@ + le32(v));
}

pub fn write_u64_le(out: &mut Vec<u8>, v: u64)
    ensures
        final(out)@ == old(out)@ + le64(v),
{
    out.push((v & 0xff) as u8);
    out.push(((v >> 8u64) & 0xff) as u8);
    out.push(((v >> 16u64) & 0xff) as u8);
    out.push(((v >> 24u64) & 0xff) as u8);
    out.push(((v >> 32u64) & 0xff) as u8);
    out.push(((v >> 40u64) & 0xff) as u8);
    out.push(((v >> 48u64) & 0xff) as u8);
    out.push(((v >> 56u64) & 0xff) as u8);
    assert(final(out)@ =~= old(out)@ + le64(v));
}

/// `n` zero bytes.
pub open spec fn zeros(n: nat) -> Seq<u8> {
    Seq::new(n, |i: int| 0u8)
}

/// Number of zero bytes that bring a length of `n` up to a multiple of `align`.
pub open spec fn pad_len(n: nat, align: nat) -> nat {
    if n % align == 0 {
        0
    } else {
        (align - n % align) as nat
    }
}

/// `s` followed by the zero bytes that make its length a multiple of `align`.
pub open spec fn padded_to(s: Seq<u8>, align: nat) -> Seq<u8> {
    s + zeros(pad_len(s.len(), align))
}

/// A padded sequence keeps its prefix, has a length that is a multiple of the alignment,
/// and is less than one alignment unit longer.
pub proof fn lemma_padded(s: Seq<u8>, align: nat)
    requires
        align > 0,
    ensures
        padded_to(s, align).len() % align == 0,
        s.len() <= padded_to(s, align).len() < s.len() + align,
        padded_to(s, align).subrange(0, s.len() as int) == s,
        s.len() % align == 0 ==> padded_to(s, align) == s,
{
    let p = padded_to(s, align);
    assert(p.subrange(0, s.len() as int) =~= s);
    if s.len() % align == 0 {
        assert(p =~= s);
    } else {
        let r = s.len() % align;
        assert(s.len() == align * (s.len() / align) + r) by (nonlinear_arith)
            requires
                align > 0,
                r == s.len() % align,
        ;
        assert(p.len() == align * (s.len() / align + 1)) by (nonlinear_arith)
            requires
                p.len() == s.len() + (align - r),
                s.len() == align * (s.len() / align) + r,
        ;
        assert(p.len() % align == 0) by (nonlinear_arith)
            requires
                align > 0,
                p.len() == align * (s.len() / align + 1),
        ;
    }
}

/// Appends `data` to `out`.
pub fn append_bytes(out: &mut Vec<u8>, data: &[u8])
    ensures
        final(out)@ == old(out)@ + data@,
{
    let ghost start = out@;
    let mut i: usize = 0;
    while i < data.len()
        invariant
            0 <= i <= data@.len(),
            out@ == start + data@.subrange(0, i as int),
        decreases data@.len() - i,
    {
        out.push(data[i]);
        i = i + 1;
        assert(out@ =~= start + data@.subrange(0, i as int));
    }
    assert(data@.subrange(0, data@.len() as int) =~= data@);
}

/// Appends zero bytes until the length of `buf` is a multiple of `align`.
pub fn pad_to_alignment(buf: &mut Vec<u8>, align: usize)
    requires
        align > 0,
    ensures
        final(buf)@ == padded_to(old(buf)@, align as nat),
{
    let ghost start = buf@;
    let remainder = buf.len() % align;
    if remainder != 0 {
        let padding = align - remainder;
        let mut i: usize = 0;
        while i < padding
            invariant
                0 <= i <= padding,
                buf@ == start + zeros(i as nat),
            decreases padding - i,
        {
            buf.push(0u8);
            i = i + 1;
            assert(buf@ =~= start + zeros(i as nat));
        }
    } else {
        assert(buf@ =~= padded_to(start, align as nat));
    }
}

} // verus!

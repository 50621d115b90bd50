//! Fixed-width integers read from and written to byte sequences.

use vstd::prelude::*;

verus! {

/// Big-endian value of the four bytes of `s` starting at `i`.
pub open spec fn be32_at(s: Seq<u8>, i: int) -> int {
    s[i] * 0x1000000 + s[i + 1] * 0x10000 + s[i + 2] * 0x100 + s[i + 3]
}

/// Big-endian value of the two bytes of `s` starting at `i`.
pub open spec fn be16_at(s: Seq<u8>, i: int) -> int {
    s[i] * 0x100 + s[i + 1]
}

/// Little-endian value of the four bytes of `s` starting at `i`.
pub open spec fn le32_at(s: Seq<u8>, i: int) -> int {
    s[i] + s[i + 1] * 0x100 + s[i + 2] * 0x10000 + s[i + 3] * 0x1000000
}

/// The four big-endian bytes of `v`.
pub open spec fn be32_bytes(v: u32) -> Seq<u8> {
    seq![
        (v / 0x1000000) as u8,
        ((v / 0x10000) % 0x100) as u8,
        ((v / 0x100) % 0x100) as u8,
        (v % 0x100) as u8,
    ]
}

/// The four little-endian bytes of `v`.
pub open spec fn le32_bytes(v: u32) -> Seq<u8> {
    seq![
        (v % 0x100) as u8,
        ((v / 0x100) % 0x100) as u8,
        ((v / 0x10000) % 0x100) as u8,
        (v / 0x1000000) as u8,
    ]
}

/// Reads a big-endian `u32` at `i`.
pub fn read_be32(s: &[u8], i: usize) -> (v: u32)
    requires
        i + 4 <= s@.len(),
    ensures
        v == be32_at(s@, i as int),
{
    let a: u32 = s[i] as u32;
    let b: u32 = s[i + 1] as u32;
    let c: u32 = s[i + 2] as u32;
    let d: u32 = s[i + 3] as u32;
    a * 0x1000000 + b * 0x10000 + c * 0x100 + d
}

/// Reads a big-endian `u16` at `i`, widened to `u32`.
pub fn read_be16(s: &[u8], i: usize) -> (v: u32)
    requires
        i + 2 <= s@.len(),
    ensures
        v == be16_at(s@, i as int),
{
    let a: u32 = s[i] as u32;
    let b: u32 = s[i + 1] as u32;
    a * 0x100 + b
}

/// Reads a little-endian `u32` at `i`.
pub fn read_le32(s: &[u8], i: usize) -> (v: u32)
    requires
        i + 4 <= s@.len(),
    ensures
        v == le32_at(s@, i as int),
{
    let a: u32 = s[i] as u32;
    let b: u32 = s[i + 1] as u32;
    let c: u32 = s[i + 2] as u32;
    let d: u32 = s[i + 3] as u32;
    a + b * 0x100 + c * 0x10000 + d * 0x1000000
}

/// Appends the big-endian bytes of `v`.
pub fn push_be32(out: &mut Vec<u8>, v: u32)
    ensures
        final(out)@ == old(out)@ + be32_bytes(v),
{
    out.push((v / 0x1000000) as u8);
    out.push(((v / 0x10000) % 0x100) as u8);
    out.push(((v / 0x100) % 0x100) as u8);
    out.push((v % 0x100) as u8);
    assert(final(out)@ =~= old(out)@ + be32_bytes(v));
}

/// Appends the little-endian bytes of `v`.
pub fn push_le32(out: &mut Vec<u8>, v: u32)
    ensures
        final(out)@ == old(out)@ + le32_bytes(v),
{
    out.push((v % 0x100) as u8);
    out.push(((v / 0x100) % 0x100) as u8);
    out.push(((v / 0x10000) % 0x100) as u8);
    out.push((v / 0x1000000) as u8);
    assert(final(out)@ =~= old(out)@ + le32_bytes(v));
}

/// Appends all of `src`.
pub fn push_all(out: &mut Vec<u8>, src: &[u8])
    ensures
        final(out)@ == old(out)@ + src@,
{
    let ghost start = out@;
    let mut i: usize = 0;
    while i < src.len()
        invariant
            i <= src@.len(),
            out@ == start + src@.subrange(0, i as int),
        decreases src@.len() - i,
    {
        out.push(src[i]);
        i = i + 1;
        assert(out@ =~= start + src@.subrange(0, i as int));
    }
    assert(src@.subrange(0, src@.len() as int) =~= src@);
}

/// Appends `s[start..end]`.
pub fn push_range(out: &mut Vec<u8>, s: &[u8], start: usize, end: usize)
    requires
        start <= end <= s@.len(),
    ensures
        final(out)@ == old(out)@ + s@.subrange(start as int, end as int),
{
    let ghost before = out@;
    let mut i: usize = start;
    while i < end
        invariant
            start <= i <= end <= s@.len(),
            out@ == before + s@.subrange(start as int, i as int),
        decreases end - i,
    {
        out.push(s[i]);
        i = i + 1;
        assert(out@ =~= before + s@.subrange(start as int, i as int));
    }
}

/// A fresh vector holding `s[start..end]`.
pub fn copy_range(s: &[u8], start: usize, end: usize) -> (v: Vec<u8>)
    requires
        start <= end <= s@.len(),
    ensures
        v@ == s@.subrange(start as int, end as int),
{
    let mut v: Vec<u8> = Vec::new();
    let mut i: usize = start;
    while i < end
        invariant
            start <= i <= end <= s@.len(),
            v@ == s@.subrange(start as int, i as int),
        decreases end - i,
    {
        v.push(s[i]);
        i = i + 1;
        assert(v@ =~= s@.subrange(start as int, i as int));
    }
    v
}

/// Whether `s[start..start + lit.len()]` equals `lit`.
pub fn range_equals(s: &[u8], start: usize, lit: &[u8]) -> (b: bool)
    ensures
        b == (start + lit@.len() <= s@.len() && s@.subrange(
            start as int,
            start + lit@.len(),
        ) == lit@),
{
    if start > s.len() || lit.len() > s.len() - start {
        return false;
    }
    let n = s.len();
    let mut i: usize = 0;
    while i < lit.len()
        invariant
            n == s@.len(),
            start + lit@.len() <= s@.len(),
            i <= lit@.len(),
            forall|j: int| 0 <= j < i ==> s@[start + j] == lit@[j],
        decreases lit@.len() - i,
    {
        if s[start + i] != lit[i] {
            assert(s@.subrange(start as int, start + lit@.len())[i as int] != lit@[i as int]);
            return false;
        }
        i = i + 1;
    }
    assert(s@.subrange(start as int, start + lit@.len()) =~= lit@);
    true
}

} // verus!

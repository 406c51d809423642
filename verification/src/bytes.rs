//! Little-endian encoding of fixed-width integers, as the checkpoint file formats use.
use vstd::prelude::*;

verus! {

/// The four little-endian bytes of `v`.
pub open spec fn le_u32(v: u32) -> Seq<u8> {
    seq![v as u8, (v >> 8) as u8, (v >> 16) as u8, (v >> 24) as u8]
}

/// The eight little-endian bytes of `v`.
pub open spec fn le_u64(v: u64) -> Seq<u8> {
    seq![
        v as u8, (v >> 8) as u8, (v >> 16) as u8, (v >> 24) as u8,
        (v >> 32) as u8, (v >> 40) as u8, (v >> 48) as u8, (v >> 56) as u8,
    ]
}

/// The value of the four bytes at `at` of `s`, read little-endian.
pub open spec fn u32_at(s: Seq<u8>, at: int) -> u32 {
    (s[at] as u32) | ((s[at + 1] as u32) << 8) | ((s[at + 2] as u32) << 16) | ((s[at + 3] as u32) << 24)
}

/// The value of the eight bytes at `at` of `s`, read little-endian.
pub open spec fn u64_at(s: Seq<u8>, at: int) -> u64 {
    (s[at] as u64) | ((s[at + 1] as u64) << 8) | ((s[at + 2] as u64) << 16) | ((s[at + 3] as u64) << 24)
        | ((s[at + 4] as u64) << 32) | ((s[at + 5] as u64) << 40) | ((s[at + 6] as u64) << 48)
        | ((s[at + 7] as u64) << 56)
}

/// Reading back the bytes of a 32-bit value gives the value.
pub proof fn lemma_u32_roundtrip(v: u32)
    ensures
        u32_at(le_u32(v), 0) == v,
{
    let b = le_u32(v);
    let (b0, b1, b2, b3) = (b[0], b[1], b[2], b[3]);
    assert((b0 as u32) | ((b1 as u32) << 8) | ((b2 as u32) << 16) | ((b3 as u32) << 24) == v) by (bit_vector)
        requires
            b0 == v as u8,
            b1 == (v >> 8) as u8,
            b2 == (v >> 16) as u8,
            b3 == (v >> 24) as u8,
    ;
}

/// Reading back the bytes of a 64-bit value gives the value.
pub proof fn lemma_u64_roundtrip(v: u64)
    ensures
        u64_at(le_u64(v), 0) == v,
{
    let b = le_u64(v);
    let (b0, b1, b2, b3, b4, b5, b6, b7) = (b[0], b[1], b[2], b[3], b[4], b[5], b[6], b[7]);
    assert((b0 as u64) | ((b1 as u64) << 8) | ((b2 as u64) << 16) | ((b3 as u64) << 24)
        | ((b4 as u64) << 32) | ((b5 as u64) << 40) | ((b6 as u64) << 48) | ((b7 as u64) << 56) == v)
        by (bit_vector)
        requires
            b0 == v as u8,
            b1 == (v >> 8) as u8,
            b2 == (v >> 16) as u8,
            b3 == (v >> 24) as u8,
            b4 == (v >> 32) as u8,
            b5 == (v >> 40) as u8,
            b6 == (v >> 48) as u8,
            b7 == (v >> 56) as u8,
    ;
}

/// A 64-bit value written between `p` and `q` reads back from its position.
pub proof fn lemma_u64_in(p: Seq<u8>, v: u64, q: Seq<u8>)
    ensures
        u64_at(p + le_u64(v) + q, p.len() as int) == v,
{
    let t = p + le_u64(v) + q;
    let n = p.len() as int;
    let b = le_u64(v);
    assert(t[n] == b[0]);
    assert(t[n + 1] == b[1]);
    assert(t[n + 2] == b[2]);
    assert(t[n + 3] == b[3]);
    assert(t[n + 4] == b[4]);
    assert(t[n + 5] == b[5]);
    assert(t[n + 6] == b[6]);
    assert(t[n + 7] == b[7]);
    lemma_u64_roundtrip(v);
}

/// A 32-bit value written between `p` and `q` reads back from its position.
pub proof fn lemma_u32_in(p: Seq<u8>, v: u32, q: Seq<u8>)
    ensures
        u32_at(p + le_u32(v) + q, p.len() as int) == v,
{
    let t = p + le_u32(v) + q;
    let n = p.len() as int;
    let b = le_u32(v);
    assert(t[n] == b[0]);
    assert(t[n + 1] == b[1]);
    assert(t[n + 2] == b[2]);
    assert(t[n + 3] == b[3]);
    lemma_u32_roundtrip(v);
}

/// Appends the four little-endian bytes of `v`.
pub fn push_u32_le(out: &mut Vec<u8>, v: u32)
    ensures
        final(out)@ == old(out)@ + le_u32(v),
{
    out.push(v as u8);
    out.push((v >> 8) as u8);
    out.push((v >> 16) as u8);
    out.push((v >> 24) as u8);
    assert(final(out)@ =~= old(out)@ + le_u32(v));
}

/// Appends the eight little-endian bytes of `v`.
pub fn push_u64_le(out: &mut Vec<u8>, v: u64)
    ensures
        final(out)@ == old(out)@ + le_u64(v),
{
    out.push(v as u8);
    out.push((v >> 8) as u8);
    out.push((v >> 16) as u8);
    out.push((v >> 24) as u8);
    out.push((v >> 32) as u8);
    out.push((v >> 40) as u8);
    out.push((v >> 48) as u8);
    out.push((v >> 56) as u8);
    assert(final(out)@ =~= old(out)@ + le_u64(v));
}

/// The four bytes at `at`, read little-endian.
pub fn read_u32_le(s: &[u8], at: usize) -> (v: u32)
    requires
        at + 4 <= s@.len(),
    ensures
        v == u32_at(s@, at as int),
{
    (s[at] as u32) | ((s[at + 1] as u32) << 8) | ((s[at + 2] as u32) << 16) | ((s[at + 3] as u32) << 24)
}

/// The eight bytes at `at`, read little-endian.
pub fn read_u64_le(s: &[u8], at: usize) -> (v: u64)
    requires
        at + 8 <= s@.len(),
    ensures
        v == u64_at(s@, at as int),
{
    (s[at] as u64) | ((s[at + 1] as u64) << 8) | ((s[at + 2] as u64) << 16) | ((s[at + 3] as u64) << 24)
        | ((s[at + 4] as u64) << 32) | ((s[at + 5] as u64) << 40) | ((s[at + 6] as u64) << 48)
        | ((s[at + 7] as u64) << 56)
}

/// The bytes of `v` from position `from` on.
pub fn tail_bytes(v: &[u8], from: usize) -> (out: Vec<u8>)
    requires
        from <= v@.len(),
    ensures
        out@ == v@.subrange(from as int, v@.len() as int),
{
    let mut out: Vec<u8> = Vec::new();
    let mut i = from;
    while i < v.len()
        invariant
            from <= i <= v@.len(),
            out@ == v@.subrange(from as int, i as int),
        decreases v@.len() - i,
    {
        out.push(v[i]);
        proof {
            assert(v@.subrange(from as int, i as int + 1) =~= v@.subrange(from as int, i as int).push(v@[i as int]));
        }
        i = i + 1;
    }
    out
}

} // verus!

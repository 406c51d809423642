//! Byte codecs of the log records: run-length encoding, an escape-byte run encoding, a
//! frequency-table framing and a literal/back-reference encoding, with their decoders.
use vstd::prelude::*;
use crate::native_error::{NativeBackendError, NativeResult};
use crate::text::owned;

verus! {

/// Length of the run of bytes equal to `d[i]` that starts at `i`, counted on from `c`
/// and capped at 255.
pub open spec fn run_ext(d: Seq<u8>, i: int, c: int) -> int
    decreases 255 - c,
{
    if c < 255 && i + c < d.len() && d[i + c] == d[i] {
        run_ext(d, i, c + 1)
    } else {
        c
    }
}

/// Length of the run of bytes equal to `d[i]` that starts at `i`, capped at 255.
pub open spec fn run_len(d: Seq<u8>, i: int) -> int {
    run_ext(d, i, 1)
}

proof fn lemma_run_ext(d: Seq<u8>, i: int, c: int)
    requires
        0 <= i,
        1 <= c <= 255,
        i + c <= d.len(),
        forall|k: int| 0 <= k < c ==> #[trigger] d[i + k] == d[i],
    ensures
        c <= run_ext(d, i, c) <= 255,
        i + run_ext(d, i, c) <= d.len(),
        forall|k: int| 0 <= k < run_ext(d, i, c) ==> #[trigger] d[i + k] == d[i],
    decreases 255 - c,
{
    if c < 255 && i + c < d.len() && d[i + c] == d[i] {
        assert forall|k: int| 0 <= k < c + 1 implies #[trigger] d[i + k] == d[i] by {
            if k < c {
            } else {
                assert(k == c);
            }
        }
        lemma_run_ext(d, i, c + 1);
    }
}

/// A run starting inside `d` has a length from 1 to 255, stays inside `d`, and repeats `d[i]`.
pub proof fn lemma_run_len(d: Seq<u8>, i: int)
    requires
        0 <= i < d.len(),
    ensures
        1 <= run_len(d, i) <= 255,
        i + run_len(d, i) <= d.len(),
        forall|k: int| 0 <= k < run_len(d, i) ==> #[trigger] d[i + k] == d[i],
{
    assert forall|k: int| 0 <= k < 1 implies #[trigger] d[i + k] == d[i] by {
        assert(k == 0);
    }
    lemma_run_ext(d, i, 1);
}

/// Measures the run that starts at `i`.
fn measure_run(data: &[u8], i: usize) -> (r: usize)
    requires
        i < data@.len(),
    ensures
        r == run_len(data@, i as int),
        1 <= r <= 255,
        i + r <= data@.len(),
{
    proof {
        lemma_run_len(data@, i as int);
    }
    let current = data[i];
    let mut count: usize = 1;
    while count < 255 && count < data.len() - i && data[i + count] == current
        invariant
            i < data@.len(),
            current == data@[i as int],
            1 <= count <= 255,
            i + count <= data@.len(),
            run_ext(data@, i as int, count as int) == run_len(data@, i as int),
        decreases 255 - count,
    {
        count = count + 1;
    }
    count
}

/// A sequence of `n` copies of `b`.
pub open spec fn repeat(b: u8, n: nat) -> Seq<u8> {
    Seq::new(n, |_k: int| b)
}

/// Appends `n` copies of `b` to `out`.
fn push_repeat(out: &mut Vec<u8>, b: u8, n: usize)
    ensures
        final(out)@ == old(out)@ + repeat(b, n as nat),
{
    let mut k: usize = 0;
    while k < n
        invariant
            k <= n,
            out@ == old(out)@ + repeat(b, k as nat),
        decreases n - k,
    {
        out.push(b);
        k = k + 1;
        assert(out@ =~= old(out)@ + repeat(b, k as nat));
    }
}

// ---------------------------------------------------------------------------
// Run-length encoding: (byte, count) pairs.
// ---------------------------------------------------------------------------

/// The run-length encoding of `d` from position `i`: each maximal run (of at most 255 bytes)
/// becomes the pair (byte, length).
pub open spec fn rle_encode_from(d: Seq<u8>, i: int) -> Seq<u8>
    decreases d.len() - i,
{
    if i < 0 || i >= d.len() {
        Seq::empty()
    } else {
        let r = run_len(d, i);
        proof {
            lemma_run_len(d, i);
        }
        seq![d[i], r as u8] + rle_encode_from(d, i + r)
    }
}

/// The run-length encoding of `d`.
pub open spec fn rle_encode(d: Seq<u8>) -> Seq<u8> {
    rle_encode_from(d, 0)
}

/// The expansion of (byte, count) pairs; a trailing odd byte is ignored.
pub open spec fn rle_expand(s: Seq<u8>) -> Seq<u8>
    decreases s.len(),
{
    if s.len() < 2 {
        Seq::empty()
    } else {
        repeat(s[0], s[1] as nat) + rle_expand(s.skip(2))
    }
}

/// Encodes `data` as (byte, count) pairs.
pub fn compress_rle(data: &[u8]) -> (out: Vec<u8>)
    ensures
        out@ == rle_encode(data@),
{
    let mut out: Vec<u8> = Vec::new();
    let mut i: usize = 0;
    while i < data.len()
        invariant
            i <= data@.len(),
            out@ + rle_encode_from(data@, i as int) == rle_encode(data@),
        decreases data@.len() - i,
    {
        let r = measure_run(data, i);
        let b = data[i];
        let ghost before = out@;
        proof {
            let rest = rle_encode_from(data@, (i + r) as int);
            assert(rle_encode_from(data@, i as int) == seq![b, r as u8] + rest);
            assert((before + seq![b, r as u8]) + rest =~= before + (seq![b, r as u8] + rest));
        }
        out.push(b);
        out.push(r as u8);
        assert(out@ =~= before + seq![b, r as u8]);
        i = i + r;
    }
    assert(out@ + rle_encode_from(data@, i as int) =~= out@);
    out
}

/// The context of the error for an odd-length run-length input.
pub open spec fn rle_odd_text() -> Seq<char> {
    "RLE compressed data length is not even"@
}

/// Expands (byte, count) pairs; fails on input of odd length.
pub fn decompress_rle(compressed: &[u8]) -> (r: NativeResult<Vec<u8>>)
    ensures
        compressed@.len() % 2 == 0 ==> (r matches Ok(out) && out@ == rle_expand(compressed@)),
        compressed@.len() % 2 == 1 ==> (r matches Err(NativeBackendError::CorruptionDetected { context })
            && context@ == rle_odd_text()),
{
    if compressed.len() % 2 != 0 {
        return Err(NativeBackendError::CorruptionDetected { context: owned("RLE compressed data length is not even") });
    }
    let mut out: Vec<u8> = Vec::new();
    let mut j: usize = 0;
    assert(out@ + rle_expand(compressed@.skip(0)) =~= rle_expand(compressed@)) by {
        assert(compressed@.skip(0) =~= compressed@);
    }
    while j < compressed.len()
        invariant
            j <= compressed@.len(),
            j % 2 == 0,
            compressed@.len() % 2 == 0,
            out@ + rle_expand(compressed@.skip(j as int)) == rle_expand(compressed@),
        decreases compressed@.len() - j,
    {
        let b = compressed[j];
        let c = compressed[j + 1];
        let ghost before = out@;
        proof {
            let t = compressed@.skip(j as int);
            assert(t[0] == b && t[1] == c);
            assert(t.skip(2) =~= compressed@.skip(j + 2));
            assert(rle_expand(t) == repeat(b, c as nat) + rle_expand(compressed@.skip(j + 2)));
            assert((before + repeat(b, c as nat)) + rle_expand(compressed@.skip(j + 2))
                =~= before + (repeat(b, c as nat) + rle_expand(compressed@.skip(j + 2))));
        }
        push_repeat(&mut out, b, c as usize);
        j = j + 2;
    }
    assert(compressed@.skip(j as int).len() == 0);
    assert(out@ + rle_expand(compressed@.skip(j as int)) =~= out@);
    Ok(out)
}

proof fn lemma_rle_roundtrip_from(d: Seq<u8>, i: int)
    requires
        0 <= i <= d.len(),
    ensures
        rle_expand(rle_encode_from(d, i)) == d.skip(i),
    decreases d.len() - i,
{
    if i == d.len() {
        assert(d.skip(i) =~= Seq::<u8>::empty());
    } else {
        let r = run_len(d, i);
        lemma_run_len(d, i);
        let rest = rle_encode_from(d, i + r);
        lemma_rle_roundtrip_from(d, i + r);
        let e = seq![d[i], r as u8] + rest;
        assert(rle_encode_from(d, i) == e);
        assert(e[0] == d[i] && e[1] == r as u8);
        assert(e.skip(2) =~= rest);
        assert(rle_expand(e) == repeat(d[i], r as nat) + rle_expand(rest));
        assert(repeat(d[i], r as nat) + d.skip(i + r) =~= d.skip(i)) by {
            assert forall|k: int| 0 <= k < d.len() - i implies
                #[trigger] (repeat(d[i], r as nat) + d.skip(i + r))[k] == d.skip(i)[k] by {
                if k < r {
                    assert(d[i + k] == d[i]);
                }
            }
        }
    }
}

/// Run-length decoding undoes run-length encoding: expanding the encoding of any byte string
/// gives the string back.
pub proof fn lemma_rle_roundtrip(d: Seq<u8>)
    ensures
        rle_expand(rle_encode(d)) == d,
{
    lemma_rle_roundtrip_from(d, 0);
    assert(d.skip(0) =~= d);
}

// ---------------------------------------------------------------------------
// Escape-byte run encoding: runs longer than three bytes, and runs of zero bytes, become
// the triple (0, length, byte); other bytes are stored as they are.
// ---------------------------------------------------------------------------

/// The group that encodes the run of length `r` of byte `b`.
pub open spec fn lz4_group(b: u8, r: int) -> Seq<u8> {
    if r > 3 || b == 0 {
        seq![0u8, r as u8, b]
    } else {
        repeat(b, r as nat)
    }
}

/// The escape-byte run encoding of `d` from position `i`.
pub open spec fn lz4_encode_from(d: Seq<u8>, i: int) -> Seq<u8>
    decreases d.len() - i,
{
    if i < 0 || i >= d.len() {
        Seq::empty()
    } else {
        let r = run_len(d, i);
        proof {
            lemma_run_len(d, i);
        }
        lz4_group(d[i], r) + lz4_encode_from(d, i + r)
    }
}

/// The escape-byte run encoding of `d`.
pub open spec fn lz4_encode(d: Seq<u8>) -> Seq<u8> {
    lz4_encode_from(d, 0)
}

/// The decoding of the escape-byte run encoding: a zero byte followed by at least two more
/// bytes starts a (0, length, byte) triple; any other byte stands for itself.
pub open spec fn lz4_decode(s: Seq<u8>) -> Seq<u8>
    decreases s.len(),
{
    if s.len() == 0 {
        Seq::empty()
    } else if s[0] == 0 && 2 < s.len() {
        repeat(s[2], s[1] as nat) + lz4_decode(s.skip(3))
    } else {
        seq![s[0]] + lz4_decode(s.skip(1))
    }
}

/// Encodes `data` with the escape-byte run encoding.
pub fn compress_lz4(data: &[u8]) -> (out: Vec<u8>)
    ensures
        out@ == lz4_encode(data@),
{
    let mut out: Vec<u8> = Vec::new();
    let mut i: usize = 0;
    while i < data.len()
        invariant
            i <= data@.len(),
            out@ + lz4_encode_from(data@, i as int) == lz4_encode(data@),
        decreases data@.len() - i,
    {
        let r = measure_run(data, i);
        let b = data[i];
        let ghost before = out@;
        proof {
            let rest = lz4_encode_from(data@, (i + r) as int);
            let g = lz4_group(b, r as int);
            assert(lz4_encode_from(data@, i as int) == g + rest);
            assert((before + g) + rest =~= before + (g + rest));
        }
        if r > 3 || b == 0 {
            out.push(0);
            out.push(r as u8);
            out.push(b);
            assert(out@ =~= before + lz4_group(b, r as int));
        } else {
            push_repeat(&mut out, b, r);
        }
        i = i + r;
    }
    assert(out@ + lz4_encode_from(data@, i as int) =~= out@);
    out
}

/// Decodes the escape-byte run encoding.
pub fn decompress_lz4(compressed: &[u8]) -> (out: Vec<u8>)
    ensures
        out@ == lz4_decode(compressed@),
{
    let mut out: Vec<u8> = Vec::new();
    let mut i: usize = 0;
    assert(out@ + lz4_decode(compressed@.skip(0)) =~= lz4_decode(compressed@)) by {
        assert(compressed@.skip(0) =~= compressed@);
    }
    while i < compressed.len()
        invariant
            i <= compressed@.len(),
            out@ + lz4_decode(compressed@.skip(i as int)) == lz4_decode(compressed@),
        decreases compressed@.len() - i,
    {
        let ghost before = out@;
        let ghost t = compressed@.skip(i as int);
        if compressed[i] == 0 && compressed.len() - i > 2 {
            let count = compressed[i + 1];
            let b = compressed[i + 2];
            proof {
                assert(t.skip(3) =~= compressed@.skip(i + 3));
                assert(lz4_decode(t) == repeat(b, count as nat) + lz4_decode(compressed@.skip(i + 3)));
                assert((before + repeat(b, count as nat)) + lz4_decode(compressed@.skip(i + 3))
                    =~= before + (repeat(b, count as nat) + lz4_decode(compressed@.skip(i + 3))));
            }
            push_repeat(&mut out, b, count as usize);
            i = i + 3;
        } else {
            let b = compressed[i];
            proof {
                assert(t.skip(1) =~= compressed@.skip(i + 1));
                assert(lz4_decode(t) == seq![b] + lz4_decode(compressed@.skip(i + 1)));
                assert((before + seq![b]) + lz4_decode(compressed@.skip(i + 1))
                    =~= before + (seq![b] + lz4_decode(compressed@.skip(i + 1))));
            }
            out.push(b);
            assert(out@ =~= before + seq![b]);
            i = i + 1;
        }
    }
    assert(compressed@.skip(i as int).len() == 0);
    assert(out@ + lz4_decode(compressed@.skip(i as int)) =~= out@);
    out
}

proof fn lemma_lz4_literals(b: u8, n: nat, t: Seq<u8>)
    requires
        b != 0,
    ensures
        lz4_decode(repeat(b, n) + t) == repeat(b, n) + lz4_decode(t),
    decreases n,
{
    let s = repeat(b, n) + t;
    if n == 0 {
        assert(s =~= t);
        assert(repeat(b, n) + lz4_decode(t) =~= lz4_decode(t));
    } else {
        assert(s[0] == b);
        assert(s.skip(1) =~= repeat(b, (n - 1) as nat) + t);
        lemma_lz4_literals(b, (n - 1) as nat, t);
        assert(seq![b] + (repeat(b, (n - 1) as nat) + lz4_decode(t)) =~= repeat(b, n) + lz4_decode(t));
    }
}

proof fn lemma_lz4_roundtrip_from(d: Seq<u8>, i: int)
    requires
        0 <= i <= d.len(),
    ensures
        lz4_decode(lz4_encode_from(d, i)) == d.skip(i),
    decreases d.len() - i,
{
    if i == d.len() {
        assert(d.skip(i) =~= Seq::<u8>::empty());
    } else {
        let r = run_len(d, i);
        let b = d[i];
        lemma_run_len(d, i);
        let rest = lz4_encode_from(d, i + r);
        lemma_lz4_roundtrip_from(d, i + r);
        assert(lz4_encode_from(d, i) == lz4_group(b, r) + rest);
        if r > 3 || b == 0 {
            let e = seq![0u8, r as u8, b] + rest;
            assert(e[0] == 0 && e[1] == r as u8 && e[2] == b);
            assert(e.skip(3) =~= rest);
            assert(lz4_decode(e) == repeat(b, r as nat) + lz4_decode(rest));
        } else {
            lemma_lz4_literals(b, r as nat, rest);
        }
        assert(repeat(b, r as nat) + d.skip(i + r) =~= d.skip(i)) by {
            assert forall|k: int| 0 <= k < d.len() - i implies
                #[trigger] (repeat(b, r as nat) + d.skip(i + r))[k] == d.skip(i)[k] by {
                if k < r {
                    assert(d[i + k] == d[i]);
                }
            }
        }
    }
}

/// Decoding undoes the escape-byte run encoding: decoding the encoding of any byte string
/// gives the string back.
pub proof fn lemma_lz4_roundtrip(d: Seq<u8>)
    ensures
        lz4_decode(lz4_encode(d)) == d,
{
    lemma_lz4_roundtrip_from(d, 0);
    assert(d.skip(0) =~= d);
}

// ---------------------------------------------------------------------------
// Frequency-table framing: a table of (code length, byte) pairs for the byte values that
// occur, in increasing order, the end marker 255, then the data itself. A pair starts with
// its code length, 4 or 8, so the marker cannot be mistaken for a table entry.
// ---------------------------------------------------------------------------

/// How often `b` occurs in `d`.
pub open spec fn occurrences(d: Seq<u8>, b: u8) -> nat
    decreases d.len(),
{
    if d.len() == 0 {
        0
    } else {
        occurrences(d.drop_last(), b) + if d.last() == b { 1nat } else { 0nat }
    }
}

/// The code length given to a byte value that occurs `n` times: 4 above 100 occurrences, else 8.
pub open spec fn code_len(n: nat) -> u8 {
    if n > 100 {
        4
    } else {
        8
    }
}

/// The table entries for the byte values from `v` on that occur in `d`.
pub open spec fn freq_table_from(d: Seq<u8>, v: int) -> Seq<u8>
    decreases 256 - v,
{
    if v < 0 || v >= 256 {
        Seq::empty()
    } else {
        let n = occurrences(d, v as u8);
        (if n > 0 { seq![code_len(n), v as u8] } else { Seq::empty() }) + freq_table_from(d, v + 1)
    }
}

/// The frequency-table framing of `d`; empty input frames to nothing.
pub open spec fn zstd_encode(d: Seq<u8>) -> Seq<u8> {
    if d.len() == 0 {
        Seq::empty()
    } else {
        freq_table_from(d, 0) + seq![255u8] + d
    }
}

/// Where the table of a framed input ends: the first even position from `i` on that holds
/// 255, or the first even position past the end.
pub open spec fn table_end(s: Seq<u8>, i: int) -> int
    decreases s.len() + 2 - i,
{
    if i < 0 || i >= s.len() || s[i] == 255 {
        i
    } else {
        table_end(s, i + 2)
    }
}

/// The data of a framed input: what follows the end marker, or nothing when there is none.
pub open spec fn zstd_decode(s: Seq<u8>) -> Seq<u8> {
    let h = table_end(s, 0);
    if h < s.len() {
        s.skip(h + 1)
    } else {
        Seq::empty()
    }
}

proof fn lemma_occurrences_bound(d: Seq<u8>, b: u8)
    ensures
        occurrences(d, b) <= d.len(),
        occurrences(d, b) > 0 ==> d.contains(b),
    decreases d.len(),
{
    if d.len() > 0 {
        lemma_occurrences_bound(d.drop_last(), b);
        if occurrences(d.drop_last(), b) > 0 {
            let k = choose|k: int| 0 <= k < d.drop_last().len() && d.drop_last()[k] == b;
            assert(d[k] == b);
        }
        if d.last() == b {
            assert(d[d.len() - 1] == b);
        }
    }
}

/// Counts how often each byte value occurs in `data`.
fn byte_counts(data: &[u8]) -> (counts: Vec<usize>)
    ensures
        counts@.len() == 256,
        forall|v: int| 0 <= v < 256 ==> #[trigger] counts@[v] == occurrences(data@, v as u8),
{
    let mut counts: Vec<usize> = Vec::new();
    let mut v: usize = 0;
    while v < 256
        invariant
            v <= 256,
            counts@.len() == v,
            forall|w: int| 0 <= w < v ==> #[trigger] counts@[w] == 0,
        decreases 256 - v,
    {
        counts.push(0);
        v = v + 1;
    }
    let mut k: usize = 0;
    while k < data.len()
        invariant
            k <= data@.len(),
            counts@.len() == 256,
            forall|w: int| 0 <= w < 256 ==> #[trigger] counts@[w] == occurrences(data@.take(k as int), w as u8),
        decreases data@.len() - k,
    {
        let b = data[k];
        proof {
            lemma_occurrences_bound(data@.take(k as int), b);
            assert(data@.take(k + 1).drop_last() =~= data@.take(k as int));
            assert(data@.take(k + 1).last() == b);
        }
        let c = counts[b as usize];
        counts.set(b as usize, c + 1);
        k = k + 1;
        proof {
            assert forall|w: int| 0 <= w < 256 implies #[trigger] counts@[w] == occurrences(data@.take(k as int), w as u8) by {
                assert(data@.take(k as int).drop_last() =~= data@.take(k - 1));
                assert((w as u8 == b) <==> w == b as int);
            }
        }
    }
    assert(data@.take(k as int) =~= data@);
    counts
}

/// Frames `data` with its frequency table.
pub fn compress_zstd(data: &[u8]) -> (out: Vec<u8>)
    ensures
        out@ == zstd_encode(data@),
{
    let mut out: Vec<u8> = Vec::new();
    if data.len() == 0 {
        return out;
    }
    let counts = byte_counts(data);
    let mut v: usize = 0;
    while v < 256
        invariant
            v <= 256,
            counts@.len() == 256,
            forall|w: int| 0 <= w < 256 ==> #[trigger] counts@[w] == occurrences(data@, w as u8),
            out@ + freq_table_from(data@, v as int) == freq_table_from(data@, 0),
        decreases 256 - v,
    {
        let n = counts[v];
        let ghost before = out@;
        let ghost rest = freq_table_from(data@, v + 1);
        if n > 0 {
            let len: u8 = if n > 100 { 4 } else { 8 };
            out.push(len);
            out.push(v as u8);
            proof {
                assert(out@ =~= before + seq![code_len(n as nat), v as u8]);
                assert((before + seq![code_len(n as nat), v as u8]) + rest
                    =~= before + (seq![code_len(n as nat), v as u8] + rest));
            }
        } else {
            assert(before + rest =~= before + (Seq::<u8>::empty() + rest));
        }
        v = v + 1;
    }
    assert(out@ + freq_table_from(data@, 256) =~= out@);
    out.push(255);
    let mut k: usize = 0;
    let ghost table = out@;
    while k < data.len()
        invariant
            k <= data@.len(),
            out@ == table + data@.take(k as int),
        decreases data@.len() - k,
    {
        out.push(data[k]);
        k = k + 1;
        assert(out@ =~= table + data@.take(k as int));
    }
    assert(data@.take(k as int) =~= data@);
    out
}

/// Reads the data out of a framed input: skips the table up to its end marker.
pub fn decompress_zstd(compressed: &[u8]) -> (out: Vec<u8>)
    ensures
        out@ == zstd_decode(compressed@),
{
    let mut i: usize = 0;
    while i < compressed.len() && compressed[i] != 255
        invariant
            i <= compressed@.len(),
            table_end(compressed@, i as int) >= compressed@.len() ==> table_end(compressed@, 0) >= compressed@.len(),
            table_end(compressed@, i as int) < compressed@.len() ==> table_end(compressed@, 0) == table_end(compressed@, i as int),
            table_end(compressed@, 0) < compressed@.len() ==> table_end(compressed@, 0) == table_end(compressed@, i as int),
        decreases compressed@.len() - i,
    {
        if compressed.len() - i <= 2 {
            assert(table_end(compressed@, i + 2) == i + 2);
            i = compressed.len();
        } else {
            i = i + 2;
        }
    }
    let mut out: Vec<u8> = Vec::new();
    if i < compressed.len() {
        let mut k: usize = i + 1;
        let ghost start = i + 1;
        while k < compressed.len()
            invariant
                0 <= start <= k <= compressed@.len(),
                out@ == compressed@.subrange(start as int, k as int),
            decreases compressed@.len() - k,
        {
            let ghost before = out@;
            out.push(compressed[k]);
            assert(compressed@.subrange(start as int, k + 1) =~= before.push(compressed@[k as int]));
            k = k + 1;
        }
        assert(compressed@.subrange(start as int, k as int) =~= compressed@.skip(start as int));
    }
    out
}

proof fn lemma_freq_table_shape(d: Seq<u8>, v: int)
    ensures
        freq_table_from(d, v).len() % 2 == 0,
        forall|k: int| 0 <= k < freq_table_from(d, v).len() && k % 2 == 0 ==> #[trigger] freq_table_from(d, v)[k] != 255,
    decreases 256 - v,
{
    if 0 <= v < 256 {
        lemma_freq_table_shape(d, v + 1);
        let n = occurrences(d, v as u8);
        let g = if n > 0 { seq![code_len(n), v as u8] } else { Seq::<u8>::empty() };
        let rest = freq_table_from(d, v + 1);
        assert(freq_table_from(d, v) == g + rest);
        assert forall|k: int| 0 <= k < freq_table_from(d, v).len() && k % 2 == 0 implies #[trigger] freq_table_from(d, v)[k] != 255 by {
            if k < g.len() {
                assert(k == 0);
            } else {
                assert(freq_table_from(d, v)[k] == rest[k - g.len()]);
            }
        }
    }
}

proof fn lemma_table_end_walk(e: Seq<u8>, t: Seq<u8>, j: int)
    requires
        0 <= j <= t.len(),
        j % 2 == 0,
        t.len() % 2 == 0,
        t.len() < e.len(),
        e[t.len() as int] == 255,
        forall|k: int| 0 <= k < t.len() ==> #[trigger] e[k] == t[k],
        forall|k: int| 0 <= k < t.len() && k % 2 == 0 ==> #[trigger] t[k] != 255,
    ensures
        table_end(e, j) == t.len(),
    decreases t.len() - j,
{
    if j < t.len() {
        assert(e[j] == t[j]);
        lemma_table_end_walk(e, t, j + 2);
    }
}

/// The framing gives every input back: the table entries start with a code length, never
/// with the end-marker value 255, so the marker is found whatever bytes the data holds.
pub proof fn lemma_zstd_roundtrip(d: Seq<u8>)
    ensures
        zstd_decode(zstd_encode(d)) == d,
{
    if d.len() > 0 {
        let t = freq_table_from(d, 0);
        let e = t + seq![255u8] + d;
        lemma_freq_table_shape(d, 0);
        assert(e[t.len() as int] == 255);
        lemma_table_end_walk(e, t, 0);
        assert(e.skip(t.len() as int + 1) =~= d);
    }
}

// ---------------------------------------------------------------------------
// Literal and back-reference encoding. A command byte below 0xF0 copies earlier output:
// offset byte / 4 + 1 back, byte % 4 + 3 bytes long. A command byte from 0xF0 on is followed
// by byte % 16 + 1 literal bytes. The encoder searches offsets from 1 to 60 for a match of
// three to six bytes that does not reach into itself, and emits literals of at most 16
// bytes, so that every length and offset it emits fits in the bits its command byte has.
// ---------------------------------------------------------------------------

/// Length of the match at position `i` against the bytes `off` back, counted on from `m`:
/// at most 6 bytes and at most `off`, within the input, and not reaching past position `i` in
/// the source.
pub open spec fn match_ext(d: Seq<u8>, i: int, off: int, m: int) -> int
    decreases 6 - m,
{
    if m < 6 && m < off && i + m < d.len() && off + m <= i && d[i + m] == d[i - off + m] {
        match_ext(d, i, off, m + 1)
    } else {
        m
    }
}

/// The smaller of two integers.
pub open spec fn min_int(a: int, b: int) -> int {
    if a <= b {
        a
    } else {
        b
    }
}

/// The longest match of at least three bytes over the offsets from `off` up to (not including)
/// `min(i, 61)`, the earlier offset winning a tie, starting from the best (`bl`, `bo`) so far.
pub open spec fn match_scan(d: Seq<u8>, i: int, off: int, bl: int, bo: int) -> (int, int)
    decreases 61 - off,
{
    if off < 1 || off >= min_int(i, 61) {
        (bl, bo)
    } else {
        let m = match_ext(d, i, off, 0);
        if m > bl && m >= 3 {
            match_scan(d, i, off + 1, m, off)
        } else {
            match_scan(d, i, off + 1, bl, bo)
        }
    }
}

/// The best match (length, offset) at position `i`; length 0 when there is none.
pub open spec fn best_match(d: Seq<u8>, i: int) -> (int, int) {
    match_scan(d, i, 1, 0, 0)
}

/// A match counted on from `m` stays within 6 bytes, within its offset and within the input.
pub proof fn lemma_match_ext(d: Seq<u8>, i: int, off: int, m: int)
    requires
        0 <= m <= 6,
        m <= off,
        0 <= i,
        i + m <= d.len(),
    ensures
        m <= match_ext(d, i, off, m) <= 6,
        match_ext(d, i, off, m) <= off,
        i + match_ext(d, i, off, m) <= d.len(),
    decreases 6 - m,
{
    if m < 6 && m < off && i + m < d.len() && off + m <= i && d[i + m] == d[i - off + m] {
        lemma_match_ext(d, i, off, m + 1);
    }
}

/// Whether (`bl`, `bo`) is no match, or a match of 3 to 6 bytes inside `d` at an offset
/// from 1 to 60 that is no shorter than the match.
pub open spec fn match_shape(d: Seq<u8>, i: int, bl: int, bo: int) -> bool {
    (bl == 0 && bo == 0) || (3 <= bl <= 6 && i + bl <= d.len() && bl <= bo <= 60)
}

/// The best match keeps the shape of a match.
pub proof fn lemma_match_scan(d: Seq<u8>, i: int, off: int, bl: int, bo: int)
    requires
        0 <= i <= d.len(),
        match_shape(d, i, bl, bo),
    ensures
        match_shape(d, i, match_scan(d, i, off, bl, bo).0, match_scan(d, i, off, bl, bo).1),
    decreases 61 - off,
{
    if off >= 1 && off < min_int(i, 61) {
        lemma_match_ext(d, i, off, 0);
        let m = match_ext(d, i, off, 0);
        if m > bl && m >= 3 {
            lemma_match_scan(d, i, off + 1, m, off);
        } else {
            lemma_match_scan(d, i, off + 1, bl, bo);
        }
    }
}

/// The literal length at position `i`: the rest of the input, at most 16 bytes.
pub open spec fn literal_len(d: Seq<u8>, i: int) -> int {
    min_int(16, d.len() - i)
}

/// The copy command for a match of `bl` bytes at offset `bo`.
pub open spec fn copy_command(bl: int, bo: int) -> u8 {
    (4 * (bo - 1) + (bl - 3) % 4) as u8
}

/// The literal command for `ll` literal bytes.
pub open spec fn literal_command(ll: int) -> u8 {
    (0xF0 + (ll - 1) % 16) as u8
}

/// The literal and back-reference encoding of `d` from position `i`.
pub open spec fn snappy_encode_from(d: Seq<u8>, i: int) -> Seq<u8>
    decreases d.len() - i,
{
    if i < 0 || i >= d.len() {
        Seq::empty()
    } else {
        let (bl, bo) = best_match(d, i);
        proof {
            lemma_match_scan(d, i, 1, 0, 0);
        }
        if bl >= 3 {
            seq![copy_command(bl, bo)] + snappy_encode_from(d, i + bl)
        } else {
            let ll = literal_len(d, i);
            seq![literal_command(ll)] + d.subrange(i, i + ll) + snappy_encode_from(d, i + ll)
        }
    }
}

/// The literal and back-reference encoding of `d`.
pub open spec fn snappy_encode(d: Seq<u8>) -> Seq<u8> {
    snappy_encode_from(d, 0)
}

/// The context of the error for a literal that runs past the input.
pub open spec fn snappy_literal_text() -> Seq<char> {
    "Invalid literal length in Snappy decompression"@
}

/// The context of the error for a copy that reaches past the output so far.
pub open spec fn snappy_copy_text() -> Seq<char> {
    "Invalid copy command in Snappy decompression"@
}

/// The decoding of the commands of `s` from position `i` on, after `out` has been decoded;
/// or the context of the error that stops it.
pub open spec fn snappy_decode_from(s: Seq<u8>, i: int, out: Seq<u8>) -> Result<Seq<u8>, Seq<char>>
    decreases s.len() - i,
{
    if i < 0 || i >= s.len() {
        Ok(out)
    } else {
        let b = s[i];
        if b >= 0xF0 {
            let ll = b % 16 + 1;
            if i + 1 + ll > s.len() {
                Err(snappy_literal_text())
            } else {
                snappy_decode_from(s, i + 1 + ll, out + s.subrange(i + 1, i + 1 + ll))
            }
        } else {
            let off = b / 4 + 1;
            let l = b % 4 + 3;
            let start = if out.len() >= off { out.len() - off } else { 0 };
            if start + l > out.len() {
                Err(snappy_copy_text())
            } else {
                snappy_decode_from(s, i + 1, out + out.subrange(start, start + l))
            }
        }
    }
}

/// The decoding of the literal and back-reference encoding `s`, or the context of its error.
pub open spec fn snappy_decode(s: Seq<u8>) -> Result<Seq<u8>, Seq<char>> {
    snappy_decode_from(s, 0, Seq::empty())
}

/// Whether the bytes `bl` long at position `i` repeat those `bo` back (no match when `bl`
/// is 0).
pub open spec fn repeats(d: Seq<u8>, i: int, bl: int, bo: int) -> bool {
    bl == 0 || (bo <= i && forall|k: int| 0 <= k < bl ==> #[trigger] d[i + k] == d[i - bo + k])
}

proof fn lemma_match_ext_repeats(d: Seq<u8>, i: int, off: int, m: int)
    requires
        0 <= m,
        forall|k: int| 0 <= k < m ==> #[trigger] d[i + k] == d[i - off + k],
        m > 0 ==> off <= i,
    ensures
        forall|k: int| 0 <= k < match_ext(d, i, off, m) ==> #[trigger] d[i + k] == d[i - off + k],
        match_ext(d, i, off, m) > 0 ==> off <= i,
    decreases 6 - m,
{
    if m < 6 && m < off && i + m < d.len() && off + m <= i && d[i + m] == d[i - off + m] {
        assert forall|k: int| 0 <= k < m + 1 implies #[trigger] d[i + k] == d[i - off + k] by {
            if k < m {
            }
        }
        lemma_match_ext_repeats(d, i, off, m + 1);
    }
}

proof fn lemma_match_scan_repeats(d: Seq<u8>, i: int, off: int, bl: int, bo: int)
    requires
        repeats(d, i, bl, bo),
    ensures
        repeats(d, i, match_scan(d, i, off, bl, bo).0, match_scan(d, i, off, bl, bo).1),
    decreases 61 - off,
{
    if off >= 1 && off < min_int(i, 61) {
        lemma_match_ext_repeats(d, i, off, 0);
        let m = match_ext(d, i, off, 0);
        if m > bl && m >= 3 {
            lemma_match_scan_repeats(d, i, off + 1, m, off);
        } else {
            lemma_match_scan_repeats(d, i, off + 1, bl, bo);
        }
    }
}

proof fn lemma_snappy_decode_shift(p: Seq<u8>, t: Seq<u8>, j: int, out: Seq<u8>)
    requires
        0 <= j,
    ensures
        snappy_decode_from(p + t, p.len() + j, out) == snappy_decode_from(t, j, out),
    decreases t.len() - j,
{
    let s = p + t;
    let i = p.len() + j;
    if j < t.len() {
        assert(s[i] == t[j]);
        let b = t[j];
        if b >= 0xF0 {
            let ll = b % 16 + 1;
            if j + 1 + ll <= t.len() {
                assert(s.subrange(i + 1, i + 1 + ll) =~= t.subrange(j + 1, j + 1 + ll));
                lemma_snappy_decode_shift(p, t, j + 1 + ll, out + t.subrange(j + 1, j + 1 + ll));
            }
        } else {
            let off = b / 4 + 1;
            let l = b % 4 + 3;
            let start = if out.len() >= off { out.len() - off } else { 0 };
            if start + l <= out.len() {
                lemma_snappy_decode_shift(p, t, j + 1, out + out.subrange(start, start + l));
            }
        }
    }
}

proof fn lemma_copy_command_reads_back(bl: int, bo: int)
    requires
        3 <= bl <= 6,
        1 <= bo <= 60,
    ensures
        copy_command(bl, bo) < 0xF0,
        copy_command(bl, bo) / 4 + 1 == bo,
        copy_command(bl, bo) % 4 + 3 == bl,
{
    let c = 4 * (bo - 1) + (bl - 3);
    assert((bl - 3) % 4 == bl - 3);
    assert(0 <= c < 240);
    assert(c / 4 == bo - 1 && c % 4 == bl - 3) by (nonlinear_arith)
        requires
            c == 4 * (bo - 1) + (bl - 3),
            0 <= bl - 3 < 4,
            bo >= 1,
    ;
}

proof fn lemma_literal_command_reads_back(ll: int)
    requires
        1 <= ll <= 16,
    ensures
        literal_command(ll) >= 0xF0,
        literal_command(ll) % 16 + 1 == ll,
{
    assert((ll - 1) % 16 == ll - 1);
    let c = 0xF0 + (ll - 1);
    assert(c % 16 == ll - 1) by (nonlinear_arith)
        requires
            c == 240 + (ll - 1),
            0 <= ll - 1 < 16,
    ;
}

proof fn lemma_snappy_roundtrip_from(d: Seq<u8>, i: int)
    requires
        0 <= i <= d.len(),
    ensures
        snappy_decode_from(snappy_encode_from(d, i), 0, d.subrange(0, i)) == Ok::<Seq<u8>, Seq<char>>(d),
    decreases d.len() - i,
{
    let out = d.subrange(0, i);
    if i == d.len() {
        assert(out =~= d);
    } else {
        let (bl, bo) = best_match(d, i);
        lemma_match_scan(d, i, 1, 0, 0);
        lemma_match_scan_repeats(d, i, 1, 0, 0);
        if bl >= 3 {
            let c = copy_command(bl, bo);
            let rest = snappy_encode_from(d, i + bl);
            let e = seq![c] + rest;
            assert(snappy_encode_from(d, i) == e);
            lemma_copy_command_reads_back(bl, bo);
            assert(e[0] == c);
            let start = i - bo;
            let next = out + out.subrange(start, start + bl);
            assert(next =~= d.subrange(0, i + bl)) by {
                assert forall|k: int| 0 <= k < i + bl implies #[trigger] next[k] == d[k] by {
                    if k >= i {
                        assert(d[i + (k - i)] == d[i - bo + (k - i)]);
                    }
                }
            }
            lemma_snappy_decode_shift(seq![c], rest, 0, next);
            assert(seq![c].len() + 0 == 1);
            lemma_snappy_roundtrip_from(d, i + bl);
        } else {
            let ll = literal_len(d, i);
            let c = literal_command(ll);
            let lit = d.subrange(i, i + ll);
            let rest = snappy_encode_from(d, i + ll);
            let e = seq![c] + lit + rest;
            assert(snappy_encode_from(d, i) == e);
            lemma_literal_command_reads_back(ll);
            assert(e[0] == c);
            assert(e.subrange(1, 1 + ll) =~= lit);
            let next = out + lit;
            assert(next =~= d.subrange(0, i + ll));
            assert(e =~= (seq![c] + lit) + rest);
            lemma_snappy_decode_shift(seq![c] + lit, rest, 0, next);
            lemma_snappy_roundtrip_from(d, i + ll);
        }
    }
}

/// Decoding the literal and back-reference encoding of `d` gives `d` back: every command
/// the encoder emits carries its lengths within the bits its command byte has for them.
pub proof fn lemma_snappy_roundtrip(d: Seq<u8>)
    ensures
        snappy_decode(snappy_encode(d)) == Ok::<Seq<u8>, Seq<char>>(d),
{
    lemma_snappy_roundtrip_from(d, 0);
    assert(d.subrange(0, 0) =~= Seq::<u8>::empty());
}

/// Measures the match at position `i` against the bytes `off` back.
fn match_length(data: &[u8], i: usize, off: usize) -> (m: usize)
    requires
        i <= data@.len(),
    ensures
        m == match_ext(data@, i as int, off as int, 0),
        m <= 6,
        m <= off,
        i + m <= data@.len(),
{
    proof {
        lemma_match_ext(data@, i as int, off as int, 0);
    }
    let mut m: usize = 0;
    while m < 6 && m < off && m < data.len() - i && off <= i && m <= i - off && data[i + m] == data[i - off + m]
        invariant
            i <= data@.len(),
            m <= 6,
            m <= off,
            i + m <= data@.len(),
            match_ext(data@, i as int, off as int, m as int) == match_ext(data@, i as int, off as int, 0),
        decreases 6 - m,
    {
        m = m + 1;
    }
    m
}

/// Finds the best match at position `i`.
fn find_best_match(data: &[u8], i: usize) -> (r: (usize, usize))
    requires
        i <= data@.len(),
    ensures
        (r.0 as int, r.1 as int) == best_match(data@, i as int),
        match_shape(data@, i as int, r.0 as int, r.1 as int),
{
    proof {
        lemma_match_scan(data@, i as int, 1, 0, 0);
    }
    let max_offset: usize = if i < 61 { i } else { 61 };
    let mut best_len: usize = 0;
    let mut best_offset: usize = 0;
    let mut off: usize = 1;
    while off < max_offset
        invariant
            i <= data@.len(),
            max_offset as int == min_int(i as int, 61),
            1 <= off <= 61,
            match_shape(data@, i as int, best_len as int, best_offset as int),
            match_scan(data@, i as int, off as int, best_len as int, best_offset as int) == best_match(data@, i as int),
        decreases 61 - off,
    {
        let m = match_length(data, i, off);
        if m > best_len && m >= 3 {
            best_len = m;
            best_offset = off;
        }
        off = off + 1;
    }
    (best_len, best_offset)
}

/// Encodes `data` with literal and back-reference commands.
pub fn compress_snappy(data: &[u8]) -> (out: Vec<u8>)
    ensures
        out@ == snappy_encode(data@),
{
    let mut out: Vec<u8> = Vec::new();
    let mut i: usize = 0;
    while i < data.len()
        invariant
            i <= data@.len(),
            out@ + snappy_encode_from(data@, i as int) == snappy_encode(data@),
        decreases data@.len() - i,
    {
        let (bl, bo) = find_best_match(data, i);
        let ghost before = out@;
        if bl >= 3 {
            let cmd = (4 * (bo - 1) + (bl - 3) % 4) as u8;
            proof {
                let rest = snappy_encode_from(data@, i + bl);
                assert(cmd == copy_command(bl as int, bo as int));
                assert(snappy_encode_from(data@, i as int) == seq![cmd] + rest);
                assert((before + seq![cmd]) + rest =~= before + (seq![cmd] + rest));
            }
            out.push(cmd);
            assert(out@ =~= before + seq![cmd]);
            i = i + bl;
        } else {
            let ll: usize = if data.len() - i < 16 { data.len() - i } else { 16 };
            let cmd = (0xF0 + (ll - 1) % 16) as u8;
            let ghost lit = data@.subrange(i as int, i + ll);
            proof {
                let rest = snappy_encode_from(data@, i + ll);
                assert(ll as int == literal_len(data@, i as int));
                assert(cmd == literal_command(ll as int));
                assert(snappy_encode_from(data@, i as int) == seq![cmd] + lit + rest);
                assert((before + seq![cmd] + lit) + rest =~= before + (seq![cmd] + lit + rest));
            }
            out.push(cmd);
            let end: usize = i + ll;
            let mut k: usize = i;
            while k < end
                invariant
                    end == i + ll,
                    i < k + 1,
                    k <= i + ll,
                    i + ll <= data@.len(),
                    lit == data@.subrange(i as int, i + ll),
                    out@ == before + seq![cmd] + data@.subrange(i as int, k as int),
                decreases i + ll - k,
            {
                let ghost prev = out@;
                out.push(data[k]);
                assert(data@.subrange(i as int, k + 1) =~= data@.subrange(i as int, k as int).push(data@[k as int]));
                assert(out@ =~= before + seq![cmd] + data@.subrange(i as int, k + 1));
                k = k + 1;
            }
            i = i + ll;
        }
    }
    assert(out@ + snappy_encode_from(data@, i as int) =~= out@);
    out
}

/// Decodes literal and back-reference commands; fails on a literal that runs past the input
/// or a copy that reaches past the output so far.
pub fn decompress_snappy(compressed: &[u8]) -> (r: NativeResult<Vec<u8>>)
    ensures
        match snappy_decode(compressed@) {
            Ok(d) => r matches Ok(out) && out@ == d,
            Err(m) => r matches Err(NativeBackendError::CorruptionDetected { context }) && context@ == m,
        },
{
    let mut out: Vec<u8> = Vec::new();
    let mut i: usize = 0;
    while i < compressed.len()
        invariant
            i <= compressed@.len(),
            snappy_decode_from(compressed@, i as int, out@) == snappy_decode(compressed@),
        decreases compressed@.len() - i,
    {
        let b = compressed[i];
        if b >= 0xF0 {
            let ll = (b % 16 + 1) as usize;
            if ll > compressed.len() - i - 1 {
                return Err(NativeBackendError::CorruptionDetected {
                    context: owned("Invalid literal length in Snappy decompression"),
                });
            }
            let ghost before = out@;
            let end: usize = i + 1 + ll;
            let mut k: usize = i + 1;
            while k < end
                invariant
                    end == i + 1 + ll,
                    i + 1 <= k <= i + 1 + ll,
                    i + 1 + ll <= compressed@.len(),
                    out@ == before + compressed@.subrange(i + 1, k as int),
                decreases i + 1 + ll - k,
            {
                out.push(compressed[k]);
                assert(compressed@.subrange(i + 1, k + 1) =~= compressed@.subrange(i + 1, k as int).push(compressed@[k as int]));
                assert(out@ =~= before + compressed@.subrange(i + 1, k + 1));
                k = k + 1;
            }
            i = i + 1 + ll;
        } else {
            let off = (b / 4 + 1) as usize;
            let length = (b % 4 + 3) as usize;
            let start: usize = if out.len() >= off { out.len() - off } else { 0 };
            if length > out.len() - start {
                return Err(NativeBackendError::CorruptionDetected {
                    context: owned("Invalid copy command in Snappy decompression"),
                });
            }
            let ghost before = out@;
            let end: usize = start + length;
            let mut j: usize = 0;
            while j < length
                invariant
                    end == start + length,
                    j <= length,
                    start + length <= before.len(),
                    out@ == before + before.subrange(start as int, start + j),
                decreases length - j,
            {
                let x = out[start + j];
                out.push(x);
                assert(before.subrange(start as int, start + j + 1) =~= before.subrange(start as int, start + j).push(before[start + j]));
                assert(out@ =~= before + before.subrange(start as int, start + j + 1));
                j = j + 1;
            }
            i = i + 1;
        }
    }
    Ok(out)
}

} // verus!

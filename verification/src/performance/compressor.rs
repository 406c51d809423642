//! The record compressor: one algorithm at a valid level, with counts of what it compressed
//! and running averages of how long compression and decompression took.
use vstd::prelude::*;
use crate::bytes::tail_bytes;
use crate::native_error::{NativeBackendError, NativeResult};
use crate::performance::codecs::{
    compress_lz4, compress_rle, compress_snappy, compress_zstd, decompress_lz4, decompress_rle,
    decompress_snappy, decompress_zstd, lemma_lz4_roundtrip, lemma_rle_roundtrip,
    lemma_snappy_roundtrip, lemma_zstd_roundtrip, lz4_decode, lz4_encode, rle_encode, rle_encode_from, rle_expand,
    rle_odd_text, run_len, lemma_run_len, snappy_decode, snappy_encode, zstd_decode, zstd_encode,
};
use crate::performance::{level_is_valid, CompressionAlgorithm};
use crate::text::{decimal, owned, push_decimal};

verus! {

#[verifier::external_type_specification]
#[verifier::external_body]
pub struct ExInstant(std::time::Instant);

/// Reads the monotonic clock (`Instant::now`).
#[verifier::external_body]
fn instant_now() -> (t: std::time::Instant) {
    std::time::Instant::now()
}

/// Microseconds since `start` (`Instant::elapsed`, then `Duration::as_micros` cut to 64 bits).
/// What it returns depends on the clock, so nothing is stated of it.
#[verifier::external_body]
fn micros_since(start: &std::time::Instant) -> (us: u64) {
    start.elapsed().as_micros() as u64
}

/// The bytes that algorithm `a` makes of `d`.
pub open spec fn encoded(a: CompressionAlgorithm, d: Seq<u8>) -> Seq<u8> {
    match a {
        CompressionAlgorithm::NoCompression => d,
        CompressionAlgorithm::LZ4 => lz4_encode(d),
        CompressionAlgorithm::Zstd => zstd_encode(d),
        CompressionAlgorithm::Snappy => snappy_encode(d),
        CompressionAlgorithm::RLE => rle_encode(d),
    }
}

/// The bytes that algorithm `a` decodes from `s`, or the context of its corruption error.
pub open spec fn decoded(a: CompressionAlgorithm, s: Seq<u8>) -> Result<Seq<u8>, Seq<char>> {
    match a {
        CompressionAlgorithm::NoCompression => Ok(s),
        CompressionAlgorithm::LZ4 => Ok(lz4_decode(s)),
        CompressionAlgorithm::Zstd => Ok(zstd_decode(s)),
        CompressionAlgorithm::Snappy => snappy_decode(s),
        CompressionAlgorithm::RLE => if s.len() % 2 == 0 {
            Ok(rle_expand(s))
        } else {
            Err(rle_odd_text())
        },
    }
}

/// The name under which an algorithm is reported.
pub open spec fn algorithm_name(a: CompressionAlgorithm) -> Seq<char> {
    match a {
        CompressionAlgorithm::NoCompression => "None"@,
        CompressionAlgorithm::LZ4 => "LZ4"@,
        CompressionAlgorithm::Zstd => "Zstd"@,
        CompressionAlgorithm::Snappy => "Snappy"@,
        CompressionAlgorithm::RLE => "RLE"@,
    }
}

/// The reason given for an invalid level.
pub open spec fn invalid_level_text(a: CompressionAlgorithm, level: u8) -> Seq<char> {
    "Invalid compression level "@ + decimal(level as nat) + " for algorithm "@ + algorithm_name(a)
}

/// The running average after the `n`-th sample `x`, from the average `avg` of the ones before.
pub open spec fn running_average(avg: u64, n: u64, x: u64) -> int {
    (avg * (n - 1) + x) / (n as int)
}

/// Counts of what a compressor processed. The compression ratio is the quotient of the
/// output and input byte totals.
#[derive(Debug)]
pub struct CompressionStats {
    /// Records compressed.
    pub total_records: u64,
    /// Bytes before compression.
    pub total_input_bytes: u64,
    /// Bytes after compression.
    pub total_output_bytes: u64,
    /// Average compression time in microseconds.
    pub avg_compression_time_us: u64,
    /// Average decompression time in microseconds.
    pub avg_decompression_time_us: u64,
}

impl Clone for CompressionStats {
    fn clone(&self) -> (s: Self)
        ensures
            s == *self,
    {
        CompressionStats { ..*self }
    }
}

impl Default for CompressionStats {
    fn default() -> (s: Self)
        ensures
            s.total_records == 0,
            s.total_input_bytes == 0,
            s.total_output_bytes == 0,
            s.avg_compression_time_us == 0,
            s.avg_decompression_time_us == 0,
    {
        CompressionStats {
            total_records: 0,
            total_input_bytes: 0,
            total_output_bytes: 0,
            avg_compression_time_us: 0,
            avg_decompression_time_us: 0,
        }
    }
}

/// Compresses and decompresses log records with one algorithm.
pub struct WALRecordCompressor {
    algorithm: CompressionAlgorithm,
    level: u8,
    compression_stats: CompressionStats,
}

/// The running average after sample `x`, the `n`-th, from the average `avg` of the ones before.
fn next_average(avg: u64, n: u64, x: u64) -> (r: u64)
    requires
        n >= 1,
    ensures
        r == running_average(avg, n, x),
{
    let a: u128 = avg as u128;
    let k: u128 = (n - 1) as u128;
    assert(a * k <= 0xffff_ffff_ffff_ffffu128 * 0xffff_ffff_ffff_ffffu128) by (nonlinear_arith)
        requires
            a <= 0xffff_ffff_ffff_ffffu128,
            k <= 0xffff_ffff_ffff_ffffu128;
    let total: u128 = a * k + (x as u128);
    proof {
        let m: int = if avg >= x { avg as int } else { x as int };
        assert(avg * (n - 1) + x <= m * n) by (nonlinear_arith)
            requires
                n >= 1,
                avg <= m,
                x <= m,
                0 <= avg,
                0 <= x;
        assert((avg * (n - 1) + x) / (n as int) <= m) by (nonlinear_arith)
            requires
                n >= 1,
                0 <= avg * (n - 1) + x <= m * n;
        assert(0 <= avg * (n - 1)) by (nonlinear_arith)
            requires
                n >= 1;
    }
    (total / (n as u128)) as u64
}

impl WALRecordCompressor {
    /// The algorithm.
    pub closed spec fn algorithm(&self) -> CompressionAlgorithm {
        self.algorithm
    }

    /// The level.
    pub closed spec fn level(&self) -> u8 {
        self.level
    }

    /// The counts so far.
    pub closed spec fn stats(&self) -> CompressionStats {
        self.compression_stats
    }

    /// A compressor for `algorithm` at `level`, with zero counts; fails when the level is not
    /// valid for the algorithm.
    pub fn new(algorithm: CompressionAlgorithm, level: u8) -> (r: NativeResult<Self>)
        ensures
            level_is_valid(algorithm, level) ==> (r matches Ok(c)
                && c.algorithm() == algorithm
                && c.level() == level
                && c.stats() == (CompressionStats {
                    total_records: 0,
                    total_input_bytes: 0,
                    total_output_bytes: 0,
                    avg_compression_time_us: 0,
                    avg_decompression_time_us: 0,
                })),
            !level_is_valid(algorithm, level) ==> (r matches Err(NativeBackendError::InvalidConfiguration { parameter, reason })
                && parameter@ == "compression_level"@
                && reason@ == invalid_level_text(algorithm, level)),
    {
        if !algorithm.validate_level(level) {
            let mut reason = owned("Invalid compression level ");
            push_decimal(&mut reason, level as u64);
            reason.append(" for algorithm ");
            match algorithm {
                CompressionAlgorithm::NoCompression => reason.append("None"),
                CompressionAlgorithm::LZ4 => reason.append("LZ4"),
                CompressionAlgorithm::Zstd => reason.append("Zstd"),
                CompressionAlgorithm::Snappy => reason.append("Snappy"),
                CompressionAlgorithm::RLE => reason.append("RLE"),
            }
            return Err(NativeBackendError::InvalidConfiguration { parameter: owned("compression_level"), reason });
        }
        Ok(WALRecordCompressor { algorithm, level, compression_stats: CompressionStats::default() })
    }

    /// Compresses `data` with the compressor's algorithm, and counts it: one record more, its
    /// input and output sizes added to the totals, and the time it took averaged in.
    pub fn compress(&mut self, data: &[u8]) -> (r: NativeResult<Vec<u8>>)
        requires
            old(self).stats().total_records < u64::MAX,
            old(self).stats().total_input_bytes + data@.len() <= u64::MAX,
            old(self).stats().total_output_bytes + encoded(old(self).algorithm(), data@).len() <= u64::MAX,
        ensures
            r matches Ok(out) && out@ == encoded(old(self).algorithm(), data@),
            final(self).algorithm() == old(self).algorithm(),
            final(self).level() == old(self).level(),
            final(self).stats().total_records == old(self).stats().total_records + 1,
            final(self).stats().total_input_bytes == old(self).stats().total_input_bytes + data@.len(),
            final(self).stats().total_output_bytes
                == old(self).stats().total_output_bytes + encoded(old(self).algorithm(), data@).len(),
            exists|us: u64| final(self).stats().avg_compression_time_us == running_average(
                old(self).stats().avg_compression_time_us,
                final(self).stats().total_records,
                us,
            ),
            final(self).stats().avg_decompression_time_us == old(self).stats().avg_decompression_time_us,
    {
        let start = instant_now();
        let compressed = match self.algorithm {
            CompressionAlgorithm::NoCompression => {
                let v = tail_bytes(data, 0);
                assert(v@ =~= data@);
                v
            },
            CompressionAlgorithm::LZ4 => compress_lz4(data),
            CompressionAlgorithm::Zstd => compress_zstd(data),
            CompressionAlgorithm::Snappy => compress_snappy(data),
            CompressionAlgorithm::RLE => compress_rle(data),
        };
        let duration = micros_since(&start);
        self.compression_stats.total_records = self.compression_stats.total_records + 1;
        self.compression_stats.total_input_bytes = self.compression_stats.total_input_bytes + data.len() as u64;
        self.compression_stats.total_output_bytes = self.compression_stats.total_output_bytes
            + compressed.len() as u64;
        let n = self.compression_stats.total_records;
        self.compression_stats.avg_compression_time_us = next_average(
            self.compression_stats.avg_compression_time_us,
            n,
            duration,
        );
        Ok(compressed)
    }

    /// Decompresses `compressed` with the compressor's algorithm; fails as the algorithm's
    /// decoder does on corrupt input. After a success, once a record has been compressed,
    /// the time it took is averaged in.
    pub fn decompress(&mut self, compressed: &[u8]) -> (r: NativeResult<Vec<u8>>)
        ensures
            match decoded(old(self).algorithm(), compressed@) {
                Ok(d) => r matches Ok(out) && out@ == d,
                Err(m) => r matches Err(NativeBackendError::CorruptionDetected { context }) && context@ == m,
            },
            final(self).algorithm() == old(self).algorithm(),
            final(self).level() == old(self).level(),
            final(self).stats().total_records == old(self).stats().total_records,
            final(self).stats().total_input_bytes == old(self).stats().total_input_bytes,
            final(self).stats().total_output_bytes == old(self).stats().total_output_bytes,
            final(self).stats().avg_compression_time_us == old(self).stats().avg_compression_time_us,
            (r is Err || old(self).stats().total_records == 0) ==> final(self).stats().avg_decompression_time_us
                == old(self).stats().avg_decompression_time_us,
            (r is Ok && old(self).stats().total_records > 0) ==> exists|us: u64|
                final(self).stats().avg_decompression_time_us == running_average(
                    old(self).stats().avg_decompression_time_us,
                    old(self).stats().total_records,
                    us,
                ),
    {
        let start = instant_now();
        let decompressed = match self.algorithm {
            CompressionAlgorithm::NoCompression => {
                let v = tail_bytes(compressed, 0);
                assert(v@ =~= compressed@);
                v
            },
            CompressionAlgorithm::LZ4 => decompress_lz4(compressed),
            CompressionAlgorithm::Zstd => decompress_zstd(compressed),
            CompressionAlgorithm::Snappy => match decompress_snappy(compressed) {
                Ok(d) => d,
                Err(e) => return Err(e),
            },
            CompressionAlgorithm::RLE => match decompress_rle(compressed) {
                Ok(d) => d,
                Err(e) => return Err(e),
            },
        };
        let duration = micros_since(&start);
        let n = self.compression_stats.total_records;
        if n > 0 {
            self.compression_stats.avg_decompression_time_us = next_average(
                self.compression_stats.avg_decompression_time_us,
                n,
                duration,
            );
        }
        Ok(decompressed)
    }

    /// The counts so far.
    pub fn get_stats(&self) -> (s: CompressionStats)
        ensures
            s == self.stats(),
    {
        self.compression_stats.clone()
    }
}

proof fn lemma_rle_even_from(d: Seq<u8>, i: int)
    requires
        0 <= i <= d.len(),
    ensures
        rle_encode_from(d, i).len() % 2 == 0,
    decreases d.len() - i,
{
    if i < d.len() {
        lemma_run_len(d, i);
        lemma_rle_even_from(d, i + run_len(d, i));
    }
}

/// Decompressing what a compressor made gives the record back, for every algorithm and
/// every record.
pub proof fn lemma_compression_roundtrip(a: CompressionAlgorithm, d: Seq<u8>)
    ensures
        decoded(a, encoded(a, d)) == Ok::<Seq<u8>, Seq<char>>(d),
{
    match a {
        CompressionAlgorithm::LZ4 => lemma_lz4_roundtrip(d),
        CompressionAlgorithm::Zstd => lemma_zstd_roundtrip(d),
        CompressionAlgorithm::Snappy => lemma_snappy_roundtrip(d),
        CompressionAlgorithm::RLE => {
            lemma_rle_even_from(d, 0);
            lemma_rle_roundtrip(d);
        },
        _ => {},
    }
}

} // verus!

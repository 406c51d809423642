//! Performance settings of the log: compression algorithms and their levels, the tuning
//! configuration, and the adjustments that adaptive tuning applies to it.
pub mod codecs;
pub mod compressor;

use vstd::prelude::*;
use crate::duration::Duration;

verus! {

/// Whether a batch of `pending` writes that has waited for `waited` is due: it holds
/// `max_batch_size` writes or more, or it has waited `timeout` or longer.
pub fn batch_due(pending: usize, max_batch_size: usize, waited: &Duration, timeout: &Duration) -> (b: bool)
    ensures
        b == (pending >= max_batch_size || waited@ >= timeout@),
{
    pending >= max_batch_size || timeout.le(waited)
}

/// Compression algorithms of the log records.
#[derive(Debug, Clone, Copy, PartialEq, Eq, Structural)]
pub enum CompressionAlgorithm {
    /// Records are stored as they are.
    NoCompression,
    /// Fast run-length compression with an escape byte.
    LZ4,
    /// Frequency-table framing.
    Zstd,
    /// Literal and back-reference commands.
    Snappy,
    /// Plain run-length encoding.
    RLE,
}

/// The default compression level of an algorithm.
pub open spec fn spec_default_level(a: CompressionAlgorithm) -> u8 {
    match a {
        CompressionAlgorithm::NoCompression => 0,
        CompressionAlgorithm::LZ4 => 3,
        CompressionAlgorithm::Zstd => 3,
        CompressionAlgorithm::Snappy => 1,
        CompressionAlgorithm::RLE => 1,
    }
}

/// Whether `level` is a valid compression level of algorithm `a`.
pub open spec fn level_is_valid(a: CompressionAlgorithm, level: u8) -> bool {
    match a {
        CompressionAlgorithm::NoCompression => level == 0,
        CompressionAlgorithm::LZ4 => 1 <= level <= 9,
        CompressionAlgorithm::Zstd => 1 <= level <= 19,
        CompressionAlgorithm::Snappy => level == 1,
        CompressionAlgorithm::RLE => 1 <= level <= 3,
    }
}

impl CompressionAlgorithm {
    /// The default compression level of this algorithm.
    pub fn default_level(&self) -> (l: u8)
        ensures
            l == spec_default_level(*self),
    {
        match self {
            CompressionAlgorithm::NoCompression => 0,
            CompressionAlgorithm::LZ4 => 3,
            CompressionAlgorithm::Zstd => 3,
            CompressionAlgorithm::Snappy => 1,
            CompressionAlgorithm::RLE => 1,
        }
    }

    /// Whether `level` is a valid compression level of this algorithm.
    pub fn validate_level(&self, level: u8) -> (b: bool)
        ensures
            b == level_is_valid(*self, level),
    {
        match self {
            CompressionAlgorithm::NoCompression => level == 0,
            CompressionAlgorithm::LZ4 => 1 <= level && level <= 9,
            CompressionAlgorithm::Zstd => 1 <= level && level <= 19,
            CompressionAlgorithm::Snappy => level == 1,
            CompressionAlgorithm::RLE => 1 <= level && level <= 3,
        }
    }
}

/// Performance configuration of the log.
#[derive(Debug)]
pub struct PerformanceConfig {
    /// Whether records are compressed.
    pub enable_compression: bool,
    /// The compression algorithm.
    pub compression_algorithm: CompressionAlgorithm,
    /// The compression level.
    pub compression_level: u8,
    /// Whether writes are batched.
    pub enable_io_batching: bool,
    /// Largest number of writes in a batch.
    pub max_batch_size: usize,
    /// Batch timeout in milliseconds.
    pub batch_timeout_ms: u64,
    /// Whether records are grouped by cluster.
    pub enable_cluster_affinity: bool,
    /// Largest number of records in a cluster group.
    pub max_cluster_group_size: usize,
    /// Whether the configuration is tuned while running.
    pub enable_adaptive_tuning: bool,
    /// Monitoring interval in milliseconds.
    pub monitoring_interval_ms: u64,
}

impl Clone for PerformanceConfig {
    fn clone(&self) -> (c: Self)
        ensures
            c == *self,
    {
        PerformanceConfig { ..*self }
    }
}

impl Default for PerformanceConfig {
    /// Compression off (LZ4 at level 3 when turned on), batches of 1000 writes with a
    /// 10 ms timeout, cluster groups of 50 records, tuning on, monitoring every second.
    fn default() -> (c: Self)
        ensures
            !c.enable_compression,
            c.compression_algorithm == CompressionAlgorithm::LZ4,
            c.compression_level == 3,
            c.enable_io_batching,
            c.max_batch_size == 1000,
            c.batch_timeout_ms == 10,
            c.enable_cluster_affinity,
            c.max_cluster_group_size == 50,
            c.enable_adaptive_tuning,
            c.monitoring_interval_ms == 1000,
    {
        PerformanceConfig {
            enable_compression: false,
            compression_algorithm: CompressionAlgorithm::LZ4,
            compression_level: 3,
            enable_io_batching: true,
            max_batch_size: 1000,
            batch_timeout_ms: 10,
            enable_cluster_affinity: true,
            max_cluster_group_size: 50,
            enable_adaptive_tuning: true,
            monitoring_interval_ms: 1000,
        }
    }
}

/// Counts of the adjustments that adaptive tuning made.
#[derive(Debug)]
pub struct TuningStats {
    /// All adjustments.
    pub total_adjustments: u64,
    /// Adjustments that turned compression on.
    pub compression_adjustments: u64,
    /// Adjustments of the batch size.
    pub batch_size_adjustments: u64,
    /// Adjustments of the batch timeout.
    pub timeout_adjustments: u64,
}

impl Clone for TuningStats {
    fn clone(&self) -> (s: Self)
        ensures
            s == *self,
    {
        TuningStats { ..*self }
    }
}

impl Default for TuningStats {
    fn default() -> (s: Self)
        ensures
            s.total_adjustments == 0,
            s.compression_adjustments == 0,
            s.batch_size_adjustments == 0,
            s.timeout_adjustments == 0,
    {
        TuningStats {
            total_adjustments: 0,
            compression_adjustments: 0,
            batch_size_adjustments: 0,
            timeout_adjustments: 0,
        }
    }
}

/// What adaptive tuning does about a trend in the measurements.
#[derive(Debug, Clone, Copy, PartialEq, Eq, Structural)]
pub enum PerformanceAdjustment {
    /// Throughput fell: larger batches, compression on.
    ImproveThroughput,
    /// Latency rose: smaller batches, shorter timeout.
    ReduceLatency,
    /// Memory use is high: smaller batches and cluster groups.
    ReduceMemoryUsage,
}

/// The configuration and counts after adjustment `a` is applied to `c` and `s`.
pub open spec fn adjusted(c: PerformanceConfig, s: TuningStats, a: PerformanceAdjustment) -> (PerformanceConfig, TuningStats) {
    let s1 = TuningStats { total_adjustments: (s.total_adjustments + 1) as u64, ..s };
    match a {
        PerformanceAdjustment::ImproveThroughput => {
            let grow = c.max_batch_size < 5000;
            let enable = !c.enable_compression;
            (
                PerformanceConfig {
                    max_batch_size: if grow { (c.max_batch_size * 2) as usize } else { c.max_batch_size },
                    enable_compression: true,
                    ..c
                },
                TuningStats {
                    batch_size_adjustments: if grow { (s.batch_size_adjustments + 1) as u64 } else { s.batch_size_adjustments },
                    compression_adjustments: if enable { (s.compression_adjustments + 1) as u64 } else { s.compression_adjustments },
                    ..s1
                },
            )
        },
        PerformanceAdjustment::ReduceLatency => {
            let shrink = c.max_batch_size > 100;
            let faster = c.batch_timeout_ms > 5;
            (
                PerformanceConfig {
                    max_batch_size: if shrink { c.max_batch_size / 2 } else { c.max_batch_size },
                    batch_timeout_ms: if faster { c.batch_timeout_ms / 2 } else { c.batch_timeout_ms },
                    ..c
                },
                TuningStats {
                    batch_size_adjustments: if shrink { (s.batch_size_adjustments + 1) as u64 } else { s.batch_size_adjustments },
                    timeout_adjustments: if faster { (s.timeout_adjustments + 1) as u64 } else { s.timeout_adjustments },
                    ..s1
                },
            )
        },
        PerformanceAdjustment::ReduceMemoryUsage => {
            let shrink = c.max_batch_size > 100;
            (
                PerformanceConfig {
                    max_batch_size: if shrink { (c.max_batch_size * 3 / 4) as usize } else { c.max_batch_size },
                    max_cluster_group_size: if c.max_cluster_group_size > 25 {
                        c.max_cluster_group_size / 2
                    } else {
                        c.max_cluster_group_size
                    },
                    ..c
                },
                TuningStats {
                    batch_size_adjustments: if shrink { (s.batch_size_adjustments + 1) as u64 } else { s.batch_size_adjustments },
                    ..s1
                },
            )
        },
    }
}

/// Whether no count of `s` is at its largest value, so that one more adjustment can be counted.
pub open spec fn room_for_adjustment(s: TuningStats) -> bool {
    &&& s.total_adjustments < u64::MAX
    &&& s.compression_adjustments < u64::MAX
    &&& s.batch_size_adjustments < u64::MAX
    &&& s.timeout_adjustments < u64::MAX
}

/// Adaptive tuning of the performance configuration: the configuration in force, the
/// adjustments made so far, and how many measurements the tuner keeps.
pub struct AdaptivePerformanceTuner {
    current_config: PerformanceConfig,
    stats: TuningStats,
    max_history_size: usize,
}

impl AdaptivePerformanceTuner {
    /// The configuration in force.
    pub closed spec fn config(&self) -> PerformanceConfig {
        self.current_config
    }

    /// The adjustments made so far.
    pub closed spec fn tuning(&self) -> TuningStats {
        self.stats
    }

    /// How many measurements the tuner keeps.
    pub closed spec fn history_limit(&self) -> usize {
        self.max_history_size
    }

    /// A tuner that starts from `initial_config` and has made no adjustment.
    pub fn new(initial_config: PerformanceConfig, max_history_size: usize) -> (t: Self)
        ensures
            t.config() == initial_config,
            t.tuning() == (TuningStats {
                total_adjustments: 0,
                compression_adjustments: 0,
                batch_size_adjustments: 0,
                timeout_adjustments: 0,
            }),
            t.history_limit() == max_history_size,
    {
        AdaptivePerformanceTuner { current_config: initial_config, stats: TuningStats::default(), max_history_size }
    }

    /// How many measurements the tuner keeps.
    pub fn max_history_size(&self) -> (n: usize)
        ensures
            n == self.history_limit(),
    {
        self.max_history_size
    }

    /// Applies adjustment `adjustment` to the configuration and counts it.
    pub fn apply_adjustment(&mut self, adjustment: PerformanceAdjustment)
        requires
            room_for_adjustment(old(self).tuning()),
        ensures
            (final(self).config(), final(self).tuning()) == adjusted(old(self).config(), old(self).tuning(), adjustment),
            final(self).history_limit() == old(self).history_limit(),
    {
        match adjustment {
            PerformanceAdjustment::ImproveThroughput => {
                if self.current_config.max_batch_size < 5000 {
                    self.current_config.max_batch_size = self.current_config.max_batch_size * 2;
                    self.stats.batch_size_adjustments = self.stats.batch_size_adjustments + 1;
                }
                if !self.current_config.enable_compression {
                    self.current_config.enable_compression = true;
                    self.stats.compression_adjustments = self.stats.compression_adjustments + 1;
                }
            },
            PerformanceAdjustment::ReduceLatency => {
                if self.current_config.max_batch_size > 100 {
                    self.current_config.max_batch_size = self.current_config.max_batch_size / 2;
                    self.stats.batch_size_adjustments = self.stats.batch_size_adjustments + 1;
                }
                if self.current_config.batch_timeout_ms > 5 {
                    self.current_config.batch_timeout_ms = self.current_config.batch_timeout_ms / 2;
                    self.stats.timeout_adjustments = self.stats.timeout_adjustments + 1;
                }
            },
            PerformanceAdjustment::ReduceMemoryUsage => {
                if self.current_config.max_batch_size > 100 {
                    let x = self.current_config.max_batch_size;
                    // 3x/4 without forming 3x: x = 4q + r gives 3x/4 = 3q + 3r/4.
                    let q = x / 4;
                    let r = x % 4;
                    assert(q * 3 + (r * 3) / 4 == x * 3 / 4) by (nonlinear_arith)
                        requires q == x / 4, r == x % 4;
                    self.current_config.max_batch_size = q * 3 + (r * 3) / 4;
                    self.stats.batch_size_adjustments = self.stats.batch_size_adjustments + 1;
                }
                if self.current_config.max_cluster_group_size > 25 {
                    self.current_config.max_cluster_group_size = self.current_config.max_cluster_group_size / 2;
                }
            },
        }
        self.stats.total_adjustments = self.stats.total_adjustments + 1;
    }

    /// The configuration in force.
    pub fn get_config(&self) -> (c: PerformanceConfig)
        ensures
            c == self.config(),
    {
        self.current_config.clone()
    }

    /// The adjustments made so far.
    pub fn get_stats(&self) -> (s: TuningStats)
        ensures
            s == self.tuning(),
    {
        self.stats.clone()
    }
}

} // verus!

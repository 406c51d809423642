//! Configuration of the V2 write-ahead log.
use vstd::prelude::*;
use crate::native_error::{NativeBackendError, NativeResult};

verus! {

/// The path `path` with its extension replaced by `ext` (removed when `ext` is empty),
/// following the host's path rules.
pub uninterp spec fn spec_with_extension(path: Seq<char>, ext: Seq<char>) -> Seq<char>;

/// Whether `s` holds no path separator ('/', nor '\\' on Windows).
pub open spec fn no_separator(s: Seq<char>) -> bool {
    forall|k: int| 0 <= k < s.len() ==> #[trigger] s[k] != '/' && s[k] != '\\'
}

/// Replaces the extension of a path, as `std::path::Path::with_extension` does; the
/// extension holds no path separator, on which `with_extension` panics.
#[verifier::external_body]
pub(crate) fn path_with_extension(path: &str, ext: &str) -> (r: String)
    requires
        no_separator(ext@),
    ensures
        r@ == spec_with_extension(path@, ext@),
{
    std::path::Path::new(path).with_extension(ext).to_string_lossy().into_owned()
}

/// Whether `n` is a power of two.
pub open spec fn is_power_of_two(n: nat) -> bool
    decreases n,
{
    if n == 1 {
        true
    } else if n < 2 || n % 2 == 1 {
        false
    } else {
        is_power_of_two(n / 2)
    }
}

/// Decides whether `n` is a power of two.
pub fn check_power_of_two(n: usize) -> (b: bool)
    ensures
        b == is_power_of_two(n as nat),
{
    let mut m = n;
    while m >= 2 && m % 2 == 0
        invariant
            is_power_of_two(m as nat) == is_power_of_two(n as nat),
        decreases m,
    {
        m = m / 2;
    }
    m == 1
}

/// V2 write-ahead-log configuration.
#[derive(Debug)]
pub struct V2WALConfig {
    /// Path of the graph file.
    pub graph_path: String,
    /// Path of the main log file.
    pub wal_path: String,
    /// Path of the checkpoint tracking file.
    pub checkpoint_path: String,
    /// Log size in bytes that forces a checkpoint.
    pub max_wal_size: u64,
    /// Write buffer size in bytes.
    pub buffer_size: usize,
    /// Checkpoint interval in transactions.
    pub checkpoint_interval: u64,
    /// Group commit timeout in milliseconds.
    pub group_commit_timeout_ms: u64,
    /// Largest number of records in a group commit.
    pub max_group_commit_size: usize,
    /// Whether records are compressed.
    pub enable_compression: bool,
    /// Compression level (1 to 9) when compression is on.
    pub compression_level: u8,
    /// Whether commits trigger checkpoints automatically.
    pub auto_checkpoint: bool,
    /// Whether a background thread checks for checkpoints.
    pub background_checkpoint_thread: bool,
    /// Interval of the background check in seconds.
    pub background_checkpoint_interval_secs: u64,
}

/// Whether `c` holds the default values of every field other than the three paths.
pub open spec fn has_default_settings(c: V2WALConfig) -> bool {
    &&& c.max_wal_size == 1024 * 1024 * 1024
    &&& c.buffer_size == 1024 * 1024
    &&& c.checkpoint_interval == 1000
    &&& c.group_commit_timeout_ms == 10
    &&& c.max_group_commit_size == 100
    &&& !c.enable_compression
    &&& c.compression_level == 3
    &&& c.auto_checkpoint
    &&& !c.background_checkpoint_thread
    &&& c.background_checkpoint_interval_secs == 60
}

/// The configuration error that `validate` reports for `c`, if any.
pub open spec fn config_error(c: V2WALConfig) -> Option<(Seq<char>, Seq<char>)> {
    if c.buffer_size == 0 || !is_power_of_two(c.buffer_size as nat) {
        Some(("buffer_size"@, "must be a non-zero power of two"@))
    } else if c.max_wal_size < 1024 * 1024 {
        Some(("max_wal_size"@, "must be at least 1MB"@))
    } else if c.checkpoint_interval == 0 {
        Some(("checkpoint_interval"@, "must be greater than zero"@))
    } else if c.enable_compression && !(1 <= c.compression_level <= 9) {
        Some(("compression_level"@, "must be between 1 and 9 when compression is enabled"@))
    } else {
        None
    }
}

impl Clone for V2WALConfig {
    /// An equal configuration.
    fn clone(&self) -> (c: Self)
        ensures
            c == *self,
    {
        V2WALConfig {
            graph_path: self.graph_path.clone(),
            wal_path: self.wal_path.clone(),
            checkpoint_path: self.checkpoint_path.clone(),
            ..*self
        }
    }
}

impl Default for V2WALConfig {
    fn default() -> (c: Self)
        ensures
            c.graph_path@ == "v2_graph.db"@,
            c.wal_path@ == "v2_graph.wal"@,
            c.checkpoint_path@ == "v2_graph.checkpoint"@,
            has_default_settings(c),
    {
        V2WALConfig {
            graph_path: String::from_str("v2_graph.db"),
            wal_path: String::from_str("v2_graph.wal"),
            checkpoint_path: String::from_str("v2_graph.checkpoint"),
            max_wal_size: 1024 * 1024 * 1024,
            buffer_size: 1024 * 1024,
            checkpoint_interval: 1000,
            group_commit_timeout_ms: 10,
            max_group_commit_size: 100,
            enable_compression: false,
            compression_level: 3,
            auto_checkpoint: true,
            background_checkpoint_thread: false,
            background_checkpoint_interval_secs: 60,
        }
    }
}

impl V2WALConfig {
    /// The configuration for the graph file at `graph_path`: the log and checkpoint files sit
    /// beside it, with the graph file's extension replaced by `wal` and `checkpoint`.
    pub fn for_graph_file(graph_path: &str) -> (c: Self)
        ensures
            c.graph_path@ == graph_path@,
            c.wal_path@ == spec_with_extension(spec_with_extension(graph_path@, ""@), "wal"@),
            c.checkpoint_path@ == spec_with_extension(
                spec_with_extension(graph_path@, ""@),
                "checkpoint"@,
            ),
            has_default_settings(c),
    {
        proof {
            reveal_strlit("");
            reveal_strlit("wal");
            reveal_strlit("checkpoint");
        }
        let base = path_with_extension(graph_path, "");
        let d = V2WALConfig::default();
        V2WALConfig {
            graph_path: String::from_str(graph_path),
            wal_path: path_with_extension(base.as_str(), "wal"),
            checkpoint_path: path_with_extension(base.as_str(), "checkpoint"),
            ..d
        }
    }

    /// Checks the configuration: the buffer size must be a non-zero power of two, the log
    /// size limit at least 1MB, the checkpoint interval non-zero, and the compression level
    /// within 1 to 9 when compression is on. The first rule broken is reported.
    pub fn validate(&self) -> (r: NativeResult<()>)
        ensures
            match config_error(*self) {
                None => r is Ok,
                Some((parameter, reason)) => r matches Err(
                    NativeBackendError::InvalidConfiguration { parameter: p, reason: q },
                ) && p@ == parameter && q@ == reason,
            },
    {
        if self.buffer_size == 0 || !check_power_of_two(self.buffer_size) {
            return Err(NativeBackendError::InvalidConfiguration {
                parameter: String::from_str("buffer_size"),
                reason: String::from_str("must be a non-zero power of two"),
            });
        }
        if self.max_wal_size < 1024 * 1024 {
            return Err(NativeBackendError::InvalidConfiguration {
                parameter: String::from_str("max_wal_size"),
                reason: String::from_str("must be at least 1MB"),
            });
        }
        if self.checkpoint_interval == 0 {
            return Err(NativeBackendError::InvalidConfiguration {
                parameter: String::from_str("checkpoint_interval"),
                reason: String::from_str("must be greater than zero"),
            });
        }
        if self.enable_compression && !(1 <= self.compression_level && self.compression_level <= 9) {
            return Err(NativeBackendError::InvalidConfiguration {
                parameter: String::from_str("compression_level"),
                reason: String::from_str("must be between 1 and 9 when compression is enabled"),
            });
        }
        Ok(())
    }
}

/// The default settings pass validation.
pub proof fn lemma_default_settings_are_valid(c: V2WALConfig)
    requires
        has_default_settings(c),
    ensures
        config_error(c) is None,
{
    reveal_with_fuel(is_power_of_two, 22);
    assert(is_power_of_two(1024 * 1024));
}

} // verus!

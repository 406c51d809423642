# sqlitegraph_wal

Incremental checkpointing, metrics and compression for the V2 write-ahead log of a graph
store, written in Verus.

- `src/` is the verified library. Each public function states its result in its contract,
  over spec functions and views; public proof functions state the laws that span several
  functions (round trips of the on-disk formats, the checkpoint state machine, the
  bookkeeping of dirty blocks, the orderings used by reports and retention).
  - `checkpoint/`: strategies, the checkpoint state machine and dirty block tracking,
    checkpoint and segment file formats, multi-file manifests, validation rules,
    consistency and invariant checks, reports' verdicts, retention of old files.
  - `metrics/`: latency histograms, throughput samples, error tracking, analysis
    categories and recommendations.
  - `performance/`: the compression codecs and the adaptive tuning core.
  - `header.rs`, `lsn.rs`, `config.rs`, `bytes.rs`, `text.rs`, `duration.rs`, `seqs.rs`:
    the log header, LSNs, configuration, and the byte, text, time and sequence helpers.
- `app/` holds what the library leaves to its caller: file and clock access, locks,
  floating-point scores and rates, and serializable copies of report types.
- `tests/` exercises the library from outside.

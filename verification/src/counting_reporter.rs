//! A reporter that accumulates operation counts.
//!
//! Useful to assert exact IO costs and to print IO profiles of single calls.
use vstd::prelude::*;

use crate::metrics::MetricEvent;
use crate::text::push_u128;

#[allow(unused_imports)]
use crate::text::nat_text;

verus! {

/// A counter that wraps around at the end of its range.
#[derive(Debug)]
pub struct RelaxedCounter {
    value: u64,
}

/// The sum of two counts, wrapped around.
#[verifier::opaque]
pub open spec fn wrapped(a: u64, b: u64) -> u64 {
    ((a + b) % 0x1_0000_0000_0000_0000) as u64
}

impl View for RelaxedCounter {
    type V = u64;

    closed spec fn view(&self) -> u64 {
        self.value
    }
}

impl RelaxedCounter {
    /// A counter at zero.
    pub fn new() -> (r: Self)
        ensures
            r@ == 0,
    {
        RelaxedCounter { value: 0 }
    }

    /// Increment the counter by one.
    pub fn inc(&mut self)
        ensures
            final(self)@ == wrapped(old(self)@, 1),
    {
        reveal(wrapped);
        self.value = self.value.wrapping_add(1);
    }

    /// Add `n` to the counter.
    pub fn add(&mut self, n: u64)
        ensures
            final(self)@ == wrapped(old(self)@, n),
    {
        reveal(wrapped);
        self.value = self.value.wrapping_add(n);
    }

    /// Read the current value.
    pub fn get(&self) -> (r: u64)
        ensures
            r == self@,
    {
        self.value
    }

    /// Reset the counter to zero.
    pub fn reset(&mut self)
        ensures
            final(self)@ == 0,
    {
        self.value = 0;
    }
}

impl Default for RelaxedCounter {
    fn default() -> (r: Self)
        ensures
            r@ == 0,
    {
        RelaxedCounter::new()
    }
}

/// Accumulates storage and operation metrics from metric events.
#[derive(Debug)]
pub struct CountingReporter {
    /// Number of list calls.
    pub list_calls: RelaxedCounter,
    /// Total files returned across all list calls.
    pub list_files_seen: RelaxedCounter,
    /// Number of storage read calls.
    pub storage_read_calls: RelaxedCounter,
    /// Total individual files read from storage.
    pub storage_read_files: RelaxedCounter,
    /// Total bytes read from storage.
    pub storage_bytes_read: RelaxedCounter,
    /// Number of copy calls.
    pub copy_calls: RelaxedCounter,
    /// Number of calls that read JSON files.
    pub json_read_calls: RelaxedCounter,
    /// Total JSON files requested.
    pub json_files_read: RelaxedCounter,
    /// Total on-disk bytes of JSON files requested.
    pub json_bytes_read: RelaxedCounter,
    /// Number of calls that read Parquet files.
    pub parquet_read_calls: RelaxedCounter,
    /// Total Parquet files requested.
    pub parquet_files_read: RelaxedCounter,
    /// Total on-disk bytes of Parquet files requested.
    pub parquet_bytes_read: RelaxedCounter,
    /// Number of completed snapshot constructions.
    pub snapshot_completions: RelaxedCounter,
    /// Number of full (non-incremental) log segment loads.
    pub log_segment_loads: RelaxedCounter,
    /// Total commit files in the commit tail across all log segment loads.
    pub commit_files: RelaxedCounter,
    /// Total checkpoint part files read across all log segment loads.
    pub checkpoint_files: RelaxedCounter,
    /// Total log compaction files in the commit tail across all log segment loads.
    pub compaction_files: RelaxedCounter,
}

/// The values of all counters.
pub struct CountsV {
    pub list_calls: u64,
    pub list_files_seen: u64,
    pub storage_read_calls: u64,
    pub storage_read_files: u64,
    pub storage_bytes_read: u64,
    pub copy_calls: u64,
    pub json_read_calls: u64,
    pub json_files_read: u64,
    pub json_bytes_read: u64,
    pub parquet_read_calls: u64,
    pub parquet_files_read: u64,
    pub parquet_bytes_read: u64,
    pub snapshot_completions: u64,
    pub log_segment_loads: u64,
    pub commit_files: u64,
    pub checkpoint_files: u64,
    pub compaction_files: u64,
}

/// All counters at zero.
pub open spec fn no_counts() -> CountsV {
    CountsV {
        list_calls: 0,
        list_files_seen: 0,
        storage_read_calls: 0,
        storage_read_files: 0,
        storage_bytes_read: 0,
        copy_calls: 0,
        json_read_calls: 0,
        json_files_read: 0,
        json_bytes_read: 0,
        parquet_read_calls: 0,
        parquet_files_read: 0,
        parquet_bytes_read: 0,
        snapshot_completions: 0,
        log_segment_loads: 0,
        commit_files: 0,
        checkpoint_files: 0,
        compaction_files: 0,
    }
}

/// What an event adds to the counters: one to the number of its kind, and what it counts to the
/// totals. Some kinds are not counted.
pub open spec fn increments(e: MetricEvent) -> CountsV {
    match e {
        MetricEvent::StorageListCompleted { num_files, .. } => CountsV {
            list_calls: 1,
            list_files_seen: num_files,
            ..no_counts()
        },
        MetricEvent::StorageReadCompleted { num_files, bytes_read, .. } => CountsV {
            storage_read_calls: 1,
            storage_read_files: num_files,
            storage_bytes_read: bytes_read,
            ..no_counts()
        },
        MetricEvent::StorageCopyCompleted { .. } => CountsV { copy_calls: 1, ..no_counts() },
        MetricEvent::JsonReadCompleted { num_files, bytes_read } => CountsV {
            json_read_calls: 1,
            json_files_read: num_files,
            json_bytes_read: bytes_read,
            ..no_counts()
        },
        MetricEvent::ParquetReadCompleted { num_files, bytes_read } => CountsV {
            parquet_read_calls: 1,
            parquet_files_read: num_files,
            parquet_bytes_read: bytes_read,
            ..no_counts()
        },
        MetricEvent::SnapshotCompleted { .. } => CountsV { snapshot_completions: 1, ..no_counts() },
        MetricEvent::LogSegmentLoaded {
            num_commit_files,
            num_checkpoint_files,
            num_compaction_files,
            ..
        } => CountsV {
            log_segment_loads: 1,
            commit_files: num_commit_files,
            checkpoint_files: num_checkpoint_files,
            compaction_files: num_compaction_files,
            ..no_counts()
        },
        MetricEvent::ProtocolMetadataLoaded { .. } => no_counts(),
        MetricEvent::SnapshotFailed { .. } => no_counts(),
        MetricEvent::ScanMetadataCompleted { .. } => no_counts(),
    }
}

/// The sums of two sets of counters.
pub open spec fn plus(a: CountsV, b: CountsV) -> CountsV {
    CountsV {
        list_calls: wrapped(a.list_calls, b.list_calls),
        list_files_seen: wrapped(a.list_files_seen, b.list_files_seen),
        storage_read_calls: wrapped(a.storage_read_calls, b.storage_read_calls),
        storage_read_files: wrapped(a.storage_read_files, b.storage_read_files),
        storage_bytes_read: wrapped(a.storage_bytes_read, b.storage_bytes_read),
        copy_calls: wrapped(a.copy_calls, b.copy_calls),
        json_read_calls: wrapped(a.json_read_calls, b.json_read_calls),
        json_files_read: wrapped(a.json_files_read, b.json_files_read),
        json_bytes_read: wrapped(a.json_bytes_read, b.json_bytes_read),
        parquet_read_calls: wrapped(a.parquet_read_calls, b.parquet_read_calls),
        parquet_files_read: wrapped(a.parquet_files_read, b.parquet_files_read),
        parquet_bytes_read: wrapped(a.parquet_bytes_read, b.parquet_bytes_read),
        snapshot_completions: wrapped(a.snapshot_completions, b.snapshot_completions),
        log_segment_loads: wrapped(a.log_segment_loads, b.log_segment_loads),
        commit_files: wrapped(a.commit_files, b.commit_files),
        checkpoint_files: wrapped(a.checkpoint_files, b.checkpoint_files),
        compaction_files: wrapped(a.compaction_files, b.compaction_files),
    }
}

/// The counters after an event.
pub open spec fn counted(c: CountsV, e: MetricEvent) -> CountsV {
    plus(c, increments(e))
}

/// The counters do not depend on the order in which two events are reported.
pub proof fn law_order_does_not_matter(c: CountsV, a: MetricEvent, b: MetricEvent)
    ensures
        counted(counted(c, a), b) == counted(counted(c, b), a),
{
    let x = increments(a);
    let y = increments(b);
    lemma_wrapped_swaps(c.list_calls, x.list_calls, y.list_calls);
    lemma_wrapped_swaps(c.list_files_seen, x.list_files_seen, y.list_files_seen);
    lemma_wrapped_swaps(c.storage_read_calls, x.storage_read_calls, y.storage_read_calls);
    lemma_wrapped_swaps(c.storage_read_files, x.storage_read_files, y.storage_read_files);
    lemma_wrapped_swaps(c.storage_bytes_read, x.storage_bytes_read, y.storage_bytes_read);
    lemma_wrapped_swaps(c.copy_calls, x.copy_calls, y.copy_calls);
    lemma_wrapped_swaps(c.json_read_calls, x.json_read_calls, y.json_read_calls);
    lemma_wrapped_swaps(c.json_files_read, x.json_files_read, y.json_files_read);
    lemma_wrapped_swaps(c.json_bytes_read, x.json_bytes_read, y.json_bytes_read);
    lemma_wrapped_swaps(c.parquet_read_calls, x.parquet_read_calls, y.parquet_read_calls);
    lemma_wrapped_swaps(c.parquet_files_read, x.parquet_files_read, y.parquet_files_read);
    lemma_wrapped_swaps(c.parquet_bytes_read, x.parquet_bytes_read, y.parquet_bytes_read);
    lemma_wrapped_swaps(c.snapshot_completions, x.snapshot_completions, y.snapshot_completions);
    lemma_wrapped_swaps(c.log_segment_loads, x.log_segment_loads, y.log_segment_loads);
    lemma_wrapped_swaps(c.commit_files, x.commit_files, y.commit_files);
    lemma_wrapped_swaps(c.checkpoint_files, x.checkpoint_files, y.checkpoint_files);
    lemma_wrapped_swaps(c.compaction_files, x.compaction_files, y.compaction_files);
}

proof fn lemma_wrapped_swaps(n: u64, x: u64, y: u64)
    ensures
        wrapped(wrapped(n, x), y) == wrapped(wrapped(n, y), x),
{
    reveal(wrapped);
}

/// The text of the summary of all counters, one line for each kind of work.
pub open spec fn summary_text(c: CountsV, label: Seq<char>) -> Seq<char> {
    "  [io] "@ + label + "\n    storage : "@ + nat_text(c.list_calls as nat) + " list ("@ + nat_text(
        c.list_files_seen as nat,
    ) + " files seen)  "@ + nat_text(c.storage_read_calls as nat) + " raw read ("@ + nat_text(
        c.storage_read_files as nat,
    ) + " files, "@ + nat_text(c.storage_bytes_read as nat / 1024) + " KiB)  "@ + nat_text(
        c.copy_calls as nat,
    ) + " copy\n    json    : "@ + nat_text(c.json_read_calls as nat) + " call(s)  "@ + nat_text(
        c.json_files_read as nat,
    ) + " files  "@ + nat_text(c.json_bytes_read as nat / 1024) + " KiB\n    parquet : "@ + nat_text(
        c.parquet_read_calls as nat,
    ) + " call(s)  "@ + nat_text(c.parquet_files_read as nat) + " files  "@ + nat_text(
        c.parquet_bytes_read as nat / 1024,
    ) + " KiB\n    log     : "@ + nat_text(c.log_segment_loads as nat) + " segment load(s) -- "@
        + nat_text(c.commit_files as nat) + " commits  "@ + nat_text(c.checkpoint_files as nat)
        + " checkpoints  "@ + nat_text(c.compaction_files as nat) + " compactions\n"@
}

fn push_number(text: &mut String, n: u64, tail: &str)
    ensures
        final(text)@ == old(text)@ + nat_text(n as nat) + tail@,
{
    push_u128(text, n as u128);
    text.push_str(tail);
}

impl CountingReporter {
    /// The values of all counters.
    pub open spec fn counts(self) -> CountsV {
        CountsV {
            list_calls: self.list_calls@,
            list_files_seen: self.list_files_seen@,
            storage_read_calls: self.storage_read_calls@,
            storage_read_files: self.storage_read_files@,
            storage_bytes_read: self.storage_bytes_read@,
            copy_calls: self.copy_calls@,
            json_read_calls: self.json_read_calls@,
            json_files_read: self.json_files_read@,
            json_bytes_read: self.json_bytes_read@,
            parquet_read_calls: self.parquet_read_calls@,
            parquet_files_read: self.parquet_files_read@,
            parquet_bytes_read: self.parquet_bytes_read@,
            snapshot_completions: self.snapshot_completions@,
            log_segment_loads: self.log_segment_loads@,
            commit_files: self.commit_files@,
            checkpoint_files: self.checkpoint_files@,
            compaction_files: self.compaction_files@,
        }
    }

    /// Create a new reporter with all counters at zero.
    pub fn new() -> (r: Self)
        ensures
            r.counts() == no_counts(),
    {
        CountingReporter {
            list_calls: RelaxedCounter::new(),
            list_files_seen: RelaxedCounter::new(),
            storage_read_calls: RelaxedCounter::new(),
            storage_read_files: RelaxedCounter::new(),
            storage_bytes_read: RelaxedCounter::new(),
            copy_calls: RelaxedCounter::new(),
            json_read_calls: RelaxedCounter::new(),
            json_files_read: RelaxedCounter::new(),
            json_bytes_read: RelaxedCounter::new(),
            parquet_read_calls: RelaxedCounter::new(),
            parquet_files_read: RelaxedCounter::new(),
            parquet_bytes_read: RelaxedCounter::new(),
            snapshot_completions: RelaxedCounter::new(),
            log_segment_loads: RelaxedCounter::new(),
            commit_files: RelaxedCounter::new(),
            checkpoint_files: RelaxedCounter::new(),
            compaction_files: RelaxedCounter::new(),
        }
    }

    /// Reset all counters to zero.
    ///
    /// Useful before a single profiling iteration to get per-call counts.
    pub fn reset(&mut self)
        ensures
            final(self).counts() == no_counts(),
    {
        self.list_calls.reset();
        self.list_files_seen.reset();
        self.storage_read_calls.reset();
        self.storage_read_files.reset();
        self.storage_bytes_read.reset();
        self.copy_calls.reset();
        self.json_read_calls.reset();
        self.json_files_read.reset();
        self.json_bytes_read.reset();
        self.parquet_read_calls.reset();
        self.parquet_files_read.reset();
        self.parquet_bytes_read.reset();
        self.snapshot_completions.reset();
        self.log_segment_loads.reset();
        self.commit_files.reset();
        self.checkpoint_files.reset();
        self.compaction_files.reset();
    }

    /// Counts an event.
    pub fn report(&mut self, event: MetricEvent)
        ensures
            final(self).counts() == counted(old(self).counts(), event),
    {
        assert forall|n: u64| #[trigger] wrapped(n, 0) == n by {
            reveal(wrapped);
        }
        match event {
            MetricEvent::StorageListCompleted { num_files, .. } => {
                self.list_calls.inc();
                self.list_files_seen.add(num_files);
            },
            MetricEvent::StorageReadCompleted { num_files, bytes_read, .. } => {
                self.storage_read_calls.inc();
                self.storage_read_files.add(num_files);
                self.storage_bytes_read.add(bytes_read);
            },
            MetricEvent::StorageCopyCompleted { .. } => {
                self.copy_calls.inc();
            },
            MetricEvent::JsonReadCompleted { num_files, bytes_read } => {
                self.json_read_calls.inc();
                self.json_files_read.add(num_files);
                self.json_bytes_read.add(bytes_read);
            },
            MetricEvent::ParquetReadCompleted { num_files, bytes_read } => {
                self.parquet_read_calls.inc();
                self.parquet_files_read.add(num_files);
                self.parquet_bytes_read.add(bytes_read);
            },
            MetricEvent::SnapshotCompleted { .. } => {
                self.snapshot_completions.inc();
            },
            MetricEvent::LogSegmentLoaded {
                num_commit_files,
                num_checkpoint_files,
                num_compaction_files,
                ..
            } => {
                self.log_segment_loads.inc();
                self.commit_files.add(num_commit_files);
                self.checkpoint_files.add(num_checkpoint_files);
                self.compaction_files.add(num_compaction_files);
            },
            MetricEvent::ProtocolMetadataLoaded { .. }
            | MetricEvent::SnapshotFailed { .. }
            | MetricEvent::ScanMetadataCompleted { .. } => {},
        }
    }

    /// A human-readable IO and operation summary.
    ///
    /// Intended to be asked for after [`CountingReporter::reset`] and one operation, so that the
    /// values reflect a single call's cost.
    pub fn summary(&self, label: &str) -> (r: String)
        ensures
            r@ == summary_text(self.counts(), label@),
    {
        let mut r = crate::text::cat3("  [io] ", label, "\n    storage : ");
        push_number(&mut r, self.list_calls.get(), " list (");
        push_number(&mut r, self.list_files_seen.get(), " files seen)  ");
        push_number(&mut r, self.storage_read_calls.get(), " raw read (");
        push_number(&mut r, self.storage_read_files.get(), " files, ");
        push_number(&mut r, self.storage_bytes_read.get() / 1024, " KiB)  ");
        push_number(&mut r, self.copy_calls.get(), " copy\n    json    : ");
        push_number(&mut r, self.json_read_calls.get(), " call(s)  ");
        push_number(&mut r, self.json_files_read.get(), " files  ");
        push_number(&mut r, self.json_bytes_read.get() / 1024, " KiB\n    parquet : ");
        push_number(&mut r, self.parquet_read_calls.get(), " call(s)  ");
        push_number(&mut r, self.parquet_files_read.get(), " files  ");
        push_number(&mut r, self.parquet_bytes_read.get() / 1024, " KiB\n    log     : ");
        push_number(&mut r, self.log_segment_loads.get(), " segment load(s) -- ");
        push_number(&mut r, self.commit_files.get(), " commits  ");
        push_number(&mut r, self.checkpoint_files.get(), " checkpoints  ");
        push_number(&mut r, self.compaction_files.get(), " compactions\n");
        r
    }
}

impl Default for CountingReporter {
    fn default() -> (r: Self)
        ensures
            r.counts() == no_counts(),
    {
        CountingReporter::new()
    }
}

/// What each kind of event does to the counters: it adds one to the number of its kind and what it
/// counts to its own totals, and leaves all other counters as they are.
pub proof fn law_what_events_count(c: CountsV, e: MetricEvent)
    ensures
        counted(c, e) == (match e {
            MetricEvent::StorageListCompleted { num_files, .. } => CountsV {
                list_calls: wrapped(c.list_calls, 1),
                list_files_seen: wrapped(c.list_files_seen, num_files),
                ..c
            },
            MetricEvent::StorageReadCompleted { num_files, bytes_read, .. } => CountsV {
                storage_read_calls: wrapped(c.storage_read_calls, 1),
                storage_read_files: wrapped(c.storage_read_files, num_files),
                storage_bytes_read: wrapped(c.storage_bytes_read, bytes_read),
                ..c
            },
            MetricEvent::StorageCopyCompleted { .. } => CountsV {
                copy_calls: wrapped(c.copy_calls, 1),
                ..c
            },
            MetricEvent::JsonReadCompleted { num_files, bytes_read } => CountsV {
                json_read_calls: wrapped(c.json_read_calls, 1),
                json_files_read: wrapped(c.json_files_read, num_files),
                json_bytes_read: wrapped(c.json_bytes_read, bytes_read),
                ..c
            },
            MetricEvent::ParquetReadCompleted { num_files, bytes_read } => CountsV {
                parquet_read_calls: wrapped(c.parquet_read_calls, 1),
                parquet_files_read: wrapped(c.parquet_files_read, num_files),
                parquet_bytes_read: wrapped(c.parquet_bytes_read, bytes_read),
                ..c
            },
            MetricEvent::SnapshotCompleted { .. } => CountsV {
                snapshot_completions: wrapped(c.snapshot_completions, 1),
                ..c
            },
            MetricEvent::LogSegmentLoaded {
                num_commit_files,
                num_checkpoint_files,
                num_compaction_files,
                ..
            } => CountsV {
                log_segment_loads: wrapped(c.log_segment_loads, 1),
                commit_files: wrapped(c.commit_files, num_commit_files),
                checkpoint_files: wrapped(c.checkpoint_files, num_checkpoint_files),
                compaction_files: wrapped(c.compaction_files, num_compaction_files),
                ..c
            },
            MetricEvent::ProtocolMetadataLoaded { .. } => c,
            MetricEvent::SnapshotFailed { .. } => c,
            MetricEvent::ScanMetadataCompleted { .. } => c,
        }),
{
    lemma_wrapped_zero(c.list_calls);
    lemma_wrapped_zero(c.list_files_seen);
    lemma_wrapped_zero(c.storage_read_calls);
    lemma_wrapped_zero(c.storage_read_files);
    lemma_wrapped_zero(c.storage_bytes_read);
    lemma_wrapped_zero(c.copy_calls);
    lemma_wrapped_zero(c.json_read_calls);
    lemma_wrapped_zero(c.json_files_read);
    lemma_wrapped_zero(c.json_bytes_read);
    lemma_wrapped_zero(c.parquet_read_calls);
    lemma_wrapped_zero(c.parquet_files_read);
    lemma_wrapped_zero(c.parquet_bytes_read);
    lemma_wrapped_zero(c.snapshot_completions);
    lemma_wrapped_zero(c.log_segment_loads);
    lemma_wrapped_zero(c.commit_files);
    lemma_wrapped_zero(c.checkpoint_files);
    lemma_wrapped_zero(c.compaction_files);
}

proof fn lemma_wrapped_zero(a: u64)
    ensures
        wrapped(a, 0) == a,
{
    reveal(wrapped);
}

/// Counts are added as numbers are, and begin again at zero past the end of their range.
pub proof fn law_counts_add_up(a: u64, b: u64)
    ensures
        a + b <= u64::MAX ==> wrapped(a, b) == a + b,
        a + b > u64::MAX ==> wrapped(a, b) == a + b - 0x1_0000_0000_0000_0000,
{
    reveal(wrapped);
}

/// Each counter at zero.
pub proof fn law_no_counts()
    ensures
        no_counts().list_calls == 0,
        no_counts().list_files_seen == 0,
        no_counts().storage_read_calls == 0,
        no_counts().storage_read_files == 0,
        no_counts().storage_bytes_read == 0,
        no_counts().copy_calls == 0,
        no_counts().json_read_calls == 0,
        no_counts().json_files_read == 0,
        no_counts().json_bytes_read == 0,
        no_counts().parquet_read_calls == 0,
        no_counts().parquet_files_read == 0,
        no_counts().parquet_bytes_read == 0,
        no_counts().snapshot_completions == 0,
        no_counts().log_segment_loads == 0,
        no_counts().commit_files == 0,
        no_counts().checkpoint_files == 0,
        no_counts().compaction_files == 0,
{
}

/// The summary has a line for each kind of work under its label, with the counters of that kind.
pub proof fn law_lines_of_summary(c: CountsV, label: Seq<char>)
    ensures
        summary_text(c, label) == ("  [io] "@ + label + "\n"@) + ("    storage : "@ + nat_text(
            c.list_calls as nat,
        ) + " list ("@ + nat_text(c.list_files_seen as nat) + " files seen)  "@ + nat_text(
            c.storage_read_calls as nat,
        ) + " raw read ("@ + nat_text(c.storage_read_files as nat) + " files, "@ + nat_text(
            c.storage_bytes_read as nat / 1024,
        ) + " KiB)  "@ + nat_text(c.copy_calls as nat) + " copy\n"@) + ("    json    : "@ + nat_text(
            c.json_read_calls as nat,
        ) + " call(s)  "@ + nat_text(c.json_files_read as nat) + " files  "@ + nat_text(
            c.json_bytes_read as nat / 1024,
        ) + " KiB\n"@) + ("    parquet : "@ + nat_text(c.parquet_read_calls as nat) + " call(s)  "@
            + nat_text(c.parquet_files_read as nat) + " files  "@ + nat_text(
            c.parquet_bytes_read as nat / 1024,
        ) + " KiB\n"@) + ("    log     : "@ + nat_text(c.log_segment_loads as nat)
            + " segment load(s) -- "@ + nat_text(c.commit_files as nat) + " commits  "@ + nat_text(
            c.checkpoint_files as nat,
        ) + " checkpoints  "@ + nat_text(c.compaction_files as nat) + " compactions\n"@),
{
    assert("\n    storage : "@ =~= "\n"@ + "    storage : "@) by {
        reveal_strlit("\n    storage : ");
        reveal_strlit("\n");
        reveal_strlit("    storage : ");
    }
    assert(" copy\n    json    : "@ =~= " copy\n"@ + "    json    : "@) by {
        reveal_strlit(" copy\n    json    : ");
        reveal_strlit(" copy\n");
        reveal_strlit("    json    : ");
    }
    assert(" KiB\n    parquet : "@ =~= " KiB\n"@ + "    parquet : "@) by {
        reveal_strlit(" KiB\n    parquet : ");
        reveal_strlit(" KiB\n");
        reveal_strlit("    parquet : ");
    }
    assert(" KiB\n    log     : "@ =~= " KiB\n"@ + "    log     : "@) by {
        reveal_strlit(" KiB\n    log     : ");
        reveal_strlit(" KiB\n");
        reveal_strlit("    log     : ");
    }
    broadcast use crate::text::lemma_concat_assoc;

    assert(summary_text(c, label) =~= ("  [io] "@ + label + "\n"@) + ("    storage : "@ + nat_text(
        c.list_calls as nat,
    ) + " list ("@ + nat_text(c.list_files_seen as nat) + " files seen)  "@ + nat_text(
        c.storage_read_calls as nat,
    ) + " raw read ("@ + nat_text(c.storage_read_files as nat) + " files, "@ + nat_text(
        c.storage_bytes_read as nat / 1024,
    ) + " KiB)  "@ + nat_text(c.copy_calls as nat) + " copy\n"@) + ("    json    : "@ + nat_text(
        c.json_read_calls as nat,
    ) + " call(s)  "@ + nat_text(c.json_files_read as nat) + " files  "@ + nat_text(
        c.json_bytes_read as nat / 1024,
    ) + " KiB\n"@) + ("    parquet : "@ + nat_text(c.parquet_read_calls as nat) + " call(s)  "@
        + nat_text(c.parquet_files_read as nat) + " files  "@ + nat_text(
        c.parquet_bytes_read as nat / 1024,
    ) + " KiB\n"@) + ("    log     : "@ + nat_text(c.log_segment_loads as nat)
        + " segment load(s) -- "@ + nat_text(c.commit_files as nat) + " commits  "@ + nat_text(
        c.checkpoint_files as nat,
    ) + " checkpoints  "@ + nat_text(c.compaction_files as nat) + " compactions\n"@));
}

} // verus!

//! Metric events: what operations on a table report about themselves.
use vstd::prelude::*;

use crate::text::{owned, push_u128};

#[allow(unused_imports)]
use crate::text::{joined, nat_text};

verus! {

/// A span of time: whole seconds and the nanoseconds beyond them.
#[derive(Clone, Copy, Debug, PartialEq, Eq, Structural)]
pub struct Elapsed {
    secs: u64,
    nanos: u32,
}

/// What `Debug` of `std::time::Duration` writes for a span of time.
pub uninterp spec fn elapsed_text(secs: u64, nanos: u32) -> Seq<char>;

/// `Debug` of `std::time::Duration`, by the name of its result. The span is made with
/// `Duration::new`, which takes these nanoseconds as they are.
#[verifier::external_body]
fn write_elapsed(secs: u64, nanos: u32) -> (r: String)
    requires
        nanos < 1_000_000_000,
    ensures
        r@ == elapsed_text(secs, nanos),
{
    format!("{:?}", std::time::Duration::new(secs, nanos))
}

impl Elapsed {
    #[verifier::type_invariant]
    closed spec fn well_formed(self) -> bool {
        self.nanos < 1_000_000_000
    }

    /// The whole seconds.
    pub closed spec fn seconds(self) -> u64 {
        self.secs
    }

    /// The nanoseconds beyond the whole seconds.
    pub closed spec fn nanoseconds(self) -> u32 {
        self.nanos
    }

    /// The span as text.
    pub open spec fn written(self) -> Seq<char> {
        elapsed_text(self.seconds(), self.nanoseconds())
    }

    /// A span of seconds and nanoseconds. Nanoseconds that make up whole seconds count as such.
    pub fn new(secs: u64, nanos: u32) -> (r: Self)
        requires
            secs + nanos / 1_000_000_000 <= u64::MAX,
        ensures
            r.seconds() == secs + nanos / 1_000_000_000,
            r.nanoseconds() == nanos % 1_000_000_000,
    {
        Elapsed { secs: secs + (nanos / 1_000_000_000) as u64, nanos: nanos % 1_000_000_000 }
    }

    /// A span of whole nanoseconds.
    pub fn from_nanos(n: u64) -> (r: Self)
        ensures
            r.seconds() == n / 1_000_000_000,
            r.nanoseconds() == n % 1_000_000_000,
    {
        Elapsed { secs: n / 1_000_000_000, nanos: (n % 1_000_000_000) as u32 }
    }

    /// A span of whole milliseconds.
    pub fn from_millis(n: u64) -> (r: Self)
        ensures
            r.seconds() == n / 1000,
            r.nanoseconds() == (n % 1000) * 1_000_000,
    {
        Elapsed { secs: n / 1000, nanos: ((n % 1000) * 1_000_000) as u32 }
    }

    /// The span as text.
    pub fn text(&self) -> (r: String)
        ensures
            r@ == self.written(),
    {
        proof {
            use_type_invariant(*self);
        }
        write_elapsed(self.secs, self.nanos)
    }
}

/// The hexadecimal digit that stands for `d`.
pub open spec fn hex_char(d: nat) -> char {
    if d < 10 {
        (48 + d) as char
    } else {
        (87 + d) as char
    }
}

/// The last hexadecimal digits of a number, in small letters.
pub open spec fn hex_text(n: nat, digits: nat) -> Seq<char>
    decreases digits,
{
    if digits == 0 {
        seq![]
    } else {
        hex_text(n / 16, (digits - 1) as nat).push(hex_char(n % 16))
    }
}

/// A UUID as text: its hexadecimal digits in groups of 8, 4, 4, 4 and 12.
pub open spec fn uuid_text(n: u128) -> Seq<char> {
    hex_text(n as nat / 0x1_0000_0000_0000_0000_0000_0000, 8) + "-"@ + hex_text(
        n as nat / 0x1_0000_0000_0000_0000_0000,
        4,
    ) + "-"@ + hex_text(n as nat / 0x1_0000_0000_0000_0000, 4) + "-"@ + hex_text(
        n as nat / 0x1_0000_0000_0000,
        4,
    ) + "-"@ + hex_text(n as nat, 12)
}

/// Whether a number has the version and variant bits of a random UUID: a 4 as its 13th hexadecimal
/// digit, and 1 and 0 as the first two bits of the 17th.
pub open spec fn is_random_uuid(n: u128) -> bool {
    &&& (n as nat / 0x1000_0000_0000_0000_0000) % 16 == 4
    &&& (n as nat / 0x4000_0000_0000_0000) % 4 == 2
}

/// `Uuid::new_v4` of `uuid`: a random UUID, as a number. Which one it is rests on chance.
#[verifier::external_body]
pub(crate) fn random_uuid() -> (r: u128)
    ensures
        is_random_uuid(r),
{
    uuid::Uuid::new_v4().as_u128()
}

/// `Display` of `uuid::Uuid`: the hyphenated text in small letters.
#[verifier::external_body]
pub(crate) fn write_uuid(n: u128) -> (r: String)
    ensures
        r@ == uuid_text(n),
{
    uuid::Uuid::from_u128(n).to_string()
}

/// Unique identifier for a metrics operation.
///
/// Each operation (Snapshot, Transaction, Scan) gets a unique id that is used to correlate all
/// events from that operation.
#[derive(Clone, Copy, Debug, PartialEq, Eq, Structural, Hash)]
pub struct MetricId {
    id: u128,
}

impl MetricId {
    /// The id as a number.
    pub closed spec fn number(self) -> u128 {
        self.id
    }

    /// Generate a new unique id: a random UUID.
    pub fn new() -> (r: Self)
        ensures
            is_random_uuid(r.number()),
    {
        MetricId { id: random_uuid() }
    }

    /// The id of a number.
    pub fn from_number(id: u128) -> (r: Self)
        ensures
            r.number() == id,
    {
        MetricId { id }
    }

    /// The id as text.
    pub fn text(&self) -> (r: String)
        ensures
            r@ == uuid_text(self.number()),
    {
        write_uuid(self.id)
    }
}

impl Default for MetricId {
    fn default() -> (r: Self)
        ensures
            is_random_uuid(r.number()),
    {
        MetricId::new()
    }
}

/// Identifies which scan execution path produced a scan metadata metrics event.
#[derive(Clone, Copy, Debug, PartialEq, Eq, Structural)]
pub enum ScanType {
    /// Sequential phase of a parallel scan.
    SequentialPhase,
    /// Parallel phase of a parallel scan.
    ParallelPhase,
    /// A scan in one phase.
    Full,
}

/// The text of a scan type.
pub open spec fn scan_type_text(t: ScanType) -> Seq<char> {
    match t {
        ScanType::SequentialPhase => "sequential"@,
        ScanType::ParallelPhase => "parallel"@,
        ScanType::Full => "full"@,
    }
}

impl ScanType {
    /// The text of the scan type.
    pub fn text(&self) -> (r: &'static str)
        ensures
            r@ == scan_type_text(*self),
    {
        match self {
            ScanType::SequentialPhase => "sequential",
            ScanType::ParallelPhase => "parallel",
            ScanType::Full => "full",
        }
    }
}

/// Metric events emitted during operations.
///
/// Some events include an `operation_id` that uniquely identifies the operation instance. This
/// allows correlating multiple events from the same operation.
#[derive(Clone, Copy, Debug)]
pub enum MetricEvent {
    /// Log segment loading completed (listing and organizing log files).
    LogSegmentLoaded {
        operation_id: MetricId,
        duration: Elapsed,
        num_commit_files: u64,
        num_checkpoint_files: u64,
        num_compaction_files: u64,
    },
    /// Protocol and metadata loading completed.
    ProtocolMetadataLoaded { operation_id: MetricId, duration: Elapsed },
    /// Snapshot creation completed successfully.
    SnapshotCompleted { operation_id: MetricId, version: u64, total_duration: Elapsed },
    /// Snapshot creation failed.
    SnapshotFailed { operation_id: MetricId, duration: Elapsed },
    /// Storage list operation completed.
    StorageListCompleted { duration: Elapsed, num_files: u64 },
    /// Storage read operation completed.
    StorageReadCompleted { duration: Elapsed, num_files: u64, bytes_read: u64 },
    /// Storage copy operation completed.
    StorageCopyCompleted { duration: Elapsed },
    /// JSON file read operation completed. `bytes_read` is the sum of the sizes on disk.
    JsonReadCompleted { num_files: u64, bytes_read: u64 },
    /// Parquet file read completed. `bytes_read` is the sum of the sizes on disk.
    ParquetReadCompleted { num_files: u64, bytes_read: u64 },
    /// Scan metadata iteration completed: file counts and times of the log replay.
    ScanMetadataCompleted {
        /// Unique id to correlate this scan with other events.
        operation_id: MetricId,
        /// Indicates which scan execution path produced this event.
        scan_type: ScanType,
        /// Total duration from scan start to iterator exhaustion.
        total_duration: Elapsed,
        /// Add files that entered the deduplication visitor.
        num_add_files_seen: u64,
        /// Add files that survived log replay (files to read).
        num_active_add_files: u64,
        /// Remove files seen (from delta/commit files only).
        num_remove_files_seen: u64,
        /// Non-file actions seen (protocol, metadata, etc.).
        num_non_file_actions: u64,
        /// Files filtered by predicates (data skipping + partition pruning).
        num_predicate_filtered: u64,
        /// Peak size of the deduplication hash set.
        peak_hash_set_size: usize,
        /// Time spent in the deduplication visitor (milliseconds).
        dedup_visitor_time_ms: u64,
        /// Time spent evaluating predicates (milliseconds).
        predicate_eval_time_ms: u64,
    },
}

/// A label and the number behind it.
pub open spec fn count_text(label: Seq<char>, n: nat) -> Seq<char> {
    label + nat_text(n)
}

/// The text of an event.
pub open spec fn event_text(e: MetricEvent) -> Seq<char> {
    match e {
        MetricEvent::LogSegmentLoaded {
            operation_id,
            duration,
            num_commit_files,
            num_checkpoint_files,
            num_compaction_files,
        } => "LogSegmentLoaded(id="@ + uuid_text(operation_id.number()) + ", duration="@
            + duration.written() + count_text(", commits="@, num_commit_files as nat) + count_text(
            ", checkpoints="@,
            num_checkpoint_files as nat,
        ) + count_text(", compactions="@, num_compaction_files as nat) + ")"@,
        MetricEvent::ProtocolMetadataLoaded { operation_id, duration } =>
        "ProtocolMetadataLoaded(id="@ + uuid_text(operation_id.number()) + ", duration="@
            + duration.written() + ")"@,
        MetricEvent::SnapshotCompleted { operation_id, version, total_duration } =>
        "SnapshotCompleted(id="@ + uuid_text(operation_id.number()) + count_text(
            ", version="@,
            version as nat,
        ) + ", duration="@ + total_duration.written() + ")"@,
        MetricEvent::SnapshotFailed { operation_id, duration } => "SnapshotFailed(id="@ + uuid_text(
            operation_id.number(),
        ) + ", duration="@ + duration.written() + ")"@,
        MetricEvent::StorageListCompleted { duration, num_files } =>
        "StorageListCompleted(duration="@ + duration.written() + count_text(
            ", files="@,
            num_files as nat,
        ) + ")"@,
        MetricEvent::StorageReadCompleted { duration, num_files, bytes_read } =>
        "StorageReadCompleted(duration="@ + duration.written() + count_text(
            ", files="@,
            num_files as nat,
        ) + count_text(", bytes="@, bytes_read as nat) + ")"@,
        MetricEvent::StorageCopyCompleted { duration } => "StorageCopyCompleted(duration="@
            + duration.written() + ")"@,
        MetricEvent::JsonReadCompleted { num_files, bytes_read } => count_text(
            "JsonReadCompleted(files="@,
            num_files as nat,
        ) + count_text(", bytes="@, bytes_read as nat) + ")"@,
        MetricEvent::ParquetReadCompleted { num_files, bytes_read } => count_text(
            "ParquetReadCompleted(files="@,
            num_files as nat,
        ) + count_text(", bytes="@, bytes_read as nat) + ")"@,
        MetricEvent::ScanMetadataCompleted {
            operation_id,
            scan_type,
            total_duration,
            num_add_files_seen,
            num_active_add_files,
            num_remove_files_seen,
            num_non_file_actions,
            num_predicate_filtered,
            peak_hash_set_size,
            dedup_visitor_time_ms,
            predicate_eval_time_ms,
        } => "ScanMetadataCompleted(id="@ + uuid_text(operation_id.number()) + ", scan_type="@
            + scan_type_text(scan_type) + ", duration="@ + total_duration.written() + count_text(
            ", add_files_seen="@,
            num_add_files_seen as nat,
        ) + count_text(", active_add_files="@, num_active_add_files as nat) + count_text(
            ", remove_files_seen="@,
            num_remove_files_seen as nat,
        ) + count_text(", non_file_actions="@, num_non_file_actions as nat) + count_text(
            ", predicate_filtered="@,
            num_predicate_filtered as nat,
        ) + count_text(", peak_hash_set_size="@, peak_hash_set_size as nat) + count_text(
            ", dedup_visitor_time_ms="@,
            dedup_visitor_time_ms as nat,
        ) + count_text(", predicate_eval_time_ms="@, predicate_eval_time_ms as nat) + ")"@,
    }
}

fn push_count(text: &mut String, label: &str, n: u64)
    ensures
        final(text)@ == old(text)@ + count_text(label@, n as nat),
{
    text.push_str(label);
    push_u128(text, n as u128);
    assert(text@ =~= old(text)@ + count_text(label@, n as nat));
}

impl MetricEvent {
    /// The text of the event.
    pub fn text(&self) -> (r: String)
        ensures
            r@ == event_text(*self),
    {
        match self {
            MetricEvent::LogSegmentLoaded {
                operation_id,
                duration,
                num_commit_files,
                num_checkpoint_files,
                num_compaction_files,
            } => {
                let mut r = owned("LogSegmentLoaded(id=");
                r.push_str(operation_id.text().as_str());
                r.push_str(", duration=");
                r.push_str(duration.text().as_str());
                push_count(&mut r, ", commits=", *num_commit_files);
                push_count(&mut r, ", checkpoints=", *num_checkpoint_files);
                push_count(&mut r, ", compactions=", *num_compaction_files);
                r.push_str(")");
                r
            },
            MetricEvent::ProtocolMetadataLoaded { operation_id, duration } => {
                let mut r = owned("ProtocolMetadataLoaded(id=");
                r.push_str(operation_id.text().as_str());
                r.push_str(", duration=");
                r.push_str(duration.text().as_str());
                r.push_str(")");
                r
            },
            MetricEvent::SnapshotCompleted { operation_id, version, total_duration } => {
                let mut r = owned("SnapshotCompleted(id=");
                r.push_str(operation_id.text().as_str());
                push_count(&mut r, ", version=", *version);
                r.push_str(", duration=");
                r.push_str(total_duration.text().as_str());
                r.push_str(")");
                r
            },
            MetricEvent::SnapshotFailed { operation_id, duration } => {
                let mut r = owned("SnapshotFailed(id=");
                r.push_str(operation_id.text().as_str());
                r.push_str(", duration=");
                r.push_str(duration.text().as_str());
                r.push_str(")");
                r
            },
            MetricEvent::StorageListCompleted { duration, num_files } => {
                let mut r = owned("StorageListCompleted(duration=");
                r.push_str(duration.text().as_str());
                push_count(&mut r, ", files=", *num_files);
                r.push_str(")");
                r
            },
            MetricEvent::StorageReadCompleted { duration, num_files, bytes_read } => {
                let mut r = owned("StorageReadCompleted(duration=");
                r.push_str(duration.text().as_str());
                push_count(&mut r, ", files=", *num_files);
                push_count(&mut r, ", bytes=", *bytes_read);
                r.push_str(")");
                r
            },
            MetricEvent::StorageCopyCompleted { duration } => {
                let mut r = owned("StorageCopyCompleted(duration=");
                r.push_str(duration.text().as_str());
                r.push_str(")");
                r
            },
            MetricEvent::JsonReadCompleted { num_files, bytes_read } => {
                let mut r = String::new();
                push_count(&mut r, "JsonReadCompleted(files=", *num_files);
                push_count(&mut r, ", bytes=", *bytes_read);
                r.push_str(")");
                assert(r@ =~= event_text(*self));
                r
            },
            MetricEvent::ParquetReadCompleted { num_files, bytes_read } => {
                let mut r = String::new();
                push_count(&mut r, "ParquetReadCompleted(files=", *num_files);
                push_count(&mut r, ", bytes=", *bytes_read);
                r.push_str(")");
                assert(r@ =~= event_text(*self));
                r
            },
            MetricEvent::ScanMetadataCompleted {
                operation_id,
                scan_type,
                total_duration,
                num_add_files_seen,
                num_active_add_files,
                num_remove_files_seen,
                num_non_file_actions,
                num_predicate_filtered,
                peak_hash_set_size,
                dedup_visitor_time_ms,
                predicate_eval_time_ms,
            } => {
                let mut r = owned("ScanMetadataCompleted(id=");
                r.push_str(operation_id.text().as_str());
                r.push_str(", scan_type=");
                r.push_str(scan_type.text());
                r.push_str(", duration=");
                r.push_str(total_duration.text().as_str());
                push_count(&mut r, ", add_files_seen=", *num_add_files_seen);
                push_count(&mut r, ", active_add_files=", *num_active_add_files);
                push_count(&mut r, ", remove_files_seen=", *num_remove_files_seen);
                push_count(&mut r, ", non_file_actions=", *num_non_file_actions);
                push_count(&mut r, ", predicate_filtered=", *num_predicate_filtered);
                push_count(&mut r, ", peak_hash_set_size=", *peak_hash_set_size as u64);
                push_count(&mut r, ", dedup_visitor_time_ms=", *dedup_visitor_time_ms);
                push_count(&mut r, ", predicate_eval_time_ms=", *predicate_eval_time_ms);
                r.push_str(")");
                r
            },
        }
    }
}

/// A list of labels, each with an equals sign and a value behind it, as the text of an event has it.
pub open spec fn event_with(name: Seq<char>, fields: Seq<(Seq<char>, Seq<char>)>) -> Seq<char> {
    name + "("@ + joined(
        Seq::new(fields.len(), |i: int| fields[i].0 + "="@ + fields[i].1),
        ", "@,
    ) + ")"@
}

proof fn lemma_event_with(name: Seq<char>, label: Seq<char>, value: Seq<char>)
    ensures
        event_with(name, seq![(label, value)]) == name + "("@ + label + "="@ + value + ")"@,
{
    broadcast use crate::text::lemma_concat_assoc;

    let parts = Seq::new(1, |i: int| seq![(label, value)][i].0 + "="@ + seq![(label, value)][i].1);
    assert(parts[0] == label + "="@ + value);
    assert(joined(parts, ", "@) == label + "="@ + value);
}

proof fn lemma_piece(before: Seq<char>, joint: Seq<char>, label: Seq<char>, value: Seq<char>)
    requires
        joint == ", "@ + label + "="@,
    ensures
        before + joint + value == before + ", "@ + label + "="@ + value,
        before + (joint + value) == before + ", "@ + label + "="@ + value,
{
    assert(before + joint + value =~= before + ", "@ + label + "="@ + value);
    assert(before + (joint + value) =~= before + ", "@ + label + "="@ + value);
}

proof fn lemma_event_with_more(
    name: Seq<char>,
    fields: Seq<(Seq<char>, Seq<char>)>,
    head: Seq<char>,
    label: Seq<char>,
    value: Seq<char>,
)
    requires
        fields.len() > 0,
        event_with(name, fields) == head + ")"@,
    ensures
        event_with(name, fields.push((label, value))) == head + ", "@ + label + "="@ + value + ")"@,
{
    let parts = Seq::new(fields.len(), |i: int| fields[i].0 + "="@ + fields[i].1);
    let more = fields.push((label, value));
    let all = Seq::new(more.len(), |i: int| more[i].0 + "="@ + more[i].1);
    assert(all.drop_last() =~= parts);
    assert(all.last() == label + "="@ + value);
    let body = joined(parts, ", "@);
    let start = name + "("@ + body;
    reveal_strlit(")");
    assert(start =~= (start + ")"@).drop_last());
    assert(head =~= (head + ")"@).drop_last());
    assert(event_with(name, fields) == start + ")"@);
    assert(start == head);
    assert(event_with(name, more) =~= start + ", "@ + label + "="@ + value + ")"@);
}

proof fn lemma_text_of_log_segment_loaded(
    operation_id: MetricId,
    duration: Elapsed,
    num_commit_files: u64,
    num_checkpoint_files: u64,
    num_compaction_files: u64,
)
    ensures
        event_text(MetricEvent::LogSegmentLoaded {
            operation_id,
            duration,
            num_commit_files,
            num_checkpoint_files,
            num_compaction_files,
        }) == event_with(
            "LogSegmentLoaded"@,
            seq![
                ("id"@, uuid_text(operation_id.number())),
                ("duration"@, duration.written()),
                ("commits"@, nat_text(num_commit_files as nat)),
                ("checkpoints"@, nat_text(num_checkpoint_files as nat)),
                ("compactions"@, nat_text(num_compaction_files as nat)),
            ],
        ),
{
    assert("LogSegmentLoaded(id="@ =~= "LogSegmentLoaded"@ + "("@ + "id"@ + "="@) by {
        reveal_strlit("LogSegmentLoaded(id=");
        reveal_strlit("LogSegmentLoaded");
        reveal_strlit("(");
        reveal_strlit("id");
        reveal_strlit("=");
    }
    assert(", duration="@ =~= ", "@ + "duration"@ + "="@) by {
        reveal_strlit(", duration=");
        reveal_strlit(", ");
        reveal_strlit("duration");
        reveal_strlit("=");
    }
    assert(", commits="@ =~= ", "@ + "commits"@ + "="@) by {
        reveal_strlit(", commits=");
        reveal_strlit(", ");
        reveal_strlit("commits");
        reveal_strlit("=");
    }
    assert(", checkpoints="@ =~= ", "@ + "checkpoints"@ + "="@) by {
        reveal_strlit(", checkpoints=");
        reveal_strlit(", ");
        reveal_strlit("checkpoints");
        reveal_strlit("=");
    }
    assert(", compactions="@ =~= ", "@ + "compactions"@ + "="@) by {
        reveal_strlit(", compactions=");
        reveal_strlit(", ");
        reveal_strlit("compactions");
        reveal_strlit("=");
    }
    let f0 = seq![("id"@, uuid_text(operation_id.number()))];
    lemma_event_with("LogSegmentLoaded"@, "id"@, uuid_text(operation_id.number()));
    let h0 = "LogSegmentLoaded"@ + "("@ + "id"@ + "="@ + uuid_text(operation_id.number());
    lemma_event_with_more("LogSegmentLoaded"@, f0, h0, "duration"@, duration.written());
    let f1 = f0.push(("duration"@, duration.written()));
    lemma_piece(h0, ", duration="@, "duration"@, duration.written());
    let h1 = h0 + ", "@ + "duration"@ + "="@ + duration.written();
    lemma_event_with_more(
        "LogSegmentLoaded"@,
        f1,
        h1,
        "commits"@,
        nat_text(num_commit_files as nat),
    );
    let f2 = f1.push(("commits"@, nat_text(num_commit_files as nat)));
    lemma_piece(h1, ", commits="@, "commits"@, nat_text(num_commit_files as nat));
    let h2 = h1 + ", "@ + "commits"@ + "="@ + nat_text(num_commit_files as nat);
    lemma_event_with_more(
        "LogSegmentLoaded"@,
        f2,
        h2,
        "checkpoints"@,
        nat_text(num_checkpoint_files as nat),
    );
    let f3 = f2.push(("checkpoints"@, nat_text(num_checkpoint_files as nat)));
    lemma_piece(h2, ", checkpoints="@, "checkpoints"@, nat_text(num_checkpoint_files as nat));
    let h3 = h2 + ", "@ + "checkpoints"@ + "="@ + nat_text(num_checkpoint_files as nat);
    lemma_event_with_more(
        "LogSegmentLoaded"@,
        f3,
        h3,
        "compactions"@,
        nat_text(num_compaction_files as nat),
    );
    let f4 = f3.push(("compactions"@, nat_text(num_compaction_files as nat)));
    lemma_piece(h3, ", compactions="@, "compactions"@, nat_text(num_compaction_files as nat));
    let h4 = h3 + ", "@ + "compactions"@ + "="@ + nat_text(num_compaction_files as nat);
    let fields = seq![
                ("id"@, uuid_text(operation_id.number())),
                ("duration"@, duration.written()),
                ("commits"@, nat_text(num_commit_files as nat)),
                ("checkpoints"@, nat_text(num_checkpoint_files as nat)),
                ("compactions"@, nat_text(num_compaction_files as nat)),
    ];
    assert(f4 =~= fields);
    assert(h4 + ")"@ == event_text(
        MetricEvent::LogSegmentLoaded {
            operation_id,
            duration,
            num_commit_files,
            num_checkpoint_files,
            num_compaction_files,
        },
    ));
}

proof fn lemma_text_of_protocol_metadata_loaded(operation_id: MetricId, duration: Elapsed)
    ensures
        event_text(MetricEvent::ProtocolMetadataLoaded { operation_id, duration }) == event_with(
            "ProtocolMetadataLoaded"@,
            seq![
                ("id"@, uuid_text(operation_id.number())),
                ("duration"@, duration.written()),
            ],
        ),
{
    assert("ProtocolMetadataLoaded(id="@ =~= "ProtocolMetadataLoaded"@ + "("@ + "id"@ + "="@) by {
        reveal_strlit("ProtocolMetadataLoaded(id=");
        reveal_strlit("ProtocolMetadataLoaded");
        reveal_strlit("(");
        reveal_strlit("id");
        reveal_strlit("=");
    }
    assert(", duration="@ =~= ", "@ + "duration"@ + "="@) by {
        reveal_strlit(", duration=");
        reveal_strlit(", ");
        reveal_strlit("duration");
        reveal_strlit("=");
    }
    let f0 = seq![("id"@, uuid_text(operation_id.number()))];
    lemma_event_with("ProtocolMetadataLoaded"@, "id"@, uuid_text(operation_id.number()));
    let h0 = "ProtocolMetadataLoaded"@ + "("@ + "id"@ + "="@ + uuid_text(operation_id.number());
    lemma_event_with_more("ProtocolMetadataLoaded"@, f0, h0, "duration"@, duration.written());
    let f1 = f0.push(("duration"@, duration.written()));
    lemma_piece(h0, ", duration="@, "duration"@, duration.written());
    let h1 = h0 + ", "@ + "duration"@ + "="@ + duration.written();
    let fields = seq![
                ("id"@, uuid_text(operation_id.number())),
                ("duration"@, duration.written()),
    ];
    assert(f1 =~= fields);
    assert(h1 + ")"@ == event_text(
        MetricEvent::ProtocolMetadataLoaded { operation_id, duration },
    ));
}

proof fn lemma_text_of_snapshot_completed(
    operation_id: MetricId,
    version: u64,
    total_duration: Elapsed,
)
    ensures
        event_text(MetricEvent::SnapshotCompleted { operation_id, version, total_duration }) == event_with(
            "SnapshotCompleted"@,
            seq![
                ("id"@, uuid_text(operation_id.number())),
                ("version"@, nat_text(version as nat)),
                ("duration"@, total_duration.written()),
            ],
        ),
{
    assert("SnapshotCompleted(id="@ =~= "SnapshotCompleted"@ + "("@ + "id"@ + "="@) by {
        reveal_strlit("SnapshotCompleted(id=");
        reveal_strlit("SnapshotCompleted");
        reveal_strlit("(");
        reveal_strlit("id");
        reveal_strlit("=");
    }
    assert(", version="@ =~= ", "@ + "version"@ + "="@) by {
        reveal_strlit(", version=");
        reveal_strlit(", ");
        reveal_strlit("version");
        reveal_strlit("=");
    }
    assert(", duration="@ =~= ", "@ + "duration"@ + "="@) by {
        reveal_strlit(", duration=");
        reveal_strlit(", ");
        reveal_strlit("duration");
        reveal_strlit("=");
    }
    let f0 = seq![("id"@, uuid_text(operation_id.number()))];
    lemma_event_with("SnapshotCompleted"@, "id"@, uuid_text(operation_id.number()));
    let h0 = "SnapshotCompleted"@ + "("@ + "id"@ + "="@ + uuid_text(operation_id.number());
    lemma_event_with_more("SnapshotCompleted"@, f0, h0, "version"@, nat_text(version as nat));
    let f1 = f0.push(("version"@, nat_text(version as nat)));
    lemma_piece(h0, ", version="@, "version"@, nat_text(version as nat));
    let h1 = h0 + ", "@ + "version"@ + "="@ + nat_text(version as nat);
    lemma_event_with_more("SnapshotCompleted"@, f1, h1, "duration"@, total_duration.written());
    let f2 = f1.push(("duration"@, total_duration.written()));
    lemma_piece(h1, ", duration="@, "duration"@, total_duration.written());
    let h2 = h1 + ", "@ + "duration"@ + "="@ + total_duration.written();
    let fields = seq![
                ("id"@, uuid_text(operation_id.number())),
                ("version"@, nat_text(version as nat)),
                ("duration"@, total_duration.written()),
    ];
    assert(f2 =~= fields);
    assert(h2 + ")"@ == event_text(
        MetricEvent::SnapshotCompleted { operation_id, version, total_duration },
    ));
}

proof fn lemma_text_of_snapshot_failed(operation_id: MetricId, duration: Elapsed)
    ensures
        event_text(MetricEvent::SnapshotFailed { operation_id, duration }) == event_with(
            "SnapshotFailed"@,
            seq![
                ("id"@, uuid_text(operation_id.number())),
                ("duration"@, duration.written()),
            ],
        ),
{
    assert("SnapshotFailed(id="@ =~= "SnapshotFailed"@ + "("@ + "id"@ + "="@) by {
        reveal_strlit("SnapshotFailed(id=");
        reveal_strlit("SnapshotFailed");
        reveal_strlit("(");
        reveal_strlit("id");
        reveal_strlit("=");
    }
    assert(", duration="@ =~= ", "@ + "duration"@ + "="@) by {
        reveal_strlit(", duration=");
        reveal_strlit(", ");
        reveal_strlit("duration");
        reveal_strlit("=");
    }
    let f0 = seq![("id"@, uuid_text(operation_id.number()))];
    lemma_event_with("SnapshotFailed"@, "id"@, uuid_text(operation_id.number()));
    let h0 = "SnapshotFailed"@ + "("@ + "id"@ + "="@ + uuid_text(operation_id.number());
    lemma_event_with_more("SnapshotFailed"@, f0, h0, "duration"@, duration.written());
    let f1 = f0.push(("duration"@, duration.written()));
    lemma_piece(h0, ", duration="@, "duration"@, duration.written());
    let h1 = h0 + ", "@ + "duration"@ + "="@ + duration.written();
    let fields = seq![
                ("id"@, uuid_text(operation_id.number())),
                ("duration"@, duration.written()),
    ];
    assert(f1 =~= fields);
    assert(h1 + ")"@ == event_text(
        MetricEvent::SnapshotFailed { operation_id, duration },
    ));
}

proof fn lemma_text_of_storage_list_completed(duration: Elapsed, num_files: u64)
    ensures
        event_text(MetricEvent::StorageListCompleted { duration, num_files }) == event_with(
            "StorageListCompleted"@,
            seq![
                ("duration"@, duration.written()),
                ("files"@, nat_text(num_files as nat)),
            ],
        ),
{
    assert("StorageListCompleted(duration="@ =~= "StorageListCompleted"@ + "("@ + "duration"@ + "="@) by {
        reveal_strlit("StorageListCompleted(duration=");
        reveal_strlit("StorageListCompleted");
        reveal_strlit("(");
        reveal_strlit("duration");
        reveal_strlit("=");
    }
    assert(", files="@ =~= ", "@ + "files"@ + "="@) by {
        reveal_strlit(", files=");
        reveal_strlit(", ");
        reveal_strlit("files");
        reveal_strlit("=");
    }
    let f0 = seq![("duration"@, duration.written())];
    lemma_event_with("StorageListCompleted"@, "duration"@, duration.written());
    let h0 = "StorageListCompleted"@ + "("@ + "duration"@ + "="@ + duration.written();
    lemma_event_with_more("StorageListCompleted"@, f0, h0, "files"@, nat_text(num_files as nat));
    let f1 = f0.push(("files"@, nat_text(num_files as nat)));
    lemma_piece(h0, ", files="@, "files"@, nat_text(num_files as nat));
    let h1 = h0 + ", "@ + "files"@ + "="@ + nat_text(num_files as nat);
    let fields = seq![
                ("duration"@, duration.written()),
                ("files"@, nat_text(num_files as nat)),
    ];
    assert(f1 =~= fields);
    assert(h1 + ")"@ == event_text(
        MetricEvent::StorageListCompleted { duration, num_files },
    ));
}

proof fn lemma_text_of_storage_read_completed(duration: Elapsed, num_files: u64, bytes_read: u64)
    ensures
        event_text(MetricEvent::StorageReadCompleted { duration, num_files, bytes_read }) == event_with(
            "StorageReadCompleted"@,
            seq![
                ("duration"@, duration.written()),
                ("files"@, nat_text(num_files as nat)),
                ("bytes"@, nat_text(bytes_read as nat)),
            ],
        ),
{
    assert("StorageReadCompleted(duration="@ =~= "StorageReadCompleted"@ + "("@ + "duration"@ + "="@) by {
        reveal_strlit("StorageReadCompleted(duration=");
        reveal_strlit("StorageReadCompleted");
        reveal_strlit("(");
        reveal_strlit("duration");
        reveal_strlit("=");
    }
    assert(", files="@ =~= ", "@ + "files"@ + "="@) by {
        reveal_strlit(", files=");
        reveal_strlit(", ");
        reveal_strlit("files");
        reveal_strlit("=");
    }
    assert(", bytes="@ =~= ", "@ + "bytes"@ + "="@) by {
        reveal_strlit(", bytes=");
        reveal_strlit(", ");
        reveal_strlit("bytes");
        reveal_strlit("=");
    }
    let f0 = seq![("duration"@, duration.written())];
    lemma_event_with("StorageReadCompleted"@, "duration"@, duration.written());
    let h0 = "StorageReadCompleted"@ + "("@ + "duration"@ + "="@ + duration.written();
    lemma_event_with_more("StorageReadCompleted"@, f0, h0, "files"@, nat_text(num_files as nat));
    let f1 = f0.push(("files"@, nat_text(num_files as nat)));
    lemma_piece(h0, ", files="@, "files"@, nat_text(num_files as nat));
    let h1 = h0 + ", "@ + "files"@ + "="@ + nat_text(num_files as nat);
    lemma_event_with_more("StorageReadCompleted"@, f1, h1, "bytes"@, nat_text(bytes_read as nat));
    let f2 = f1.push(("bytes"@, nat_text(bytes_read as nat)));
    lemma_piece(h1, ", bytes="@, "bytes"@, nat_text(bytes_read as nat));
    let h2 = h1 + ", "@ + "bytes"@ + "="@ + nat_text(bytes_read as nat);
    let fields = seq![
                ("duration"@, duration.written()),
                ("files"@, nat_text(num_files as nat)),
                ("bytes"@, nat_text(bytes_read as nat)),
    ];
    assert(f2 =~= fields);
    assert(h2 + ")"@ == event_text(
        MetricEvent::StorageReadCompleted { duration, num_files, bytes_read },
    ));
}

proof fn lemma_text_of_storage_copy_completed(duration: Elapsed)
    ensures
        event_text(MetricEvent::StorageCopyCompleted { duration }) == event_with(
            "StorageCopyCompleted"@,
            seq![
                ("duration"@, duration.written()),
            ],
        ),
{
    assert("StorageCopyCompleted(duration="@ =~= "StorageCopyCompleted"@ + "("@ + "duration"@ + "="@) by {
        reveal_strlit("StorageCopyCompleted(duration=");
        reveal_strlit("StorageCopyCompleted");
        reveal_strlit("(");
        reveal_strlit("duration");
        reveal_strlit("=");
    }
    let f0 = seq![("duration"@, duration.written())];
    lemma_event_with("StorageCopyCompleted"@, "duration"@, duration.written());
    let h0 = "StorageCopyCompleted"@ + "("@ + "duration"@ + "="@ + duration.written();
    let fields = seq![
                ("duration"@, duration.written()),
    ];
    assert(f0 =~= fields);
    assert(h0 + ")"@ == event_text(
        MetricEvent::StorageCopyCompleted { duration },
    ));
}

proof fn lemma_text_of_json_read_completed(num_files: u64, bytes_read: u64)
    ensures
        event_text(MetricEvent::JsonReadCompleted { num_files, bytes_read }) == event_with(
            "JsonReadCompleted"@,
            seq![
                ("files"@, nat_text(num_files as nat)),
                ("bytes"@, nat_text(bytes_read as nat)),
            ],
        ),
{
    assert("JsonReadCompleted(files="@ =~= "JsonReadCompleted"@ + "("@ + "files"@ + "="@) by {
        reveal_strlit("JsonReadCompleted(files=");
        reveal_strlit("JsonReadCompleted");
        reveal_strlit("(");
        reveal_strlit("files");
        reveal_strlit("=");
    }
    assert(", bytes="@ =~= ", "@ + "bytes"@ + "="@) by {
        reveal_strlit(", bytes=");
        reveal_strlit(", ");
        reveal_strlit("bytes");
        reveal_strlit("=");
    }
    let f0 = seq![("files"@, nat_text(num_files as nat))];
    lemma_event_with("JsonReadCompleted"@, "files"@, nat_text(num_files as nat));
    let h0 = "JsonReadCompleted"@ + "("@ + "files"@ + "="@ + nat_text(num_files as nat);
    lemma_event_with_more("JsonReadCompleted"@, f0, h0, "bytes"@, nat_text(bytes_read as nat));
    let f1 = f0.push(("bytes"@, nat_text(bytes_read as nat)));
    lemma_piece(h0, ", bytes="@, "bytes"@, nat_text(bytes_read as nat));
    let h1 = h0 + ", "@ + "bytes"@ + "="@ + nat_text(bytes_read as nat);
    let fields = seq![
                ("files"@, nat_text(num_files as nat)),
                ("bytes"@, nat_text(bytes_read as nat)),
    ];
    assert(f1 =~= fields);
    assert(h1 + ")"@ == event_text(
        MetricEvent::JsonReadCompleted { num_files, bytes_read },
    ));
}

proof fn lemma_text_of_parquet_read_completed(num_files: u64, bytes_read: u64)
    ensures
        event_text(MetricEvent::ParquetReadCompleted { num_files, bytes_read }) == event_with(
            "ParquetReadCompleted"@,
            seq![
                ("files"@, nat_text(num_files as nat)),
                ("bytes"@, nat_text(bytes_read as nat)),
            ],
        ),
{
    assert("ParquetReadCompleted(files="@ =~= "ParquetReadCompleted"@ + "("@ + "files"@ + "="@) by {
        reveal_strlit("ParquetReadCompleted(files=");
        reveal_strlit("ParquetReadCompleted");
        reveal_strlit("(");
        reveal_strlit("files");
        reveal_strlit("=");
    }
    assert(", bytes="@ =~= ", "@ + "bytes"@ + "="@) by {
        reveal_strlit(", bytes=");
        reveal_strlit(", ");
        reveal_strlit("bytes");
        reveal_strlit("=");
    }
    let f0 = seq![("files"@, nat_text(num_files as nat))];
    lemma_event_with("ParquetReadCompleted"@, "files"@, nat_text(num_files as nat));
    let h0 = "ParquetReadCompleted"@ + "("@ + "files"@ + "="@ + nat_text(num_files as nat);
    lemma_event_with_more("ParquetReadCompleted"@, f0, h0, "bytes"@, nat_text(bytes_read as nat));
    let f1 = f0.push(("bytes"@, nat_text(bytes_read as nat)));
    lemma_piece(h0, ", bytes="@, "bytes"@, nat_text(bytes_read as nat));
    let h1 = h0 + ", "@ + "bytes"@ + "="@ + nat_text(bytes_read as nat);
    let fields = seq![
                ("files"@, nat_text(num_files as nat)),
                ("bytes"@, nat_text(bytes_read as nat)),
    ];
    assert(f1 =~= fields);
    assert(h1 + ")"@ == event_text(
        MetricEvent::ParquetReadCompleted { num_files, bytes_read },
    ));
}

/// How the labels of the event begin and end.
proof fn lemma_scan_labels()
    ensures
        "ScanMetadataCompleted(id="@ == "ScanMetadataCompleted"@ + "("@ + "id"@ + "="@,
        ", scan_type="@ == ", "@ + "scan_type"@ + "="@,
        ", duration="@ == ", "@ + "duration"@ + "="@,
        ", add_files_seen="@ == ", "@ + "add_files_seen"@ + "="@,
        ", active_add_files="@ == ", "@ + "active_add_files"@ + "="@,
        ", remove_files_seen="@ == ", "@ + "remove_files_seen"@ + "="@,
        ", non_file_actions="@ == ", "@ + "non_file_actions"@ + "="@,
        ", predicate_filtered="@ == ", "@ + "predicate_filtered"@ + "="@,
        ", peak_hash_set_size="@ == ", "@ + "peak_hash_set_size"@ + "="@,
        ", dedup_visitor_time_ms="@ == ", "@ + "dedup_visitor_time_ms"@ + "="@,
        ", predicate_eval_time_ms="@ == ", "@ + "predicate_eval_time_ms"@ + "="@,
{
    assert("ScanMetadataCompleted(id="@ =~= "ScanMetadataCompleted"@ + "("@ + "id"@ + "="@) by {
        reveal_strlit("ScanMetadataCompleted(id=");
        reveal_strlit("ScanMetadataCompleted");
        reveal_strlit("(");
        reveal_strlit("id");
        reveal_strlit("=");
    }
    assert(", scan_type="@ =~= ", "@ + "scan_type"@ + "="@) by {
        reveal_strlit(", scan_type=");
        reveal_strlit(", ");
        reveal_strlit("scan_type");
        reveal_strlit("=");
    }
    assert(", duration="@ =~= ", "@ + "duration"@ + "="@) by {
        reveal_strlit(", duration=");
        reveal_strlit(", ");
        reveal_strlit("duration");
        reveal_strlit("=");
    }
    assert(", add_files_seen="@ =~= ", "@ + "add_files_seen"@ + "="@) by {
        reveal_strlit(", add_files_seen=");
        reveal_strlit(", ");
        reveal_strlit("add_files_seen");
        reveal_strlit("=");
    }
    assert(", active_add_files="@ =~= ", "@ + "active_add_files"@ + "="@) by {
        reveal_strlit(", active_add_files=");
        reveal_strlit(", ");
        reveal_strlit("active_add_files");
        reveal_strlit("=");
    }
    assert(", remove_files_seen="@ =~= ", "@ + "remove_files_seen"@ + "="@) by {
        reveal_strlit(", remove_files_seen=");
        reveal_strlit(", ");
        reveal_strlit("remove_files_seen");
        reveal_strlit("=");
    }
    assert(", non_file_actions="@ =~= ", "@ + "non_file_actions"@ + "="@) by {
        reveal_strlit(", non_file_actions=");
        reveal_strlit(", ");
        reveal_strlit("non_file_actions");
        reveal_strlit("=");
    }
    assert(", predicate_filtered="@ =~= ", "@ + "predicate_filtered"@ + "="@) by {
        reveal_strlit(", predicate_filtered=");
        reveal_strlit(", ");
        reveal_strlit("predicate_filtered");
        reveal_strlit("=");
    }
    assert(", peak_hash_set_size="@ =~= ", "@ + "peak_hash_set_size"@ + "="@) by {
        reveal_strlit(", peak_hash_set_size=");
        reveal_strlit(", ");
        reveal_strlit("peak_hash_set_size");
        reveal_strlit("=");
    }
    assert(", dedup_visitor_time_ms="@ =~= ", "@ + "dedup_visitor_time_ms"@ + "="@) by {
        reveal_strlit(", dedup_visitor_time_ms=");
        reveal_strlit(", ");
        reveal_strlit("dedup_visitor_time_ms");
        reveal_strlit("=");
    }
    assert(", predicate_eval_time_ms="@ =~= ", "@ + "predicate_eval_time_ms"@ + "="@) by {
        reveal_strlit(", predicate_eval_time_ms=");
        reveal_strlit(", ");
        reveal_strlit("predicate_eval_time_ms");
        reveal_strlit("=");
    }
}

proof fn lemma_text_of_scan_metadata_completed(
    operation_id: MetricId,
    scan_type: ScanType,
    total_duration: Elapsed,
    num_add_files_seen: u64,
    num_active_add_files: u64,
    num_remove_files_seen: u64,
    num_non_file_actions: u64,
    num_predicate_filtered: u64,
    peak_hash_set_size: usize,
    dedup_visitor_time_ms: u64,
    predicate_eval_time_ms: u64,
)
    ensures
        event_text(MetricEvent::ScanMetadataCompleted {
            operation_id,
            scan_type,
            total_duration,
            num_add_files_seen,
            num_active_add_files,
            num_remove_files_seen,
            num_non_file_actions,
            num_predicate_filtered,
            peak_hash_set_size,
            dedup_visitor_time_ms,
            predicate_eval_time_ms,
        }) == event_with(
            "ScanMetadataCompleted"@,
            seq![
                ("id"@, uuid_text(operation_id.number())),
                ("scan_type"@, scan_type_text(scan_type)),
                ("duration"@, total_duration.written()),
                ("add_files_seen"@, nat_text(num_add_files_seen as nat)),
                ("active_add_files"@, nat_text(num_active_add_files as nat)),
                ("remove_files_seen"@, nat_text(num_remove_files_seen as nat)),
                ("non_file_actions"@, nat_text(num_non_file_actions as nat)),
                ("predicate_filtered"@, nat_text(num_predicate_filtered as nat)),
                ("peak_hash_set_size"@, nat_text(peak_hash_set_size as nat)),
                ("dedup_visitor_time_ms"@, nat_text(dedup_visitor_time_ms as nat)),
                ("predicate_eval_time_ms"@, nat_text(predicate_eval_time_ms as nat)),
            ],
        ),
{
    lemma_scan_labels();
    let f0 = seq![("id"@, uuid_text(operation_id.number()))];
    lemma_event_with("ScanMetadataCompleted"@, "id"@, uuid_text(operation_id.number()));
    let h0 = "ScanMetadataCompleted"@ + "("@ + "id"@ + "="@ + uuid_text(operation_id.number());
    lemma_event_with_more(
        "ScanMetadataCompleted"@,
        f0,
        h0,
        "scan_type"@,
        scan_type_text(scan_type),
    );
    let f1 = f0.push(("scan_type"@, scan_type_text(scan_type)));
    lemma_piece(h0, ", scan_type="@, "scan_type"@, scan_type_text(scan_type));
    let h1 = h0 + ", "@ + "scan_type"@ + "="@ + scan_type_text(scan_type);
    lemma_event_with_more("ScanMetadataCompleted"@, f1, h1, "duration"@, total_duration.written());
    let f2 = f1.push(("duration"@, total_duration.written()));
    lemma_piece(h1, ", duration="@, "duration"@, total_duration.written());
    let h2 = h1 + ", "@ + "duration"@ + "="@ + total_duration.written();
    lemma_event_with_more(
        "ScanMetadataCompleted"@,
        f2,
        h2,
        "add_files_seen"@,
        nat_text(num_add_files_seen as nat),
    );
    let f3 = f2.push(("add_files_seen"@, nat_text(num_add_files_seen as nat)));
    lemma_piece(h2, ", add_files_seen="@, "add_files_seen"@, nat_text(num_add_files_seen as nat));
    let h3 = h2 + ", "@ + "add_files_seen"@ + "="@ + nat_text(num_add_files_seen as nat);
    lemma_event_with_more(
        "ScanMetadataCompleted"@,
        f3,
        h3,
        "active_add_files"@,
        nat_text(num_active_add_files as nat),
    );
    let f4 = f3.push(("active_add_files"@, nat_text(num_active_add_files as nat)));
    lemma_piece(
        h3,
        ", active_add_files="@,
        "active_add_files"@,
        nat_text(num_active_add_files as nat),
    );
    let h4 = h3 + ", "@ + "active_add_files"@ + "="@ + nat_text(num_active_add_files as nat);
    lemma_event_with_more(
        "ScanMetadataCompleted"@,
        f4,
        h4,
        "remove_files_seen"@,
        nat_text(num_remove_files_seen as nat),
    );
    let f5 = f4.push(("remove_files_seen"@, nat_text(num_remove_files_seen as nat)));
    lemma_piece(
        h4,
        ", remove_files_seen="@,
        "remove_files_seen"@,
        nat_text(num_remove_files_seen as nat),
    );
    let h5 = h4 + ", "@ + "remove_files_seen"@ + "="@ + nat_text(num_remove_files_seen as nat);
    lemma_event_with_more(
        "ScanMetadataCompleted"@,
        f5,
        h5,
        "non_file_actions"@,
        nat_text(num_non_file_actions as nat),
    );
    let f6 = f5.push(("non_file_actions"@, nat_text(num_non_file_actions as nat)));
    lemma_piece(
        h5,
        ", non_file_actions="@,
        "non_file_actions"@,
        nat_text(num_non_file_actions as nat),
    );
    let h6 = h5 + ", "@ + "non_file_actions"@ + "="@ + nat_text(num_non_file_actions as nat);
    lemma_event_with_more(
        "ScanMetadataCompleted"@,
        f6,
        h6,
        "predicate_filtered"@,
        nat_text(num_predicate_filtered as nat),
    );
    let f7 = f6.push(("predicate_filtered"@, nat_text(num_predicate_filtered as nat)));
    lemma_piece(
        h6,
        ", predicate_filtered="@,
        "predicate_filtered"@,
        nat_text(num_predicate_filtered as nat),
    );
    let h7 = h6 + ", "@ + "predicate_filtered"@ + "="@ + nat_text(num_predicate_filtered as nat);
    lemma_event_with_more(
        "ScanMetadataCompleted"@,
        f7,
        h7,
        "peak_hash_set_size"@,
        nat_text(peak_hash_set_size as nat),
    );
    let f8 = f7.push(("peak_hash_set_size"@, nat_text(peak_hash_set_size as nat)));
    lemma_piece(
        h7,
        ", peak_hash_set_size="@,
        "peak_hash_set_size"@,
        nat_text(peak_hash_set_size as nat),
    );
    let h8 = h7 + ", "@ + "peak_hash_set_size"@ + "="@ + nat_text(peak_hash_set_size as nat);
    lemma_event_with_more(
        "ScanMetadataCompleted"@,
        f8,
        h8,
        "dedup_visitor_time_ms"@,
        nat_text(dedup_visitor_time_ms as nat),
    );
    let f9 = f8.push(("dedup_visitor_time_ms"@, nat_text(dedup_visitor_time_ms as nat)));
    lemma_piece(
        h8,
        ", dedup_visitor_time_ms="@,
        "dedup_visitor_time_ms"@,
        nat_text(dedup_visitor_time_ms as nat),
    );
    let h9 = h8 + ", "@ + "dedup_visitor_time_ms"@ + "="@ + nat_text(dedup_visitor_time_ms as nat);
    lemma_event_with_more(
        "ScanMetadataCompleted"@,
        f9,
        h9,
        "predicate_eval_time_ms"@,
        nat_text(predicate_eval_time_ms as nat),
    );
    let f10 = f9.push(("predicate_eval_time_ms"@, nat_text(predicate_eval_time_ms as nat)));
    lemma_piece(
        h9,
        ", predicate_eval_time_ms="@,
        "predicate_eval_time_ms"@,
        nat_text(predicate_eval_time_ms as nat),
    );
    let h10 = h9 + ", "@ + "predicate_eval_time_ms"@ + "="@ + nat_text(predicate_eval_time_ms as nat);
    let fields = seq![
                ("id"@, uuid_text(operation_id.number())),
                ("scan_type"@, scan_type_text(scan_type)),
                ("duration"@, total_duration.written()),
                ("add_files_seen"@, nat_text(num_add_files_seen as nat)),
                ("active_add_files"@, nat_text(num_active_add_files as nat)),
                ("remove_files_seen"@, nat_text(num_remove_files_seen as nat)),
                ("non_file_actions"@, nat_text(num_non_file_actions as nat)),
                ("predicate_filtered"@, nat_text(num_predicate_filtered as nat)),
                ("peak_hash_set_size"@, nat_text(peak_hash_set_size as nat)),
                ("dedup_visitor_time_ms"@, nat_text(dedup_visitor_time_ms as nat)),
                ("predicate_eval_time_ms"@, nat_text(predicate_eval_time_ms as nat)),
    ];
    assert(f10 =~= fields);
    assert(h10 + ")"@ == event_text(
        MetricEvent::ScanMetadataCompleted {
            operation_id,
            scan_type,
            total_duration,
            num_add_files_seen,
            num_active_add_files,
            num_remove_files_seen,
            num_non_file_actions,
            num_predicate_filtered,
            peak_hash_set_size,
            dedup_visitor_time_ms,
            predicate_eval_time_ms,
        },
    ));
}

/// The text of an event: its name, and in brackets its fields, each under its own label.
pub proof fn law_texts_of_events(e: MetricEvent)
    ensures
        event_text(e) == (match e {
            MetricEvent::LogSegmentLoaded {
                operation_id,
                duration,
                num_commit_files,
                num_checkpoint_files,
                num_compaction_files,
            } => event_with(
                "LogSegmentLoaded"@,
                seq![
                    ("id"@, uuid_text(operation_id.number())),
                    ("duration"@, duration.written()),
                    ("commits"@, nat_text(num_commit_files as nat)),
                    ("checkpoints"@, nat_text(num_checkpoint_files as nat)),
                    ("compactions"@, nat_text(num_compaction_files as nat)),
                ],
            ),
            MetricEvent::ProtocolMetadataLoaded { operation_id, duration } => event_with(
                "ProtocolMetadataLoaded"@,
                seq![
                    ("id"@, uuid_text(operation_id.number())),
                    ("duration"@, duration.written()),
                ],
            ),
            MetricEvent::SnapshotCompleted { operation_id, version, total_duration } => event_with(
                "SnapshotCompleted"@,
                seq![
                    ("id"@, uuid_text(operation_id.number())),
                    ("version"@, nat_text(version as nat)),
                    ("duration"@, total_duration.written()),
                ],
            ),
            MetricEvent::SnapshotFailed { operation_id, duration } => event_with(
                "SnapshotFailed"@,
                seq![
                    ("id"@, uuid_text(operation_id.number())),
                    ("duration"@, duration.written()),
                ],
            ),
            MetricEvent::StorageListCompleted { duration, num_files } => event_with(
                "StorageListCompleted"@,
                seq![
                    ("duration"@, duration.written()),
                    ("files"@, nat_text(num_files as nat)),
                ],
            ),
            MetricEvent::StorageReadCompleted { duration, num_files, bytes_read } => event_with(
                "StorageReadCompleted"@,
                seq![
                    ("duration"@, duration.written()),
                    ("files"@, nat_text(num_files as nat)),
                    ("bytes"@, nat_text(bytes_read as nat)),
                ],
            ),
            MetricEvent::StorageCopyCompleted { duration } => event_with(
                "StorageCopyCompleted"@,
                seq![
                    ("duration"@, duration.written()),
                ],
            ),
            MetricEvent::JsonReadCompleted { num_files, bytes_read } => event_with(
                "JsonReadCompleted"@,
                seq![
                    ("files"@, nat_text(num_files as nat)),
                    ("bytes"@, nat_text(bytes_read as nat)),
                ],
            ),
            MetricEvent::ParquetReadCompleted { num_files, bytes_read } => event_with(
                "ParquetReadCompleted"@,
                seq![
                    ("files"@, nat_text(num_files as nat)),
                    ("bytes"@, nat_text(bytes_read as nat)),
                ],
            ),
            MetricEvent::ScanMetadataCompleted {
                operation_id,
                scan_type,
                total_duration,
                num_add_files_seen,
                num_active_add_files,
                num_remove_files_seen,
                num_non_file_actions,
                num_predicate_filtered,
                peak_hash_set_size,
                dedup_visitor_time_ms,
                predicate_eval_time_ms,
            } => event_with(
                "ScanMetadataCompleted"@,
                seq![
                    ("id"@, uuid_text(operation_id.number())),
                    ("scan_type"@, scan_type_text(scan_type)),
                    ("duration"@, total_duration.written()),
                    ("add_files_seen"@, nat_text(num_add_files_seen as nat)),
                    ("active_add_files"@, nat_text(num_active_add_files as nat)),
                    ("remove_files_seen"@, nat_text(num_remove_files_seen as nat)),
                    ("non_file_actions"@, nat_text(num_non_file_actions as nat)),
                    ("predicate_filtered"@, nat_text(num_predicate_filtered as nat)),
                    ("peak_hash_set_size"@, nat_text(peak_hash_set_size as nat)),
                    ("dedup_visitor_time_ms"@, nat_text(dedup_visitor_time_ms as nat)),
                    ("predicate_eval_time_ms"@, nat_text(predicate_eval_time_ms as nat)),
                ],
            ),
        }),
{
    match e {
        MetricEvent::LogSegmentLoaded {
            operation_id,
            duration,
            num_commit_files,
            num_checkpoint_files,
            num_compaction_files,
        } => {
            lemma_text_of_log_segment_loaded(
                operation_id,
                duration,
                num_commit_files,
                num_checkpoint_files,
                num_compaction_files,
            );
        },
        MetricEvent::ProtocolMetadataLoaded { operation_id, duration } => {
            lemma_text_of_protocol_metadata_loaded(operation_id, duration);
        },
        MetricEvent::SnapshotCompleted { operation_id, version, total_duration } => {
            lemma_text_of_snapshot_completed(operation_id, version, total_duration);
        },
        MetricEvent::SnapshotFailed { operation_id, duration } => {
            lemma_text_of_snapshot_failed(operation_id, duration);
        },
        MetricEvent::StorageListCompleted { duration, num_files } => {
            lemma_text_of_storage_list_completed(duration, num_files);
        },
        MetricEvent::StorageReadCompleted { duration, num_files, bytes_read } => {
            lemma_text_of_storage_read_completed(duration, num_files, bytes_read);
        },
        MetricEvent::StorageCopyCompleted { duration } => {
            lemma_text_of_storage_copy_completed(duration);
        },
        MetricEvent::JsonReadCompleted { num_files, bytes_read } => {
            lemma_text_of_json_read_completed(num_files, bytes_read);
        },
        MetricEvent::ParquetReadCompleted { num_files, bytes_read } => {
            lemma_text_of_parquet_read_completed(num_files, bytes_read);
        },
        MetricEvent::ScanMetadataCompleted {
            operation_id,
            scan_type,
            total_duration,
            num_add_files_seen,
            num_active_add_files,
            num_remove_files_seen,
            num_non_file_actions,
            num_predicate_filtered,
            peak_hash_set_size,
            dedup_visitor_time_ms,
            predicate_eval_time_ms,
        } => {
            lemma_text_of_scan_metadata_completed(
                operation_id,
                scan_type,
                total_duration,
                num_add_files_seen,
                num_active_add_files,
                num_remove_files_seen,
                num_non_file_actions,
                num_predicate_filtered,
                peak_hash_set_size,
                dedup_visitor_time_ms,
                predicate_eval_time_ms,
            );
        },
    }
}

/// The texts of scan types, one by one.
pub proof fn law_texts_of_scan_types(t: ScanType)
    ensures
        scan_type_text(t) == (match t {
            ScanType::SequentialPhase => "sequential"@,
            ScanType::ParallelPhase => "parallel"@,
            ScanType::Full => "full"@,
        }),
{
}

proof fn lemma_hex_groups(n: nat, high: nat, low: nat, unit: nat)
    requires
        unit == power_of_16(low),
    ensures
        hex_text(n, high + low) == hex_text(n / unit, high) + hex_text(n, low),
    decreases low,
{
    if low == 0 {
        assert(hex_text(n, high) + hex_text(n, 0) =~= hex_text(n, high));
        assert(n / 1 == n);
    } else {
        let m = (low - 1) as nat;
        let u = power_of_16(m);
        lemma_power_of_16(m);
        lemma_hex_groups(n / 16, high, m, u);
        assert((n / 16) / u == n / unit) by {
            vstd::arithmetic::div_mod::lemma_div_denominator(n as int, 16, u as int);
        }
        assert((high + low - 1) as nat == high + m);
        assert(hex_text(n, high + low) =~= hex_text(n / unit, high) + hex_text(n, low));
    }
}

/// A power of sixteen.
pub open spec fn power_of_16(n: nat) -> nat
    decreases n,
{
    if n == 0 {
        1
    } else {
        16 * power_of_16((n - 1) as nat)
    }
}

proof fn lemma_power_of_16(n: nat)
    ensures
        power_of_16(n) > 0,
    decreases n,
{
    if n > 0 {
        lemma_power_of_16((n - 1) as nat);
    }
}

proof fn lemma_hex_len(n: nat, digits: nat)
    ensures
        hex_text(n, digits).len() == digits,
    decreases digits,
{
    if digits > 0 {
        lemma_hex_len(n / 16, (digits - 1) as nat);
    }
}

/// The text of a UUID is that of its 32 hexadecimal digits, with hyphens behind the 8th, the 12th, the
/// 16th and the 20th of them.
pub proof fn law_digits_of_uuids(n: u128)
    ensures
        ({
            let digits = hex_text(n as nat, 32);
            &&& digits.len() == 32
            &&& uuid_text(n) == digits.subrange(0, 8) + "-"@ + digits.subrange(8, 12) + "-"@
                + digits.subrange(12, 16) + "-"@ + digits.subrange(16, 20) + "-"@
                + digits.subrange(20, 32)
        }),
{
    let m = n as nat;
    reveal_with_fuel(power_of_16, 25);
    assert(power_of_16(12) == 0x1_0000_0000_0000);
    assert(power_of_16(16) == 0x1_0000_0000_0000_0000);
    assert(power_of_16(20) == 0x1_0000_0000_0000_0000_0000);
    assert(power_of_16(24) == 0x1_0000_0000_0000_0000_0000_0000);
    let digits = hex_text(m, 32);
    lemma_hex_len(m, 32);
    let g1 = hex_text(m / 0x1_0000_0000_0000_0000_0000_0000, 8);
    let g2 = hex_text(m / 0x1_0000_0000_0000_0000_0000, 4);
    let g3 = hex_text(m / 0x1_0000_0000_0000_0000, 4);
    let g4 = hex_text(m / 0x1_0000_0000_0000, 4);
    let g5 = hex_text(m, 12);
    lemma_hex_len(m / 0x1_0000_0000_0000_0000_0000_0000, 8);
    lemma_hex_len(m / 0x1_0000_0000_0000_0000_0000, 4);
    lemma_hex_len(m / 0x1_0000_0000_0000_0000, 4);
    lemma_hex_len(m / 0x1_0000_0000_0000, 4);
    lemma_hex_len(m, 12);
    lemma_hex_groups(m, 8, 24, 0x1_0000_0000_0000_0000_0000_0000);
    lemma_hex_groups(m, 12, 20, 0x1_0000_0000_0000_0000_0000);
    lemma_hex_groups(m, 16, 16, 0x1_0000_0000_0000_0000);
    lemma_hex_groups(m, 20, 12, 0x1_0000_0000_0000);
    lemma_hex_len(m, 24);
    lemma_hex_len(m, 20);
    lemma_hex_len(m, 16);
    assert(hex_text(m, 24) == g2 + hex_text(m, 20)) by {
        lemma_hex_groups(m, 4, 20, 0x1_0000_0000_0000_0000_0000);
    }
    assert(hex_text(m, 20) == g3 + hex_text(m, 16)) by {
        lemma_hex_groups(m, 4, 16, 0x1_0000_0000_0000_0000);
    }
    assert(hex_text(m, 16) == g4 + g5) by {
        lemma_hex_groups(m, 4, 12, 0x1_0000_0000_0000);
    }
    assert(digits == g1 + (g2 + (g3 + (g4 + g5))));
    assert(digits.subrange(0, 8) =~= g1);
    assert(digits.subrange(8, 12) =~= g2);
    assert(digits.subrange(12, 16) =~= g3);
    assert(digits.subrange(16, 20) =~= g4);
    assert(digits.subrange(20, 32) =~= g5);
}

/// Hexadecimal digits in small letters; each further digit makes the digits before it count sixteen
/// times.
pub proof fn law_hexadecimal_digits(n: nat, digits: nat, d: nat)
    ensures
        d < 16 ==> hex_char(d) == "0123456789abcdef"@[d as int],
        d < 16 ==> hex_text(16 * n + d, digits + 1) == hex_text(n, digits) + seq![hex_char(d)],
        hex_text(n, 0) == Seq::<char>::empty(),
{
    reveal_strlit("0123456789abcdef");
    assert("0123456789abcdef"@[0] == '0');
    assert("0123456789abcdef"@[1] == '1');
    assert("0123456789abcdef"@[2] == '2');
    assert("0123456789abcdef"@[3] == '3');
    assert("0123456789abcdef"@[4] == '4');
    assert("0123456789abcdef"@[5] == '5');
    assert("0123456789abcdef"@[6] == '6');
    assert("0123456789abcdef"@[7] == '7');
    assert("0123456789abcdef"@[8] == '8');
    assert("0123456789abcdef"@[9] == '9');
    assert("0123456789abcdef"@[10] == 'a');
    assert("0123456789abcdef"@[11] == 'b');
    assert("0123456789abcdef"@[12] == 'c');
    assert("0123456789abcdef"@[13] == 'd');
    assert("0123456789abcdef"@[14] == 'e');
    assert("0123456789abcdef"@[15] == 'f');
    if d < 16 {
        assert((16 * n + d) / 16 == n);
        assert((16 * n + d) % 16 == d);
        assert(hex_text(16 * n + d, digits + 1) =~= hex_text(n, digits) + seq![hex_char(d)]);
    }
}

/// A random UUID is one of version 4: the 13th digit of it is a 4, and the 17th is one from 8 to b.
pub proof fn law_digits_of_random_uuids(n: u128)
    ensures
        ({
            let digits = hex_text(n as nat, 32);
            is_random_uuid(n) <==> digits[12] == '4' && (digits[16] == '8' || digits[16] == '9'
                || digits[16] == 'a' || digits[16] == 'b')
        }),
{
    let m = n as nat;
    reveal_with_fuel(power_of_16, 20);
    let u: nat = 0x1000_0000_0000_0000;
    let v: nat = 0x1000_0000_0000_0000_0000;
    assert(power_of_16(15) == u);
    assert(power_of_16(19) == v);
    lemma_hex_groups(m, 13, 19, v);
    lemma_hex_groups(m, 17, 15, u);
    lemma_hex_len(m / v, 13);
    lemma_hex_len(m, 19);
    lemma_hex_len(m / u, 17);
    lemma_hex_len(m, 15);
    let digits = hex_text(m, 32);
    assert(digits[12] == hex_text(m / v, 13)[12]);
    assert(digits[12] == hex_char((m / v) % 16));
    assert(digits[16] == hex_text(m / u, 17)[16]);
    assert(digits[16] == hex_char((m / u) % 16));
    let x: nat = m / u;
    assert(m / (4 * u) == x / 4) by {
        vstd::arithmetic::div_mod::lemma_div_denominator(m as int, u as int, 4);
    }
    assert((x / 4) % 4 == 2 <==> 8 <= x % 16 <= 11);
}

} // verus!

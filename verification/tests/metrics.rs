//! Metric events and the counting of them.
use delta_schema::counting_reporter::{CountingReporter, RelaxedCounter};
use delta_schema::metrics::{Elapsed, MetricEvent, MetricId, ScanType};

fn dur() -> Elapsed {
    Elapsed::from_millis(1)
}

#[test]
fn report_storage_list_completed_increments_list_counters() {
    let mut reporter = CountingReporter::new();
    reporter.report(MetricEvent::StorageListCompleted {
        duration: dur(),
        num_files: 10,
    });
    reporter.report(MetricEvent::StorageListCompleted {
        duration: dur(),
        num_files: 5,
    });
    assert_eq!(reporter.list_calls.get(), 2);
    assert_eq!(reporter.list_files_seen.get(), 15);
}

#[test]
fn report_storage_read_completed_increments_read_counters() {
    let mut reporter = CountingReporter::new();
    reporter.report(MetricEvent::StorageReadCompleted {
        duration: dur(),
        num_files: 3,
        bytes_read: 1024,
    });
    assert_eq!(reporter.storage_read_calls.get(), 1);
    assert_eq!(reporter.storage_read_files.get(), 3);
    assert_eq!(reporter.storage_bytes_read.get(), 1024);
}

#[test]
fn report_storage_copy_completed_increments_copy_counter() {
    let mut reporter = CountingReporter::new();
    reporter.report(MetricEvent::StorageCopyCompleted { duration: dur() });
    assert_eq!(reporter.copy_calls.get(), 1);
}

#[test]
fn report_snapshot_completed_increments_snapshot_counter() {
    let mut reporter = CountingReporter::new();
    reporter.report(MetricEvent::SnapshotCompleted {
        operation_id: MetricId::new(),
        version: 0,
        total_duration: dur(),
    });
    assert_eq!(reporter.snapshot_completions.get(), 1);
}

#[test]
fn report_log_segment_loaded_increments_log_replay_counters() {
    let mut reporter = CountingReporter::new();
    reporter.report(MetricEvent::LogSegmentLoaded {
        operation_id: MetricId::new(),
        duration: dur(),
        num_commit_files: 7,
        num_checkpoint_files: 2,
        num_compaction_files: 1,
    });
    assert_eq!(reporter.log_segment_loads.get(), 1);
    assert_eq!(reporter.commit_files.get(), 7);
    assert_eq!(reporter.checkpoint_files.get(), 2);
    assert_eq!(reporter.compaction_files.get(), 1);
}

#[test]
fn report_untracked_events_does_not_panic() {
    let mut reporter = CountingReporter::new();
    reporter.report(MetricEvent::ProtocolMetadataLoaded {
        operation_id: MetricId::new(),
        duration: dur(),
    });
    reporter.report(MetricEvent::SnapshotFailed {
        operation_id: MetricId::new(),
        duration: dur(),
    });
    assert_eq!(reporter.snapshot_completions.get(), 0);
}

#[test]
fn reset_zeros_all_counters() {
    let mut reporter = CountingReporter::new();
    reporter.report(MetricEvent::StorageListCompleted {
        duration: dur(),
        num_files: 10,
    });
    reporter.report(MetricEvent::StorageReadCompleted {
        duration: dur(),
        num_files: 3,
        bytes_read: 1024,
    });
    reporter.report(MetricEvent::StorageCopyCompleted { duration: dur() });
    reporter.report(MetricEvent::LogSegmentLoaded {
        operation_id: MetricId::new(),
        duration: dur(),
        num_commit_files: 7,
        num_checkpoint_files: 2,
        num_compaction_files: 1,
    });

    reporter.reset();

    assert_eq!(reporter.list_calls.get(), 0);
    assert_eq!(reporter.list_files_seen.get(), 0);
    assert_eq!(reporter.storage_read_calls.get(), 0);
    assert_eq!(reporter.storage_read_files.get(), 0);
    assert_eq!(reporter.storage_bytes_read.get(), 0);
    assert_eq!(reporter.copy_calls.get(), 0);
    assert_eq!(reporter.json_read_calls.get(), 0);
    assert_eq!(reporter.json_files_read.get(), 0);
    assert_eq!(reporter.json_bytes_read.get(), 0);
    assert_eq!(reporter.parquet_read_calls.get(), 0);
    assert_eq!(reporter.parquet_files_read.get(), 0);
    assert_eq!(reporter.parquet_bytes_read.get(), 0);
    assert_eq!(reporter.snapshot_completions.get(), 0);
    assert_eq!(reporter.log_segment_loads.get(), 0);
    assert_eq!(reporter.commit_files.get(), 0);
    assert_eq!(reporter.checkpoint_files.get(), 0);
    assert_eq!(reporter.compaction_files.get(), 0);
}

// ---------------------------------------------------------------------------------------------
// Further cases
// ---------------------------------------------------------------------------------------------

#[test]
fn counters_wrap_around() {
    let mut counter = RelaxedCounter::new();
    counter.add(u64::MAX);
    counter.inc();
    assert_eq!(counter.get(), 0);
    counter.add(5);
    counter.reset();
    assert_eq!(counter.get(), 0);
}

#[test]
fn order_of_events_does_not_matter() {
    let list = MetricEvent::StorageListCompleted { duration: dur(), num_files: 4 };
    let read = MetricEvent::JsonReadCompleted { num_files: 2, bytes_read: 30 };
    let mut a = CountingReporter::new();
    a.report(list);
    a.report(read);
    let mut b = CountingReporter::new();
    b.report(read);
    b.report(list);
    assert_eq!(a.summary("x"), b.summary("x"));
}

#[test]
fn json_and_parquet_reads_are_counted() {
    let mut reporter = CountingReporter::new();
    reporter.report(MetricEvent::JsonReadCompleted { num_files: 2, bytes_read: 30 });
    reporter.report(MetricEvent::ParquetReadCompleted { num_files: 1, bytes_read: 700 });
    assert_eq!(reporter.json_read_calls.get(), 1);
    assert_eq!(reporter.json_files_read.get(), 2);
    assert_eq!(reporter.json_bytes_read.get(), 30);
    assert_eq!(reporter.parquet_read_calls.get(), 1);
    assert_eq!(reporter.parquet_files_read.get(), 1);
    assert_eq!(reporter.parquet_bytes_read.get(), 700);
}

#[test]
fn texts_of_events() {
    let id = MetricId::from_number(0x0123_4567_89ab_cdef_0123_4567_89ab_cdef);
    assert_eq!(id.text(), "01234567-89ab-cdef-0123-456789abcdef");
    let event = MetricEvent::SnapshotCompleted {
        operation_id: id,
        version: 7,
        total_duration: Elapsed::from_millis(1500),
    };
    assert_eq!(
        event.text(),
        "SnapshotCompleted(id=01234567-89ab-cdef-0123-456789abcdef, version=7, duration=1.5s)"
    );
    let event = MetricEvent::StorageReadCompleted {
        duration: Elapsed::from_nanos(1_250),
        num_files: 3,
        bytes_read: 1024,
    };
    assert_eq!(
        event.text(),
        "StorageReadCompleted(duration=1.25µs, files=3, bytes=1024)"
    );
    assert_eq!(ScanType::SequentialPhase.text(), "sequential");
    assert_eq!(ScanType::ParallelPhase.text(), "parallel");
    assert_eq!(ScanType::Full.text(), "full");
}

#[test]
fn metric_ids_are_random() {
    let a = MetricId::new();
    let b = MetricId::default();
    assert_ne!(a, b);
    assert_eq!(&a.text()[14..15], "4");
}

#[test]
fn spans_of_seconds_and_nanoseconds() {
    assert_eq!(Elapsed::new(1, 500_000_000), Elapsed::from_millis(1500));
    assert_eq!(Elapsed::new(0, 1_500_000_000), Elapsed::from_millis(1500));
    assert_eq!(Elapsed::new(u64::MAX, 1).text(), "18446744073709551615.000000001s");
}

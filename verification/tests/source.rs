use bytes::Bytes;
use s3_unspool::block_reader::{BlockRangeReader, ReadStep};
use s3_unspool::block_store::{BlockStore, ReserveFetchResult, SliceStep};
use s3_unspool::compression::Compression;
use s3_unspool::coverage::RangeCoverage;
use s3_unspool::diagnostics::SourceDiagnosticsCollector;
use s3_unspool::error::{IoError, IoErrorKind};
use s3_unspool::range_reader::{align_down, S3RangeReader, SeekTarget};
use s3_unspool::source_fetch::{RangeFetch, RetryDecision};
use s3_unspool::source_plan::{plan_source_blocks, SourcePlan, SourceRange};
use s3_unspool::zip_manifest::ManifestEntry;

fn manifest_entry_with_span(
    path: &str,
    source_span_start: u64,
    source_span_end: u64,
) -> ManifestEntry {
    ManifestEntry {
        source_offset: source_span_start,
        source_span_start,
        source_span_end,
        zip_path: path.to_string(),
        key: format!("prefix/{path}"),
        size: source_span_end.saturating_sub(source_span_start),
        compressed_size: source_span_end.saturating_sub(source_span_start),
        compression: Compression::Stored,
        crc32: 0,
        catalog_md5: None,
        is_directory: false,
    }
}

fn one_block() -> SourcePlan {
    SourcePlan {
        planned_entries: 1,
        blocks: vec![SourceRange { start: 0, end: 7 }],
    }
}

fn read_all(
    store: &mut BlockStore,
    start: u64,
    end: u64,
    diagnostics: &mut SourceDiagnosticsCollector,
) -> Vec<u8> {
    let mut reader = BlockRangeReader::new(store, start, end).unwrap();
    let mut output = Vec::new();
    loop {
        match reader.read(store, 5, diagnostics).0 {
            ReadStep::Data(bytes) if bytes.is_empty() => break,
            ReadStep::Data(bytes) => output.extend_from_slice(&bytes),
            ReadStep::Wait(index) => panic!("block {index} is not ready"),
            ReadStep::Failed(err) => panic!("{err:?}"),
        }
    }
    reader.finish(store, diagnostics);
    output
}

#[test]
fn source_client_rejects_invalid_ranges_before_fetch() {
    let err = RangeFetch::begin(9, 0, 10).unwrap_err();

    assert_eq!(err.kind, IoErrorKind::InvalidInput);
    assert!(err.message.contains("start 9"));
}

#[test]
fn source_client_rejects_out_of_bounds_ranges_before_fetch() {
    let err = RangeFetch::begin(8, 10, 10).unwrap_err();

    assert_eq!(err.kind, IoErrorKind::InvalidInput);
    assert!(err.message.contains("outside source object length 10"));
}

#[test]
fn block_store_waiter_observes_fetch_completion() {
    let mut diagnostics = SourceDiagnosticsCollector::new(8);
    let mut store = BlockStore::new(one_block(), 8, &mut diagnostics);
    let entry = manifest_entry_with_span("a.txt", 0, 8);
    store.retain_entry(&entry);
    assert_eq!(
        store.reserve_fetch(0, &mut diagnostics),
        ReserveFetchResult::Reserved(SourceRange { start: 0, end: 7 })
    );

    assert!(matches!(
        store.slice_from(2, 5, &mut diagnostics),
        SliceStep::Wait(0)
    ));
    store.finish_fetch(0, Ok(Bytes::from_static(b"abcdefgh")), &mut diagnostics);

    match store.slice_from(2, 5, &mut diagnostics) {
        SliceStep::Ready(slice) => {
            assert_eq!(slice.start, 2);
            assert_eq!(slice.bytes, Bytes::from_static(b"cde"));
        }
        _ => panic!("the block is ready"),
    }
}

#[test]
fn block_store_releases_ready_blocks_after_final_claim() {
    let entry = manifest_entry_with_span("a.txt", 0, 8);
    let mut diagnostics = SourceDiagnosticsCollector::new(8);
    let mut store = BlockStore::new(one_block(), 8, &mut diagnostics);
    store.retain_entry(&entry);
    assert_eq!(
        store.reserve_fetch(0, &mut diagnostics),
        ReserveFetchResult::Reserved(SourceRange { start: 0, end: 7 })
    );
    store.finish_fetch(0, Ok(Bytes::from_static(b"abcdefgh")), &mut diagnostics);

    let output = read_all(&mut store, 0, 8, &mut diagnostics);

    assert_eq!(output, b"abcdefgh");
    assert!(!store.is_block_ready(0));
    assert_eq!(store.resident_bytes(), 0);
}

#[test]
fn block_store_memory_pressure_waits_for_claim_release() {
    let mut diagnostics = SourceDiagnosticsCollector::new(16);
    let plan = SourcePlan {
        planned_entries: 2,
        blocks: vec![
            SourceRange { start: 0, end: 7 },
            SourceRange { start: 8, end: 15 },
        ],
    };
    let mut store = BlockStore::new(plan, 8, &mut diagnostics);
    let first_entry = manifest_entry_with_span("a.txt", 0, 8);
    let second_entry = manifest_entry_with_span("b.txt", 8, 16);
    store.retain_entry(&first_entry);
    store.retain_entry(&second_entry);
    assert_eq!(
        store.reserve_fetch(0, &mut diagnostics),
        ReserveFetchResult::Reserved(SourceRange { start: 0, end: 7 })
    );
    store.finish_fetch(0, Ok(Bytes::from_static(b"abcdefgh")), &mut diagnostics);
    assert!(store.is_block_ready(0));

    assert_eq!(
        store.reserve_fetch(1, &mut diagnostics),
        ReserveFetchResult::WaitForCapacity
    );

    assert_eq!(
        read_all(&mut store, 0, 8, &mut diagnostics),
        b"abcdefgh"
    );

    assert_eq!(
        store.reserve_fetch(1, &mut diagnostics),
        ReserveFetchResult::Reserved(SourceRange { start: 8, end: 15 })
    );
    assert!(!store.is_block_ready(0));
    assert_eq!(store.resident_bytes(), 8);
    assert_eq!(diagnostics.snapshot().block_releases, 1);
}

#[test]
fn released_block_is_not_refetched_without_replay_claim() {
    let mut diagnostics = SourceDiagnosticsCollector::new(16);
    let mut store = BlockStore::new(one_block(), 8, &mut diagnostics);
    let entry = manifest_entry_with_span("a.txt", 0, 8);
    store.retain_entry(&entry);
    assert_eq!(
        store.reserve_fetch(0, &mut diagnostics),
        ReserveFetchResult::Reserved(SourceRange { start: 0, end: 7 })
    );
    store.finish_fetch(0, Ok(Bytes::from_static(b"abcdefgh")), &mut diagnostics);
    read_all(&mut store, 0, 8, &mut diagnostics);

    assert_eq!(
        store.reserve_fetch(0, &mut diagnostics),
        ReserveFetchResult::NoClaims
    );

    let snapshot = diagnostics.snapshot();
    assert_eq!(snapshot.block_releases, 1);
    assert_eq!(snapshot.block_refetches, 0);
}

#[test]
fn explicit_replay_claim_allows_released_block_refetch() {
    let mut diagnostics = SourceDiagnosticsCollector::new(8);
    let mut store = BlockStore::new(one_block(), 8, &mut diagnostics);
    let entry = manifest_entry_with_span("a.txt", 0, 8);
    let first = ReserveFetchResult::Reserved(SourceRange { start: 0, end: 7 });
    store.retain_entry(&entry);
    assert_eq!(store.reserve_fetch(0, &mut diagnostics), first);
    store.finish_fetch(0, Ok(Bytes::from_static(b"abcdefgh")), &mut diagnostics);
    read_all(&mut store, 0, 8, &mut diagnostics);

    assert_eq!(store.start_entry_replay(&entry), vec![0]);
    assert_eq!(store.reserve_fetch(0, &mut diagnostics), first);

    let snapshot = diagnostics.snapshot();
    assert_eq!(snapshot.block_releases, 1);
    assert_eq!(snapshot.block_refetches, 1);
}

#[test]
fn explicit_replay_claim_allows_failed_block_refetch() {
    let mut diagnostics = SourceDiagnosticsCollector::new(8);
    let mut store = BlockStore::new(one_block(), 8, &mut diagnostics);
    let entry = manifest_entry_with_span("a.txt", 0, 8);
    let first = ReserveFetchResult::Reserved(SourceRange { start: 0, end: 7 });

    store.retain_entry(&entry);
    assert_eq!(store.reserve_fetch(0, &mut diagnostics), first);
    store.finish_fetch(
        0,
        Err(IoError::new(IoErrorKind::Other, "temporary range failure")),
        &mut diagnostics,
    );
    assert_eq!(
        store.reserve_fetch(0, &mut diagnostics),
        ReserveFetchResult::Failed
    );

    store.start_entry_replay(&entry);
    assert_eq!(store.reserve_fetch(0, &mut diagnostics), first);
    store.finish_fetch(0, Ok(Bytes::from_static(b"abcdefgh")), &mut diagnostics);

    assert_eq!(
        read_all(&mut store, 0, 8, &mut diagnostics),
        b"abcdefgh"
    );
}

#[test]
fn source_diagnostics_summarizes_unique_requested_bytes() {
    let mut diagnostics = SourceDiagnosticsCollector::new(20);
    diagnostics.record_get_attempt(0, 9, 1);
    diagnostics.record_get_attempt(5, 14, 1);
    diagnostics.record_get_attempt(0, 9, 2);
    diagnostics.record_get_success(0, 9);
    diagnostics.record_get_success(5, 14);
    diagnostics.record_get_success(0, 9);

    let snapshot = diagnostics.snapshot();

    assert_eq!(snapshot.source_get_attempts, 3);
    assert_eq!(snapshot.source_get_retries, 1);
    assert_eq!(snapshot.fetched_source_bytes, 30);
    assert_eq!(snapshot.unique_source_bytes, 15);
    let ratio = snapshot.source_amplification;
    assert_eq!(ratio.numerator as f64 / ratio.denominator as f64, 2.0);
}

#[test]
fn source_diagnostics_merges_adjacent_interval_chains() {
    let mut diagnostics = SourceDiagnosticsCollector::new(100);
    diagnostics.record_get_attempt(10, 20, 1);
    diagnostics.record_get_attempt(30, 40, 1);
    diagnostics.record_get_attempt(21, 29, 1);
    diagnostics.record_get_attempt(41, 50, 1);
    diagnostics.record_get_success(10, 20);
    diagnostics.record_get_success(30, 40);
    diagnostics.record_get_success(21, 29);
    diagnostics.record_get_success(41, 50);

    let snapshot = diagnostics.snapshot();

    assert_eq!(snapshot.fetched_source_bytes, 41);
    assert_eq!(snapshot.unique_source_bytes, 41);
    let ratio = snapshot.source_amplification;
    assert_eq!(ratio.numerator as f64 / ratio.denominator as f64, 1.0);
}

#[test]
fn source_block_planner_coalesces_close_spans() {
    let entries = vec![
        manifest_entry_with_span("0.txt", 0, 200),
        manifest_entry_with_span("7.txt", 250, 500),
        manifest_entry_with_span("6.txt", 900, 1_300),
        manifest_entry_with_span("1.txt", 1_200, 1_600),
    ];

    let plan = plan_source_blocks(&entries, 2_000, 1_000, 100);

    assert_eq!(
        plan.blocks,
        vec![
            SourceRange { start: 0, end: 499 },
            SourceRange {
                start: 900,
                end: 1_599
            }
        ]
    );
}

#[test]
fn source_block_planner_does_not_coalesce_large_gaps() {
    let entries = vec![
        manifest_entry_with_span("0.txt", 0, 200),
        manifest_entry_with_span("1.txt", 700, 900),
    ];

    let plan = plan_source_blocks(&entries, 2_000, 1_000, 100);

    assert_eq!(
        plan.blocks,
        vec![
            SourceRange { start: 0, end: 199 },
            SourceRange {
                start: 700,
                end: 899
            }
        ]
    );
}

#[test]
fn source_block_planner_splits_large_spans() {
    let entries = vec![manifest_entry_with_span("large.txt", 0, 2_500)];

    let plan = plan_source_blocks(&entries, 3_000, 1_000, 100);

    assert_eq!(
        plan.blocks,
        vec![
            SourceRange { start: 0, end: 999 },
            SourceRange {
                start: 1_000,
                end: 1_999
            },
            SourceRange {
                start: 2_000,
                end: 2_499
            },
        ]
    );
}

#[test]
fn source_block_planner_clamps_to_source_length() {
    let entries = vec![manifest_entry_with_span("last.txt", 1_700, 2_500)];

    let plan = plan_source_blocks(&entries, 2_100, 1_000, 100);

    assert_eq!(
        plan.blocks,
        vec![SourceRange {
            start: 1_700,
            end: 2_099
        }]
    );
}

#[test]
fn planned_blocks_cover_unordered_entries() {
    let entries = vec![
        manifest_entry_with_span("b", 500, 700),
        manifest_entry_with_span("empty", 600, 600),
        manifest_entry_with_span("a", 100, 200),
    ];
    let plan = plan_source_blocks(&entries, 1_000, 150, 0);
    assert_eq!(plan.planned_entries, 2);
    assert_eq!(
        plan.blocks,
        vec![
            SourceRange {
                start: 100,
                end: 199
            },
            SourceRange {
                start: 500,
                end: 649
            },
            SourceRange {
                start: 650,
                end: 699
            },
        ]
    );
}

#[test]
fn entries_that_share_a_block_keep_it_until_both_have_read() {
    let mut diagnostics = SourceDiagnosticsCollector::new(8);
    let entries = vec![
        manifest_entry_with_span("a", 0, 4),
        manifest_entry_with_span("b", 4, 8),
    ];
    let mut store = BlockStore::with_entries(one_block(), &entries, 8, &mut diagnostics);
    assert!(matches!(
        store.reserve_fetch(0, &mut diagnostics),
        ReserveFetchResult::Reserved(_)
    ));
    assert_eq!(
        store.reserve_fetch(0, &mut diagnostics),
        ReserveFetchResult::AlreadyFetching
    );
    store.finish_fetch(0, Ok(Bytes::from_static(b"abcdefgh")), &mut diagnostics);
    assert_eq!(
        store.reserve_fetch(0, &mut diagnostics),
        ReserveFetchResult::AlreadyReady
    );
    assert_eq!(read_all(&mut store, 0, 4, &mut diagnostics), b"abcd");
    assert!(store.is_block_ready(0));
    assert_eq!(read_all(&mut store, 4, 8, &mut diagnostics), b"efgh");
    assert!(!store.is_block_ready(0));
    let snapshot = diagnostics.snapshot();
    assert_eq!(snapshot.planned_entries, 1);
    assert_eq!(snapshot.planned_blocks, 1);
    assert_eq!(snapshot.fetched_blocks, 1);
    assert_eq!(snapshot.block_releases, 1);
}

#[test]
fn readers_of_released_blocks_are_turned_away() {
    let mut diagnostics = SourceDiagnosticsCollector::new(8);
    let entries = vec![manifest_entry_with_span("a", 0, 8)];
    let mut store = BlockStore::with_entries(one_block(), &entries, 8, &mut diagnostics);
    store.reserve_fetch(0, &mut diagnostics);
    store.finish_fetch(0, Ok(Bytes::from_static(b"abcdefgh")), &mut diagnostics);
    read_all(&mut store, 0, 8, &mut diagnostics);
    assert!(BlockRangeReader::new(&mut store, 0, 8).is_err());
}

#[test]
fn failed_blocks_fail_their_readers() {
    let mut diagnostics = SourceDiagnosticsCollector::new(8);
    let entries = vec![manifest_entry_with_span("a", 0, 8)];
    let mut store = BlockStore::with_entries(one_block(), &entries, 8, &mut diagnostics);
    let mut reader = BlockRangeReader::new(&mut store, 0, 8).unwrap();
    assert!(matches!(
        reader.read(&mut store, 4, &mut diagnostics).0,
        ReadStep::Wait(0)
    ));
    store.reserve_fetch(0, &mut diagnostics);
    store.finish_fetch(
        0,
        Err(IoError::new(IoErrorKind::Other, "gone")),
        &mut diagnostics,
    );
    match reader.read(&mut store, 4, &mut diagnostics).0 {
        ReadStep::Failed(err) => assert!(err.message.contains("gone")),
        _ => panic!("the block failed"),
    }
}

#[test]
fn overlapping_ranges_are_counted_once() {
    let mut coverage = RangeCoverage::default();
    coverage.insert(10, 19);
    coverage.insert(30, 39);
    assert_eq!(coverage.unique_bytes(), 20);
    coverage.insert(15, 34);
    assert_eq!(coverage.unique_bytes(), 30);
    coverage.insert(0, 100);
    assert_eq!(coverage.unique_bytes(), 101);
}

#[test]
fn range_readers_fetch_aligned_chunks() {
    assert_eq!(align_down(19, 8), 16);
    let mut reader = S3RangeReader::new(20, 8);
    assert_eq!(reader.next_fetch(), Some(SourceRange { start: 0, end: 7 }));
    reader.install(0, Bytes::from_static(b"01234567")).unwrap();
    assert_eq!(reader.read(5), Bytes::from_static(b"01234"));
    assert_eq!(reader.fill_buf(), Bytes::from_static(b"567"));
    assert_eq!(reader.seek(SeekTarget::End(-1)).unwrap(), 19);
    assert_eq!(
        reader.next_fetch(),
        Some(SourceRange { start: 16, end: 19 })
    );
    reader.install(16, Bytes::from_static(b"wxyz")).unwrap();
    assert_eq!(reader.read(5), Bytes::from_static(b"z"));
    assert_eq!(reader.next_fetch(), None);
    assert_eq!(reader.seek(SeekTarget::Current(-20)).unwrap(), 0);
    assert!(reader.seek(SeekTarget::Current(-1)).is_err());
}

#[test]
fn range_requests_are_repeated_twice() {
    let mut diagnostics = SourceDiagnosticsCollector::new(20);
    let fetch = RangeFetch::begin(4, 9, 20).unwrap();
    assert_eq!(fetch.start_attempt(&mut diagnostics), "bytes=4-9");
    let err = fetch.check_body(5, &mut diagnostics).unwrap_err();
    assert_eq!(err.kind, IoErrorKind::UnexpectedEof);
    let second = match fetch.fail(&mut diagnostics) {
        RetryDecision::Retry { delay_ms, next } => {
            assert_eq!(delay_ms, 100);
            next
        }
        RetryDecision::GiveUp => panic!("a first failure is repeated"),
    };
    second.start_attempt(&mut diagnostics);
    let third = match second.fail(&mut diagnostics) {
        RetryDecision::Retry { delay_ms, next } => {
            assert_eq!(delay_ms, 200);
            next
        }
        RetryDecision::GiveUp => panic!("a second failure is repeated"),
    };
    third.start_attempt(&mut diagnostics);
    assert!(matches!(
        third.fail(&mut diagnostics),
        RetryDecision::GiveUp
    ));
    third.succeed(&mut diagnostics);
    let snapshot = diagnostics.snapshot();
    assert_eq!(snapshot.source_get_attempts, 3);
    assert_eq!(snapshot.source_get_retries, 2);
    assert_eq!(snapshot.source_get_errors, 1);
    assert_eq!(snapshot.source_get_short_body_errors, 1);
    assert_eq!(snapshot.fetched_source_bytes, 6);
}

#[test]
fn a_block_is_hit_once_per_slice() {
    let mut diagnostics = SourceDiagnosticsCollector::new(8);
    let entries = vec![manifest_entry_with_span("a", 0, 8)];
    let mut store = BlockStore::with_entries(one_block(), &entries, 8, &mut diagnostics);
    let mut reader = BlockRangeReader::new(&mut store, 0, 8).unwrap();
    reader.read(&mut store, 3, &mut diagnostics);
    assert!(reader.buffer.is_empty());
    store.reserve_fetch(0, &mut diagnostics);
    store.finish_fetch(0, Ok(Bytes::from_static(b"abcdefgh")), &mut diagnostics);
    for expected in [&b"abc"[..], &b"def"[..], &b"gh"[..]] {
        match reader.read(&mut store, 3, &mut diagnostics).0 {
            ReadStep::Data(bytes) => assert_eq!(&bytes[..], expected),
            step => panic!("{step:?}"),
        }
        assert_eq!(reader.buffer_start, 0);
        assert_eq!(&reader.buffer[..], b"abcdefgh");
    }
    assert_eq!(diagnostics.snapshot().block_hits, 1);
}

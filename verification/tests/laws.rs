use std::time::Duration;

use bytes::Bytes;
use s3_unspool::block_store::{BlockStore, ReserveFetchResult};
use s3_unspool::catalog::{catalog_md5_by_path, EmbeddedCatalog, EmbeddedCatalogEntry};
use s3_unspool::classify::{classify_entries, finish_hash_job, HashPhaseResult};
use s3_unspool::compression::Compression;
use s3_unspool::destination::{DestinationListing, DestinationObject};
use s3_unspool::diagnostics::SourceDiagnosticsCollector;
use s3_unspool::digest::{EntryCheck, ExtractDigest};
use s3_unspool::lambda::{adaptive_lambda_concurrency, adaptive_lambda_put_concurrency};
use s3_unspool::local_destination::check_collision_keys;
use s3_unspool::local_path::{upload_zip_path, LocalPath, PathPart};
use s3_unspool::put::capped_exponential_delay;
use s3_unspool::s3_uri::{join_destination_key, normalize_etag, normalized_list_prefix};
use s3_unspool::source_plan::{SourcePlan, SourceRange};
use s3_unspool::zip_manifest::{
    build_manifest_entries_with_selection, EntryName, ManifestEntry, StoredEntry,
};
use s3_unspool::{
    AdaptiveSourceWindow, OperationStatus, S3Prefix, UnzipSelection, EMBEDDED_CATALOG_PATH,
};

const MIB: u64 = 1024 * 1024;

fn entry(path: &str, start: u64, end: u64) -> ManifestEntry {
    ManifestEntry {
        source_offset: start,
        source_span_start: start,
        source_span_end: end,
        zip_path: path.to_string(),
        key: format!("prefix/{path}"),
        size: 5,
        compressed_size: 5,
        compression: Compression::Stored,
        crc32: 0,
        catalog_md5: None,
        is_directory: false,
    }
}

fn stored(name: &str, header_offset: u64) -> StoredEntry {
    StoredEntry {
        name: EntryName::Utf8(name.to_string()),
        header_offset,
        header_size: 30 + name.len() as u64,
        uncompressed_size: if name.ends_with('/') { 0 } else { 4 },
        compressed_size: if name.ends_with('/') { 0 } else { 4 },
        compression: Compression::Stored,
        crc32: 0,
    }
}

fn digest_of(content: &[u8]) -> ExtractDigest {
    let mut crc32 = crc32fast::Hasher::new();
    crc32.update(content);
    let mut check = EntryCheck::new("a", content.len() as u64, crc32.finalize());
    check.push_checked(content).unwrap();
    check.finish().unwrap().1
}

#[test]
fn destination_keys_lie_under_the_listed_prefix() {
    for prefix in ["", "p", "p/", "p/q"] {
        let listed = normalized_list_prefix(prefix);
        assert_eq!(normalized_list_prefix(&listed), listed);
        let first = join_destination_key(prefix, "a/b");
        let second = join_destination_key(prefix, "a/c");
        assert!(first.starts_with(&listed));
        assert_eq!(&first[listed.len()..], "a/b");
        assert_ne!(first, second);
    }
}

#[test]
fn later_selection_lines_override_earlier_ones() {
    let selection = UnzipSelection::new().including("*.md").exclude("a.md");
    assert!(!selection.selects("a.md"));
    let selection = selection.including("a.md");
    assert!(selection.selects("a.md"));
    assert!(selection.selects("docs/b.md"));
    assert!(!selection.selects("b.txt"));
}

#[test]
fn extracting_again_changes_nothing() {
    let digest = digest_of(b"alpha");
    let mut listing = DestinationListing::new();
    listing.insert(
        "prefix/a".to_string(),
        DestinationObject {
            etag: Some(format!("\"{}\"", digest.md5)),
            size: Some(5),
        },
    );
    assert_eq!(normalize_etag(&digest.md5), Some(digest.md5.clone()));

    let cataloged = ManifestEntry {
        catalog_md5: Some(digest.md5.clone()),
        ..entry("a", 0, 40)
    };
    let work = classify_entries(vec![cataloged], &listing);
    assert_eq!(work.reports.len(), 1);
    assert_eq!(work.reports[0].status, OperationStatus::SkippedUnchanged);

    let mut work = classify_entries(vec![entry("a", 0, 40)], &listing);
    assert_eq!(work.hash_jobs.len(), 1);
    match finish_hash_job(work.hash_jobs.remove(0), Ok(digest)) {
        HashPhaseResult::Operation(report) => {
            assert_eq!(report.status, OperationStatus::SkippedUnchanged);
        }
        HashPhaseResult::Upload(_) => panic!("the content is the same"),
    }
}

#[test]
fn bodies_stay_short_until_they_are_checked() {
    let mut check = EntryCheck::new("a", 6, 0);
    let mut passed = Vec::new();
    for chunk in [b"ab", b"cd", b"ef"] {
        passed.extend(check.push_checked(chunk).unwrap());
        assert!(passed.len() < 6);
    }
    assert_eq!(passed, b"abcd");
    assert!(check.finish().is_err());
}

#[test]
fn catalogs_hold_digests_of_plain_files_only() {
    let digests = catalog_md5_by_path(EmbeddedCatalog {
        version: 1,
        entries: vec![
            EmbeddedCatalogEntry {
                path: EMBEDDED_CATALOG_PATH.to_string(),
                md5: "d41d8cd98f00b204e9800998ecf8427e".to_string(),
            },
            EmbeddedCatalogEntry {
                path: "a".to_string(),
                md5: " \"D41D8CD98F00B204E9800998ECF8427E\"".to_string(),
            },
        ],
    });
    assert!(digests.get(EMBEDDED_CATALOG_PATH).is_none());
    assert_eq!(
        digests.get("a").map(String::as_str),
        Some("d41d8cd98f00b204e9800998ecf8427e")
    );
}

#[test]
fn manifests_follow_the_source_and_do_not_overlap() {
    let directory = vec![
        stored("b", 100),
        stored("skip/c", 200),
        stored("a", 0),
        stored("dir/", 300),
    ];
    let manifest = build_manifest_entries_with_selection(
        &directory,
        &S3Prefix::parse("s3://bucket/p").unwrap(),
        400,
        None,
        &UnzipSelection::new().exclude("skip/**"),
    )
    .unwrap();
    let paths: Vec<&str> = manifest
        .entries
        .iter()
        .map(|entry| entry.zip_path.as_str())
        .collect();
    assert_eq!(paths, ["a", "b", "dir/"]);
    assert_eq!(manifest.entries[0].key, "p/a");
    assert_eq!(manifest.entries[0].source_span_end, 100);
    assert_eq!(manifest.entries[1].source_span_end, 200);
    assert_eq!(manifest.entries[2].source_span_start, 300);
    assert_eq!(manifest.entries[2].source_span_end, 300);
}

#[test]
fn windows_stay_within_their_capacity() {
    let mut diagnostics = SourceDiagnosticsCollector::new(30);
    let plan = SourcePlan {
        planned_entries: 3,
        blocks: vec![
            SourceRange { start: 0, end: 9 },
            SourceRange { start: 10, end: 19 },
            SourceRange { start: 20, end: 29 },
        ],
    };
    let entries = vec![entry("a", 0, 10), entry("b", 10, 20), entry("c", 20, 30)];
    let mut store = BlockStore::with_entries(plan, &entries, 20, &mut diagnostics);
    assert_eq!(store.resident_bytes(), 0);
    for index in 0..2 {
        assert!(matches!(
            store.reserve_fetch(index, &mut diagnostics),
            ReserveFetchResult::Reserved(_)
        ));
    }
    assert_eq!(store.resident_bytes(), 20);
    assert_eq!(
        store.reserve_fetch(2, &mut diagnostics),
        ReserveFetchResult::WaitForCapacity
    );
    store.finish_fetch(0, Ok(Bytes::from_static(b"0123456789")), &mut diagnostics);
    assert!(store.activate_block_indices(&vec![0]).is_ok());
    assert!(store.release_block_reader(0, &mut diagnostics));
    assert_eq!(store.resident_bytes(), 10);
    assert_eq!(
        store.reserve_fetch(0, &mut diagnostics),
        ReserveFetchResult::NoClaims
    );
    store.add_replay_claims(&vec![0]);
    assert!(matches!(
        store.reserve_fetch(0, &mut diagnostics),
        ReserveFetchResult::Reserved(_)
    ));
}

#[test]
fn blocks_larger_than_the_window_are_fetched_alone() {
    let mut diagnostics = SourceDiagnosticsCollector::new(30);
    let plan = SourcePlan {
        planned_entries: 1,
        blocks: vec![SourceRange { start: 0, end: 29 }],
    };
    let entries = vec![entry("a", 0, 30)];
    let mut store = BlockStore::with_entries(plan, &entries, 8, &mut diagnostics);
    assert_eq!(
        store.reserve_fetch(0, &mut diagnostics),
        ReserveFetchResult::Reserved(SourceRange { start: 0, end: 29 })
    );
}

#[test]
fn budgets_leave_room_for_a_block_and_grow_with_memory() {
    let window = |memory_mb: u64| {
        AdaptiveSourceWindow::new(memory_mb, 3 * 1024 * MIB, 10)
            .with_concurrency(4)
            .with_source_block_size(8 * MIB as usize)
            .with_source_get_concurrency(1)
            .capacity() as u64
    };
    assert_eq!(window(0), 8 * MIB);
    assert!(window(256) <= window(512));
    assert!(window(256) + 64 * MIB + 4 * 12 * MIB + 8 * MIB <= 256 * MIB);
    assert_eq!(window(4096), 512 * MIB);
}

#[test]
fn backoff_doubles_up_to_its_limit() {
    let delay = |attempt| {
        capped_exponential_delay(
            Duration::from_millis(250),
            Duration::from_millis(5_000),
            attempt,
        )
    };
    for attempt in 1..70 {
        assert!(delay(attempt) <= delay(attempt + 1));
        assert!(delay(attempt) <= Duration::from_millis(5_000));
    }
    assert_eq!(delay(4), Duration::from_millis(2_000));
}

#[test]
fn more_memory_means_no_fewer_workers() {
    for memory_mb in 0..3_000 {
        assert!(
            adaptive_lambda_concurrency(memory_mb) <= adaptive_lambda_concurrency(memory_mb + 1)
        );
    }
    for workers in 1..20 {
        for reads in 0..20 {
            let slots = adaptive_lambda_put_concurrency(workers, reads);
            assert!(1 <= slots && slots <= 8 && slots <= workers);
        }
    }
}

#[test]
fn keys_decide_which_local_paths_collide() {
    let entries = vec![
        ("A".to_string(), false),
        ("b/".to_string(), true),
        ("B/c".to_string(), false),
    ];
    let keys = |keys: [&str; 3]| keys.iter().map(|key| key.to_string()).collect::<Vec<_>>();
    check_collision_keys(&entries, &keys(["a", "b", "b/c"])).unwrap();
    let err = check_collision_keys(&entries, &keys(["a", "b", "a/c"])).unwrap_err();
    assert!(err.to_string().contains("file ZIP entry `A`"));
    let err = check_collision_keys(&entries, &keys(["b", "b", "c"])).unwrap_err();
    assert!(err.to_string().contains("as ZIP entry `A`"));
}

#[test]
fn distinct_files_have_distinct_zip_paths() {
    let path = |names: &[&str]| LocalPath {
        shown: names.join("/"),
        parts: names
            .iter()
            .map(|name| PathPart::Name(name.to_string()))
            .collect(),
    };
    let source = path(&["src"]);
    let first = upload_zip_path(&source, &path(&["src", "a", "b"])).unwrap();
    let second = upload_zip_path(&source, &path(&["src", "ab"])).unwrap();
    assert_eq!(first, "a/b");
    assert_eq!(second, "ab");
}

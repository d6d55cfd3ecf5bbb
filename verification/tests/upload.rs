use std::path::PathBuf;

use bytes::BytesMut;
use s3_unspool::archive_writer::{
    upload_finished, upload_planned, ArchiveRun, UPLOAD_PROGRESS_BYTE_GRANULARITY,
};
use s3_unspool::catalog::catalog_md5_by_path;
use s3_unspool::compression::Compression;
use s3_unspool::constants::S3_SINGLE_PUT_LIMIT;
use s3_unspool::destination::DestinationListing;
use s3_unspool::digest::EntryCheck;
use s3_unspool::directory_walk::DirectoryCollection;
use s3_unspool::finish::{local_zip_report, upload_report, zip_dry_run_report};
use s3_unspool::listing::{
    add_destination_page, next_list_page, source_head, ListedObject,
};
use s3_unspool::local_destination::{
    entry_directory_names, local_path_names, validate_local_destination_path_collisions,
    validate_local_destination_zip_paths, zip_path_components,
};
use s3_unspool::local_path::{reject_destination_inside_source, LocalPath, PathPart};
use s3_unspool::local_sync::{local_directory_report, local_file_report};
use s3_unspool::local_zip::local_zip_entries_for_local;
use s3_unspool::multipart::{
    attach_abort_error, part_content_length, take_final_multipart_part, take_ready_multipart_part,
    validate_multipart_upload_has_data, validate_part_number, PartStream, UploadedPart,
    S3_MULTIPART_MAX_PARTS, UPLOAD_MULTIPART_PART_SIZE,
};
use s3_unspool::path_probe::{
    alternate_case_name, check_destination_root, check_directory_component, check_raced_component,
    check_replaced_file, existing_case_probe_root, find_existing_parent, linux_case_insensitive,
    reject_existing_symlink_or_directory, source_archive_error, validate_existing_directory_chain,
    validate_local_zip_destination_path, CaseProbeRoot, PathProbe, Presence, Probed,
};
use s3_unspool::upload_entries::{
    check_source_root, empty_directory_entry, finish_upload_entries,
    local_upload_entry, record_upload_zip_path, s3_prefix_upload_entry, s3_prefix_zip_path,
    upload_entries_uncompressed_bytes, upload_totals, PrefixCollection, SourceKind, UploadEntry,
    UploadEntryKind, UploadEntrySource,
};
use s3_unspool::zip_manifest::{EntryName, StoredEntry};
use s3_unspool::{
    Error, OperationStatus, S3Object, S3Prefix, UnzipSelection, UploadProgress,
    EMBEDDED_CATALOG_PATH,
};
use vstd::hash_set::StringHashSet;

fn path(names: &[&str]) -> LocalPath {
    let mut parts = vec![PathPart::Root];
    parts.extend(names.iter().map(|name| PathPart::Name(name.to_string())));
    LocalPath {
        shown: format!("/{}", names.join("/")),
        parts,
    }
}

fn probed(shown: &str, probe: PathProbe) -> Probed {
    Probed {
        shown: shown.to_string(),
        probe,
    }
}

fn missing(shown: &str) -> Probed {
    probed(shown, PathProbe::NotFound("not found".to_string()))
}

fn file(zip_path: &str, size: u64) -> UploadEntry {
    UploadEntry {
        zip_path: zip_path.to_string(),
        size,
        source: UploadEntrySource::LocalFile(PathBuf::from(zip_path)),
    }
}

fn listed(key: Option<&str>, size: Option<i64>) -> ListedObject {
    ListedObject {
        key: key.map(str::to_string),
        size,
        etag: Some("\"etag\"".to_string()),
    }
}

fn source() -> S3Prefix {
    S3Prefix::parse("s3://bucket/source/").unwrap()
}

#[test]
fn multipart_part_assembly_emits_exact_multiple_without_empty_final() {
    let mut buffer = BytesMut::new();
    buffer.resize(UPLOAD_MULTIPART_PART_SIZE * 2, 7);
    let mut part_number = 1;

    let first = take_ready_multipart_part(&mut buffer, &mut part_number)
        .unwrap()
        .unwrap();
    let second = take_ready_multipart_part(&mut buffer, &mut part_number)
        .unwrap()
        .unwrap();

    assert_eq!(first.0, 1);
    assert_eq!(first.1.len(), UPLOAD_MULTIPART_PART_SIZE);
    assert_eq!(second.0, 2);
    assert_eq!(second.1.len(), UPLOAD_MULTIPART_PART_SIZE);
    assert_eq!(part_number, 3);
    assert!(buffer.is_empty());
    assert!(take_final_multipart_part(buffer, part_number)
        .unwrap()
        .is_none());
}

#[test]
fn multipart_part_assembly_flushes_small_final_part() {
    let mut buffer = BytesMut::new();
    buffer.resize(UPLOAD_MULTIPART_PART_SIZE + 3, 9);
    let mut part_number = 1;

    let first = take_ready_multipart_part(&mut buffer, &mut part_number)
        .unwrap()
        .unwrap();
    let final_part = take_final_multipart_part(buffer, part_number)
        .unwrap()
        .unwrap();

    assert_eq!(first.0, 1);
    assert_eq!(first.1.len(), UPLOAD_MULTIPART_PART_SIZE);
    assert_eq!(final_part.0, 2);
    assert_eq!(final_part.1.len(), 3);
}

#[test]
fn multipart_part_number_validation_enforces_s3_limits() {
    assert!(validate_part_number(0).is_err());
    assert!(validate_part_number(S3_MULTIPART_MAX_PARTS).is_ok());
    assert!(validate_part_number(S3_MULTIPART_MAX_PARTS + 1).is_err());

    let mut buffer = BytesMut::new();
    buffer.resize(UPLOAD_MULTIPART_PART_SIZE, 1);
    let mut part_number = S3_MULTIPART_MAX_PARTS + 1;

    assert!(take_ready_multipart_part(&mut buffer, &mut part_number).is_err());
}

#[test]
fn multipart_upload_requires_at_least_one_part_and_byte() {
    assert!(validate_multipart_upload_has_data(&[], 0).is_err());
    assert!(validate_multipart_upload_has_data(&[], 1).is_err());

    let part = UploadedPart {
        part_number: 1,
        e_tag: "etag".to_string(),
    };
    assert!(validate_multipart_upload_has_data(&[part], 1).is_ok());
}

#[test]
fn s3_prefix_upload_rejects_duplicate_normalized_paths() {
    let (first, first_kind) = s3_prefix_zip_path(&source(), "source/foo/", 0)
        .unwrap()
        .unwrap();
    let (second, second_kind) = s3_prefix_zip_path(&source(), "source/foo//", 0)
        .unwrap()
        .unwrap();
    let mut seen = StringHashSet::new();

    assert_eq!(first, "foo/");
    assert_eq!(second, first);
    assert_eq!(first_kind, UploadEntryKind::Directory);
    assert_eq!(second_kind, UploadEntryKind::Directory);
    record_upload_zip_path(&mut seen, &first).unwrap();

    let err = record_upload_zip_path(&mut seen, &second).unwrap_err();

    assert!(matches!(err, Error::DuplicateZipPath(path) if path == "foo/"));
}

#[test]
fn local_zip_entry_collection_allows_files_above_s3_single_put_limit() {
    let root = path(&["root"]);
    let large = path(&["root", "large.bin"]);
    let size = S3_SINGLE_PUT_LIMIT + 1;
    let found = |limit| {
        local_upload_entry(
            &root,
            &large,
            SourceKind::File,
            size,
            limit,
            PathBuf::from("/root/large.bin"),
        )
    };

    let entry = found(None).unwrap().unwrap();

    assert_eq!(entry.zip_path, "large.bin");
    assert_eq!(entry.size, size);

    let err = found(Some(S3_SINGLE_PUT_LIMIT)).unwrap_err();
    assert!(err.to_string().contains("S3 single PutObject limit"));
}

#[test]
fn s3_prefix_local_zip_entry_allows_objects_above_s3_single_put_limit() {
    let mut seen = StringHashSet::new();
    let entry = s3_prefix_upload_entry(
        &source(),
        "source/large.bin",
        S3_SINGLE_PUT_LIMIT + 1,
        Some("\"etag\""),
        &mut seen,
        None,
    )
    .unwrap()
    .unwrap();

    assert_eq!(entry.zip_path, "large.bin");
    assert_eq!(entry.size, S3_SINGLE_PUT_LIMIT + 1);
    assert!(matches!(
        entry.source,
        UploadEntrySource::S3Object { ref bucket, ref key, ref etag }
            if bucket == "bucket"
                && key == "source/large.bin"
                && etag.as_deref() == Some("\"etag\"")
    ));

    let mut seen = StringHashSet::new();
    let err = s3_prefix_upload_entry(
        &source(),
        "source/large.bin",
        S3_SINGLE_PUT_LIMIT + 1,
        Some("\"etag\""),
        &mut seen,
        Some(S3_SINGLE_PUT_LIMIT),
    )
    .unwrap_err();

    assert!(
        matches!(err, Error::EntryTooLarge { ref path, size } if path == "large.bin" && size == S3_SINGLE_PUT_LIMIT + 1)
    );
}

#[test]
fn upload_zip_rejects_uncompressed_size_overflow() {
    let entries = vec![file("a.txt", u64::MAX), file("b.txt", 1)];

    let err = upload_entries_uncompressed_bytes(&entries).unwrap_err();

    assert!(err.to_string().contains("exceeds u64::MAX"));
}

#[test]
fn upload_zip_emits_file_progress_events() {
    let entries = vec![file("a.txt", 5), file("b.txt", 5)];
    let totals = upload_totals(&entries).unwrap();
    let mut run = ArchiveRun::new(&totals, true);
    let mut events = Vec::new();

    for (entry, content) in entries.iter().zip([b"alpha", b"bravo"]) {
        assert!(run.has_next());
        events.push(run.entry_started(entry));
        let mut written = run.start_content(entry);
        events.extend(written.push(content));
        let (bytes, md5) = written.finish(entry).unwrap();
        events.push(run.entry_finished(entry, bytes, md5));
    }
    assert!(!run.has_next());

    assert_eq!(
        events,
        vec![
            UploadProgress::FileStarted {
                current_file: 1,
                total_files: 2,
                processed_files: 0,
                processed_bytes: 0,
                total_bytes: 10,
                path: "a.txt".to_string(),
            },
            UploadProgress::FileFinished {
                processed_files: 1,
                total_files: 2,
                processed_bytes: 5,
                total_bytes: 10,
                path: "a.txt".to_string(),
            },
            UploadProgress::FileStarted {
                current_file: 2,
                total_files: 2,
                processed_files: 1,
                processed_bytes: 5,
                total_bytes: 10,
                path: "b.txt".to_string(),
            },
            UploadProgress::FileFinished {
                processed_files: 2,
                total_files: 2,
                processed_bytes: 10,
                total_bytes: 10,
                path: "b.txt".to_string(),
            },
        ]
    );
    let catalog = run.into_catalog().unwrap();
    let digests = catalog_md5_by_path(catalog);
    assert_eq!(
        digests.get("a.txt").map(String::as_str),
        Some("2c1743a391305fbf367df8e4f069f9f9")
    );
    assert_eq!(digests.len(), 2);
}

#[test]
fn upload_zip_progress_uses_measured_file_bytes() {
    let entries = vec![file("a.txt", 1)];
    let totals = upload_totals(&entries).unwrap();
    let mut run = ArchiveRun::new(&totals, false);
    let mut written = run.start_content(&entries[0]);
    assert_eq!(written.push(b"alpha"), None);
    let (bytes, md5) = written.finish(&entries[0]).unwrap();
    assert_eq!(md5, None);

    let event = run.entry_finished(&entries[0], bytes, md5);

    assert!(matches!(
        event,
        UploadProgress::FileFinished {
            processed_bytes: 5,
            ..
        }
    ));
    assert!(run.into_catalog().is_none());
}

#[test]
fn archives_are_not_written_into_their_source() {
    let root = path(&["root"]);
    reject_destination_inside_source(&root, &path(&["rooted"]), "/rooted/a.zip").unwrap();
    for parent in [path(&["root"]), path(&["root", "deep"])] {
        let err = reject_destination_inside_source(&root, &parent, "/root/a.zip").unwrap_err();
        assert!(err
            .to_string()
            .contains("destination ZIP must not be inside source directory /root"));
    }
}

#[test]
fn the_catalog_path_is_reserved() {
    let root = path(&["root"]);
    let reserved = path(&["root", ".s3-unspool", "catalog.v1.json"]);
    let err = local_upload_entry(
        &root,
        &reserved,
        SourceKind::File,
        1,
        None,
        PathBuf::from("x"),
    )
    .unwrap_err();
    assert!(err.to_string().contains("reserved for the embedded catalog"));

    let mut seen = StringHashSet::new();
    let key = format!("source/{EMBEDDED_CATALOG_PATH}");
    let err = s3_prefix_upload_entry(&source(), &key, 1, None, &mut seen, None).unwrap_err();
    assert!(err.to_string().contains("reserved for the embedded catalog"));
}

#[test]
fn only_plain_directories_are_zipped() {
    check_source_root("/root", SourceKind::Directory).unwrap();
    let err = check_source_root("/root", SourceKind::Symlink).unwrap_err();
    assert!(err.to_string().contains("symbolic links are not supported"));
    let err = check_source_root("/root", SourceKind::File).unwrap_err();
    assert!(err.to_string().contains("source must be a directory"));
}

#[test]
fn source_trees_hold_files_and_empty_directories_only() {
    let root = path(&["root"]);
    let link = path(&["root", "link"]);
    let found = |kind| local_upload_entry(&root, &link, kind, 3, None, PathBuf::from("x"));
    assert!(found(SourceKind::Directory).unwrap().is_none());
    assert!(found(SourceKind::Symlink)
        .unwrap_err()
        .to_string()
        .contains("symbolic links are not supported"));
    assert!(found(SourceKind::Other)
        .unwrap_err()
        .to_string()
        .contains("only regular files are supported"));

    let empty = empty_directory_entry(&root, &link, false).unwrap().unwrap();
    assert_eq!(empty.zip_path, "link/");
    assert!(empty.is_directory());
    assert!(!empty.is_file());
    assert!(empty_directory_entry(&root, &link, true).unwrap().is_none());
    assert!(empty_directory_entry(&root, &root, false).unwrap().is_none());
}

#[test]
fn archives_are_not_written_into_linked_directories() {
    let chain = vec![probed("/link", PathProbe::Symlink)];
    let err =
        validate_local_zip_destination_path("/link", &chain, &missing("/link/a.zip")).unwrap_err();
    assert!(err
        .to_string()
        .contains("destination path component cannot be a symbolic link"));
}

#[test]
fn archives_are_not_written_below_links() {
    let chain = vec![missing("/link/dir"), probed("/link", PathProbe::Symlink)];
    let err = validate_local_zip_destination_path("/link/dir", &chain, &missing("/link/dir/a.zip"))
        .unwrap_err();
    assert!(err
        .to_string()
        .contains("destination path component cannot be a symbolic link"));
    let chain = vec![missing("/out/dir"), probed("/out", PathProbe::Directory)];
    let err = validate_local_zip_destination_path("/out/dir", &chain, &missing("/out/dir/a.zip"))
        .unwrap_err();
    assert!(err
        .to_string()
        .contains("destination directory does not exist"));
}

#[test]
fn zip_files_are_not_written_over_directories_or_links() {
    let chain = vec![probed("/out", PathProbe::Directory)];
    validate_local_zip_destination_path("/out", &chain, &missing("/out/a.zip")).unwrap();
    validate_local_zip_destination_path("/out", &chain, &probed("/out/a.zip", PathProbe::Other))
        .unwrap();
    for (probe, reason) in [
        (PathProbe::Symlink, "destination ZIP cannot be a symbolic link"),
        (PathProbe::Directory, "destination ZIP path is a directory"),
        (
            PathProbe::Failed("denied".to_string()),
            "cannot inspect destination ZIP: denied",
        ),
    ] {
        let err =
            validate_local_zip_destination_path("/out", &chain, &probed("/out/a.zip", probe))
                .unwrap_err();
        assert!(err.to_string().contains(reason));
    }
}

#[test]
fn destinations_are_no_links() {
    let err = check_destination_root(&probed("/out", PathProbe::Symlink)).unwrap_err();
    assert!(err
        .to_string()
        .contains("destination directory cannot be a symbolic link"));
    assert_eq!(
        check_destination_root(&probed("/out", PathProbe::Directory)).unwrap(),
        Presence::Present
    );
    assert_eq!(
        check_destination_root(&missing("/out")).unwrap(),
        Presence::Missing
    );
    assert!(check_destination_root(&probed("/out", PathProbe::Other)).is_err());
    assert!(reject_existing_symlink_or_directory(&probed("/out/a", PathProbe::Symlink)).is_err());
    reject_existing_symlink_or_directory(&missing("/out/a")).unwrap();
}

#[test]
fn missing_destinations_lie_below_no_link() {
    let above = vec![missing("/link/a"), probed("/link", PathProbe::Symlink)];
    let err = find_existing_parent(&above).unwrap_err();
    assert!(err
        .to_string()
        .contains("destination path component cannot be a symbolic link"));
    let above = vec![missing("/out/a"), probed("/out", PathProbe::Directory)];
    assert_eq!(find_existing_parent(&above).unwrap(), Some(1));
    assert_eq!(find_existing_parent(&vec![missing("a")]).unwrap(), None);
}

#[test]
fn existing_destinations_lie_below_no_link() {
    let chain = vec![
        probed("/link/out", PathProbe::Directory),
        probed("/link", PathProbe::Symlink),
    ];
    let err = validate_existing_directory_chain(&chain).unwrap_err();
    assert!(err
        .to_string()
        .contains("destination path component cannot be a symbolic link"));
    let chain = vec![
        probed("/tmp/out", PathProbe::Directory),
        probed("/tmp", PathProbe::AliasSymlink),
    ];
    validate_existing_directory_chain(&chain).unwrap();
}

#[test]
fn directories_may_be_made_by_somebody_else() {
    assert_eq!(
        check_directory_component(&missing("/out/a")).unwrap(),
        Presence::Missing
    );
    check_raced_component(&probed("/out/a", PathProbe::Directory)).unwrap();
    let err = check_raced_component(&missing("/out/a")).unwrap_err();
    assert!(err
        .to_string()
        .contains("cannot inspect destination path component after create race: not found"));
}

#[test]
fn the_source_archive_is_named_in_its_error() {
    let err = source_archive_error("site.zip", "/out/site.zip", "/out/site.zip");
    assert!(err
        .to_string()
        .contains("ZIP entry `site.zip` would overwrite the source archive /out/site.zip"));
}

#[test]
fn cases_are_probed_at_the_nearest_directory() {
    let above = vec![missing("/out/a"), probed("/out", PathProbe::Directory)];
    assert_eq!(
        existing_case_probe_root(&missing("/out/a/b"), &above).unwrap(),
        CaseProbeRoot::Above(1)
    );
    assert_eq!(
        existing_case_probe_root(&probed("/out", PathProbe::Directory), &above).unwrap(),
        CaseProbeRoot::Destination
    );
    assert!(existing_case_probe_root(&probed("/out", PathProbe::Symlink), &above).is_err());
}

#[test]
fn cases_are_probed_at_the_current_directory_last() {
    assert_eq!(
        existing_case_probe_root(&missing("missing"), &Vec::new()).unwrap(),
        CaseProbeRoot::Current
    );
}

#[test]
fn names_change_the_case_of_ascii_letters() {
    assert_eq!(alternate_case_name("aB1\u{e4}"), Some("Ab1\u{e4}".to_string()));
    assert_eq!(alternate_case_name("1\u{e4}_"), None);
}

#[test]
fn file_systems_are_told_apart_by_their_type() {
    assert_eq!(linux_case_insensitive(true, None), Some(true));
    assert_eq!(linux_case_insensitive(false, Some(0xef53)), Some(false));
    assert_eq!(linux_case_insensitive(false, Some(0x4d44)), Some(true));
    assert_eq!(linux_case_insensitive(false, Some(1)), None);
    assert_eq!(linux_case_insensitive(false, None), None);
}

#[test]
fn entries_are_written_in_the_order_of_their_paths() {
    let entries = ["b", "a/c", "a", "\u{e4}", "a/", "Z", "a/b"]
        .iter()
        .map(|path| file(path, 1))
        .collect();
    let sorted: Vec<String> = finish_upload_entries(entries)
        .into_iter()
        .map(|entry| entry.zip_path)
        .collect();
    let mut expected = sorted.clone();
    expected.sort();
    assert_eq!(sorted, expected);
    assert_eq!(sorted, ["Z", "a", "a/", "a/b", "a/c", "b", "\u{e4}"]);
}

#[test]
fn listed_prefixes_become_entries() {
    let mut collection = PrefixCollection::new();
    collection
        .add_page(
            &source(),
            None,
            vec![
                listed(Some("source/"), Some(0)),
                listed(Some("source/dir/"), Some(0)),
            ],
        )
        .unwrap();
    collection
        .add_page(&source(), None, vec![listed(Some("source/a.txt"), Some(5))])
        .unwrap();

    for (object, message) in [
        (listed(None, Some(1)), "listed object did not include a key"),
        (
            listed(Some("source/b"), None),
            "listed object did not include a size",
        ),
        (
            listed(Some("source/b"), Some(-3)),
            "listed object had negative size -3",
        ),
        (listed(Some("source/a.txt"), Some(1)), "duplicate"),
    ] {
        let err = collection
            .add_page(&source(), None, vec![object])
            .unwrap_err();
        assert!(err.to_string().contains(message), "{}", err.to_string());
    }

    let entries = collection.finish();
    assert_eq!(entries.len(), 2);
    assert_eq!(entries[0].zip_path, "a.txt");
    assert_eq!(entries[1].zip_path, "dir/");
    let totals = upload_totals(&entries).unwrap();
    assert_eq!(totals.files, 1);
    assert_eq!(totals.directories, 1);
    assert_eq!(totals.entries, 2);
    assert_eq!(totals.uncompressed_bytes, 5);
}

#[test]
fn listings_go_on_while_they_are_truncated() {
    assert_eq!(next_list_page(&source(), None, None).unwrap(), None);
    assert_eq!(
        next_list_page(&source(), Some(false), Some("t".to_string())).unwrap(),
        None
    );
    assert_eq!(
        next_list_page(&source(), Some(true), Some("t".to_string())).unwrap(),
        Some("t".to_string())
    );
    let err = next_list_page(&source(), Some(true), None).unwrap_err();
    assert!(err
        .to_string()
        .contains("response was truncated without a continuation token"));
}

#[test]
fn destination_listings_keep_the_latest_object() {
    let mut listing = DestinationListing::new();
    add_destination_page(
        &mut listing,
        vec![
            listed(Some("a"), Some(5)),
            listed(None, Some(5)),
            listed(Some("b"), Some(-1)),
            listed(Some("a"), Some(6)),
        ],
    );
    assert_eq!(listing.len(), 2);
    assert_eq!(listing.get("a").unwrap().size, Some(6));
    assert_eq!(listing.get("b").unwrap().size, None);
    assert!(listing.get("c").is_none());
}

#[test]
fn sources_need_a_length() {
    let object = S3Object::parse("s3://bucket/a.zip").unwrap();
    let head = source_head(&object, Some(7), Some("\"e\"".to_string())).unwrap();
    assert_eq!(head.len, 7);
    assert_eq!(head.etag.as_deref(), Some("\"e\""));
    let err = source_head(&object, None, None).unwrap_err();
    assert_eq!(
        err.to_string(),
        "S3 HeadObject failed for s3://bucket/a.zip: missing content length"
    );
    let err = source_head(&object, Some(i64::MIN), None).unwrap_err();
    assert!(err
        .to_string()
        .contains("negative content length -9223372036854775808"));
}

#[test]
fn streams_are_cut_into_parts_of_the_fixed_size() {
    let chunk = vec![3_u8; 10 * 1024 * 1024];
    let mut stream = PartStream::new(chunk.len());
    let mut numbers = Vec::new();
    for _ in 0..4 {
        stream.push(&chunk);
        while stream.is_ready() {
            let (number, bytes) = stream.take_ready().unwrap().unwrap();
            assert_eq!(part_content_length(&bytes).unwrap(), 16 * 1024 * 1024);
            numbers.push(number);
        }
    }
    assert_eq!(stream.zip_bytes(), 40 * 1024 * 1024);
    let (number, bytes) = stream.finish().unwrap().unwrap();
    assert_eq!(bytes.len(), 8 * 1024 * 1024);
    assert!(bytes.iter().all(|byte| *byte == 3));
    numbers.push(number);
    assert_eq!(numbers, [1, 2, 3]);
}

#[test]
fn failed_aborts_keep_the_first_error() {
    let err = attach_abort_error(
        Error::Build("first".to_string()),
        Error::Build("second".to_string()),
    );
    let text = err.to_string();
    assert!(text.contains("first"));
    assert!(text.contains("additionally failed to abort multipart upload"));
    assert!(text.contains("second"));
}

#[test]
fn large_files_report_their_progress() {
    let step = UPLOAD_PROGRESS_BYTE_GRANULARITY;
    let entries = vec![file("large.bin", 3 * step)];
    let totals = upload_totals(&entries).unwrap();
    assert_eq!(
        upload_planned(&totals),
        UploadProgress::Planned {
            total_files: 1,
            total_bytes: 3 * step
        }
    );
    let run = ArchiveRun::new(&totals, false);
    let mut written = run.start_content(&entries[0]);
    let chunk = vec![0_u8; step as usize / 2 + 1];
    assert!(written.has_room_for(chunk.len()));
    assert_eq!(written.push(&chunk), None);
    assert_eq!(
        written.push(&chunk),
        Some(UploadProgress::FileProgress {
            current_file: 1,
            total_files: 1,
            processed_files: 0,
            processed_bytes: step + 2,
            total_bytes: 3 * step,
            path: "large.bin".to_string(),
        })
    );
    assert_eq!(written.push(&[0]), None);
    assert_eq!(
        upload_finished(&totals),
        UploadProgress::Finished {
            total_files: 1,
            total_bytes: 3 * step
        }
    );
}

#[test]
fn object_bodies_must_have_their_listed_length() {
    let object = UploadEntry {
        zip_path: "a".to_string(),
        size: 5,
        source: UploadEntrySource::S3Object {
            bucket: "bucket".to_string(),
            key: "source/a".to_string(),
            etag: None,
        },
    };
    let totals = upload_totals(&vec![file("a", 5)]).unwrap();
    let run = ArchiveRun::new(&totals, true);
    let mut written = run.start_content(&object);
    written.push(b"alph");
    let err = written.finish(&object).unwrap_err();
    assert!(err
        .to_string()
        .contains("object body returned 4 bytes but listing declared 5 bytes"));
    let mut written = run.start_content(&object);
    written.push(b"alpha");
    assert_eq!(
        written.finish(&object).unwrap(),
        (5, Some("2c1743a391305fbf367df8e4f069f9f9".to_string()))
    );
    let directory = UploadEntry {
        source: UploadEntrySource::Directory,
        ..object
    };
    let err = run.start_content(&directory).finish(&directory).unwrap_err();
    assert!(err.to_string().contains("reached file writer"));
}

#[test]
fn reports_repeat_the_totals() {
    let totals = upload_totals(&vec![file("a", 5), file("b", 6)]).unwrap();
    let destination = S3Object::parse("s3://bucket/a.zip").unwrap();
    let report = upload_report("/root".to_string(), destination, &totals, 77);
    assert_eq!(report.files, 2);
    assert_eq!(report.uncompressed_bytes, 11);
    assert_eq!(report.zip_bytes, 77);
    let report = local_zip_report("/root".to_string(), "/a.zip".to_string(), &totals, 78, true);
    assert_eq!(report.entries, 2);
    assert!(report.include_catalog);
    let report = zip_dry_run_report("/root".to_string(), "/a.zip".to_string(), &totals, false);
    assert_eq!(report.directories, 0);
    assert!(!report.include_catalog);
}

#[test]
fn complete_files_replace_plain_files_only() {
    let found = |probe| check_replaced_file(&probed("/out/a", probe), "completed file");
    assert!(found(PathProbe::Other).unwrap());
    assert!(!found(PathProbe::NotFound("gone".to_string())).unwrap());
    for (probe, reason) in [
        (
            PathProbe::Symlink,
            "completed file destination cannot be a symbolic link",
        ),
        (
            PathProbe::Directory,
            "completed file destination is a directory",
        ),
        (
            PathProbe::Failed("denied".to_string()),
            "cannot inspect existing destination before moving completed file: denied",
        ),
    ] {
        let err = found(probe).unwrap_err();
        assert!(err.to_string().contains(reason));
    }
}

fn found(collection: &mut DirectoryCollection, names: &[&str], kind: SourceKind, size: u64) {
    let file = PathBuf::from(names.join("/"));
    collection.add_child(path(names), kind, size, file).unwrap();
}

/// Looks through `root` with `a.txt`, `docs/guide/b.txt`, `docs/c.txt` and the
/// empty directories `docs/drafts` and `empty`.
fn walk(root: &str) -> Vec<UploadEntry> {
    let mut collection = DirectoryCollection::new(path(&[root]), PathBuf::from(root), None);
    let mut read = Vec::new();
    while let Some(directory) = collection.next_directory() {
        let shown = directory.display().to_string();
        let below = shown.strip_prefix(root).unwrap();
        match below {
            "" => {
                found(&mut collection, &[root, "docs"], SourceKind::Directory, 0);
                found(&mut collection, &[root, "a.txt"], SourceKind::File, 1);
                found(&mut collection, &[root, "empty"], SourceKind::Directory, 0);
            }
            "/docs" => {
                found(&mut collection, &[root, "docs", "drafts"], SourceKind::Directory, 0);
                found(&mut collection, &[root, "docs", "guide"], SourceKind::Directory, 0);
                found(&mut collection, &[root, "docs", "c.txt"], SourceKind::File, 3);
            }
            "/docs/guide" => {
                found(&mut collection, &[root, "docs", "guide", "b.txt"], SourceKind::File, 2);
            }
            _ => {}
        }
        read.push(below.to_string());
        collection.finish_directory().unwrap();
    }
    assert_eq!(read, vec!["", "/empty", "/docs", "/docs/guide", "/docs/drafts"]);
    collection.finish()
}

#[test]
fn directories_are_looked_through_once() {
    let entries = walk("root");
    let paths: Vec<&str> = entries.iter().map(|entry| entry.zip_path.as_str()).collect();
    assert_eq!(
        paths,
        vec!["a.txt", "docs/c.txt", "docs/drafts/", "docs/guide/b.txt", "empty/"]
    );
    let totals = upload_totals(&entries).unwrap();
    assert_eq!((totals.files, totals.directories), (3, 2));
    assert_eq!(totals.uncompressed_bytes, 6);
    match &entries[1].source {
        UploadEntrySource::LocalFile(file) => assert_eq!(file, &PathBuf::from("root/docs/c.txt")),
        source => panic!("{source:?}"),
    }
}

#[test]
fn directory_collections_refuse_what_cannot_be_zipped() {
    let start = || DirectoryCollection::new(path(&["root"]), PathBuf::from("root"), Some(5));
    let mut collection = start();
    collection.next_directory().unwrap();
    let child = path(&["root", "x"]);
    let err = collection
        .add_child(child, SourceKind::Symlink, 0, PathBuf::from("x"))
        .unwrap_err();
    assert!(err.to_string().contains("symbolic links are not supported"));

    let mut collection = start();
    collection.next_directory().unwrap();
    let child = path(&["root", "x"]);
    let err = collection
        .add_child(child, SourceKind::File, 6, PathBuf::from("x"))
        .unwrap_err();
    assert!(err.to_string().contains("file is 6 bytes"));

    let mut collection = start();
    collection.next_directory().unwrap();
    found(&mut collection, &["root", "a\\b"], SourceKind::Directory, 0);
    collection.finish_directory().unwrap();
    assert!(collection.next_directory().is_some());
    let err = collection.finish_directory().unwrap_err();
    assert!(err.to_string().contains("cannot contain backslashes"));
    assert!(collection.next_directory().is_none());
    assert!(start().finish().is_empty());
}

#[test]
fn zipped_trees_extract_to_themselves() {
    let entries = walk("root");
    let mut offset = 0;
    let mut stored: Vec<StoredEntry> = Vec::new();
    let names = entries.iter().map(|entry| (entry.zip_path.clone(), entry.size));
    for (name, size) in names.chain([(EMBEDDED_CATALOG_PATH.to_string(), 9)]) {
        let header_size = 30 + name.len() as u64;
        stored.push(StoredEntry {
            name: EntryName::Utf8(name),
            header_offset: offset,
            header_size,
            uncompressed_size: size,
            compressed_size: size,
            compression: Compression::Stored,
            crc32: 0,
        });
        offset += header_size + size;
    }
    let taken =
        local_zip_entries_for_local(&stored, offset, false, &UnzipSelection::new()).unwrap();
    assert_eq!(taken.catalog_index, Some(5));
    let pairs: Vec<(String, bool)> = taken
        .entries
        .iter()
        .map(|entry| (entry.zip_path.clone(), entry.is_directory))
        .collect();
    let paths: Vec<String> = pairs.iter().map(|pair| pair.0.clone()).collect();
    let written: Vec<String> = entries.iter().map(|entry| entry.zip_path.clone()).collect();
    assert_eq!(paths, written);
    validate_local_destination_zip_paths(&paths).unwrap();
    validate_local_destination_path_collisions(&pairs, false).unwrap();
    assert_eq!(zip_path_components("docs/drafts/"), vec!["docs", "drafts"]);
    assert_eq!(zip_path_components("docs/guide/b.txt"), vec!["docs", "guide", "b.txt"]);

    for entry in &taken.entries {
        let report = if entry.is_directory {
            local_directory_report(entry, "x".to_string(), false, Ok(()))
        } else {
            let digest = s3_unspool::digest::ExtractDigest {
                bytes: entry.size,
                md5: "d41d8cd98f00b204e9800998ecf8427e".to_string(),
            };
            local_file_report(entry, "x".to_string(), false, Ok(digest))
        };
        assert_eq!(report.status, OperationStatus::UploadedNew);
    }
}

#[test]
fn extraction_makes_the_directories_of_an_entry() {
    assert_eq!(local_path_names("docs//guide/"), vec!["docs", "guide"]);
    assert_eq!(local_path_names("b.txt"), vec!["b.txt"]);
    assert_eq!(entry_directory_names("docs/guide/b.txt", false), vec!["docs", "guide"]);
    assert_eq!(entry_directory_names("docs/drafts/", true), vec!["docs", "drafts"]);
    assert!(entry_directory_names("b.txt", false).is_empty());
    assert!(entry_directory_names("", false).is_empty());
}

fn read_back(content: &[u8], size: u64, crc32: u32, chunk: usize) -> (Vec<u8>, Option<String>) {
    let mut check = EntryCheck::new("a", size, crc32);
    let mut passed = Vec::new();
    for part in content.chunks(chunk) {
        match check.push_checked(part) {
            Ok(released) => passed.extend(released),
            Err(_) => return (passed, None),
        }
    }
    match check.finish() {
        Ok((rest, digest)) => {
            passed.extend(rest);
            (passed, Some(digest.md5))
        }
        Err(_) => (passed, None),
    }
}

#[test]
fn zipped_content_comes_back() {
    let entries = vec![file("a", 11)];
    let totals = upload_totals(&entries).unwrap();
    let run = ArchiveRun::new(&totals, true);
    let mut content = run.start_content(&entries[0]);
    let mut checksum = crc32fast::Hasher::new();
    for part in [&b"hello"[..], &b" "[..], &b"world"[..]] {
        assert!(content.has_room_for(part.len()));
        content.push(part);
        checksum.update(part);
    }
    let (bytes, md5) = content.finish(&entries[0]).unwrap();
    assert_eq!(bytes, 11);
    assert_eq!(md5.as_deref(), Some("5eb63bbbe01eeed093cb22bb8f5acdc3"));
    let crc32 = checksum.finalize();
    for chunk in [1, 4, 11, 64] {
        let (passed, digest) = read_back(b"hello world", bytes, crc32, chunk);
        assert_eq!(passed, b"hello world");
        assert_eq!(digest, md5);
    }
    for (wrong, size) in [(&b"hello"[..], 11), (&b"hello w0rld"[..], 11), (&b"hello world"[..], 4)]
    {
        let (passed, digest) = read_back(wrong, size, crc32, 2);
        assert_eq!(digest, None);
        assert!((passed.len() as u64) < size);
        assert!(wrong.starts_with(&passed));
    }
}

#[test]
fn streamed_content_never_exceeds_its_size() {
    let mut check = EntryCheck::new("a", 4, 0);
    let (first, result) = check.push_streamed(b"abcd");
    assert!(first.is_empty());
    result.unwrap();
    let (second, result) = check.push_streamed(b"e");
    assert_eq!(second, b"abcd");
    assert!(result.is_err());
}

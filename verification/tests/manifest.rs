use async_zip::Compression as ZipMethod;
use bytes::Bytes;
use futures_lite::future::block_on;
use futures_lite::io::AsyncReadExt;
use s3_unspool::block_reader::{BlockRangeReader, ReadStep};
use s3_unspool::block_store::BlockStore;
use s3_unspool::catalog::{
    catalog_bytes_accepted, catalog_md5_by_path, catalog_sizes_allowed, EmbeddedCatalog,
    EmbeddedCatalogEntry,
};
use s3_unspool::compression::Compression;
use s3_unspool::constants::{EMBEDDED_CATALOG_MAX_BYTES, EMBEDDED_CATALOG_VERSION};
use s3_unspool::diagnostics::SourceDiagnosticsCollector;
use s3_unspool::entry_reader::{
    check_header_span, check_local_data, check_local_name, parse_local_header, EntryDecoding,
};
use s3_unspool::finish::zip_info;
use s3_unspool::local_destination::{
    validate_local_destination_path_collisions, validate_local_destination_zip_paths,
};
use s3_unspool::local_zip::{local_zip_entries_for_local, local_zip_entries_for_s3};
use s3_unspool::source_plan::plan_source_blocks;
use s3_unspool::zip_manifest::{
    apply_embedded_catalog, build_manifest_entries, build_manifest_entries_with_selection,
    build_manifest_entries_with_size_limit, count_zip_file_entries, validate_crc32_value,
    EntryName, ManifestBuild, ManifestEntry, StoredEntry,
};
use s3_unspool::{Error, Result, S3Prefix, UnzipSelection, EMBEDDED_CATALOG_PATH};

fn test_zip(entries: &[(&str, ZipMethod, &[u8])]) -> Vec<u8> {
    block_on(async {
        let mut writer = async_zip::base::write::ZipFileWriter::new(Vec::new());
        for (path, compression, data) in entries {
            let entry = async_zip::ZipEntryBuilder::new((*path).to_string().into(), *compression);
            writer.write_entry_whole(entry, data).await.unwrap();
        }
        writer.close().await.unwrap()
    })
}

fn method(compression: ZipMethod) -> Compression {
    match compression {
        ZipMethod::Stored => Compression::Stored,
        ZipMethod::Deflate => Compression::Deflate,
        _ => panic!("method is not used here"),
    }
}

fn stored_entries(data: Vec<u8>) -> Vec<StoredEntry> {
    let reader = block_on(async_zip::base::read::mem::ZipFileReader::new(data)).unwrap();
    reader
        .file()
        .entries()
        .iter()
        .map(|entry| StoredEntry {
            name: match entry.filename().as_str() {
                Ok(name) => EntryName::Utf8(name.to_string()),
                Err(err) => EntryName::NotUtf8 {
                    shown: format!("{:?}", entry.filename().as_bytes()),
                    reason: err.to_string(),
                },
            },
            header_offset: entry.header_offset(),
            header_size: entry.header_size(),
            uncompressed_size: entry.uncompressed_size(),
            compressed_size: entry.compressed_size(),
            compression: method(entry.compression()),
            crc32: entry.crc32(),
        })
        .collect()
}

fn destination() -> S3Prefix {
    S3Prefix::parse("s3://bucket/prefix/").unwrap()
}

fn set_central_field(mut data: Vec<u8>, path: &str, field: usize, value: u32) -> Vec<u8> {
    let mut index = 0;
    while index + 46 <= data.len() {
        if data[index..index + 4] == [0x50, 0x4b, 0x01, 0x02] {
            let name_len = u16::from_le_bytes([data[index + 28], data[index + 29]]) as usize;
            let extra_len = u16::from_le_bytes([data[index + 30], data[index + 31]]) as usize;
            let comment_len = u16::from_le_bytes([data[index + 32], data[index + 33]]) as usize;
            let name_start = index + 46;
            let name_end = name_start + name_len;
            if name_end <= data.len() && &data[name_start..name_end] == path.as_bytes() {
                data[index + field..index + field + 4].copy_from_slice(&value.to_le_bytes());
                return data;
            }
            index = name_end + extra_len + comment_len;
        } else {
            index += 1;
        }
    }
    panic!("central directory entry for {path} not found");
}

fn first_local_header(data: &[u8]) -> usize {
    data.windows(4)
        .position(|window| window == [0x50, 0x4b, 0x03, 0x04])
        .expect("test fixture should contain a local file header")
}

struct Source {
    store: BlockStore,
    diagnostics: SourceDiagnosticsCollector,
}

fn block_store_from_zip(data: &[u8], entries: &Vec<ManifestEntry>) -> Source {
    let len = data.len() as u64;
    let plan = plan_source_blocks(entries, len, len.max(1) as usize, 0);
    let mut diagnostics = SourceDiagnosticsCollector::new(len);
    let mut store = BlockStore::new(plan, len as usize, &mut diagnostics);
    for entry in entries {
        store.retain_entry(entry);
    }
    for index in 0..store.block_count() {
        let range = store.block_range(index).unwrap();
        let bytes = Bytes::copy_from_slice(&data[range.start as usize..range.end as usize + 1]);
        store.finish_fetch(index, Ok(bytes), &mut diagnostics);
    }
    Source { store, diagnostics }
}

fn read_span(source: &mut Source, start: u64, end: u64) -> Vec<u8> {
    let mut reader = BlockRangeReader::new(&mut source.store, start, end).unwrap();
    let mut bytes = Vec::new();
    loop {
        match reader.read(&mut source.store, 3, &mut source.diagnostics).0 {
            ReadStep::Data(data) if data.is_empty() => break,
            ReadStep::Data(data) => bytes.extend_from_slice(&data),
            _ => panic!("all blocks are ready"),
        }
    }
    reader.finish(&mut source.store, &mut source.diagnostics);
    bytes
}

/// Reads the compressed content of an entry the way an extraction does.
fn entry_content(source: &mut Source, entry: &ManifestEntry) -> Result<(EntryDecoding, Vec<u8>)> {
    check_header_span(entry)?;
    let span = read_span(source, entry.source_offset, entry.source_span_end);
    let header = parse_local_header(entry, &span[..30])?;
    let name_end = 30 + header.file_name_len as usize;
    check_local_name(entry, &span[30..name_end])?;
    let data = (header.data_offset - entry.source_offset) as usize;
    let decoding = check_local_data(entry, header)?;
    Ok((
        decoding,
        span[data..data + entry.compressed_size as usize].to_vec(),
    ))
}

#[test]
fn builds_manifest_from_stored_and_deflated_entries() {
    let data = test_zip(&[
        ("a.txt", ZipMethod::Stored, b"alpha".as_slice()),
        ("nested/b.txt", ZipMethod::Deflate, b"bravo".as_slice()),
        ("nested/", ZipMethod::Stored, b"".as_slice()),
    ]);
    let source_len = data.len() as u64;
    let stored = stored_entries(data);

    let manifest = build_manifest_entries(&stored, &destination(), source_len).unwrap();
    let catalog = EmbeddedCatalog {
        version: EMBEDDED_CATALOG_VERSION,
        entries: vec![EmbeddedCatalogEntry {
            path: "a.txt".to_string(),
            md5: "\"2C1743A391305FBF367DF8E4F069F9F9\"".to_string(),
        }],
    };
    let manifest = ManifestBuild {
        entries: apply_embedded_catalog(manifest.entries, catalog_md5_by_path(catalog)),
        catalog_index: manifest.catalog_index,
    };

    assert_eq!(manifest.entries.len(), 3);
    assert_eq!(manifest.entries[0].zip_path, "a.txt");
    assert_eq!(manifest.entries[0].key, "prefix/a.txt");
    assert_eq!(manifest.entries[0].size, 5);
    assert!(!manifest.entries[0].is_directory);
    assert_eq!(
        manifest.entries[0].catalog_md5.as_deref(),
        Some("2c1743a391305fbf367df8e4f069f9f9")
    );
    assert_eq!(manifest.entries[1].zip_path, "nested/b.txt");
    assert_eq!(manifest.entries[1].key, "prefix/nested/b.txt");
    assert_eq!(manifest.entries[1].size, 5);
    assert!(!manifest.entries[1].is_directory);
    assert_eq!(manifest.entries[1].catalog_md5, None);
    assert_eq!(manifest.entries[2].zip_path, "nested/");
    assert_eq!(manifest.entries[2].key, "prefix/nested/");
    assert_eq!(manifest.entries[2].size, 0);
    assert_eq!(
        manifest.entries[2].source_span_start,
        manifest.entries[2].source_span_end
    );
    assert!(manifest.entries[2].is_directory);

    assert_eq!(
        manifest.entries[0].source_span_start,
        stored[0].header_offset
    );
    assert_eq!(manifest.entries[0].source_span_end, stored[1].header_offset);
    assert_eq!(
        manifest.entries[1].source_span_start,
        stored[1].header_offset
    );
    assert_eq!(manifest.entries[1].source_span_end, stored[2].header_offset);
    assert!(manifest.entries[0].source_span_start < manifest.entries[0].source_span_end);
    assert!(manifest.entries[1].source_span_start < manifest.entries[1].source_span_end);
}

#[test]
fn manifest_rejects_directory_entries_with_nonzero_crc() {
    let data = test_zip(&[("nested/", ZipMethod::Stored, b"".as_slice())]);
    let data = set_central_field(data, "nested/", 16, 1);
    let source_len = data.len() as u64;

    let err =
        build_manifest_entries(&stored_entries(data), &destination(), source_len).unwrap_err();

    assert!(matches!(
        err,
        Error::InvalidZipEntry { ref path, ref reason }
            if path == "nested/" && reason.contains("zero CRC32")
    ));
}

#[test]
fn manifest_size_limit_can_be_disabled_for_local_unzip() {
    let data = test_zip(&[("large.txt", ZipMethod::Stored, b"alpha".as_slice())]);
    let source_len = data.len() as u64;
    let stored = stored_entries(data);

    let err =
        build_manifest_entries_with_size_limit(&stored, &destination(), source_len, Some(4))
            .unwrap_err();
    assert!(
        matches!(err, Error::EntryTooLarge { ref path, size } if path == "large.txt" && size == 5)
    );

    let manifest =
        build_manifest_entries_with_size_limit(&stored, &destination(), source_len, None).unwrap();

    assert_eq!(manifest.entries.len(), 1);
    assert_eq!(manifest.entries[0].zip_path, "large.txt");
    assert_eq!(manifest.entries[0].size, 5);
}

#[test]
fn manifest_selection_skips_unselected_size_limit_failures() {
    let data = test_zip(&[
        ("selected.txt", ZipMethod::Stored, b"ok".as_slice()),
        ("large.txt", ZipMethod::Stored, b"alpha".as_slice()),
    ]);
    let source_len = data.len() as u64;

    let manifest = build_manifest_entries_with_selection(
        &stored_entries(data),
        &destination(),
        source_len,
        Some(4),
        &UnzipSelection::new().including("selected.txt"),
    )
    .unwrap();

    assert_eq!(manifest.entries.len(), 1);
    assert_eq!(manifest.entries[0].zip_path, "selected.txt");
}

#[test]
fn manifest_uses_payload_end_as_last_entry_span_end() {
    let data = test_zip(&[("last.txt", ZipMethod::Stored, b"alpha".as_slice())]);
    let source_len = data.len() as u64;
    let stored = stored_entries(data);

    let manifest = build_manifest_entries(&stored, &destination(), source_len).unwrap();

    assert_eq!(manifest.entries.len(), 1);
    assert_eq!(
        manifest.entries[0].source_span_end,
        stored[0].header_offset + stored[0].header_size + stored[0].compressed_size
    );
    assert!(manifest.entries[0].source_span_end < source_len);
}

#[test]
fn manifest_rejects_header_offsets_outside_source_length() {
    let data = test_zip(&[
        ("a.txt", ZipMethod::Stored, b"alpha".as_slice()),
        ("b.txt", ZipMethod::Stored, b"bravo".as_slice()),
    ]);
    let stored = stored_entries(data);
    let truncated_source_len = stored[1].header_offset;

    let err = build_manifest_entries(&stored, &destination(), truncated_source_len).unwrap_err();

    assert!(matches!(
        err,
        Error::InvalidZipEntry { ref path, ref reason }
            if path == "b.txt" && reason.contains("outside source ZIP length")
    ));
}

#[test]
fn counts_zip_files_excluding_directories_and_embedded_catalog() {
    let data = test_zip(&[
        ("a.txt", ZipMethod::Stored, b"alpha".as_slice()),
        ("nested/b.txt", ZipMethod::Deflate, b"bravo".as_slice()),
        ("nested/", ZipMethod::Stored, b"".as_slice()),
        (
            EMBEDDED_CATALOG_PATH,
            ZipMethod::Stored,
            br#"{"version":1,"entries":[]}"#.as_slice(),
        ),
    ]);
    let size = data.len() as u64;
    let stored = stored_entries(data);

    assert_eq!(count_zip_file_entries(&stored).unwrap(), 2);
    let info = zip_info(size, &stored).unwrap();
    assert_eq!(info.size, size);
    assert_eq!(info.file_count, 2);
}

#[test]
fn entry_reader_streams_stored_and_deflated_entries_from_cached_ranges() {
    let data = test_zip(&[
        ("a.txt", ZipMethod::Stored, b"alpha".as_slice()),
        ("nested/b.txt", ZipMethod::Deflate, b"bravo".as_slice()),
    ]);
    let source_len = data.len() as u64;
    let stored = stored_entries(data.clone());
    let manifest = build_manifest_entries(&stored, &destination(), source_len).unwrap();
    let mut source = block_store_from_zip(&data, &manifest.entries);

    let (decoding, content) = entry_content(&mut source, &manifest.entries[0]).unwrap();
    assert_eq!(decoding, EntryDecoding::Stored);
    assert_eq!(content, b"alpha");

    let (decoding, content) = entry_content(&mut source, &manifest.entries[1]).unwrap();
    assert_eq!(decoding, EntryDecoding::Deflate);
    let inflated = block_on(async {
        let reader = async_zip::base::read::mem::ZipFileReader::new(data).await.unwrap();
        let mut entry = reader.reader_with_entry(1).await.unwrap();
        let mut inflated = Vec::new();
        entry.read_to_end(&mut inflated).await.unwrap();
        inflated
    });
    assert_eq!(inflated, b"bravo");
    assert_eq!(content.len() as u64, stored[1].compressed_size);
    assert_eq!(source.diagnostics.snapshot().block_misses, 0);
}

#[test]
fn entry_reader_rejects_local_header_name_mismatch() {
    let mut data = test_zip(&[("a.txt", ZipMethod::Stored, b"alpha".as_slice())]);
    let index = first_local_header(&data);
    data[index + 30..index + 35].copy_from_slice(b"b.txt");
    let source_len = data.len() as u64;
    let manifest =
        build_manifest_entries(&stored_entries(data.clone()), &destination(), source_len).unwrap();
    let mut source = block_store_from_zip(&data, &manifest.entries);

    let err = entry_content(&mut source, &manifest.entries[0]).unwrap_err();

    assert!(err.to_string().contains("local file name"));
}

#[test]
fn entry_reader_rejects_local_header_lengths_outside_source_span() {
    let data = test_zip(&[("a.txt", ZipMethod::Stored, b"alpha".as_slice())]);
    let source_len = data.len() as u64;
    let mut manifest =
        build_manifest_entries(&stored_entries(data.clone()), &destination(), source_len).unwrap();
    manifest.entries[0].source_span_end = manifest.entries[0].source_offset + 30;
    let mut source = block_store_from_zip(&data, &manifest.entries);

    let err = entry_content(&mut source, &manifest.entries[0]).unwrap_err();

    assert!(matches!(
        err,
        Error::InvalidZipEntry { ref path, ref reason }
            if path == "a.txt" && reason.contains("name or extra field")
    ));
}

#[test]
fn entry_reader_rejects_encrypted_local_header() {
    let mut data = test_zip(&[("a.txt", ZipMethod::Stored, b"alpha".as_slice())]);
    let index = first_local_header(&data);
    data[index + 6..index + 8].copy_from_slice(&1_u16.to_le_bytes());
    let source_len = data.len() as u64;
    let manifest =
        build_manifest_entries(&stored_entries(data.clone()), &destination(), source_len).unwrap();
    let mut source = block_store_from_zip(&data, &manifest.entries);

    let err = entry_content(&mut source, &manifest.entries[0]).unwrap_err();

    assert!(matches!(
        err,
        Error::InvalidZipEntry { ref path, ref reason }
            if path == "a.txt" && reason.contains("encrypted ZIP entries")
    ));
}

#[test]
fn manifest_ignores_embedded_catalog_entry() {
    let data = test_zip(&[
        ("a.txt", ZipMethod::Stored, b"alpha".as_slice()),
        (
            EMBEDDED_CATALOG_PATH,
            ZipMethod::Deflate,
            br#"{"version":1,"entries":[]}"#.as_slice(),
        ),
    ]);
    let source_len = data.len() as u64;

    let manifest =
        build_manifest_entries(&stored_entries(data), &destination(), source_len).unwrap();

    assert_eq!(manifest.entries.len(), 1);
    assert_eq!(manifest.entries[0].zip_path, "a.txt");
    assert_eq!(manifest.catalog_index, Some(1));
}

#[test]
fn embedded_catalog_loads_normalized_md5_values() {
    let catalog = EmbeddedCatalog {
        version: 1,
        entries: vec![EmbeddedCatalogEntry {
            path: "a.txt".to_string(),
            md5: "\"2C1743A391305FBF367DF8E4F069F9F9\"".to_string(),
        }],
    };

    let catalog = catalog_md5_by_path(catalog);

    assert_eq!(
        catalog.get("a.txt").map(String::as_str),
        Some("2c1743a391305fbf367df8e4f069f9f9")
    );
}

#[test]
fn catalogs_need_their_checksum() {
    assert!(catalog_bytes_accepted(10, 7, 7));
    assert!(!catalog_bytes_accepted(10, 7, 8));
}

#[test]
fn large_catalogs_are_not_read() {
    assert!(catalog_sizes_allowed(EMBEDDED_CATALOG_MAX_BYTES, 5));
    assert!(!catalog_sizes_allowed(EMBEDDED_CATALOG_MAX_BYTES + 1, 5));
    assert!(!catalog_bytes_accepted(EMBEDDED_CATALOG_MAX_BYTES + 1, 7, 7));
}

#[test]
fn large_compressed_catalogs_are_not_read() {
    assert!(!catalog_sizes_allowed(5, EMBEDDED_CATALOG_MAX_BYTES + 1));
}

#[test]
fn catalogs_of_other_versions_and_unusable_lines_are_ignored() {
    let line = |path: &str, md5: &str| EmbeddedCatalogEntry {
        path: path.to_string(),
        md5: md5.to_string(),
    };
    let good = "2c1743a391305fbf367df8e4f069f9f9";
    let other = EmbeddedCatalog {
        version: 2,
        entries: vec![line("a.txt", good)],
    };
    assert_eq!(catalog_md5_by_path(other).len(), 0);

    let mixed = EmbeddedCatalog {
        version: 1,
        entries: vec![
            line("../a.txt", good),
            line("dir/", good),
            line(EMBEDDED_CATALOG_PATH, good),
            line("b.txt", "not a digest"),
            line("c.txt", "d41d8cd98f00b204e9800998ecf8427e"),
            line("c.txt", good),
        ],
    };
    let digests = catalog_md5_by_path(mixed);
    assert_eq!(digests.len(), 1);
    assert_eq!(digests.get("c.txt").map(String::as_str), Some(good));
}

#[test]
fn empty_catalog_leaves_manifest_entries_without_md5() {
    let entry = ManifestEntry {
        source_offset: 0,
        source_span_start: 0,
        source_span_end: 10,
        zip_path: "file.txt".to_string(),
        key: "prefix/file.txt".to_string(),
        size: 10,
        compressed_size: 10,
        compression: Compression::Stored,
        crc32: 0,
        catalog_md5: None,
        is_directory: false,
    };
    let none = catalog_md5_by_path(EmbeddedCatalog {
        version: 1,
        entries: Vec::new(),
    });
    let entries = apply_embedded_catalog(vec![entry], none);

    assert_eq!(entries[0].catalog_md5, None);
}

#[test]
fn rejects_duplicate_zip_paths_in_manifest() {
    let data = test_zip(&[
        ("same.txt", ZipMethod::Stored, b"first".as_slice()),
        ("same.txt", ZipMethod::Stored, b"second".as_slice()),
    ]);
    let source_len = data.len() as u64;

    let err =
        build_manifest_entries(&stored_entries(data), &destination(), source_len).unwrap_err();

    assert!(matches!(err, Error::DuplicateZipPath(path) if path == "same.txt"));
}

#[test]
fn manifest_last_entry_span_excludes_central_directory() {
    let data = test_zip(&[
        ("a.txt", ZipMethod::Stored, b"alpha".as_slice()),
        ("b.txt", ZipMethod::Stored, b"bravo".as_slice()),
    ]);
    let source_len = data.len() as u64;
    let stored = stored_entries(data);

    let manifest = build_manifest_entries(&stored, &destination(), source_len).unwrap();
    let last = manifest.entries.last().unwrap();
    let entry = stored.last().unwrap();

    assert_eq!(
        last.source_span_end,
        entry.header_offset + entry.header_size + entry.compressed_size
    );
    assert!(last.source_span_end < source_len);
}

#[test]
fn local_zip_entries_reject_directory_crc_mismatch() {
    let data = test_zip(&[("nested/", ZipMethod::Stored, b"".as_slice())]);
    let data = set_central_field(data, "nested/", 16, 1);
    let source_len = data.len() as u64;
    let destination = S3Prefix::parse("s3://destination-bucket/prefix/").unwrap();

    let err = match local_zip_entries_for_s3(
        &stored_entries(data),
        &destination,
        source_len,
        true,
        &UnzipSelection::new(),
    ) {
        Ok(_) => panic!("directory entry with nonzero CRC should be rejected"),
        Err(err) => err,
    };

    assert!(matches!(
        err,
        Error::InvalidZipEntry { ref path, ref reason }
            if path == "nested/" && reason.contains("zero CRC32")
    ));
}

#[test]
fn local_zip_entries_keep_the_directory_order() {
    let data = test_zip(&[
        ("b.txt", ZipMethod::Stored, b"bravo".as_slice()),
        (
            EMBEDDED_CATALOG_PATH,
            ZipMethod::Stored,
            br#"{"version":1,"entries":[]}"#.as_slice(),
        ),
        ("a.txt", ZipMethod::Deflate, b"alpha".as_slice()),
    ]);
    let source_len = data.len() as u64;
    let stored = stored_entries(data);
    let entries =
        local_zip_entries_for_local(&stored, source_len, false, &UnzipSelection::new()).unwrap();
    assert_eq!(entries.catalog_index, Some(1));
    assert_eq!(entries.entries.len(), 2);
    assert_eq!(entries.entries[0].zip_path, "b.txt");
    assert_eq!(entries.entries[0].destination, "b.txt");
    assert_eq!(entries.entries[1].index, 2);

    let selected = local_zip_entries_for_local(
        &stored,
        source_len,
        false,
        &UnzipSelection::new().exclude("b.txt"),
    )
    .unwrap();
    assert_eq!(selected.entries.len(), 1);
    assert_eq!(selected.entries[0].zip_path, "a.txt");
}

#[test]
fn names_that_are_not_utf8_are_shown_in_the_error() {
    let stored = vec![StoredEntry {
        name: EntryName::NotUtf8 {
            shown: "[255]".to_string(),
            reason: "invalid utf-8".to_string(),
        },
        header_offset: 0,
        header_size: 30,
        uncompressed_size: 0,
        compressed_size: 0,
        compression: Compression::Stored,
        crc32: 0,
    }];
    let err = build_manifest_entries(&stored, &destination(), 100).unwrap_err();
    assert!(matches!(
        err,
        Error::InvalidZipEntry { ref path, ref reason }
            if path == "[255]" && reason == "invalid utf-8"
    ));
}

#[test]
fn local_names_that_are_not_utf8_are_refused() {
    let data = test_zip(&[("a.txt", ZipMethod::Stored, b"alpha".as_slice())]);
    let source_len = data.len() as u64;
    let manifest =
        build_manifest_entries(&stored_entries(data), &destination(), source_len).unwrap();
    let err = check_local_name(&manifest.entries[0], &[0xff, 0xfe]).unwrap_err();
    let text = err.to_string();
    assert!(text.contains("utf-8"), "{text}");
    check_local_name(&manifest.entries[0], b"a.txt").unwrap();
    let err = check_local_name(&manifest.entries[0], "\"q\".txt".as_bytes()).unwrap_err();
    assert!(err.to_string().contains("\\\"q\\\".txt"), "{err:?}");
}

#[test]
fn unsupported_methods_are_refused() {
    let stored = vec![StoredEntry {
        name: EntryName::Utf8("z.bin".to_string()),
        header_offset: 0,
        header_size: 35,
        uncompressed_size: 4,
        compressed_size: 4,
        compression: Compression::Lzma,
        crc32: 0,
    }];
    let err = build_manifest_entries(&stored, &destination(), 100).unwrap_err();
    assert!(err.to_string().contains("Lzma"), "{}", err.to_string());
}

#[test]
fn checksums_are_compared() {
    validate_crc32_value(5, 5).unwrap();
    let err = validate_crc32_value(5, 6).unwrap_err();
    assert!(err.to_string().contains("CRC32"));
}

/// The paths of the entries that a selection leaves to a local extraction.
fn selected_paths(entries: &[(&str, ZipMethod, &[u8])], selection: &UnzipSelection) -> Vec<String> {
    let data = test_zip(entries);
    let source_len = data.len() as u64;
    let entries =
        local_zip_entries_for_local(&stored_entries(data), source_len, false, selection).unwrap();
    entries
        .entries
        .into_iter()
        .map(|entry| entry.zip_path)
        .collect()
}

#[test]
fn local_unzip_extracts_selected_exact_path_only() {
    let paths = selected_paths(
        &[
            ("a.txt", ZipMethod::Stored, b"alpha".as_slice()),
            ("nested/b.txt", ZipMethod::Stored, b"bravo".as_slice()),
            ("nested/c.txt", ZipMethod::Stored, b"charlie".as_slice()),
        ],
        &UnzipSelection::from(vec!["nested/b.txt".to_string()]),
    );

    assert_eq!(paths, ["nested/b.txt"]);
}

#[test]
fn local_unzip_extracts_selected_prefix_only() {
    let paths = selected_paths(
        &[
            ("a.txt", ZipMethod::Stored, b"alpha".as_slice()),
            ("nested/", ZipMethod::Stored, b"".as_slice()),
            ("nested/b.txt", ZipMethod::Stored, b"bravo".as_slice()),
            ("nested/c.txt", ZipMethod::Stored, b"charlie".as_slice()),
        ],
        &UnzipSelection::from(vec!["nested/".to_string()]),
    );

    assert_eq!(paths, ["nested/", "nested/b.txt", "nested/c.txt"]);
}

#[test]
fn local_unzip_extracts_with_exclude_only_selection() {
    let paths = selected_paths(
        &[
            ("index.md", ZipMethod::Stored, b"index".as_slice()),
            ("docs/live.md", ZipMethod::Stored, b"live".as_slice()),
            ("docs/drafts/old.md", ZipMethod::Stored, b"draft".as_slice()),
        ],
        &UnzipSelection::new().exclude("docs/drafts/**"),
    );

    assert_eq!(paths, ["index.md", "docs/live.md"]);
}

#[test]
fn local_unzip_extracts_with_include_then_exclude_selection() {
    let paths = selected_paths(
        &[
            ("index.md", ZipMethod::Stored, b"index".as_slice()),
            ("docs/live.md", ZipMethod::Stored, b"live".as_slice()),
            ("docs/drafts/old.md", ZipMethod::Stored, b"draft".as_slice()),
            ("images/logo.png", ZipMethod::Stored, b"image".as_slice()),
        ],
        &UnzipSelection::new()
            .including("docs/**")
            .exclude("docs/drafts/**"),
    );

    assert_eq!(paths, ["docs/live.md"]);
}

#[test]
fn local_unzip_selection_preserves_leading_space_patterns() {
    let paths = selected_paths(
        &[
            (" #notes.md", ZipMethod::Stored, b"notes".as_slice()),
            (" !important.md", ZipMethod::Stored, b"important".as_slice()),
            ("other.md", ZipMethod::Stored, b"other".as_slice()),
        ],
        &UnzipSelection::from(vec![" #notes.md".to_string(), " !important.md".to_string()]),
    );

    assert_eq!(paths, [" #notes.md", " !important.md"]);
}

#[test]
fn local_unzip_rejects_windows_reserved_path_components() {
    let paths = selected_paths(
        &[(
            "nested/name:stream.txt",
            ZipMethod::Stored,
            b"body".as_slice(),
        )],
        &UnzipSelection::new(),
    );

    let err = validate_local_destination_zip_paths(&paths).unwrap_err();

    assert!(err.to_string().contains("unsafe local path component"));
}

#[test]
fn local_unzip_rejects_file_directory_destination_collision() {
    let paths = selected_paths(
        &[
            ("same", ZipMethod::Stored, b"file".as_slice()),
            ("same/", ZipMethod::Stored, b"".as_slice()),
        ],
        &UnzipSelection::new(),
    );
    let entries = paths.into_iter().map(|path| (path.clone(), path.ends_with('/'))).collect();

    let err = validate_local_destination_path_collisions(&entries, false).unwrap_err();

    assert!(err.to_string().contains("same local destination path"));
}

#[test]
fn local_unzip_rejects_file_parent_destination_collision() {
    let paths = selected_paths(
        &[
            ("same", ZipMethod::Stored, b"file".as_slice()),
            ("same/child.txt", ZipMethod::Stored, b"child".as_slice()),
        ],
        &UnzipSelection::new(),
    );
    let entries = paths.into_iter().map(|path| (path, false)).collect();

    let err = validate_local_destination_path_collisions(&entries, false).unwrap_err();

    assert!(err.to_string().contains("same local destination path"));
}

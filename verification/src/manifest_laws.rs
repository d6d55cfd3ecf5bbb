//! Which entries of a central directory are extracted, and where their bytes lie.
use vstd::prelude::*;
use vstd::string::*;

use crate::catalog::catalog_digests;
use crate::constants::EMBEDDED_CATALOG_PATH;
use crate::local_zip::{local_fold, local_outcome, with_local_digest, LocalEntryView, LocalRules};
use crate::s3_uri::{destination_key, etag_md5};
use crate::selection::selection_selects;
use crate::zip_manifest::{
    comes_from, counted_paths, holds_path, law_manifest_entries_come_from_the_directory,
    lemma_next_offset, lemma_offset_rank_bounds, manifest_fold, offset_rank, stored_outcome,
    with_catalog_digest, EntryNameView, ManifestEntryView, ManifestRules, StoredEntryView,
    StoredOutcome,
};
use crate::zip_path::{names_directory, normalized_path, path_problem};

verus! {

/// Whether a raw name is that of the embedded catalog.
pub open spec fn is_catalog_name(name: EntryNameView) -> bool {
    name == EntryNameView::Utf8(EMBEDDED_CATALOG_PATH@)
}

/// Whether an entry of a central directory is one to extract: it is not the
/// catalog, and its normalized path is selected.
pub open spec fn is_wanted(stored: StoredEntryView, lines: Seq<Seq<char>>) -> bool {
    match stored.name {
        EntryNameView::Utf8(raw) => raw != EMBEDDED_CATALOG_PATH@ && selection_selects(
            lines,
            normalized_path(raw),
        ),
        EntryNameView::NotUtf8 { shown, reason } => true,
    }
}

/// How many of the first `n` entries are to be extracted.
pub open spec fn wanted(stored: Seq<StoredEntryView>, lines: Seq<Seq<char>>, n: int) -> int
    decreases n,
{
    if n <= 0 {
        0
    } else if is_wanted(stored[n - 1], lines) {
        wanted(stored, lines, n - 1) + 1
    } else {
        wanted(stored, lines, n - 1)
    }
}

/// Whether an entry can be extracted: its path is accepted and its header lies in
/// the source; a directory is empty; a file is stored or deflated and not larger
/// than the limit.
pub open spec fn is_sound(
    stored: StoredEntryView,
    source_len: u64,
    size_limit: Option<u64>,
) -> bool {
    match stored.name {
        EntryNameView::Utf8(raw) => {
            &&& path_problem(raw) is None
            &&& stored.header_offset < source_len
            &&& raw.last() == '/' ==> stored.uncompressed_size == 0 && stored.compressed_size == 0
                && stored.crc32 == 0
            &&& raw.last() != '/' ==> (stored.compression is Stored || stored.compression
                is Deflate) && (size_limit is None || stored.uncompressed_size
                <= size_limit->Some_0)
        },
        EntryNameView::NotUtf8 { shown, reason } => false,
    }
}

/// A path normalizes to itself, or for a directory to its name and one slash.
proof fn lemma_normalized(raw: Seq<char>)
    requires
        path_problem(raw) is None,
    ensures
        raw.last() != '/' ==> normalized_path(raw) == raw,
        raw.last() == '/' ==> normalized_path(raw).last() == '/',
        normalized_path(raw) == EMBEDDED_CATALOG_PATH@ <==> raw == EMBEDDED_CATALOG_PATH@,
        raw == EMBEDDED_CATALOG_PATH@ ==> raw.last() != '/',
        names_directory(raw) == (raw.last() == '/'),
{
    reveal_strlit(".s3-unspool/catalog.v1.json");
    assert(EMBEDDED_CATALOG_PATH@.last() == 'n');
}

proof fn lemma_outcome(stored: StoredEntryView, rules: ManifestRules)
    ensures
        ({
            let outcome = stored_outcome(stored, rules);
            &&& outcome is Failed <==> !is_readable(stored, rules)
            &&& outcome is Entry <==> is_readable(stored, rules) && is_wanted(stored, rules.lines)
            &&& outcome is Entry ==> is_manifest_of(outcome->Entry_0, stored, rules.prefix)
        }),
{
    if let EntryNameView::Utf8(raw) = stored.name {
        if path_problem(raw) is None {
            lemma_normalized(raw);
        }
    }
}

/// Whether a manifest entry is that of a central directory entry: it has its
/// normalized path, the key of that path, its sizes, method and checksum, and the
/// offset of its header.
pub open spec fn is_manifest_of(
    entry: ManifestEntryView,
    stored: StoredEntryView,
    prefix: Seq<char>,
) -> bool {
    match stored.name {
        EntryNameView::Utf8(raw) => {
            &&& entry.zip_path == normalized_path(raw)
            &&& entry.is_directory == (raw.last() == '/')
            &&& entry.key == destination_key(prefix, normalized_path(raw))
            &&& entry.size == stored.uncompressed_size
            &&& entry.compressed_size == stored.compressed_size
            &&& entry.compression == stored.compression
            &&& entry.crc32 == stored.crc32
            &&& entry.source_offset == stored.header_offset
            &&& entry.source_span_start == stored.header_offset
            &&& entry.catalog_md5 is None
        },
        EntryNameView::NotUtf8 { shown, reason } => false,
    }
}

spec fn has_manifest(
    entries: Seq<ManifestEntryView>,
    stored: StoredEntryView,
    prefix: Seq<char>,
) -> bool {
    exists|i: int| 0 <= i < entries.len() && is_manifest_of(#[trigger] entries[i], stored, prefix)
}

/// Nothing is left out of a manifest: where a central directory is read without
/// error, every entry that is not the catalog and is selected is there, with its
/// path, key, sizes, method, checksum and offset, and there are no others.
pub proof fn law_every_wanted_entry_is_in_the_manifest(
    stored: Seq<StoredEntryView>,
    n: int,
    rules: ManifestRules,
)
    requires
        0 <= n <= stored.len(),
        manifest_fold(stored, n, rules) is Ok,
    ensures
        ({
            let entries = manifest_fold(stored, n, rules)->Ok_0.0;
            &&& entries.len() == wanted(stored, rules.lines, n)
            &&& forall|k: int|
                0 <= k < n && #[trigger] is_wanted(stored[k], rules.lines) ==> exists|i: int|
                    0 <= i < entries.len() && is_manifest_of(
                        #[trigger] entries[i],
                        stored[k],
                        rules.prefix,
                    )
        }),
    decreases n,
{
    if n > 0 {
        law_every_wanted_entry_is_in_the_manifest(stored, n - 1, rules);
        let before = manifest_fold(stored, n - 1, rules)->Ok_0.0;
        let entries = manifest_fold(stored, n, rules)->Ok_0.0;
        lemma_outcome(stored[n - 1], rules);
        let outcome = stored_outcome(stored[n - 1], rules);
        if let StoredOutcome::Entry(entry) = outcome {
            let rank = offset_rank(before, entry.source_offset);
            lemma_offset_rank_bounds(before, entry.source_offset);
            assert(entries == before.insert(rank, entry));
            assert(entries[rank] == entry);
            assert(is_manifest_of(entries[rank], stored[n - 1], rules.prefix));
            assert forall|k: int|
                0 <= k < n && #[trigger] is_wanted(stored[k], rules.lines) implies has_manifest(
                entries,
                stored[k],
                rules.prefix,
            ) by {
                if k < n - 1 {
                    assert(has_manifest(before, stored[k], rules.prefix));
                    let i = choose|i: int|
                        0 <= i < before.len() && is_manifest_of(
                            #[trigger] before[i],
                            stored[k],
                            rules.prefix,
                        );
                    let at = if i < rank {
                        i
                    } else {
                        i + 1
                    };
                    assert(entries[at] == before[i]);
                    assert(is_manifest_of(entries[at], stored[k], rules.prefix));
                } else {
                    assert(is_manifest_of(entries[rank], stored[k], rules.prefix));
                }
            }
            assert forall|k: int|
                0 <= k < n && #[trigger] is_wanted(stored[k], rules.lines) implies exists|i: int|
                0 <= i < entries.len() && is_manifest_of(
                    #[trigger] entries[i],
                    stored[k],
                    rules.prefix,
                ) by {
                assert(has_manifest(entries, stored[k], rules.prefix));
            }
        }
    }
}

/// A central directory is read without error exactly where every entry that is
/// wanted can be extracted, every name is accepted, and no two wanted entries have
/// the same path.
pub proof fn law_sound_directories_are_read(
    stored: Seq<StoredEntryView>,
    n: int,
    rules: ManifestRules,
)
    requires
        0 <= n <= stored.len(),
    ensures
        manifest_fold(stored, n, rules) is Ok <==> are_readable(stored, n, rules),
    decreases n,
{
    if n > 0 {
        law_sound_directories_are_read(stored, n - 1, rules);
        let last = stored[n - 1];
        lemma_outcome(last, rules);
        if are_readable(stored, n, rules) {
            assert forall|k: int| 0 <= k < n - 1 implies #[trigger] is_readable(
                stored[k],
                rules,
            ) by {}
            assert(is_readable(last, rules));
            assert(are_readable(stored, n - 1, rules));
        }
        if manifest_fold(stored, n - 1, rules) is Ok {
            let before = manifest_fold(stored, n - 1, rules)->Ok_0.0;
            law_every_wanted_entry_is_in_the_manifest(stored, n - 1, rules);
            law_manifest_entries_come_from_the_directory(stored, n - 1, rules);
            let outcome = stored_outcome(last, rules);
            if let StoredOutcome::Entry(entry) = outcome {
                if holds_path(before, entry.zip_path) {
                    let i = choose|i: int|
                        0 <= i < before.len() && (#[trigger] before[i]).zip_path == entry.zip_path;
                    assert(comes_from(before[i], stored, n - 1, rules));
                    let k = choose|k: int|
                        0 <= k < n - 1 && #[trigger] stored_outcome(stored[k], rules)
                            == StoredOutcome::Entry(before[i]);
                    lemma_outcome(stored[k], rules);
                    assert(same_wanted_path(stored[k], stored[n - 1], rules.lines));
                    assert(!are_readable(stored, n, rules));
                } else {
                    assert forall|a: int, b: int|
                        0 <= a < b < n implies !#[trigger] same_wanted_path(
                        stored[a],
                        stored[b],
                        rules.lines,
                    ) by {
                        if b == n - 1 && same_wanted_path(stored[a], stored[b], rules.lines) {
                            assert(is_wanted(stored[a], rules.lines));
                            let i = choose|i: int|
                                0 <= i < before.len() && is_manifest_of(
                                    #[trigger] before[i],
                                    stored[a],
                                    rules.prefix,
                                );
                            assert(before[i].zip_path == entry.zip_path);
                        }
                    }
                    assert(are_readable(stored, n, rules));
                }
            } else if !(outcome is Failed) {
                assert(!is_wanted(last, rules.lines));
                assert forall|a: int, b: int| 0 <= a < b < n implies !#[trigger] same_wanted_path(
                    stored[a],
                    stored[b],
                    rules.lines,
                ) by {}
                assert(are_readable(stored, n, rules));
            }
        }
    }
}

/// Whether two entries are both wanted and have the same path.
pub open spec fn same_wanted_path(
    first: StoredEntryView,
    second: StoredEntryView,
    lines: Seq<Seq<char>>,
) -> bool {
    match (first.name, second.name) {
        (EntryNameView::Utf8(a), EntryNameView::Utf8(b)) => is_wanted(first, lines) && is_wanted(
            second,
            lines,
        ) && normalized_path(a) == normalized_path(b),
        _ => false,
    }
}

/// Whether an entry does not stand in the way: its name is accepted, and if it is
/// wanted it can be extracted.
pub open spec fn is_readable(stored: StoredEntryView, rules: ManifestRules) -> bool {
    match stored.name {
        EntryNameView::Utf8(raw) => path_problem(raw) is None && (is_wanted(stored, rules.lines)
            ==> is_sound(stored, rules.source_len, rules.size_limit)),
        EntryNameView::NotUtf8 { shown, reason } => false,
    }
}

/// Whether the first `n` entries do not stand in the way, and no two that are
/// wanted have the same path.
pub open spec fn are_readable(
    stored: Seq<StoredEntryView>,
    n: int,
    rules: ManifestRules,
) -> bool {
    &&& forall|k: int| 0 <= k < n ==> #[trigger] is_readable(stored[k], rules)
    &&& forall|a: int, b: int|
        0 <= a < b < n ==> !#[trigger] same_wanted_path(stored[a], stored[b], rules.lines)
}

/// The bytes of a file lie in its span: the span starts at the file's header, ends
/// in the source and before every later header, and holds everything up to the end
/// of the payload that does so. The span of a directory is empty.
pub proof fn law_span_holds_the_payload(
    stored: Seq<StoredEntryView>,
    rules: ManifestRules,
    i: int,
    end: u64,
)
    requires
        rules.offsets == stored.map_values(|entry: StoredEntryView| entry.header_offset),
        manifest_fold(stored, stored.len() as int, rules) is Ok,
        0 <= i < manifest_fold(stored, stored.len() as int, rules)->Ok_0.0.len(),
        end <= rules.source_len,
        forall|k: int|
            0 <= k < stored.len() && (#[trigger] stored[k]).header_offset > manifest_fold(
                stored,
                stored.len() as int,
                rules,
            )->Ok_0.0[i].source_offset ==> end <= stored[k].header_offset,
    ensures
        ({
            let entry = manifest_fold(stored, stored.len() as int, rules)->Ok_0.0[i];
            &&& entry.source_span_start == entry.source_offset
            &&& entry.source_span_end <= rules.source_len
            &&& forall|k: int|
                0 <= k < stored.len() && (#[trigger] stored[k]).header_offset
                    > entry.source_offset ==> entry.source_span_end <= stored[k].header_offset
            &&& entry.is_directory ==> entry.source_span_end == entry.source_offset
            &&& !entry.is_directory ==> exists|k: int|
                0 <= k < stored.len() && is_manifest_of(
                    entry,
                    #[trigger] stored[k],
                    rules.prefix,
                ) && (stored[k].header_offset + stored[k].header_size + stored[k].compressed_size
                    >= end ==> entry.source_span_end >= end) && ((forall|m: int|
                    0 <= m < stored.len() ==> (#[trigger] stored[m]).header_offset
                        <= entry.source_offset) ==> entry.source_span_end
                    <= stored[k].header_offset + stored[k].header_size
                    + stored[k].compressed_size)
        }),
{
    let n = stored.len() as int;
    let entries = manifest_fold(stored, n, rules)->Ok_0.0;
    let entry = entries[i];
    law_manifest_entries_come_from_the_directory(stored, n, rules);
    assert(comes_from(entry, stored, n, rules));
    let k = choose|k: int|
        0 <= k < n && #[trigger] stored_outcome(stored[k], rules) == StoredOutcome::Entry(entry);
    lemma_next_offset(rules.offsets, stored[k].header_offset);
    if let EntryNameView::Utf8(raw) = stored[k].name {
        lemma_normalized(raw);
    }
    assert(is_manifest_of(entry, stored[k], rules.prefix));
    assert forall|m: int|
        0 <= m < stored.len() && (#[trigger] stored[m]).header_offset
            > entry.source_offset implies entry.source_span_end <= stored[m].header_offset by {
        assert(rules.offsets[m] == stored[m].header_offset);
    }
    let next = crate::zip_manifest::next_offset(rules.offsets, stored[k].header_offset);
    if next is Some {
        let m = choose|m: int| 0 <= m < rules.offsets.len() && rules.offsets[m] == next->Some_0;
        assert(rules.offsets[m] == stored[m].header_offset);
    }
}

/// Where the embedded catalog is: at the last entry with its path, if there is one.
pub proof fn law_catalog_is_found(stored: Seq<StoredEntryView>, n: int, rules: ManifestRules)
    requires
        0 <= n <= stored.len() <= usize::MAX,
        manifest_fold(stored, n, rules) is Ok,
    ensures
        match manifest_fold(stored, n, rules)->Ok_0.1 {
            Some(at) => at < n && is_catalog_name(stored[at as int].name) && forall|k: int|
                at < k < n ==> !is_catalog_name((#[trigger] stored[k]).name),
            None => forall|k: int| 0 <= k < n ==> !is_catalog_name((#[trigger] stored[k]).name),
        },
    decreases n,
{
    if n > 0 {
        law_catalog_is_found(stored, n - 1, rules);
        if let EntryNameView::Utf8(raw) = stored[n - 1].name {
            lemma_normalized(raw);
            lemma_catalog_is_a_file(raw);
        }
    }
}

proof fn lemma_catalog_is_a_file(raw: Seq<char>)
    ensures
        raw == EMBEDDED_CATALOG_PATH@ ==> raw.last() != '/',
{
    reveal_strlit(".s3-unspool/catalog.v1.json");
}

/// Whether an entry of a local ZIP is that of a central directory entry.
pub open spec fn is_local_of(
    entry: LocalEntryView,
    stored: StoredEntryView,
    prefix: Option<Seq<char>>,
) -> bool {
    match stored.name {
        EntryNameView::Utf8(raw) => {
            &&& entry.zip_path == normalized_path(raw)
            &&& entry.is_directory == (raw.last() == '/')
            &&& prefix is None ==> entry.destination == normalized_path(raw)
            &&& prefix is Some ==> entry.destination == destination_key(
                prefix->Some_0,
                normalized_path(raw),
            )
            &&& entry.size == stored.uncompressed_size
            &&& entry.compressed_size == stored.compressed_size
            &&& entry.compression == stored.compression
            &&& entry.crc32 == stored.crc32
            &&& entry.catalog_md5 is None
        },
        EntryNameView::NotUtf8 { shown, reason } => false,
    }
}

/// Nothing is left out of a local ZIP: where its central directory is read without
/// error, every entry that is not the catalog and is selected is taken, in the order
/// of the directory, and no others.
pub proof fn law_every_wanted_local_entry_is_taken(
    stored: Seq<StoredEntryView>,
    n: int,
    rules: LocalRules,
)
    requires
        0 <= n <= stored.len() <= usize::MAX,
        local_fold(stored, n, rules) is Ok,
    ensures
        ({
            let entries = local_fold(stored, n, rules)->Ok_0.0;
            &&& entries.len() == wanted(stored, rules.lines, n)
            &&& forall|k: int|
                0 <= k < n && #[trigger] is_wanted(stored[k], rules.lines) ==> {
                    let at = wanted(stored, rules.lines, k);
                    &&& 0 <= at < entries.len()
                    &&& is_local_of(entries[at], stored[k], rules.prefix)
                    &&& entries[at].index == k
                }
        }),
    decreases n,
{
    if n > 0 {
        law_every_wanted_local_entry_is_taken(stored, n - 1, rules);
        let before = local_fold(stored, n - 1, rules)->Ok_0.0;
        let entries = local_fold(stored, n, rules)->Ok_0.0;
        if let EntryNameView::Utf8(raw) = stored[n - 1].name {
            lemma_normalized(raw);
        }
        let outcome = local_outcome(stored[n - 1], (n - 1) as usize, rules);
        assert(outcome is Entry <==> is_wanted(stored[n - 1], rules.lines));
        lemma_wanted_is_natural(stored, rules.lines, n - 1);
        assert forall|k: int| 0 <= k < n && #[trigger] is_wanted(stored[k], rules.lines) implies {
            let at = wanted(stored, rules.lines, k);
            &&& 0 <= at < entries.len()
            &&& is_local_of(entries[at], stored[k], rules.prefix)
            &&& entries[at].index == k
        } by {
            let at = wanted(stored, rules.lines, k);
            if k < n - 1 {
                assert(entries[at] == before[at]);
            }
        }
    }
}

proof fn lemma_wanted_is_natural(stored: Seq<StoredEntryView>, lines: Seq<Seq<char>>, n: int)
    ensures
        wanted(stored, lines, n) >= 0,
    decreases n,
{
    if n > 0 {
        lemma_wanted_is_natural(stored, lines, n - 1);
    }
}

/// An entry of a local ZIP that can be extracted, ends in the file and is wanted is
/// taken, whatever else the ZIP holds.
pub proof fn law_sound_local_entry_is_taken(
    stored: StoredEntryView,
    index: usize,
    rules: LocalRules,
)
    requires
        is_sound(
            stored,
            rules.source_len,
            if rules.enforce_s3_limit {
                Some(crate::constants::S3_SINGLE_PUT_LIMIT)
            } else {
                None
            },
        ),
        stored.header_offset + stored.header_size + stored.compressed_size <= rules.source_len,
    ensures
        is_wanted(stored, rules.lines) <==> local_outcome(stored, index, rules) is Entry,
        local_outcome(stored, index, rules) is Catalog <==> is_catalog_name(stored.name),
{
    if let EntryNameView::Utf8(raw) = stored.name {
        lemma_normalized(raw);
        lemma_catalog_is_a_file(raw);
    }
}

/// An entry of a local ZIP whose name is not accepted is refused, and so is one that is
/// wanted and cannot be extracted or does not end in the file.
pub proof fn law_unsound_local_entry_is_refused(
    stored: StoredEntryView,
    index: usize,
    rules: LocalRules,
)
    ensures
        match stored.name {
            EntryNameView::NotUtf8 { shown, reason } => local_outcome(stored, index, rules)
                is Failed,
            EntryNameView::Utf8(raw) => {
                &&& path_problem(raw) is Some ==> local_outcome(stored, index, rules) is Failed
                &&& path_problem(raw) is None && is_wanted(stored, rules.lines) && ({
                    ||| stored.header_offset + stored.header_size + stored.compressed_size
                        > rules.source_len
                    ||| raw.last() == '/' && (stored.uncompressed_size > 0
                        || stored.compressed_size > 0 || stored.crc32 != 0)
                    ||| raw.last() != '/' && !(stored.compression is Stored || stored.compression
                        is Deflate)
                    ||| raw.last() != '/' && rules.enforce_s3_limit && stored.uncompressed_size
                        > 5 * 1024 * 1024 * 1024
                }) ==> local_outcome(stored, index, rules) is Failed
            },
        },
{
    if let EntryNameView::Utf8(raw) = stored.name {
        if path_problem(raw) is None {
            lemma_normalized(raw);
        }
    }
}

/// How many of the first `n` entries are files other than the catalog.
pub open spec fn files_among(stored: Seq<StoredEntryView>, n: int) -> int
    decreases n,
{
    if n <= 0 {
        0
    } else {
        match stored[n - 1].name {
            EntryNameView::Utf8(raw) => if raw.last() == '/' || raw == EMBEDDED_CATALOG_PATH@ {
                files_among(stored, n - 1)
            } else {
                files_among(stored, n - 1) + 1
            },
            EntryNameView::NotUtf8 { shown, reason } => files_among(stored, n - 1) + 1,
        }
    }
}

/// The number of files of an archive is that of its entries that are neither
/// directories nor the catalog.
pub proof fn law_files_are_counted(stored: Seq<StoredEntryView>, n: int)
    requires
        0 <= n <= stored.len(),
        counted_paths(stored, n) is Ok,
    ensures
        counted_paths(stored, n)->Ok_0.len() == files_among(stored, n),
    decreases n,
{
    if n > 0 {
        law_files_are_counted(stored, n - 1);
        if let EntryNameView::Utf8(raw) = stored[n - 1].name {
            lemma_normalized(raw);
        }
    }
}

/// Whether an entry does not stand in the way of counting: its name is accepted, and
/// a file other than the catalog can be extracted to S3.
pub open spec fn is_countable(stored: StoredEntryView) -> bool {
    match stored.name {
        EntryNameView::Utf8(raw) => path_problem(raw) is None && (raw.last() == '/' || raw
            == EMBEDDED_CATALOG_PATH@ || ((stored.compression is Stored || stored.compression
            is Deflate) && stored.uncompressed_size <= 5 * 1024 * 1024 * 1024)),
        EntryNameView::NotUtf8 { shown, reason } => false,
    }
}

/// The files of an archive are counted where nothing stands in the way and no file is
/// there twice. What is counted are the files' paths.
pub proof fn law_ordinary_archives_are_counted(stored: Seq<StoredEntryView>, n: int)
    requires
        0 <= n <= stored.len(),
        forall|k: int| 0 <= k < n ==> is_countable(#[trigger] stored[k]),
        forall|a: int, b: int|
            0 <= a < b < n ==> (#[trigger] stored[a]).name != (#[trigger] stored[b]).name,
    ensures
        counted_paths(stored, n) is Ok,
        forall|path: Seq<char>| #[trigger]
            counted_paths(stored, n)->Ok_0.contains(path) ==> exists|k: int|
                0 <= k < n && (#[trigger] stored[k]).name == EntryNameView::Utf8(path),
    decreases n,
{
    if n > 0 {
        law_ordinary_archives_are_counted(stored, n - 1);
        let before = counted_paths(stored, n - 1)->Ok_0;
        assert(is_countable(stored[n - 1]));
        if let EntryNameView::Utf8(raw) = stored[n - 1].name {
            lemma_normalized(raw);
            if raw.last() != '/' && raw != EMBEDDED_CATALOG_PATH@ {
                if before.contains(raw) {
                    let k = choose|k: int|
                        0 <= k < n - 1 && (#[trigger] stored[k]).name == EntryNameView::Utf8(raw);
                    assert(stored[k].name != stored[n - 1].name);
                }
                let now = counted_paths(stored, n)->Ok_0;
                assert(now == before.push(raw));
                assert forall|path: Seq<char>| #[trigger] now.contains(path) implies exists|k: int|
                    0 <= k < n && (#[trigger] stored[k]).name == EntryNameView::Utf8(path) by {
                    if path == raw {
                        assert(stored[n - 1].name == EntryNameView::Utf8(path));
                    } else {
                        let i = now.index_of(path);
                        assert(before[i] == path);
                        assert(before.contains(path));
                    }
                }
            }
        }
    }
}

/// A digest of the catalog belongs to the entry with its path, and nothing else of
/// an entry changes.
pub proof fn law_catalog_digests_go_to_their_paths(
    entry: ManifestEntryView,
    digests: Map<Seq<char>, Seq<char>>,
)
    ensures
        ({
            let after = with_catalog_digest(entry, digests);
            &&& after == (ManifestEntryView { catalog_md5: after.catalog_md5, ..entry })
            &&& digests.contains_key(entry.zip_path) ==> after.catalog_md5 == Some(
                digests[entry.zip_path],
            )
            &&& !digests.contains_key(entry.zip_path) ==> after.catalog_md5 is None
        }),
{
}

/// Whether a line of a catalog gives a digest for a path.
pub open spec fn is_digest_line(line: (Seq<char>, Seq<char>), path: Seq<char>) -> bool {
    line.0 == path && etag_md5(line.1) is Some
}

/// A catalog gives the digest of a file's path exactly where one of its lines has
/// the path and an MD5 digest, and then that of the last such line.
pub proof fn law_catalog_gives_the_last_digest(
    lines: Seq<(Seq<char>, Seq<char>)>,
    n: int,
    path: Seq<char>,
)
    requires
        0 <= n <= lines.len(),
        path_problem(path) is None,
        path.last() != '/',
        path != EMBEDDED_CATALOG_PATH@,
    ensures
        catalog_digests(lines, n).contains_key(path) <==> exists|i: int|
            0 <= i < n && #[trigger] is_digest_line(lines[i], path),
        forall|i: int|
            0 <= i < n && #[trigger] is_digest_line(lines[i], path) && (forall|k: int|
                i < k < n ==> !#[trigger] is_digest_line(lines[k], path)) ==> Some(
                catalog_digests(lines, n)[path],
            ) == etag_md5(lines[i].1),
    decreases n,
{
    if n > 0 {
        law_catalog_gives_the_last_digest(lines, n - 1, path);
        let before = catalog_digests(lines, n - 1);
        let now = catalog_digests(lines, n);
        if is_digest_line(lines[n - 1], path) {
            assert(now.contains_key(path));
            assert(Some(now[path]) == etag_md5(lines[n - 1].1));
        } else {
            assert(now.contains_key(path) == before.contains_key(path));
            assert(now.contains_key(path) ==> now[path] == before[path]);
            assert forall|i: int|
                0 <= i < n && #[trigger] is_digest_line(lines[i], path) && (forall|k: int|
                    i < k < n ==> !#[trigger] is_digest_line(lines[k], path)) implies Some(
                now[path],
            ) == etag_md5(lines[i].1) by {
                assert(before.contains_key(path));
            }
        }
    }
}

/// The same holds of the entries of a local ZIP.
pub proof fn law_catalog_digests_go_to_their_local_paths(
    entry: LocalEntryView,
    digests: Map<Seq<char>, Seq<char>>,
)
    ensures
        ({
            let after = with_local_digest(entry, digests);
            &&& after == (LocalEntryView { catalog_md5: after.catalog_md5, ..entry })
            &&& digests.contains_key(entry.zip_path) ==> after.catalog_md5 == Some(
                digests[entry.zip_path],
            )
            &&& !digests.contains_key(entry.zip_path) ==> after.catalog_md5 is None
        }),
{
}

} // verus!

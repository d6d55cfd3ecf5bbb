//! The manifest of a source ZIP: what each entry is, where its bytes lie and
//! where it goes.
use vstd::hash_map::StringHashMap;
use vstd::hash_set::StringHashSet;
use vstd::prelude::*;
use vstd::string::*;

use crate::catalog::digest_views;
use crate::compression::Compression;
use crate::constants::{EMBEDDED_CATALOG_PATH, S3_SINGLE_PUT_LIMIT};
use crate::error::{Error, ErrorView, Result};
use crate::s3_uri::{destination_key, S3Prefix};
use crate::selection::{selection_selects, UnzipSelection};
use crate::spans::{sort_spans, spans_sorted};
use crate::text::{cat2, cat4, decimal, decimal_spec, str_eq};
use crate::zip_path::{
    invalid_zip_entry, names_directory, normalize_zip_entry_path, normalized_path, path_problem,
    ZipEntryPath,
};

verus! {

/// The name of an entry in the central directory.
#[derive(Debug)]
pub enum EntryName {
    Utf8(String),
    /// A name that is not UTF-8: how it is shown, and why it was refused.
    NotUtf8 { shown: String, reason: String },
}

/// An entry of the central directory.
#[derive(Debug)]
pub struct StoredEntry {
    pub name: EntryName,
    /// Offset of the local file header.
    pub header_offset: u64,
    /// Size of the header, the name and the extra fields.
    pub header_size: u64,
    pub uncompressed_size: u64,
    pub compressed_size: u64,
    pub compression: Compression,
    pub crc32: u32,
}

pub enum EntryNameView {
    Utf8(Seq<char>),
    NotUtf8 { shown: Seq<char>, reason: Seq<char> },
}

pub struct StoredEntryView {
    pub name: EntryNameView,
    pub header_offset: u64,
    pub header_size: u64,
    pub uncompressed_size: u64,
    pub compressed_size: u64,
    pub compression: Compression,
    pub crc32: u32,
}

impl View for EntryName {
    type V = EntryNameView;

    open spec fn view(&self) -> EntryNameView {
        match self {
            EntryName::Utf8(name) => EntryNameView::Utf8(name@),
            EntryName::NotUtf8 { shown, reason } => EntryNameView::NotUtf8 {
                shown: shown@,
                reason: reason@,
            },
        }
    }
}

impl View for StoredEntry {
    type V = StoredEntryView;

    open spec fn view(&self) -> StoredEntryView {
        StoredEntryView {
            name: self.name@,
            header_offset: self.header_offset,
            header_size: self.header_size,
            uncompressed_size: self.uncompressed_size,
            compressed_size: self.compressed_size,
            compression: self.compression,
            crc32: self.crc32,
        }
    }
}

pub open spec fn stored_views(entries: Seq<StoredEntry>) -> Seq<StoredEntryView> {
    entries.map_values(|entry: StoredEntry| entry@)
}

/// An entry to extract.
#[derive(Debug)]
pub struct ManifestEntry {
    /// Local-file-header offset used to seek directly to this ZIP entry.
    pub source_offset: u64,
    /// Inclusive start of the source byte span used by the source scheduler.
    pub source_span_start: u64,
    /// Exclusive end of the source byte span used by the source scheduler.
    pub source_span_end: u64,
    pub zip_path: String,
    pub key: String,
    pub size: u64,
    pub compressed_size: u64,
    pub compression: Compression,
    pub crc32: u32,
    pub catalog_md5: Option<String>,
    pub is_directory: bool,
}

pub struct ManifestEntryView {
    pub source_offset: u64,
    pub source_span_start: u64,
    pub source_span_end: u64,
    pub zip_path: Seq<char>,
    pub key: Seq<char>,
    pub size: u64,
    pub compressed_size: u64,
    pub compression: Compression,
    pub crc32: u32,
    pub catalog_md5: Option<Seq<char>>,
    pub is_directory: bool,
}

/// The characters of an optional string.
pub open spec fn opt_view(s: Option<String>) -> Option<Seq<char>> {
    match s {
        Some(s) => Some(s@),
        None => None,
    }
}

impl View for ManifestEntry {
    type V = ManifestEntryView;

    open spec fn view(&self) -> ManifestEntryView {
        ManifestEntryView {
            source_offset: self.source_offset,
            source_span_start: self.source_span_start,
            source_span_end: self.source_span_end,
            zip_path: self.zip_path@,
            key: self.key@,
            size: self.size,
            compressed_size: self.compressed_size,
            compression: self.compression,
            crc32: self.crc32,
            catalog_md5: opt_view(self.catalog_md5),
            is_directory: self.is_directory,
        }
    }
}

pub open spec fn manifest_views(entries: Seq<ManifestEntry>) -> Seq<ManifestEntryView> {
    entries.map_values(|entry: ManifestEntry| entry@)
}

pub fn clone_opt_string(s: &Option<String>) -> (copy: Option<String>)
    ensures
        copy == *s,
        opt_view(copy) == opt_view(*s),
{
    match s {
        Some(s) => Some(s.clone()),
        None => None,
    }
}

impl Clone for ManifestEntry {
    fn clone(&self) -> (copy: ManifestEntry)
        ensures
            copy@ == self@,
    {
        ManifestEntry {
            source_offset: self.source_offset,
            source_span_start: self.source_span_start,
            source_span_end: self.source_span_end,
            zip_path: self.zip_path.clone(),
            key: self.key.clone(),
            size: self.size,
            compressed_size: self.compressed_size,
            compression: self.compression,
            crc32: self.crc32,
            catalog_md5: clone_opt_string(&self.catalog_md5),
            is_directory: self.is_directory,
        }
    }
}

/// The entries to extract, in source order, and where the embedded catalog is.
#[derive(Debug)]
pub struct ManifestBuild {
    pub entries: Vec<ManifestEntry>,
    pub catalog_index: Option<usize>,
}

/// The path of a central directory entry, or why it has none.
pub open spec fn stored_path(name: EntryNameView) -> core::result::Result<
    (Seq<char>, bool),
    ErrorView,
> {
    match name {
        EntryNameView::NotUtf8 { shown, reason } => Err(
            ErrorView::InvalidZipEntry { path: shown, reason },
        ),
        EntryNameView::Utf8(raw) => match path_problem(raw) {
            Some(reason) => Err(ErrorView::InvalidZipEntry { path: raw, reason }),
            None => Ok((normalized_path(raw), names_directory(raw))),
        },
    }
}

pub(crate) fn stored_zip_entry_path(stored: &StoredEntry) -> (result: Result<ZipEntryPath>)
    ensures
        match stored_path(stored.name@) {
            Ok((path, is_directory)) => result is Ok && result->Ok_0.path@ == path
                && result->Ok_0.is_directory == is_directory,
            Err(error) => result is Err && result->Err_0@ == error,
        },
{
    match &stored.name {
        EntryName::NotUtf8 { shown, reason } => Err(invalid_zip_entry(shown, reason)),
        EntryName::Utf8(raw) => normalize_zip_entry_path(raw),
    }
}

/// Why an entry cannot be extracted, whatever its place in the archive.
pub open spec fn entry_problem(
    stored: StoredEntryView,
    zip_path: Seq<char>,
    is_directory: bool,
    size_limit: Option<u64>,
) -> Option<ErrorView> {
    if is_directory {
        if stored.uncompressed_size != 0 || stored.compressed_size != 0 {
            Some(
                ErrorView::InvalidZipEntry {
                    path: zip_path,
                    reason: "directory entries must be zero length"@,
                },
            )
        } else if stored.crc32 != 0 {
            Some(
                ErrorView::InvalidZipEntry {
                    path: zip_path,
                    reason: "directory entries must have a zero CRC32"@,
                },
            )
        } else {
            None
        }
    } else if !stored.compression.is_supported() {
        Some(
            ErrorView::InvalidZipEntry {
                path: zip_path,
                reason: "unsupported compression method "@ + stored.compression.name_spec(),
            },
        )
    } else {
        match size_limit {
            Some(limit) => if stored.uncompressed_size > limit {
                Some(ErrorView::EntryTooLarge { path: zip_path, size: stored.uncompressed_size })
            } else {
                None
            },
            None => None,
        }
    }
}

pub(crate) fn validate_entry(
    stored: &StoredEntry,
    zip_path: &str,
    is_directory: bool,
    size_limit: Option<u64>,
) -> (result: Result<()>)
    ensures
        match entry_problem(stored@, zip_path@, is_directory, size_limit) {
            Some(error) => result is Err && result->Err_0@ == error,
            None => result is Ok,
        },
{
    if is_directory {
        if stored.uncompressed_size != 0 || stored.compressed_size != 0 {
            return Err(invalid_zip_entry(zip_path, "directory entries must be zero length"));
        }
        if stored.crc32 != 0 {
            return Err(invalid_zip_entry(zip_path, "directory entries must have a zero CRC32"));
        }
        return Ok(());
    }
    if !stored.compression.is_supported() {
        let reason = cat2("unsupported compression method ", stored.compression.name());
        return Err(invalid_zip_entry(zip_path, &reason));
    }
    if let Some(limit) = size_limit {
        if stored.uncompressed_size > limit {
            return Err(
                Error::EntryTooLarge {
                    path: zip_path.to_owned(),
                    size: stored.uncompressed_size,
                },
            );
        }
    }
    Ok(())
}

/// Why an entry whose local header lies at `offset` cannot be in the source.
pub open spec fn offset_problem(offset: u64, zip_path: Seq<char>, source_len: u64) -> Option<
    ErrorView,
> {
    if offset >= source_len {
        Some(
            ErrorView::InvalidZipEntry {
                path: zip_path,
                reason: "local file header offset "@ + decimal_spec(offset as nat)
                    + " is outside source ZIP length "@ + decimal_spec(source_len as nat),
            },
        )
    } else {
        None
    }
}

fn validate_offset(offset: u64, zip_path: &str, source_len: u64) -> (result: Result<()>)
    ensures
        match offset_problem(offset, zip_path@, source_len) {
            Some(error) => result is Err && result->Err_0@ == error,
            None => result is Ok,
        },
{
    if offset >= source_len {
        let reason = cat4(
            "local file header offset ",
            &decimal(offset),
            " is outside source ZIP length ",
            &decimal(source_len),
        );
        return Err(invalid_zip_entry(zip_path, &reason));
    }
    Ok(())
}

/// The byte after an entry's payload, as far as the central directory tells.
pub open spec fn payload_end(stored: StoredEntryView) -> u64 {
    let end = stored.header_offset + stored.header_size + stored.compressed_size;
    if end > u64::MAX {
        u64::MAX
    } else {
        end as u64
    }
}

fn entry_payload_end(stored: &StoredEntry) -> (end: u64)
    ensures
        end == payload_end(stored@),
{
    stored.header_offset.saturating_add(stored.header_size).saturating_add(stored.compressed_size)
}

/// The smallest of the offsets that is greater than `at`.
pub open spec fn next_offset(offsets: Seq<u64>, at: u64) -> Option<u64>
    decreases offsets.len(),
{
    if offsets.len() == 0 {
        None
    } else {
        let rest = next_offset(offsets.drop_last(), at);
        let last = offsets.last();
        if last > at && (rest is None || last < rest->Some_0) {
            Some(last)
        } else {
            rest
        }
    }
}

/// What [`next_offset`] means.
pub open spec fn is_next_offset(offsets: Seq<u64>, at: u64, next: Option<u64>) -> bool {
    match next {
        Some(next) => {
            &&& next > at
            &&& offsets.contains(next)
            &&& forall|i: int| 0 <= i < offsets.len() && #[trigger] offsets[i] > at ==> next <= offsets[i]
        },
        None => forall|i: int| 0 <= i < offsets.len() ==> #[trigger] offsets[i] <= at,
    }
}

pub proof fn lemma_next_offset(offsets: Seq<u64>, at: u64)
    ensures
        is_next_offset(offsets, at, next_offset(offsets, at)),
    decreases offsets.len(),
{
    if offsets.len() > 0 {
        let rest = offsets.drop_last();
        lemma_next_offset(rest, at);
        let next = next_offset(offsets, at);
        if next is Some {
            if offsets.last() == next->Some_0 {
                assert(offsets[offsets.len() - 1] == next->Some_0);
            } else {
                let k = choose|k: int| 0 <= k < rest.len() && rest[k] == next->Some_0;
                assert(offsets[k] == next->Some_0);
            }
        }
        assert forall|i: int| 0 <= i < offsets.len() && #[trigger] offsets[i] > at implies next is Some
            && next->Some_0 <= offsets[i] by {
            if i < rest.len() {
                assert(rest[i] == offsets[i]);
            }
        }
    }
}

pub proof fn lemma_next_offset_is(offsets: Seq<u64>, at: u64, next: Option<u64>)
    requires
        is_next_offset(offsets, at, next),
    ensures
        next_offset(offsets, at) == next,
{
    lemma_next_offset(offsets, at);
    let found = next_offset(offsets, at);
    if let Some(found) = found {
        let k = choose|k: int| 0 <= k < offsets.len() && offsets[k] == found;
        assert(offsets[k] == found);
    }
    if let Some(next) = next {
        let k = choose|k: int| 0 <= k < offsets.len() && offsets[k] == next;
        assert(offsets[k] == next);
    }
}

/// The first components of pairs.
pub open spec fn starts(spans: Seq<(u64, u64)>) -> Seq<u64> {
    spans.map_values(|span: (u64, u64)| span.0)
}

/// The smallest start among sorted spans that is greater than `offset`.
pub fn next_source_offset(sorted: &Vec<(u64, u64)>, offset: u64) -> (next: Option<u64>)
    requires
        spans_sorted(sorted@),
    ensures
        next == next_offset(starts(sorted@), offset),
{
    let mut low: usize = 0;
    let mut high: usize = sorted.len();
    while low < high
        invariant
            low <= high <= sorted.len(),
            spans_sorted(sorted@),
            forall|i: int| 0 <= i < low ==> (#[trigger] sorted@[i]).0 <= offset,
            forall|i: int| high <= i < sorted.len() ==> (#[trigger] sorted@[i]).0 > offset,
        decreases high - low,
    {
        let middle: usize = low + (high - low) / 2;
        if sorted[middle].0 <= offset {
            low = middle + 1;
        } else {
            high = middle;
        }
    }
    let next: Option<u64> = if low < sorted.len() {
        Some(sorted[low].0)
    } else {
        None
    };
    proof {
        let offsets = starts(sorted@);
        assert forall|i: int| 0 <= i < offsets.len() implies offsets[i] == (
        #[trigger] sorted@[i]).0 by {}
        if low < sorted.len() {
            assert(offsets[low as int] == sorted@[low as int].0);
        }
        assert forall|i: int| 0 <= i < offsets.len() && #[trigger] offsets[i] > offset implies next
            is Some && next->Some_0 <= offsets[i] by {
            assert(offsets[i] == sorted@[i].0);
        }
        lemma_next_offset_is(offsets, offset, next);
    }
    next
}

/// What decides which entries a manifest holds.
pub struct ManifestRules {
    /// Prefix that destination keys are joined to.
    pub prefix: Seq<char>,
    pub source_len: u64,
    pub size_limit: Option<u64>,
    /// Selection lines.
    pub lines: Seq<Seq<char>>,
    /// The local header offsets of all entries.
    pub offsets: Seq<u64>,
}

/// What one central directory entry adds to a manifest.
pub enum StoredOutcome {
    Failed(ErrorView),
    Catalog,
    Unselected,
    Entry(ManifestEntryView),
}

/// The exclusive end of a file entry's source span: the next local header,
/// or the end of the payload where there is none, within the source.
pub open spec fn span_end(stored: StoredEntryView, rules: ManifestRules) -> u64 {
    let end = match next_offset(rules.offsets, stored.header_offset) {
        Some(next) => next,
        None => payload_end(stored),
    };
    let clipped = if end < rules.source_len {
        end
    } else {
        rules.source_len
    };
    if clipped > stored.header_offset {
        clipped
    } else {
        stored.header_offset
    }
}

/// The manifest entry of a central directory entry. Directories have an empty
/// source span.
pub open spec fn manifest_entry(
    stored: StoredEntryView,
    zip_path: Seq<char>,
    is_directory: bool,
    rules: ManifestRules,
) -> ManifestEntryView {
    ManifestEntryView {
        source_offset: stored.header_offset,
        source_span_start: stored.header_offset,
        source_span_end: if is_directory {
            stored.header_offset
        } else {
            span_end(stored, rules)
        },
        zip_path,
        key: destination_key(rules.prefix, zip_path),
        size: stored.uncompressed_size,
        compressed_size: stored.compressed_size,
        compression: stored.compression,
        crc32: stored.crc32,
        catalog_md5: None,
        is_directory,
    }
}

pub open spec fn stored_outcome(stored: StoredEntryView, rules: ManifestRules) -> StoredOutcome {
    match stored_path(stored.name) {
        Err(error) => StoredOutcome::Failed(error),
        Ok((zip_path, is_directory)) => if !is_directory && zip_path == EMBEDDED_CATALOG_PATH@ {
            StoredOutcome::Catalog
        } else if !selection_selects(rules.lines, zip_path) {
            StoredOutcome::Unselected
        } else {
            match offset_problem(stored.header_offset, zip_path, rules.source_len) {
                Some(error) => StoredOutcome::Failed(error),
                None => match entry_problem(stored, zip_path, is_directory, rules.size_limit) {
                    Some(error) => StoredOutcome::Failed(error),
                    None => StoredOutcome::Entry(
                        manifest_entry(stored, zip_path, is_directory, rules),
                    ),
                },
            }
        },
    }
}

/// Whether some entry has the path.
pub open spec fn holds_path(entries: Seq<ManifestEntryView>, zip_path: Seq<char>) -> bool {
    exists|i: int| 0 <= i < entries.len() && (#[trigger] entries[i]).zip_path == zip_path
}

/// How many entries at the front have an offset up to `offset`.
pub open spec fn offset_rank(entries: Seq<ManifestEntryView>, offset: u64) -> int
    decreases entries.len(),
{
    if entries.len() == 0 || entries[0].source_offset > offset {
        0
    } else {
        1 + offset_rank(entries.skip(1), offset)
    }
}

/// The entries with one more, behind those with the same or a smaller offset.
pub open spec fn insert_by_offset(
    entries: Seq<ManifestEntryView>,
    entry: ManifestEntryView,
) -> Seq<ManifestEntryView> {
    entries.insert(offset_rank(entries, entry.source_offset), entry)
}

/// The entries and the catalog index that the first `n` central directory
/// entries give, or the first failure among them.
pub open spec fn manifest_fold(
    stored: Seq<StoredEntryView>,
    n: int,
    rules: ManifestRules,
) -> core::result::Result<(Seq<ManifestEntryView>, Option<usize>), ErrorView>
    decreases n,
{
    if n <= 0 {
        Ok((Seq::empty(), None))
    } else {
        match manifest_fold(stored, n - 1, rules) {
            Err(error) => Err(error),
            Ok((entries, catalog_index)) => match stored_outcome(stored[n - 1], rules) {
                StoredOutcome::Failed(error) => Err(error),
                StoredOutcome::Catalog => Ok((entries, Some((n - 1) as usize))),
                StoredOutcome::Unselected => Ok((entries, catalog_index)),
                StoredOutcome::Entry(entry) => if holds_path(entries, entry.zip_path) {
                    Err(ErrorView::DuplicateZipPath(entry.zip_path))
                } else {
                    Ok((insert_by_offset(entries, entry), catalog_index))
                },
            },
        }
    }
}

/// The rules under which a central directory is read.
pub open spec fn manifest_rules(
    stored: Seq<StoredEntryView>,
    prefix: Seq<char>,
    source_len: u64,
    size_limit: Option<u64>,
    lines: Seq<Seq<char>>,
) -> ManifestRules {
    ManifestRules {
        prefix,
        source_len,
        size_limit,
        lines,
        offsets: stored.map_values(|entry: StoredEntryView| entry.header_offset),
    }
}

/// Whether entries stand in source order.
pub open spec fn in_source_order(entries: Seq<ManifestEntryView>) -> bool {
    forall|i: int, j: int|
        0 <= i <= j < entries.len() ==> (#[trigger] entries[i]).source_offset <= (
        #[trigger] entries[j]).source_offset
}

proof fn lemma_offset_rank(entries: Seq<ManifestEntryView>, offset: u64, rank: int)
    requires
        0 <= rank <= entries.len(),
        forall|i: int| 0 <= i < rank ==> (#[trigger] entries[i]).source_offset <= offset,
        rank < entries.len() ==> entries[rank].source_offset > offset,
    ensures
        offset_rank(entries, offset) == rank,
    decreases entries.len(),
{
    if rank > 0 {
        let rest = entries.skip(1);
        assert(entries[0].source_offset <= offset);
        assert forall|i: int| 0 <= i < rank - 1 implies (#[trigger] rest[i]).source_offset
            <= offset by {
            assert(entries[i + 1].source_offset <= offset);
        }
        lemma_offset_rank(rest, offset, rank - 1);
    }
}

fn push_by_offset(entries: &mut Vec<ManifestEntry>, entry: ManifestEntry)
    requires
        in_source_order(manifest_views(old(entries)@)),
    ensures
        manifest_views(final(entries)@) == insert_by_offset(
            manifest_views(old(entries)@),
            entry@,
        ),
        in_source_order(manifest_views(final(entries)@)),
{
    let ghost before = manifest_views(entries@);
    let mut low: usize = 0;
    let mut high: usize = entries.len();
    while low < high
        invariant
            low <= high <= entries.len(),
            before == manifest_views(entries@),
            in_source_order(before),
            forall|i: int|
                0 <= i < low ==> (#[trigger] before[i]).source_offset <= entry.source_offset,
            forall|i: int|
                high <= i < entries.len() ==> (#[trigger] before[i]).source_offset
                    > entry.source_offset,
        decreases high - low,
    {
        let middle: usize = low + (high - low) / 2;
        assert(before[middle as int].source_offset == entries@[middle as int].source_offset);
        if entries[middle].source_offset <= entry.source_offset {
            low = middle + 1;
        } else {
            high = middle;
        }
    }
    proof {
        lemma_offset_rank(before, entry.source_offset, low as int);
    }
    let ghost added = entry;
    entries.insert(low, entry);
    assert(manifest_views(entries@) =~= before.insert(low as int, added@));
    let ghost after = manifest_views(entries@);
    assert forall|i: int, j: int| 0 <= i <= j < after.len() implies (
    #[trigger] after[i]).source_offset <= (#[trigger] after[j]).source_offset by {
        if i < low && j > low {
            assert(before[i].source_offset <= before[j - 1].source_offset);
        } else if i < low && j < low {
            assert(before[i].source_offset <= before[j].source_offset);
        } else if i > low {
            assert(before[i - 1].source_offset <= before[j - 1].source_offset);
        } else if i == low && j > low {
            assert(before[j - 1].source_offset > added.source_offset);
        } else if i < low && j == low {
            assert(before[i].source_offset <= added.source_offset);
        }
    }
}

/// Builds the manifest of the entries of a central directory that fit in a
/// single `PutObject`.
pub fn build_manifest_entries(
    entries: &Vec<StoredEntry>,
    destination: &S3Prefix,
    source_len: u64,
) -> (result: Result<ManifestBuild>)
    ensures
        match manifest_fold(
            stored_views(entries@),
            entries@.len() as int,
            manifest_rules(
                stored_views(entries@),
                destination.prefix@,
                source_len,
                Some(S3_SINGLE_PUT_LIMIT),
                Seq::empty(),
            ),
        ) {
            Ok((manifest, catalog_index)) => result is Ok && manifest_views(
                result->Ok_0.entries@,
            ) == manifest && result->Ok_0.catalog_index == catalog_index,
            Err(error) => result is Err && result->Err_0@ == error,
        },
{
    build_manifest_entries_with_size_limit(
        entries,
        destination,
        source_len,
        Some(S3_SINGLE_PUT_LIMIT),
    )
}

/// Builds the manifest of the entries of a central directory up to a size.
pub fn build_manifest_entries_with_size_limit(
    entries: &Vec<StoredEntry>,
    destination: &S3Prefix,
    source_len: u64,
    size_limit: Option<u64>,
) -> (result: Result<ManifestBuild>)
    ensures
        match manifest_fold(
            stored_views(entries@),
            entries@.len() as int,
            manifest_rules(
                stored_views(entries@),
                destination.prefix@,
                source_len,
                size_limit,
                Seq::empty(),
            ),
        ) {
            Ok((manifest, catalog_index)) => result is Ok && manifest_views(
                result->Ok_0.entries@,
            ) == manifest && result->Ok_0.catalog_index == catalog_index,
            Err(error) => result is Err && result->Err_0@ == error,
        },
{
    build_manifest_entries_with_selection(
        entries,
        destination,
        source_len,
        size_limit,
        &UnzipSelection::new(),
    )
}

/// Builds the manifest of the selected entries of a central directory.
///
/// Entries that are not selected are not checked further than their paths.
pub fn build_manifest_entries_with_selection(
    entries: &Vec<StoredEntry>,
    destination: &S3Prefix,
    source_len: u64,
    size_limit: Option<u64>,
    selection: &UnzipSelection,
) -> (result: Result<ManifestBuild>)
    ensures
        match manifest_fold(
            stored_views(entries@),
            entries@.len() as int,
            manifest_rules(
                stored_views(entries@),
                destination.prefix@,
                source_len,
                size_limit,
                selection@,
            ),
        ) {
            Ok((manifest, catalog_index)) => result is Ok && manifest_views(
                result->Ok_0.entries@,
            ) == manifest && result->Ok_0.catalog_index == catalog_index,
            Err(error) => result is Err && result->Err_0@ == error,
        },
{
    let ghost stored = stored_views(entries@);
    let ghost rules = manifest_rules(
        stored,
        destination.prefix@,
        source_len,
        size_limit,
        selection@,
    );
    let mut sorted: Vec<(u64, u64)> = Vec::new();
    let mut k: usize = 0;
    while k < entries.len()
        invariant
            k <= entries.len(),
            starts(sorted@) == rules.offsets.take(k as int),
            rules.offsets.len() == entries.len(),
            forall|i: int|
                0 <= i < entries.len() ==> rules.offsets[i] == (
                #[trigger] entries@[i]).header_offset,
        decreases entries.len() - k,
    {
        let end: u64 = entry_payload_end(&entries[k]);
        let ghost before = sorted@;
        sorted.push((entries[k].header_offset, end));
        assert(rules.offsets[k as int] == entries@[k as int].header_offset);
        k += 1;
        assert(starts(sorted@) =~= starts(before).push(rules.offsets[k - 1]));
        assert(rules.offsets.take(k as int) =~= rules.offsets.take(k - 1).push(
            rules.offsets[k - 1],
        ));
    }
    assert(rules.offsets.take(k as int) =~= rules.offsets);
    let ghost unsorted = sorted@;
    sort_spans(&mut sorted);
    proof {
        assert forall|at: u64| #[trigger]
            next_offset(starts(sorted@), at) == next_offset(rules.offsets, at) by {
            lemma_next_offset_of_permutation(unsorted, sorted@, at);
        }
    }
    let mut seen: StringHashSet = StringHashSet::new();
    let mut manifest: Vec<ManifestEntry> = Vec::new();
    let mut catalog_index: Option<usize> = None;
    let mut index: usize = 0;
    assert(manifest_views(manifest@) =~= Seq::empty());
    while index < entries.len()
        invariant
            index <= entries.len(),
            stored == stored_views(entries@),
            rules == manifest_rules(
                stored,
                destination.prefix@,
                source_len,
                size_limit,
                selection@,
            ),
            spans_sorted(sorted@),
            forall|at: u64| #[trigger]
                next_offset(starts(sorted@), at) == next_offset(rules.offsets, at),
            in_source_order(manifest_views(manifest@)),
            manifest_fold(stored, index as int, rules) == core::result::Result::<
                (Seq<ManifestEntryView>, Option<usize>),
                ErrorView,
            >::Ok((manifest_views(manifest@), catalog_index)),
            forall|path: Seq<char>| #[trigger]
                seen@.contains(path) <==> holds_path(manifest_views(manifest@), path),
        decreases entries.len() - index,
    {
        let entry = &entries[index];
        let ghost views = manifest_views(manifest@);
        proof {
            assert(stored[index as int] == entry@);
            lemma_fold_failure(stored, entries@.len() as int, index as int, rules);
        }
        index += 1;
        let path = match stored_zip_entry_path(entry) {
            Ok(path) => path,
            Err(error) => return Err(error),
        };
        let zip_path = path.path;
        let is_directory: bool = path.is_directory;
        if !is_directory && str_eq(&zip_path, EMBEDDED_CATALOG_PATH) {
            catalog_index = Some(index - 1);
            continue;
        }
        if !selection.selects(&zip_path) {
            continue;
        }
        if let Err(error) = validate_offset(entry.header_offset, &zip_path, source_len) {
            return Err(error);
        }
        if let Err(error) = validate_entry(entry, &zip_path, is_directory, size_limit) {
            return Err(error);
        }
        if seen.contains(&zip_path) {
            return Err(Error::DuplicateZipPath(zip_path));
        }
        seen.insert(zip_path.clone());
        let span_start: u64 = entry.header_offset;
        let next = next_source_offset(&sorted, span_start);
        let end: u64 = match next {
            Some(next) => next,
            None => entry_payload_end(entry),
        };
        let clipped: u64 = if end < source_len {
            end
        } else {
            source_len
        };
        let file_end: u64 = if clipped > span_start {
            clipped
        } else {
            span_start
        };
        let added = ManifestEntry {
            source_offset: span_start,
            source_span_start: span_start,
            source_span_end: if is_directory {
                span_start
            } else {
                file_end
            },
            key: destination.join_key(&zip_path),
            zip_path,
            size: entry.uncompressed_size,
            compressed_size: entry.compressed_size,
            compression: entry.compression,
            crc32: entry.crc32,
            catalog_md5: None,
            is_directory,
        };
        let ghost added_view = added@;
        assert(added_view == manifest_entry(entry@, added_view.zip_path, is_directory, rules));
        push_by_offset(&mut manifest, added);
        proof {
            assert forall|path: Seq<char>| #[trigger] seen@.contains(path) <==> holds_path(
                manifest_views(manifest@),
                path,
            ) by {
                lemma_insert_holds(views, added_view, path);
            }
        }
    }
    Ok(ManifestBuild { entries: manifest, catalog_index })
}

pub(crate) proof fn lemma_offset_rank_bounds(entries: Seq<ManifestEntryView>, offset: u64)
    ensures
        0 <= offset_rank(entries, offset) <= entries.len(),
    decreases entries.len(),
{
    if entries.len() > 0 && entries[0].source_offset <= offset {
        lemma_offset_rank_bounds(entries.skip(1), offset);
    }
}

proof fn lemma_insert_holds(
    entries: Seq<ManifestEntryView>,
    entry: ManifestEntryView,
    path: Seq<char>,
)
    ensures
        holds_path(insert_by_offset(entries, entry), path) <==> holds_path(entries, path)
            || entry.zip_path == path,
{
    let rank = offset_rank(entries, entry.source_offset);
    lemma_offset_rank_bounds(entries, entry.source_offset);
    let after = insert_by_offset(entries, entry);
    if entry.zip_path == path {
        assert(after[rank].zip_path == path);
    }
    if holds_path(entries, path) {
        let i = choose|i: int| 0 <= i < entries.len() && (#[trigger] entries[i]).zip_path == path;
        if i < rank {
            assert(after[i].zip_path == path);
        } else {
            assert(after[i + 1].zip_path == path);
        }
    }
    if holds_path(after, path) && entry.zip_path != path {
        let i = choose|i: int| 0 <= i < after.len() && (#[trigger] after[i]).zip_path == path;
        if i < rank {
            assert(entries[i].zip_path == path);
        } else {
            assert(entries[i - 1].zip_path == path);
        }
    }
}

/// How the paths of entries are counted: files that are not the embedded
/// catalog, or the first failure among the first `n` entries.
pub open spec fn counted_paths(stored: Seq<StoredEntryView>, n: int) -> core::result::Result<
    Seq<Seq<char>>,
    ErrorView,
>
    decreases n,
{
    if n <= 0 {
        Ok(Seq::empty())
    } else {
        match counted_paths(stored, n - 1) {
            Err(error) => Err(error),
            Ok(paths) => match stored_path(stored[n - 1].name) {
                Err(error) => Err(error),
                Ok((zip_path, is_directory)) => if is_directory || zip_path
                    == EMBEDDED_CATALOG_PATH@ {
                    Ok(paths)
                } else {
                    match entry_problem(stored[n - 1], zip_path, false, Some(S3_SINGLE_PUT_LIMIT)) {
                        Some(error) => Err(error),
                        None => if paths.contains(zip_path) {
                            Err(ErrorView::DuplicateZipPath(zip_path))
                        } else {
                            Ok(paths.push(zip_path))
                        },
                    }
                },
            },
        }
    }
}

/// Counts the file entries of a central directory, without directories and
/// without the embedded catalog.
pub fn count_zip_file_entries(entries: &Vec<StoredEntry>) -> (result: Result<usize>)
    ensures
        match counted_paths(stored_views(entries@), entries@.len() as int) {
            Ok(paths) => result is Ok && result->Ok_0 == paths.len(),
            Err(error) => result is Err && result->Err_0@ == error,
        },
{
    let ghost stored = stored_views(entries@);
    let ghost mut paths: Seq<Seq<char>> = Seq::empty();
    let mut seen: StringHashSet = StringHashSet::new();
    let mut count: usize = 0;
    let mut index: usize = 0;
    while index < entries.len()
        invariant
            index <= entries.len(),
            stored == stored_views(entries@),
            counted_paths(stored, index as int) == core::result::Result::<
                Seq<Seq<char>>,
                ErrorView,
            >::Ok(paths),
            count == paths.len(),
            count <= index,
            forall|path: Seq<char>| #[trigger] seen@.contains(path) <==> paths.contains(path),
        decreases entries.len() - index,
    {
        let entry = &entries[index];
        proof {
            assert(stored[index as int] == entry@);
            lemma_count_failure(stored, entries@.len() as int, index as int);
        }
        index += 1;
        let path = match stored_zip_entry_path(entry) {
            Ok(path) => path,
            Err(error) => return Err(error),
        };
        if path.is_directory || str_eq(&path.path, EMBEDDED_CATALOG_PATH) {
            continue;
        }
        if let Err(error) = validate_entry(entry, &path.path, false, Some(S3_SINGLE_PUT_LIMIT)) {
            return Err(error);
        }
        if seen.contains(&path.path) {
            return Err(Error::DuplicateZipPath(path.path));
        }
        let ghost added = path.path@;
        seen.insert(path.path);
        proof {
            let before = paths;
            paths = paths.push(added);
            assert forall|path: Seq<char>| #[trigger] seen@.contains(path) <==> paths.contains(
                path,
            ) by {
                if before.contains(path) {
                    let i = choose|i: int| 0 <= i < before.len() && before[i] == path;
                    assert(paths[i] == path);
                }
                if path == added {
                    assert(paths[before.len() as int] == path);
                }
                if paths.contains(path) && path != added {
                    let i = choose|i: int| 0 <= i < paths.len() && paths[i] == path;
                    assert(before[i] == path);
                }
            }
        }
        count += 1;
    }
    Ok(count)
}

proof fn lemma_count_failure(stored: Seq<StoredEntryView>, n: int, k: int)
    requires
        0 <= k < n <= stored.len(),
    ensures
        counted_paths(stored, k + 1) is Err ==> counted_paths(stored, n) == counted_paths(
            stored,
            k + 1,
        ),
    decreases n,
{
    if k + 1 < n {
        lemma_count_failure(stored, n - 1, k);
    }
}

/// What the digests of a catalog make of an entry.
pub open spec fn with_catalog_digest(
    entry: ManifestEntryView,
    digests: Map<Seq<char>, Seq<char>>,
) -> ManifestEntryView {
    ManifestEntryView {
        catalog_md5: if digests.contains_key(entry.zip_path) {
            Some(digests[entry.zip_path])
        } else {
            None
        },
        ..entry
    }
}

/// Gives each entry the digest that the embedded catalog holds for its path.
pub fn apply_embedded_catalog(
    entries: Vec<ManifestEntry>,
    catalog: StringHashMap<String>,
) -> (applied: Vec<ManifestEntry>)
    ensures
        applied@.len() == entries@.len(),
        forall|i: int|
            0 <= i < entries@.len() ==> (#[trigger] applied@[i])@ == with_catalog_digest(
                entries@[i]@,
                digest_views(catalog@),
            ),
{
    let mut applied: Vec<ManifestEntry> = Vec::new();
    let mut i: usize = 0;
    while i < entries.len()
        invariant
            i <= entries.len(),
            applied.len() == i,
            forall|k: int|
                0 <= k < i ==> (#[trigger] applied@[k])@ == with_catalog_digest(
                    entries@[k]@,
                    digest_views(catalog@),
                ),
        decreases entries.len() - i,
    {
        let mut entry = entries[i].clone();
        let ghost before = entry@;
        entry.catalog_md5 = match catalog.get(&entry.zip_path) {
            Some(md5) => Some(md5.clone()),
            None => None,
        };
        assert(entry@ == with_catalog_digest(before, digest_views(catalog@)));
        applied.push(entry);
        i += 1;
    }
    applied
}

/// Compares an entry's CRC32 with the expected one.
pub fn validate_crc32_value(expected: u32, actual: u32) -> (result: Result<()>)
    ensures
        result is Ok <==> actual == expected,
        result is Err ==> result->Err_0@ == ErrorView::Zip(
            "a computed CRC32 value did not match the expected value"@,
        ),
{
    if actual == expected {
        Ok(())
    } else {
        Err(
            Error::Zip(
                "a computed CRC32 value did not match the expected value".to_owned(),
            ),
        )
    }
}

/// A failure among the first entries is the outcome of them all.
proof fn lemma_fold_failure(stored: Seq<StoredEntryView>, n: int, k: int, rules: ManifestRules)
    requires
        0 <= k < n <= stored.len(),
    ensures
        manifest_fold(stored, k + 1, rules) is Err ==> manifest_fold(stored, n, rules)
            == manifest_fold(stored, k + 1, rules),
    decreases n,
{
    if k + 1 < n {
        lemma_fold_failure(stored, n - 1, k, rules);
    }
}

proof fn lemma_next_offset_of_permutation(spans: Seq<(u64, u64)>, sorted: Seq<(u64, u64)>, at: u64)
    requires
        spans.to_multiset() == sorted.to_multiset(),
    ensures
        next_offset(starts(sorted), at) == next_offset(starts(spans), at),
{
    broadcast use vstd::seq_lib::group_to_multiset_ensures;

    lemma_next_offset(starts(spans), at);
    let next = next_offset(starts(spans), at);
    assert forall|i: int| 0 <= i < sorted.len() implies exists|j: int|
        0 <= j < spans.len() && spans[j] == #[trigger] sorted[i] by {
        assert(sorted.contains(sorted[i]));
        assert(spans.to_multiset().count(sorted[i]) > 0);
        assert(spans.contains(sorted[i]));
    }
    assert forall|i: int| 0 <= i < starts(sorted).len() implies starts(spans).contains(
        #[trigger] starts(sorted)[i],
    ) by {
        let j = choose|j: int| 0 <= j < spans.len() && spans[j] == sorted[i];
        assert(starts(spans)[j] == starts(sorted)[i]);
    }
    if next is Some {
        let i = choose|i: int| 0 <= i < starts(spans).len() && starts(spans)[i] == next->Some_0;
        assert(spans.contains(spans[i]));
        assert(sorted.to_multiset().count(spans[i]) > 0);
        assert(sorted.contains(spans[i]));
        let j = choose|j: int| 0 <= j < sorted.len() && sorted[j] == spans[i];
        assert(starts(sorted)[j] == next->Some_0);
    }
    lemma_next_offset_is(starts(sorted), at, next);
}

/// Whether an entry is what one of the first `n` central directory entries gives.
pub open spec fn comes_from(
    entry: ManifestEntryView,
    stored: Seq<StoredEntryView>,
    n: int,
    rules: ManifestRules,
) -> bool {
    exists|k: int|
        0 <= k < n && #[trigger] stored_outcome(stored[k], rules) == StoredOutcome::Entry(entry)
}

/// Every manifest entry comes from the central directory.
pub proof fn law_manifest_entries_come_from_the_directory(
    stored: Seq<StoredEntryView>,
    n: int,
    rules: ManifestRules,
)
    requires
        0 <= n <= stored.len(),
    ensures
        match manifest_fold(stored, n, rules) {
            Ok((entries, _)) => forall|i: int|
                0 <= i < entries.len() ==> comes_from(#[trigger] entries[i], stored, n, rules),
            Err(_) => true,
        },
    decreases n,
{
    if n > 0 {
        law_manifest_entries_come_from_the_directory(stored, n - 1, rules);
        if let Ok((entries, _)) = manifest_fold(stored, n, rules) {
            let before = manifest_fold(stored, n - 1, rules)->Ok_0.0;
            assert forall|i: int| 0 <= i < entries.len() implies comes_from(
                #[trigger] entries[i],
                stored,
                n,
                rules,
            ) by {
                if let StoredOutcome::Entry(entry) = stored_outcome(stored[n - 1], rules) {
                    let rank = offset_rank(before, entry.source_offset);
                    lemma_offset_rank_bounds(before, entry.source_offset);
                    if i == rank {
                        assert(stored_outcome(stored[n - 1], rules) == StoredOutcome::Entry(
                            entries[i],
                        ));
                    } else {
                        let from = if i < rank {
                            i
                        } else {
                            i - 1
                        };
                        assert(entries[i] == before[from]);
                        assert(comes_from(before[from], stored, n - 1, rules));
                    }
                } else {
                    assert(comes_from(before[i], stored, n - 1, rules));
                }
            }
        }
    }
}

/// Every manifest entry is selected, has a path that is not refused and not
/// the reserved catalog path, goes to the key of that path under the
/// destination prefix, and has a source span within the source.
pub proof fn law_manifest_entries_are_extractable(
    stored: Seq<StoredEntryView>,
    n: int,
    rules: ManifestRules,
)
    requires
        0 <= n <= stored.len(),
    ensures
        match manifest_fold(stored, n, rules) {
            Ok((entries, _)) => forall|i: int|
                #![trigger entries[i]]
                0 <= i < entries.len() ==> {
                    let entry = entries[i];
                    &&& selection_selects(rules.lines, entry.zip_path)
                    &&& path_problem(entry.zip_path) is None
                    &&& names_directory(entry.zip_path) == entry.is_directory
                    &&& entry.zip_path != EMBEDDED_CATALOG_PATH@
                    &&& entry.key == destination_key(rules.prefix, entry.zip_path)
                    &&& entry.source_span_start == entry.source_offset
                    &&& entry.source_span_start <= entry.source_span_end <= rules.source_len
                    &&& entry.source_offset < rules.source_len
                    &&& entry.is_directory ==> entry.source_span_start == entry.source_span_end
                        && entry.size == 0 && entry.crc32 == 0
                    &&& !entry.is_directory ==> entry.compression.is_supported()
                    &&& !entry.is_directory ==> match rules.size_limit {
                        Some(limit) => entry.size <= limit,
                        None => true,
                    }
                },
            Err(_) => true,
        },
{
    law_manifest_entries_come_from_the_directory(stored, n, rules);
    reveal_strlit(".s3-unspool/catalog.v1.json");
    if let Ok((entries, _)) = manifest_fold(stored, n, rules) {
        assert forall|i: int| #![trigger entries[i]] 0 <= i < entries.len() implies {
            let entry = entries[i];
            &&& selection_selects(rules.lines, entry.zip_path)
            &&& path_problem(entry.zip_path) is None
            &&& names_directory(entry.zip_path) == entry.is_directory
            &&& entry.zip_path != EMBEDDED_CATALOG_PATH@
            &&& entry.key == destination_key(rules.prefix, entry.zip_path)
            &&& entry.source_span_start == entry.source_offset
            &&& entry.source_span_start <= entry.source_span_end <= rules.source_len
            &&& entry.source_offset < rules.source_len
            &&& entry.is_directory ==> entry.source_span_start == entry.source_span_end
                && entry.size == 0 && entry.crc32 == 0
            &&& !entry.is_directory ==> entry.compression.is_supported()
            &&& !entry.is_directory ==> match rules.size_limit {
                Some(limit) => entry.size <= limit,
                None => true,
            }
        } by {
            let entry = entries[i];
            let k = choose|k: int|
                0 <= k < n && #[trigger] stored_outcome(stored[k], rules) == StoredOutcome::Entry(
                    entry,
                );
            if let EntryNameView::Utf8(raw) = stored[k].name {
                crate::zip_path::law_normalized_path_is_stable(raw);
            }
        }
    }
}

/// Whether no two entries have the same path.
pub open spec fn paths_distinct(entries: Seq<ManifestEntryView>) -> bool {
    forall|i: int, j: int|
        0 <= i < j < entries.len() ==> (#[trigger] entries[i]).zip_path != (
        #[trigger] entries[j]).zip_path
}

/// Manifest entries stand in source order, and no path occurs twice.
pub proof fn law_manifest_is_ordered_and_distinct(
    stored: Seq<StoredEntryView>,
    n: int,
    rules: ManifestRules,
)
    requires
        0 <= n <= stored.len(),
    ensures
        match manifest_fold(stored, n, rules) {
            Ok((entries, _)) => in_source_order(entries) && paths_distinct(entries),
            Err(_) => true,
        },
    decreases n,
{
    if n > 0 {
        law_manifest_is_ordered_and_distinct(stored, n - 1, rules);
        if let Ok((entries, _)) = manifest_fold(stored, n, rules) {
            let before = manifest_fold(stored, n - 1, rules)->Ok_0.0;
            if let StoredOutcome::Entry(entry) = stored_outcome(stored[n - 1], rules) {
                let rank = offset_rank(before, entry.source_offset);
                lemma_offset_rank_splits(before, entry.source_offset);
                assert forall|i: int, j: int| 0 <= i <= j < entries.len() implies (
                #[trigger] entries[i]).source_offset <= (#[trigger] entries[j]).source_offset by {
                    let a = if i < rank {
                        i
                    } else {
                        i - 1
                    };
                    let b = if j < rank {
                        j
                    } else {
                        j - 1
                    };
                    if i != rank && j != rank {
                        assert(before[a].source_offset <= before[b].source_offset);
                    } else if i == rank && j > rank {
                        assert(before[rank].source_offset <= before[b].source_offset);
                    } else if j == rank && i < rank {
                        assert(before[a].source_offset <= entry.source_offset);
                    }
                }
                assert forall|i: int, j: int| 0 <= i < j < entries.len() implies (
                #[trigger] entries[i]).zip_path != (#[trigger] entries[j]).zip_path by {
                    let a = if i < rank {
                        i
                    } else {
                        i - 1
                    };
                    let b = if j < rank {
                        j
                    } else {
                        j - 1
                    };
                    if i == rank {
                        assert(before[b].zip_path != entry.zip_path);
                    } else if j == rank {
                        assert(before[a].zip_path != entry.zip_path);
                    } else {
                        assert(before[a].zip_path != before[b].zip_path);
                    }
                }
            }
        }
    }
}

proof fn lemma_offset_rank_splits(entries: Seq<ManifestEntryView>, offset: u64)
    ensures
        ({
            let rank = offset_rank(entries, offset);
            &&& 0 <= rank <= entries.len()
            &&& forall|i: int| 0 <= i < rank ==> (#[trigger] entries[i]).source_offset <= offset
            &&& rank < entries.len() ==> entries[rank].source_offset > offset
        }),
    decreases entries.len(),
{
    if entries.len() > 0 && entries[0].source_offset <= offset {
        let rest = entries.skip(1);
        lemma_offset_rank_splits(rest, offset);
        let rank = offset_rank(entries, offset);
        assert forall|i: int| 0 <= i < rank implies (#[trigger] entries[i]).source_offset
            <= offset by {
            if i > 0 {
                assert(rest[i - 1].source_offset <= offset);
            }
        }
        if rank < entries.len() {
            assert(rest[rank - 1].source_offset > offset);
        }
    }
}

/// The source spans of manifest entries do not run into entries that start
/// later in the source.
pub proof fn law_manifest_spans_do_not_overlap(
    stored: Seq<StoredEntryView>,
    rules: ManifestRules,
    i: int,
    j: int,
)
    requires
        rules.offsets == stored.map_values(|entry: StoredEntryView| entry.header_offset),
        manifest_fold(stored, stored.len() as int, rules) is Ok,
        ({
            let entries = manifest_fold(stored, stored.len() as int, rules)->Ok_0.0;
            0 <= i < entries.len() && 0 <= j < entries.len() && entries[i].source_offset
                < entries[j].source_offset
        }),
    ensures
        ({
            let entries = manifest_fold(stored, stored.len() as int, rules)->Ok_0.0;
            entries[i].source_span_end <= entries[j].source_span_start
        }),
{
    let n = stored.len() as int;
    let entries = manifest_fold(stored, n, rules)->Ok_0.0;
    law_manifest_entries_come_from_the_directory(stored, n, rules);
    assert(comes_from(entries[i], stored, n, rules) && comes_from(entries[j], stored, n, rules));
    let a = choose|k: int|
        0 <= k < n && #[trigger] stored_outcome(stored[k], rules) == StoredOutcome::Entry(
            entries[i],
        );
    let b = choose|k: int|
        0 <= k < n && #[trigger] stored_outcome(stored[k], rules) == StoredOutcome::Entry(
            entries[j],
        );
    lemma_next_offset(rules.offsets, stored[a].header_offset);
    assert(rules.offsets[b] == stored[b].header_offset);
}

} // verus!

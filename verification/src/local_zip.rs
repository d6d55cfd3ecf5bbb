//! Entries of a local ZIP file and what is to be done with them.
use vstd::hash_map::StringHashMap;
use vstd::hash_set::StringHashSet;
use vstd::prelude::*;
use vstd::string::*;

use crate::catalog::digest_views;
use crate::compression::Compression;
use crate::constants::{EMBEDDED_CATALOG_PATH, S3_SINGLE_PUT_LIMIT};
use crate::error::{Error, ErrorView, Result};
use crate::s3_uri::{destination_key, S3Prefix};
use crate::selection::{selection_selects, UnzipSelection};
use crate::text::{cat4, decimal, decimal_spec, str_eq};
use crate::zip_manifest::{
    clone_opt_string, entry_problem, opt_view, stored_path, stored_views, stored_zip_entry_path,
    validate_entry, ManifestEntry, ManifestEntryView, StoredEntry, StoredEntryView,
};
use crate::zip_path::{invalid_zip_entry, names_directory, path_problem};

verus! {

/// An entry of a local ZIP file.
#[derive(Debug)]
pub struct LocalZipEntry {
    /// Position in the central directory.
    pub index: usize,
    pub zip_path: String,
    /// Destination key, or the path again.
    pub destination: String,
    pub size: u64,
    pub compressed_size: u64,
    pub compression: Compression,
    pub crc32: u32,
    pub catalog_md5: Option<String>,
    pub is_directory: bool,
}

pub struct LocalEntryView {
    pub index: usize,
    pub zip_path: Seq<char>,
    pub destination: Seq<char>,
    pub size: u64,
    pub compressed_size: u64,
    pub compression: Compression,
    pub crc32: u32,
    pub catalog_md5: Option<Seq<char>>,
    pub is_directory: bool,
}

impl View for LocalZipEntry {
    type V = LocalEntryView;

    open spec fn view(&self) -> LocalEntryView {
        LocalEntryView {
            index: self.index,
            zip_path: self.zip_path@,
            destination: self.destination@,
            size: self.size,
            compressed_size: self.compressed_size,
            compression: self.compression,
            crc32: self.crc32,
            catalog_md5: opt_view(self.catalog_md5),
            is_directory: self.is_directory,
        }
    }
}

impl Clone for LocalZipEntry {
    fn clone(&self) -> (copy: LocalZipEntry)
        ensures
            copy@ == self@,
    {
        LocalZipEntry {
            index: self.index,
            zip_path: self.zip_path.clone(),
            destination: self.destination.clone(),
            size: self.size,
            compressed_size: self.compressed_size,
            compression: self.compression,
            crc32: self.crc32,
            catalog_md5: clone_opt_string(&self.catalog_md5),
            is_directory: self.is_directory,
        }
    }
}

pub open spec fn local_views(entries: Seq<LocalZipEntry>) -> Seq<LocalEntryView> {
    entries.map_values(|entry: LocalZipEntry| entry@)
}

/// The entries of a local ZIP file, and where the embedded catalog is.
#[derive(Debug)]
pub struct LocalZipEntries {
    pub entries: Vec<LocalZipEntry>,
    pub catalog_index: Option<usize>,
}

/// Why an entry cannot lie in a file of some length.
pub open spec fn local_span_problem(
    stored: StoredEntryView,
    zip_path: Seq<char>,
    source_len: u64,
) -> Option<ErrorView> {
    let end = stored.header_offset + stored.header_size + stored.compressed_size;
    if end > u64::MAX {
        Some(
            ErrorView::InvalidZipEntry {
                path: zip_path,
                reason: "central directory entry source span overflowed"@,
            },
        )
    } else if end > source_len {
        Some(
            ErrorView::InvalidZipEntry {
                path: zip_path,
                reason: "central directory entry source span ends at "@ + decimal_spec(end as nat)
                    + ", beyond source ZIP length "@ + decimal_spec(source_len as nat),
            },
        )
    } else {
        None
    }
}

/// Why an entry of a local ZIP file cannot be extracted.
pub open spec fn local_entry_problem(
    stored: StoredEntryView,
    zip_path: Seq<char>,
    is_directory: bool,
    enforce_s3_limit: bool,
    source_len: u64,
) -> Option<ErrorView> {
    match local_span_problem(stored, zip_path, source_len) {
        Some(error) => Some(error),
        None => entry_problem(
            stored,
            zip_path,
            is_directory,
            if enforce_s3_limit {
                Some(S3_SINGLE_PUT_LIMIT)
            } else {
                None
            },
        ),
    }
}

/// Checks an entry of a local ZIP file.
pub fn validate_local_stored_entry(
    stored: &StoredEntry,
    zip_path: &str,
    is_directory: bool,
    enforce_s3_limit: bool,
    source_len: u64,
) -> (result: Result<()>)
    ensures
        match local_entry_problem(stored@, zip_path@, is_directory, enforce_s3_limit, source_len) {
            Some(error) => result is Err && result->Err_0@ == error,
            None => result is Ok,
        },
{
    let header_end: u64 = match stored.header_offset.checked_add(stored.header_size) {
        Some(end) => end,
        None => return Err(
            invalid_zip_entry(zip_path, "central directory entry source span overflowed"),
        ),
    };
    let end: u64 = match header_end.checked_add(stored.compressed_size) {
        Some(end) => end,
        None => return Err(
            invalid_zip_entry(zip_path, "central directory entry source span overflowed"),
        ),
    };
    if end > source_len {
        let reason = cat4(
            "central directory entry source span ends at ",
            &decimal(end),
            ", beyond source ZIP length ",
            &decimal(source_len),
        );
        return Err(invalid_zip_entry(zip_path, &reason));
    }
    let limit: Option<u64> = if enforce_s3_limit {
        Some(S3_SINGLE_PUT_LIMIT)
    } else {
        None
    };
    validate_entry(stored, zip_path, is_directory, limit)
}

/// What decides which entries of a local ZIP file are taken.
pub struct LocalRules {
    /// Prefix of destination keys, where entries go to S3.
    pub prefix: Option<Seq<char>>,
    pub source_len: u64,
    pub enforce_s3_limit: bool,
    /// Selection lines.
    pub lines: Seq<Seq<char>>,
}

pub enum LocalOutcome {
    Failed(ErrorView),
    Catalog,
    Unselected,
    Entry(LocalEntryView),
}

/// What one central directory entry gives.
pub open spec fn local_outcome(stored: StoredEntryView, index: usize, rules: LocalRules) -> LocalOutcome {
    match stored_path(stored.name) {
        Err(error) => LocalOutcome::Failed(error),
        Ok((zip_path, is_directory)) => if !is_directory && zip_path == EMBEDDED_CATALOG_PATH@ {
            LocalOutcome::Catalog
        } else if !selection_selects(rules.lines, zip_path) {
            LocalOutcome::Unselected
        } else {
            match local_entry_problem(
                stored,
                zip_path,
                is_directory,
                rules.enforce_s3_limit,
                rules.source_len,
            ) {
                Some(error) => LocalOutcome::Failed(error),
                None => LocalOutcome::Entry(
                    LocalEntryView {
                        index,
                        zip_path,
                        destination: match rules.prefix {
                            Some(prefix) => destination_key(prefix, zip_path),
                            None => zip_path,
                        },
                        size: stored.uncompressed_size,
                        compressed_size: stored.compressed_size,
                        compression: stored.compression,
                        crc32: stored.crc32,
                        catalog_md5: None,
                        is_directory,
                    },
                ),
            }
        },
    }
}

pub open spec fn local_holds_path(entries: Seq<LocalEntryView>, zip_path: Seq<char>) -> bool {
    exists|i: int| 0 <= i < entries.len() && (#[trigger] entries[i]).zip_path == zip_path
}

/// The entries and the catalog index that the first `n` central directory
/// entries give, or the first failure among them.
pub open spec fn local_fold(stored: Seq<StoredEntryView>, n: int, rules: LocalRules) -> core::result::Result<
    (Seq<LocalEntryView>, Option<usize>),
    ErrorView,
>
    decreases n,
{
    if n <= 0 {
        Ok((Seq::empty(), None))
    } else {
        match local_fold(stored, n - 1, rules) {
            Err(error) => Err(error),
            Ok((entries, catalog_index)) => match local_outcome(
                stored[n - 1],
                (n - 1) as usize,
                rules,
            ) {
                LocalOutcome::Failed(error) => Err(error),
                LocalOutcome::Catalog => Ok((entries, Some((n - 1) as usize))),
                LocalOutcome::Unselected => Ok((entries, catalog_index)),
                LocalOutcome::Entry(entry) => if local_holds_path(entries, entry.zip_path) {
                    Err(ErrorView::DuplicateZipPath(entry.zip_path))
                } else {
                    Ok((entries.push(entry), catalog_index))
                },
            },
        }
    }
}

proof fn lemma_local_failure(stored: Seq<StoredEntryView>, n: int, k: int, rules: LocalRules)
    requires
        0 <= k < n <= stored.len(),
    ensures
        local_fold(stored, k + 1, rules) is Err ==> local_fold(stored, n, rules) == local_fold(
            stored,
            k + 1,
            rules,
        ),
    decreases n,
{
    if k + 1 < n {
        lemma_local_failure(stored, n - 1, k, rules);
    }
}

proof fn lemma_local_push(entries: Seq<LocalEntryView>, entry: LocalEntryView, path: Seq<char>)
    ensures
        local_holds_path(entries.push(entry), path) <==> local_holds_path(entries, path)
            || entry.zip_path == path,
{
    let now = entries.push(entry);
    if local_holds_path(entries, path) {
        let i = choose|i: int| 0 <= i < entries.len() && (#[trigger] entries[i]).zip_path == path;
        assert(now[i].zip_path == path);
    }
    if entry.zip_path == path {
        assert(now[entries.len() as int].zip_path == path);
    }
    if local_holds_path(now, path) && entry.zip_path != path {
        let i = choose|i: int| 0 <= i < now.len() && (#[trigger] now[i]).zip_path == path;
        assert(entries[i].zip_path == path);
    }
}

/// The rules for entries that go to an S3 prefix or, without one, to a directory.
pub open spec fn local_rules(
    destination: Option<&S3Prefix>,
    source_len: u64,
    enforce_s3_limit: bool,
    lines: Seq<Seq<char>>,
) -> LocalRules {
    LocalRules {
        prefix: match destination {
            Some(destination) => Some(destination.prefix@),
            None => None,
        },
        source_len,
        enforce_s3_limit,
        lines,
    }
}

fn local_zip_entries(
    stored_entries: &Vec<StoredEntry>,
    destination: Option<&S3Prefix>,
    source_len: u64,
    enforce_s3_limit: bool,
    selection: &UnzipSelection,
) -> (result: Result<LocalZipEntries>)
    ensures
        match local_fold(
            stored_views(stored_entries@),
            stored_entries@.len() as int,
            local_rules(destination, source_len, enforce_s3_limit, selection@),
        ) {
            Ok((entries, catalog_index)) => result is Ok && local_views(result->Ok_0.entries@)
                == entries && result->Ok_0.catalog_index == catalog_index,
            Err(error) => result is Err && result->Err_0@ == error,
        },
{
    let ghost stored = stored_views(stored_entries@);
    let ghost rules = local_rules(destination, source_len, enforce_s3_limit, selection@);
    let mut seen: StringHashSet = StringHashSet::new();
    let mut entries: Vec<LocalZipEntry> = Vec::new();
    let mut catalog_index: Option<usize> = None;
    let mut index: usize = 0;
    assert(local_views(entries@) =~= Seq::empty());
    while index < stored_entries.len()
        invariant
            index <= stored_entries.len(),
            stored == stored_views(stored_entries@),
            rules == local_rules(destination, source_len, enforce_s3_limit, selection@),
            local_fold(stored, index as int, rules) == core::result::Result::<
                (Seq<LocalEntryView>, Option<usize>),
                ErrorView,
            >::Ok((local_views(entries@), catalog_index)),
            forall|path: Seq<char>| #[trigger]
                seen@.contains(path) <==> local_holds_path(local_views(entries@), path),
        decreases stored_entries.len() - index,
    {
        let entry = &stored_entries[index];
        let ghost views = local_views(entries@);
        proof {
            assert(stored[index as int] == entry@);
            lemma_local_failure(stored, stored_entries@.len() as int, index as int, rules);
        }
        index += 1;
        let path = match stored_zip_entry_path(entry) {
            Ok(path) => path,
            Err(error) => return Err(error),
        };
        let zip_path = path.path;
        let is_directory: bool = path.is_directory;
        if !is_directory && str_eq(&zip_path, EMBEDDED_CATALOG_PATH) {
            catalog_index = Some(index - 1);
            continue;
        }
        if !selection.selects(&zip_path) {
            continue;
        }
        if let Err(error) = validate_local_stored_entry(
            entry,
            &zip_path,
            is_directory,
            enforce_s3_limit,
            source_len,
        ) {
            return Err(error);
        }
        if seen.contains(&zip_path) {
            return Err(Error::DuplicateZipPath(zip_path));
        }
        seen.insert(zip_path.clone());
        let target = match destination {
            Some(destination) => destination.join_key(&zip_path),
            None => zip_path.clone(),
        };
        let added = LocalZipEntry {
            index: index - 1,
            zip_path,
            destination: target,
            size: entry.uncompressed_size,
            compressed_size: entry.compressed_size,
            compression: entry.compression,
            crc32: entry.crc32,
            catalog_md5: None,
            is_directory,
        };
        let ghost added_view = added@;
        entries.push(added);
        proof {
            assert(local_views(entries@) =~= views.push(added_view));
            assert forall|path: Seq<char>| #[trigger] seen@.contains(path) <==> local_holds_path(
                local_views(entries@),
                path,
            ) by {
                lemma_local_push(views, added_view, path);
            }
        }
    }
    Ok(LocalZipEntries { entries, catalog_index })
}

/// The entries of a local ZIP file that go to an S3 prefix.
pub fn local_zip_entries_for_s3(
    stored_entries: &Vec<StoredEntry>,
    destination: &S3Prefix,
    source_len: u64,
    enforce_s3_limit: bool,
    selection: &UnzipSelection,
) -> (result: Result<LocalZipEntries>)
    ensures
        match local_fold(
            stored_views(stored_entries@),
            stored_entries@.len() as int,
            local_rules(Some(destination), source_len, enforce_s3_limit, selection@),
        ) {
            Ok((entries, catalog_index)) => result is Ok && local_views(result->Ok_0.entries@)
                == entries && result->Ok_0.catalog_index == catalog_index,
            Err(error) => result is Err && result->Err_0@ == error,
        },
{
    local_zip_entries(
        stored_entries,
        Some(destination),
        source_len,
        enforce_s3_limit,
        selection,
    )
}

/// The entries of a local ZIP file that go to a directory.
pub fn local_zip_entries_for_local(
    stored_entries: &Vec<StoredEntry>,
    source_len: u64,
    enforce_s3_limit: bool,
    selection: &UnzipSelection,
) -> (result: Result<LocalZipEntries>)
    ensures
        match local_fold(
            stored_views(stored_entries@),
            stored_entries@.len() as int,
            local_rules(None, source_len, enforce_s3_limit, selection@),
        ) {
            Ok((entries, catalog_index)) => result is Ok && local_views(result->Ok_0.entries@)
                == entries && result->Ok_0.catalog_index == catalog_index,
            Err(error) => result is Err && result->Err_0@ == error,
        },
{
    local_zip_entries(stored_entries, None, source_len, enforce_s3_limit, selection)
}

/// What the digests of a catalog make of an entry.
pub open spec fn with_local_digest(
    entry: LocalEntryView,
    digests: Map<Seq<char>, Seq<char>>,
) -> LocalEntryView {
    LocalEntryView {
        catalog_md5: if digests.contains_key(entry.zip_path) {
            Some(digests[entry.zip_path])
        } else {
            None
        },
        ..entry
    }
}

/// Gives each entry the digest that the embedded catalog holds for its path. A
/// catalog without digests changes nothing.
pub fn apply_local_catalog(entries: &mut Vec<LocalZipEntry>, catalog: &StringHashMap<String>)
    ensures
        final(entries)@.len() == old(entries)@.len(),
        forall|i: int|
            0 <= i < old(entries)@.len() ==> (#[trigger] final(entries)@[i])@ == if catalog@.len()
                == 0 {
                old(entries)@[i]@
            } else {
                with_local_digest(old(entries)@[i]@, digest_views(catalog@))
            },
{
    if catalog.len() == 0 {
        return;
    }
    let ghost before = entries@;
    let mut i: usize = 0;
    while i < entries.len()
        invariant
            i <= entries.len() == before.len(),
            catalog@.len() != 0,
            forall|k: int| i <= k < before.len() ==> (#[trigger] entries@[k]) == before[k],
            forall|k: int|
                0 <= k < i ==> (#[trigger] entries@[k])@ == with_local_digest(
                    before[k]@,
                    digest_views(catalog@),
                ),
        decreases entries.len() - i,
    {
        assert(entries@[i as int] == before[i as int]);
        let md5: Option<String> = match catalog.get(&entries[i].zip_path) {
            Some(md5) => Some(md5.clone()),
            None => None,
        };
        entries[i].catalog_md5 = md5;
        i += 1;
    }
}

/// A manifest entry as an entry that goes to a directory.
pub fn local_entry_from_manifest(entry: &ManifestEntry) -> (local: LocalZipEntry)
    ensures
        local@ == (LocalEntryView {
            index: 0,
            zip_path: entry.zip_path@,
            destination: entry.zip_path@,
            size: entry.size,
            compressed_size: entry.compressed_size,
            compression: entry.compression,
            crc32: entry.crc32,
            catalog_md5: entry@.catalog_md5,
            is_directory: entry.is_directory,
        }),
{
    LocalZipEntry {
        index: 0,
        zip_path: entry.zip_path.clone(),
        destination: entry.zip_path.clone(),
        size: entry.size,
        compressed_size: entry.compressed_size,
        compression: entry.compression,
        crc32: entry.crc32,
        catalog_md5: clone_opt_string(&entry.catalog_md5),
        is_directory: entry.is_directory,
    }
}

/// A local entry as a manifest entry.
pub fn local_manifest_entry(entry: &LocalZipEntry) -> (manifest: ManifestEntry)
    ensures
        manifest@ == (ManifestEntryView {
            source_offset: 0,
            source_span_start: 0,
            source_span_end: entry.compressed_size,
            zip_path: entry.zip_path@,
            key: entry.destination@,
            size: entry.size,
            compressed_size: entry.compressed_size,
            compression: entry.compression,
            crc32: entry.crc32,
            catalog_md5: entry@.catalog_md5,
            is_directory: entry.is_directory,
        }),
{
    ManifestEntry {
        source_offset: 0,
        source_span_start: 0,
        source_span_end: entry.compressed_size,
        zip_path: entry.zip_path.clone(),
        key: entry.destination.clone(),
        size: entry.size,
        compressed_size: entry.compressed_size,
        compression: entry.compression,
        crc32: entry.crc32,
        catalog_md5: clone_opt_string(&entry.catalog_md5),
        is_directory: entry.is_directory,
    }
}

/// The entries taken from a local ZIP file are selected, have paths that are
/// not refused and not reserved, and no path occurs twice.
pub proof fn law_local_entries_are_extractable(
    stored: Seq<StoredEntryView>,
    n: int,
    rules: LocalRules,
)
    requires
        0 <= n <= stored.len() <= usize::MAX,
    ensures
        match local_fold(stored, n, rules) {
            Ok((entries, _)) => {
                &&& forall|i: int|
                    #![trigger entries[i]]
                    0 <= i < entries.len() ==> {
                        let entry = entries[i];
                        &&& selection_selects(rules.lines, entry.zip_path)
                        &&& path_problem(entry.zip_path) is None
                        &&& names_directory(entry.zip_path) == entry.is_directory
                        &&& entry.zip_path != EMBEDDED_CATALOG_PATH@
                        &&& entry.index < n
                        &&& entry.destination == match rules.prefix {
                            Some(prefix) => destination_key(prefix, entry.zip_path),
                            None => entry.zip_path,
                        }
                    }
                &&& forall|i: int, j: int|
                    0 <= i < j < entries.len() ==> (#[trigger] entries[i]).zip_path != (
                    #[trigger] entries[j]).zip_path
            },
            Err(_) => true,
        },
    decreases n,
{
    reveal_strlit(".s3-unspool/catalog.v1.json");
    if n > 0 {
        law_local_entries_are_extractable(stored, n - 1, rules);
        if let Ok((entries, _)) = local_fold(stored, n, rules) {
            let before = local_fold(stored, n - 1, rules)->Ok_0.0;
            if let LocalOutcome::Entry(entry) = local_outcome(
                stored[n - 1],
                (n - 1) as usize,
                rules,
            ) {
                if let crate::zip_manifest::EntryNameView::Utf8(raw) = stored[n - 1].name {
                    crate::zip_path::law_normalized_path_is_stable(raw);
                }
                assert forall|i: int, j: int| 0 <= i < j < entries.len() implies (
                #[trigger] entries[i]).zip_path != (#[trigger] entries[j]).zip_path by {
                    if j < before.len() {
                        assert(before[i].zip_path != before[j].zip_path);
                    } else {
                        assert(before[i].zip_path != entry.zip_path);
                    }
                }
                assert forall|i: int| #![trigger entries[i]] 0 <= i < entries.len() implies {
                    let entry = entries[i];
                    &&& selection_selects(rules.lines, entry.zip_path)
                    &&& path_problem(entry.zip_path) is None
                    &&& names_directory(entry.zip_path) == entry.is_directory
                    &&& entry.zip_path != EMBEDDED_CATALOG_PATH@
                    &&& entry.index < n
                    &&& entry.destination == match rules.prefix {
                        Some(prefix) => destination_key(prefix, entry.zip_path),
                        None => entry.zip_path,
                    }
                } by {
                    if i < before.len() {
                        assert(entries[i] == before[i]);
                    }
                }
            }
        }
    }
}

} // verus!

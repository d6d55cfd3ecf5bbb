//! The entries of a ZIP archive that is to be written.
use std::cmp::Ordering;
use std::path::PathBuf;

use vstd::hash_set::StringHashSet;
use vstd::prelude::*;
use vstd::string::*;

use crate::constants::EMBEDDED_CATALOG_PATH;
use crate::error::{Error, ErrorView, Result};
use crate::listing::{list_error, listed_views, listing_failed, ListedObject, ListedView};
use crate::local_path::{
    invalid_local_path, part_views, upload_zip_path, zip_path_of, LocalPath, PartView,
};
use crate::s3_uri::{
    destination_key, law_destination_key_is_listed, list_prefix, normalized_list_prefix,
    prefix_uri, S3Prefix,
};
use crate::text::{
    cat2, cat3, decimal, decimal_spec, from_chars, signed_decimal, signed_decimal_spec,
    starts_with, starts_with_spec, str_eq, to_chars,
};
use crate::zip_manifest::opt_view;
use crate::zip_path::{
    invalid_zip_entry, law_normalized_path_is_stable, names_directory, normalize_zip_entry_path,
    normalized_path, path_problem,
};

verus! {

/// An entry of a ZIP archive that is to be written.
#[derive(Debug)]
pub struct UploadEntry {
    pub zip_path: String,
    pub size: u64,
    pub source: UploadEntrySource,
}

#[derive(Clone, Copy, Debug, PartialEq, Eq, Structural)]
pub enum UploadEntryKind {
    File,
    Directory,
}

/// Where the content of an entry comes from.
#[derive(Debug)]
pub enum UploadEntrySource {
    LocalFile(PathBuf),
    S3Object { bucket: String, key: String, etag: Option<String> },
    Directory,
}

pub enum UploadSourceView {
    LocalFile(PathBuf),
    S3Object { bucket: Seq<char>, key: Seq<char>, etag: Option<Seq<char>> },
    Directory,
}

pub struct UploadEntryView {
    pub zip_path: Seq<char>,
    pub size: u64,
    pub source: UploadSourceView,
}

impl View for UploadEntrySource {
    type V = UploadSourceView;

    open spec fn view(&self) -> UploadSourceView {
        match *self {
            UploadEntrySource::LocalFile(path) => UploadSourceView::LocalFile(path),
            UploadEntrySource::S3Object { bucket, key, etag } => UploadSourceView::S3Object {
                bucket: bucket@,
                key: key@,
                etag: opt_view(etag),
            },
            UploadEntrySource::Directory => UploadSourceView::Directory,
        }
    }
}

impl View for UploadEntry {
    type V = UploadEntryView;

    open spec fn view(&self) -> UploadEntryView {
        UploadEntryView { zip_path: self.zip_path@, size: self.size, source: self.source@ }
    }
}

pub open spec fn upload_views(entries: Seq<UploadEntry>) -> Seq<UploadEntryView> {
    entries.map_values(|entry: UploadEntry| entry@)
}

impl UploadEntry {
    pub fn is_directory(&self) -> (directory: bool)
        ensures
            directory == (self@.source is Directory),
    {
        matches!(self.source, UploadEntrySource::Directory)
    }

    pub fn is_file(&self) -> (file: bool)
        ensures
            file == !(self@.source is Directory),
    {
        !self.is_directory()
    }
}

/// The number of files among the first `n` entries.
pub open spec fn file_count(entries: Seq<UploadEntryView>, n: int) -> nat
    decreases n,
{
    if n <= 0 {
        0
    } else if entries[n - 1].source is Directory {
        file_count(entries, n - 1)
    } else {
        file_count(entries, n - 1) + 1
    }
}

/// The bytes of the files among the first `n` entries.
pub open spec fn file_bytes(entries: Seq<UploadEntryView>, n: int) -> nat
    decreases n,
{
    if n <= 0 {
        0
    } else if entries[n - 1].source is Directory {
        file_bytes(entries, n - 1)
    } else {
        file_bytes(entries, n - 1) + entries[n - 1].size as nat
    }
}

proof fn lemma_file_bytes_grow(entries: Seq<UploadEntryView>, n: int, m: int)
    requires
        n <= m,
    ensures
        file_bytes(entries, n) <= file_bytes(entries, m),
    decreases m - n,
{
    if n < m {
        lemma_file_bytes_grow(entries, n, m - 1);
    }
}

proof fn lemma_file_count(entries: Seq<UploadEntryView>, n: int)
    requires
        0 <= n,
    ensures
        file_count(entries, n) <= n,
    decreases n,
{
    if n > 0 {
        lemma_file_count(entries, n - 1);
    }
}

/// The bytes of the files among the entries.
pub fn upload_entries_uncompressed_bytes(entries: &Vec<UploadEntry>) -> (result: Result<u64>)
    ensures
        ({
            let total = file_bytes(upload_views(entries@), entries@.len() as int);
            if total <= u64::MAX {
                result is Ok && result->Ok_0 == total
            } else {
                result is Err && result->Err_0@ == ErrorView::InvalidOption(
                    "total upload size exceeds u64::MAX"@,
                )
            }
        }),
{
    let ghost views = upload_views(entries@);
    let mut total: u64 = 0;
    let mut i: usize = 0;
    while i < entries.len()
        invariant
            i <= entries.len(),
            views == upload_views(entries@),
            total == file_bytes(views, i as int),
        decreases entries.len() - i,
    {
        assert(views[i as int] == entries@[i as int]@);
        if entries[i].is_file() {
            match total.checked_add(entries[i].size) {
                Some(sum) => total = sum,
                None => {
                    proof {
                        lemma_file_bytes_grow(views, i + 1, entries@.len() as int);
                    }
                    return Err(
                        Error::InvalidOption("total upload size exceeds u64::MAX".to_owned()),
                    );
                },
            }
        }
        i += 1;
    }
    Ok(total)
}

/// What a ZIP archive that is to be written holds.
#[derive(Clone, Copy, Debug, PartialEq, Eq, Structural)]
pub struct UploadTotals {
    pub files: usize,
    pub directories: usize,
    pub entries: usize,
    pub uncompressed_bytes: u64,
}

/// Counts the files, directories and bytes of the entries.
pub fn upload_totals(entries: &Vec<UploadEntry>) -> (result: Result<UploadTotals>)
    ensures
        ({
            let views = upload_views(entries@);
            let n = entries@.len() as int;
            if file_bytes(views, n) <= u64::MAX {
                &&& result is Ok
                &&& result->Ok_0.files == file_count(views, n)
                &&& result->Ok_0.directories == n - file_count(views, n)
                &&& result->Ok_0.entries == n
                &&& result->Ok_0.uncompressed_bytes == file_bytes(views, n)
            } else {
                result is Err && result->Err_0@ == ErrorView::InvalidOption(
                    "total upload size exceeds u64::MAX"@,
                )
            }
        }),
{
    let ghost views = upload_views(entries@);
    let mut files: usize = 0;
    let mut i: usize = 0;
    while i < entries.len()
        invariant
            files <= i <= entries.len(),
            views == upload_views(entries@),
            files == file_count(views, i as int),
        decreases entries.len() - i,
    {
        assert(views[i as int] == entries@[i as int]@);
        if entries[i].is_file() {
            files += 1;
        }
        i += 1;
    }
    match upload_entries_uncompressed_bytes(entries) {
        Ok(uncompressed_bytes) => Ok(
            UploadTotals {
                files,
                directories: entries.len() - files,
                entries: entries.len(),
                uncompressed_bytes,
            },
        ),
        Err(error) => Err(error),
    }
}

/// The error of an entry that cannot be zipped.
pub open spec fn entry_refused(path: Seq<char>, reason: Seq<char>) -> ErrorView {
    ErrorView::InvalidZipEntry { path, reason }
}

/// The ZIP path and kind of an object under a source prefix. The marker of the
/// prefix itself has none.
pub open spec fn prefix_zip_path(
    bucket: Seq<char>,
    prefix: Seq<char>,
    key: Seq<char>,
    size: u64,
) -> core::result::Result<Option<(Seq<char>, UploadEntryKind)>, ErrorView> {
    let listed = list_prefix(prefix);
    let relative = key.skip(listed.len() as int);
    if !starts_with_spec(key, listed) {
        Err(entry_refused(key, "key is outside source prefix "@ + prefix_uri(bucket, prefix)))
    } else if relative.len() == 0 {
        if size == 0 {
            Ok(None)
        } else {
            Err(
                entry_refused(
                    key,
                    "source prefix root object cannot be represented as a ZIP entry"@,
                ),
            )
        }
    } else {
        match path_problem(relative) {
            Some(reason) => Err(entry_refused(relative, reason)),
            None => if !names_directory(relative) {
                Ok(Some((relative, UploadEntryKind::File)))
            } else if size == 0 {
                Ok(Some((normalized_path(relative), UploadEntryKind::Directory)))
            } else {
                Err(
                    entry_refused(
                        relative,
                        "trailing-slash S3 objects must be zero-byte directory markers"@,
                    ),
                )
            },
        }
    }
}

/// Finds the ZIP path and kind of an object under a source prefix.
pub fn s3_prefix_zip_path(source: &S3Prefix, key: &str, size: u64) -> (result: Result<
    Option<(String, UploadEntryKind)>,
>)
    ensures
        match prefix_zip_path(source.bucket@, source.prefix@, key@, size) {
            Ok(Some((zip_path, kind))) => result is Ok && result->Ok_0 is Some
                && result->Ok_0->Some_0.0@ == zip_path && result->Ok_0->Some_0.1 == kind,
            Ok(None) => result is Ok && result->Ok_0 is None,
            Err(error) => result is Err && result->Err_0@ == error,
        },
{
    let listed = normalized_list_prefix(&source.prefix);
    if !starts_with(key, &listed) {
        let reason = cat2("key is outside source prefix ", &source.uri());
        return Err(invalid_zip_entry(key, &reason));
    }
    let chars = to_chars(key);
    let skipped: usize = to_chars(&listed).len();
    let relative = from_chars(&chars, skipped, chars.len());
    assert(relative@ =~= key@.skip(skipped as int));
    if skipped == chars.len() {
        if size == 0 {
            return Ok(None);
        }
        return Err(
            invalid_zip_entry(
                key,
                "source prefix root object cannot be represented as a ZIP entry",
            ),
        );
    }
    match normalize_zip_entry_path(&relative) {
        Err(error) => Err(error),
        Ok(entry) => if !entry.is_directory {
            Ok(Some((entry.path, UploadEntryKind::File)))
        } else if size == 0 {
            Ok(Some((entry.path, UploadEntryKind::Directory)))
        } else {
            Err(
                invalid_zip_entry(
                    &relative,
                    "trailing-slash S3 objects must be zero-byte directory markers",
                ),
            )
        },
    }
}

/// Notes a ZIP path, which must not have been noted before.
pub fn record_upload_zip_path(seen: &mut StringHashSet, zip_path: &str) -> (result: Result<()>)
    ensures
        final(seen)@ == old(seen)@.insert(zip_path@),
        result is Ok <==> !old(seen)@.contains(zip_path@),
        result is Err ==> result->Err_0@ == ErrorView::DuplicateZipPath(zip_path@),
{
    if seen.insert(zip_path.to_owned()) {
        Ok(())
    } else {
        Err(Error::DuplicateZipPath(zip_path.to_owned()))
    }
}

/// Why an entry with a ZIP path cannot be taken in.
pub open spec fn upload_problem(
    seen: Set<Seq<char>>,
    zip_path: Seq<char>,
    kind: UploadEntryKind,
    size: u64,
    max_file_size: Option<u64>,
) -> Option<ErrorView> {
    if seen.contains(zip_path) {
        Some(ErrorView::DuplicateZipPath(zip_path))
    } else if kind == UploadEntryKind::File && zip_path == EMBEDDED_CATALOG_PATH@ {
        Some(
            entry_refused(
                zip_path,
                EMBEDDED_CATALOG_PATH@ + " is reserved for the embedded catalog"@,
            ),
        )
    } else if kind == UploadEntryKind::File && max_file_size is Some && size
        > max_file_size->Some_0 {
        Some(ErrorView::EntryTooLarge { path: zip_path, size })
    } else {
        None
    }
}

/// The entry of an object under a source prefix.
pub open spec fn prefix_entry(
    bucket: Seq<char>,
    prefix: Seq<char>,
    key: Seq<char>,
    size: u64,
    etag: Option<Seq<char>>,
    seen: Set<Seq<char>>,
    max_file_size: Option<u64>,
) -> core::result::Result<Option<UploadEntryView>, ErrorView> {
    match prefix_zip_path(bucket, prefix, key, size) {
        Err(error) => Err(error),
        Ok(None) => Ok(None),
        Ok(Some((zip_path, kind))) => match upload_problem(
            seen,
            zip_path,
            kind,
            size,
            max_file_size,
        ) {
            Some(error) => Err(error),
            None => Ok(
                Some(
                    UploadEntryView {
                        zip_path,
                        size,
                        source: match kind {
                            UploadEntryKind::File => UploadSourceView::S3Object {
                                bucket,
                                key,
                                etag,
                            },
                            UploadEntryKind::Directory => UploadSourceView::Directory,
                        },
                    },
                ),
            ),
        },
    }
}

/// The ZIP paths seen after an object.
pub open spec fn seen_after(
    bucket: Seq<char>,
    prefix: Seq<char>,
    key: Seq<char>,
    size: u64,
    seen: Set<Seq<char>>,
) -> Set<Seq<char>> {
    match prefix_zip_path(bucket, prefix, key, size) {
        Ok(Some((zip_path, _))) => seen.insert(zip_path),
        _ => seen,
    }
}

/// Makes the entry of an object under a source prefix.
pub fn s3_prefix_upload_entry(
    source: &S3Prefix,
    key: &str,
    size: u64,
    etag: Option<&str>,
    seen_zip_paths: &mut StringHashSet,
    max_file_size: Option<u64>,
) -> (result: Result<Option<UploadEntry>>)
    ensures
        final(seen_zip_paths)@ == seen_after(
            source.bucket@,
            source.prefix@,
            key@,
            size,
            old(seen_zip_paths)@,
        ),
        match prefix_entry(
            source.bucket@,
            source.prefix@,
            key@,
            size,
            opt_str(etag),
            old(seen_zip_paths)@,
            max_file_size,
        ) {
            Ok(Some(entry)) => result is Ok && result->Ok_0 is Some && result->Ok_0->Some_0@
                == entry,
            Ok(None) => result is Ok && result->Ok_0 is None,
            Err(error) => result is Err && result->Err_0@ == error,
        },
{
    let (zip_path, kind) = match s3_prefix_zip_path(source, key, size) {
        Ok(Some(found)) => found,
        Ok(None) => return Ok(None),
        Err(error) => return Err(error),
    };
    match record_upload_zip_path(seen_zip_paths, &zip_path) {
        Ok(()) => {},
        Err(error) => return Err(error),
    }
    if kind == UploadEntryKind::Directory {
        return Ok(Some(UploadEntry { zip_path, size, source: UploadEntrySource::Directory }));
    }
    if str_eq(&zip_path, EMBEDDED_CATALOG_PATH) {
        let reason = cat2(EMBEDDED_CATALOG_PATH, " is reserved for the embedded catalog");
        return Err(invalid_zip_entry(&zip_path, &reason));
    }
    if let Some(limit) = max_file_size {
        if size > limit {
            return Err(Error::EntryTooLarge { path: zip_path, size });
        }
    }
    let etag: Option<String> = match etag {
        Some(etag) => Some(etag.to_owned()),
        None => None,
    };
    Ok(
        Some(
            UploadEntry {
                zip_path,
                size,
                source: UploadEntrySource::S3Object {
                    bucket: source.bucket.clone(),
                    key: key.to_owned(),
                    etag,
                },
            },
        ),
    )
}

pub open spec fn opt_str(s: Option<&str>) -> Option<Seq<char>> {
    match s {
        Some(s) => Some(s@),
        None => None,
    }
}

/// The entries collected from a listing, and their ZIP paths.
pub struct Collected {
    pub entries: Seq<UploadEntryView>,
    pub seen: Set<Seq<char>>,
}

/// What is collected after one more listed object.
pub open spec fn collect_object(
    bucket: Seq<char>,
    prefix: Seq<char>,
    max_file_size: Option<u64>,
    before: Collected,
    object: ListedView,
) -> core::result::Result<Collected, ErrorView> {
    match (object.key, object.size) {
        (None, _) => Err(
            list_error(bucket, list_prefix(prefix), "listed object did not include a key"@),
        ),
        (Some(key), None) => Err(list_error(bucket, key, "listed object did not include a size"@)),
        (Some(key), Some(size)) => if size < 0 {
            Err(
                list_error(
                    bucket,
                    key,
                    "listed object had negative size "@ + signed_decimal_spec(size as int),
                ),
            )
        } else {
            match prefix_entry(
                bucket,
                prefix,
                key,
                size as u64,
                object.etag,
                before.seen,
                max_file_size,
            ) {
                Err(error) => Err(error),
                Ok(None) => Ok(before),
                Ok(Some(entry)) => Ok(
                    Collected {
                        entries: before.entries.push(entry),
                        seen: before.seen.insert(entry.zip_path),
                    },
                ),
            }
        },
    }
}

/// What is collected after the first `n` listed objects, or the first error.
pub open spec fn collect_objects(
    bucket: Seq<char>,
    prefix: Seq<char>,
    max_file_size: Option<u64>,
    before: Collected,
    page: Seq<ListedView>,
    n: int,
) -> core::result::Result<Collected, ErrorView>
    decreases n,
{
    if n <= 0 {
        Ok(before)
    } else {
        match collect_objects(bucket, prefix, max_file_size, before, page, n - 1) {
            Err(error) => Err(error),
            Ok(collected) => collect_object(
                bucket,
                prefix,
                max_file_size,
                collected,
                page[n - 1],
            ),
        }
    }
}

proof fn lemma_collect_error(
    bucket: Seq<char>,
    prefix: Seq<char>,
    max_file_size: Option<u64>,
    before: Collected,
    page: Seq<ListedView>,
    n: int,
    m: int,
)
    requires
        n <= m,
        collect_objects(bucket, prefix, max_file_size, before, page, n) is Err,
    ensures
        collect_objects(bucket, prefix, max_file_size, before, page, m) == collect_objects(
            bucket,
            prefix,
            max_file_size,
            before,
            page,
            n,
        ),
    decreases m - n,
{
    if n < m {
        lemma_collect_error(bucket, prefix, max_file_size, before, page, n, m - 1);
    }
}

fn collect_listed_object(
    source: &S3Prefix,
    max_file_size: Option<u64>,
    object: &ListedObject,
    entries: &mut Vec<UploadEntry>,
    seen: &mut StringHashSet,
) -> (result: Result<()>)
    ensures
        match collect_object(
            source.bucket@,
            source.prefix@,
            max_file_size,
            (Collected { entries: upload_views(old(entries)@), seen: old(seen)@ }),
            object@,
        ) {
            Ok(after) => result is Ok && after == (Collected {
                entries: upload_views(final(entries)@),
                seen: final(seen)@,
            }),
            Err(error) => result is Err && result->Err_0@ == error,
        },
{
    let key = match &object.key {
        Some(key) => key,
        None => return Err(
            listing_failed(
                &source.bucket,
                &normalized_list_prefix(&source.prefix),
                "listed object did not include a key".to_owned(),
            ),
        ),
    };
    let size: i64 = match object.size {
        Some(size) => size,
        None => return Err(
            listing_failed(
                &source.bucket,
                key,
                "listed object did not include a size".to_owned(),
            ),
        ),
    };
    if size < 0 {
        let message = cat2("listed object had negative size ", &signed_decimal(size));
        return Err(listing_failed(&source.bucket, key, message));
    }
    let etag: Option<&str> = match &object.etag {
        Some(etag) => Some(etag.as_str()),
        None => None,
    };
    let ghost before = upload_views(entries@);
    match s3_prefix_upload_entry(source, key, size as u64, etag, seen, max_file_size) {
        Err(error) => Err(error),
        Ok(None) => Ok(()),
        Ok(Some(entry)) => {
            let ghost added = entry@;
            entries.push(entry);
            assert(upload_views(entries@) =~= before.push(added));
            Ok(())
        },
    }
}

/// Takes in a page of the listing of a source prefix. Entries of a page that
/// fails are of no use.
fn collect_listed_page(
    source: &S3Prefix,
    max_file_size: Option<u64>,
    page: Vec<ListedObject>,
    entries: &mut Vec<UploadEntry>,
    seen: &mut StringHashSet,
) -> (result: Result<()>)
    ensures
        match collect_objects(
            source.bucket@,
            source.prefix@,
            max_file_size,
            (Collected { entries: upload_views(old(entries)@), seen: old(seen)@ }),
            listed_views(page@),
            page@.len() as int,
        ) {
            Ok(after) => result is Ok && after == (Collected {
                entries: upload_views(final(entries)@),
                seen: final(seen)@,
            }),
            Err(error) => result is Err && result->Err_0@ == error,
        },
{
    let ghost before = Collected { entries: upload_views(entries@), seen: seen@ };
    let ghost views = listed_views(page@);
    let mut i: usize = 0;
    while i < page.len()
        invariant
            i <= page.len(),
            views == listed_views(page@),
            before == (Collected { entries: upload_views(old(entries)@), seen: old(seen)@ }),
            collect_objects(
                source.bucket@,
                source.prefix@,
                max_file_size,
                before,
                views,
                i as int,
            ) == Ok::<Collected, ErrorView>(
                Collected { entries: upload_views(entries@), seen: seen@ },
            ),
        decreases page.len() - i,
    {
        assert(views[i as int] == page@[i as int]@);
        match collect_listed_object(source, max_file_size, &page[i], entries, seen) {
            Ok(()) => {},
            Err(error) => {
                proof {
                    lemma_collect_error(
                        source.bucket@,
                        source.prefix@,
                        max_file_size,
                        before,
                        views,
                        i + 1,
                        page@.len() as int,
                    );
                }
                return Err(error);
            },
        }
        i += 1;
    }
    Ok(())
}

/// The entries collected from the listing of a source prefix.
pub struct PrefixCollection {
    entries: Vec<UploadEntry>,
    seen: StringHashSet,
}

impl View for PrefixCollection {
    type V = Collected;

    closed spec fn view(&self) -> Collected {
        Collected { entries: upload_views(self.entries@), seen: self.seen@ }
    }
}

impl PrefixCollection {
    /// A collection of which no page was listed yet.
    pub fn new() -> (collection: PrefixCollection)
        ensures
            collection@ == (Collected { entries: Seq::empty(), seen: Set::empty() }),
            paths_noted(collection@),
    {
        let collection = PrefixCollection { entries: Vec::new(), seen: StringHashSet::new() };
        assert(collection@.entries =~= Seq::empty());
        collection
    }

    /// Takes in a page of the listing.
    pub fn add_page(
        &mut self,
        source: &S3Prefix,
        max_file_size: Option<u64>,
        page: Vec<ListedObject>,
    ) -> (result: Result<()>)
        ensures
            match collect_objects(
                source.bucket@,
                source.prefix@,
                max_file_size,
                old(self)@,
                listed_views(page@),
                page@.len() as int,
            ) {
                Ok(after) => result is Ok && final(self)@ == after,
                Err(error) => result is Err && result->Err_0@ == error,
            },
    {
        collect_listed_page(source, max_file_size, page, &mut self.entries, &mut self.seen)
    }

    /// The entries in the order in which they are written: by ZIP path.
    pub fn finish(self) -> (sorted: Vec<UploadEntry>)
        ensures
            sorted_by_zip_path(sorted@),
            upload_views(sorted@).to_multiset() == self@.entries.to_multiset(),
    {
        let ghost before = self.entries@;
        let sorted = finish_upload_entries(self.entries);
        proof {
            lemma_views_of_permutation(before, sorted@);
        }
        sorted
    }
}

pub(crate) proof fn lemma_views_of_permutation(first: Seq<UploadEntry>, second: Seq<UploadEntry>)
    requires
        first.to_multiset() == second.to_multiset(),
    ensures
        upload_views(first).to_multiset() == upload_views(second).to_multiset(),
    decreases first.len(),
{
    broadcast use vstd::seq_lib::group_to_multiset_ensures;

    if first.len() == 0 {
        assert(second.len() == 0) by {
            assert(second.to_multiset().len() == second.len());
            assert(first.to_multiset().len() == first.len());
        }
        assert(upload_views(first) =~= upload_views(second));
    } else {
        let last = first.last();
        let front = first.drop_last();
        assert(first =~= front.push(last));
        assert(first.to_multiset().count(last) > 0) by {
            assert(first.contains(last));
        }
        assert(second.contains(last)) by {
            assert(second.to_multiset().count(last) > 0);
        }
        let at = choose|at: int| 0 <= at < second.len() && second[at] == last;
        let rest = second.remove(at);
        assert(second.to_multiset().remove(last) =~= rest.to_multiset());
        assert(front.to_multiset() =~= first.to_multiset().remove(last));
        lemma_views_of_permutation(front, rest);
        assert(upload_views(first) =~= upload_views(front).push(last@));
        assert(upload_views(rest) =~= upload_views(second).remove(at));
        assert(upload_views(second)[at] == last@);
        assert(upload_views(rest).to_multiset() =~= upload_views(second).to_multiset().remove(
            last@,
        ));
        assert(upload_views(second).contains(last@));
        assert(upload_views(first).to_multiset() =~= upload_views(second).to_multiset());
    }
}

/// Whether a text comes before another in the order of code points, or is the same.
pub open spec fn text_leq(a: Seq<char>, b: Seq<char>) -> bool
    decreases a.len(),
{
    if a.len() == 0 {
        true
    } else if b.len() == 0 {
        false
    } else if a[0] != b[0] {
        a[0] < b[0]
    } else {
        text_leq(a.skip(1), b.skip(1))
    }
}

proof fn lemma_text_leq_at(a: Seq<char>, b: Seq<char>, i: int)
    requires
        0 <= i <= a.len(),
        i <= b.len(),
        a.take(i) == b.take(i),
    ensures
        text_leq(a, b) == text_leq(a.skip(i), b.skip(i)),
    decreases i,
{
    if i == 0 {
        assert(a.skip(0) =~= a);
        assert(b.skip(0) =~= b);
    } else {
        assert(a.take(i)[0] == a[0]);
        assert(b.take(i)[0] == b[0]);
        let x = a.skip(1);
        let y = b.skip(1);
        assert forall|k: int| 0 <= k < i - 1 implies x[k] == y[k] by {
            assert(a.take(i)[k + 1] == a[k + 1]);
            assert(b.take(i)[k + 1] == b[k + 1]);
        }
        assert(x.take(i - 1) =~= y.take(i - 1));
        lemma_text_leq_at(x, y, i - 1);
        assert(x.skip(i - 1) =~= a.skip(i));
        assert(y.skip(i - 1) =~= b.skip(i));
    }
}

/// How two texts are ordered.
#[derive(Clone, Copy, Debug, PartialEq, Eq, Structural)]
enum TextOrder {
    Before,
    Same,
    After,
}

fn text_order(left: &str, right: &str) -> (order: TextOrder)
    ensures
        (order == TextOrder::Same) == (left@ == right@),
        (order == TextOrder::Before) == (left@ != right@ && text_leq(left@, right@)),
{
    let a = to_chars(left);
    let b = to_chars(right);
    let mut i: usize = 0;
    while i < a.len() && i < b.len() && a[i] == b[i]
        invariant
            a@ == left@,
            b@ == right@,
            i <= a.len(),
            i <= b.len(),
            forall|k: int| 0 <= k < i ==> a@[k] == b@[k],
        decreases a.len() - i,
    {
        i += 1;
    }
    proof {
        assert(a@.take(i as int) =~= b@.take(i as int));
        lemma_text_leq_at(a@, b@, i as int);
    }
    if i == a.len() && i == b.len() {
        assert(a@ =~= b@);
        TextOrder::Same
    } else if i == a.len() {
        TextOrder::Before
    } else if i == b.len() {
        TextOrder::After
    } else if a[i] < b[i] {
        assert(a@[i as int] != b@[i as int]);
        TextOrder::Before
    } else {
        TextOrder::After
    }
}

/// How the ZIP paths of two entries are ordered: by their code points.
fn zip_path_order(left: &UploadEntry, right: &UploadEntry) -> (order: Ordering)
    ensures
        order == Ordering::Equal <==> left.zip_path@ == right.zip_path@,
        order == Ordering::Less <==> left.zip_path@ != right.zip_path@ && text_leq(
            left.zip_path@,
            right.zip_path@,
        ),
{
    match text_order(&left.zip_path, &right.zip_path) {
        TextOrder::Before => Ordering::Less,
        TextOrder::Same => Ordering::Equal,
        TextOrder::After => Ordering::Greater,
    }
}

pub open spec fn sorted_by_zip_path(entries: Seq<UploadEntry>) -> bool {
    forall|i: int, j: int|
        0 <= i <= j < entries.len() ==> text_leq(
            (#[trigger] entries[i]).zip_path@,
            (#[trigger] entries[j]).zip_path@,
        )
}

/// `slice::sort_unstable_by` puts the entries in the order that the comparison
/// of their ZIP paths gives, and neither adds nor loses any.
#[verifier::external_body]
pub(crate) fn sort_by_zip_path(entries: &mut Vec<UploadEntry>)
    ensures
        sorted_by_zip_path(final(entries)@),
        final(entries)@.to_multiset() == old(entries)@.to_multiset(),
{
    entries.sort_unstable_by(|left, right| zip_path_order(left, right));
}

/// The entries in the order in which they are written: by ZIP path.
pub fn finish_upload_entries(entries: Vec<UploadEntry>) -> (sorted: Vec<UploadEntry>)
    ensures
        sorted_by_zip_path(sorted@),
        sorted@.to_multiset() == entries@.to_multiset(),
{
    let mut entries = entries;
    sort_by_zip_path(&mut entries);
    entries
}

/// What was found in a directory that is zipped, links not followed.
#[derive(Clone, Copy, Debug, PartialEq, Eq, Structural)]
pub enum SourceKind {
    Symlink,
    Directory,
    File,
    Other,
}

/// Checks what is found at the path of a directory that is to be zipped.
pub fn check_source_root(shown: &str, kind: SourceKind) -> (result: Result<()>)
    ensures
        match kind {
            SourceKind::Directory => result is Ok,
            SourceKind::Symlink => result is Err && result->Err_0@ == (ErrorView::InvalidLocalPath {
                path: shown@,
                reason: "symbolic links are not supported"@,
            }),
            _ => result is Err && result->Err_0@ == (ErrorView::InvalidLocalPath {
                path: shown@,
                reason: "source must be a directory"@,
            }),
        },
{
    match kind {
        SourceKind::Directory => Ok(()),
        SourceKind::Symlink => Err(invalid_local_path(shown, "symbolic links are not supported")),
        _ => Err(invalid_local_path(shown, "source must be a directory")),
    }
}

/// The ZIP path of something found in a directory that is zipped, or why it
/// cannot be zipped. What lies in a directory is found on its own.
pub open spec fn found_zip_path(
    source: Seq<PartView>,
    path: Seq<PartView>,
    kind: SourceKind,
    size: u64,
    max_file_size: Option<u64>,
) -> core::result::Result<Option<Seq<char>>, Seq<char>> {
    match kind {
        SourceKind::Symlink => Err("symbolic links are not supported"@),
        SourceKind::Directory => Ok(None),
        SourceKind::Other => Err("only regular files are supported"@),
        SourceKind::File => if max_file_size is Some && size > max_file_size->Some_0 {
            Err(
                "file is "@ + decimal_spec(size as nat)
                    + " bytes, larger than the S3 single PutObject limit"@,
            )
        } else {
            match zip_path_of(source, path) {
                Err(reason) => Err(reason),
                Ok(zip_path) => if zip_path == EMBEDDED_CATALOG_PATH@ {
                    Err(EMBEDDED_CATALOG_PATH@ + " is reserved for the embedded catalog"@)
                } else {
                    Ok(Some(zip_path))
                },
            }
        },
    }
}

/// Makes the entry of something found in a directory that is zipped. A
/// directory has none: what lies in it is found on its own.
pub fn local_upload_entry(
    source_dir: &LocalPath,
    path: &LocalPath,
    kind: SourceKind,
    size: u64,
    max_file_size: Option<u64>,
    file: PathBuf,
) -> (result: Result<Option<UploadEntry>>)
    ensures
        match found_zip_path(
            part_views(source_dir.parts@),
            part_views(path.parts@),
            kind,
            size,
            max_file_size,
        ) {
            Ok(None) => result is Ok && result->Ok_0 is None,
            Ok(Some(zip_path)) => result is Ok && result->Ok_0 is Some && result->Ok_0->Some_0@
                == (UploadEntryView { zip_path, size, source: UploadSourceView::LocalFile(file) }),
            Err(reason) => result is Err && result->Err_0@ == (ErrorView::InvalidLocalPath {
                path: path.shown@,
                reason,
            }),
        },
{
    match kind {
        SourceKind::Symlink => return Err(
            invalid_local_path(&path.shown, "symbolic links are not supported"),
        ),
        SourceKind::Directory => return Ok(None),
        SourceKind::Other => return Err(
            invalid_local_path(&path.shown, "only regular files are supported"),
        ),
        SourceKind::File => {},
    }
    if let Some(limit) = max_file_size {
        if size > limit {
            let reason = cat3(
                "file is ",
                &decimal(size),
                " bytes, larger than the S3 single PutObject limit",
            );
            return Err(invalid_local_path(&path.shown, &reason));
        }
    }
    let zip_path = match upload_zip_path(source_dir, path) {
        Ok(zip_path) => zip_path,
        Err(error) => return Err(error),
    };
    if str_eq(&zip_path, EMBEDDED_CATALOG_PATH) {
        let reason = cat2(EMBEDDED_CATALOG_PATH, " is reserved for the embedded catalog");
        return Err(invalid_local_path(&path.shown, &reason));
    }
    Ok(Some(UploadEntry { zip_path, size, source: UploadEntrySource::LocalFile(file) }))
}

/// Makes the entry of a directory that was looked through. One that holds
/// something has none, nor has the source directory itself.
pub fn empty_directory_entry(source_dir: &LocalPath, directory: &LocalPath, has_child: bool) -> (result:
    Result<Option<UploadEntry>>)
    ensures
        ({
            let source = part_views(source_dir.parts@);
            let path = part_views(directory.parts@);
            if has_child || path == source {
                result is Ok && result->Ok_0 is None
            } else {
                match zip_path_of(source, path) {
                    Ok(zip_path) => result is Ok && result->Ok_0 is Some && result->Ok_0->Some_0@
                        == (UploadEntryView {
                        zip_path: zip_path + "/"@,
                        size: 0,
                        source: UploadSourceView::Directory,
                    }),
                    Err(reason) => result is Err && result->Err_0@
                        == (ErrorView::InvalidLocalPath { path: directory.shown@, reason }),
                }
            }
        }),
{
    if has_child {
        return Ok(None);
    }
    if directory.parts.len() == source_dir.parts.len() && directory.starts_with(source_dir) {
        assert(part_views(directory.parts@) =~= part_views(directory.parts@).take(
            source_dir.parts@.len() as int,
        ));
        return Ok(None);
    }
    proof {
        let path = part_views(directory.parts@);
        assert(path.take(path.len() as int) =~= path);
    }
    match upload_zip_path(source_dir, directory) {
        Ok(zip_path) => Ok(
            Some(
                UploadEntry {
                    zip_path: cat2(&zip_path, "/"),
                    size: 0,
                    source: UploadEntrySource::Directory,
                },
            ),
        ),
        Err(error) => Err(error),
    }
}

/// Whether the ZIP paths of the entries are distinct, and all noted.
pub open spec fn paths_noted(collected: Collected) -> bool {
    &&& forall|i: int|
        0 <= i < collected.entries.len() ==> collected.seen.contains(
            (#[trigger] collected.entries[i]).zip_path,
        )
    &&& forall|i: int, j: int|
        0 <= i < j < collected.entries.len() ==> (#[trigger] collected.entries[i]).zip_path
            != (#[trigger] collected.entries[j]).zip_path
}

/// However a source prefix is listed, page by page, the entries collected have
/// distinct ZIP paths.
pub proof fn law_collected_paths_are_distinct(
    bucket: Seq<char>,
    prefix: Seq<char>,
    max_file_size: Option<u64>,
    before: Collected,
    page: Seq<ListedView>,
    n: int,
)
    requires
        paths_noted(before),
    ensures
        match collect_objects(bucket, prefix, max_file_size, before, page, n) {
            Ok(after) => paths_noted(after),
            Err(_) => true,
        },
    decreases n,
{
    if n > 0 {
        law_collected_paths_are_distinct(bucket, prefix, max_file_size, before, page, n - 1);
        match collect_objects(bucket, prefix, max_file_size, before, page, n - 1) {
            Ok(middle) => match collect_object(bucket, prefix, max_file_size, middle, page[n - 1]) {
                Ok(after) => {
                    if after.entries != middle.entries {
                        let added = after.entries.last();
                        assert(!middle.seen.contains(added.zip_path));
                        assert forall|i: int, j: int| 0 <= i < j < after.entries.len() implies (
                        #[trigger] after.entries[i]).zip_path != (
                        #[trigger] after.entries[j]).zip_path by {
                            assert(after.entries[i] == middle.entries[i]);
                        }
                    }
                },
                Err(_) => {},
            },
            Err(_) => {},
        }
    }
}

/// What extraction writes under a prefix is zipped under the path that it was
/// extracted from: files as files, and empty markers as directories.
pub proof fn law_extracted_objects_zip_back(
    bucket: Seq<char>,
    prefix: Seq<char>,
    raw: Seq<char>,
    size: u64,
)
    requires
        path_problem(raw) is None,
        names_directory(raw) ==> size == 0,
    ensures
        prefix_zip_path(bucket, prefix, destination_key(prefix, normalized_path(raw)), size)
            == Ok::<Option<(Seq<char>, UploadEntryKind)>, ErrorView>(
            Some(
                (
                    normalized_path(raw),
                    if names_directory(raw) {
                        UploadEntryKind::Directory
                    } else {
                        UploadEntryKind::File
                    },
                ),
            ),
        ),
{
    law_destination_key_is_listed(prefix, normalized_path(raw));
    law_normalized_path_is_stable(raw);
}

/// Nothing is taken in under the path that the embedded catalog has.
pub proof fn law_reserved_path_is_not_taken_in(
    source: Seq<PartView>,
    path: Seq<PartView>,
    kind: SourceKind,
    size: u64,
    max_file_size: Option<u64>,
    bucket: Seq<char>,
    prefix: Seq<char>,
    key: Seq<char>,
    etag: Option<Seq<char>>,
    seen: Set<Seq<char>>,
)
    ensures
        found_zip_path(source, path, kind, size, max_file_size) != Ok::<
            Option<Seq<char>>,
            Seq<char>,
        >(Some(EMBEDDED_CATALOG_PATH@)),
        match prefix_entry(bucket, prefix, key, size, etag, seen, max_file_size) {
            Ok(Some(entry)) => entry.zip_path != EMBEDDED_CATALOG_PATH@,
            _ => true,
        },
{
    reveal_strlit(".s3-unspool/catalog.v1.json");
    match prefix_zip_path(bucket, prefix, key, size) {
        Ok(Some((zip_path, UploadEntryKind::Directory))) => {
            assert(zip_path.last() == '/');
            assert(EMBEDDED_CATALOG_PATH@.last() == 'n');
        },
        _ => {},
    }
}

/// The order of ZIP paths is total.
pub proof fn law_zip_path_order_is_total(a: Seq<char>, b: Seq<char>, c: Seq<char>)
    ensures
        text_leq(a, b) || text_leq(b, a),
        text_leq(a, b) && text_leq(b, a) ==> a == b,
        text_leq(a, b) && text_leq(b, c) ==> text_leq(a, c),
    decreases a.len(),
{
    if a.len() > 0 && b.len() > 0 {
        let x = a.skip(1);
        let y = b.skip(1);
        if c.len() > 0 {
            law_zip_path_order_is_total(x, y, c.skip(1));
        } else {
            law_zip_path_order_is_total(x, y, c);
        }
        if a[0] == b[0] && x == y {
            assert(a =~= seq![a[0]] + x);
            assert(b =~= seq![b[0]] + y);
        }
    } else if a.len() == 0 && b.len() == 0 {
        assert(a =~= b);
    }
}

} // verus!

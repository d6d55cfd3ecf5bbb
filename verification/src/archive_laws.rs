//! What an archive is written from, and in which order.
use vstd::prelude::*;
use vstd::string::*;

use crate::archive_writer::{
    after_entry, after_pushes, content_md5, fresh_content, law_pushed_content_is_kept,
    length_problem, ArchiveRunView,
};
use crate::digest::{hex_text, joined_chunks, md5_digest};
use crate::multipart::{is_part_number, UPLOAD_MULTIPART_MAX_ZIP_BYTES, UPLOAD_MULTIPART_PART_SIZE};
use crate::upload_entries::{
    file_bytes, file_count, law_zip_path_order_is_total, sorted_by_zip_path, text_leq, UploadEntry,
    UploadEntryView, UploadSourceView,
};

verus! {

/// Entries are written in the order of their paths: where two paths first differ, the
/// smaller character comes first, and a path comes before all that it begins.
pub proof fn law_paths_are_ordered_by_their_first_difference(
    common: Seq<char>,
    first: Seq<char>,
    second: Seq<char>,
)
    ensures
        text_leq(common, common + second),
        second.len() > 0 ==> !text_leq(common + second, common),
        first.len() > 0 && second.len() > 0 && first[0] != second[0] ==> (text_leq(
            common + first,
            common + second,
        ) <==> first[0] < second[0]),
    decreases common.len(),
{
    if common.len() > 0 {
        let rest = common.skip(1);
        law_paths_are_ordered_by_their_first_difference(rest, first, second);
        assert((common + first).skip(1) =~= rest + first);
        assert((common + second).skip(1) =~= rest + second);
        assert((common + first)[0] == common[0]);
        assert((common + second)[0] == common[0]);
    } else {
        assert(common + first =~= first);
        assert(common + second =~= second);
        assert(common =~= Seq::<char>::empty());
    }
}

/// An entry as it was written: its path, its size, and its digest where it has one.
pub struct WrittenEntry {
    pub zip_path: Seq<char>,
    pub bytes: u64,
    pub md5: Option<Seq<char>>,
}

/// How far an archive is after its first `n` entries.
pub open spec fn after_entries(
    run: ArchiveRunView,
    entries: Seq<WrittenEntry>,
    n: int,
) -> ArchiveRunView
    decreases n,
{
    if n <= 0 {
        run
    } else {
        let entry = entries[n - 1];
        after_entry(after_entries(run, entries, n - 1), entry.zip_path, entry.bytes, entry.md5)
    }
}

/// The catalog of an archive has a line for every entry with a digest, with its path
/// and digest, and no other lines. Every entry is counted.
pub proof fn law_every_digest_is_cataloged(
    run: ArchiveRunView,
    entries: Seq<WrittenEntry>,
    n: int,
    line: (Seq<char>, Seq<char>),
)
    requires
        0 <= n <= entries.len(),
        run.catalog.len() == 0,
        run.processed_files == 0,
        n <= usize::MAX,
    ensures
        after_entries(run, entries, n).catalog.contains(line) <==> exists|i: int|
            0 <= i < n && (#[trigger] entries[i]).zip_path == line.0 && entries[i].md5 == Some(
                line.1,
            ),
        after_entries(run, entries, n).processed_files == n,
        after_entries(run, entries, n).include_catalog == run.include_catalog,
        after_entries(run, entries, n).total_files == run.total_files,
        after_entries(run, entries, n).total_bytes == run.total_bytes,
    decreases n,
{
    if n > 0 {
        law_every_digest_is_cataloged(run, entries, n - 1, line);
        let before = after_entries(run, entries, n - 1).catalog;
        let now = after_entries(run, entries, n).catalog;
        let entry = entries[n - 1];
        if let Some(md5) = entry.md5 {
            assert(now == before.push((entry.zip_path, md5)));
            assert(now[before.len() as int] == (entry.zip_path, md5));
            if before.contains(line) {
                let k = before.index_of(line);
                assert(now[k] == line);
            }
            if now.contains(line) && line != (entry.zip_path, md5) {
                let k = now.index_of(line);
                assert(before[k] == line);
            }
            if line == (entry.zip_path, md5) {
                assert(entries[n - 1].zip_path == line.0);
            }
        }
    }
}

/// The totals of an archive add up entry by entry: each file counts once, with its
/// size, and directories count neither as files nor as bytes.
pub proof fn law_totals_add_up(entries: Seq<UploadEntryView>, entry: UploadEntryView)
    ensures
        file_count(Seq::empty(), 0) == 0,
        file_bytes(Seq::empty(), 0) == 0,
        file_count(entries.push(entry), entries.len() as int + 1) == file_count(
            entries,
            entries.len() as int,
        ) + if entry.source is Directory {
            0nat
        } else {
            1nat
        },
        file_bytes(entries.push(entry), entries.len() as int + 1) == file_bytes(
            entries,
            entries.len() as int,
        ) + if entry.source is Directory {
            0nat
        } else {
            entry.size as nat
        },
{
    lemma_totals_of_front(entries, entry, entries.len() as int);
}

proof fn lemma_totals_of_front(entries: Seq<UploadEntryView>, entry: UploadEntryView, n: int)
    requires
        0 <= n <= entries.len(),
    ensures
        file_count(entries.push(entry), n) == file_count(entries, n),
        file_bytes(entries.push(entry), n) == file_bytes(entries, n),
    decreases n,
{
    if n > 0 {
        lemma_totals_of_front(entries, entry, n - 1);
    }
}

/// The body of an object must be as long as it was listed. A local file may have
/// grown or shrunk since it was found.
pub proof fn law_objects_are_as_long_as_listed(entry: UploadEntryView, bytes: nat)
    ensures
        match entry.source {
            UploadSourceView::S3Object { bucket, key, etag } => length_problem(entry, bytes)
                is None <==> bytes == entry.size,
            UploadSourceView::LocalFile(_) => length_problem(entry, bytes) is None,
            UploadSourceView::Directory => length_problem(entry, bytes) is Some,
        },
{
}

/// Sorted entries follow each other by their paths.
pub proof fn law_sorted_entries_follow_their_paths(
    entries: Seq<UploadEntry>,
    i: int,
    j: int,
)
    requires
        sorted_by_zip_path(entries),
        0 <= i < j < entries.len(),
        entries[i].zip_path@ != entries[j].zip_path@,
    ensures
        !text_leq(entries[j].zip_path@, entries[i].zip_path@),
{
    law_zip_path_order_is_total(
        entries[i].zip_path@,
        entries[j].zip_path@,
        entries[i].zip_path@,
    );
    assert(text_leq(entries[i].zip_path@, entries[j].zip_path@));
}

/// No part is smaller than S3 takes but the last, and there are no more than it takes.
pub proof fn law_parts_are_as_s3_takes_them(number: int)
    ensures
        UPLOAD_MULTIPART_PART_SIZE >= 5 * 1024 * 1024,
        UPLOAD_MULTIPART_PART_SIZE as int * 10_000 == UPLOAD_MULTIPART_MAX_ZIP_BYTES,
        is_part_number(number) <==> 1 <= number <= 10_000,
{
}

/// Every file of an archive with a catalog is digested, and its digest is that of its
/// content. Without a catalog nothing is digested.
pub proof fn law_cataloged_files_are_digested(
    run: ArchiveRunView,
    zip_path: Seq<char>,
    chunks: Seq<Seq<u8>>,
    n: int,
)
    requires
        0 <= n <= chunks.len(),
    ensures
        ({
            let content = after_pushes(fresh_content(run, zip_path), chunks, n);
            &&& content.content == joined_chunks(chunks, n)
            &&& content.entry == zip_path
            &&& run.include_catalog ==> content_md5(content) == Some(
                hex_text(md5_digest(joined_chunks(chunks, n))),
            )
            &&& !run.include_catalog ==> content_md5(content) is None
        }),
{
    let start = fresh_content(run, zip_path);
    law_pushed_content_is_kept(start, chunks, n);
    assert(start.content + joined_chunks(chunks, n) =~= joined_chunks(chunks, n));
}

} // verus!

//! The course of writing a ZIP archive: content digests, the embedded catalog
//! and progress events.
use vstd::prelude::*;
use vstd::string::*;

use crate::catalog::{catalog_digests, catalog_lines, EmbeddedCatalog, EmbeddedCatalogEntry};
use crate::constants::{EMBEDDED_CATALOG_PATH, EMBEDDED_CATALOG_VERSION};
use crate::digest::{
    hex_encode, hex_text, joined_chunks, law_hex_digest_is_md5_hex, md5_absorbed, md5_digest,
    md5_finish, md5_start, md5_update,
};
use crate::error::{Error, ErrorView, Result};
use crate::options::UploadProgress;
use crate::text::{cat5, decimal, decimal_spec};
use crate::upload_entries::{
    UploadEntry, UploadEntrySource, UploadEntryView, UploadSourceView, UploadTotals,
};
use crate::zip_manifest::opt_view;
use crate::zip_path::{names_directory, path_problem};

verus! {

/// The bytes between progress events of a file.
pub const UPLOAD_PROGRESS_BYTE_GRANULARITY: u64 = 8 * 1024 * 1024;

pub enum ProgressView {
    Planned { total_files: usize, total_bytes: u64 },
    FileStarted {
        current_file: usize,
        total_files: usize,
        processed_files: usize,
        processed_bytes: u64,
        total_bytes: u64,
        path: Seq<char>,
    },
    FileProgress {
        current_file: usize,
        total_files: usize,
        processed_files: usize,
        processed_bytes: u64,
        total_bytes: u64,
        path: Seq<char>,
    },
    FileFinished {
        processed_files: usize,
        total_files: usize,
        processed_bytes: u64,
        total_bytes: u64,
        path: Seq<char>,
    },
    Finished { total_files: usize, total_bytes: u64 },
}

impl View for UploadProgress {
    type V = ProgressView;

    open spec fn view(&self) -> ProgressView {
        match *self {
            UploadProgress::Planned { total_files, total_bytes } => ProgressView::Planned {
                total_files,
                total_bytes,
            },
            UploadProgress::FileStarted {
                current_file,
                total_files,
                processed_files,
                processed_bytes,
                total_bytes,
                path,
            } => ProgressView::FileStarted {
                current_file,
                total_files,
                processed_files,
                processed_bytes,
                total_bytes,
                path: path@,
            },
            UploadProgress::FileProgress {
                current_file,
                total_files,
                processed_files,
                processed_bytes,
                total_bytes,
                path,
            } => ProgressView::FileProgress {
                current_file,
                total_files,
                processed_files,
                processed_bytes,
                total_bytes,
                path: path@,
            },
            UploadProgress::FileFinished {
                processed_files,
                total_files,
                processed_bytes,
                total_bytes,
                path,
            } => ProgressView::FileFinished {
                processed_files,
                total_files,
                processed_bytes,
                total_bytes,
                path: path@,
            },
            UploadProgress::Finished { total_files, total_bytes } => ProgressView::Finished {
                total_files,
                total_bytes,
            },
        }
    }
}

/// Announces what an archive will hold.
pub fn upload_planned(totals: &UploadTotals) -> (event: UploadProgress)
    ensures
        event@ == (ProgressView::Planned {
            total_files: totals.entries,
            total_bytes: totals.uncompressed_bytes,
        }),
{
    UploadProgress::Planned {
        total_files: totals.entries,
        total_bytes: totals.uncompressed_bytes,
    }
}

/// Announces that an archive is written.
pub fn upload_finished(totals: &UploadTotals) -> (event: UploadProgress)
    ensures
        event@ == (ProgressView::Finished {
            total_files: totals.entries,
            total_bytes: totals.uncompressed_bytes,
        }),
{
    UploadProgress::Finished {
        total_files: totals.entries,
        total_bytes: totals.uncompressed_bytes,
    }
}

/// How far the writing of an archive is.
pub struct ArchiveRun {
    include_catalog: bool,
    total_files: usize,
    total_bytes: u64,
    processed_files: usize,
    processed_bytes: u64,
    catalog: Vec<EmbeddedCatalogEntry>,
}

pub struct ArchiveRunView {
    pub include_catalog: bool,
    pub total_files: usize,
    pub total_bytes: u64,
    pub processed_files: usize,
    pub processed_bytes: u64,
    /// The paths and digests of the files written.
    pub catalog: Seq<(Seq<char>, Seq<char>)>,
}

impl View for ArchiveRun {
    type V = ArchiveRunView;

    closed spec fn view(&self) -> ArchiveRunView {
        ArchiveRunView {
            include_catalog: self.include_catalog,
            total_files: self.total_files,
            total_bytes: self.total_bytes,
            processed_files: self.processed_files,
            processed_bytes: self.processed_bytes,
            catalog: catalog_lines(self.catalog@),
        }
    }
}

pub open spec fn saturated_sum(a: u64, b: u64) -> u64 {
    if a + b > u64::MAX {
        u64::MAX
    } else {
        (a + b) as u64
    }
}

fn saturating_sum(a: u64, b: u64) -> (sum: u64)
    ensures
        sum == saturated_sum(a, b),
{
    if a > u64::MAX - b {
        u64::MAX
    } else {
        a + b
    }
}

/// How far an archive is after one more entry, with its digest where it has one.
pub open spec fn after_entry(
    run: ArchiveRunView,
    zip_path: Seq<char>,
    file_bytes: u64,
    md5: Option<Seq<char>>,
) -> ArchiveRunView {
    ArchiveRunView {
        processed_files: (run.processed_files + 1) as usize,
        processed_bytes: saturated_sum(run.processed_bytes, file_bytes),
        catalog: match md5 {
            Some(md5) => run.catalog.push((zip_path, md5)),
            None => run.catalog,
        },
        ..run
    }
}

impl ArchiveRun {
    /// An archive of which nothing is written.
    pub fn new(totals: &UploadTotals, include_catalog: bool) -> (run: ArchiveRun)
        ensures
            run@ == (ArchiveRunView {
                include_catalog,
                total_files: totals.entries,
                total_bytes: totals.uncompressed_bytes,
                processed_files: 0,
                processed_bytes: 0,
                catalog: Seq::empty(),
            }),
    {
        let run = ArchiveRun {
            include_catalog,
            total_files: totals.entries,
            total_bytes: totals.uncompressed_bytes,
            processed_files: 0,
            processed_bytes: 0,
            catalog: Vec::new(),
        };
        assert(catalog_lines(run.catalog@) =~= Seq::empty());
        run
    }

    /// Whether entries are left to be written.
    pub fn has_next(&self) -> (left: bool)
        ensures
            left == (self@.processed_files < self@.total_files),
    {
        self.processed_files < self.total_files
    }

    /// Announces that an entry is being written.
    pub fn entry_started(&self, entry: &UploadEntry) -> (event: UploadProgress)
        requires
            self@.processed_files < self@.total_files,
        ensures
            event@ == (ProgressView::FileStarted {
                current_file: (self@.processed_files + 1) as usize,
                total_files: self@.total_files,
                processed_files: self@.processed_files,
                processed_bytes: self@.processed_bytes,
                total_bytes: self@.total_bytes,
                path: entry.zip_path@,
            }),
    {
        UploadProgress::FileStarted {
            current_file: self.processed_files + 1,
            total_files: self.total_files,
            processed_files: self.processed_files,
            processed_bytes: self.processed_bytes,
            total_bytes: self.total_bytes,
            path: entry.zip_path.clone(),
        }
    }

    /// Starts the content of a file.
    pub fn start_content(&self, entry: &UploadEntry) -> (content: EntryContent)
        requires
            self@.processed_files < self@.total_files,
        ensures
            content.wf(),
            content@ == fresh_content(self@, entry@.zip_path),
    {
        let hasher = if self.include_catalog {
            Some(md5_start())
        } else {
            None
        };
        EntryContent {
            run: Ghost(self@),
            zip_path: entry.zip_path.clone(),
            current_file: self.processed_files + 1,
            total_files: self.total_files,
            processed_files: self.processed_files,
            processed_bytes: self.processed_bytes,
            total_bytes: self.total_bytes,
            hasher,
            content: Ghost(Seq::empty()),
            file_bytes: 0,
            next_progress_bytes: saturating_sum(
                self.processed_bytes,
                UPLOAD_PROGRESS_BYTE_GRANULARITY,
            ),
        }
    }

    /// Counts an entry that is written, and notes its digest, where it has one.
    pub fn entry_finished(&mut self, entry: &UploadEntry, file_bytes: u64, md5: Option<String>) -> (event:
        UploadProgress)
        requires
            old(self)@.processed_files < old(self)@.total_files,
        ensures
            final(self)@ == after_entry(old(self)@, entry.zip_path@, file_bytes, opt_view(md5)),
            event@ == (ProgressView::FileFinished {
                processed_files: final(self)@.processed_files,
                total_files: final(self)@.total_files,
                processed_bytes: final(self)@.processed_bytes,
                total_bytes: final(self)@.total_bytes,
                path: entry.zip_path@,
            }),
    {
        let ghost before = catalog_lines(self.catalog@);
        self.processed_files += 1;
        self.processed_bytes = saturating_sum(self.processed_bytes, file_bytes);
        if let Some(md5) = md5 {
            self.catalog.push(EmbeddedCatalogEntry { path: entry.zip_path.clone(), md5 });
            assert(catalog_lines(self.catalog@) =~= before.push((entry.zip_path@, md5@)));
        }
        UploadProgress::FileFinished {
            processed_files: self.processed_files,
            total_files: self.total_files,
            processed_bytes: self.processed_bytes,
            total_bytes: self.total_bytes,
            path: entry.zip_path.clone(),
        }
    }

    /// The catalog to embed, where one is wanted.
    pub fn into_catalog(self) -> (catalog: Option<EmbeddedCatalog>)
        ensures
            catalog is Some <==> self@.include_catalog,
            catalog is Some ==> catalog->Some_0.version == EMBEDDED_CATALOG_VERSION
                && catalog_lines(catalog->Some_0.entries@) == self@.catalog,
    {
        if self.include_catalog {
            Some(EmbeddedCatalog { version: EMBEDDED_CATALOG_VERSION, entries: self.catalog })
        } else {
            None
        }
    }
}

/// The content of a file on its way into an archive.
pub struct EntryContent {
    run: Ghost<ArchiveRunView>,
    zip_path: String,
    current_file: usize,
    total_files: usize,
    processed_files: usize,
    processed_bytes: u64,
    total_bytes: u64,
    hasher: Option<md5::Md5>,
    content: Ghost<Seq<u8>>,
    file_bytes: u64,
    next_progress_bytes: u64,
}

pub struct EntryContentView {
    /// How far the archive was before the file.
    pub run: ArchiveRunView,
    pub entry: Seq<char>,
    /// The content so far.
    pub content: Seq<u8>,
    /// Whether the content is digested.
    pub hashed: bool,
    /// The processed bytes at which the next event is due.
    pub next_progress_bytes: u64,
}

impl View for EntryContent {
    type V = EntryContentView;

    closed spec fn view(&self) -> EntryContentView {
        EntryContentView {
            run: self.run@,
            entry: self.zip_path@,
            content: self.content@,
            hashed: self.hasher is Some,
            next_progress_bytes: self.next_progress_bytes,
        }
    }
}

/// The first mark after `now`, counting from the mark `next`.
pub open spec fn mark_after(next: u64, now: int) -> u64 {
    if now < next {
        next
    } else {
        let step = UPLOAD_PROGRESS_BYTE_GRANULARITY as int;
        let mark = next + ((now - next) / step + 1) * step;
        if mark > u64::MAX {
            u64::MAX
        } else {
            mark as u64
        }
    }
}

proof fn lemma_mark_step(next: u64, now: int)
    requires
        next <= now < u64::MAX,
    ensures
        mark_after(saturated_sum(next, UPLOAD_PROGRESS_BYTE_GRANULARITY), now) == mark_after(
            next,
            now,
        ),
{
    let step = 8388608int;
    let d = now - next;
    assert(d < step ==> (d / step + 1) * step == step) by (nonlinear_arith)
        requires
            0 <= d,
            step == 8388608,
    ;
    assert(d >= step ==> (d / step + 1) * step == step + ((d - step) / step + 1) * step)
        by (nonlinear_arith)
        requires
            0 <= d,
            step == 8388608,
    ;
}

/// The content of a file of which nothing was taken in.
pub open spec fn fresh_content(run: ArchiveRunView, zip_path: Seq<char>) -> EntryContentView {
    EntryContentView {
        run,
        entry: zip_path,
        content: Seq::empty(),
        hashed: run.include_catalog,
        next_progress_bytes: saturated_sum(
            run.processed_bytes,
            UPLOAD_PROGRESS_BYTE_GRANULARITY,
        ),
    }
}

/// The digest of the content in hexadecimal, where it is digested.
pub open spec fn content_md5(content: EntryContentView) -> Option<Seq<char>> {
    if content.hashed {
        Some(hex_text(md5_digest(content.content)))
    } else {
        None
    }
}

/// The content after one more chunk.
pub open spec fn after_push(content: EntryContentView, chunk: Seq<u8>) -> EntryContentView {
    EntryContentView {
        content: content.content + chunk,
        next_progress_bytes: mark_after(
            content.next_progress_bytes,
            content.run.processed_bytes + content.content.len() + chunk.len(),
        ),
        ..content
    }
}

/// The content after the first `n` chunks.
pub open spec fn after_pushes(
    content: EntryContentView,
    chunks: Seq<Seq<u8>>,
    n: int,
) -> EntryContentView
    decreases n,
{
    if n <= 0 {
        content
    } else {
        after_push(after_pushes(content, chunks, n - 1), chunks[n - 1])
    }
}

/// The error of an object whose body is not as long as was listed.
pub open spec fn length_problem(entry: UploadEntryView, bytes: nat) -> Option<ErrorView> {
    match entry.source {
        UploadSourceView::S3Object { bucket, key, etag } => if bytes != entry.size {
            Some(
                ErrorView::S3 {
                    operation: "GetObject"@,
                    bucket,
                    key,
                    message: "object body returned "@ + decimal_spec(bytes)
                        + " bytes but listing declared "@ + decimal_spec(entry.size as nat)
                        + " bytes"@,
                },
            )
        } else {
            None
        },
        UploadSourceView::LocalFile(_) => None,
        UploadSourceView::Directory => Some(
            ErrorView::Build(
                "directory entry "@ + entry.zip_path + " reached file writer"@,
            ),
        ),
    }
}

impl EntryContent {
    /// The counters agree with the content and the archive's course.
    pub closed spec fn wf(&self) -> bool {
        &&& self.current_file == self.run@.processed_files + 1
        &&& self.total_files == self.run@.total_files
        &&& self.processed_files == self.run@.processed_files
        &&& self.processed_bytes == self.run@.processed_bytes
        &&& self.total_bytes == self.run@.total_bytes
        &&& self.file_bytes == self.content@.len()
        &&& match self.hasher {
            Some(hasher) => md5_absorbed(hasher) == self.content@,
            None => true,
        }
    }

    /// Whether a chunk of a length can still be counted.
    pub fn has_room_for(&self, len: usize) -> (room: bool)
        requires
            self.wf(),
        ensures
            room == (self@.run.processed_bytes + self@.content.len() + len < u64::MAX),
    {
        let used: u64 = saturating_sum(self.processed_bytes, self.file_bytes);
        used < u64::MAX && (len as u64) < u64::MAX - used
    }

    /// Takes a chunk of the content in. An event is due once the processed
    /// bytes have reached the next mark.
    pub fn push(&mut self, chunk: &[u8]) -> (event: Option<UploadProgress>)
        requires
            old(self).wf(),
            old(self)@.run.processed_bytes + old(self)@.content.len() + chunk@.len() < u64::MAX,
        ensures
            final(self).wf(),
            ({
                let before = old(self)@;
                let now = before.run.processed_bytes + before.content.len() + chunk@.len();
                &&& final(self)@ == after_push(before, chunk@)
                &&& event is Some <==> now >= before.next_progress_bytes
                &&& event is Some ==> event->Some_0@ == (ProgressView::FileProgress {
                    current_file: (before.run.processed_files + 1) as usize,
                    total_files: before.run.total_files,
                    processed_files: before.run.processed_files,
                    processed_bytes: now as u64,
                    total_bytes: before.run.total_bytes,
                    path: before.entry,
                })
            }),
    {
        if let Some(hasher) = &mut self.hasher {
            md5_update(hasher, chunk);
        }
        self.content = Ghost(self.content@ + chunk@);
        self.file_bytes = self.file_bytes + chunk.len() as u64;
        let now: u64 = self.processed_bytes + self.file_bytes;
        if now < self.next_progress_bytes {
            return None;
        }
        let event = UploadProgress::FileProgress {
            current_file: self.current_file,
            total_files: self.total_files,
            processed_files: self.processed_files,
            processed_bytes: now,
            total_bytes: self.total_bytes,
            path: self.zip_path.clone(),
        };
        self.advance_mark(now);
        Some(event)
    }

    fn advance_mark(&mut self, now: u64)
        requires
            old(self).wf(),
            now < u64::MAX,
        ensures
            final(self).wf(),
            final(self)@ == (EntryContentView {
                next_progress_bytes: mark_after(old(self)@.next_progress_bytes, now as int),
                ..old(self)@
            }),
    {
        let mut next: u64 = self.next_progress_bytes;
        while next <= now
            invariant
                now < u64::MAX,
                self.next_progress_bytes == old(self).next_progress_bytes,
                mark_after(next, now as int) == mark_after(
                    old(self).next_progress_bytes,
                    now as int,
                ),
                *self == *old(self),
            decreases u64::MAX - next,
        {
            proof {
                lemma_mark_step(next, now as int);
            }
            next = saturating_sum(next, UPLOAD_PROGRESS_BYTE_GRANULARITY);
        }
        self.next_progress_bytes = next;
    }

    /// Ends the content: its length and, where it was digested, its digest in
    /// hexadecimal.
    pub fn finish(self, entry: &UploadEntry) -> (result: Result<(u64, Option<String>)>)
        requires
            self.wf(),
        ensures
            match length_problem(entry@, self@.content.len()) {
                Some(error) => result is Err && result->Err_0@ == error,
                None => {
                    &&& result is Ok
                    &&& result->Ok_0.0 == self@.content.len()
                    &&& opt_view(result->Ok_0.1) == content_md5(self@)
                },
            },
    {
        match &entry.source {
            UploadEntrySource::LocalFile(_) => {},
            UploadEntrySource::S3Object { bucket, key, etag: _ } => if self.file_bytes
                != entry.size {
                let message = cat5(
                    "object body returned ",
                    &decimal(self.file_bytes),
                    " bytes but listing declared ",
                    &decimal(entry.size),
                    " bytes",
                );
                return Err(
                    Error::S3 {
                        operation: "GetObject",
                        bucket: bucket.clone(),
                        key: key.clone(),
                        message,
                    },
                );
            },
            UploadEntrySource::Directory => {
                let message = crate::text::cat3(
                    "directory entry ",
                    &entry.zip_path,
                    " reached file writer",
                );
                return Err(Error::Build(message));
            },
        }
        let md5 = match self.hasher {
            Some(hasher) => Some(hex_encode(&md5_finish(hasher))),
            None => None,
        };
        Ok((self.file_bytes, md5))
    }
}

/// What is written into a catalog is read out of it: where each line has the
/// path of a file, no path is there twice, and the digests are in hexadecimal,
/// the digest of every path is that of its line.
pub proof fn law_written_catalog_reads_back(
    lines: Seq<(Seq<char>, Seq<char>)>,
    digests: Seq<Seq<u8>>,
    n: int,
    i: int,
)
    requires
        0 <= i < n <= lines.len(),
        digests.len() == lines.len(),
        forall|k: int|
            0 <= k < lines.len() ==> path_problem((#[trigger] lines[k]).0) is None
                && !names_directory(lines[k].0) && lines[k].0 != EMBEDDED_CATALOG_PATH@,
        forall|k: int|
            0 <= k < lines.len() ==> (#[trigger] digests[k]).len() == 16 && lines[k].1 == hex_text(
                digests[k],
            ),
        forall|j: int, k: int|
            0 <= j < k < lines.len() ==> (#[trigger] lines[j]).0 != (#[trigger] lines[k]).0,
    ensures
        catalog_digests(lines, n).contains_key(lines[i].0),
        catalog_digests(lines, n)[lines[i].0] == lines[i].1,
    decreases n,
{
    assert(digests[n - 1].len() == 16);
    law_hex_digest_is_md5_hex(digests[n - 1]);
    if i < n - 1 {
        law_written_catalog_reads_back(lines, digests, n - 1, i);
        assert(lines[i].0 != lines[n - 1].0);
    }
}

/// The content taken in is that of the chunks, one after the other.
pub proof fn law_pushed_content_is_kept(content: EntryContentView, chunks: Seq<Seq<u8>>, n: int)
    requires
        0 <= n <= chunks.len(),
    ensures
        after_pushes(content, chunks, n).content == content.content + joined_chunks(chunks, n),
        after_pushes(content, chunks, n).entry == content.entry,
        after_pushes(content, chunks, n).hashed == content.hashed,
    decreases n,
{
    if n > 0 {
        law_pushed_content_is_kept(content, chunks, n - 1);
    }
    assert(after_pushes(content, chunks, n).content =~= content.content + joined_chunks(
        chunks,
        n,
    ));
}

/// Progress never lags: after a chunk, the next event is due only once more
/// bytes than those processed have come.
pub proof fn law_next_event_is_ahead(next: u64, now: int)
    requires
        now < u64::MAX,
    ensures
        mark_after(next, now) > now,
        mark_after(next, now) >= next,
{
    if now >= next {
        let step = UPLOAD_PROGRESS_BYTE_GRANULARITY as int;
        let d = now - next;
        assert(d < (d / step + 1) * step) by (nonlinear_arith)
            requires
                0 <= d,
                step == 8388608,
        ;
    }
}

} // verus!

//! What an extraction into an S3 prefix does with each entry.
use vstd::prelude::*;

use crate::classify::{
    classified, entry_plan, hash_plan, upload_report, EntryPlan, HashJobView, UploadJobView,
};
use crate::destination::DestinationView;
use crate::digest::ExtractDigestView;
use crate::error::{error_text, ErrorView};
use crate::local_sync::{compared_plan, local_plan, local_put_report, LocalPlanView, LocalPutView};
use crate::local_zip::LocalEntryView;
use crate::put::{PutConditionView, PutResultView};
use crate::report::OperationStatus;
use crate::s3_uri::etag_md5;
use crate::zip_manifest::ManifestEntryView;

verus! {

/// A file that is missing at the destination is written, on the condition that
/// it is still missing.
pub proof fn law_missing_file_is_written(entry: ManifestEntryView)
    requires
        !entry.is_directory,
    ensures
        match entry_plan(entry, None) {
            EntryPlan::Upload(job) => job.entry == entry && job.condition
                == PutConditionView::IfNoneMatch && job.comparison_digest is None,
            _ => false,
        },
{
}

/// A cataloged file is left alone exactly where the ETag of the object at the
/// destination is the catalog's digest. Anything else there is written over, on
/// the condition that it is still what was listed.
pub proof fn law_cataloged_file_is_unchanged_or_written(
    entry: ManifestEntryView,
    md5: Seq<char>,
    existing: DestinationView,
    etag: Seq<char>,
)
    requires
        !entry.is_directory,
        entry.catalog_md5 == Some(md5),
        existing.etag == Some(etag),
    ensures
        match entry_plan(entry, Some(existing)) {
            EntryPlan::Report(report) => {
                &&& report.status == OperationStatus::SkippedUnchanged
                &&& etag_md5(etag) == Some(md5)
                &&& report.key == entry.key
                &&& report.zip_path == Some(entry.zip_path)
                &&& report.size == Some(entry.size)
                &&& report.md5 == Some(md5)
                &&& report.destination_etag == Some(etag)
                &&& report.message is None
            },
            EntryPlan::Upload(job) => {
                &&& etag_md5(etag) != Some(md5)
                &&& job.entry == entry
                &&& job.condition == PutConditionView::IfMatch(etag)
                &&& job.comparison_digest is None
            },
            EntryPlan::Hash(_) => false,
        },
{
}

/// A file without a catalog digest is compared exactly where the object's ETag
/// is an MD5 digest and its size does not show it to differ. Otherwise it is
/// written over, on the condition that it is still what was listed.
pub proof fn law_uncataloged_file_is_compared_or_written(
    entry: ManifestEntryView,
    existing: DestinationView,
    etag: Seq<char>,
)
    requires
        !entry.is_directory,
        entry.catalog_md5 is None,
        existing.etag == Some(etag),
    ensures
        match entry_plan(entry, Some(existing)) {
            EntryPlan::Hash(job) => {
                &&& existing.size is None || existing.size == Some(entry.size)
                &&& etag_md5(etag) == Some(job.destination_md5)
                &&& job.destination_etag == etag
                &&& job.entry == entry
            },
            EntryPlan::Upload(job) => {
                &&& etag_md5(etag) is None || (existing.size is Some && existing.size != Some(
                    entry.size,
                ))
                &&& job.entry == entry
                &&& job.condition == PutConditionView::IfMatch(etag)
                &&& job.comparison_digest is None
            },
            EntryPlan::Report(_) => false,
        },
{
}

/// An object without an ETag cannot be written over safely: its file fails.
pub proof fn law_file_over_object_without_etag_fails(
    entry: ManifestEntryView,
    existing: DestinationView,
)
    requires
        !entry.is_directory,
        existing.etag is None,
    ensures
        match entry_plan(entry, Some(existing)) {
            EntryPlan::Report(report) => report.status == OperationStatus::Error && report.key
                == entry.key && report.zip_path == Some(entry.zip_path) && report.message is Some,
            _ => false,
        },
{
}

/// The marker of a directory is written where there is nothing, left alone where
/// an empty object is, and fails over anything else.
pub proof fn law_directory_marker_is_written_once(
    entry: ManifestEntryView,
    existing: Option<DestinationView>,
)
    requires
        entry.is_directory,
    ensures
        match (existing, entry_plan(entry, existing)) {
            (None, EntryPlan::Upload(job)) => job.entry == entry && job.condition
                == PutConditionView::IfNoneMatch,
            (Some(object), EntryPlan::Report(report)) => {
                &&& report.key == entry.key
                &&& report.zip_path == Some(entry.zip_path)
                &&& report.destination_etag == object.etag
                &&& report.status == if object.size == Some(0u64) {
                    OperationStatus::SkippedUnchanged
                } else {
                    OperationStatus::Error
                }
                &&& report.message is Some <==> object.size != Some(0u64)
            },
            _ => false,
        },
{
}

/// What a comparison says is what is done: equal digests leave the object alone,
/// other digests have it written over on the condition that it is still what was
/// listed, and content that cannot be read fails.
pub proof fn law_comparison_decides_by_the_digest(
    job: HashJobView,
    digest: core::result::Result<ExtractDigestView, ErrorView>,
)
    ensures
        match (digest, hash_plan(job, digest)) {
            (Ok(digest), EntryPlan::Report(report)) => {
                &&& digest.md5 == job.destination_md5
                &&& report.status == OperationStatus::SkippedUnchanged
                &&& report.key == job.entry.key
                &&& report.zip_path == Some(job.entry.zip_path)
                &&& report.size == Some(digest.bytes)
                &&& report.md5 == Some(digest.md5)
                &&& report.destination_etag == Some(job.destination_etag)
                &&& report.message is None
            },
            (Ok(digest), EntryPlan::Upload(upload)) => {
                &&& digest.md5 != job.destination_md5
                &&& upload.entry == job.entry
                &&& upload.condition == PutConditionView::IfMatch(job.destination_etag)
                &&& upload.comparison_digest == Some(digest)
            },
            (Err(error), EntryPlan::Report(report)) => {
                &&& report.status == OperationStatus::Error
                &&& report.key == job.entry.key
                &&& report.zip_path == Some(job.entry.zip_path)
                &&& report.message == Some(error_text(error))
            },
            _ => false,
        },
{
}

/// The report of a write says what became of it: new or changed by whether there
/// was an object, with the size and digest of what was written, a conflict or an
/// error with its message.
pub proof fn law_write_is_reported_as_it_went(job: UploadJobView, result: PutResultView)
    ensures
        ({
            let report = upload_report(job, result);
            &&& report.key == job.entry.key
            &&& report.zip_path == Some(job.entry.zip_path)
            &&& match result {
                PutResultView::Uploaded(digest) => {
                    &&& job.condition is IfNoneMatch ==> report.status
                        == OperationStatus::UploadedNew && report.destination_etag is None
                    &&& job.condition is IfMatch ==> report.status
                        == OperationStatus::UploadedChanged && report.destination_etag == Some(
                        job.condition->IfMatch_0,
                    )
                    &&& report.size == Some(digest.bytes)
                    &&& report.md5 == Some(digest.md5)
                    &&& report.message is None
                },
                PutResultView::ConditionalConflict(message) => {
                    &&& report.status == OperationStatus::ConditionalConflict
                    &&& report.message == Some(message)
                    &&& job.comparison_digest is Some ==> report.size == Some(
                        job.comparison_digest->Some_0.bytes,
                    ) && report.md5 == Some(job.comparison_digest->Some_0.md5)
                    &&& job.comparison_digest is None ==> report.size == Some(job.entry.size)
                        && report.md5 == job.entry.catalog_md5
                },
                PutResultView::Failed(message) => report.status == OperationStatus::Error
                    && report.message == Some(message),
            }
        }),
{
}

/// The object that a listing has under a key.
spec fn object_at(destination: Map<Seq<char>, DestinationView>, key: Seq<char>) -> Option<
    DestinationView,
> {
    if destination.contains_key(key) {
        Some(destination[key])
    } else {
        None
    }
}

proof fn lemma_pushed<A>(items: Seq<A>, last: A, item: A)
    ensures
        items.push(last).contains(item) <==> items.contains(item) || last == item,
{
    let now = items.push(last);
    assert(now[items.len() as int] == last);
    if items.contains(item) {
        let k = items.index_of(item);
        assert(now[k] == item);
    }
    if now.contains(item) && last != item {
        let k = now.index_of(item);
        assert(items[k] == item);
    }
}

/// Nothing is left out: each entry's report, comparison or write, decided by the
/// object that is listed under its key, is among the work, and all work is that
/// of some entry.
pub proof fn law_every_entry_is_worked_on(
    entries: Seq<ManifestEntryView>,
    n: int,
    destination: Map<Seq<char>, DestinationView>,
)
    requires
        0 <= n <= entries.len(),
    ensures
        ({
            let work = classified(entries, n, destination);
            &&& forall|i: int|
                #![trigger entries[i]]
                0 <= i < n ==> match entry_plan(
                    entries[i],
                    if destination.contains_key(entries[i].key) {
                        Some(destination[entries[i].key])
                    } else {
                        None
                    },
                ) {
                    EntryPlan::Report(report) => work.reports.contains(report),
                    EntryPlan::Hash(job) => work.hash_jobs.contains(job),
                    EntryPlan::Upload(job) => work.upload_jobs.contains(job),
                }
            &&& work.reports.len() + work.hash_jobs.len() + work.upload_jobs.len() == n
        }),
    decreases n,
{
    if n > 0 {
        law_every_entry_is_worked_on(entries, n - 1, destination);
        let before = classified(entries, n - 1, destination);
        let work = classified(entries, n, destination);
        assert forall|i: int| #![trigger entries[i]] 0 <= i < n implies match entry_plan(
            entries[i],
            if destination.contains_key(entries[i].key) {
                Some(destination[entries[i].key])
            } else {
                None
            },
        ) {
            EntryPlan::Report(report) => work.reports.contains(report),
            EntryPlan::Hash(job) => work.hash_jobs.contains(job),
            EntryPlan::Upload(job) => work.upload_jobs.contains(job),
        } by {
            let last = entry_plan(entries[n - 1], object_at(destination, entries[n - 1].key));
            match entry_plan(entries[i], object_at(destination, entries[i].key)) {
                EntryPlan::Report(report) => {
                    if last is Report {
                        lemma_pushed(before.reports, last->Report_0, report);
                    }
                },
                EntryPlan::Hash(job) => {
                    if last is Hash {
                        lemma_pushed(before.hash_jobs, last->Hash_0, job);
                    }
                },
                EntryPlan::Upload(job) => {
                    if last is Upload {
                        lemma_pushed(before.upload_jobs, last->Upload_0, job);
                    }
                },
            }
        }
    }
}

/// A file of a local ZIP that is missing at the destination, or was listed
/// without an ETag, is written on the condition that it is missing.
pub proof fn law_local_missing_file_is_written(
    entry: LocalEntryView,
    existing: Option<DestinationView>,
)
    requires
        !entry.is_directory,
        existing is None || existing->Some_0.etag is None,
    ensures
        local_plan(entry, existing) == LocalPlanView::Put(PutConditionView::IfNoneMatch),
{
}

/// A file of a local ZIP is left alone without reading it exactly where the
/// object's ETag is the catalog's digest and its size is the file's. Otherwise it
/// is compared where ETag and size allow that, and else written over, on the
/// condition that the object is still what was listed.
pub proof fn law_local_file_is_unchanged_compared_or_written(
    entry: LocalEntryView,
    existing: DestinationView,
    etag: Seq<char>,
)
    requires
        !entry.is_directory,
        existing.etag == Some(etag),
    ensures
        match local_plan(entry, Some(existing)) {
            LocalPlanView::Report(report) => {
                &&& report.status == OperationStatus::SkippedUnchanged
                &&& entry.catalog_md5 is Some
                &&& etag_md5(etag) == entry.catalog_md5
                &&& existing.size == Some(entry.size)
                &&& report.key == entry.destination
                &&& report.zip_path == Some(entry.zip_path)
                &&& report.size == Some(entry.size)
                &&& report.md5 == entry.catalog_md5
                &&& report.destination_etag == Some(etag)
                &&& report.message is None
            },
            LocalPlanView::Compare { destination_etag, destination_md5 } => {
                &&& entry.catalog_md5 is None || etag_md5(etag) != entry.catalog_md5
                    || existing.size != Some(entry.size)
                &&& existing.size is None || existing.size == Some(entry.size)
                &&& etag_md5(etag) == Some(destination_md5)
                &&& destination_etag == etag
            },
            LocalPlanView::Put(condition) => {
                &&& condition == PutConditionView::IfMatch(etag)
                &&& etag_md5(etag) is None || (existing.size is Some && existing.size != Some(
                    entry.size,
                ))
            },
            LocalPlanView::PutMarker => false,
        },
{
}

/// The marker of a directory of a local ZIP is written where there is nothing,
/// left alone where an empty object is, and fails over anything else.
pub proof fn law_local_marker_is_written_once(
    entry: LocalEntryView,
    existing: Option<DestinationView>,
)
    requires
        entry.is_directory,
    ensures
        match (existing, local_plan(entry, existing)) {
            (None, LocalPlanView::PutMarker) => true,
            (Some(object), LocalPlanView::Report(report)) => {
                &&& report.key == entry.destination
                &&& report.zip_path == Some(entry.zip_path)
                &&& report.destination_etag == object.etag
                &&& report.status == if object.size == Some(0u64) {
                    OperationStatus::SkippedUnchanged
                } else {
                    OperationStatus::Error
                }
                &&& report.message is Some <==> object.size != Some(0u64)
            },
            _ => false,
        },
{
}

/// What a comparison with a file of a local ZIP says is what is done.
pub proof fn law_local_comparison_decides_by_the_digest(
    entry: LocalEntryView,
    etag: Seq<char>,
    md5: Seq<char>,
    digest: core::result::Result<ExtractDigestView, ErrorView>,
)
    ensures
        match (digest, compared_plan(entry, etag, md5, digest)) {
            (Ok(digest), LocalPlanView::Report(report)) => {
                &&& digest.md5 == md5
                &&& report.status == OperationStatus::SkippedUnchanged
                &&& report.key == entry.destination
                &&& report.zip_path == Some(entry.zip_path)
                &&& report.size == Some(digest.bytes)
                &&& report.md5 == Some(md5)
                &&& report.destination_etag == Some(etag)
            },
            (Ok(digest), LocalPlanView::Put(condition)) => digest.md5 != md5 && condition
                == PutConditionView::IfMatch(etag),
            (Err(error), LocalPlanView::Report(report)) => {
                &&& report.status == OperationStatus::Error
                &&& report.key == entry.destination
                &&& report.message == Some(error_text(error))
            },
            _ => false,
        },
{
}

/// The report of a write from a local ZIP says what became of it.
pub proof fn law_local_write_is_reported_as_it_went(
    entry: LocalEntryView,
    condition: PutConditionView,
    outcome: LocalPutView,
)
    ensures
        ({
            let report = local_put_report(entry, condition, outcome);
            &&& report.key == entry.destination
            &&& report.zip_path == Some(entry.zip_path)
            &&& condition is IfNoneMatch ==> report.destination_etag is None
            &&& condition is IfMatch ==> report.destination_etag == Some(condition->IfMatch_0)
            &&& match outcome {
                LocalPutView::Written(digest) => {
                    &&& report.status == if condition is IfMatch {
                        OperationStatus::UploadedChanged
                    } else {
                        OperationStatus::UploadedNew
                    }
                    &&& report.size == Some(digest.bytes)
                    &&& report.md5 == Some(digest.md5)
                    &&& report.message is None
                },
                LocalPutView::Conflict { message, digest } => report.status
                    == OperationStatus::ConditionalConflict && report.message == Some(message),
                LocalPutView::Failed(message) => report.status == OperationStatus::Error
                    && report.message == Some(message),
            }
        }),
{
}

} // verus!

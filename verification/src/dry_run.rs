//! Reports of what an extraction would do.
use vstd::prelude::*;
use vstd::string::*;

use crate::classify::{digest_result, UploadJob, UploadJobView};
use crate::destination::{opt_destination, DestinationObject, DestinationView};
use crate::digest::{empty_md5, ExtractDigest, ExtractDigestView};
use crate::error::{error_text, Error, ErrorView};
use crate::local_sync::{
    listed_etag, local_plan, plan_local_entry, LocalPlan, LocalPlanView,
};
use crate::local_zip::{LocalEntryView, LocalZipEntry};
use crate::path_probe::{
    component_presence, component_reason, parent_chain_problem, validate_parent_dirs_for_dry_run,
    PathProbe, Presence, Probed,
};
use crate::put::{PutCondition, PutConditionView};
use crate::report::{
    dry_run_count, dry_run_counted, summarize_dry_run_operation, DryRunObjectReport,
    DryRunObjectReportView, DryRunOperationStatus, ObjectReport, ObjectReportView, OperationStatus,
    UnzipDryRunSummary,
};
use crate::text::{cat2, decimal, decimal_spec, str_eq};
use crate::zip_manifest::{clone_opt_string, opt_view};

verus! {

/// Counts an operation, and keeps it where operations are collected.
pub fn record_dry_run_operation(
    summary: &mut UnzipDryRunSummary,
    operations: &mut Vec<DryRunObjectReport>,
    collect_operations: bool,
    operation: DryRunObjectReport,
)
    requires
        dry_run_count(*old(summary), operation.status) < usize::MAX,
    ensures
        *final(summary) == dry_run_counted(*old(summary), operation.status),
        final(operations)@ == if collect_operations {
            old(operations)@.push(operation)
        } else {
            old(operations)@
        },
{
    summarize_dry_run_operation(summary, &operation);
    if collect_operations {
        operations.push(operation);
    }
}

/// What an operation's status is where nothing is written.
pub open spec fn would_status(status: OperationStatus) -> DryRunOperationStatus {
    match status {
        OperationStatus::UploadedNew => DryRunOperationStatus::WouldUploadNew,
        OperationStatus::UploadedChanged => DryRunOperationStatus::WouldUploadChanged,
        OperationStatus::SkippedUnchanged => DryRunOperationStatus::SkippedUnchanged,
        OperationStatus::DeletedExtra => DryRunOperationStatus::WouldDeleteExtra,
        OperationStatus::ConditionalConflict => DryRunOperationStatus::Error,
        OperationStatus::Error => DryRunOperationStatus::Error,
    }
}

/// An operation's report where nothing is written.
pub open spec fn would_report(operation: ObjectReportView) -> DryRunObjectReportView {
    DryRunObjectReportView {
        status: would_status(operation.status),
        key: operation.key,
        zip_path: operation.zip_path,
        size: operation.size,
        md5: operation.md5,
        destination_etag: operation.destination_etag,
        message: operation.message,
    }
}

/// Turns the report of an operation into that of a dry run.
pub fn dry_run_report_from_object_report(operation: ObjectReport) -> (report: DryRunObjectReport)
    ensures
        report@ == would_report(operation@),
{
    let status = match operation.status {
        OperationStatus::UploadedNew => DryRunOperationStatus::WouldUploadNew,
        OperationStatus::UploadedChanged => DryRunOperationStatus::WouldUploadChanged,
        OperationStatus::SkippedUnchanged => DryRunOperationStatus::SkippedUnchanged,
        OperationStatus::DeletedExtra => DryRunOperationStatus::WouldDeleteExtra,
        OperationStatus::ConditionalConflict | OperationStatus::Error => {
            DryRunOperationStatus::Error
        },
    };
    DryRunObjectReport {
        status,
        key: operation.key,
        zip_path: operation.zip_path,
        size: operation.size,
        md5: operation.md5,
        destination_etag: operation.destination_etag,
        message: operation.message,
    }
}

/// The report of an entry that would be written.
pub open spec fn would_upload(job: UploadJobView) -> DryRunObjectReportView {
    DryRunObjectReportView {
        status: match job.condition {
            PutConditionView::IfNoneMatch => DryRunOperationStatus::WouldUploadNew,
            PutConditionView::IfMatch(_) => DryRunOperationStatus::WouldUploadChanged,
        },
        key: job.entry.key,
        zip_path: Some(job.entry.zip_path),
        size: match job.comparison_digest {
            Some(digest) => Some(digest.bytes),
            None => Some(job.entry.size),
        },
        md5: match job.comparison_digest {
            Some(digest) => Some(digest.md5),
            None => job.entry.catalog_md5,
        },
        destination_etag: match job.condition {
            PutConditionView::IfNoneMatch => None,
            PutConditionView::IfMatch(etag) => Some(etag),
        },
        message: None,
    }
}

/// Reports an entry that would be written.
pub fn dry_run_upload_job_report(job: UploadJob) -> (report: DryRunObjectReport)
    ensures
        report@ == would_upload(job@),
{
    let (status, destination_etag) = match job.condition {
        PutCondition::IfNoneMatch => (DryRunOperationStatus::WouldUploadNew, None),
        PutCondition::IfMatch(etag) => (DryRunOperationStatus::WouldUploadChanged, Some(etag)),
    };
    let (size, md5) = match job.comparison_digest {
        Some(digest) => (Some(digest.bytes), Some(digest.md5)),
        None => (Some(job.entry.size), job.entry.catalog_md5),
    };
    DryRunObjectReport {
        status,
        key: job.entry.key,
        zip_path: Some(job.entry.zip_path),
        size,
        md5,
        destination_etag,
        message: None,
    }
}

/// The report of an object that would be deleted.
pub open spec fn would_delete(key: Seq<char>, destination: Option<DestinationView>) -> DryRunObjectReportView {
    DryRunObjectReportView {
        status: DryRunOperationStatus::WouldDeleteExtra,
        key,
        zip_path: None,
        size: match destination {
            Some(object) => object.size,
            None => None,
        },
        md5: None,
        destination_etag: listed_etag(destination),
        message: None,
    }
}

/// Reports an object that would be deleted.
pub fn dry_run_delete_extra_report(key: String, destination: Option<&DestinationObject>) -> (report:
    DryRunObjectReport)
    ensures
        report@ == would_delete(key@, opt_destination(destination)),
{
    let (size, destination_etag) = match destination {
        Some(object) => (object.size, clone_opt_string(&object.etag)),
        None => (None, None),
    };
    DryRunObjectReport {
        status: DryRunOperationStatus::WouldDeleteExtra,
        key,
        zip_path: None,
        size,
        md5: None,
        destination_etag,
        message: None,
    }
}

/// The report of an entry on its way to S3.
pub open spec fn entry_report(
    entry: LocalEntryView,
    status: DryRunOperationStatus,
    size: u64,
    md5: Option<Seq<char>>,
    destination_etag: Option<Seq<char>>,
    message: Option<Seq<char>>,
) -> DryRunObjectReportView {
    DryRunObjectReportView {
        status,
        key: entry.destination,
        zip_path: Some(entry.zip_path),
        size: Some(size),
        md5,
        destination_etag,
        message,
    }
}

/// The report of an entry that would fail on its way to S3.
pub open spec fn would_fail(
    entry: LocalEntryView,
    destination_etag: Option<Seq<char>>,
    message: Seq<char>,
) -> DryRunObjectReportView {
    entry_report(
        entry,
        DryRunOperationStatus::Error,
        entry.size,
        entry.catalog_md5,
        destination_etag,
        Some(message),
    )
}

/// Reports an entry that would fail on its way to S3.
pub fn dry_run_local_entry_error(
    entry: &LocalZipEntry,
    destination_etag: Option<String>,
    message: String,
) -> (report: DryRunObjectReport)
    ensures
        report@ == would_fail(entry@, opt_view(destination_etag), message@),
{
    DryRunObjectReport {
        status: DryRunOperationStatus::Error,
        key: entry.destination.clone(),
        zip_path: Some(entry.zip_path.clone()),
        size: Some(entry.size),
        md5: clone_opt_string(&entry.catalog_md5),
        destination_etag,
        message: Some(message),
    }
}

/// The report of a directory marker.
pub open spec fn marker_dry_run(entry: LocalEntryView, existing: Option<DestinationView>) -> DryRunObjectReportView {
    match existing {
        None => entry_report(
            entry,
            DryRunOperationStatus::WouldUploadNew,
            0,
            Some("d41d8cd98f00b204e9800998ecf8427e"@),
            None,
            None,
        ),
        Some(existing) => match existing.size {
            Some(size) => if size == 0 {
                entry_report(
                    entry,
                    DryRunOperationStatus::SkippedUnchanged,
                    0,
                    Some("d41d8cd98f00b204e9800998ecf8427e"@),
                    existing.etag,
                    None,
                )
            } else {
                would_fail(
                    entry,
                    existing.etag,
                    "destination directory marker key exists with nonzero size "@ + decimal_spec(
                        size as nat,
                    ),
                )
            },
            None => would_fail(
                entry,
                existing.etag,
                "destination directory marker was listed without a size"@,
            ),
        },
    }
}

/// Reports a directory marker.
pub fn dry_run_local_directory_marker(entry: &LocalZipEntry, existing: Option<&DestinationObject>) -> (report:
    DryRunObjectReport)
    ensures
        report@ == marker_dry_run(entry@, opt_destination(existing)),
{
    let (status, destination_etag) = match existing {
        None => (DryRunOperationStatus::WouldUploadNew, None),
        Some(existing) => {
            let etag = clone_opt_string(&existing.etag);
            match existing.size {
                Some(size) => if size == 0 {
                    (DryRunOperationStatus::SkippedUnchanged, etag)
                } else {
                    let message = cat2(
                        "destination directory marker key exists with nonzero size ",
                        &decimal(size),
                    );
                    return dry_run_local_entry_error(entry, etag, message);
                },
                None => return dry_run_local_entry_error(
                    entry,
                    etag,
                    "destination directory marker was listed without a size".to_owned(),
                ),
            }
        },
    };
    DryRunObjectReport {
        status,
        key: entry.destination.clone(),
        zip_path: Some(entry.zip_path.clone()),
        size: Some(0),
        md5: Some(empty_md5()),
        destination_etag,
        message: None,
    }
}

/// What a dry run does with an entry on its way to S3.
#[derive(Debug)]
pub enum DryRunPlan {
    Report(DryRunObjectReport),
    /// Compare the content with the digest of the object that has the ETag.
    Compare { destination_etag: String, destination_md5: String },
}

pub enum DryRunPlanView {
    Report(DryRunObjectReportView),
    Compare { destination_etag: Seq<char>, destination_md5: Seq<char> },
}

impl View for DryRunPlan {
    type V = DryRunPlanView;

    open spec fn view(&self) -> DryRunPlanView {
        match self {
            DryRunPlan::Report(report) => DryRunPlanView::Report(report@),
            DryRunPlan::Compare { destination_etag, destination_md5 } => DryRunPlanView::Compare {
                destination_etag: destination_etag@,
                destination_md5: destination_md5@,
            },
        }
    }
}

/// What a dry run does with an entry on its way to S3. It decides as the
/// transfer would, but for an object that was listed without an ETag.
pub open spec fn dry_run_plan(entry: LocalEntryView, existing: Option<DestinationView>) -> DryRunPlanView {
    if entry.is_directory {
        DryRunPlanView::Report(marker_dry_run(entry, existing))
    } else {
        match local_plan(entry, existing) {
            LocalPlanView::Report(report) => DryRunPlanView::Report(would_report(report)),
            LocalPlanView::Compare { destination_etag, destination_md5 } => DryRunPlanView::Compare {
                destination_etag,
                destination_md5,
            },
            _ => DryRunPlanView::Report(
                match existing {
                    None => entry_report(
                        entry,
                        DryRunOperationStatus::WouldUploadNew,
                        entry.size,
                        entry.catalog_md5,
                        None,
                        None,
                    ),
                    Some(existing) => if existing.etag is Some {
                        entry_report(
                            entry,
                            DryRunOperationStatus::WouldUploadChanged,
                            entry.size,
                            entry.catalog_md5,
                            existing.etag,
                            None,
                        )
                    } else {
                        would_fail(entry, None, "destination object was listed without an ETag"@)
                    },
                },
            ),
        }
    }
}

/// Decides what a dry run does with an entry on its way to S3.
pub fn plan_dry_run_entry(entry: &LocalZipEntry, existing: Option<&DestinationObject>) -> (plan:
    DryRunPlan)
    ensures
        plan@ == dry_run_plan(entry@, opt_destination(existing)),
{
    if entry.is_directory {
        return DryRunPlan::Report(dry_run_local_directory_marker(entry, existing));
    }
    match plan_local_entry(entry, existing) {
        LocalPlan::Report(report) => {
            return DryRunPlan::Report(dry_run_report_from_object_report(report));
        },
        LocalPlan::Compare { destination_etag, destination_md5 } => {
            return DryRunPlan::Compare { destination_etag, destination_md5 };
        },
        _ => {},
    }
    let (status, destination_etag) = match existing {
        None => (DryRunOperationStatus::WouldUploadNew, None),
        Some(destination) => match &destination.etag {
            Some(etag) => (DryRunOperationStatus::WouldUploadChanged, Some(etag.clone())),
            None => return DryRunPlan::Report(
                dry_run_local_entry_error(
                    entry,
                    None,
                    "destination object was listed without an ETag".to_owned(),
                ),
            ),
        },
    };
    DryRunPlan::Report(
        DryRunObjectReport {
            status,
            key: entry.destination.clone(),
            zip_path: Some(entry.zip_path.clone()),
            size: Some(entry.size),
            md5: clone_opt_string(&entry.catalog_md5),
            destination_etag,
            message: None,
        },
    )
}

/// The report of a comparison.
pub open spec fn compared_dry_run(
    entry: LocalEntryView,
    destination_etag: Seq<char>,
    destination_md5: Seq<char>,
    digest: core::result::Result<ExtractDigestView, ErrorView>,
) -> DryRunObjectReportView {
    match digest {
        Ok(digest) => entry_report(
            entry,
            if digest.md5 == destination_md5 {
                DryRunOperationStatus::SkippedUnchanged
            } else {
                DryRunOperationStatus::WouldUploadChanged
            },
            digest.bytes,
            Some(digest.md5),
            Some(destination_etag),
            None,
        ),
        Err(error) => would_fail(entry, Some(destination_etag), error_text(error)),
    }
}

/// Reports a comparison.
pub fn finish_dry_run_comparison(
    entry: &LocalZipEntry,
    destination_etag: String,
    destination_md5: &str,
    digest: core::result::Result<ExtractDigest, Error>,
) -> (report: DryRunObjectReport)
    ensures
        report@ == compared_dry_run(
            entry@,
            destination_etag@,
            destination_md5@,
            digest_result(digest),
        ),
{
    match digest {
        Ok(digest) => {
            let status = if str_eq(&digest.md5, destination_md5) {
                DryRunOperationStatus::SkippedUnchanged
            } else {
                DryRunOperationStatus::WouldUploadChanged
            };
            DryRunObjectReport {
                status,
                key: entry.destination.clone(),
                zip_path: Some(entry.zip_path.clone()),
                size: Some(digest.bytes),
                md5: Some(digest.md5),
                destination_etag: Some(destination_etag),
                message: None,
            }
        },
        Err(error) => dry_run_local_entry_error(entry, Some(destination_etag), error.to_string()),
    }
}

/// The report of an entry on its way to a local path.
pub open spec fn path_report(
    entry: LocalEntryView,
    status: DryRunOperationStatus,
    path: Seq<char>,
    message: Option<Seq<char>>,
) -> DryRunObjectReportView {
    DryRunObjectReportView {
        status,
        key: path,
        zip_path: Some(entry.zip_path),
        size: Some(entry.size),
        md5: entry.catalog_md5,
        destination_etag: None,
        message,
    }
}

fn local_path_report(
    entry: &LocalZipEntry,
    status: DryRunOperationStatus,
    path: &str,
    message: Option<String>,
) -> (report: DryRunObjectReport)
    ensures
        report@ == path_report(entry@, status, path@, opt_view(message)),
{
    DryRunObjectReport {
        status,
        key: path.to_owned(),
        zip_path: Some(entry.zip_path.clone()),
        size: Some(entry.size),
        md5: clone_opt_string(&entry.catalog_md5),
        destination_etag: None,
        message,
    }
}

/// The report of a directory, from the component `i` of its path on.
pub open spec fn directory_dry_run(
    entry: LocalEntryView,
    path: Seq<char>,
    chain: Seq<Probed>,
    i: int,
) -> DryRunObjectReportView
    decreases chain.len() - i,
{
    let done = DryRunObjectReportView {
        status: DryRunOperationStatus::SkippedUnchanged,
        key: path,
        zip_path: Some(entry.zip_path),
        size: Some(0),
        md5: Some("d41d8cd98f00b204e9800998ecf8427e"@),
        destination_etag: None,
        message: None,
    };
    if i >= chain.len() {
        done
    } else {
        match component_presence(chain[i].probe) {
            Ok(Presence::Present) => directory_dry_run(entry, path, chain, i + 1),
            Ok(Presence::Missing) => DryRunObjectReportView {
                status: DryRunOperationStatus::WouldUploadNew,
                ..done
            },
            Err(reason) => path_report(
                entry,
                DryRunOperationStatus::Error,
                chain[i].shown@,
                Some(reason),
            ),
        }
    }
}

/// Reports a directory, given its path and the path's components, outermost first.
pub fn dry_run_local_directory_entry(entry: &LocalZipEntry, path: &str, chain: &Vec<Probed>) -> (report:
    DryRunObjectReport)
    ensures
        report@ == directory_dry_run(entry@, path@, chain@, 0),
{
    let mut status = DryRunOperationStatus::SkippedUnchanged;
    let mut i: usize = 0;
    while i < chain.len()
        invariant_except_break
            status == DryRunOperationStatus::SkippedUnchanged,
            directory_dry_run(entry@, path@, chain@, 0) == directory_dry_run(
                entry@,
                path@,
                chain@,
                i as int,
            ),
        invariant
            i <= chain.len(),
        ensures
            directory_dry_run(entry@, path@, chain@, 0) == (DryRunObjectReportView {
                status,
                key: path@,
                zip_path: Some(entry.zip_path@),
                size: Some(0),
                md5: Some("d41d8cd98f00b204e9800998ecf8427e"@),
                destination_etag: None,
                message: None,
            }),
        decreases chain.len() - i,
    {
        match component_reason(&chain[i]) {
            Ok(Presence::Present) => {},
            Ok(Presence::Missing) => {
                status = DryRunOperationStatus::WouldUploadNew;
                break;
            },
            Err(reason) => return local_path_report(
                entry,
                DryRunOperationStatus::Error,
                &chain[i].shown,
                Some(reason),
            ),
        }
        i += 1;
    }
    DryRunObjectReport {
        status,
        key: path.to_owned(),
        zip_path: Some(entry.zip_path.clone()),
        size: Some(0),
        md5: Some(empty_md5()),
        destination_etag: None,
        message: None,
    }
}

/// The report of a file, given the directories it is to lie in and what is
/// found at its path.
pub open spec fn file_dry_run(entry: LocalEntryView, parents: Seq<Probed>, file: Probed) -> DryRunObjectReportView {
    let path = file.shown@;
    match parent_chain_problem(parents, 0) {
        Some(error) => path_report(
            entry,
            DryRunOperationStatus::Error,
            path,
            Some(error_text(error)),
        ),
        None => match file.probe {
            PathProbe::Symlink => path_report(
                entry,
                DryRunOperationStatus::Error,
                path,
                Some("destination file cannot be a symbolic link"@),
            ),
            PathProbe::AliasSymlink => path_report(
                entry,
                DryRunOperationStatus::Error,
                path,
                Some("destination file cannot be a symbolic link"@),
            ),
            PathProbe::Directory => path_report(
                entry,
                DryRunOperationStatus::Error,
                path,
                Some("destination file path is a directory"@),
            ),
            PathProbe::Other => path_report(
                entry,
                DryRunOperationStatus::WouldUploadChanged,
                path,
                None,
            ),
            PathProbe::NotFound(_) => path_report(
                entry,
                DryRunOperationStatus::WouldUploadNew,
                path,
                None,
            ),
            PathProbe::Failed(message) => path_report(
                entry,
                DryRunOperationStatus::Error,
                path,
                Some("cannot inspect destination file: "@ + message@),
            ),
        },
    }
}

/// Reports a file, given the directories it is to lie in and what is found at
/// its path.
pub fn dry_run_local_file_entry(entry: &LocalZipEntry, parents: &Vec<Probed>, file: &Probed) -> (report:
    DryRunObjectReport)
    ensures
        report@ == file_dry_run(entry@, parents@, *file),
{
    match validate_parent_dirs_for_dry_run(parents) {
        Ok(()) => {},
        Err(error) => return local_path_report(
            entry,
            DryRunOperationStatus::Error,
            &file.shown,
            Some(error.to_string()),
        ),
    }
    let (status, message) = match &file.probe {
        PathProbe::Symlink | PathProbe::AliasSymlink => (
            DryRunOperationStatus::Error,
            Some("destination file cannot be a symbolic link".to_owned()),
        ),
        PathProbe::Directory => (
            DryRunOperationStatus::Error,
            Some("destination file path is a directory".to_owned()),
        ),
        PathProbe::Other => (DryRunOperationStatus::WouldUploadChanged, None),
        PathProbe::NotFound(_) => (DryRunOperationStatus::WouldUploadNew, None),
        PathProbe::Failed(message) => (
            DryRunOperationStatus::Error,
            Some(cat2("cannot inspect destination file: ", message)),
        ),
    };
    local_path_report(entry, status, &file.shown, message)
}

/// A dry run compares exactly the entries that the transfer would compare, and
/// reports as unchanged exactly those that the transfer would report so at once.
pub proof fn law_dry_run_decides_as_the_transfer(
    entry: LocalEntryView,
    existing: Option<DestinationView>,
)
    ensures
        dry_run_plan(entry, existing) is Compare <==> local_plan(entry, existing) is Compare,
        dry_run_plan(entry, existing) is Compare ==> {
            &&& dry_run_plan(entry, existing)->destination_etag == local_plan(
                entry,
                existing,
            )->destination_etag
            &&& dry_run_plan(entry, existing)->destination_md5 == local_plan(
                entry,
                existing,
            )->destination_md5
        },
        (dry_run_plan(entry, existing) is Report && dry_run_plan(entry, existing)->Report_0.status
            == DryRunOperationStatus::SkippedUnchanged) <==> (local_plan(entry, existing) is Report
            && local_plan(entry, existing)->Report_0.status == OperationStatus::SkippedUnchanged),
{
}

} // verus!

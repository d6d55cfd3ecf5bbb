//! Decisions on entries of a local ZIP file that go to an S3 prefix, and
//! reports of entries that go to a directory.
use vstd::prelude::*;
use vstd::string::*;

use crate::classify::{
    comparable_destination_md5, comparable_md5, condition_etag, digest_result, opt_digest,
};
use crate::destination::{opt_destination, DestinationObject, DestinationView};
use crate::digest::{empty_md5, ExtractDigest, ExtractDigestView};
use crate::error::{error_text, Error, ErrorView};
use crate::local_zip::{local_manifest_entry, LocalEntryView, LocalZipEntry};
use crate::put::{
    is_conditional_put_conflict, is_conflict, ProducerOutcome, ProducerView, PutCondition,
    PutConditionView, PutSdkError,
};
use crate::report::{ObjectReport, ObjectReportView, OperationStatus};
use crate::s3_uri::{etag_md5, normalize_etag};
use crate::text::{cat2, decimal, decimal_spec, str_eq};
use crate::zip_manifest::{clone_opt_string, opt_view};

verus! {

/// The report of an entry that failed.
pub open spec fn failed_local_entry(
    entry: LocalEntryView,
    destination_etag: Option<Seq<char>>,
    message: Seq<char>,
) -> ObjectReportView {
    ObjectReportView {
        status: OperationStatus::Error,
        key: entry.destination,
        zip_path: Some(entry.zip_path),
        size: Some(entry.size),
        md5: entry.catalog_md5,
        destination_etag,
        message: Some(message),
    }
}

/// The report of an entry that failed.
pub fn local_entry_error(entry: &LocalZipEntry, destination_etag: Option<String>, message: String) -> (report:
    ObjectReport)
    ensures
        report@ == failed_local_entry(entry@, opt_view(destination_etag), message@),
{
    ObjectReport {
        status: OperationStatus::Error,
        key: entry.destination.clone(),
        zip_path: Some(entry.zip_path.clone()),
        size: Some(entry.size),
        md5: clone_opt_string(&entry.catalog_md5),
        destination_etag,
        message: Some(message),
    }
}

/// The report of an entry that is left alone.
pub open spec fn skipped_local_entry(
    entry: LocalEntryView,
    size: u64,
    md5: Seq<char>,
    destination_etag: Option<Seq<char>>,
) -> ObjectReportView {
    ObjectReportView {
        status: OperationStatus::SkippedUnchanged,
        key: entry.destination,
        zip_path: Some(entry.zip_path),
        size: Some(size),
        md5: Some(md5),
        destination_etag,
        message: None,
    }
}

/// The report of a directory marker that failed.
pub open spec fn failed_marker(
    entry: LocalEntryView,
    destination_etag: Option<Seq<char>>,
    message: Seq<char>,
) -> ObjectReportView {
    ObjectReportView {
        status: OperationStatus::Error,
        key: entry.destination,
        zip_path: Some(entry.zip_path),
        size: Some(0),
        md5: None,
        destination_etag,
        message: Some(message),
    }
}

fn local_directory_marker_error(
    entry: &LocalZipEntry,
    destination_etag: Option<String>,
    message: String,
) -> (report: ObjectReport)
    ensures
        report@ == failed_marker(entry@, opt_view(destination_etag), message@),
{
    ObjectReport {
        status: OperationStatus::Error,
        key: entry.destination.clone(),
        zip_path: Some(entry.zip_path.clone()),
        size: Some(0),
        md5: None,
        destination_etag,
        message: Some(message),
    }
}

/// What is to be done with an entry that goes to S3.
#[derive(Debug)]
pub enum LocalPlan {
    Report(ObjectReport),
    /// Write a directory marker where there is no object.
    PutMarker,
    /// Compare the content with the digest of the object that has the ETag.
    Compare { destination_etag: String, destination_md5: String },
    /// Write the content.
    Put(PutCondition),
}

pub enum LocalPlanView {
    Report(ObjectReportView),
    PutMarker,
    Compare { destination_etag: Seq<char>, destination_md5: Seq<char> },
    Put(PutConditionView),
}

impl View for LocalPlan {
    type V = LocalPlanView;

    open spec fn view(&self) -> LocalPlanView {
        match self {
            LocalPlan::Report(report) => LocalPlanView::Report(report@),
            LocalPlan::PutMarker => LocalPlanView::PutMarker,
            LocalPlan::Compare { destination_etag, destination_md5 } => LocalPlanView::Compare {
                destination_etag: destination_etag@,
                destination_md5: destination_md5@,
            },
            LocalPlan::Put(condition) => LocalPlanView::Put(condition@),
        }
    }
}

/// What is to be done with a directory marker.
pub open spec fn marker_plan(entry: LocalEntryView, existing: Option<DestinationView>) -> LocalPlanView {
    match existing {
        None => LocalPlanView::PutMarker,
        Some(existing) => LocalPlanView::Report(
            match existing.size {
                Some(size) => if size == 0 {
                    skipped_local_entry(
                        entry,
                        0,
                        "d41d8cd98f00b204e9800998ecf8427e"@,
                        existing.etag,
                    )
                } else {
                    failed_marker(
                        entry,
                        existing.etag,
                        "destination directory marker key exists with nonzero size "@
                            + decimal_spec(size as nat),
                    )
                },
                None => failed_marker(
                    entry,
                    existing.etag,
                    "destination directory marker was listed without a size"@,
                ),
            },
        ),
    }
}

/// Whether the catalog shows a destination object to be up to date: its ETag
/// is the entry's digest and its size the entry's size.
pub open spec fn local_catalog_matches(entry: LocalEntryView, existing: Option<DestinationView>) -> bool {
    match (entry.catalog_md5, existing) {
        (Some(md5), Some(existing)) => match existing.etag {
            Some(etag) => etag_md5(etag) == Some(md5) && existing.size == Some(entry.size),
            None => false,
        },
        _ => false,
    }
}

/// The digest that an entry's content can be compared with, and its ETag.
pub open spec fn local_comparison(entry: LocalEntryView, existing: Option<DestinationView>) -> Option<
    (Seq<char>, Seq<char>),
> {
    match existing {
        Some(existing) => match existing.etag {
            Some(etag) => match comparable_md5(existing, etag, entry.size) {
                Some(md5) => Some((etag, md5)),
                None => None,
            },
            None => None,
        },
        None => None,
    }
}

/// The ETag of a listed object.
pub open spec fn listed_etag(existing: Option<DestinationView>) -> Option<Seq<char>> {
    match existing {
        Some(existing) => existing.etag,
        None => None,
    }
}

/// What is to be done with an entry that goes to S3.
pub open spec fn local_plan(entry: LocalEntryView, existing: Option<DestinationView>) -> LocalPlanView {
    if entry.is_directory {
        marker_plan(entry, existing)
    } else if local_catalog_matches(entry, existing) {
        LocalPlanView::Report(
            skipped_local_entry(
                entry,
                entry.size,
                entry.catalog_md5->Some_0,
                listed_etag(existing),
            ),
        )
    } else {
        match local_comparison(entry, existing) {
            Some((destination_etag, destination_md5)) => LocalPlanView::Compare {
                destination_etag,
                destination_md5,
            },
            None => LocalPlanView::Put(
                match listed_etag(existing) {
                    Some(etag) => PutConditionView::IfMatch(etag),
                    None => PutConditionView::IfNoneMatch,
                },
            ),
        }
    }
}

fn catalog_shows_unchanged(entry: &LocalZipEntry, existing: Option<&DestinationObject>) -> (unchanged:
    bool)
    ensures
        unchanged == local_catalog_matches(entry@, opt_destination(existing)),
{
    let catalog_md5 = match &entry.catalog_md5 {
        Some(md5) => md5,
        None => return false,
    };
    let destination = match existing {
        Some(destination) => destination,
        None => return false,
    };
    let etag = match &destination.etag {
        Some(etag) => etag,
        None => return false,
    };
    let size: u64 = match destination.size {
        Some(size) => size,
        None => return false,
    };
    match normalize_etag(etag) {
        Some(md5) => str_eq(&md5, catalog_md5) && size == entry.size,
        None => false,
    }
}

fn plan_directory_marker(entry: &LocalZipEntry, existing: Option<&DestinationObject>) -> (plan:
    LocalPlan)
    ensures
        plan@ == marker_plan(entry@, opt_destination(existing)),
{
    let existing = match existing {
        Some(existing) => existing,
        None => return LocalPlan::PutMarker,
    };
    let etag = clone_opt_string(&existing.etag);
    match existing.size {
        Some(size) => if size == 0 {
            LocalPlan::Report(
                ObjectReport {
                    status: OperationStatus::SkippedUnchanged,
                    key: entry.destination.clone(),
                    zip_path: Some(entry.zip_path.clone()),
                    size: Some(0),
                    md5: Some(empty_md5()),
                    destination_etag: etag,
                    message: None,
                },
            )
        } else {
            let message = cat2(
                "destination directory marker key exists with nonzero size ",
                &decimal(size),
            );
            LocalPlan::Report(local_directory_marker_error(entry, etag, message))
        },
        None => LocalPlan::Report(
            local_directory_marker_error(
                entry,
                etag,
                "destination directory marker was listed without a size".to_owned(),
            ),
        ),
    }
}

/// Decides what is to be done with an entry that goes to S3.
pub fn plan_local_entry(entry: &LocalZipEntry, existing: Option<&DestinationObject>) -> (plan:
    LocalPlan)
    ensures
        plan@ == local_plan(entry@, opt_destination(existing)),
{
    if entry.is_directory {
        return plan_directory_marker(entry, existing);
    }
    let etag: Option<String> = match existing {
        Some(destination) => clone_opt_string(&destination.etag),
        None => None,
    };
    if catalog_shows_unchanged(entry, existing) {
        return LocalPlan::Report(
            ObjectReport {
                status: OperationStatus::SkippedUnchanged,
                key: entry.destination.clone(),
                zip_path: Some(entry.zip_path.clone()),
                size: Some(entry.size),
                md5: clone_opt_string(&entry.catalog_md5),
                destination_etag: etag,
                message: None,
            },
        );
    }
    match (existing, etag) {
        (Some(destination), Some(etag)) => {
            let manifest = local_manifest_entry(entry);
            match comparable_destination_md5(destination, &etag, &manifest) {
                Some(destination_md5) => LocalPlan::Compare {
                    destination_etag: etag,
                    destination_md5,
                },
                None => LocalPlan::Put(PutCondition::IfMatch(etag)),
            }
        },
        _ => LocalPlan::Put(PutCondition::IfNoneMatch),
    }
}

/// What a comparison comes to.
pub open spec fn compared_plan(
    entry: LocalEntryView,
    destination_etag: Seq<char>,
    destination_md5: Seq<char>,
    digest: core::result::Result<ExtractDigestView, ErrorView>,
) -> LocalPlanView {
    match digest {
        Ok(digest) => if digest.md5 == destination_md5 {
            LocalPlanView::Report(
                skipped_local_entry(entry, digest.bytes, digest.md5, Some(destination_etag)),
            )
        } else {
            LocalPlanView::Put(PutConditionView::IfMatch(destination_etag))
        },
        Err(error) => LocalPlanView::Report(
            failed_local_entry(entry, Some(destination_etag), error_text(error)),
        ),
    }
}

/// Decides what follows a comparison.
pub fn finish_local_comparison(
    entry: &LocalZipEntry,
    destination_etag: String,
    destination_md5: &str,
    digest: core::result::Result<ExtractDigest, Error>,
) -> (plan: LocalPlan)
    ensures
        plan@ == compared_plan(
            entry@,
            destination_etag@,
            destination_md5@,
            digest_result(digest),
        ),
{
    match digest {
        Ok(digest) => if str_eq(&digest.md5, destination_md5) {
            LocalPlan::Report(
                ObjectReport {
                    status: OperationStatus::SkippedUnchanged,
                    key: entry.destination.clone(),
                    zip_path: Some(entry.zip_path.clone()),
                    size: Some(digest.bytes),
                    md5: Some(digest.md5),
                    destination_etag: Some(destination_etag),
                    message: None,
                },
            )
        } else {
            LocalPlan::Put(PutCondition::IfMatch(destination_etag))
        },
        Err(error) => LocalPlan::Report(
            local_entry_error(entry, Some(destination_etag), error.to_string()),
        ),
    }
}

/// What a write came to.
#[derive(Debug)]
pub enum LocalPutOutcome {
    Written(ExtractDigest),
    /// The precondition did not hold; an empty body was digested beforehand.
    Conflict { message: String, digest: Option<ExtractDigest> },
    Failed(String),
}

pub enum LocalPutView {
    Written(ExtractDigestView),
    Conflict { message: Seq<char>, digest: Option<ExtractDigestView> },
    Failed(Seq<char>),
}

impl View for LocalPutOutcome {
    type V = LocalPutView;

    open spec fn view(&self) -> LocalPutView {
        match self {
            LocalPutOutcome::Written(digest) => LocalPutView::Written(digest@),
            LocalPutOutcome::Conflict { message, digest } => LocalPutView::Conflict {
                message: message@,
                digest: opt_digest(*digest),
            },
            LocalPutOutcome::Failed(message) => LocalPutView::Failed(message@),
        }
    }
}

/// What a write comes to when its request succeeded: the producer of its body
/// decides.
pub open spec fn accepted_local_put(producer: ProducerView) -> LocalPutView {
    match producer {
        ProducerView::Finished(digest) => LocalPutView::Written(digest),
        ProducerView::Failed(error) => LocalPutView::Failed(error_text(error)),
        ProducerView::Crashed(message) => LocalPutView::Failed(message),
        ProducerView::Unfinished => LocalPutView::Failed("entry producer was joined twice"@),
    }
}

/// Decides what a write comes to when its request succeeded.
pub fn local_put_after_success(producer: ProducerOutcome) -> (outcome: LocalPutOutcome)
    ensures
        outcome@ == accepted_local_put(producer@),
{
    match producer {
        ProducerOutcome::Finished(digest) => LocalPutOutcome::Written(digest),
        ProducerOutcome::Failed(error) => LocalPutOutcome::Failed(error.to_string()),
        ProducerOutcome::Crashed(message) => LocalPutOutcome::Failed(message),
        ProducerOutcome::Unfinished => LocalPutOutcome::Failed(
            "entry producer was joined twice".to_owned(),
        ),
    }
}

/// What a write comes to when its request failed: a conflict if its
/// precondition did not hold. A body that was digested beforehand keeps its digest.
pub open spec fn refused_local_put(
    error: PutSdkError,
    digest: Option<ExtractDigestView>,
) -> LocalPutView {
    if is_conflict(error) {
        LocalPutView::Conflict { message: error.context@, digest }
    } else {
        LocalPutView::Failed(error.context@)
    }
}

/// Decides what a write comes to when its request failed.
pub fn local_put_after_error(error: PutSdkError, digest: Option<ExtractDigest>) -> (outcome:
    LocalPutOutcome)
    ensures
        outcome@ == refused_local_put(error, opt_digest(digest)),
        outcome is Conflict <==> is_conflict(error),
{
    if is_conditional_put_conflict(&error) {
        LocalPutOutcome::Conflict { message: error.context, digest }
    } else {
        LocalPutOutcome::Failed(error.context)
    }
}

/// The report of a write.
pub open spec fn local_put_report(
    entry: LocalEntryView,
    condition: PutConditionView,
    outcome: LocalPutView,
) -> ObjectReportView {
    let etag = condition_etag(condition);
    match outcome {
        LocalPutView::Written(digest) => ObjectReportView {
            status: if etag is Some {
                OperationStatus::UploadedChanged
            } else {
                OperationStatus::UploadedNew
            },
            key: entry.destination,
            zip_path: Some(entry.zip_path),
            size: Some(digest.bytes),
            md5: Some(digest.md5),
            destination_etag: etag,
            message: None,
        },
        LocalPutView::Conflict { message, digest } => ObjectReportView {
            status: OperationStatus::ConditionalConflict,
            key: entry.destination,
            zip_path: Some(entry.zip_path),
            size: Some(entry.size),
            md5: match digest {
                Some(digest) => Some(digest.md5),
                None => entry.catalog_md5,
            },
            destination_etag: etag,
            message: Some(message),
        },
        LocalPutView::Failed(message) => failed_local_entry(entry, etag, message),
    }
}

/// Reports a write.
pub fn finish_local_put(
    entry: &LocalZipEntry,
    condition: &PutCondition,
    outcome: LocalPutOutcome,
) -> (report: ObjectReport)
    ensures
        report@ == local_put_report(entry@, condition@, outcome@),
{
    let destination_etag: Option<String> = match condition {
        PutCondition::IfNoneMatch => None,
        PutCondition::IfMatch(etag) => Some(etag.clone()),
    };
    match outcome {
        LocalPutOutcome::Written(digest) => {
            let status = if destination_etag.is_some() {
                OperationStatus::UploadedChanged
            } else {
                OperationStatus::UploadedNew
            };
            ObjectReport {
                status,
                key: entry.destination.clone(),
                zip_path: Some(entry.zip_path.clone()),
                size: Some(digest.bytes),
                md5: Some(digest.md5),
                destination_etag,
                message: None,
            }
        },
        LocalPutOutcome::Conflict { message, digest } => {
            let md5 = match digest {
                Some(digest) => Some(digest.md5),
                None => clone_opt_string(&entry.catalog_md5),
            };
            ObjectReport {
                status: OperationStatus::ConditionalConflict,
                key: entry.destination.clone(),
                zip_path: Some(entry.zip_path.clone()),
                size: Some(entry.size),
                md5,
                destination_etag,
                message: Some(message),
            }
        },
        LocalPutOutcome::Failed(message) => local_entry_error(entry, destination_etag, message),
    }
}

/// What writing a directory marker came to.
#[derive(Debug)]
pub enum MarkerOutcome {
    Written,
    Conflict(String),
    Failed(String),
}

/// Decides what writing a directory marker came to: it is a conflict if the
/// request failed because there is an object by now.
pub fn marker_put_outcome(response: core::result::Result<(), PutSdkError>) -> (outcome:
    MarkerOutcome)
    ensures
        outcome == match response {
            Ok(()) => MarkerOutcome::Written,
            Err(error) => if is_conflict(error) {
                MarkerOutcome::Conflict(error.context)
            } else {
                MarkerOutcome::Failed(error.context)
            },
        },
{
    match response {
        Ok(()) => MarkerOutcome::Written,
        Err(error) => if is_conditional_put_conflict(&error) {
            MarkerOutcome::Conflict(error.context)
        } else {
            MarkerOutcome::Failed(error.context)
        },
    }
}

/// The report of a directory marker.
pub open spec fn marker_report(entry: LocalEntryView, outcome: MarkerOutcome) -> ObjectReportView {
    ObjectReportView {
        status: match outcome {
            MarkerOutcome::Written => OperationStatus::UploadedNew,
            MarkerOutcome::Conflict(_) => OperationStatus::ConditionalConflict,
            MarkerOutcome::Failed(_) => OperationStatus::Error,
        },
        key: entry.destination,
        zip_path: Some(entry.zip_path),
        size: Some(0),
        md5: if outcome is Failed {
            None
        } else {
            Some("d41d8cd98f00b204e9800998ecf8427e"@)
        },
        destination_etag: None,
        message: match outcome {
            MarkerOutcome::Written => None,
            MarkerOutcome::Conflict(message) => Some(message@),
            MarkerOutcome::Failed(message) => Some(message@),
        },
    }
}

/// Reports a directory marker.
pub fn finish_directory_marker(entry: &LocalZipEntry, outcome: MarkerOutcome) -> (report:
    ObjectReport)
    ensures
        report@ == marker_report(entry@, outcome),
{
    let (status, md5, message) = match outcome {
        MarkerOutcome::Written => (OperationStatus::UploadedNew, Some(empty_md5()), None),
        MarkerOutcome::Conflict(message) => (
            OperationStatus::ConditionalConflict,
            Some(empty_md5()),
            Some(message),
        ),
        MarkerOutcome::Failed(message) => (OperationStatus::Error, None, Some(message)),
    };
    ObjectReport {
        status,
        key: entry.destination.clone(),
        zip_path: Some(entry.zip_path.clone()),
        size: Some(0),
        md5,
        destination_etag: None,
        message,
    }
}

/// The length of a body as S3 takes it.
pub fn content_length(size: u64) -> (length: Option<i64>)
    ensures
        length is Some <==> size <= i64::MAX,
        length is Some ==> length->Some_0 == size,
{
    if size <= i64::MAX as u64 {
        Some(size as i64)
    } else {
        None
    }
}

/// The report of an entry that failed on its way to a local path.
pub open spec fn failed_local_path(
    entry: LocalEntryView,
    path: Seq<char>,
    message: Seq<char>,
) -> ObjectReportView {
    ObjectReportView {
        status: OperationStatus::Error,
        key: path,
        zip_path: Some(entry.zip_path),
        size: Some(entry.size),
        md5: entry.catalog_md5,
        destination_etag: None,
        message: Some(message),
    }
}

/// The report of an entry that failed on its way to a local path.
pub fn local_destination_error(entry: &LocalZipEntry, path: String, message: String) -> (report:
    ObjectReport)
    ensures
        report@ == failed_local_path(entry@, path@, message@),
{
    ObjectReport {
        status: OperationStatus::Error,
        key: path,
        zip_path: Some(entry.zip_path.clone()),
        size: Some(entry.size),
        md5: clone_opt_string(&entry.catalog_md5),
        destination_etag: None,
        message: Some(message),
    }
}

/// The report of a local directory.
pub open spec fn extracted_directory(
    entry: LocalEntryView,
    path: Seq<char>,
    existed: bool,
    result: core::result::Result<(), ErrorView>,
) -> ObjectReportView {
    match result {
        Ok(()) => ObjectReportView {
            status: if existed {
                OperationStatus::SkippedUnchanged
            } else {
                OperationStatus::UploadedNew
            },
            key: path,
            zip_path: Some(entry.zip_path),
            size: Some(0),
            md5: Some("d41d8cd98f00b204e9800998ecf8427e"@),
            destination_etag: None,
            message: None,
        },
        Err(error) => failed_local_path(entry, path, error_text(error)),
    }
}

/// Reports a local directory.
pub fn local_directory_report(
    entry: &LocalZipEntry,
    path: String,
    existed: bool,
    result: core::result::Result<(), Error>,
) -> (report: ObjectReport)
    ensures
        report@ == extracted_directory(
            entry@,
            path@,
            existed,
            match result {
                Ok(()) => Ok(()),
                Err(error) => Err(error@),
            },
        ),
{
    match result {
        Ok(()) => ObjectReport {
            status: if existed {
                OperationStatus::SkippedUnchanged
            } else {
                OperationStatus::UploadedNew
            },
            key: path,
            zip_path: Some(entry.zip_path.clone()),
            size: Some(0),
            md5: Some(empty_md5()),
            destination_etag: None,
            message: None,
        },
        Err(error) => local_destination_error(entry, path, error.to_string()),
    }
}

/// The report of a local file.
pub open spec fn extracted_file(
    entry: LocalEntryView,
    path: Seq<char>,
    existed: bool,
    result: core::result::Result<ExtractDigestView, ErrorView>,
) -> ObjectReportView {
    match result {
        Ok(digest) => ObjectReportView {
            status: if existed {
                OperationStatus::UploadedChanged
            } else {
                OperationStatus::UploadedNew
            },
            key: path,
            zip_path: Some(entry.zip_path),
            size: Some(digest.bytes),
            md5: Some(digest.md5),
            destination_etag: None,
            message: None,
        },
        Err(error) => failed_local_path(entry, path, error_text(error)),
    }
}

/// Reports a local file.
pub fn local_file_report(
    entry: &LocalZipEntry,
    path: String,
    existed: bool,
    result: core::result::Result<ExtractDigest, Error>,
) -> (report: ObjectReport)
    ensures
        report@ == extracted_file(entry@, path@, existed, digest_result(result)),
{
    match result {
        Ok(digest) => ObjectReport {
            status: if existed {
                OperationStatus::UploadedChanged
            } else {
                OperationStatus::UploadedNew
            },
            key: path,
            zip_path: Some(entry.zip_path.clone()),
            size: Some(digest.bytes),
            md5: Some(digest.md5),
            destination_etag: None,
            message: None,
        },
        Err(error) => local_destination_error(entry, path, error.to_string()),
    }
}

/// A write is conditional on what was listed: an object with an ETag must keep
/// it, and where no ETag was listed the key must be absent.
pub proof fn law_local_writes_are_conditional_on_the_listing(
    entry: LocalEntryView,
    existing: Option<DestinationView>,
)
    requires
        local_plan(entry, existing) is Put,
    ensures
        condition_etag(local_plan(entry, existing)->Put_0) == listed_etag(existing),
{
}

} // verus!

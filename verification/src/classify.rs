//! What is to be done with each entry, given what the destination holds.
use vstd::prelude::*;
use vstd::string::*;

use crate::destination::{
    opt_destination, DestinationListing, DestinationObject, DestinationView,
};
use crate::digest::{
    empty_md5, hex_text, law_quoted_digest_is_md5, ExtractDigest, ExtractDigestView,
};
use crate::error::{error_text, Error, ErrorView};
use crate::put::{PutCondition, PutConditionView, PutResult, PutResultView};
use crate::report::{ObjectReport, ObjectReportView, OperationStatus};
use crate::s3_uri::{etag_md5, normalize_etag};
use crate::text::{cat2, decimal, decimal_spec, str_eq};
use crate::zip_manifest::{
    clone_opt_string, manifest_views, opt_view, ManifestEntry, ManifestEntryView,
};

verus! {

/// An entry whose content is to be compared with a destination object.
#[derive(Debug)]
pub struct HashJob {
    pub entry: ManifestEntry,
    pub destination_etag: String,
    pub destination_md5: String,
}

/// An entry that is to be written.
#[derive(Debug)]
pub struct UploadJob {
    pub entry: ManifestEntry,
    pub condition: PutCondition,
    /// The digest of the content, where it was compared.
    pub comparison_digest: Option<ExtractDigest>,
}

/// What is to be done with the entries.
#[derive(Debug)]
pub struct ClassifiedEntries {
    pub reports: Vec<ObjectReport>,
    pub hash_jobs: Vec<HashJob>,
    pub upload_jobs: Vec<UploadJob>,
}

pub struct HashJobView {
    pub entry: ManifestEntryView,
    pub destination_etag: Seq<char>,
    pub destination_md5: Seq<char>,
}

pub struct UploadJobView {
    pub entry: ManifestEntryView,
    pub condition: PutConditionView,
    pub comparison_digest: Option<ExtractDigestView>,
}

impl View for HashJob {
    type V = HashJobView;

    open spec fn view(&self) -> HashJobView {
        HashJobView {
            entry: self.entry@,
            destination_etag: self.destination_etag@,
            destination_md5: self.destination_md5@,
        }
    }
}

pub open spec fn opt_digest(digest: Option<ExtractDigest>) -> Option<ExtractDigestView> {
    match digest {
        Some(digest) => Some(digest@),
        None => None,
    }
}

impl View for UploadJob {
    type V = UploadJobView;

    open spec fn view(&self) -> UploadJobView {
        UploadJobView {
            entry: self.entry@,
            condition: self.condition@,
            comparison_digest: opt_digest(self.comparison_digest),
        }
    }
}

pub struct ClassifiedView {
    pub reports: Seq<ObjectReportView>,
    pub hash_jobs: Seq<HashJobView>,
    pub upload_jobs: Seq<UploadJobView>,
}

pub open spec fn report_views(reports: Seq<ObjectReport>) -> Seq<ObjectReportView> {
    reports.map_values(|report: ObjectReport| report@)
}

pub open spec fn hash_job_views(jobs: Seq<HashJob>) -> Seq<HashJobView> {
    jobs.map_values(|job: HashJob| job@)
}

pub open spec fn upload_job_views(jobs: Seq<UploadJob>) -> Seq<UploadJobView> {
    jobs.map_values(|job: UploadJob| job@)
}

impl View for ClassifiedEntries {
    type V = ClassifiedView;

    open spec fn view(&self) -> ClassifiedView {
        ClassifiedView {
            reports: report_views(self.reports@),
            hash_jobs: hash_job_views(self.hash_jobs@),
            upload_jobs: upload_job_views(self.upload_jobs@),
        }
    }
}

/// The report of an entry that failed.
pub open spec fn failed_entry(
    entry: ManifestEntryView,
    destination_etag: Option<Seq<char>>,
    message: Seq<char>,
) -> ObjectReportView {
    ObjectReportView {
        status: OperationStatus::Error,
        key: entry.key,
        zip_path: Some(entry.zip_path),
        size: Some(entry.size),
        md5: None,
        destination_etag,
        message: Some(message),
    }
}

/// The report of an entry that failed.
pub fn entry_error(entry: &ManifestEntry, destination_etag: Option<String>, message: String) -> (report:
    ObjectReport)
    ensures
        report@ == failed_entry(entry@, opt_view(destination_etag), message@),
{
    ObjectReport {
        status: OperationStatus::Error,
        key: entry.key.clone(),
        zip_path: Some(entry.zip_path.clone()),
        size: Some(entry.size),
        md5: None,
        destination_etag,
        message: Some(message),
    }
}

/// Whether the catalog says that a destination object is up to date: its ETag
/// is the digest that the catalog has for the entry.
pub open spec fn catalog_matches(entry: ManifestEntryView, existing: Option<DestinationView>) -> bool {
    match (entry.catalog_md5, existing) {
        (Some(md5), Some(destination)) => match destination.etag {
            Some(etag) => etag_md5(etag) == Some(md5),
            None => false,
        },
        _ => false,
    }
}

/// The report of an entry that is left alone.
pub open spec fn skipped_entry(
    entry: ManifestEntryView,
    size: u64,
    md5: Seq<char>,
    destination_etag: Option<Seq<char>>,
) -> ObjectReportView {
    ObjectReportView {
        status: OperationStatus::SkippedUnchanged,
        key: entry.key,
        zip_path: Some(entry.zip_path),
        size: Some(size),
        md5: Some(md5),
        destination_etag,
        message: None,
    }
}

/// The report of an entry that the catalog shows to be up to date. The size at
/// the destination is not compared.
pub fn catalog_skip_report(entry: &ManifestEntry, existing: Option<&DestinationObject>) -> (report:
    Option<ObjectReport>)
    ensures
        report is Some <==> catalog_matches(entry@, opt_destination(existing)),
        report is Some ==> report->Some_0@ == skipped_entry(
            entry@,
            entry.size,
            entry@.catalog_md5->Some_0,
            opt_destination(existing)->Some_0.etag,
        ),
{
    let catalog_md5 = match &entry.catalog_md5 {
        Some(md5) => md5,
        None => return None,
    };
    let destination = match existing {
        Some(destination) => destination,
        None => return None,
    };
    let destination_etag = match &destination.etag {
        Some(etag) => etag,
        None => return None,
    };
    let destination_md5 = match normalize_etag(destination_etag) {
        Some(md5) => md5,
        None => return None,
    };
    if !str_eq(&destination_md5, catalog_md5) {
        return None;
    }
    Some(
        ObjectReport {
            status: OperationStatus::SkippedUnchanged,
            key: entry.key.clone(),
            zip_path: Some(entry.zip_path.clone()),
            size: Some(entry.size),
            md5: Some(catalog_md5.clone()),
            destination_etag: Some(destination_etag.clone()),
            message: None,
        },
    )
}

/// The digest of a destination object that an entry's content can be compared
/// with. A listed size that differs from the entry's rules it out.
pub open spec fn comparable_md5(
    destination: DestinationView,
    destination_etag: Seq<char>,
    size: u64,
) -> Option<Seq<char>> {
    match destination.size {
        Some(listed) => if listed != size {
            None
        } else {
            etag_md5(destination_etag)
        },
        None => etag_md5(destination_etag),
    }
}

/// The digest of a destination object that an entry's content can be compared with.
pub fn comparable_destination_md5(
    destination: &DestinationObject,
    destination_etag: &str,
    entry: &ManifestEntry,
) -> (md5: Option<String>)
    ensures
        opt_view(md5) == comparable_md5(destination@, destination_etag@, entry.size),
{
    if let Some(size) = destination.size {
        if size != entry.size {
            return None;
        }
    }
    normalize_etag(destination_etag)
}

/// What is to be done with one entry.
pub enum EntryPlan {
    Report(ObjectReportView),
    Hash(HashJobView),
    Upload(UploadJobView),
}

pub open spec fn upload_plan(entry: ManifestEntryView, condition: PutConditionView) -> EntryPlan {
    EntryPlan::Upload(UploadJobView { entry, condition, comparison_digest: None })
}

/// What is to be done with a directory entry: a marker of zero bytes is made
/// where there is none, and anything else at its key is an error.
pub open spec fn directory_plan(
    entry: ManifestEntryView,
    existing: Option<DestinationView>,
) -> EntryPlan {
    match existing {
        None => upload_plan(entry, PutConditionView::IfNoneMatch),
        Some(destination) => match destination.size {
            Some(size) => if size == 0 {
                EntryPlan::Report(
                    skipped_entry(
                        entry,
                        0,
                        "d41d8cd98f00b204e9800998ecf8427e"@,
                        destination.etag,
                    ),
                )
            } else {
                EntryPlan::Report(
                    failed_entry(
                        entry,
                        destination.etag,
                        "destination directory marker key exists with nonzero size "@
                            + decimal_spec(size as nat),
                    ),
                )
            },
            None => EntryPlan::Report(
                failed_entry(
                    entry,
                    destination.etag,
                    "destination directory marker was listed without a size"@,
                ),
            ),
        },
    }
}

/// What is to be done with an entry.
///
/// A key that is absent is written on the condition that it stays absent, one
/// that exists on the condition that its object stays as listed.
pub open spec fn entry_plan(entry: ManifestEntryView, existing: Option<DestinationView>) -> EntryPlan {
    if entry.is_directory {
        directory_plan(entry, existing)
    } else if catalog_matches(entry, existing) {
        EntryPlan::Report(
            skipped_entry(
                entry,
                entry.size,
                entry.catalog_md5->Some_0,
                existing->Some_0.etag,
            ),
        )
    } else {
        match existing {
            None => upload_plan(entry, PutConditionView::IfNoneMatch),
            Some(destination) => match destination.etag {
                None => EntryPlan::Report(
                    failed_entry(entry, None, "destination object was listed without an ETag"@),
                ),
                Some(etag) => if entry.catalog_md5 is Some {
                    upload_plan(entry, PutConditionView::IfMatch(etag))
                } else {
                    match comparable_md5(destination, etag, entry.size) {
                        Some(md5) => EntryPlan::Hash(
                            HashJobView {
                                entry,
                                destination_etag: etag,
                                destination_md5: md5,
                            },
                        ),
                        None => upload_plan(entry, PutConditionView::IfMatch(etag)),
                    }
                },
            },
        }
    }
}

/// The work of the first `n` entries.
pub open spec fn classified(
    entries: Seq<ManifestEntryView>,
    n: int,
    destination: Map<Seq<char>, DestinationView>,
) -> ClassifiedView
    decreases n,
{
    if n <= 0 {
        ClassifiedView { reports: Seq::empty(), hash_jobs: Seq::empty(), upload_jobs: Seq::empty() }
    } else {
        with_plan(
            classified(entries, n - 1, destination),
            entry_plan(entries[n - 1], listed(destination, entries[n - 1].key)),
        )
    }
}

/// The object listed under a key.
pub open spec fn listed(destination: Map<Seq<char>, DestinationView>, key: Seq<char>) -> Option<
    DestinationView,
> {
    if destination.contains_key(key) {
        Some(destination[key])
    } else {
        None
    }
}

pub open spec fn with_plan(work: ClassifiedView, plan: EntryPlan) -> ClassifiedView {
    match plan {
        EntryPlan::Report(report) => ClassifiedView { reports: work.reports.push(report), ..work },
        EntryPlan::Hash(job) => ClassifiedView { hash_jobs: work.hash_jobs.push(job), ..work },
        EntryPlan::Upload(job) => ClassifiedView {
            upload_jobs: work.upload_jobs.push(job),
            ..work
        },
    }
}

impl ClassifiedEntries {
    fn add_report(&mut self, report: ObjectReport)
        ensures
            final(self)@ == with_plan(old(self)@, EntryPlan::Report(report@)),
    {
        self.reports.push(report);
        assert(self@.reports =~= old(self)@.reports.push(report@));
    }

    fn add_hash(&mut self, job: HashJob)
        ensures
            final(self)@ == with_plan(old(self)@, EntryPlan::Hash(job@)),
    {
        self.hash_jobs.push(job);
        assert(self@.hash_jobs =~= old(self)@.hash_jobs.push(job@));
    }

    fn add_upload(&mut self, entry: ManifestEntry, condition: PutCondition)
        ensures
            final(self)@ == with_plan(old(self)@, upload_plan(entry@, condition@)),
    {
        let job = UploadJob { entry, condition, comparison_digest: None };
        self.upload_jobs.push(job);
        assert(self@.upload_jobs =~= old(self)@.upload_jobs.push(job@));
    }
}

fn classify_directory_entry(
    entry: ManifestEntry,
    existing: Option<&DestinationObject>,
    work: &mut ClassifiedEntries,
)
    ensures
        final(work)@ == with_plan(
            old(work)@,
            directory_plan(entry@, opt_destination(existing)),
        ),
{
    let destination = match existing {
        Some(destination) => destination,
        None => {
            work.add_upload(entry, PutCondition::IfNoneMatch);
            return;
        },
    };
    let etag = clone_opt_string(&destination.etag);
    match destination.size {
        Some(size) => if size == 0 {
            work.add_report(
                ObjectReport {
                    status: OperationStatus::SkippedUnchanged,
                    key: entry.key,
                    zip_path: Some(entry.zip_path),
                    size: Some(0),
                    md5: Some(empty_md5()),
                    destination_etag: etag,
                    message: None,
                },
            );
        } else {
            let message = cat2(
                "destination directory marker key exists with nonzero size ",
                &decimal(size),
            );
            work.add_report(entry_error(&entry, etag, message));
        },
        None => work.add_report(
            entry_error(
                &entry,
                etag,
                "destination directory marker was listed without a size".to_owned(),
            ),
        ),
    }
}

fn classify_entry(
    entry: ManifestEntry,
    existing: Option<&DestinationObject>,
    work: &mut ClassifiedEntries,
)
    ensures
        final(work)@ == with_plan(old(work)@, entry_plan(entry@, opt_destination(existing))),
{
    if entry.is_directory {
        classify_directory_entry(entry, existing, work);
        return;
    }
    if let Some(report) = catalog_skip_report(&entry, existing) {
        work.add_report(report);
        return;
    }
    let destination = match existing {
        Some(destination) => destination,
        None => {
            work.add_upload(entry, PutCondition::IfNoneMatch);
            return;
        },
    };
    let destination_etag = match &destination.etag {
        Some(etag) => etag.clone(),
        None => {
            let report = entry_error(
                &entry,
                None,
                "destination object was listed without an ETag".to_owned(),
            );
            work.add_report(report);
            return;
        },
    };
    if entry.catalog_md5.is_some() {
        work.add_upload(entry, PutCondition::IfMatch(destination_etag));
        return;
    }
    match comparable_destination_md5(destination, &destination_etag, &entry) {
        Some(destination_md5) => work.add_hash(
            HashJob { entry, destination_etag, destination_md5 },
        ),
        None => work.add_upload(entry, PutCondition::IfMatch(destination_etag)),
    }
}

/// Decides what is to be done with each entry.
pub fn classify_entries(entries: Vec<ManifestEntry>, destination: &DestinationListing) -> (work:
    ClassifiedEntries)
    ensures
        work@ == classified(
            manifest_views(entries@),
            entries@.len() as int,
            destination@,
        ),
{
    let ghost views = manifest_views(entries@);
    let mut work = ClassifiedEntries {
        reports: Vec::new(),
        hash_jobs: Vec::new(),
        upload_jobs: Vec::new(),
    };
    proof {
        let none = classified(views, 0, destination@);
        assert(work@.reports =~= none.reports);
        assert(work@.hash_jobs =~= none.hash_jobs);
        assert(work@.upload_jobs =~= none.upload_jobs);
    }
    let mut i: usize = 0;
    while i < entries.len()
        invariant
            i <= entries.len(),
            views == manifest_views(entries@),
            work@ == classified(views, i as int, destination@),
        decreases entries.len() - i,
    {
        let entry = entries[i].clone();
        assert(views[i as int] == entry@);
        let existing = destination.get(&entry.key);
        classify_entry(entry, existing, &mut work);
        i += 1;
    }
    work
}

/// What a comparison comes to.
#[derive(Debug)]
pub enum HashPhaseResult {
    Operation(ObjectReport),
    Upload(UploadJob),
}

/// What a comparison comes to: equal content is left alone, other content is
/// written on the condition that the object stays as listed.
pub open spec fn hash_plan(
    job: HashJobView,
    digest: core::result::Result<ExtractDigestView, ErrorView>,
) -> EntryPlan {
    match digest {
        Ok(digest) => if digest.md5 == job.destination_md5 {
            EntryPlan::Report(
                skipped_entry(job.entry, digest.bytes, digest.md5, Some(job.destination_etag)),
            )
        } else {
            EntryPlan::Upload(
                UploadJobView {
                    entry: job.entry,
                    condition: PutConditionView::IfMatch(job.destination_etag),
                    comparison_digest: Some(digest),
                },
            )
        },
        Err(error) => EntryPlan::Report(
            failed_entry(job.entry, Some(job.destination_etag), error_text(error)),
        ),
    }
}

pub open spec fn hash_result_view(result: HashPhaseResult) -> EntryPlan {
    match result {
        HashPhaseResult::Operation(report) => EntryPlan::Report(report@),
        HashPhaseResult::Upload(job) => EntryPlan::Upload(job@),
    }
}

pub open spec fn digest_result(result: core::result::Result<ExtractDigest, Error>) -> core::result::Result<
    ExtractDigestView,
    ErrorView,
> {
    match result {
        Ok(digest) => Ok(digest@),
        Err(error) => Err(error@),
    }
}

/// Decides what a comparison comes to.
pub fn finish_hash_job(job: HashJob, digest: core::result::Result<ExtractDigest, Error>) -> (result:
    HashPhaseResult)
    ensures
        hash_result_view(result) == hash_plan(job@, digest_result(digest)),
{
    match digest {
        Ok(digest) => if str_eq(&digest.md5, &job.destination_md5) {
            HashPhaseResult::Operation(
                ObjectReport {
                    status: OperationStatus::SkippedUnchanged,
                    key: job.entry.key,
                    zip_path: Some(job.entry.zip_path),
                    size: Some(digest.bytes),
                    md5: Some(digest.md5),
                    destination_etag: Some(job.destination_etag),
                    message: None,
                },
            )
        } else {
            HashPhaseResult::Upload(
                UploadJob {
                    entry: job.entry,
                    condition: PutCondition::IfMatch(job.destination_etag),
                    comparison_digest: Some(digest),
                },
            )
        },
        Err(error) => HashPhaseResult::Operation(
            entry_error(&job.entry, Some(job.destination_etag), error.to_string()),
        ),
    }
}

/// The ETag that a condition names.
pub open spec fn condition_etag(condition: PutConditionView) -> Option<Seq<char>> {
    match condition {
        PutConditionView::IfNoneMatch => None,
        PutConditionView::IfMatch(etag) => Some(etag),
    }
}

/// The size to report of a job that was not written.
pub open spec fn job_size(job: UploadJobView) -> u64 {
    match job.comparison_digest {
        Some(digest) => digest.bytes,
        None => job.entry.size,
    }
}

/// The digest to report of a job that was not written.
pub open spec fn job_md5(job: UploadJobView) -> Option<Seq<char>> {
    match job.comparison_digest {
        Some(digest) => Some(digest.md5),
        None => job.entry.catalog_md5,
    }
}

/// The report of a write.
pub open spec fn upload_report(job: UploadJobView, result: PutResultView) -> ObjectReportView {
    let etag = condition_etag(job.condition);
    match result {
        PutResultView::Uploaded(digest) => ObjectReportView {
            status: if etag is Some {
                OperationStatus::UploadedChanged
            } else {
                OperationStatus::UploadedNew
            },
            key: job.entry.key,
            zip_path: Some(job.entry.zip_path),
            size: Some(digest.bytes),
            md5: Some(digest.md5),
            destination_etag: etag,
            message: None,
        },
        PutResultView::ConditionalConflict(message) => ObjectReportView {
            status: OperationStatus::ConditionalConflict,
            key: job.entry.key,
            zip_path: Some(job.entry.zip_path),
            size: Some(job_size(job)),
            md5: job_md5(job),
            destination_etag: etag,
            message: Some(message),
        },
        PutResultView::Failed(message) => failed_entry(job.entry, etag, message),
    }
}

/// Reports a write.
pub fn finish_upload_job(job: UploadJob, result: PutResult) -> (report: ObjectReport)
    ensures
        report@ == upload_report(job@, result@),
{
    let destination_etag: Option<String> = match &job.condition {
        PutCondition::IfNoneMatch => None,
        PutCondition::IfMatch(etag) => Some(etag.clone()),
    };
    match result {
        PutResult::Uploaded(digest) => {
            let status = if destination_etag.is_some() {
                OperationStatus::UploadedChanged
            } else {
                OperationStatus::UploadedNew
            };
            ObjectReport {
                status,
                key: job.entry.key,
                zip_path: Some(job.entry.zip_path),
                size: Some(digest.bytes),
                md5: Some(digest.md5),
                destination_etag,
                message: None,
            }
        },
        PutResult::ConditionalConflict(message) => {
            let (size, md5) = match job.comparison_digest {
                Some(digest) => (digest.bytes, Some(digest.md5)),
                None => (job.entry.size, job.entry.catalog_md5),
            };
            ObjectReport {
                status: OperationStatus::ConditionalConflict,
                key: job.entry.key,
                zip_path: Some(job.entry.zip_path),
                size: Some(size),
                md5,
                destination_etag,
                message: Some(message),
            }
        },
        PutResult::Failed(message) => entry_error(&job.entry, destination_etag, message),
    }
}

/// What results of comparisons come to.
pub open spec fn result_plans(results: Seq<HashPhaseResult>) -> Seq<EntryPlan> {
    results.map_values(|result: HashPhaseResult| hash_result_view(result))
}

/// What comparisons come to, given the digests.
pub open spec fn hash_plans(
    jobs: Seq<HashJobView>,
    digests: Seq<core::result::Result<ExtractDigestView, ErrorView>>,
) -> Seq<EntryPlan> {
    Seq::new(jobs.len(), |i: int| hash_plan(jobs[i], digests[i]))
}

/// The reports of writes, given what became of them.
pub open spec fn upload_reports(jobs: Seq<UploadJobView>, results: Seq<PutResultView>) -> Seq<
    ObjectReportView,
> {
    Seq::new(jobs.len(), |i: int| upload_report(jobs[i], results[i]))
}

/// Every entry becomes exactly one report, comparison or write.
pub proof fn law_every_entry_is_classified_once(
    entries: Seq<ManifestEntryView>,
    n: int,
    destination: Map<Seq<char>, DestinationView>,
)
    requires
        0 <= n <= entries.len(),
    ensures
        ({
            let work = classified(entries, n, destination);
            work.reports.len() + work.hash_jobs.len() + work.upload_jobs.len() == n
        }),
    decreases n,
{
    if n > 0 {
        law_every_entry_is_classified_once(entries, n - 1, destination);
    }
}

/// A write is conditional on what was listed: absent keys must stay absent,
/// and existing objects must keep their ETag.
pub proof fn law_writes_are_conditional_on_the_listing(
    entry: ManifestEntryView,
    existing: Option<DestinationView>,
)
    requires
        entry_plan(entry, existing) is Upload,
    ensures
        match entry_plan(entry, existing)->Upload_0.condition {
            PutConditionView::IfNoneMatch => existing is None,
            PutConditionView::IfMatch(etag) => existing is Some && existing->Some_0.etag == Some(
                etag,
            ),
        },
{
}

/// An entry whose digest in the catalog is the ETag of the destination object
/// is left alone, and no source bytes are needed for it.
pub proof fn law_catalog_match_is_skipped(
    entry: ManifestEntryView,
    existing: Option<DestinationView>,
)
    requires
        !entry.is_directory,
        catalog_matches(entry, existing),
    ensures
        entry_plan(entry, existing) is Report,
        entry_plan(entry, existing)->Report_0.status == OperationStatus::SkippedUnchanged,
{
}

/// The report of a write names the key and path of its entry and the ETag that
/// the write was conditional on, whatever the outcome.
pub proof fn law_reports_name_their_entry(job: UploadJobView, result: PutResultView)
    ensures
        upload_report(job, result).key == job.entry.key,
        upload_report(job, result).zip_path == Some(job.entry.zip_path),
        upload_report(job, result).destination_etag == condition_etag(job.condition),
{
}

/// Extracting again changes nothing: once an object has the quoted digest of an
/// entry's content as its ETag, and the size of the content, the entry is left
/// alone, at once where the catalog has the digest, and after a comparison
/// where there is no catalog.
pub proof fn law_written_objects_are_left_alone(
    entry: ManifestEntryView,
    digest: Seq<u8>,
    existing: DestinationView,
)
    requires
        digest.len() == 16,
        !entry.is_directory,
        existing.etag == Some("\""@ + hex_text(digest) + "\""@),
        existing.size == Some(entry.size),
        entry.catalog_md5 == Some(hex_text(digest)) || entry.catalog_md5 is None,
    ensures
        match entry_plan(entry, Some(existing)) {
            EntryPlan::Report(report) => entry.catalog_md5 is Some && report.status
                == OperationStatus::SkippedUnchanged,
            EntryPlan::Hash(job) => {
                let outcome = hash_plan(
                    job,
                    Ok(ExtractDigestView { bytes: entry.size, md5: hex_text(digest) }),
                );
                &&& entry.catalog_md5 is None
                &&& outcome is Report
                &&& outcome->Report_0.status == OperationStatus::SkippedUnchanged
            },
            EntryPlan::Upload(_) => false,
        },
{
    law_quoted_digest_is_md5(digest);
}

} // verus!

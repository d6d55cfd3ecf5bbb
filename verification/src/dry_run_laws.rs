//! A dry run tells what the transfer does.
use vstd::multiset::Multiset;
use vstd::prelude::*;

use crate::classify::{
    classified, hash_plans, hash_result_view, report_views, result_plans, upload_job_views,
    upload_reports, EntryPlan, HashPhaseResult, UploadJobView,
};
use crate::delete_extra::delete_report;
use crate::destination::{has_key, keys_distinct, DestinationView};
use crate::digest::ExtractDigestView;
use crate::dry_run::{compared_dry_run, dry_run_plan, would_report, would_status, DryRunPlanView};
use crate::dry_run_sync::{
    compared_reports, compared_uploads, dry_record_all, fresh_dry_record, lemma_record_prefix,
    would_deletes, would_reports, would_uploads, DryRecord,
};
use crate::error::ErrorView;
use crate::local_sync::{
    compared_plan, local_plan, local_put_report, marker_report, LocalPlanView, LocalPutView,
    MarkerOutcome,
};
use crate::local_zip::LocalEntryView;
use crate::put::{PutConditionView, PutResultView};
use crate::report::{
    counted, counted_all, DryRunObjectReportView, ObjectReport, ObjectReportView, OperationStatus,
    SyncSummary, UnzipDryRunSummary,
};
use crate::sync_run::{
    fresh_record, hash_all, lemma_no_conflicts_classified, record_all, HashFold, RecordRules,
    RecordView, SyncCourse,
};
use crate::zip_manifest::ManifestEntryView;

verus! {

/// What both an extraction and its dry run start from.
pub struct Source {
    pub entries: Seq<ManifestEntryView>,
    pub destination: Map<Seq<char>, DestinationView>,
    /// What the digest of each entry comes to that is compared.
    pub digests: Seq<core::result::Result<ExtractDigestView, ErrorView>>,
    pub deletes_extra: bool,
}

/// Whether some keys are those that are to be deleted.
pub open spec fn are_extra_keys(keys: Seq<String>, source: Source) -> bool {
    &&& keys_distinct(keys)
    &&& if source.deletes_extra {
        forall|key: Seq<char>| #[trigger]
            has_key(keys, key) <==> source.destination.contains_key(key) && !exists|i: int|
                0 <= i < source.entries.len() && (#[trigger] source.entries[i]).key == key
    } else {
        keys.len() == 0
    }
}

/// The course of an extraction with its deletions.
pub struct TransferCourse {
    pub course: SyncCourse,
    /// What became of the writes, in the order of the jobs.
    pub results: Seq<PutResultView>,
    /// The keys to delete, and the reports of the deletions.
    pub keys: Seq<String>,
    pub deleted: Seq<ObjectReport>,
}

impl TransferCourse {
    /// The totals after the deletions, by `SyncRun::record_deletions`.
    pub open spec fn summary(self, source: Source) -> SyncSummary {
        counted_all(
            self.course.after_writes(source.entries, source.destination).summary,
            self.deleted,
            self.deleted.len() as int,
        )
    }

    /// Whether the course is that of an extraction in which every write and
    /// every deletion succeeds.
    pub open spec fn succeeds(self, source: Source) -> bool {
        let uploads = self.course.after_comparisons(source.entries, source.destination).uploads;
        &&& self.course.is_of(source.entries, source.destination, source.digests, self.results)
        &&& forall|i: int| 0 <= i < uploads.len() ==> (#[trigger] self.results[i]) is Uploaded
        &&& are_extra_keys(self.keys, source)
        &&& self.deleted.len() == self.keys.len()
        &&& forall|i: int|
            0 <= i < self.keys.len() ==> (#[trigger] self.deleted[i])@ == delete_report(
                self.keys[i]@,
                None,
            )
    }
}

/// The course of a dry run.
pub struct DryRunCourse {
    pub collect: bool,
    /// The results of the comparisons as they came in.
    pub compared: Seq<HashPhaseResult>,
    /// The keys that would be deleted.
    pub keys: Seq<String>,
}

impl DryRunCourse {
    /// What is recorded when the entries are classified, by `DryRunSync::start`.
    pub open spec fn started(self, source: Source) -> DryRecord {
        let work = classified(source.entries, source.entries.len() as int, source.destination);
        let reports = would_reports(work.reports);
        dry_record_all(
            fresh_dry_record(source.entries.len() as usize, source.destination.len() as usize),
            reports,
            reports.len() as int,
            self.collect,
        )
    }

    /// What is recorded after the comparisons, by `DryRunSync::record_hash_results`.
    pub open spec fn after_comparisons(self, source: Source) -> DryRecord {
        let reports = would_reports(compared_reports(self.compared, self.compared.len() as int));
        dry_record_all(self.started(source), reports, reports.len() as int, self.collect)
    }

    /// What is recorded after the writes that would be made, by
    /// `DryRunSync::record_uploads`.
    pub open spec fn after_writes(self, source: Source) -> DryRecord {
        let work = classified(source.entries, source.entries.len() as int, source.destination);
        let uploads = would_uploads(
            work.upload_jobs + compared_uploads(self.compared, self.compared.len() as int),
        );
        dry_record_all(self.after_comparisons(source), uploads, uploads.len() as int, self.collect)
    }

    /// The totals after the deletions that would be made, by
    /// `DryRunSync::record_deletions`.
    pub open spec fn summary(self, source: Source) -> UnzipDryRunSummary {
        let deletes = would_deletes(self.keys, source.destination);
        dry_record_all(
            self.after_writes(source),
            deletes,
            deletes.len() as int,
            self.collect,
        ).summary
    }

    /// Whether the course is that of a dry run.
    pub open spec fn holds(self, source: Source) -> bool {
        let work = classified(source.entries, source.entries.len() as int, source.destination);
        &&& result_plans(self.compared).to_multiset() == hash_plans(
            work.hash_jobs,
            source.digests,
        ).to_multiset()
        &&& are_extra_keys(self.keys, source)
    }
}

/// Whether a dry run has the totals of a transfer without conflicts.
pub open spec fn same_totals(transfer: SyncSummary, dry_run: UnzipDryRunSummary) -> bool {
    &&& dry_run.zip_files == transfer.zip_files
    &&& dry_run.destination_objects == transfer.destination_objects
    &&& dry_run.would_upload_new == transfer.uploaded_new
    &&& dry_run.would_upload_changed == transfer.uploaded_changed
    &&& dry_run.skipped_unchanged == transfer.skipped_unchanged
    &&& dry_run.would_delete_extra == transfer.deleted_extra
    &&& dry_run.errors == transfer.errors
    &&& transfer.conditional_conflicts == 0
}

spec fn no_conflicts(reports: Seq<ObjectReportView>) -> bool {
    forall|i: int|
        0 <= i < reports.len() ==> (#[trigger] reports[i]).status
            != OperationStatus::ConditionalConflict
}

/// A summary with the report of an operation.
spec fn count_report() -> spec_fn(SyncSummary, ObjectReportView) -> SyncSummary {
    |summary: SyncSummary, report: ObjectReportView| counted(summary, report.status)
}

/// A summary with a write that succeeds.
spec fn count_job() -> spec_fn(SyncSummary, UploadJobView) -> SyncSummary {
    |summary: SyncSummary, job: UploadJobView| counted(summary, job_status(job))
}

spec fn job_status(job: UploadJobView) -> OperationStatus {
    match job.condition {
        PutConditionView::IfNoneMatch => OperationStatus::UploadedNew,
        PutConditionView::IfMatch(_) => OperationStatus::UploadedChanged,
    }
}

/// A summary, and the writes to make.
struct Tally {
    summary: SyncSummary,
    uploads: Multiset<UploadJobView>,
}

spec fn count_plan() -> spec_fn(Tally, EntryPlan) -> Tally {
    |tally: Tally, plan: EntryPlan|
        match plan {
            EntryPlan::Report(report) => Tally {
                summary: counted(tally.summary, report.status),
                ..tally
            },
            EntryPlan::Upload(job) => Tally { uploads: tally.uploads.insert(job), ..tally },
            EntryPlan::Hash(_) => tally,
        }
}

proof fn lemma_counting_commutes()
    ensures
        vstd::seq_lib::commutative_foldl(count_report()),
        vstd::seq_lib::commutative_foldl(count_job()),
        vstd::seq_lib::commutative_foldl(count_plan()),
{
    let f = count_plan();
    assert forall|x: EntryPlan, y: EntryPlan, v: Tally| #[trigger] f(f(v, x), y) == f(f(v, y), x) by {
        assert(f(f(v, x), y).uploads =~= f(f(v, y), x).uploads);
    }
}

proof fn lemma_recorded_summary(
    record: RecordView,
    operations: Seq<ObjectReport>,
    n: int,
    rules: RecordRules,
)
    requires
        record.error is None,
        0 <= n <= operations.len(),
        no_conflicts(report_views(operations)),
    ensures
        record_all(record, operations, n, rules).error is None,
        record_all(record, operations, n, rules).summary == report_views(operations).take(
            n,
        ).fold_left(record.summary, count_report()),
    decreases n,
{
    if n > 0 {
        lemma_recorded_summary(record, operations, n - 1, rules);
        let reports = report_views(operations);
        assert(reports[n - 1].status != OperationStatus::ConditionalConflict);
        assert(reports.take(n).drop_last() =~= reports.take(n - 1));
    }
}

proof fn lemma_recorded_dry_run(
    summary: SyncSummary,
    record: DryRecord,
    reports: Seq<ObjectReportView>,
    n: int,
    collect: bool,
)
    requires
        same_totals(summary, record.summary),
        0 <= n <= reports.len(),
        no_conflicts(reports),
    ensures
        same_totals(
            reports.take(n).fold_left(summary, count_report()),
            dry_record_all(record, would_reports(reports), n, collect).summary,
        ),
    decreases n,
{
    if n > 0 {
        lemma_recorded_dry_run(summary, record, reports, n - 1, collect);
        assert(reports.take(n).drop_last() =~= reports.take(n - 1));
        assert(reports[n - 1].status != OperationStatus::ConditionalConflict);
        assert(would_reports(reports)[n - 1] == would_report(reports[n - 1]));
    }
}

/// Whether no comparison comes to a conflict.
spec fn plans_without_conflicts(plans: Seq<EntryPlan>) -> bool {
    forall|i: int|
        0 <= i < plans.len() ==> match #[trigger] plans[i] {
            EntryPlan::Report(report) => report.status != OperationStatus::ConditionalConflict,
            _ => true,
        }
}

proof fn lemma_compared_transfer(
    fold: HashFold,
    results: Seq<HashPhaseResult>,
    n: int,
    rules: RecordRules,
)
    requires
        fold.record.error is None,
        0 <= n <= results.len(),
        plans_without_conflicts(result_plans(results)),
    ensures
        ({
            let after = hash_all(fold, results, n, rules);
            let tally = result_plans(results).take(n).fold_left(
                Tally {
                    summary: fold.record.summary,
                    uploads: upload_job_views(fold.uploads).to_multiset(),
                },
                count_plan(),
            );
            &&& after.record.error is None
            &&& after.record.summary == tally.summary
            &&& upload_job_views(after.uploads).to_multiset() == tally.uploads
        }),
    decreases n,
{
    broadcast use vstd::seq_lib::group_to_multiset_ensures;

    if n > 0 {
        lemma_compared_transfer(fold, results, n - 1, rules);
        let plans = result_plans(results);
        let before = hash_all(fold, results, n - 1, rules);
        assert(plans.take(n).drop_last() =~= plans.take(n - 1));
        assert(plans[n - 1] == hash_result_view(results[n - 1]));
        match results[n - 1] {
            HashPhaseResult::Upload(job) => {
                assert(upload_job_views(before.uploads.push(job)) =~= upload_job_views(
                    before.uploads,
                ).push(job@));
            },
            HashPhaseResult::Operation(_) => {},
        }
    }
}

proof fn lemma_compared_dry_run(
    summary: SyncSummary,
    record: DryRecord,
    jobs: Seq<UploadJobView>,
    results: Seq<HashPhaseResult>,
    n: int,
    collect: bool,
)
    requires
        same_totals(summary, record.summary),
        0 <= n <= results.len(),
        plans_without_conflicts(result_plans(results)),
    ensures
        ({
            let reports = would_reports(compared_reports(results, n));
            let tally = result_plans(results).take(n).fold_left(
                Tally { summary, uploads: jobs.to_multiset() },
                count_plan(),
            );
            &&& same_totals(
                tally.summary,
                dry_record_all(record, reports, reports.len() as int, collect).summary,
            )
            &&& (jobs + compared_uploads(results, n)).to_multiset() == tally.uploads
        }),
    decreases n,
{
    broadcast use vstd::seq_lib::group_to_multiset_ensures;

    if n > 0 {
        lemma_compared_dry_run(summary, record, jobs, results, n - 1, collect);
        let plans = result_plans(results);
        assert(plans.take(n).drop_last() =~= plans.take(n - 1));
        assert(plans[n - 1] == hash_result_view(results[n - 1]));
        let before = would_reports(compared_reports(results, n - 1));
        let now = would_reports(compared_reports(results, n));
        match results[n - 1] {
            HashPhaseResult::Operation(report) => {
                assert(now =~= before.push(would_report(report@)));
                lemma_record_prefix(record, before, now, before.len() as int, collect);
            },
            HashPhaseResult::Upload(job) => {
                assert(jobs + compared_uploads(results, n) =~= (jobs + compared_uploads(
                    results,
                    n - 1,
                )).push(job@));
            },
        }
    } else {
        assert(jobs + compared_uploads(results, n) =~= jobs);
    }
}

proof fn lemma_written_statuses(
    summary: SyncSummary,
    jobs: Seq<UploadJobView>,
    results: Seq<PutResultView>,
    n: int,
)
    requires
        0 <= n <= jobs.len(),
        forall|i: int| 0 <= i < jobs.len() ==> (#[trigger] results[i]) is Uploaded,
    ensures
        upload_reports(jobs, results).take(n).fold_left(summary, count_report()) == jobs.take(
            n,
        ).fold_left(summary, count_job()),
    decreases n,
{
    if n > 0 {
        lemma_written_statuses(summary, jobs, results, n - 1);
        let reports = upload_reports(jobs, results);
        assert(results[n - 1] is Uploaded);
        assert(reports.take(n).drop_last() =~= reports.take(n - 1));
        assert(jobs.take(n).drop_last() =~= jobs.take(n - 1));
    }
}

proof fn lemma_would_write(
    summary: SyncSummary,
    record: DryRecord,
    jobs: Seq<UploadJobView>,
    n: int,
    collect: bool,
)
    requires
        same_totals(summary, record.summary),
        0 <= n <= jobs.len(),
    ensures
        same_totals(
            jobs.take(n).fold_left(summary, count_job()),
            dry_record_all(record, would_uploads(jobs), n, collect).summary,
        ),
    decreases n,
{
    if n > 0 {
        lemma_would_write(summary, record, jobs, n - 1, collect);
        assert(jobs.take(n).drop_last() =~= jobs.take(n - 1));
    }
}

proof fn lemma_would_delete(
    summary: SyncSummary,
    record: DryRecord,
    deleted: Seq<ObjectReport>,
    keys: Seq<String>,
    destination: Map<Seq<char>, DestinationView>,
    n: int,
    collect: bool,
)
    requires
        same_totals(summary, record.summary),
        0 <= n <= deleted.len(),
        n <= keys.len(),
        forall|i: int|
            0 <= i < deleted.len() ==> (#[trigger] deleted[i])@.status
                == OperationStatus::DeletedExtra,
    ensures
        same_totals(
            counted_all(summary, deleted, n),
            dry_record_all(record, would_deletes(keys, destination), n, collect).summary,
        ),
    decreases n,
{
    if n > 0 {
        lemma_would_delete(summary, record, deleted, keys, destination, n - 1, collect);
        assert(deleted[n - 1]@.status == OperationStatus::DeletedExtra);
    }
}

proof fn lemma_as_many_keys(first: Seq<String>, second: Seq<String>, source: Source)
    requires
        are_extra_keys(first, source),
        are_extra_keys(second, source),
    ensures
        first.len() == second.len(),
{
    let a = first.map_values(|key: String| key@);
    let b = second.map_values(|key: String| key@);
    assert forall|i: int, j: int| 0 <= i < a.len() && 0 <= j < a.len() && i != j implies a[i]
        != a[j] by {
        if i < j {
            assert(first[i]@ != first[j]@);
        } else {
            assert(first[j]@ != first[i]@);
        }
    }
    assert forall|i: int, j: int| 0 <= i < b.len() && 0 <= j < b.len() && i != j implies b[i]
        != b[j] by {
        if i < j {
            assert(second[i]@ != second[j]@);
        } else {
            assert(second[j]@ != second[i]@);
        }
    }
    if source.deletes_extra {
        assert forall|key: Seq<char>| a.to_set().contains(key) <==> b.to_set().contains(key) by {
            assert(has_key(first, key) <==> has_key(second, key));
            if a.contains(key) {
                let i = a.index_of(key);
                assert(first[i]@ == key);
                let j = choose|j: int| 0 <= j < second.len() && (#[trigger] second[j])@ == key;
                assert(b[j] == key);
            }
            if b.contains(key) {
                let i = b.index_of(key);
                assert(second[i]@ == key);
                let j = choose|j: int| 0 <= j < first.len() && (#[trigger] first[j])@ == key;
                assert(a[j] == key);
            }
        }
        assert(a.to_set() =~= b.to_set());
        a.unique_seq_to_set();
        b.unique_seq_to_set();
    }
}

proof fn lemma_plans_without_conflicts(first: Seq<EntryPlan>, second: Seq<EntryPlan>)
    requires
        first.to_multiset() == second.to_multiset(),
        plans_without_conflicts(second),
    ensures
        plans_without_conflicts(first),
{
    broadcast use vstd::seq_lib::group_to_multiset_ensures;

    assert forall|i: int| 0 <= i < first.len() implies match #[trigger] first[i] {
        EntryPlan::Report(report) => report.status != OperationStatus::ConditionalConflict,
        _ => true,
    } by {
        assert(first.contains(first[i]));
        assert(second.to_multiset().count(first[i]) > 0);
        assert(second.contains(first[i]));
        let k = second.index_of(first[i]);
        assert(second[k] == first[i]);
    }
}

proof fn lemma_reports_without_conflicts(first: Seq<ObjectReportView>, second: Seq<ObjectReportView>)
    requires
        first.to_multiset() == second.to_multiset(),
        no_conflicts(second),
    ensures
        no_conflicts(first),
{
    broadcast use vstd::seq_lib::group_to_multiset_ensures;

    assert forall|i: int| 0 <= i < first.len() implies (#[trigger] first[i]).status
        != OperationStatus::ConditionalConflict by {
        assert(first.contains(first[i]));
        assert(second.to_multiset().count(first[i]) > 0);
        assert(second.contains(first[i]));
        let k = second.index_of(first[i]);
        assert(second[k] == first[i]);
    }
}

/// A dry run has the totals of the transfer: where both find the same entries,
/// the same destination and the same content, and no write or deletion of the
/// transfer fails, every count of the dry run is that of the transfer. In which
/// order comparisons and writes come to their end does not matter.
pub proof fn law_dry_run_has_the_totals_of_the_transfer(
    source: Source,
    transfer: TransferCourse,
    dry_run: DryRunCourse,
)
    requires
        transfer.succeeds(source),
        dry_run.holds(source),
    ensures
        same_totals(transfer.summary(source), dry_run.summary(source)),
{
    let n = source.entries.len() as int;
    let work = classified(source.entries, n, source.destination);
    let plans = hash_plans(work.hash_jobs, source.digests);
    lemma_counting_commutes();
    lemma_no_conflicts_classified(source.entries, n, source.destination);
    assert(no_conflicts(work.reports));

    let course = transfer.course;
    let started = course.started(source.entries, source.destination);
    let rules = RecordRules { update_progress: true, ..course.rules };
    let zip_files = source.entries.len() as usize;
    let objects = source.destination.len() as usize;
    let fresh = fresh_record(zip_files, objects);
    let reports = work.reports;
    lemma_recorded_summary(fresh, course.reports, reports.len() as int, rules);
    lemma_recorded_dry_run(
        fresh.summary,
        fresh_dry_record(zip_files, objects),
        reports,
        reports.len() as int,
        dry_run.collect,
    );
    assert(same_totals(started.summary, dry_run.started(source).summary));

    assert(plans_without_conflicts(plans));
    let first = result_plans(course.compared);
    let second = result_plans(dry_run.compared);
    lemma_plans_without_conflicts(first, plans);
    lemma_plans_without_conflicts(second, plans);
    let fold = HashFold { record: started, uploads: course.jobs };
    let tally = Tally { summary: started.summary, uploads: work.upload_jobs.to_multiset() };
    lemma_compared_transfer(fold, course.compared, course.compared.len() as int, rules);
    lemma_compared_dry_run(
        started.summary,
        dry_run.started(source),
        work.upload_jobs,
        dry_run.compared,
        dry_run.compared.len() as int,
        dry_run.collect,
    );
    assert(first.take(first.len() as int) =~= first);
    assert(second.take(second.len() as int) =~= second);
    vstd::seq_lib::lemma_fold_left_permutation(first, second, count_plan(), tally);
    let compared = course.after_comparisons(source.entries, source.destination);
    let jobs = upload_job_views(compared.uploads);
    let would = work.upload_jobs + compared_uploads(
        dry_run.compared,
        dry_run.compared.len() as int,
    );
    assert(same_totals(compared.record.summary, dry_run.after_comparisons(source).summary));
    assert(jobs.to_multiset() == would.to_multiset());

    let expected = upload_reports(jobs, transfer.results);
    let written = report_views(course.written);
    assert forall|i: int| 0 <= i < jobs.len() implies (#[trigger] transfer.results[i]) is Uploaded by {}
    assert forall|i: int| 0 <= i < expected.len() implies (#[trigger] expected[i]).status
        != OperationStatus::ConditionalConflict by {
        assert(transfer.results[i] is Uploaded);
    }
    lemma_reports_without_conflicts(written, expected);
    let record = RecordView { progress: course.progress, ..compared.record };
    lemma_recorded_summary(
        record,
        course.written,
        course.written.len() as int,
        RecordRules { update_progress: false, ..course.rules },
    );
    assert(written.take(written.len() as int) =~= written);
    assert(expected.take(expected.len() as int) =~= expected);
    assert(jobs.take(jobs.len() as int) =~= jobs);
    assert(would.take(would.len() as int) =~= would);
    vstd::seq_lib::lemma_fold_left_permutation(written, expected, count_report(), record.summary);
    lemma_written_statuses(record.summary, jobs, transfer.results, jobs.len() as int);
    vstd::seq_lib::lemma_fold_left_permutation(jobs, would, count_job(), record.summary);
    lemma_would_write(
        record.summary,
        dry_run.after_comparisons(source),
        would,
        would.len() as int,
        dry_run.collect,
    );

    lemma_as_many_keys(transfer.keys, dry_run.keys, source);
    assert forall|i: int| 0 <= i < transfer.deleted.len() implies (
    #[trigger] transfer.deleted[i])@.status == OperationStatus::DeletedExtra by {
        assert(transfer.deleted[i]@ == delete_report(transfer.keys[i]@, None));
    }
    lemma_would_delete(
        course.after_writes(source.entries, source.destination).summary,
        dry_run.after_writes(source),
        transfer.deleted,
        dry_run.keys,
        source.destination,
        dry_run.keys.len() as int,
        dry_run.collect,
    );
}

/// The report of an entry of a local ZIP file once nothing is left to compare,
/// where its write succeeds.
pub open spec fn settled_report(
    entry: LocalEntryView,
    plan: LocalPlanView,
    written: ExtractDigestView,
) -> Option<ObjectReportView> {
    match plan {
        LocalPlanView::Report(report) => Some(report),
        LocalPlanView::PutMarker => Some(marker_report(entry, MarkerOutcome::Written)),
        LocalPlanView::Put(condition) => Some(
            local_put_report(entry, condition, LocalPutView::Written(written)),
        ),
        LocalPlanView::Compare { .. } => None,
    }
}

/// The report of an entry of a local ZIP file where its write succeeds.
pub open spec fn transfer_report(
    entry: LocalEntryView,
    existing: Option<DestinationView>,
    digest: core::result::Result<ExtractDigestView, ErrorView>,
    written: ExtractDigestView,
) -> Option<ObjectReportView> {
    match local_plan(entry, existing) {
        LocalPlanView::Compare { destination_etag, destination_md5 } => settled_report(
            entry,
            compared_plan(entry, destination_etag, destination_md5, digest),
            written,
        ),
        plan => settled_report(entry, plan, written),
    }
}

/// The dry-run report of an entry of a local ZIP file.
pub open spec fn dry_run_report(
    entry: LocalEntryView,
    existing: Option<DestinationView>,
    digest: core::result::Result<ExtractDigestView, ErrorView>,
) -> DryRunObjectReportView {
    match dry_run_plan(entry, existing) {
        DryRunPlanView::Compare { destination_etag, destination_md5 } => compared_dry_run(
            entry,
            destination_etag,
            destination_md5,
            digest,
        ),
        DryRunPlanView::Report(report) => report,
    }
}

/// A dry run of a local ZIP file reports of each entry what the transfer
/// reports where the write succeeds: the same key, path and ETag, and the
/// status that stands for the transfer's. A file whose object was listed
/// without an ETag is left out: a dry run reports it as an error, while the
/// transfer tries to write it where there is no object.
pub proof fn law_local_dry_run_reports_as_the_transfer(
    entry: LocalEntryView,
    existing: Option<DestinationView>,
    digest: core::result::Result<ExtractDigestView, ErrorView>,
    written: ExtractDigestView,
)
    requires
        entry.is_directory || existing is None || existing->Some_0.etag is Some,
    ensures
        transfer_report(entry, existing, digest, written) is Some,
        ({
            let report = transfer_report(entry, existing, digest, written)->Some_0;
            let dry_run = dry_run_report(entry, existing, digest);
            &&& dry_run.status == would_status(report.status)
            &&& dry_run.key == report.key
            &&& dry_run.zip_path == report.zip_path
            &&& dry_run.destination_etag == report.destination_etag
        }),
{
}

} // verus!

//! The course of a dry run into an S3 prefix.
//!
//! Entries are classified and compared as in a transfer, and what would be
//! written or deleted is recorded instead.
use vstd::hash_set::StringHashSet;
use vstd::prelude::*;
use vstd::string::*;

use crate::classify::{
    classified, classify_entries, hash_job_views, listed, report_views, upload_job_views, HashJob,
    HashPhaseResult, UploadJob, UploadJobView,
};
use crate::destination::{are_extra, opt_keys, DestinationListing, DestinationView};
use crate::dry_run::{
    dry_run_delete_extra_report, dry_run_report_from_object_report, dry_run_upload_job_report,
    record_dry_run_operation, would_delete, would_report, would_upload,
};
use crate::options::{DestinationCleanup, SyncOptions};
use crate::report::{
    dry_run_count, dry_run_counted, DryRunObjectReport, DryRunObjectReportView,
    DryRunOperationStatus, ObjectReportView, UnzipDryRunSummary,
};
use crate::sync_run::{expected_keys, is_key_set};
use crate::zip_manifest::{manifest_views, ManifestEntry, ManifestEntryView};

verus! {

pub open spec fn dry_run_views(operations: Seq<DryRunObjectReport>) -> Seq<DryRunObjectReportView> {
    operations.map_values(|operation: DryRunObjectReport| operation@)
}

/// What a dry run has recorded.
pub struct DryRecord {
    pub summary: UnzipDryRunSummary,
    pub operations: Seq<DryRunObjectReportView>,
}

/// The record with the first `n` operations.
pub open spec fn dry_record_all(
    record: DryRecord,
    operations: Seq<DryRunObjectReportView>,
    n: int,
    collect: bool,
) -> DryRecord
    decreases n,
{
    if n <= 0 {
        record
    } else {
        let before = dry_record_all(record, operations, n - 1, collect);
        DryRecord {
            summary: dry_run_counted(before.summary, operations[n - 1].status),
            operations: if collect {
                before.operations.push(operations[n - 1])
            } else {
                before.operations
            },
        }
    }
}

/// Whether every counter has room for `n` more operations.
pub open spec fn dry_run_room(summary: UnzipDryRunSummary, n: int) -> bool {
    forall|status: DryRunOperationStatus| #[trigger] dry_run_count(summary, status) + n <= usize::MAX
}

pub open spec fn would_reports(reports: Seq<ObjectReportView>) -> Seq<DryRunObjectReportView> {
    reports.map_values(|report: ObjectReportView| would_report(report))
}

pub open spec fn would_uploads(jobs: Seq<UploadJobView>) -> Seq<DryRunObjectReportView> {
    jobs.map_values(|job: UploadJobView| would_upload(job))
}

pub open spec fn would_deletes(keys: Seq<String>, destination: Map<Seq<char>, DestinationView>) -> Seq<
    DryRunObjectReportView,
> {
    keys.map_values(|key: String| would_delete(key@, listed(destination, key@)))
}

/// The reports among the first `n` results of comparisons.
pub open spec fn compared_reports(results: Seq<HashPhaseResult>, n: int) -> Seq<ObjectReportView>
    decreases n,
{
    if n <= 0 {
        Seq::empty()
    } else {
        match results[n - 1] {
            HashPhaseResult::Operation(report) => compared_reports(results, n - 1).push(report@),
            HashPhaseResult::Upload(_) => compared_reports(results, n - 1),
        }
    }
}

/// The writes among the first `n` results of comparisons.
pub open spec fn compared_uploads(results: Seq<HashPhaseResult>, n: int) -> Seq<UploadJobView>
    decreases n,
{
    if n <= 0 {
        Seq::empty()
    } else {
        match results[n - 1] {
            HashPhaseResult::Operation(_) => compared_uploads(results, n - 1),
            HashPhaseResult::Upload(job) => compared_uploads(results, n - 1).push(job@),
        }
    }
}

/// A dry run under way.
pub struct DryRunSync {
    pub collect_operations: bool,
    pub summary: UnzipDryRunSummary,
    pub operations: Vec<DryRunObjectReport>,
    pub hash_jobs: Vec<HashJob>,
    pub upload_jobs: Vec<UploadJob>,
    /// The keys of the entries, where everything else would be deleted.
    pub expected_keys: Option<StringHashSet>,
}

pub(crate) proof fn lemma_record_prefix(
    record: DryRecord,
    first: Seq<DryRunObjectReportView>,
    second: Seq<DryRunObjectReportView>,
    n: int,
    collect: bool,
)
    requires
        n <= first.len(),
        n <= second.len(),
        forall|i: int| 0 <= i < n ==> first[i] == second[i],
    ensures
        dry_record_all(record, first, n, collect) == dry_record_all(record, second, n, collect),
    decreases n,
{
    if n > 0 {
        lemma_record_prefix(record, first, second, n - 1, collect);
    }
}

impl DryRunSync {
    pub open spec fn record(&self) -> DryRecord {
        DryRecord { summary: self.summary, operations: dry_run_views(self.operations@) }
    }

    /// Whether two dry runs differ at most in what they have recorded.
    pub open spec fn same_but_record(&self, other: DryRunSync) -> bool {
        &&& self.collect_operations == other.collect_operations
        &&& self.hash_jobs == other.hash_jobs
        &&& self.upload_jobs == other.upload_jobs
        &&& self.expected_keys == other.expected_keys
    }

    /// Whether every counter has room for `n` more operations.
    pub fn has_room_for(&self, n: usize) -> (room: bool)
        ensures
            room == dry_run_room(self.summary, n as int),
    {
        let summary = &self.summary;
        let limit: usize = usize::MAX - n;
        let room: bool = summary.would_upload_new <= limit && summary.would_upload_changed <= limit
            && summary.skipped_unchanged <= limit && summary.would_delete_extra <= limit
            && summary.errors <= limit;
        proof {
            assert(dry_run_count(*summary, DryRunOperationStatus::WouldUploadNew)
                == summary.would_upload_new);
            assert(dry_run_count(*summary, DryRunOperationStatus::WouldUploadChanged)
                == summary.would_upload_changed);
            assert(dry_run_count(*summary, DryRunOperationStatus::SkippedUnchanged)
                == summary.skipped_unchanged);
            assert(dry_run_count(*summary, DryRunOperationStatus::WouldDeleteExtra)
                == summary.would_delete_extra);
            assert(dry_run_count(*summary, DryRunOperationStatus::Error) == summary.errors);
            if room {
                assert forall|status: DryRunOperationStatus| #[trigger]
                    dry_run_count(*summary, status) + n <= usize::MAX by {}
            }
        }
        room
    }

    /// Records one operation, the next of `all` after those in `start`.
    fn record_next(
        &mut self,
        operation: DryRunObjectReport,
        start: Ghost<DryRecord>,
        all: Ghost<Seq<DryRunObjectReportView>>,
        done: Ghost<int>,
        left: Ghost<int>,
    )
        requires
            0 <= done@ < all@.len(),
            0 < left@,
            all@[done@] == operation@,
            dry_run_room(old(self).summary, left@),
            old(self).record() == dry_record_all(
                start@,
                all@,
                done@,
                old(self).collect_operations,
            ),
        ensures
            final(self).same_but_record(*old(self)),
            dry_run_room(final(self).summary, left@ - 1),
            final(self).record() == dry_record_all(
                start@,
                all@,
                done@ + 1,
                old(self).collect_operations,
            ),
    {
        let ghost before = self.record();
        let ghost summary = self.summary;
        let ghost added = operation@;
        assert(dry_run_count(summary, operation.status) + left@ <= usize::MAX);
        record_dry_run_operation(
            &mut self.summary,
            &mut self.operations,
            self.collect_operations,
            operation,
        );
        proof {
            if self.collect_operations {
                assert(dry_run_views(self.operations@) =~= before.operations.push(added));
            } else {
                assert(dry_run_views(self.operations@) =~= before.operations);
            }
            assert forall|status: DryRunOperationStatus| #[trigger]
                dry_run_count(self.summary, status) + (left@ - 1) <= usize::MAX by {
                assert(dry_run_count(summary, status) + left@ <= usize::MAX);
            }
        }
    }

    /// Starts a dry run: classifies the entries and records those that need no work.
    pub fn start(
        options: &SyncOptions,
        entries: Vec<ManifestEntry>,
        destination: &DestinationListing,
    ) -> (run: DryRunSync)
        ensures
            run.collect_operations == options.collect_operations,
            ({
                let work = classified(
                    manifest_views(entries@),
                    entries@.len() as int,
                    destination@,
                );
                let reports = would_reports(work.reports);
                &&& hash_job_views(run.hash_jobs@) == work.hash_jobs
                &&& upload_job_views(run.upload_jobs@) == work.upload_jobs
                &&& run.record() == dry_record_all(
                    fresh_dry_record(entries@.len() as usize, destination@.len() as usize),
                    reports,
                    reports.len() as int,
                    options.collect_operations,
                )
            }),
            match run.expected_keys {
                Some(keys) => options.cleanup == DestinationCleanup::DeleteExtra && is_key_set(
                    keys@,
                    manifest_views(entries@),
                ),
                None => options.cleanup == DestinationCleanup::KeepExtra,
            },
    {
        let total: usize = entries.len();
        let ghost views = manifest_views(entries@);
        let keys: Option<StringHashSet> = if options.cleanup.deletes_extra() {
            Some(expected_keys(&entries))
        } else {
            None
        };
        let found: usize = destination.len();
        let work = classify_entries(entries, destination);
        let ghost reports = work.reports@;
        let ghost all = would_reports(work@.reports);
        let ghost start = fresh_dry_record(total, found);
        proof {
            crate::classify::law_every_entry_is_classified_once(
                views,
                views.len() as int,
                destination@,
            );
        }
        let mut run = DryRunSync {
            collect_operations: options.collect_operations,
            summary: UnzipDryRunSummary {
                zip_files: total,
                destination_objects: found,
                would_upload_new: 0,
                would_upload_changed: 0,
                skipped_unchanged: 0,
                would_delete_extra: 0,
                errors: 0,
            },
            operations: Vec::new(),
            hash_jobs: work.hash_jobs,
            upload_jobs: work.upload_jobs,
            expected_keys: keys,
        };
        let ghost first = run;
        assert(run.record().operations =~= start.operations);
        assert forall|status: DryRunOperationStatus| #[trigger]
            dry_run_count(run.summary, status) + reports.len() <= usize::MAX by {}
        for report in it: work.reports
            invariant
                it.seq() == reports,
                all == would_reports(report_views(reports)),
                run.same_but_record(first),
                dry_run_room(run.summary, reports.len() - it.index()),
                run.record() == dry_record_all(start, all, it.index() as int, run.collect_operations),
        {
            assert(all[it.index() as int] == would_report(report@));
            let operation = dry_run_report_from_object_report(report);
            run.record_next(
                operation,
                Ghost(start),
                Ghost(all),
                Ghost(it.index() as int),
                Ghost(reports.len() - it.index()),
            );
        }
        run
    }

    /// The comparisons to make.
    pub fn take_hash_jobs(&mut self) -> (jobs: Vec<HashJob>)
        ensures
            jobs@ == old(self).hash_jobs@,
            final(self).hash_jobs@ == Seq::<HashJob>::empty(),
            final(self).collect_operations == old(self).collect_operations,
            final(self).upload_jobs == old(self).upload_jobs,
            final(self).expected_keys == old(self).expected_keys,
            final(self).record() == old(self).record(),
    {
        let mut jobs: Vec<HashJob> = Vec::new();
        std::mem::swap(&mut self.hash_jobs, &mut jobs);
        jobs
    }

    /// Takes in the results of comparisons: reports are recorded, and writes
    /// join those that are to be recorded.
    pub fn record_hash_results(&mut self, results: Vec<HashPhaseResult>)
        requires
            dry_run_room(old(self).summary, results@.len() as int),
        ensures
            ({
                let n = results@.len() as int;
                let reports = would_reports(compared_reports(results@, n));
                &&& final(self).record() == dry_record_all(
                    old(self).record(),
                    reports,
                    reports.len() as int,
                    old(self).collect_operations,
                )
                &&& upload_job_views(final(self).upload_jobs@) == upload_job_views(
                    old(self).upload_jobs@,
                ) + compared_uploads(results@, n)
            }),
            final(self).collect_operations == old(self).collect_operations,
            final(self).hash_jobs == old(self).hash_jobs,
            final(self).expected_keys == old(self).expected_keys,
    {
        let ghost start = self.record();
        let ghost all = results@;
        let ghost jobs = upload_job_views(self.upload_jobs@);
        assert(jobs + compared_uploads(all, 0) =~= jobs);
        for result in it: results
            invariant
                it.seq() == all,
                start == old(self).record(),
                jobs == upload_job_views(old(self).upload_jobs@),
                self.collect_operations == old(self).collect_operations,
                self.hash_jobs == old(self).hash_jobs,
                self.expected_keys == old(self).expected_keys,
                dry_run_room(self.summary, all.len() - it.index()),
                upload_job_views(self.upload_jobs@) == jobs + compared_uploads(
                    all,
                    it.index() as int,
                ),
                ({
                    let reports = would_reports(compared_reports(all, it.index() as int));
                    self.record() == dry_record_all(
                        start,
                        reports,
                        reports.len() as int,
                        self.collect_operations,
                    )
                }),
        {
            let ghost done = it.index() as int;
            let ghost before = would_reports(compared_reports(all, done));
            let ghost now = would_reports(compared_reports(all, done + 1));
            let ghost summary = self.summary;
            assert(result == all[done]);
            match result {
                HashPhaseResult::Operation(report) => {
                    proof {
                        assert(now =~= before.push(would_report(report@)));
                        lemma_record_prefix(
                            start,
                            before,
                            now,
                            before.len() as int,
                            self.collect_operations,
                        );
                    }
                    let operation = dry_run_report_from_object_report(report);
                    self.record_next(
                        operation,
                        Ghost(start),
                        Ghost(now),
                        Ghost(before.len() as int),
                        Ghost(all.len() - done),
                    );
                    assert(compared_uploads(all, done + 1) == compared_uploads(all, done));
                },
                HashPhaseResult::Upload(job) => {
                    let ghost held = upload_job_views(self.upload_jobs@);
                    self.upload_jobs.push(job);
                    proof {
                        assert(upload_job_views(self.upload_jobs@) =~= held.push(job@));
                        assert(held.push(job@) =~= jobs + compared_uploads(all, done + 1));
                        assert(now == before);
                        assert forall|status: DryRunOperationStatus| #[trigger]
                            dry_run_count(self.summary, status) + (all.len() - done - 1)
                                <= usize::MAX by {
                            assert(dry_run_count(summary, status) + (all.len() - done)
                                <= usize::MAX);
                        }
                    }
                },
            }
        }
    }

    /// Records the writes that would be made.
    pub fn record_uploads(&mut self)
        requires
            dry_run_room(old(self).summary, old(self).upload_jobs@.len() as int),
        ensures
            ({
                let uploads = would_uploads(upload_job_views(old(self).upload_jobs@));
                final(self).record() == dry_record_all(
                    old(self).record(),
                    uploads,
                    uploads.len() as int,
                    old(self).collect_operations,
                )
            }),
            final(self).upload_jobs@.len() == 0,
            final(self).collect_operations == old(self).collect_operations,
            final(self).hash_jobs == old(self).hash_jobs,
            final(self).expected_keys == old(self).expected_keys,
    {
        let ghost start = self.record();
        let mut jobs: Vec<UploadJob> = Vec::new();
        std::mem::swap(&mut self.upload_jobs, &mut jobs);
        let ghost held = jobs@;
        let ghost all = would_uploads(upload_job_views(held));
        let ghost first = *self;
        for job in it: jobs
            invariant
                it.seq() == held,
                all == would_uploads(upload_job_views(held)),
                self.same_but_record(first),
                dry_run_room(self.summary, held.len() - it.index()),
                self.record() == dry_record_all(
                    start,
                    all,
                    it.index() as int,
                    self.collect_operations,
                ),
        {
            assert(all[it.index() as int] == would_upload(job@));
            let operation = dry_run_upload_job_report(job);
            self.record_next(
                operation,
                Ghost(start),
                Ghost(all),
                Ghost(it.index() as int),
                Ghost(held.len() - it.index()),
            );
        }
    }

    /// The keys of the objects that would be deleted.
    pub fn extra_keys(&self, destination: &DestinationListing) -> (extra: Vec<String>)
        requires
            destination.wf(),
        ensures
            are_extra(extra@, destination@, opt_keys(self.expected_keys)),
    {
        match &self.expected_keys {
            Some(keys) => destination.extra_keys(keys),
            None => Vec::new(),
        }
    }

    /// Records the deletions that would be made.
    pub fn record_deletions(&mut self, keys: Vec<String>, destination: &DestinationListing)
        requires
            dry_run_room(old(self).summary, keys@.len() as int),
        ensures
            ({
                let deletes = would_deletes(keys@, destination@);
                final(self).record() == dry_record_all(
                    old(self).record(),
                    deletes,
                    deletes.len() as int,
                    old(self).collect_operations,
                )
            }),
            final(self).same_but_record(*old(self)),
    {
        let ghost start = self.record();
        let ghost held = keys@;
        let ghost all = would_deletes(held, destination@);
        for key in it: keys
            invariant
                it.seq() == held,
                all == would_deletes(held, destination@),
                self.same_but_record(*old(self)),
                dry_run_room(self.summary, held.len() - it.index()),
                self.record() == dry_record_all(
                    start,
                    all,
                    it.index() as int,
                    self.collect_operations,
                ),
        {
            assert(all[it.index() as int] == would_delete(key@, listed(destination@, key@)));
            let object = destination.get(&key);
            let operation = dry_run_delete_extra_report(key, object);
            self.record_next(
                operation,
                Ghost(start),
                Ghost(all),
                Ghost(it.index() as int),
                Ghost(held.len() - it.index()),
            );
        }
    }
}

/// The record of a dry run that has done nothing yet.
pub open spec fn fresh_dry_record(zip_files: usize, destination_objects: usize) -> DryRecord {
    DryRecord {
        summary: UnzipDryRunSummary {
            zip_files,
            destination_objects,
            would_upload_new: 0,
            would_upload_changed: 0,
            skipped_unchanged: 0,
            would_delete_extra: 0,
            errors: 0,
        },
        operations: Seq::empty(),
    }
}

/// A dry run of entries that need no comparison reports each of them exactly
/// once: as many operations are recorded as there are entries.
pub proof fn law_dry_run_reports_every_entry(
    entries: Seq<ManifestEntryView>,
    destination: Map<Seq<char>, DestinationView>,
)
    ensures
        ({
            let work = classified(entries, entries.len() as int, destination);
            would_reports(work.reports).len() + work.hash_jobs.len() + would_uploads(
                work.upload_jobs,
            ).len() == entries.len()
        }),
{
    crate::classify::law_every_entry_is_classified_once(
        entries,
        entries.len() as int,
        destination,
    );
}

/// Recorded operations are counted under exactly one status each, and kept in
/// their order where they are collected.
pub proof fn law_dry_run_counts_every_operation(
    record: DryRecord,
    operations: Seq<DryRunObjectReportView>,
    n: int,
    collect: bool,
)
    requires
        0 <= n <= operations.len(),
        dry_run_room(record.summary, n),
    ensures
        dry_run_total(dry_record_all(record, operations, n, collect).summary) == dry_run_total(
            record.summary,
        ) + n,
        dry_record_all(record, operations, n, collect).operations == if collect {
            record.operations + operations.take(n)
        } else {
            record.operations
        },
    decreases n,
{
    if n > 0 {
        assert forall|status: DryRunOperationStatus| #[trigger]
            dry_run_count(record.summary, status) + (n - 1) <= usize::MAX by {
            assert(dry_run_count(record.summary, status) + n <= usize::MAX);
        }
        law_dry_run_counts_every_operation(record, operations, n - 1, collect);
        lemma_dry_counts_grow(record, operations, n - 1, collect, operations[n - 1].status);
        assert(dry_run_count(record.summary, operations[n - 1].status) + n <= usize::MAX);
        assert(record.operations + operations.take(n) =~= (record.operations + operations.take(
            n - 1,
        )).push(operations[n - 1]));
    } else {
        assert(record.operations + operations.take(0) =~= record.operations);
    }
}

/// The number of operations counted so far.
pub open spec fn dry_run_total(summary: UnzipDryRunSummary) -> int {
    summary.would_upload_new + summary.would_upload_changed + summary.skipped_unchanged
        + summary.would_delete_extra + summary.errors
}

proof fn lemma_dry_counts_grow(
    record: DryRecord,
    operations: Seq<DryRunObjectReportView>,
    n: int,
    collect: bool,
    status: DryRunOperationStatus,
)
    requires
        0 <= n <= operations.len(),
        dry_run_room(record.summary, n),
    ensures
        dry_run_count(dry_record_all(record, operations, n, collect).summary, status)
            <= dry_run_count(record.summary, status) + n,
    decreases n,
{
    if n > 0 {
        assert forall|other: DryRunOperationStatus| #[trigger]
            dry_run_count(record.summary, other) + (n - 1) <= usize::MAX by {
            assert(dry_run_count(record.summary, other) + n <= usize::MAX);
        }
        lemma_dry_counts_grow(record, operations, n - 1, collect, status);
        lemma_dry_counts_grow(record, operations, n - 1, collect, operations[n - 1].status);
        assert(dry_run_count(record.summary, operations[n - 1].status) + n <= usize::MAX);
    }
}

} // verus!

//! The course of an extraction into an S3 prefix.
//!
//! A run classifies its entries, compares what has to be compared, writes what
//! has to be written and deletes what is extra. The work itself is done by the
//! caller, which hands the results back.
use vstd::hash_set::StringHashSet;
use vstd::multiset::Multiset;
use vstd::prelude::*;
use vstd::string::*;

use crate::classify::{
    classified, classify_entries, entry_plan, hash_job_views, hash_plan, hash_plans,
    hash_result_view, listed, report_views, result_plans, upload_job_views, upload_report,
    upload_reports, EntryPlan, HashJob, HashJobView, HashPhaseResult, UploadJob, UploadJobView,
};
use crate::destination::{are_extra, opt_keys, DestinationListing, DestinationView};
use crate::diagnostics::{progressed, ExtractProgress};
use crate::digest::ExtractDigestView;
use crate::error::{Error, ErrorView};
use crate::options::{ConflictPolicy, DestinationCleanup, SyncOptions};
use crate::put::PutResultView;
use crate::report::{
    counted, counted_all, empty_summary, has_room, law_summary_counts_every_operation,
    status_count, summarize_operation, ObjectReport, ObjectReportView, OperationStatus,
    SyncSummary,
};
use crate::s3_uri::S3Prefix;
use crate::zip_manifest::{manifest_views, ManifestEntry, ManifestEntryView};

verus! {

/// The error of a conflict, where conflicts end the run.
pub open spec fn conflict_error(
    bucket: Seq<char>,
    operation: ObjectReportView,
    fail_fast: bool,
) -> Option<ErrorView> {
    if !fail_fast || operation.status != OperationStatus::ConditionalConflict {
        None
    } else {
        Some(
            ErrorView::ConditionalConflict {
                bucket,
                key: operation.key,
                message: match operation.message {
                    Some(message) => message,
                    None => "destination object changed after listing"@,
                },
            },
        )
    }
}

/// The error of a conflict, where conflicts end the run.
pub fn conditional_conflict_error(
    destination: &S3Prefix,
    operation: &ObjectReport,
    fail_fast: bool,
) -> (error: Option<Error>)
    ensures
        match conflict_error(destination.bucket@, operation@, fail_fast) {
            Some(view) => error is Some && error->Some_0@ == view,
            None => error is None,
        },
{
    if !fail_fast || operation.status != OperationStatus::ConditionalConflict {
        return None;
    }
    let message = match &operation.message {
        Some(message) => message.clone(),
        None => "destination object changed after listing".to_owned(),
    };
    Some(
        Error::ConditionalConflict {
            bucket: destination.bucket.clone(),
            key: operation.key.clone(),
            message,
        },
    )
}

/// Whether a report is logged: the first ones are, and then every hundredth.
pub fn should_log_issue(count: usize) -> (log: bool)
    ensures
        log == (count <= 20 || count % 100 == 0),
{
    count <= 20 || count % 100 == 0
}

/// An extraction under way.
pub struct SyncRun {
    pub destination: S3Prefix,
    pub fail_fast: bool,
    pub collect_operations: bool,
    pub summary: SyncSummary,
    pub operations: Vec<ObjectReport>,
    pub progress: ExtractProgress,
    /// The conflict that ends the run.
    pub fail_fast_error: Option<Error>,
    pub hash_jobs: Vec<HashJob>,
    pub upload_jobs: Vec<UploadJob>,
    /// The keys of the entries, where everything else is deleted.
    pub expected_keys: Option<StringHashSet>,
}

pub open spec fn opt_error(error: Option<Error>) -> Option<ErrorView> {
    match error {
        Some(error) => Some(error@),
        None => None,
    }
}

/// What a run has recorded.
pub struct RecordView {
    pub summary: SyncSummary,
    pub operations: Seq<ObjectReport>,
    pub progress: ExtractProgress,
    pub error: Option<ErrorView>,
}

/// How a run records operations.
pub struct RecordRules {
    pub bucket: Seq<char>,
    pub fail_fast: bool,
    pub collect: bool,
    /// Whether operations count as progress when they are recorded.
    pub update_progress: bool,
}

/// The record with one more operation.
pub open spec fn record_one(
    record: RecordView,
    operation: ObjectReport,
    rules: RecordRules,
) -> RecordView {
    RecordView {
        summary: counted(record.summary, operation.status),
        operations: if rules.collect {
            record.operations.push(operation)
        } else {
            record.operations
        },
        progress: if rules.update_progress {
            progressed(record.progress, operation.status)
        } else {
            record.progress
        },
        error: match conflict_error(rules.bucket, operation@, rules.fail_fast) {
            Some(error) => Some(error),
            None => record.error,
        },
    }
}

/// The record with the first `n` operations; nothing is recorded after an error.
pub open spec fn record_all(
    record: RecordView,
    operations: Seq<ObjectReport>,
    n: int,
    rules: RecordRules,
) -> RecordView
    decreases n,
{
    if n <= 0 {
        record
    } else {
        let before = record_all(record, operations, n - 1, rules);
        if before.error is Some {
            before
        } else {
            record_one(before, operations[n - 1], rules)
        }
    }
}

/// A run while the results of comparisons come in.
pub struct HashFold {
    pub record: RecordView,
    pub uploads: Seq<UploadJob>,
}

/// The run after the first `n` results of comparisons. Reports are recorded and
/// writes are added; nothing is taken in after an error.
pub open spec fn hash_all(
    fold: HashFold,
    results: Seq<HashPhaseResult>,
    n: int,
    rules: RecordRules,
) -> HashFold
    decreases n,
{
    if n <= 0 {
        fold
    } else {
        let before = hash_all(fold, results, n - 1, rules);
        if before.record.error is Some {
            before
        } else {
            match results[n - 1] {
                HashPhaseResult::Operation(report) => HashFold {
                    record: record_one(before.record, report, rules),
                    ..before
                },
                HashPhaseResult::Upload(job) => HashFold {
                    uploads: before.uploads.push(job),
                    ..before
                },
            }
        }
    }
}

/// Whether a set holds exactly the keys of the entries.
pub open spec fn is_key_set(keys: Set<Seq<char>>, entries: Seq<ManifestEntryView>) -> bool {
    forall|key: Seq<char>| #[trigger]
        keys.contains(key) <==> exists|i: int|
            0 <= i < entries.len() && (#[trigger] entries[i]).key == key
}

impl SyncRun {
    pub open spec fn record(&self) -> RecordView {
        RecordView {
            summary: self.summary,
            operations: self.operations@,
            progress: self.progress,
            error: opt_error(self.fail_fast_error),
        }
    }

    pub open spec fn rules(&self, update_progress: bool) -> RecordRules {
        RecordRules {
            bucket: self.destination.bucket@,
            fail_fast: self.fail_fast,
            collect: self.collect_operations,
            update_progress,
        }
    }

    /// Whether two runs differ at most in what they have recorded.
    pub open spec fn same_but_record(&self, other: SyncRun) -> bool {
        &&& self.destination == other.destination
        &&& self.fail_fast == other.fail_fast
        &&& self.collect_operations == other.collect_operations
        &&& self.hash_jobs == other.hash_jobs
        &&& self.upload_jobs == other.upload_jobs
        &&& self.expected_keys == other.expected_keys
    }

    /// Whether every counter has room for `n` more operations.
    pub fn has_room_for(&self, n: usize) -> (room: bool)
        ensures
            room == has_room(self.summary, n as int),
    {
        let summary = &self.summary;
        let limit: usize = usize::MAX - n;
        let room: bool = summary.uploaded_new <= limit && summary.uploaded_changed <= limit
            && summary.skipped_unchanged <= limit && summary.conditional_conflicts <= limit
            && summary.deleted_extra <= limit && summary.errors <= limit;
        proof {
            assert(status_count(*summary, OperationStatus::UploadedNew) == summary.uploaded_new);
            assert(status_count(*summary, OperationStatus::UploadedChanged)
                == summary.uploaded_changed);
            assert(status_count(*summary, OperationStatus::SkippedUnchanged)
                == summary.skipped_unchanged);
            assert(status_count(*summary, OperationStatus::ConditionalConflict)
                == summary.conditional_conflicts);
            assert(status_count(*summary, OperationStatus::DeletedExtra) == summary.deleted_extra);
            assert(status_count(*summary, OperationStatus::Error) == summary.errors);
            if room {
                assert forall|status: OperationStatus| #[trigger]
                    status_count(*summary, status) + n <= usize::MAX by {}
            }
        }
        room
    }

    /// Records an operation.
    fn record_operation(&mut self, operation: ObjectReport, update_progress: bool)
        requires
            status_count(old(self).summary, operation.status) < usize::MAX,
        ensures
            final(self).record() == record_one(
                old(self).record(),
                operation,
                old(self).rules(update_progress),
            ),
            final(self).same_but_record(*old(self)),
    {
        let ghost before = self.record();
        summarize_operation(&mut self.summary, &operation);
        if update_progress {
            self.progress.record_operation(&operation);
        }
        if let Some(error) = conditional_conflict_error(
            &self.destination,
            &operation,
            self.fail_fast,
        ) {
            self.fail_fast_error = Some(error);
        }
        if self.collect_operations {
            self.operations.push(operation);
        }
        assert(self.record().operations =~= record_one(
            before,
            operation,
            old(self).rules(update_progress),
        ).operations);
    }

    /// Records operations up to the first conflict that ends the run.
    fn record_operations(&mut self, operations: Vec<ObjectReport>, update_progress: bool)
        requires
            has_room(old(self).summary, operations@.len() as int),
            old(self).fail_fast_error is None,
        ensures
            final(self).record() == record_all(
                old(self).record(),
                operations@,
                operations@.len() as int,
                old(self).rules(update_progress),
            ),
            final(self).same_but_record(*old(self)),
    {
        let ghost start = self.record();
        let ghost all = operations@;
        let ghost rules = self.rules(update_progress);
        for operation in it: operations
            invariant
                it.seq() == all,
                all == operations@,
                start == old(self).record(),
                rules == old(self).rules(update_progress),
                self.same_but_record(*old(self)),
                self.fail_fast_error is None,
                self.record() == record_all(start, all, it.index(), rules),
                has_room(self.summary, all.len() - it.index()),
        {
            let ghost done = it.index();
            let ghost before = self.record();
            assert(operation == all[done]);
            assert(status_count(self.summary, operation.status) + (all.len() - done)
                <= usize::MAX);
            self.record_operation(operation, update_progress);
            proof {
                assert(record_all(start, all, done + 1, rules) == record_one(
                    before,
                    all[done],
                    rules,
                ));
                assert forall|status: OperationStatus| #[trigger]
                    status_count(self.summary, status) + (all.len() - done - 1) <= usize::MAX by {
                    assert(status_count(before.summary, status) + (all.len() - done) <= usize::MAX);
                }
            }
            if self.fail_fast_error.is_some() {
                proof {
                    lemma_record_stops(start, all, done + 1, all.len() as int, rules);
                }
                return;
            }
        }
    }
}

proof fn lemma_record_stops(
    record: RecordView,
    operations: Seq<ObjectReport>,
    k: int,
    n: int,
    rules: RecordRules,
)
    requires
        0 <= k <= n,
        record_all(record, operations, k, rules).error is Some,
    ensures
        record_all(record, operations, n, rules) == record_all(record, operations, k, rules),
    decreases n,
{
    if k < n {
        lemma_record_stops(record, operations, k, n - 1, rules);
    }
}

proof fn lemma_hash_stops(
    fold: HashFold,
    results: Seq<HashPhaseResult>,
    k: int,
    n: int,
    rules: RecordRules,
)
    requires
        0 <= k <= n,
        hash_all(fold, results, k, rules).record.error is Some,
    ensures
        hash_all(fold, results, n, rules) == hash_all(fold, results, k, rules),
    decreases n,
{
    if k < n {
        lemma_hash_stops(fold, results, k, n - 1, rules);
    }
}

pub(crate) fn expected_keys(entries: &Vec<ManifestEntry>) -> (keys: StringHashSet)
    ensures
        is_key_set(keys@, manifest_views(entries@)),
{
    let ghost views = manifest_views(entries@);
    let mut keys: StringHashSet = StringHashSet::new();
    let mut i: usize = 0;
    assert(is_key_set(keys@, views.take(0)));
    while i < entries.len()
        invariant
            i <= entries.len(),
            views == manifest_views(entries@),
            is_key_set(keys@, views.take(i as int)),
        decreases entries.len() - i,
    {
        let ghost before = keys@;
        let ghost seen = views.take(i as int);
        let ghost now = views.take(i + 1);
        assert(views[i as int] == entries@[i as int]@);
        keys.insert(entries[i].key.clone());
        assert forall|key: Seq<char>| #[trigger] keys@.contains(key) <==> exists|k: int|
            0 <= k < now.len() && (#[trigger] now[k]).key == key by {
            assert(before.contains(key) <==> exists|k: int|
                0 <= k < seen.len() && (#[trigger] seen[k]).key == key);
            if before.contains(key) {
                let k = choose|k: int| 0 <= k < seen.len() && (#[trigger] seen[k]).key == key;
                assert(now[k].key == key);
            }
            if key == views[i as int].key {
                assert(now[i as int].key == key);
            }
            if exists|k: int| 0 <= k < now.len() && (#[trigger] now[k]).key == key {
                let k = choose|k: int| 0 <= k < now.len() && (#[trigger] now[k]).key == key;
                if k < i {
                    assert(seen[k].key == key);
                }
            }
        }
        i += 1;
    }
    assert(views.take(i as int) =~= views);
    keys
}

impl SyncRun {
    /// Starts a run: classifies the entries and records those that need no work.
    pub fn start(
        options: &SyncOptions,
        entries: Vec<ManifestEntry>,
        destination: &DestinationListing,
    ) -> (run: SyncRun)
        ensures
            run.destination.bucket@ == options.destination.bucket@,
            run.destination.prefix@ == options.destination.prefix@,
            run.fail_fast == (options.conflict_policy == ConflictPolicy::FailFast),
            run.collect_operations == options.collect_operations,
            run.fail_fast_error is None,
            ({
                let work = classified(
                    manifest_views(entries@),
                    entries@.len() as int,
                    destination@,
                );
                &&& hash_job_views(run.hash_jobs@) == work.hash_jobs
                &&& upload_job_views(run.upload_jobs@) == work.upload_jobs
                &&& exists|reports: Seq<ObjectReport>|
                    {
                        &&& #[trigger] report_views(reports) == work.reports
                        &&& run.record() == record_all(
                            fresh_record(entries@.len() as usize, destination@.len() as usize),
                            reports,
                            reports.len() as int,
                            run.rules(true),
                        )
                    }
            }),
            match run.expected_keys {
                Some(keys) => options.cleanup == DestinationCleanup::DeleteExtra && is_key_set(
                    keys@,
                    manifest_views(entries@),
                ),
                None => options.cleanup == DestinationCleanup::KeepExtra,
            },
    {
        let total: usize = entries.len();
        let ghost views = manifest_views(entries@);
        let keys: Option<StringHashSet> = if options.cleanup.deletes_extra() {
            Some(expected_keys(&entries))
        } else {
            None
        };
        let listed: usize = destination.len();
        let work = classify_entries(entries, destination);
        let ghost reports = work.reports@;
        proof {
            crate::classify::law_every_entry_is_classified_once(
                views,
                views.len() as int,
                destination@,
            );
            assert(work@.reports.len() == reports.len());
        }
        let mut run = SyncRun {
            destination: options.destination.clone(),
            fail_fast: options.conflict_policy.fails_fast(),
            collect_operations: options.collect_operations,
            summary: SyncSummary {
                zip_files: total,
                destination_objects: listed,
                uploaded_new: 0,
                uploaded_changed: 0,
                skipped_unchanged: 0,
                conditional_conflicts: 0,
                deleted_extra: 0,
                errors: 0,
            },
            operations: Vec::new(),
            progress: ExtractProgress::new(total),
            fail_fast_error: None,
            hash_jobs: work.hash_jobs,
            upload_jobs: work.upload_jobs,
            expected_keys: keys,
        };
        proof {
            assert(run.record().operations =~= fresh_record(total, listed).operations);
            assert forall|status: OperationStatus| #[trigger]
                status_count(run.summary, status) + reports.len() <= usize::MAX by {}
            lemma_no_conflicts_classified(views, views.len() as int, destination@);
            assert forall|i: int| 0 <= i < reports.len() implies (#[trigger] reports[i])@.status
                != OperationStatus::ConditionalConflict by {
                assert(work@.reports[i] == reports[i]@);
            }
            lemma_no_conflict_no_error(
                fresh_record(total, listed),
                reports,
                reports.len() as int,
                run.rules(true),
            );
        }
        run.record_operations(work.reports, true);
        proof {
            assert(report_views(reports) == work@.reports);
        }
        run
    }

    /// The comparisons to make, if the run goes on and there are any.
    pub fn take_hash_jobs(&mut self) -> (jobs: Vec<HashJob>)
        ensures
            jobs@ == if old(self).fail_fast_error is None {
                old(self).hash_jobs@
            } else {
                Seq::empty()
            },
            final(self).hash_jobs@ == if old(self).fail_fast_error is None {
                Seq::empty()
            } else {
                old(self).hash_jobs@
            },
            final(self).record() == old(self).record(),
            final(self).destination == old(self).destination,
            final(self).fail_fast == old(self).fail_fast,
            final(self).collect_operations == old(self).collect_operations,
            final(self).upload_jobs == old(self).upload_jobs,
            final(self).expected_keys == old(self).expected_keys,
    {
        let mut jobs: Vec<HashJob> = Vec::new();
        if self.fail_fast_error.is_none() {
            std::mem::swap(&mut self.hash_jobs, &mut jobs);
        }
        jobs
    }

    /// Takes in the results of comparisons.
    pub fn record_hash_results(&mut self, results: Vec<HashPhaseResult>)
        requires
            has_room(old(self).summary, results@.len() as int),
            old(self).fail_fast_error is None,
        ensures
            ({
                let fold = hash_all(
                    HashFold { record: old(self).record(), uploads: old(self).upload_jobs@ },
                    results@,
                    results@.len() as int,
                    old(self).rules(true),
                );
                final(self).record() == fold.record && final(self).upload_jobs@ == fold.uploads
            }),
            final(self).destination == old(self).destination,
            final(self).fail_fast == old(self).fail_fast,
            final(self).collect_operations == old(self).collect_operations,
            final(self).hash_jobs == old(self).hash_jobs,
            final(self).expected_keys == old(self).expected_keys,
    {
        let ghost start = HashFold { record: self.record(), uploads: self.upload_jobs@ };
        let ghost all = results@;
        let ghost rules = self.rules(true);
        for result in it: results
            invariant
                it.seq() == all,
                all == results@,
                start == (HashFold {
                    record: old(self).record(),
                    uploads: old(self).upload_jobs@,
                }),
                rules == old(self).rules(true),
                rules == self.rules(true),
                self.destination == old(self).destination,
                self.fail_fast == old(self).fail_fast,
                self.collect_operations == old(self).collect_operations,
                self.hash_jobs == old(self).hash_jobs,
                self.expected_keys == old(self).expected_keys,
                self.fail_fast_error is None,
                hash_all(start, all, it.index(), rules) == (HashFold {
                    record: self.record(),
                    uploads: self.upload_jobs@,
                }),
                has_room(self.summary, all.len() - it.index()),
        {
            let ghost done = it.index();
            let ghost before = self.summary;
            assert(result == all[done]);
            match result {
                HashPhaseResult::Operation(operation) => {
                    assert(status_count(self.summary, operation.status) + (all.len() - done)
                        <= usize::MAX);
                    self.record_operation(operation, true);
                },
                HashPhaseResult::Upload(job) => self.upload_jobs.push(job),
            }
            proof {
                assert(hash_all(start, all, done + 1, rules) == (HashFold {
                    record: self.record(),
                    uploads: self.upload_jobs@,
                }));
                assert forall|status: OperationStatus| #[trigger]
                    status_count(self.summary, status) + (all.len() - done - 1) <= usize::MAX by {
                    assert(status_count(before, status) + (all.len() - done) <= usize::MAX);
                }
            }
            if self.fail_fast_error.is_some() {
                proof {
                    lemma_hash_stops(start, all, done + 1, all.len() as int, rules);
                }
                return;
            }
        }
    }

    /// The writes to make, if the run goes on and there are any.
    pub fn take_upload_jobs(&mut self) -> (jobs: Vec<UploadJob>)
        ensures
            jobs@ == if old(self).fail_fast_error is None {
                old(self).upload_jobs@
            } else {
                Seq::empty()
            },
            final(self).upload_jobs@ == if old(self).fail_fast_error is None {
                Seq::empty()
            } else {
                old(self).upload_jobs@
            },
            final(self).record() == old(self).record(),
            final(self).destination == old(self).destination,
            final(self).fail_fast == old(self).fail_fast,
            final(self).collect_operations == old(self).collect_operations,
            final(self).hash_jobs == old(self).hash_jobs,
            final(self).expected_keys == old(self).expected_keys,
    {
        let mut jobs: Vec<UploadJob> = Vec::new();
        if self.fail_fast_error.is_none() {
            std::mem::swap(&mut self.upload_jobs, &mut jobs);
        }
        jobs
    }

    /// Counts a write that has come to its end. Returns whether no further
    /// write is waited for.
    pub fn note_upload(&mut self, report: &ObjectReport) -> (stop: bool)
        ensures
            stop == (old(self).fail_fast && report.status == OperationStatus::ConditionalConflict),
            final(self).progress == progressed(old(self).progress, report.status),
            final(self).record() == (RecordView {
                progress: final(self).progress,
                ..old(self).record()
            }),
            final(self).same_but_record(*old(self)),
    {
        self.progress.record_operation(report);
        self.fail_fast && report.status == OperationStatus::ConditionalConflict
    }

    /// Takes in the reports of writes.
    pub fn record_upload_results(&mut self, reports: Vec<ObjectReport>)
        requires
            has_room(old(self).summary, reports@.len() as int),
            old(self).fail_fast_error is None,
        ensures
            final(self).record() == record_all(
                old(self).record(),
                reports@,
                reports@.len() as int,
                old(self).rules(false),
            ),
            final(self).same_but_record(*old(self)),
    {
        self.record_operations(reports, false);
    }

    /// The extra keys to delete once everything is written. A conflict that
    /// ends the run comes first.
    pub fn take_deletions(&mut self, destination: &DestinationListing) -> (extra:
        core::result::Result<Vec<String>, Error>)
        requires
            destination.wf(),
        ensures
            match opt_error(old(self).fail_fast_error) {
                Some(error) => extra is Err && extra->Err_0@ == error,
                None => {
                    &&& extra is Ok
                    &&& are_extra(
                        extra->Ok_0@,
                        destination@,
                        opt_keys(old(self).expected_keys),
                    )
                },
            },
            final(self).record() == (RecordView { error: None, ..old(self).record() }),
            final(self).same_but_record(*old(self)),
    {
        if let Some(error) = self.fail_fast_error.take() {
            return Err(error);
        }
        match &self.expected_keys {
            Some(keys) => Ok(destination.extra_keys(keys)),
            None => Ok(Vec::new()),
        }
    }

    /// Takes in the reports of deletions.
    pub fn record_deletions(&mut self, reports: Vec<ObjectReport>)
        requires
            has_room(old(self).summary, reports@.len() as int),
        ensures
            final(self).record() == (RecordView {
                summary: counted_all(
                    old(self).summary,
                    reports@,
                    reports@.len() as int,
                ),
                operations: if old(self).collect_operations {
                    old(self).operations@ + reports@
                } else {
                    old(self).operations@
                },
                ..old(self).record()
            }),
            final(self).same_but_record(*old(self)),
    {
        let ghost all = reports@;
        let ghost start = self.summary;
        let ghost kept = self.operations@;
        assert(kept + all.take(0) =~= kept);
        for report in it: reports
            invariant
                it.seq() == all,
                all == reports@,
                start == old(self).summary,
                kept == old(self).operations@,
                self.same_but_record(*old(self)),
                self.progress == old(self).progress,
                self.fail_fast_error == old(self).fail_fast_error,
                self.summary == counted_all(start, all, it.index()),
                has_room(self.summary, all.len() - it.index()),
                self.operations@ == if self.collect_operations {
                    kept + all.take(it.index())
                } else {
                    kept
                },
        {
            let ghost done = it.index();
            let ghost before = self.summary;
            assert(report == all[done]);
            assert(status_count(before, report.status) + (all.len() - done) <= usize::MAX);
            summarize_operation(&mut self.summary, &report);
            proof {
                assert forall|status: OperationStatus| #[trigger]
                    status_count(self.summary, status) + (all.len() - done - 1) <= usize::MAX by {
                    assert(status_count(before, status) + (all.len() - done) <= usize::MAX);
                }
            }
            if self.collect_operations {
                self.operations.push(report);
                assert(self.operations@ =~= kept + all.take(done + 1));
            }
        }
        assert(all.take(all.len() as int) =~= all);
    }
}

/// The record of a run that has done nothing yet.
pub open spec fn fresh_record(zip_files: usize, destination_objects: usize) -> RecordView {
    RecordView {
        summary: SyncSummary { zip_files, destination_objects, ..empty_summary() },
        operations: Seq::empty(),
        progress: ExtractProgress {
            total_entries: zip_files,
            processed_entries: 0,
            uploaded_new: 0,
            uploaded_changed: 0,
            skipped_unchanged: 0,
            conditional_conflicts: 0,
            errors: 0,
        },
        error: None,
    }
}

pub(crate) proof fn lemma_no_conflicts_classified(
    entries: Seq<ManifestEntryView>,
    n: int,
    destination: Map<Seq<char>, DestinationView>,
)
    ensures
        forall|i: int|
            0 <= i < classified(entries, n, destination).reports.len() ==> {
                let report = #[trigger] classified(entries, n, destination).reports[i];
                &&& report.status != OperationStatus::ConditionalConflict
                &&& report.status != OperationStatus::DeletedExtra
            },
    decreases n,
{
    if n > 0 {
        lemma_no_conflicts_classified(entries, n - 1, destination);
        let before = classified(entries, n - 1, destination).reports;
        let now = classified(entries, n, destination).reports;
        assert forall|i: int| 0 <= i < now.len() implies (#[trigger] now[i]).status
            != OperationStatus::ConditionalConflict && now[i].status
            != OperationStatus::DeletedExtra by {
            if i < before.len() {
                assert(now[i] == before[i]);
            }
        }
    }
}

proof fn lemma_no_conflict_no_error(
    record: RecordView,
    operations: Seq<ObjectReport>,
    n: int,
    rules: RecordRules,
)
    requires
        record.error is None,
        n <= operations.len(),
        forall|i: int|
            0 <= i < operations.len() ==> (#[trigger] operations[i])@.status
                != OperationStatus::ConditionalConflict,
    ensures
        record_all(record, operations, n, rules).error is None,
    decreases n,
{
    if n > 0 {
        lemma_no_conflict_no_error(record, operations, n - 1, rules);
        assert(operations[n - 1]@.status != OperationStatus::ConditionalConflict);
    }
}

/// Where conflicts are only reported, no operation ends the run, and all of
/// them are counted.
pub proof fn law_reported_conflicts_do_not_stop(
    record: RecordView,
    operations: Seq<ObjectReport>,
    n: int,
    rules: RecordRules,
)
    requires
        record.error is None,
        !rules.fail_fast,
        0 <= n <= operations.len(),
    ensures
        record_all(record, operations, n, rules).error is None,
        record_all(record, operations, n, rules).summary == counted_all(
            record.summary,
            operations,
            n,
        ),
        record_all(record, operations, n, rules).operations == if rules.collect {
            record.operations + operations.take(n)
        } else {
            record.operations
        },
    decreases n,
{
    if n > 0 {
        law_reported_conflicts_do_not_stop(record, operations, n - 1, rules);
        assert(record.operations + operations.take(n) =~= (record.operations + operations.take(
            n - 1,
        )).push(operations[n - 1]));
    } else {
        assert(record.operations + operations.take(0) =~= record.operations);
    }
}

/// Where conflicts end the run, the first one does: what follows it is not recorded.
pub proof fn law_first_conflict_ends_the_run(
    record: RecordView,
    operations: Seq<ObjectReport>,
    k: int,
    n: int,
    rules: RecordRules,
)
    requires
        record.error is None,
        rules.fail_fast,
        0 <= k < n <= operations.len(),
        operations[k]@.status == OperationStatus::ConditionalConflict,
        forall|i: int|
            0 <= i < k ==> (#[trigger] operations[i])@.status
                != OperationStatus::ConditionalConflict,
    ensures
        record_all(record, operations, n, rules).error == conflict_error(
            rules.bucket,
            operations[k]@,
            true,
        ),
        record_all(record, operations, n, rules).summary == counted_all(
            record.summary,
            operations,
            k + 1,
        ),
    decreases n,
{
    lemma_before_conflict(record, operations, k, rules);
    lemma_record_stops(record, operations, k + 1, n, rules);
}

proof fn lemma_before_conflict(
    record: RecordView,
    operations: Seq<ObjectReport>,
    n: int,
    rules: RecordRules,
)
    requires
        record.error is None,
        0 <= n <= operations.len(),
        forall|i: int|
            0 <= i < n ==> (#[trigger] operations[i])@.status
                != OperationStatus::ConditionalConflict,
    ensures
        record_all(record, operations, n, rules).error is None,
        record_all(record, operations, n, rules).summary == counted_all(
            record.summary,
            operations,
            n,
        ),
    decreases n,
{
    if n > 0 {
        lemma_before_conflict(record, operations, n - 1, rules);
        assert(operations[n - 1]@.status != OperationStatus::ConditionalConflict);
    }
}

/// The operations among the first `n` results of comparisons.
pub open spec fn compared_operations(results: Seq<HashPhaseResult>, n: int) -> Seq<ObjectReport>
    decreases n,
{
    if n <= 0 {
        Seq::empty()
    } else {
        match results[n - 1] {
            HashPhaseResult::Operation(report) => compared_operations(results, n - 1).push(report),
            HashPhaseResult::Upload(_) => compared_operations(results, n - 1),
        }
    }
}

/// The course of an extraction up to the deletions.
pub struct SyncCourse {
    pub rules: RecordRules,
    /// The reports of the entries that need no work.
    pub reports: Seq<ObjectReport>,
    /// The writes that need no comparison.
    pub jobs: Seq<UploadJob>,
    /// The results of the comparisons as they came in.
    pub compared: Seq<HashPhaseResult>,
    /// The progress when all writes had come to their end.
    pub progress: ExtractProgress,
    /// The reports of the writes as they came in.
    pub written: Seq<ObjectReport>,
}

impl SyncCourse {
    /// What is recorded when the entries are classified, by `SyncRun::start`.
    pub open spec fn started(
        self,
        entries: Seq<ManifestEntryView>,
        destination: Map<Seq<char>, DestinationView>,
    ) -> RecordView {
        record_all(
            fresh_record(entries.len() as usize, destination.len() as usize),
            self.reports,
            self.reports.len() as int,
            RecordRules { update_progress: true, ..self.rules },
        )
    }

    /// What is recorded, and what is to be written, after the comparisons, by
    /// `SyncRun::record_hash_results`.
    pub open spec fn after_comparisons(
        self,
        entries: Seq<ManifestEntryView>,
        destination: Map<Seq<char>, DestinationView>,
    ) -> HashFold {
        hash_all(
            HashFold { record: self.started(entries, destination), uploads: self.jobs },
            self.compared,
            self.compared.len() as int,
            RecordRules { update_progress: true, ..self.rules },
        )
    }

    /// What is recorded after the writes, by `SyncRun::record_upload_results`.
    pub open spec fn after_writes(
        self,
        entries: Seq<ManifestEntryView>,
        destination: Map<Seq<char>, DestinationView>,
    ) -> RecordView {
        record_all(
            RecordView {
                progress: self.progress,
                ..self.after_comparisons(entries, destination).record
            },
            self.written,
            self.written.len() as int,
            RecordRules { update_progress: false, ..self.rules },
        )
    }

    /// Whether the course is that of some entries: what the digests of the
    /// compared entries and the writes come to, in whatever order.
    pub open spec fn is_of(
        self,
        entries: Seq<ManifestEntryView>,
        destination: Map<Seq<char>, DestinationView>,
        digests: Seq<core::result::Result<ExtractDigestView, ErrorView>>,
        results: Seq<PutResultView>,
    ) -> bool {
        let work = classified(entries, entries.len() as int, destination);
        let jobs = upload_job_views(self.after_comparisons(entries, destination).uploads);
        &&& report_views(self.reports) == work.reports
        &&& upload_job_views(self.jobs) == work.upload_jobs
        &&& result_plans(self.compared).to_multiset() == hash_plans(
            work.hash_jobs,
            digests,
        ).to_multiset()
        &&& report_views(self.written).to_multiset() == upload_reports(
            jobs,
            results,
        ).to_multiset()
    }

    /// The operations of the course.
    spec fn operations(self) -> Seq<ObjectReport> {
        self.reports + compared_operations(self.compared, self.compared.len() as int)
            + self.written
    }
}

/// The keys of the operations.
pub open spec fn operation_keys(operations: Seq<ObjectReport>) -> Seq<Seq<char>> {
    operations.map_values(|operation: ObjectReport| operation.key@)
}

/// The keys of the entries.
pub open spec fn entry_keys(entries: Seq<ManifestEntryView>) -> Seq<Seq<char>> {
    entries.map_values(|entry: ManifestEntryView| entry.key)
}

spec fn report_keys(reports: Seq<ObjectReportView>) -> Seq<Seq<char>> {
    reports.map_values(|report: ObjectReportView| report.key)
}

spec fn hash_job_keys(jobs: Seq<HashJobView>) -> Seq<Seq<char>> {
    jobs.map_values(|job: HashJobView| job.entry.key)
}

spec fn upload_job_keys(jobs: Seq<UploadJobView>) -> Seq<Seq<char>> {
    jobs.map_values(|job: UploadJobView| job.entry.key)
}

spec fn plan_key(plan: EntryPlan) -> Seq<char> {
    match plan {
        EntryPlan::Report(report) => report.key,
        EntryPlan::Hash(job) => job.entry.key,
        EntryPlan::Upload(job) => job.entry.key,
    }
}

spec fn plan_keys(plans: Seq<EntryPlan>) -> Seq<Seq<char>> {
    plans.map_values(|plan: EntryPlan| plan_key(plan))
}

/// The writes among the first `n` results of comparisons.
spec fn compared_jobs(results: Seq<HashPhaseResult>, n: int) -> Seq<UploadJob>
    decreases n,
{
    if n <= 0 {
        Seq::empty()
    } else {
        match results[n - 1] {
            HashPhaseResult::Operation(_) => compared_jobs(results, n - 1),
            HashPhaseResult::Upload(job) => compared_jobs(results, n - 1).push(job),
        }
    }
}

proof fn lemma_count_prefix(
    summary: SyncSummary,
    first: Seq<ObjectReport>,
    second: Seq<ObjectReport>,
    n: int,
)
    requires
        n <= first.len(),
        n <= second.len(),
        forall|i: int| 0 <= i < n ==> first[i] == second[i],
    ensures
        counted_all(summary, first, n) == counted_all(summary, second, n),
    decreases n,
{
    if n > 0 {
        lemma_count_prefix(summary, first, second, n - 1);
    }
}

proof fn lemma_count_sum(
    summary: SyncSummary,
    first: Seq<ObjectReport>,
    second: Seq<ObjectReport>,
    n: int,
)
    requires
        0 <= n <= second.len(),
    ensures
        counted_all(counted_all(summary, first, first.len() as int), second, n) == counted_all(
            summary,
            first + second,
            first.len() + n,
        ),
    decreases n,
{
    if n > 0 {
        lemma_count_sum(summary, first, second, n - 1);
        assert((first + second)[first.len() + n - 1] == second[n - 1]);
    } else {
        lemma_count_prefix(summary, first, first + second, first.len() as int);
    }
}

proof fn lemma_recorded(
    record: RecordView,
    operations: Seq<ObjectReport>,
    n: int,
    rules: RecordRules,
)
    requires
        0 <= n <= operations.len(),
        record_all(record, operations, n, rules).error is None,
    ensures
        record.error is None,
        record_all(record, operations, n, rules).summary == counted_all(
            record.summary,
            operations,
            n,
        ),
        record_all(record, operations, n, rules).operations == if rules.collect {
            record.operations + operations.take(n)
        } else {
            record.operations
        },
    decreases n,
{
    if n > 0 {
        lemma_recorded(record, operations, n - 1, rules);
        assert(record.operations + operations.take(n) =~= (record.operations + operations.take(
            n - 1,
        )).push(operations[n - 1]));
    } else {
        assert(record.operations + operations.take(0) =~= record.operations);
    }
}

proof fn lemma_compared(fold: HashFold, results: Seq<HashPhaseResult>, n: int, rules: RecordRules)
    requires
        0 <= n <= results.len(),
        hash_all(fold, results, n, rules).record.error is None,
    ensures
        fold.record.error is None,
        ({
            let after = hash_all(fold, results, n, rules);
            let operations = compared_operations(results, n);
            &&& after.record.summary == counted_all(
                fold.record.summary,
                operations,
                operations.len() as int,
            )
            &&& after.record.operations == if rules.collect {
                fold.record.operations + operations
            } else {
                fold.record.operations
            }
            &&& after.uploads == fold.uploads + compared_jobs(results, n)
        }),
    decreases n,
{
    let operations = compared_operations(results, n);
    if n > 0 {
        lemma_compared(fold, results, n - 1, rules);
        let before = compared_operations(results, n - 1);
        match results[n - 1] {
            HashPhaseResult::Operation(report) => {
                lemma_count_prefix(fold.record.summary, before, operations, before.len() as int);
                assert(fold.record.operations + operations =~= (fold.record.operations
                    + before).push(report));
            },
            HashPhaseResult::Upload(job) => {
                assert(fold.uploads + compared_jobs(results, n) =~= (fold.uploads + compared_jobs(
                    results,
                    n - 1,
                )).push(job));
            },
        }
    } else {
        assert(fold.record.operations + operations =~= fold.record.operations);
        assert(fold.uploads + compared_jobs(results, n) =~= fold.uploads);
    }
}

proof fn lemma_mapped<A>(items: Seq<A>, f: spec_fn(A) -> Seq<char>)
    ensures
        items.map_values(f).to_multiset() == items.fold_left(
            Multiset::<Seq<char>>::empty(),
            |keys: Multiset<Seq<char>>, item: A| keys.insert(f(item)),
        ),
    decreases items.len(),
{
    broadcast use vstd::seq_lib::group_to_multiset_ensures;

    if items.len() > 0 {
        lemma_mapped(items.drop_last(), f);
        assert(items.map_values(f) =~= items.drop_last().map_values(f).push(f(items.last())));
    } else {
        assert(items.map_values(f).to_multiset() =~= Multiset::<Seq<char>>::empty());
    }
}

proof fn lemma_mapped_permutation<A>(first: Seq<A>, second: Seq<A>, f: spec_fn(A) -> Seq<char>)
    requires
        first.to_multiset() == second.to_multiset(),
    ensures
        first.map_values(f).to_multiset() == second.map_values(f).to_multiset(),
{
    let step = |keys: Multiset<Seq<char>>, item: A| keys.insert(f(item));
    assert forall|x: A, y: A, v: Multiset<Seq<char>>| #[trigger] step(step(v, x), y) == step(
        step(v, y),
        x,
    ) by {
        assert(step(step(v, x), y) =~= step(step(v, y), x));
    }
    lemma_mapped(first, f);
    lemma_mapped(second, f);
    vstd::seq_lib::lemma_fold_left_permutation(
        first,
        second,
        step,
        Multiset::<Seq<char>>::empty(),
    );
}

proof fn lemma_classified_keys(
    entries: Seq<ManifestEntryView>,
    n: int,
    destination: Map<Seq<char>, DestinationView>,
)
    requires
        0 <= n <= entries.len(),
    ensures
        ({
            let work = classified(entries, n, destination);
            report_keys(work.reports).to_multiset().add(
                hash_job_keys(work.hash_jobs).to_multiset(),
            ).add(upload_job_keys(work.upload_jobs).to_multiset()) == entry_keys(
                entries.take(n),
            ).to_multiset()
        }),
    decreases n,
{
    broadcast use vstd::seq_lib::group_to_multiset_ensures;

    let work = classified(entries, n, destination);
    let reports = report_keys(work.reports);
    let compared = hash_job_keys(work.hash_jobs);
    let uploads = upload_job_keys(work.upload_jobs);
    let keys = entry_keys(entries.take(n));
    if n > 0 {
        lemma_classified_keys(entries, n - 1, destination);
        let before = classified(entries, n - 1, destination);
        let key = entries[n - 1].key;
        assert(keys =~= entry_keys(entries.take(n - 1)).push(key));
        match entry_plan(entries[n - 1], listed(destination, key)) {
            EntryPlan::Report(report) => {
                assert(report.key == key);
                assert(reports =~= report_keys(before.reports).push(key));
            },
            EntryPlan::Hash(job) => {
                assert(compared =~= hash_job_keys(before.hash_jobs).push(key));
            },
            EntryPlan::Upload(job) => {
                assert(uploads =~= upload_job_keys(before.upload_jobs).push(key));
            },
        }
    } else {
        assert(keys.len() == 0 && reports.len() == 0 && compared.len() == 0 && uploads.len() == 0);
        assert(keys.to_multiset().len() == 0);
        assert(reports.to_multiset().len() == 0);
        assert(compared.to_multiset().len() == 0);
        assert(uploads.to_multiset().len() == 0);
    }
    assert(reports.to_multiset().add(compared.to_multiset()).add(uploads.to_multiset())
        =~= keys.to_multiset());
}

proof fn lemma_compared_keys(results: Seq<HashPhaseResult>, n: int)
    requires
        0 <= n <= results.len(),
    ensures
        operation_keys(compared_operations(results, n)).to_multiset().add(
            upload_job_keys(upload_job_views(compared_jobs(results, n))).to_multiset(),
        ) == plan_keys(result_plans(results).take(n)).to_multiset(),
    decreases n,
{
    broadcast use vstd::seq_lib::group_to_multiset_ensures;

    let operations = operation_keys(compared_operations(results, n));
    let uploads = upload_job_keys(upload_job_views(compared_jobs(results, n)));
    let keys = plan_keys(result_plans(results).take(n));
    if n > 0 {
        lemma_compared_keys(results, n - 1);
        let key = plan_key(hash_result_view(results[n - 1]));
        assert(keys =~= plan_keys(result_plans(results).take(n - 1)).push(key));
        match results[n - 1] {
            HashPhaseResult::Operation(report) => {
                assert(operations =~= operation_keys(compared_operations(results, n - 1)).push(
                    key,
                ));
            },
            HashPhaseResult::Upload(job) => {
                assert(uploads =~= upload_job_keys(
                    upload_job_views(compared_jobs(results, n - 1)),
                ).push(key));
            },
        }
    } else {
        assert(keys.len() == 0 && operations.len() == 0 && uploads.len() == 0);
        assert(keys.to_multiset().len() == 0);
        assert(operations.to_multiset().len() == 0);
        assert(uploads.to_multiset().len() == 0);
    }
    assert(operations.to_multiset().add(uploads.to_multiset()) =~= keys.to_multiset());
}

/// The keys of all operations are those of the entries.
proof fn lemma_operation_keys(
    course: SyncCourse,
    entries: Seq<ManifestEntryView>,
    destination: Map<Seq<char>, DestinationView>,
    digests: Seq<core::result::Result<ExtractDigestView, ErrorView>>,
    results: Seq<PutResultView>,
)
    requires
        course.is_of(entries, destination, digests, results),
        course.after_comparisons(entries, destination).record.error is None,
    ensures
        operation_keys(course.operations()).to_multiset() == entry_keys(entries).to_multiset(),
{
    let work = classified(entries, entries.len() as int, destination);
    let n = course.compared.len() as int;
    let rules = RecordRules { update_progress: true, ..course.rules };
    let compared = compared_operations(course.compared, n);
    let joined = compared_jobs(course.compared, n);
    lemma_classified_keys(entries, entries.len() as int, destination);
    assert(entries.take(entries.len() as int) =~= entries);
    lemma_compared(
        HashFold { record: course.started(entries, destination), uploads: course.jobs },
        course.compared,
        n,
        rules,
    );
    lemma_compared_keys(course.compared, n);
    assert(result_plans(course.compared).take(n) =~= result_plans(course.compared));
    lemma_mapped_permutation(
        result_plans(course.compared),
        hash_plans(work.hash_jobs, digests),
        |plan: EntryPlan| plan_key(plan),
    );
    assert(plan_keys(hash_plans(work.hash_jobs, digests)) =~= hash_job_keys(work.hash_jobs));

    let jobs = upload_job_views(course.after_comparisons(entries, destination).uploads);
    assert(jobs =~= work.upload_jobs + upload_job_views(joined));
    lemma_mapped_permutation(
        report_views(course.written),
        upload_reports(jobs, results),
        |report: ObjectReportView| report.key,
    );
    assert(report_keys(upload_reports(jobs, results)) =~= upload_job_keys(jobs));
    let direct = upload_job_keys(work.upload_jobs);
    let later = upload_job_keys(upload_job_views(joined));
    assert(upload_job_keys(jobs) =~= direct + later);
    vstd::seq_lib::lemma_multiset_commutative(direct, later);

    let first = operation_keys(course.reports);
    let second = operation_keys(compared);
    let third = operation_keys(course.written);
    assert(first =~= report_keys(work.reports)) by {
        assert forall|i: int| 0 <= i < first.len() implies first[i] == report_keys(
            work.reports,
        )[i] by {
            assert(report_views(course.reports)[i] == course.reports[i]@);
        }
    }
    assert(third =~= report_keys(report_views(course.written)));
    assert(operation_keys(course.operations()) =~= first + second + third);
    vstd::seq_lib::lemma_multiset_commutative(first, second);
    vstd::seq_lib::lemma_multiset_commutative(first + second, third);
    assert(operation_keys(course.operations()).to_multiset() =~= entry_keys(
        entries,
    ).to_multiset());
}

proof fn lemma_nothing_deleted(summary: SyncSummary, operations: Seq<ObjectReport>, n: int)
    requires
        0 <= n <= operations.len(),
        forall|i: int|
            0 <= i < operations.len() ==> (#[trigger] operations[i])@.status
                != OperationStatus::DeletedExtra,
    ensures
        counted_all(summary, operations, n).deleted_extra == summary.deleted_extra,
    decreases n,
{
    if n > 0 {
        lemma_nothing_deleted(summary, operations, n - 1);
        assert(operations[n - 1]@.status != OperationStatus::DeletedExtra);
    }
}

proof fn lemma_compared_without_deletions(
    results: Seq<HashPhaseResult>,
    n: int,
    jobs: Seq<HashJobView>,
    digests: Seq<core::result::Result<ExtractDigestView, ErrorView>>,
)
    requires
        0 <= n <= results.len(),
        result_plans(results).to_multiset() == hash_plans(jobs, digests).to_multiset(),
    ensures
        forall|i: int|
            0 <= i < compared_operations(results, n).len() ==> (#[trigger] compared_operations(
                results,
                n,
            )[i])@.status != OperationStatus::DeletedExtra,
    decreases n,
{
    broadcast use vstd::seq_lib::group_to_multiset_ensures;

    if n > 0 {
        lemma_compared_without_deletions(results, n - 1, jobs, digests);
        let plans = result_plans(results);
        let expected = hash_plans(jobs, digests);
        assert(plans.contains(plans[n - 1]));
        assert(expected.to_multiset().count(plans[n - 1]) > 0);
        assert(expected.contains(plans[n - 1]));
        let k = expected.index_of(plans[n - 1]);
        assert(expected[k] == hash_plan(jobs[k], digests[k]));
        let before = compared_operations(results, n - 1);
        let now = compared_operations(results, n);
        assert forall|i: int| 0 <= i < now.len() implies (#[trigger] now[i])@.status
            != OperationStatus::DeletedExtra by {
            if i < before.len() {
                assert(now[i] == before[i]);
            } else {
                assert(plans[n - 1] == EntryPlan::Report(now[i]@));
            }
        }
    }
}

/// A finished run reports every entry once: before anything is deleted, its
/// counters add up to the number of entries, and where operations are collected
/// there is one for each entry, with the entry's key.
pub proof fn law_every_entry_is_reported_once(
    course: SyncCourse,
    entries: Seq<ManifestEntryView>,
    destination: Map<Seq<char>, DestinationView>,
    digests: Seq<core::result::Result<ExtractDigestView, ErrorView>>,
    results: Seq<PutResultView>,
)
    requires
        entries.len() <= usize::MAX,
        course.is_of(entries, destination, digests, results),
        course.after_writes(entries, destination).error is None,
    ensures
        ({
            let record = course.after_writes(entries, destination);
            let summary = record.summary;
            &&& summary.zip_files == entries.len()
            &&& summary.uploaded_new + summary.uploaded_changed + summary.skipped_unchanged
                + summary.conditional_conflicts + summary.errors == summary.zip_files
            &&& summary.deleted_extra == 0
            &&& record.operations.len() == if course.rules.collect {
                entries.len()
            } else {
                0
            }
            &&& course.rules.collect ==> operation_keys(record.operations).to_multiset()
                == entry_keys(entries).to_multiset()
        }),
{
    broadcast use vstd::seq_lib::group_to_multiset_ensures;

    let work = classified(entries, entries.len() as int, destination);
    let rules = RecordRules { update_progress: true, ..course.rules };
    let fresh = fresh_record(entries.len() as usize, destination.len() as usize);
    let n = course.compared.len() as int;
    let compared = compared_operations(course.compared, n);
    let middle = course.after_comparisons(entries, destination);
    lemma_recorded(
        RecordView { progress: course.progress, ..middle.record },
        course.written,
        course.written.len() as int,
        RecordRules { update_progress: false, ..course.rules },
    );
    lemma_compared(
        HashFold { record: course.started(entries, destination), uploads: course.jobs },
        course.compared,
        n,
        rules,
    );
    lemma_recorded(fresh, course.reports, course.reports.len() as int, rules);
    assert(course.reports.take(course.reports.len() as int) =~= course.reports);
    assert(course.written.take(course.written.len() as int) =~= course.written);
    let both = course.reports + compared;
    let all = course.operations();
    lemma_count_sum(fresh.summary, course.reports, compared, compared.len() as int);
    lemma_count_sum(fresh.summary, both, course.written, course.written.len() as int);
    assert(all =~= both + course.written);
    let record = course.after_writes(entries, destination);
    assert(record.summary == counted_all(fresh.summary, all, all.len() as int));
    if course.rules.collect {
        assert(record.operations =~= all);
    }

    lemma_operation_keys(course, entries, destination, digests, results);
    assert(operation_keys(all).to_multiset().len() == operation_keys(all).len());
    assert(entry_keys(entries).to_multiset().len() == entry_keys(entries).len());
    assert(all.len() == entries.len());
    assert forall|status: OperationStatus| #[trigger]
        status_count(fresh.summary, status) + all.len() <= usize::MAX by {}
    law_summary_counts_every_operation(fresh.summary, all, all.len() as int);

    lemma_no_conflicts_classified(entries, entries.len() as int, destination);
    lemma_compared_without_deletions(course.compared, n, work.hash_jobs, digests);
    let jobs = upload_job_views(middle.uploads);
    let expected = upload_reports(jobs, results);
    let written = report_views(course.written);
    assert forall|i: int| 0 <= i < all.len() implies (#[trigger] all[i])@.status
        != OperationStatus::DeletedExtra by {
        let a = course.reports.len() as int;
        let b = both.len() as int;
        if i < a {
            assert(report_views(course.reports)[i] == course.reports[i]@);
            assert(work.reports[i].status != OperationStatus::DeletedExtra);
        } else if i < b {
            assert(all[i] == compared[i - a]);
        } else {
            assert(written[i - b] == all[i]@);
            assert(written.contains(written[i - b]));
            assert(expected.to_multiset().count(written[i - b]) > 0);
            assert(expected.contains(written[i - b]));
            let k = expected.index_of(written[i - b]);
            assert(expected[k] == upload_report(jobs[k], results[k]));
        }
    }
    lemma_nothing_deleted(fresh.summary, all, all.len() as int);
}

} // verus!

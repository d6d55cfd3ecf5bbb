//! The course of transfers that handle one entry after another: from a local
//! ZIP file to an S3 prefix, and from any ZIP to a local directory.
use vstd::hash_set::StringHashSet;
use vstd::prelude::*;
use vstd::string::*;

use crate::destination::{are_extra, opt_keys, DestinationListing};
use crate::local_zip::{local_views, LocalEntryView, LocalZipEntry};
use crate::options::{DestinationCleanup, LocalZipSyncOptions};
use crate::report::{
    counted, empty_summary, status_count, summarize_operation, ObjectReport, OperationStatus,
    SyncSummary,
};

verus! {

/// Whether a set holds exactly the destinations of the entries.
pub open spec fn is_destination_set(keys: Set<Seq<char>>, entries: Seq<LocalEntryView>) -> bool {
    forall|key: Seq<char>| #[trigger]
        keys.contains(key) <==> exists|i: int|
            0 <= i < entries.len() && (#[trigger] entries[i]).destination == key
}

fn expected_destinations(entries: &Vec<LocalZipEntry>) -> (keys: StringHashSet)
    ensures
        is_destination_set(keys@, local_views(entries@)),
{
    let ghost views = local_views(entries@);
    let mut keys: StringHashSet = StringHashSet::new();
    let mut i: usize = 0;
    assert(is_destination_set(keys@, views.take(0)));
    while i < entries.len()
        invariant
            i <= entries.len(),
            views == local_views(entries@),
            is_destination_set(keys@, views.take(i as int)),
        decreases entries.len() - i,
    {
        let ghost before = keys@;
        let ghost seen = views.take(i as int);
        let ghost now = views.take(i + 1);
        assert(views[i as int] == entries@[i as int]@);
        keys.insert(entries[i].destination.clone());
        assert forall|key: Seq<char>| #[trigger] keys@.contains(key) <==> exists|k: int|
            0 <= k < now.len() && (#[trigger] now[k]).destination == key by {
            assert(before.contains(key) <==> exists|k: int|
                0 <= k < seen.len() && (#[trigger] seen[k]).destination == key);
            if before.contains(key) {
                let k = choose|k: int|
                    0 <= k < seen.len() && (#[trigger] seen[k]).destination == key;
                assert(now[k].destination == key);
            }
            if key == views[i as int].destination {
                assert(now[i as int].destination == key);
            }
            if exists|k: int| 0 <= k < now.len() && (#[trigger] now[k]).destination == key {
                let k = choose|k: int| 0 <= k < now.len() && (#[trigger] now[k]).destination == key;
                if k < i {
                    assert(seen[k].destination == key);
                }
            }
        }
        i += 1;
    }
    assert(views.take(i as int) =~= views);
    keys
}

/// A transfer under way.
pub struct TransferRun {
    pub collect_operations: bool,
    pub summary: SyncSummary,
    pub operations: Vec<ObjectReport>,
    /// The keys of the entries, where everything else is deleted.
    pub expected_keys: Option<StringHashSet>,
}

impl TransferRun {
    /// Starts a transfer to an S3 prefix.
    pub fn start_to_s3(
        options: &LocalZipSyncOptions,
        entries: &Vec<LocalZipEntry>,
        destination: &DestinationListing,
    ) -> (run: TransferRun)
        ensures
            run.collect_operations == options.collect_operations,
            run.summary == (SyncSummary {
                zip_files: entries@.len() as usize,
                destination_objects: destination@.len() as usize,
                ..empty_summary()
            }),
            run.operations@.len() == 0,
            match run.expected_keys {
                Some(keys) => options.cleanup == DestinationCleanup::DeleteExtra
                    && is_destination_set(keys@, local_views(entries@)),
                None => options.cleanup == DestinationCleanup::KeepExtra,
            },
    {
        let keys: Option<StringHashSet> = if options.cleanup.deletes_extra() {
            Some(expected_destinations(entries))
        } else {
            None
        };
        let mut summary = SyncSummary::default();
        summary.zip_files = entries.len();
        summary.destination_objects = destination.len();
        TransferRun {
            collect_operations: options.collect_operations,
            summary,
            operations: Vec::new(),
            expected_keys: keys,
        }
    }

    /// Starts a transfer to a local directory. Extra files there are left alone.
    pub fn start_to_local(entries: usize, collect_operations: bool) -> (run: TransferRun)
        ensures
            run.collect_operations == collect_operations,
            run.summary == (SyncSummary { zip_files: entries, ..empty_summary() }),
            run.operations@.len() == 0,
            run.expected_keys is None,
    {
        let mut summary = SyncSummary::default();
        summary.zip_files = entries;
        TransferRun {
            collect_operations,
            summary,
            operations: Vec::new(),
            expected_keys: None,
        }
    }

    /// Whether one more operation of a status can be counted.
    pub fn has_room_for(&self, status: OperationStatus) -> (room: bool)
        ensures
            room == (status_count(self.summary, status) < usize::MAX),
    {
        let count: usize = match status {
            OperationStatus::UploadedNew => self.summary.uploaded_new,
            OperationStatus::UploadedChanged => self.summary.uploaded_changed,
            OperationStatus::SkippedUnchanged => self.summary.skipped_unchanged,
            OperationStatus::ConditionalConflict => self.summary.conditional_conflicts,
            OperationStatus::DeletedExtra => self.summary.deleted_extra,
            OperationStatus::Error => self.summary.errors,
        };
        count < usize::MAX
    }

    /// Counts an operation, and keeps it where operations are collected.
    pub fn record(&mut self, operation: ObjectReport)
        requires
            status_count(old(self).summary, operation.status) < usize::MAX,
        ensures
            final(self).summary == counted(old(self).summary, operation.status),
            final(self).operations@ == if old(self).collect_operations {
                old(self).operations@.push(operation)
            } else {
                old(self).operations@
            },
            final(self).collect_operations == old(self).collect_operations,
            final(self).expected_keys == old(self).expected_keys,
    {
        summarize_operation(&mut self.summary, &operation);
        if self.collect_operations {
            self.operations.push(operation);
        }
    }

    /// The keys of the objects to delete: those that no entry has.
    pub fn extra_keys(&self, destination: &DestinationListing) -> (extra: Vec<String>)
        requires
            destination.wf(),
        ensures
            are_extra(extra@, destination@, opt_keys(self.expected_keys)),
    {
        match &self.expected_keys {
            Some(keys) => destination.extra_keys(keys),
            None => Vec::new(),
        }
    }
}

} // verus!

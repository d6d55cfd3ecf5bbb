//! Deleting the destination objects that are not in the ZIP.
use vstd::hash_map::StringHashMap;
use vstd::prelude::*;
use vstd::string::*;

use crate::catalog::digest_views;
use crate::report::{ObjectReport, ObjectReportView, OperationStatus};

verus! {

/// The most keys that one request deletes.
pub const DELETE_CHUNK_KEYS: usize = 1000;

/// The keys of some requests, one after the other.
pub open spec fn chunk_keys(chunks: Seq<Vec<String>>) -> Seq<String>
    decreases chunks.len(),
{
    if chunks.len() == 0 {
        Seq::empty()
    } else {
        chunk_keys(chunks.drop_last()) + chunks.last()@
    }
}

/// Whether every request deletes something and not too much, and all but the
/// last delete as much as possible.
pub open spec fn chunks_full(chunks: Seq<Vec<String>>) -> bool {
    &&& forall|i: int|
        0 <= i < chunks.len() ==> 0 < (#[trigger] chunks[i])@.len() <= DELETE_CHUNK_KEYS
    &&& forall|i: int|
        0 <= i < chunks.len() - 1 ==> (#[trigger] chunks[i])@.len() == DELETE_CHUNK_KEYS
}

/// Divides keys over requests, in order.
pub fn delete_chunks(keys: Vec<String>) -> (chunks: Vec<Vec<String>>)
    ensures
        chunk_keys(chunks@) == keys@,
        chunks_full(chunks@),
{
    let ghost all = keys@;
    let mut chunks: Vec<Vec<String>> = Vec::new();
    let mut chunk: Vec<String> = Vec::new();
    assert(chunk_keys(chunks@) + chunk@ =~= all.take(0));
    for key in it: keys
        invariant
            it.seq() == all,
            chunk_keys(chunks@) + chunk@ == all.take(it.index()),
            chunk.len() < DELETE_CHUNK_KEYS,
            forall|i: int|
                0 <= i < chunks.len() ==> (#[trigger] chunks@[i])@.len() == DELETE_CHUNK_KEYS,
    {
        let ghost done = it.index();
        chunk.push(key);
        assert(chunk_keys(chunks@) + chunk@ =~= all.take(done + 1)) by {
            assert(all.take(done + 1) =~= all.take(done).push(all[done]));
        }
        if chunk.len() == DELETE_CHUNK_KEYS {
            let mut full: Vec<String> = Vec::new();
            std::mem::swap(&mut full, &mut chunk);
            let ghost sent = chunks@;
            chunks.push(full);
            assert(chunks@.drop_last() =~= sent);
            assert(chunk_keys(chunks@) + chunk@ =~= all.take(done + 1));
        }
    }
    assert(all.take(all.len() as int) =~= all);
    if chunk.len() > 0 {
        let ghost sent = chunks@;
        chunks.push(chunk);
        assert(chunks@.drop_last() =~= sent);
        assert forall|i: int| 0 <= i < chunks.len() implies 0 < (#[trigger] chunks@[i])@.len()
            <= DELETE_CHUNK_KEYS by {
            if i < sent.len() {
                assert(chunks@[i] == sent[i]);
            }
        }
        assert forall|i: int| 0 <= i < chunks.len() - 1 implies (#[trigger] chunks@[i])@.len()
            == DELETE_CHUNK_KEYS by {
            assert(chunks@[i] == sent[i]);
        }
    } else {
        assert(chunk_keys(chunks@) + chunk@ =~= chunk_keys(chunks@));
    }
    chunks
}

/// What a request to delete keys came to.
pub enum DeleteOutcome {
    /// The request was served; the keys that could not be deleted have a message.
    Served(StringHashMap<String>),
    /// The request failed as a whole.
    Failed(String),
}

/// The messages of the keys in the first `n` failures. Later ones win.
pub open spec fn failure_messages(failures: Seq<(String, String)>, n: int) -> Map<
    Seq<char>,
    Seq<char>,
>
    decreases n,
{
    if n <= 0 {
        Map::empty()
    } else {
        failure_messages(failures, n - 1).insert(failures[n - 1].0@, failures[n - 1].1@)
    }
}

impl DeleteOutcome {
    /// A request that was served, with the keys that could not be deleted and
    /// their messages.
    pub fn served(failures: Vec<(String, String)>) -> (outcome: DeleteOutcome)
        ensures
            outcome is Served,
            digest_views(outcome->Served_0@) == failure_messages(
                failures@,
                failures@.len() as int,
            ),
    {
        let mut messages: StringHashMap<String> = StringHashMap::new();
        let ghost all = failures@;
        assert(digest_views(messages@) =~= Map::<Seq<char>, Seq<char>>::empty());
        for failure in it: failures
            invariant
                it.seq() == all,
                digest_views(messages@) == failure_messages(all, it.index() as int),
        {
            let ghost before = messages@;
            assert(failure == all[it.index() as int]);
            let (key, message) = failure;
            messages.insert(key, message);
            assert(digest_views(messages@) =~= digest_views(before).insert(key@, message@));
        }
        DeleteOutcome::Served(messages)
    }
}

/// The message of a key that was not deleted.
pub open spec fn delete_message(outcome: DeleteOutcome, key: Seq<char>) -> Option<Seq<char>> {
    match outcome {
        DeleteOutcome::Served(failed) => if failed@.contains_key(key) {
            Some(failed@[key]@)
        } else {
            None
        },
        DeleteOutcome::Failed(message) => Some(message@),
    }
}

/// The report of a deletion.
pub open spec fn delete_report(key: Seq<char>, message: Option<Seq<char>>) -> ObjectReportView {
    ObjectReportView {
        status: if message is Some {
            OperationStatus::Error
        } else {
            OperationStatus::DeletedExtra
        },
        key,
        zip_path: None,
        size: None,
        md5: None,
        destination_etag: None,
        message,
    }
}

/// Reports what became of each key of a request.
pub fn delete_reports(keys: Vec<String>, outcome: &DeleteOutcome) -> (reports: Vec<ObjectReport>)
    ensures
        reports@.len() == keys@.len(),
        forall|i: int|
            0 <= i < keys@.len() ==> (#[trigger] reports@[i])@ == delete_report(
                keys@[i]@,
                delete_message(*outcome, keys@[i]@),
            ),
{
    let ghost all = keys@;
    let mut reports: Vec<ObjectReport> = Vec::new();
    for key in it: keys
        invariant
            it.seq() == all,
            reports.len() == it.index(),
            forall|i: int|
                0 <= i < it.index() ==> (#[trigger] reports@[i])@ == delete_report(
                    all[i]@,
                    delete_message(*outcome, all[i]@),
                ),
    {
        let message: Option<String> = match outcome {
            DeleteOutcome::Served(failed) => match failed.get(&key) {
                Some(message) => Some(message.clone()),
                None => None,
            },
            DeleteOutcome::Failed(message) => Some(message.clone()),
        };
        let status = if message.is_some() {
            OperationStatus::Error
        } else {
            OperationStatus::DeletedExtra
        };
        reports.push(
            ObjectReport {
                status,
                key,
                zip_path: None,
                size: None,
                md5: None,
                destination_etag: None,
                message,
            },
        );
    }
    reports
}

} // verus!

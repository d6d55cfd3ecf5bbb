//! What every step of the block window keeps.
use vstd::prelude::*;

use crate::block_store::{
    admission_problem, admission_problem_from, admit_step, claim_counts, claim_step, finish_frees,
    finish_step, fresh_store, indices_known, larger, left, overlapping, overlaps, release_frees,
    release_step, replay_step, replayed, reserve_outcome, reserve_step, span_blocks, unclaimed,
    FetchView, ReserveFetchResult, SlotView, StoreView,
};
use crate::source_plan::SourceRange;
use crate::zip_manifest::ManifestEntryView;

verus! {

/// Whether a block takes room in the window: it is being fetched or kept.
pub open spec fn occupies(slot: SlotView) -> bool {
    slot.status is Fetching || slot.status is Ready
}

pub open spec fn slot_bytes(store: StoreView, i: int) -> int {
    if occupies(store.slots[i]) {
        store.blocks[i].len() as int
    } else {
        0
    }
}

/// The bytes of the first `n` blocks that take room.
pub open spec fn occupied(store: StoreView, n: int) -> int
    decreases n,
{
    if n <= 0 {
        0
    } else {
        occupied(store, n - 1) + slot_bytes(store, n - 1)
    }
}

/// Whether the resident bytes are those of the blocks that take room.
pub open spec fn accounted(store: StoreView) -> bool {
    store.wf() && store.resident_bytes == occupied(store, store.blocks.len() as int)
}

/// Whether two windows have the same blocks and differ at most in one slot.
pub open spec fn differ_at(a: StoreView, b: StoreView, index: int) -> bool {
    &&& a.blocks == b.blocks
    &&& a.slots.len() == b.slots.len() == a.blocks.len()
    &&& forall|i: int| 0 <= i < a.slots.len() && i != index ==> a.slots[i] == #[trigger] b.slots[i]
}

proof fn lemma_occupied_change(a: StoreView, b: StoreView, index: int, n: int)
    requires
        differ_at(a, b, index),
        0 <= index < a.slots.len(),
        0 <= n <= a.slots.len(),
    ensures
        occupied(b, n) == occupied(a, n) + if index < n {
            slot_bytes(b, index) - slot_bytes(a, index)
        } else {
            0
        },
    decreases n,
{
    if n > 0 {
        lemma_occupied_change(a, b, index, n - 1);
        if n - 1 != index {
            assert(a.slots[n - 1] == b.slots[n - 1]);
        }
    }
}

proof fn lemma_occupied_has(store: StoreView, index: int, n: int)
    requires
        0 <= index < n <= store.slots.len(),
    ensures
        occupied(store, n) >= slot_bytes(store, index) >= 0,
        occupied(store, n) >= 0,
    decreases n,
{
    if n - 1 > index {
        lemma_occupied_has(store, index, n - 1);
    } else if n - 1 > 0 {
        lemma_occupied_has(store, 0, n - 1);
    } else {
        assert(occupied(store, 0) == 0);
    }
}

/// A new window is empty and accounted for.
pub proof fn law_fresh_window_is_accounted(
    blocks: Seq<SourceRange>,
    claims: Seq<usize>,
    capacity: usize,
)
    ensures
        accounted(fresh_store(blocks, claims, capacity)),
{
    lemma_fresh_is_empty(fresh_store(blocks, claims, capacity), blocks.len() as int);
}

proof fn lemma_fresh_is_empty(store: StoreView, n: int)
    requires
        0 <= n <= store.slots.len(),
        forall|i: int| 0 <= i < store.slots.len() ==> (#[trigger] store.slots[i]).status is Pending,
    ensures
        occupied(store, n) == 0,
    decreases n,
{
    if n > 0 {
        lemma_fresh_is_empty(store, n - 1);
        assert(store.slots[n - 1].status is Pending);
    }
}

/// Reserving a block keeps the account, and keeps the window within its
/// capacity, or to one block where that block alone is larger.
pub proof fn law_reserve_keeps_the_account(store: StoreView, index: int)
    requires
        accounted(store),
    ensures
        accounted(reserve_step(store, index)),
        reserve_outcome(store, index) is Reserved ==> reserve_step(store, index).resident_bytes
            <= larger(store.capacity, store.blocks[index].len()),
{
    let after = reserve_step(store, index);
    if reserve_outcome(store, index) is Reserved {
        lemma_occupied_change(store, after, index, store.blocks.len() as int);
    }
}

/// Taking in a fetch that was reserved keeps the account.
pub proof fn law_finish_keeps_the_account(store: StoreView, index: int, fetch: FetchView)
    requires
        accounted(store),
        0 <= index < store.blocks.len(),
        store.slots[index].status is Fetching,
        match fetch {
            FetchView::Fetched(bytes) => bytes.len() == store.blocks[index].len(),
            FetchView::Failed(_) => true,
        },
    ensures
        accounted(finish_step(store, index, fetch)),
        finish_frees(store, index, fetch) <==> finish_step(store, index, fetch).resident_bytes
            < store.resident_bytes,
{
    let after = finish_step(store, index, fetch);
    lemma_occupied_change(store, after, index, store.blocks.len() as int);
    lemma_occupied_has(store, index, store.blocks.len() as int);
}

/// A reader that leaves keeps the account.
pub proof fn law_release_keeps_the_account(store: StoreView, index: int)
    requires
        accounted(store),
    ensures
        accounted(release_step(store, index)),
        release_frees(store, index) <==> release_step(store, index).resident_bytes
            < store.resident_bytes,
{
    let after = release_step(store, index);
    if 0 <= index < store.blocks.len() && store.slots[index].live_claims > 0 {
        lemma_occupied_change(store, after, index, store.blocks.len() as int);
        lemma_occupied_has(store, index, store.blocks.len() as int);
    }
}

/// Planning readers keeps the account and every block's bytes.
pub proof fn law_claims_keep_the_account(store: StoreView, indices: Seq<usize>, n: int)
    requires
        accounted(store),
        indices_known(store, indices),
        0 <= n <= indices.len(),
    ensures
        accounted(claim_step(store, indices, n)),
        claim_step(store, indices, n).resident_bytes == store.resident_bytes,
        claim_step(store, indices, n).blocks == store.blocks,
        forall|i: int|
            0 <= i < store.slots.len() ==> (#[trigger] claim_step(store, indices, n).slots[i]).status
                == store.slots[i].status,
    decreases n,
{
    if n > 0 {
        law_claims_keep_the_account(store, indices, n - 1);
        let before = claim_step(store, indices, n - 1);
        let after = claim_step(store, indices, n);
        let index = indices[n - 1] as int;
        assert(indices[n - 1] < store.slots.len());
        lemma_occupied_change(before, after, index, store.blocks.len() as int);
    }
}

/// Admitting a reader keeps the account and every block's bytes.
pub proof fn law_admission_keeps_the_account(store: StoreView, indices: Seq<usize>, n: int)
    requires
        accounted(store),
        indices_known(store, indices),
        0 <= n <= indices.len(),
    ensures
        accounted(admit_step(store, indices, n)),
        admit_step(store, indices, n).resident_bytes == store.resident_bytes,
        admit_step(store, indices, n).blocks == store.blocks,
        forall|i: int|
            0 <= i < store.slots.len() ==> (#[trigger] admit_step(store, indices, n).slots[i]).status
                == store.slots[i].status,
    decreases n,
{
    if n > 0 {
        law_admission_keeps_the_account(store, indices, n - 1);
        let before = admit_step(store, indices, n - 1);
        let after = admit_step(store, indices, n);
        let index = indices[n - 1] as int;
        assert(indices[n - 1] < store.slots.len());
        lemma_occupied_change(before, after, index, store.blocks.len() as int);
    }
}

/// Planning to read again keeps the account; blocks that take room keep their bytes.
pub proof fn law_replay_keeps_the_account(store: StoreView, indices: Seq<usize>, n: int)
    requires
        accounted(store),
        0 <= n <= indices.len(),
    ensures
        accounted(replay_step(store, indices, n)),
        replay_step(store, indices, n).resident_bytes == store.resident_bytes,
        replay_step(store, indices, n).blocks == store.blocks,
        forall|i: int|
            0 <= i < store.slots.len() && occupies(store.slots[i]) ==> (#[trigger] replay_step(
                store,
                indices,
                n,
            ).slots[i]).status == store.slots[i].status,
    decreases n,
{
    if n > 0 {
        law_replay_keeps_the_account(store, indices, n - 1);
        let before = replay_step(store, indices, n - 1);
        let after = replay_step(store, indices, n);
        if indices[n - 1] < before.slots.len() {
            let index = indices[n - 1] as int;
            lemma_occupied_change(before, after, index, store.blocks.len() as int);
        }
    }
}

/// A ready block keeps its bytes until the last reader that is to read it leaves.
pub proof fn law_ready_block_outlives_its_claims(store: StoreView, index: int, other: int)
    requires
        store.wf(),
        0 <= index < store.slots.len(),
        store.slots[index].status is Ready,
    ensures
        release_step(store, other).slots[index].status == store.slots[index].status || (other
            == index && unclaimed(left(store.slots[index]))),
        reserve_step(store, other).slots[index].status == store.slots[index].status,
{
}

/// A released block is not fetched again until somebody plans to read it again.
pub proof fn law_released_block_needs_a_replay(store: StoreView, index: int)
    requires
        store.wf(),
        0 <= index < store.slots.len(),
        store.slots[index].status is Released,
    ensures
        reserve_outcome(store, index) == ReserveFetchResult::NoClaims,
        reserve_step(store, index) == store,
        replayed(store.slots[index]).status is Pending,
        replayed(store.slots[index]).remaining_claims > 0,
        ({
            let again = store.with_slot(index, replayed(store.slots[index]));
            reserve_outcome(again, index) is Reserved || reserve_outcome(again, index)
                is WaitForCapacity
        }),
{
}

/// In an empty window any pending block that is to be read can be fetched.
pub proof fn law_empty_window_takes_any_block(store: StoreView, index: int)
    requires
        store.wf(),
        store.resident_bytes == 0,
        0 <= index < store.slots.len(),
        store.slots[index].status is Pending,
        store.slots[index].remaining_claims > 0,
    ensures
        reserve_outcome(store, index) == ReserveFetchResult::Reserved(store.blocks[index]),
{
}

proof fn lemma_overlapping_overlap(
    blocks: Seq<SourceRange>,
    n: int,
    start: u64,
    end_exclusive: u64,
    k: int,
)
    requires
        0 <= n <= blocks.len() <= usize::MAX,
        0 <= k < overlapping(blocks, n, start, end_exclusive).len(),
    ensures
        ({
            let index = overlapping(blocks, n, start, end_exclusive)[k];
            index < n && overlaps(blocks[index as int], start, end_exclusive)
        }),
    decreases n,
{
    if n > 0 && k < overlapping(blocks, n - 1, start, end_exclusive).len() {
        lemma_overlapping_overlap(blocks, n - 1, start, end_exclusive, k);
    }
}

proof fn lemma_claimed(
    blocks: Seq<SourceRange>,
    entries: Seq<ManifestEntryView>,
    n: int,
    k: int,
    i: int,
)
    requires
        0 <= k < n <= entries.len(),
        0 <= i < blocks.len(),
        overlaps(blocks[i], entries[k].source_span_start, entries[k].source_span_end),
    ensures
        claim_counts(blocks, entries, n).len() == blocks.len(),
        claim_counts(blocks, entries, n)[i] > 0,
    decreases n,
{
    if k < n - 1 {
        lemma_claimed(blocks, entries, n - 1, k, i);
    }
}

proof fn lemma_no_admission_problem(store: StoreView, indices: Seq<usize>, k: int)
    requires
        0 <= k,
        forall|j: int|
            0 <= j < indices.len() ==> admission_problem(store, #[trigger] indices[j]) is None,
    ensures
        admission_problem_from(store, indices, k) is None,
    decreases indices.len() - k,
{
    if k < indices.len() {
        assert(admission_problem(store, indices[k]) is None);
        lemma_no_admission_problem(store, indices, k + 1);
    }
}

/// Every entry that was planned for can be read: a reader over its span is
/// admitted to the window that was made for the entries.
pub proof fn law_planned_readers_are_admitted(
    blocks: Seq<SourceRange>,
    entries: Seq<ManifestEntryView>,
    capacity: usize,
    k: int,
)
    requires
        blocks.len() <= usize::MAX,
        0 <= k < entries.len(),
    ensures
        admission_problem_from(
            fresh_store(blocks, claim_counts(blocks, entries, entries.len() as int), capacity),
            span_blocks(blocks, entries[k].source_span_start, entries[k].source_span_end),
            0,
        ) is None,
{
    let (start, end) = (entries[k].source_span_start, entries[k].source_span_end);
    let store = fresh_store(blocks, claim_counts(blocks, entries, entries.len() as int), capacity);
    let indices = span_blocks(blocks, start, end);
    assert forall|j: int| 0 <= j < indices.len() implies admission_problem(
        store,
        #[trigger] indices[j],
    ) is None by {
        lemma_overlapping_overlap(blocks, blocks.len() as int, start, end, j);
        lemma_claimed(blocks, entries, entries.len() as int, k, indices[j] as int);
    }
    lemma_no_admission_problem(store, indices, 0);
}

} // verus!

//! What is read of a source, and what the block window does with it.
use vstd::prelude::*;

use crate::block_reader::{leave_blocks, leave_frees, needed_from};
use crate::block_store::{
    admission_problem, admit_step, block_at, claim_counts, claim_step, finish_step, fresh_store,
    indices_known, overlapping, release_step, replay_step, reserve_outcome, reserve_step,
    slice_counters, slice_outcome, span_blocks, FetchView, ReserveFetchResult, SliceView, SlotView,
    StatusView, StoreView,
};
use crate::diagnostics::{amplification, SourceCounters};
use crate::range_reader::{seek_position, S3RangeReader, SeekTarget};
use crate::source_fetch::{after_failure, range_problem, RangeFetch, RetryDecision};
use crate::source_plan::{
    clip_span, coalesced, covers, cut, cut_all, lemma_coalesced, lemma_cut,
    lemma_member_of_permutation, lemma_sort_spans, lemma_spans_nonempty, planned_blocks,
    source_spans, span_order, spans_fit, SourceRange,
};
use crate::spans::spans_sorted;
use crate::window_laws::{accounted, law_release_keeps_the_account};
use crate::zip_manifest::ManifestEntryView;

verus! {

/// Whether a position is needed: it lies in some span, or in a gap between two
/// spans that is not wider than allowed.
spec fn is_needed(spans: Seq<(u64, u64)>, n: int, merge_gap: u64, position: int) -> bool {
    ||| exists|i: int| 0 <= i < n && (#[trigger] spans[i]).0 <= position < spans[i].1
    ||| exists|a: int, b: int|
        0 <= a < n && 0 <= b < n && (#[trigger] spans[a]).1 <= position < (#[trigger] spans[b]).0
            && spans[b].0 - spans[a].1 <= merge_gap
}

proof fn lemma_needed_more(
    spans: Seq<(u64, u64)>,
    n: int,
    m: int,
    merge_gap: u64,
    position: int,
)
    requires
        n <= m,
        is_needed(spans, n, merge_gap, position),
    ensures
        is_needed(spans, m, merge_gap, position),
{
}

proof fn lemma_coalesced_is_needed(
    spans: Seq<(u64, u64)>,
    n: int,
    block_size: u64,
    merge_gap: u64,
    source_len: u64,
)
    requires
        0 <= n <= spans.len(),
        spans_sorted(spans),
        spans_fit(spans, source_len),
    ensures
        ({
            let joined = coalesced(spans, n, block_size, merge_gap);
            &&& forall|m: int, p: int|
                0 <= m < joined.len() && (#[trigger] joined[m]).0 <= p < joined[m].1
                    ==> #[trigger] is_needed(spans, n, merge_gap, p)
            &&& joined.len() > 0 ==> exists|i: int|
                0 <= i < n && (#[trigger] spans[i]).1 == joined.last().1
        }),
    decreases n,
{
    if n > 0 {
        lemma_coalesced_is_needed(spans, n - 1, block_size, merge_gap, source_len);
        lemma_coalesced(spans, n - 1, block_size, merge_gap, source_len);
        let before = coalesced(spans, n - 1, block_size, merge_gap);
        let joined = coalesced(spans, n, block_size, merge_gap);
        let span = spans[n - 1];
        assert forall|m: int, p: int|
            0 <= m < joined.len() && (#[trigger] joined[m]).0 <= p
                < joined[m].1 implies #[trigger] is_needed(spans, n, merge_gap, p) by {
            if m < before.len() && before[m].0 <= p < before[m].1 {
                assert(is_needed(spans, n - 1, merge_gap, p));
                lemma_needed_more(spans, n - 1, n, merge_gap, p);
            } else if span.0 <= p < span.1 {
                assert(spans[n - 1].0 <= p < spans[n - 1].1);
            } else {
                let current = before.last();
                let a = choose|i: int| 0 <= i < n - 1 && (#[trigger] spans[i]).1 == current.1;
                assert(spans[a].1 <= p < spans[n - 1].0);
            }
        }
        if before.len() > 0 && joined.last().1 == before.last().1 {
            let a = choose|i: int| 0 <= i < n - 1 && (#[trigger] spans[i]).1 == before.last().1;
            assert(spans[a].1 == joined.last().1);
        } else {
            assert(spans[n - 1].1 == joined.last().1);
        }
    }
}

proof fn lemma_cut_all_inside(
    spans: Seq<(u64, u64)>,
    n: int,
    block_size: u64,
    i: int,
    position: int,
)
    requires
        0 <= n <= spans.len(),
        block_size > 0,
        0 <= i < cut_all(spans, n, block_size).len(),
        cut_all(spans, n, block_size)[i].contains(position),
    ensures
        exists|m: int| 0 <= m < n && (#[trigger] spans[m]).0 <= position < spans[m].1,
    decreases n,
{
    if n > 0 {
        let before = cut_all(spans, n - 1, block_size);
        let last = cut(spans[n - 1].0, spans[n - 1].1, block_size);
        if i < before.len() {
            assert(cut_all(spans, n, block_size)[i] == before[i]);
            lemma_cut_all_inside(spans, n - 1, block_size, i, position);
        } else {
            assert(cut_all(spans, n, block_size)[i] == last[i - before.len()]);
            lemma_cut(spans[n - 1].0, spans[n - 1].1, block_size);
            assert(spans[n - 1].0 <= position < spans[n - 1].1);
        }
    }
}

proof fn lemma_spans_are_entries(
    entries: Seq<ManifestEntryView>,
    n: int,
    source_len: u64,
    i: int,
)
    requires
        0 <= n <= entries.len(),
        0 <= i < source_spans(entries, n, source_len).len(),
    ensures
        exists|k: int|
            0 <= k < n && clip_span(#[trigger] entries[k], source_len) == source_spans(
                entries,
                n,
                source_len,
            )[i],
    decreases n,
{
    if n > 0 {
        let before = source_spans(entries, n - 1, source_len);
        if i < before.len() {
            lemma_spans_are_entries(entries, n - 1, source_len, i);
        } else {
            assert(clip_span(entries[n - 1], source_len) == source_spans(
                entries,
                n,
                source_len,
            )[i]);
        }
    }
}

/// Little is read that no entry needs: every byte of a planned block lies in the
/// source span of some entry, or between the spans of two entries that are no
/// further apart than allowed.
pub proof fn law_planned_blocks_hold_little_else(
    entries: Seq<ManifestEntryView>,
    source_len: u64,
    block_size: u64,
    merge_gap: u64,
    position: int,
)
    requires
        block_size > 0,
        covers(
            planned_blocks(
                source_spans(entries, entries.len() as int, source_len),
                block_size,
                merge_gap,
            ),
            position,
        ),
    ensures
        ({
            ||| exists|k: int|
                0 <= k < entries.len() && (#[trigger] entries[k]).source_span_start <= position
                    < entries[k].source_span_end
            ||| exists|a: int, b: int|
                0 <= a < entries.len() && 0 <= b < entries.len() && (
                #[trigger] entries[a]).source_span_end <= position < (
                #[trigger] entries[b]).source_span_start && entries[b].source_span_start
                    - entries[a].source_span_end <= merge_gap
        }),
{
    let n = entries.len() as int;
    let spans = source_spans(entries, n, source_len);
    let sorted = spans.sort_by(span_order());
    lemma_sort_spans(spans);
    lemma_spans_nonempty(entries, n, source_len);
    assert forall|i: int| 0 <= i < sorted.len() implies (#[trigger] sorted[i]).0 < sorted[i].1
        && sorted[i].1 <= source_len by {
        lemma_member_of_permutation(sorted, spans, i);
    }
    let m = sorted.len() as int;
    let joined = coalesced(sorted, m, block_size, merge_gap);
    let blocks = cut_all(joined, joined.len() as int, block_size);
    let i = choose|i: int| 0 <= i < blocks.len() && (#[trigger] blocks[i]).contains(position);
    lemma_cut_all_inside(joined, joined.len() as int, block_size, i, position);
    let at = choose|at: int|
        0 <= at < joined.len() && (#[trigger] joined[at]).0 <= position < joined[at].1;
    lemma_coalesced_is_needed(sorted, m, block_size, merge_gap, source_len);
    assert(joined[at].0 <= position < joined[at].1);
    assert(is_needed(sorted, m, merge_gap, position));
    if exists|k: int| 0 <= k < m && (#[trigger] sorted[k]).0 <= position < sorted[k].1 {
        let k = choose|k: int| 0 <= k < m && (#[trigger] sorted[k]).0 <= position < sorted[k].1;
        let e = lemma_span_entry(entries, source_len, sorted, k);
        assert(entries[e].source_span_start <= position < entries[e].source_span_end);
    } else {
        let (a, b) = choose|a: int, b: int|
            0 <= a < m && 0 <= b < m && (#[trigger] sorted[a]).1 <= position < (
            #[trigger] sorted[b]).0 && sorted[b].0 - sorted[a].1 <= merge_gap;
        let x = lemma_span_entry(entries, source_len, sorted, a);
        let y = lemma_span_entry(entries, source_len, sorted, b);
        assert(entries[x].source_span_end <= position < entries[y].source_span_start);
    }
}

proof fn lemma_span_entry(
    entries: Seq<ManifestEntryView>,
    source_len: u64,
    sorted: Seq<(u64, u64)>,
    k: int,
) -> (e: int)
    requires
        0 <= k < sorted.len(),
        sorted.to_multiset() == source_spans(
            entries,
            entries.len() as int,
            source_len,
        ).to_multiset(),
    ensures
        0 <= e < entries.len(),
        clip_span(entries[e], source_len) == sorted[k],
        sorted[k].0 < sorted[k].1 <= source_len,
{
    let n = entries.len() as int;
    let spans = source_spans(entries, n, source_len);
    lemma_member_of_permutation(sorted, spans, k);
    let i = choose|i: int| 0 <= i < spans.len() && spans[i] == sorted[k];
    lemma_spans_are_entries(entries, n, source_len, i);
    lemma_spans_nonempty(entries, n, source_len);
    choose|e: int| 0 <= e < n && clip_span(#[trigger] entries[e], source_len) == spans[i]
}

proof fn lemma_overlapping_has(
    blocks: Seq<SourceRange>,
    n: int,
    start: u64,
    end_exclusive: u64,
    index: usize,
)
    requires
        0 <= n <= blocks.len() <= usize::MAX,
    ensures
        overlapping(blocks, n, start, end_exclusive).contains(index) <==> index < n
            && blocks[index as int].start < end_exclusive && start
            < blocks[index as int].end_exclusive_spec(),
    decreases n,
{
    if n > 0 {
        lemma_overlapping_has(blocks, n - 1, start, end_exclusive, index);
        let before = overlapping(blocks, n - 1, start, end_exclusive);
        let now = overlapping(blocks, n, start, end_exclusive);
        if now.len() > before.len() {
            assert(now[before.len() as int] == n - 1);
        }
        if before.contains(index) {
            let k = before.index_of(index);
            assert(now[k] == index);
        }
        if now.contains(index) && index != n - 1 {
            let k = now.index_of(index);
            assert(before[k] == index);
        }
    }
}

/// The blocks of a span are exactly those that hold one of its bytes.
pub proof fn law_span_has_the_blocks_that_hold_it(
    blocks: Seq<SourceRange>,
    start: u64,
    end_exclusive: u64,
    index: usize,
)
    requires
        blocks.len() <= usize::MAX,
        forall|i: int|
            0 <= i < blocks.len() ==> (#[trigger] blocks[i]).start <= blocks[i].end < u64::MAX,
    ensures
        span_blocks(blocks, start, end_exclusive).contains(index) <==> index < blocks.len()
            && exists|position: int|
            start <= position < end_exclusive && blocks[index as int].start <= position
                && #[trigger] blocks[index as int].contains(position),
{
    lemma_overlapping_has(blocks, blocks.len() as int, start, end_exclusive, index);
    if index < blocks.len() {
        let block = blocks[index as int];
        if start < end_exclusive && block.start < end_exclusive && start <= block.end {
            let p = if start < block.start {
                block.start as int
            } else {
                start as int
            };
            assert(block.contains(p));
        }
    }
}

/// How many of the first `n` entries have a byte in a block.
pub open spec fn readers_of(block: SourceRange, entries: Seq<ManifestEntryView>, n: int) -> int
    decreases n,
{
    if n <= 0 {
        0
    } else if block.start < entries[n - 1].source_span_end && entries[n - 1].source_span_start
        <= block.end {
        readers_of(block, entries, n - 1) + 1
    } else {
        readers_of(block, entries, n - 1)
    }
}

/// A block is kept for exactly as many readers as entries have bytes in it.
pub proof fn law_claims_count_the_readers(
    blocks: Seq<SourceRange>,
    entries: Seq<ManifestEntryView>,
    n: int,
    i: int,
)
    requires
        0 <= n <= entries.len() <= usize::MAX,
        0 <= i < blocks.len(),
        blocks[i].end < u64::MAX,
    ensures
        claim_counts(blocks, entries, n).len() == blocks.len(),
        claim_counts(blocks, entries, n)[i] == readers_of(blocks[i], entries, n),
        readers_of(blocks[i], entries, n) <= n,
    decreases n,
{
    if n > 0 {
        law_claims_count_the_readers(blocks, entries, n - 1, i);
    }
}

/// A block that is to be read is fetched as soon as it fits: within the capacity, or
/// alone in the window.
pub proof fn law_block_that_fits_is_fetched(store: StoreView, index: int)
    requires
        store.wf(),
        0 <= index < store.slots.len(),
        store.slots[index].status is Pending,
        store.slots[index].remaining_claims > 0,
    ensures
        reserve_outcome(store, index) == ReserveFetchResult::Reserved(store.blocks[index]) <==> {
            ||| store.resident_bytes + store.blocks[index].len_spec() <= store.capacity
            ||| store.resident_bytes == 0
        },
        reserve_outcome(store, index) is Reserved || reserve_outcome(store, index)
            is WaitForCapacity,
        reserve_outcome(store, index) is Reserved ==> reserve_step(
            store,
            index,
        ).slots[index].status is Fetching,
{
}

/// What was fetched for a block that is still to be read is kept for its readers,
/// and what could not be fetched fails them.
pub proof fn law_fetched_bytes_are_kept_for_readers(
    store: StoreView,
    index: int,
    fetch: FetchView,
)
    requires
        store.wf(),
        0 <= index < store.slots.len(),
    ensures
        ({
            let after = finish_step(store, index, fetch);
            &&& fetch is Fetched && (store.slots[index].remaining_claims > 0
                || store.slots[index].live_claims > 0) ==> after.slots[index].status
                == StatusView::Ready(fetch->Fetched_0)
            &&& fetch is Failed ==> after.slots[index].status == StatusView::Failed(
                fetch->Failed_0,
            )
            &&& after.slots[index].remaining_claims == store.slots[index].remaining_claims
            &&& after.slots[index].live_claims == store.slots[index].live_claims
            &&& forall|i: int|
                0 <= i < store.slots.len() && i != index ==> after.slots[i]
                    == #[trigger] store.slots[i]
        }),
{
}

/// A reader that leaves a block takes its own claim back, and no other.
pub proof fn law_readers_take_back_one_claim(store: StoreView, index: int)
    requires
        store.wf(),
        0 <= index < store.slots.len(),
        store.slots[index].live_claims > 0,
        store.slots[index].remaining_claims > 0,
    ensures
        ({
            let after = release_step(store, index);
            &&& after.slots[index].live_claims == store.slots[index].live_claims - 1
            &&& after.slots[index].remaining_claims == store.slots[index].remaining_claims - 1
            &&& store.slots[index].status is Ready ==> (after.slots[index].status is Released
                <==> store.slots[index].live_claims == 1 && store.slots[index].remaining_claims
                == 1)
            &&& forall|i: int|
                0 <= i < store.slots.len() && i != index ==> after.slots[i]
                    == #[trigger] store.slots[i]
        }),
{
}

proof fn lemma_first_block(blocks: Seq<SourceRange>, from: int, index: int, position: u64)
    requires
        0 <= from <= index < blocks.len() <= usize::MAX,
        blocks[index].contains(position as int),
        forall|i: int| from <= i < index ==> !(#[trigger] blocks[i]).contains(position as int),
    ensures
        block_at(blocks, from, position) == Some(index as usize),
    decreases index - from,
{
    if from < index {
        assert(!blocks[from].contains(position as int));
        lemma_first_block(blocks, from + 1, index, position);
    }
}

/// A reader gets the bytes of the block at its position: all that the block has from
/// there on within the span, once they are there.
pub proof fn law_reader_gets_the_bytes_of_its_block(
    store: StoreView,
    index: int,
    position: u64,
    end_exclusive: u64,
)
    requires
        store.wf(),
        0 <= index < store.blocks.len() <= usize::MAX,
        store.blocks[index].start <= position <= store.blocks[index].end < u64::MAX,
        forall|i: int|
            0 <= i < index ==> !((#[trigger] store.blocks[i]).start <= position
                <= store.blocks[i].end),
        position < end_exclusive,
    ensures
        match (store.slots[index].status, slice_outcome(store, position, end_exclusive)) {
            (StatusView::Ready(held), SliceView::Ready { start, bytes }) => {
                let block = store.blocks[index];
                &&& start == position
                &&& bytes.len() == if block.end + 1 < end_exclusive {
                    block.end + 1 - position
                } else {
                    end_exclusive - position
                }
                &&& forall|k: int|
                    0 <= k < bytes.len() ==> #[trigger] bytes[k] == held[position - block.start
                        + k]
            },
            (StatusView::Pending, SliceView::Wait(at)) => at == index,
            (StatusView::Fetching, SliceView::Wait(at)) => at == index,
            (StatusView::Failed(message), SliceView::Failed(error)) => error.message == message,
            (StatusView::Released, SliceView::Failed(_)) => true,
            _ => false,
        },
{
    assert forall|i: int| 0 <= i < index implies !(#[trigger] store.blocks[i]).contains(
        position as int,
    ) by {}
    lemma_first_block(store.blocks, 0, index, position);
    if let StatusView::Ready(held) = store.slots[index].status {
        assert(held.len() == store.blocks[index].len());
    }
}

/// A range can be fetched exactly where it holds a byte and lies in the source.
pub proof fn law_ranges_lie_in_the_source(start: u64, end: u64, source_len: u64)
    ensures
        range_problem(start, end, source_len) is None <==> start <= end < source_len,
{
}

/// A reader leaves exactly the blocks that lie wholly behind its position, in their
/// order.
pub proof fn law_reader_leaves_what_is_behind_it(
    ranges: Seq<SourceRange>,
    blocks: Seq<usize>,
    from: int,
    position: u64,
)
    requires
        0 <= from <= blocks.len(),
    ensures
        ({
            let next = needed_from(ranges, blocks, from, position);
            &&& from <= next <= blocks.len()
            &&& forall|k: int|
                from <= k < next ==> ranges[(#[trigger] blocks[k]) as int].end < position
            &&& next < blocks.len() ==> ranges[blocks[next] as int].end >= position
        }),
    decreases blocks.len() - from,
{
    if from < blocks.len() && ranges[blocks[from] as int].end < position {
        law_reader_leaves_what_is_behind_it(ranges, blocks, from + 1, position);
    }
}

/// Blocks are left one after the other.
pub proof fn law_blocks_are_left_one_by_one(
    store: StoreView,
    blocks: Seq<usize>,
    from: int,
    to: int,
)
    requires
        0 <= from <= to < blocks.len(),
    ensures
        leave_blocks(store, blocks, from, from) == store,
        leave_blocks(store, blocks, from, to + 1) == release_step(
            leave_blocks(store, blocks, from, to),
            blocks[to] as int,
        ),
{
}

/// A seek leads to a place counted from the start, the end or the position.
pub proof fn law_seeks_count_from_their_place(
    reader: S3RangeReader,
    start: u64,
    offset: i64,
)
    ensures
        seek_position(reader, SeekTarget::Start(start)) == start,
        seek_position(reader, SeekTarget::End(offset)) == reader.source_len + offset,
        seek_position(reader, SeekTarget::Current(offset)) == reader.position + offset,
{
}

/// The amplification is the fetched bytes over the distinct ones among them.
pub proof fn law_amplification_is_fetched_over_distinct(fetched: u64, unique: u64)
    ensures
        unique > 0 ==> amplification(fetched, unique).numerator == fetched && amplification(
            fetched,
            unique,
        ).denominator == unique,
        unique == 0 ==> amplification(fetched, unique).numerator == 0,
        amplification(fetched, unique).denominator > 0,
{
}

/// A reader may start on a block exactly where it is planned for and its bytes are
/// not gone.
pub proof fn law_readers_start_where_they_are_planned(store: StoreView, index: usize)
    ensures
        admission_problem(store, index) is None <==> index < store.slots.len()
            && store.slots[index as int].remaining_claims > 0 && !(store.slots[index as int].status
            is Released),
{
}

/// How often an index is among the first `n`.
pub open spec fn occurrences(indices: Seq<usize>, index: int, n: int) -> int
    decreases n,
{
    if n <= 0 {
        0
    } else if indices[n - 1] == index {
        occurrences(indices, index, n - 1) + 1
    } else {
        occurrences(indices, index, n - 1)
    }
}

/// Readers that start, are planned or read again are counted at each of their blocks,
/// and nowhere else. What is to be read again is fetched again if its bytes are gone.
pub proof fn law_readers_are_counted_at_their_blocks(
    store: StoreView,
    indices: Seq<usize>,
    n: int,
    i: int,
)
    requires
        store.wf(),
        indices_known(store, indices),
        0 <= n <= indices.len(),
        0 <= i < store.slots.len(),
        store.slots[i].live_claims + n <= usize::MAX,
        store.slots[i].remaining_claims + n <= usize::MAX,
    ensures
        0 <= occurrences(indices, i, n) <= n,
        admit_step(store, indices, n).slots.len() == store.slots.len(),
        admit_step(store, indices, n).slots[i] == (SlotView {
            live_claims: (store.slots[i].live_claims + occurrences(indices, i, n)) as usize,
            ..store.slots[i]
        }),
        claim_step(store, indices, n).slots.len() == store.slots.len(),
        claim_step(store, indices, n).slots[i] == (SlotView {
            remaining_claims: (store.slots[i].remaining_claims + occurrences(
                indices,
                i,
                n,
            )) as usize,
            ..store.slots[i]
        }),
        replay_step(store, indices, n).slots.len() == store.slots.len(),
        ({
            let after = replay_step(store, indices, n).slots[i];
            &&& after.remaining_claims == store.slots[i].remaining_claims + occurrences(
                indices,
                i,
                n,
            )
            &&& after.live_claims == store.slots[i].live_claims
            &&& occurrences(indices, i, n) == 0 ==> after == store.slots[i]
            &&& occurrences(indices, i, n) > 0 ==> !(after.status is Released) && !(after.status
                is Failed)
            &&& store.slots[i].status is Ready || store.slots[i].status is Fetching
                || store.slots[i].status is Pending ==> after.status == store.slots[i].status
        }),
    decreases n,
{
    if n > 0 {
        law_readers_are_counted_at_their_blocks(store, indices, n - 1, i);
        assert(indices[n - 1] < store.slots.len());
    }
}

/// A new window has all its blocks to fetch, for the readers that are planned.
pub proof fn law_new_window_has_everything_to_fetch(
    blocks: Seq<SourceRange>,
    claims: Seq<usize>,
    capacity: usize,
    i: int,
)
    requires
        0 <= i < blocks.len(),
    ensures
        ({
            let store = fresh_store(blocks, claims, capacity);
            &&& store.blocks == blocks
            &&& store.capacity == capacity
            &&& store.resident_bytes == 0
            &&& store.slots.len() == blocks.len()
            &&& store.slots[i].status is Pending
            &&& store.slots[i].remaining_claims == claims[i]
            &&& store.slots[i].live_claims == 0
        }),
{
}

/// A block is counted as hit or waited for by what its reader gets.
pub proof fn law_reads_are_counted_by_what_they_get(
    counters: SourceCounters,
    outcome: SliceView,
)
    requires
        counters.block_hits < u64::MAX,
        counters.block_waits < u64::MAX,
    ensures
        slice_counters(counters, outcome).block_hits == counters.block_hits + if outcome is Ready {
            1int
        } else {
            0
        },
        slice_counters(counters, outcome).block_waits == counters.block_waits + if outcome is Wait {
            1int
        } else {
            0
        },
{
}

/// Leaving blocks gives room back exactly where the window holds less afterwards.
pub proof fn law_room_is_given_back_where_less_is_held(
    store: StoreView,
    blocks: Seq<usize>,
    from: int,
    to: int,
)
    requires
        accounted(store),
        indices_known(store, blocks),
        0 <= from <= to <= blocks.len(),
    ensures
        accounted(leave_blocks(store, blocks, from, to)),
        leave_blocks(store, blocks, from, to).resident_bytes <= store.resident_bytes,
        leave_frees(store, blocks, from, to) <==> leave_blocks(
            store,
            blocks,
            from,
            to,
        ).resident_bytes < store.resident_bytes,
    decreases to - from,
{
    if from < to {
        law_room_is_given_back_where_less_is_held(store, blocks, from, to - 1);
        let before = leave_blocks(store, blocks, from, to - 1);
        let index = blocks[to - 1] as int;
        law_release_keeps_the_account(before, index);
        let after = release_step(before, index);
        assert(after.resident_bytes <= before.resident_bytes);
    }
}

/// A range is asked for at most three times, each time the whole of it, after pauses of
/// 100 and 200 milliseconds.
pub proof fn law_ranges_are_asked_for_three_times(fetch: RangeFetch)
    requires
        fetch.wf(),
    ensures
        1 <= fetch.attempt <= 3,
        match after_failure(fetch) {
            RetryDecision::Retry { delay_ms, next } => {
                &&& fetch.attempt < 3
                &&& next.start == fetch.start
                &&& next.end == fetch.end
                &&& next.attempt == fetch.attempt + 1
                &&& delay_ms == 100 * fetch.attempt
            },
            RetryDecision::GiveUp => fetch.attempt == 3,
        },
{
}

} // verus!

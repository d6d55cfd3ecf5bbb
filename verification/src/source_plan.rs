//! Which byte ranges of the source ZIP are fetched.
use vstd::prelude::*;
use vstd::relations::{sorted_by, total_ordering};

use crate::spans::{sort_spans, span_leq, spans_sorted};
use crate::zip_manifest::{manifest_views, ManifestEntry, ManifestEntryView};

verus! {

/// A byte range of the source, both ends inclusive.
#[derive(Clone, Copy, Debug, PartialEq, Eq, Structural)]
pub struct SourceRange {
    pub start: u64,
    pub end: u64,
}

/// The number of bytes from `start` to `end` inclusive, within `u64`.
pub open spec fn range_len(start: u64, end: u64) -> u64 {
    if end < start {
        1
    } else if end - start == u64::MAX {
        u64::MAX
    } else {
        (end - start + 1) as u64
    }
}

/// The value after `value`, within `u64`.
pub open spec fn next_u64(value: u64) -> u64 {
    if value == u64::MAX {
        u64::MAX
    } else {
        (value + 1) as u64
    }
}

impl SourceRange {
    pub open spec fn len_spec(self) -> u64 {
        range_len(self.start, self.end)
    }

    /// The number of bytes in the range.
    #[verifier::when_used_as_spec(len_spec)]
    pub fn len(self) -> (len: u64)
        ensures
            len == self.len_spec(),
    {
        self.end.saturating_sub(self.start).saturating_add(1)
    }

    pub open spec fn end_exclusive_spec(self) -> u64 {
        next_u64(self.end)
    }

    /// The position after the range.
    #[verifier::when_used_as_spec(end_exclusive_spec)]
    pub fn end_exclusive(self) -> (end: u64)
        ensures
            end == self.end_exclusive_spec(),
    {
        self.end.saturating_add(1)
    }

    /// Whether the range holds a position.
    pub open spec fn contains(self, position: int) -> bool {
        self.start <= position <= self.end
    }
}

/// The blocks to fetch, in source order.
#[derive(Debug, PartialEq, Eq)]
pub struct SourcePlan {
    /// Number of entries that have bytes in the source.
    pub planned_entries: usize,
    pub blocks: Vec<SourceRange>,
}

impl Default for SourcePlan {
    fn default() -> (plan: SourcePlan)
        ensures
            plan.planned_entries == 0,
            plan.blocks@ == Seq::<SourceRange>::empty(),
    {
        SourcePlan { planned_entries: 0, blocks: Vec::new() }
    }
}

pub open spec fn min_u64(a: u64, b: u64) -> u64 {
    if a < b {
        a
    } else {
        b
    }
}

/// The source span of an entry, within the source.
pub open spec fn clip_span(entry: ManifestEntryView, source_len: u64) -> (u64, u64) {
    (min_u64(entry.source_span_start, source_len), min_u64(entry.source_span_end, source_len))
}

/// The spans of the first `n` entries that hold bytes of the source.
pub open spec fn source_spans(entries: Seq<ManifestEntryView>, n: int, source_len: u64) -> Seq<
    (u64, u64),
>
    decreases n,
{
    if n <= 0 {
        Seq::empty()
    } else {
        let before = source_spans(entries, n - 1, source_len);
        let span = clip_span(entries[n - 1], source_len);
        if span.0 < span.1 {
            before.push(span)
        } else {
            before
        }
    }
}

pub open spec fn span_order() -> spec_fn((u64, u64), (u64, u64)) -> bool {
    |a: (u64, u64), b: (u64, u64)| span_leq(a, b)
}

/// Whether a span may be read together with the one before it: the gap is
/// small and both fit in one block.
pub open spec fn joins(
    current: (u64, u64),
    span: (u64, u64),
    block_size: u64,
    merge_gap: u64,
) -> bool {
    let end = if current.1 > span.1 {
        current.1
    } else {
        span.1
    };
    span.0 - current.1 <= merge_gap && end - current.0 <= block_size
}

/// The first `n` spans with neighbours joined.
pub open spec fn coalesced(
    spans: Seq<(u64, u64)>,
    n: int,
    block_size: u64,
    merge_gap: u64,
) -> Seq<(u64, u64)>
    decreases n,
{
    if n <= 0 {
        Seq::empty()
    } else {
        let before = coalesced(spans, n - 1, block_size, merge_gap);
        let span = spans[n - 1];
        if before.len() > 0 && joins(before.last(), span, block_size, merge_gap) {
            let current = before.last();
            before.update(
                before.len() - 1,
                (
                    current.0,
                    if current.1 > span.1 {
                        current.1
                    } else {
                        span.1
                    },
                ),
            )
        } else {
            before.push(span)
        }
    }
}

/// The positions `start..end` cut into blocks.
pub open spec fn cut(start: u64, end: u64, block_size: u64) -> Seq<SourceRange>
    decreases end - start,
{
    if start >= end || block_size == 0 {
        Seq::empty()
    } else if end - start <= block_size {
        seq![SourceRange { start, end: (end - 1) as u64 }]
    } else {
        let stop = (start + block_size) as u64;
        seq![SourceRange { start, end: (stop - 1) as u64 }] + cut(stop, end, block_size)
    }
}

/// The first `n` spans cut into blocks.
pub open spec fn cut_all(spans: Seq<(u64, u64)>, n: int, block_size: u64) -> Seq<SourceRange>
    decreases n,
{
    if n <= 0 {
        Seq::empty()
    } else {
        cut_all(spans, n - 1, block_size) + cut(spans[n - 1].0, spans[n - 1].1, block_size)
    }
}

pub open spec fn block_size_of(block_size: usize) -> u64 {
    if block_size == 0 {
        1
    } else {
        block_size as u64
    }
}

/// The blocks planned for spans: sorted, joined and cut.
pub open spec fn planned_blocks(
    spans: Seq<(u64, u64)>,
    block_size: u64,
    merge_gap: u64,
) -> Seq<SourceRange> {
    let sorted = spans.sort_by(span_order());
    let joined = coalesced(sorted, sorted.len() as int, block_size, merge_gap);
    cut_all(joined, joined.len() as int, block_size)
}

proof fn lemma_span_order_is_total()
    ensures
        total_ordering(span_order()),
{
    let order = span_order();
    assert(forall|x: (u64, u64)| #[trigger] order(x, x));
    assert(forall|x: (u64, u64), y: (u64, u64)| #[trigger] order(x, y) && #[trigger] order(y, x) ==> x == y);
    assert(forall|x: (u64, u64), y: (u64, u64), z: (u64, u64)| #[trigger] order(x, y) && #[trigger] order(y, z) ==> order(x, z));
    assert(forall|x: (u64, u64), y: (u64, u64)| #[trigger] order(x, y) || #[trigger] order(y, x));
}

proof fn lemma_sorted_spans(spans: Seq<(u64, u64)>, sorted: Seq<(u64, u64)>)
    requires
        spans_sorted(sorted),
        sorted.to_multiset() == spans.to_multiset(),
    ensures
        sorted == spans.sort_by(span_order()),
{
    lemma_span_order_is_total();
    spans.lemma_sort_by_ensures(span_order());
    assert(sorted_by(sorted, span_order()));
    vstd::seq_lib::lemma_sorted_unique(sorted, spans.sort_by(span_order()), span_order());
}

/// Plans the blocks of the source that hold the bytes of entries.
///
/// Spans that lie close together are read as one block, and no block is
/// larger than `block_size`.
pub fn plan_source_blocks(
    entries: &Vec<ManifestEntry>,
    source_len: u64,
    block_size: usize,
    merge_gap: usize,
) -> (plan: SourcePlan)
    ensures
        plan.planned_entries == source_spans(
            manifest_views(entries@),
            entries@.len() as int,
            source_len,
        ).len(),
        plan.blocks@ == planned_blocks(
            source_spans(manifest_views(entries@), entries@.len() as int, source_len),
            block_size_of(block_size),
            merge_gap as u64,
        ),
{
    let block_bytes: u64 = if block_size == 0 {
        1
    } else {
        block_size as u64
    };
    let gap_bytes: u64 = merge_gap as u64;
    let ghost views = manifest_views(entries@);
    let mut spans: Vec<(u64, u64)> = Vec::new();
    let mut i: usize = 0;
    while i < entries.len()
        invariant
            i <= entries.len(),
            views == manifest_views(entries@),
            spans@ == source_spans(views, i as int, source_len),
        decreases entries.len() - i,
    {
        let entry = &entries[i];
        assert(views[i as int] == entry@);
        let start: u64 = if entry.source_span_start < source_len {
            entry.source_span_start
        } else {
            source_len
        };
        let end: u64 = if entry.source_span_end < source_len {
            entry.source_span_end
        } else {
            source_len
        };
        if start < end {
            spans.push((start, end));
        }
        i += 1;
    }
    let ghost unsorted = spans@;
    sort_spans(&mut spans);
    proof {
        lemma_sorted_spans(unsorted, spans@);
        vstd::seq_lib::to_multiset_len(unsorted);
        vstd::seq_lib::to_multiset_len(spans@);
        lemma_spans_nonempty(views, views.len() as int, source_len);
        assert forall|k: int| 0 <= k < spans.len() implies (#[trigger] spans@[k]).0 < spans@[k].1 by {
            lemma_member_of_permutation(spans@, unsorted, k);
        }
    }
    let mut joined: Vec<(u64, u64)> = Vec::new();
    let mut k: usize = 0;
    while k < spans.len()
        invariant
            k <= spans.len(),
            spans_sorted(spans@),
            forall|m: int| 0 <= m < spans.len() ==> (#[trigger] spans@[m]).0 < spans@[m].1,
            joined@ == coalesced(spans@, k as int, block_bytes, gap_bytes),
            forall|m: int| 0 <= m < joined.len() ==> (#[trigger] joined@[m]).0 < joined@[m].1,
            forall|m: int|
                0 <= m < joined.len() ==> k > 0 && (#[trigger] joined@[m]).0 <= spans@[k - 1].0,
        decreases spans.len() - k,
    {
        let (start, end) = spans[k];
        assert(spans@[k as int].0 < spans@[k as int].1);
        proof {
            if k > 0 {
                assert(span_leq(spans@[k - 1], spans@[k as int]));
            }
        }
        if joined.len() == 0 {
            joined.push((start, end));
        } else {
            let last: usize = joined.len() - 1;
            let (current_start, current_end) = joined[last];
            assert(joined@[last as int].0 <= spans@[k - 1].0);
            let gap: u64 = start.saturating_sub(current_end);
            let proposed_end: u64 = if current_end > end {
                current_end
            } else {
                end
            };
            if gap <= gap_bytes && proposed_end.saturating_sub(current_start) <= block_bytes {
                joined[last] = (current_start, proposed_end);
            } else {
                joined.push((start, end));
            }
        }
        k += 1;
    }
    let mut blocks: Vec<SourceRange> = Vec::new();
    let mut m: usize = 0;
    while m < joined.len()
        invariant
            m <= joined.len(),
            block_bytes > 0,
            forall|j: int| 0 <= j < joined.len() ==> (#[trigger] joined@[j]).0 < joined@[j].1,
            blocks@ == cut_all(joined@, m as int, block_bytes),
        decreases joined.len() - m,
    {
        let (start, end) = joined[m];
        let mut block_start: u64 = start;
        let ghost before = blocks@;
        assert(blocks@ + cut(start, end, block_bytes) =~= before + cut(start, end, block_bytes));
        while block_start < end
            invariant
                start <= block_start <= end,
                block_bytes > 0,
                blocks@ + cut(block_start, end, block_bytes) == before + cut(
                    start,
                    end,
                    block_bytes,
                ),
            decreases end - block_start,
        {
            let step: u64 = block_start.saturating_add(block_bytes);
            let stop: u64 = if step < end {
                step
            } else {
                end
            };
            let block = SourceRange { start: block_start, end: stop - 1 };
            let ghost so_far = blocks@;
            blocks.push(block);
            proof {
                assert(cut(end, end, block_bytes) =~= Seq::<SourceRange>::empty());
                assert(cut(block_start, end, block_bytes) =~= seq![block] + cut(
                    stop,
                    end,
                    block_bytes,
                ));
                assert(blocks@ + cut(stop, end, block_bytes) =~= so_far + (seq![block] + cut(
                    stop,
                    end,
                    block_bytes,
                )));
            }
            block_start = stop;
        }
        assert(blocks@ + cut(end, end, block_bytes) =~= blocks@);
        m += 1;
    }
    SourcePlan { planned_entries: spans.len(), blocks }
}

pub(crate) proof fn lemma_spans_nonempty(entries: Seq<ManifestEntryView>, n: int, source_len: u64)
    ensures
        forall|i: int|
            0 <= i < source_spans(entries, n, source_len).len() ==> (#[trigger] source_spans(
                entries,
                n,
                source_len,
            )[i]).0 < source_spans(entries, n, source_len)[i].1 && source_spans(
                entries,
                n,
                source_len,
            )[i].1 <= source_len,
    decreases n,
{
    if n > 0 {
        lemma_spans_nonempty(entries, n - 1, source_len);
        let before = source_spans(entries, n - 1, source_len);
        let now = source_spans(entries, n, source_len);
        assert forall|i: int| 0 <= i < now.len() implies (#[trigger] now[i]).0 < now[i].1
            && now[i].1 <= source_len by {
            if i < before.len() {
                assert(now[i] == before[i]);
            }
        }
    }
}

pub(crate) proof fn lemma_member_of_permutation(a: Seq<(u64, u64)>, b: Seq<(u64, u64)>, k: int)
    requires
        a.to_multiset() == b.to_multiset(),
        0 <= k < a.len(),
    ensures
        b.contains(a[k]),
{
    broadcast use vstd::seq_lib::group_to_multiset_ensures;

    assert(a.contains(a[k]));
    assert(b.to_multiset().count(a[k]) > 0);
}

/// Whether one span lies within another.
pub open spec fn within(inner: (u64, u64), outer: (u64, u64)) -> bool {
    outer.0 <= inner.0 && inner.1 <= outer.1
}

pub open spec fn spans_fit(spans: Seq<(u64, u64)>, source_len: u64) -> bool {
    forall|i: int|
        0 <= i < spans.len() ==> (#[trigger] spans[i]).0 < spans[i].1 && spans[i].1 <= source_len
}

pub(crate) proof fn lemma_coalesced(
    spans: Seq<(u64, u64)>,
    n: int,
    block_size: u64,
    merge_gap: u64,
    source_len: u64,
)
    requires
        0 <= n <= spans.len(),
        spans_sorted(spans),
        spans_fit(spans, source_len),
    ensures
        spans_fit(coalesced(spans, n, block_size, merge_gap), source_len),
        n > 0 ==> coalesced(spans, n, block_size, merge_gap).len() > 0 && coalesced(
            spans,
            n,
            block_size,
            merge_gap,
        ).last().0 <= spans[n - 1].0,
        forall|i: int|
            #![trigger spans[i]]
            0 <= i < n ==> exists|m: int|
                0 <= m < coalesced(spans, n, block_size, merge_gap).len() && within(
                    spans[i],
                    #[trigger] coalesced(spans, n, block_size, merge_gap)[m],
                ),
    decreases n,
{
    if n > 0 {
        lemma_coalesced(spans, n - 1, block_size, merge_gap, source_len);
        let before = coalesced(spans, n - 1, block_size, merge_gap);
        let now = coalesced(spans, n, block_size, merge_gap);
        let span = spans[n - 1];
        if n > 1 {
            assert(span_leq(spans[n - 2], spans[n - 1]));
        }
        assert forall|i: int| #![trigger spans[i]] 0 <= i < n implies exists|m: int|
            0 <= m < now.len() && within(spans[i], #[trigger] now[m]) by {
            if i == n - 1 {
                assert(within(span, now[now.len() - 1]));
            } else {
                let m = choose|m: int|
                    0 <= m < before.len() && within(spans[i], #[trigger] before[m]);
                assert(within(before[m], now[m]));
                assert(within(spans[i], now[m]));
            }
        }
        assert forall|i: int| 0 <= i < now.len() implies (#[trigger] now[i]).0 < now[i].1
            && now[i].1 <= source_len by {
            if i < before.len() {
                assert(before[i].0 < before[i].1);
            }
        }
    }
}

/// Whether a block lies in `start..end` and is not larger than `block_size`.
pub open spec fn block_fits(block: SourceRange, start: int, end: int, block_size: int) -> bool {
    start <= block.start <= block.end < end && block.end - block.start < block_size
}

/// Whether some block holds the position.
pub open spec fn covers(blocks: Seq<SourceRange>, position: int) -> bool {
    exists|i: int| 0 <= i < blocks.len() && (#[trigger] blocks[i]).contains(position)
}

/// Whether blocks follow each other without overlap.
pub open spec fn blocks_ascend(blocks: Seq<SourceRange>) -> bool {
    forall|i: int, j: int|
        0 <= i < j < blocks.len() ==> (#[trigger] blocks[i]).end < (#[trigger] blocks[j]).start
}

pub(crate) proof fn lemma_cut(start: u64, end: u64, block_size: u64)
    requires
        block_size > 0,
    ensures
        forall|i: int|
            0 <= i < cut(start, end, block_size).len() ==> block_fits(
                #[trigger] cut(start, end, block_size)[i],
                start as int,
                end as int,
                block_size as int,
            ),
        forall|p: int| start <= p < end ==> #[trigger] covers(cut(start, end, block_size), p),
        blocks_ascend(cut(start, end, block_size)),
    decreases end - start,
{
    let blocks = cut(start, end, block_size);
    if start < end {
        if end - start <= block_size {
            assert forall|p: int| start <= p < end implies #[trigger] covers(blocks, p) by {
                assert(blocks[0].contains(p));
            }
        } else {
            let stop = (start + block_size) as u64;
            let rest = cut(stop, end, block_size);
            lemma_cut(stop, end, block_size);
            assert forall|i: int| 0 <= i < blocks.len() implies block_fits(
                #[trigger] blocks[i],
                start as int,
                end as int,
                block_size as int,
            ) by {
                if i > 0 {
                    assert(block_fits(rest[i - 1], stop as int, end as int, block_size as int));
                }
            }
            assert forall|p: int| start <= p < end implies #[trigger] covers(blocks, p) by {
                if p < stop {
                    assert(blocks[0].contains(p));
                } else {
                    assert(covers(rest, p));
                    let i = choose|i: int| 0 <= i < rest.len() && (#[trigger] rest[i]).contains(p);
                    assert(blocks[i + 1].contains(p));
                }
            }
            assert forall|i: int, j: int| 0 <= i < j < blocks.len() implies (
            #[trigger] blocks[i]).end < (#[trigger] blocks[j]).start by {
                assert(block_fits(rest[j - 1], stop as int, end as int, block_size as int));
                if i > 0 {
                    assert(rest[i - 1].end < rest[j - 1].start);
                }
            }
        }
    }
}

proof fn lemma_cut_all(spans: Seq<(u64, u64)>, n: int, block_size: u64, source_len: u64)
    requires
        0 <= n <= spans.len(),
        block_size > 0,
        spans_fit(spans, source_len),
    ensures
        forall|i: int|
            0 <= i < cut_all(spans, n, block_size).len() ==> block_fits(
                #[trigger] cut_all(spans, n, block_size)[i],
                0,
                source_len as int,
                block_size as int,
            ),
        forall|m: int, p: int|
            0 <= m < n && (#[trigger] spans[m]).0 <= p < spans[m].1 ==> #[trigger] covers(
                cut_all(spans, n, block_size),
                p,
            ),
    decreases n,
{
    if n > 0 {
        lemma_cut_all(spans, n - 1, block_size, source_len);
        let before = cut_all(spans, n - 1, block_size);
        let last = cut(spans[n - 1].0, spans[n - 1].1, block_size);
        let now = cut_all(spans, n, block_size);
        lemma_cut(spans[n - 1].0, spans[n - 1].1, block_size);
        assert forall|i: int| 0 <= i < now.len() implies block_fits(
            #[trigger] now[i],
            0,
            source_len as int,
            block_size as int,
        ) by {
            if i < before.len() {
                assert(now[i] == before[i]);
            } else {
                assert(now[i] == last[i - before.len()]);
            }
        }
        assert forall|m: int, p: int|
            0 <= m < n && (#[trigger] spans[m]).0 <= p < spans[m].1 implies #[trigger] covers(
            now,
            p,
        ) by {
            if m == n - 1 {
                assert(covers(last, p));
                let i = choose|i: int| 0 <= i < last.len() && (#[trigger] last[i]).contains(p);
                assert(now[before.len() + i].contains(p));
            } else {
                assert(covers(before, p));
                let i = choose|i: int| 0 <= i < before.len() && (#[trigger] before[i]).contains(p);
                assert(now[i].contains(p));
            }
        }
    }
}

pub(crate) proof fn lemma_sort_spans(spans: Seq<(u64, u64)>)
    ensures
        spans_sorted(spans.sort_by(span_order())),
        spans.sort_by(span_order()).to_multiset() == spans.to_multiset(),
{
    lemma_span_order_is_total();
    spans.lemma_sort_by_ensures(span_order());
    let sorted = spans.sort_by(span_order());
    let order = span_order();
    assert forall|i: int, j: int| 0 <= i <= j < sorted.len() implies span_leq(
        #[trigger] sorted[i],
        #[trigger] sorted[j],
    ) by {
        if i < j {
            assert(order(sorted[i], sorted[j]));
        }
    }
}

/// Every planned block holds at least one byte, lies in the source and is not
/// larger than the block size.
pub proof fn law_planned_blocks_fit(
    entries: Seq<ManifestEntryView>,
    source_len: u64,
    block_size: u64,
    merge_gap: u64,
)
    requires
        block_size > 0,
    ensures
        ({
            let blocks = planned_blocks(
                source_spans(entries, entries.len() as int, source_len),
                block_size,
                merge_gap,
            );
            forall|i: int|
                0 <= i < blocks.len() ==> block_fits(
                    #[trigger] blocks[i],
                    0,
                    source_len as int,
                    block_size as int,
                )
        }),
{
    let spans = source_spans(entries, entries.len() as int, source_len);
    let sorted = spans.sort_by(span_order());
    lemma_sort_spans(spans);
    lemma_spans_nonempty(entries, entries.len() as int, source_len);
    assert forall|i: int| 0 <= i < sorted.len() implies (#[trigger] sorted[i]).0 < sorted[i].1
        && sorted[i].1 <= source_len by {
        lemma_member_of_permutation(sorted, spans, i);
    }
    lemma_coalesced(sorted, sorted.len() as int, block_size, merge_gap, source_len);
    let joined = coalesced(sorted, sorted.len() as int, block_size, merge_gap);
    lemma_cut_all(joined, joined.len() as int, block_size, source_len);
}

proof fn lemma_source_spans_hold(
    entries: Seq<ManifestEntryView>,
    n: int,
    source_len: u64,
    k: int,
)
    requires
        0 <= k < n <= entries.len(),
        clip_span(entries[k], source_len).0 < clip_span(entries[k], source_len).1,
    ensures
        source_spans(entries, n, source_len).contains(clip_span(entries[k], source_len)),
    decreases n,
{
    let span = clip_span(entries[k], source_len);
    let now = source_spans(entries, n, source_len);
    let before = source_spans(entries, n - 1, source_len);
    if k == n - 1 {
        assert(now[before.len() as int] == span);
    } else {
        lemma_source_spans_hold(entries, n - 1, source_len, k);
        let i = choose|i: int| 0 <= i < before.len() && before[i] == span;
        assert(now[i] == span);
    }
}

/// Every byte of an entry's source span that lies in the source is in some
/// planned block.
pub proof fn law_planned_blocks_cover_entries(
    entries: Seq<ManifestEntryView>,
    source_len: u64,
    block_size: u64,
    merge_gap: u64,
    k: int,
    position: int,
)
    requires
        block_size > 0,
        0 <= k < entries.len(),
        entries[k].source_span_start <= position < entries[k].source_span_end,
        position < source_len,
    ensures
        covers(
            planned_blocks(
                source_spans(entries, entries.len() as int, source_len),
                block_size,
                merge_gap,
            ),
            position,
        ),
{
    let n = entries.len() as int;
    let spans = source_spans(entries, n, source_len);
    let span = clip_span(entries[k], source_len);
    lemma_source_spans_hold(entries, n, source_len, k);
    let sorted = spans.sort_by(span_order());
    lemma_sort_spans(spans);
    lemma_spans_nonempty(entries, n, source_len);
    assert forall|i: int| 0 <= i < sorted.len() implies (#[trigger] sorted[i]).0 < sorted[i].1
        && sorted[i].1 <= source_len by {
        lemma_member_of_permutation(sorted, spans, i);
    }
    let at = choose|i: int| 0 <= i < spans.len() && spans[i] == span;
    lemma_member_of_permutation(spans, sorted, at);
    let s = choose|i: int| 0 <= i < sorted.len() && sorted[i] == span;
    lemma_coalesced(sorted, sorted.len() as int, block_size, merge_gap, source_len);
    let joined = coalesced(sorted, sorted.len() as int, block_size, merge_gap);
    assert(within(sorted[s], span));
    let m = choose|m: int| 0 <= m < joined.len() && within(sorted[s], #[trigger] joined[m]);
    lemma_cut_all(joined, joined.len() as int, block_size, source_len);
    assert(joined[m].0 <= position < joined[m].1);
}

/// Whether spans do not overlap, whatever their order.
pub open spec fn spans_disjoint(spans: Seq<(u64, u64)>) -> bool {
    forall|i: int, j: int|
        0 <= i < spans.len() && 0 <= j < spans.len() && i != j ==> (#[trigger] spans[i]).1 <= (
        #[trigger] spans[j]).0 || spans[j].1 <= spans[i].0
}

/// Whether each span ends before the next one starts.
pub open spec fn spans_ascend(spans: Seq<(u64, u64)>) -> bool {
    forall|i: int, j: int|
        0 <= i < j < spans.len() ==> (#[trigger] spans[i]).1 <= (#[trigger] spans[j]).0
}

pub(crate) proof fn lemma_coalesced_ascends(
    spans: Seq<(u64, u64)>,
    n: int,
    block_size: u64,
    merge_gap: u64,
)
    requires
        0 <= n <= spans.len(),
        spans_ascend(spans),
        spans_fit(spans, u64::MAX),
    ensures
        spans_ascend(coalesced(spans, n, block_size, merge_gap)),
        n > 0 ==> coalesced(spans, n, block_size, merge_gap).len() > 0,
        forall|m: int|
            0 <= m < coalesced(spans, n, block_size, merge_gap).len() ==> (#[trigger] coalesced(
                spans,
                n,
                block_size,
                merge_gap,
            )[m]).1 <= spans[n - 1].1,
    decreases n,
{
    if n > 0 {
        lemma_coalesced_ascends(spans, n - 1, block_size, merge_gap);
        let before = coalesced(spans, n - 1, block_size, merge_gap);
        let now = coalesced(spans, n, block_size, merge_gap);
        if n > 1 {
            assert(spans[n - 2].1 <= spans[n - 1].0);
        }
        assert forall|i: int, j: int| 0 <= i < j < now.len() implies (#[trigger] now[i]).1 <= (
        #[trigger] now[j]).0 by {
            if j < before.len() {
                assert(before[i].1 <= before[j].0);
            } else {
                assert(before[i].1 <= spans[n - 2].1);
            }
        }
    }
}

proof fn lemma_cut_all_ascends(spans: Seq<(u64, u64)>, n: int, block_size: u64)
    requires
        0 <= n <= spans.len(),
        block_size > 0,
        spans_ascend(spans),
        spans_fit(spans, u64::MAX),
    ensures
        blocks_ascend(cut_all(spans, n, block_size)),
        forall|i: int|
            0 <= i < cut_all(spans, n, block_size).len() ==> n > 0 && (#[trigger] cut_all(
                spans,
                n,
                block_size,
            )[i]).end < spans[n - 1].1,
    decreases n,
{
    if n > 0 {
        lemma_cut_all_ascends(spans, n - 1, block_size);
        lemma_cut(spans[n - 1].0, spans[n - 1].1, block_size);
        let before = cut_all(spans, n - 1, block_size);
        let last = cut(spans[n - 1].0, spans[n - 1].1, block_size);
        let now = cut_all(spans, n, block_size);
        if n > 1 {
            assert(spans[n - 2].1 <= spans[n - 1].0);
        }
        assert(spans[n - 1].0 < spans[n - 1].1);
        assert forall|i: int| 0 <= i < now.len() implies (#[trigger] now[i]).end
            < spans[n - 1].1 by {
            if i < before.len() {
                assert(now[i] == before[i]);
            } else {
                assert(now[i] == last[i - before.len()]);
            }
        }
        assert forall|i: int, j: int| 0 <= i < j < now.len() implies (#[trigger] now[i]).end < (
        #[trigger] now[j]).start by {
            if j < before.len() {
                assert(before[i].end < before[j].start);
            } else if i < before.len() {
                assert(before[i].end < spans[n - 2].1);
                assert(block_fits(
                    last[j - before.len()],
                    spans[n - 1].0 as int,
                    spans[n - 1].1 as int,
                    block_size as int,
                ));
            } else {
                assert(last[i - before.len()].end < last[j - before.len()].start);
            }
        }
    }
}

/// Where the source spans of entries do not overlap, no byte of the source is
/// planned twice.
pub proof fn law_planned_blocks_are_disjoint(
    entries: Seq<ManifestEntryView>,
    source_len: u64,
    block_size: u64,
    merge_gap: u64,
)
    requires
        block_size > 0,
        spans_disjoint(source_spans(entries, entries.len() as int, source_len)),
    ensures
        blocks_ascend(
            planned_blocks(
                source_spans(entries, entries.len() as int, source_len),
                block_size,
                merge_gap,
            ),
        ),
{
    let spans = source_spans(entries, entries.len() as int, source_len);
    let sorted = spans.sort_by(span_order());
    lemma_sort_spans(spans);
    lemma_spans_nonempty(entries, entries.len() as int, source_len);
    assert forall|i: int| 0 <= i < sorted.len() implies (#[trigger] sorted[i]).0 < sorted[i].1
        && sorted[i].1 <= u64::MAX by {
        lemma_member_of_permutation(sorted, spans, i);
    }
    assert(spans.no_duplicates()) by {
        assert forall|i: int, j: int|
            0 <= i < spans.len() && 0 <= j < spans.len() && i != j implies spans[i]
            != spans[j] by {
            assert(spans[i].0 < spans[i].1);
            assert(spans[j].0 < spans[j].1);
        }
    }
    spans.lemma_multiset_has_no_duplicates();
    assert(forall|x: (u64, u64)| sorted.to_multiset().contains(x) ==> sorted.to_multiset().count(x) == 1);
    sorted.lemma_multiset_has_no_duplicates_conv();
    assert forall|i: int, j: int| 0 <= i < j < sorted.len() implies (#[trigger] sorted[i]).1 <= (
    #[trigger] sorted[j]).0 by {
        lemma_member_of_permutation(sorted, spans, i);
        lemma_member_of_permutation(sorted, spans, j);
        let a = choose|a: int| 0 <= a < spans.len() && spans[a] == sorted[i];
        let b = choose|b: int| 0 <= b < spans.len() && spans[b] == sorted[j];
        assert(sorted[i] != sorted[j]);
        assert(span_leq(sorted[i], sorted[j]));
        assert(spans[a].1 <= spans[b].0 || spans[b].1 <= spans[a].0);
    }
    lemma_coalesced_ascends(sorted, sorted.len() as int, block_size, merge_gap);
    lemma_coalesced(sorted, sorted.len() as int, block_size, merge_gap, u64::MAX);
    let joined = coalesced(sorted, sorted.len() as int, block_size, merge_gap);
    lemma_cut_all_ascends(joined, joined.len() as int, block_size);
}

} // verus!

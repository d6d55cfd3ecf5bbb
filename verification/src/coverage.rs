//! Which bytes of the source have been fetched.
use vstd::prelude::*;
use vstd::set_lib::set_int_range;


verus! {

/// The byte positions that a collection of fetched ranges covers.
///
/// The ranges are kept as disjoint intervals, both ends inclusive, in
/// ascending order and with a gap between neighbours.
#[derive(Debug)]
pub struct RangeCoverage {
    intervals: Vec<(u64, u64)>,
    unique_bytes: u64,
}

/// Whether some interval holds the position.
pub open spec fn in_intervals(intervals: Seq<(u64, u64)>, position: int) -> bool {
    exists|i: int|
        0 <= i < intervals.len() && (#[trigger] intervals[i]).0 <= position <= intervals[i].1
}

/// Whether intervals are non-empty, ascend and leave gaps.
pub open spec fn canonical(intervals: Seq<(u64, u64)>) -> bool {
    &&& forall|i: int| 0 <= i < intervals.len() ==> (#[trigger] intervals[i]).0 <= intervals[i].1
    &&& forall|i: int, j: int|
        0 <= i < j < intervals.len() ==> (#[trigger] intervals[i]).1 + 1 < (
        #[trigger] intervals[j]).0
}

/// The number of positions in the intervals.
pub open spec fn total_len(intervals: Seq<(u64, u64)>) -> int
    decreases intervals.len(),
{
    if intervals.len() == 0 {
        0
    } else {
        total_len(intervals.drop_last()) + (intervals.last().1 - intervals.last().0 + 1)
    }
}

/// A count within `u64`.
pub open spec fn saturate(count: int) -> u64 {
    if count > u64::MAX {
        u64::MAX
    } else {
        count as u64
    }
}

proof fn lemma_total_concat(a: Seq<(u64, u64)>, b: Seq<(u64, u64)>)
    ensures
        total_len(a + b) == total_len(a) + total_len(b),
    decreases b.len(),
{
    if b.len() == 0 {
        assert(a + b =~= a);
    } else {
        assert((a + b).drop_last() =~= a + b.drop_last());
        lemma_total_concat(a, b.drop_last());
    }
}

proof fn lemma_total_bound(intervals: Seq<(u64, u64)>)
    requires
        canonical(intervals),
    ensures
        total_len(intervals) >= 0,
        intervals.len() > 0 ==> total_len(intervals) + intervals.len() - 1 <= intervals.last().1
            + 1,
        intervals.len() > 0 ==> total_len(intervals) >= intervals.last().1 - intervals.last().0
            + 1,
    decreases intervals.len(),
{
    if intervals.len() > 0 {
        let before = intervals.drop_last();
        assert(canonical(before)) by {
            assert forall|i: int| 0 <= i < before.len() implies (#[trigger] before[i]).0
                <= before[i].1 by {
                assert(intervals[i].0 <= intervals[i].1);
            }
            assert forall|i: int, j: int| 0 <= i < j < before.len() implies (
            #[trigger] before[i]).1 + 1 < (#[trigger] before[j]).0 by {
                assert(intervals[i].1 + 1 < intervals[j].0);
            }
        }
        lemma_total_bound(before);
        assert(intervals[intervals.len() - 1].0 <= intervals[intervals.len() - 1].1);
        if before.len() > 0 {
            assert(intervals[before.len() - 1].1 + 1 < intervals[intervals.len() - 1].0);
        }
    }
}

/// Whether one of the intervals from `low` to `high` holds the position.
pub open spec fn in_some(all: Seq<(u64, u64)>, low: int, high: int, position: int) -> bool {
    exists|k: int| low <= k < high && (#[trigger] all[k]).0 <= position <= all[k].1
}

/// Whether the merged range is `start..=end` with the intervals from `low` to `high`.
pub open spec fn merges(
    all: Seq<(u64, u64)>,
    low: int,
    high: int,
    range: (u64, u64),
    merged: (u64, u64),
) -> bool {
    forall|p: int| #[trigger] merges_at(all, low, high, range, merged, p)
}

pub open spec fn merges_at(
    all: Seq<(u64, u64)>,
    low: int,
    high: int,
    range: (u64, u64),
    merged: (u64, u64),
    position: int,
) -> bool {
    (merged.0 <= position <= merged.1) <==> ((range.0 <= position <= range.1) || in_some(
        all,
        low,
        high,
        position,
    ))
}

proof fn lemma_merge_step(
    all: Seq<(u64, u64)>,
    low: int,
    i: int,
    range: (u64, u64),
    merged: (u64, u64),
    now: (u64, u64),
)
    requires
        merges(all, low, i, range, merged),
        0 <= low <= i < all.len(),
        merged.0 <= merged.1,
        all[i].0 <= all[i].1,
        all[i].0 <= merged.1 + 1,
        merged.0 <= all[i].1 + 1,
        now.0 == if all[i].0 < merged.0 {
            all[i].0
        } else {
            merged.0
        },
        now.1 == if all[i].1 > merged.1 {
            all[i].1
        } else {
            merged.1
        },
    ensures
        merges(all, low, i + 1, range, now),
{
    assert forall|p: int| #[trigger] merges_at(all, low, i + 1, range, now, p) by {
        assert(merges_at(all, low, i, range, merged, p));
        if in_some(all, low, i, p) {
            let k = choose|k: int| low <= k < i && (#[trigger] all[k]).0 <= p <= all[k].1;
            assert(all[k].0 <= p <= all[k].1);
            assert(in_some(all, low, i + 1, p));
        }
        if all[i].0 <= p <= all[i].1 {
            assert(in_some(all, low, i + 1, p));
        }
        if in_some(all, low, i + 1, p) {
            let k = choose|k: int| low <= k < i + 1 && (#[trigger] all[k]).0 <= p <= all[k].1;
            if k < i {
                assert(in_some(all, low, i, p));
            }
        }
    }
}

proof fn lemma_total_single(interval: (u64, u64))
    ensures
        total_len(seq![interval]) == interval.1 - interval.0 + 1,
{
    assert(seq![interval].drop_last() =~= Seq::<(u64, u64)>::empty());
    assert(total_len(Seq::<(u64, u64)>::empty()) == 0);
}

/// Replacing the intervals from `low` to `high` by one that spans them and
/// `start..=end` adds exactly `start..=end`.
proof fn lemma_merged(
    all: Seq<(u64, u64)>,
    low: int,
    high: int,
    start: u64,
    end: u64,
    merged_start: u64,
    merged_end: u64,
)
    requires
        canonical(all),
        0 <= low <= high <= all.len(),
        merged_start <= start <= end <= merged_end,
        forall|k: int| 0 <= k < low ==> (#[trigger] all[k]).1 + 1 < merged_start,
        high < all.len() ==> merged_end + 1 < all[high].0,
        merges(all, low, high, (start, end), (merged_start, merged_end)),
    ensures
        ({
            let now = all.take(low) + seq![(merged_start, merged_end)] + all.skip(high);
            &&& canonical(now)
            &&& total_len(now) == total_len(all.take(low) + all.skip(high)) + (merged_end
                - merged_start + 1)
            &&& forall|p: int|
                #![trigger in_intervals(now, p)]
                #![trigger in_intervals(all, p)]
                in_intervals(now, p) <==> (in_intervals(all, p) || (start <= p && p < end + 1))
        }),
{
    let left = all.take(low);
    let middle = seq![(merged_start, merged_end)];
    let right = all.skip(high);
    let now = left + middle + right;
    lemma_total_concat(left + middle, right);
    lemma_total_concat(left, middle);
    lemma_total_concat(left, right);
    lemma_total_single((merged_start, merged_end));
    assert forall|a: int| 0 <= a < now.len() implies (#[trigger] now[a]).0 <= now[a].1 by {
        if a < low {
            assert(now[a] == all[a]);
        } else if a > low {
            assert(now[a] == all[high + a - low - 1]);
        }
    }
    assert forall|a: int, c: int| 0 <= a < c < now.len() implies (#[trigger] now[a]).1 + 1 < (
    #[trigger] now[c]).0 by {
        if a < low {
            assert(now[a] == all[a]);
        }
        if a > low {
            assert(now[a] == all[high + a - low - 1]);
        }
        if c < low {
            assert(now[c] == all[c]);
        }
        if c > low {
            assert(now[c] == all[high + c - low - 1]);
            if c > low + 1 {
                assert(all[high].1 + 1 < all[high + c - low - 1].0);
                assert(all[high].0 <= all[high].1);
            }
        }
    }
    assert forall|p: int|
        #![trigger in_intervals(now, p)]
        #![trigger in_intervals(all, p)]
        in_intervals(now, p) <==> (in_intervals(all, p) || (start <= p && p < end + 1)) by {
        assert(merges_at(all, low, high, (start, end), (merged_start, merged_end), p));
        if in_intervals(now, p) {
            let a = choose|a: int| 0 <= a < now.len() && (#[trigger] now[a]).0 <= p <= now[a].1;
            if a < low {
                assert(all[a].0 <= p <= all[a].1);
            } else if a > low {
                assert(now[a] == all[high + a - low - 1]);
                assert(all[high + a - low - 1].0 <= p <= all[high + a - low - 1].1);
            } else if !(start <= p <= end) {
                let k = choose|k: int| low <= k < high && (#[trigger] all[k]).0 <= p <= all[k].1;
                assert(all[k].0 <= p <= all[k].1);
            }
        }
        if in_intervals(all, p) {
            let a = choose|a: int| 0 <= a < all.len() && (#[trigger] all[a]).0 <= p <= all[a].1;
            if a < low {
                assert(now[a].0 <= p <= now[a].1);
            } else if a >= high {
                assert(now[a - high + low + 1] == all[a]);
                assert(now[a - high + low + 1].0 <= p <= now[a - high + low + 1].1);
            } else {
                assert(in_some(all, low, high, p));
                assert(now[low].0 <= p <= now[low].1);
            }
        }
        if start <= p <= end {
            assert(now[low].0 <= p <= now[low].1);
        }
    }
}

/// Dropping the first of the later intervals keeps the rest canonical.
proof fn lemma_dropped(all: Seq<(u64, u64)>, low: int, i: int)
    requires
        0 <= low <= i < all.len(),
        canonical(all.take(low) + all.skip(i)),
    ensures
        canonical(all.take(low) + all.skip(i + 1)),
        total_len(all.take(low) + all.skip(i)) == total_len(all.take(low) + all.skip(i + 1)) + (
        all[i].1 - all[i].0 + 1),
{
    let left = all.take(low);
    let before = left + all.skip(i);
    let after = left + all.skip(i + 1);
    assert(all.skip(i) =~= seq![all[i]] + all.skip(i + 1));
    lemma_total_concat(left, all.skip(i));
    lemma_total_concat(left, all.skip(i + 1));
    lemma_total_concat(seq![all[i]], all.skip(i + 1));
    lemma_total_single(all[i]);
    assert forall|a: int| 0 <= a < after.len() implies (#[trigger] after[a]).0 <= after[a].1 by {
        let b = if a < low {
            a
        } else {
            a + 1
        };
        assert(after[a] == before[b]);
    }
    assert forall|a: int, c: int| 0 <= a < c < after.len() implies (#[trigger] after[a]).1 + 1 < (
    #[trigger] after[c]).0 by {
        let b = if a < low {
            a
        } else {
            a + 1
        };
        let d = if c < low {
            c
        } else {
            c + 1
        };
        assert(after[a] == before[b]);
        assert(after[c] == before[d]);
    }
}

impl RangeCoverage {
    /// The intervals are canonical and the byte count is theirs.
    pub closed spec fn wf(&self) -> bool {
        &&& canonical(self.intervals@)
        &&& self.unique_bytes == saturate(total_len(self.intervals@))
    }
}

impl View for RangeCoverage {
    type V = Set<int>;

    /// The covered positions.
    closed spec fn view(&self) -> Set<int> {
        Set::new(|position: int| in_intervals(self.intervals@, position))
    }
}

impl Default for RangeCoverage {
    fn default() -> (coverage: RangeCoverage)
        ensures
            coverage.wf(),
            coverage@ == Set::<int>::empty(),
    {
        let coverage = RangeCoverage { intervals: Vec::new(), unique_bytes: 0 };
        assert(coverage@ =~= Set::<int>::empty());
        coverage
    }
}

/// How many intervals end before `start` and do not touch it.
fn count_before(intervals: &Vec<(u64, u64)>, start: u64) -> (low: usize)
    requires
        canonical(intervals@),
    ensures
        low <= intervals.len(),
        forall|k: int| 0 <= k < low ==> (#[trigger] intervals@[k]).1 + 1 < start,
        low < intervals.len() ==> start <= intervals@[low as int].1 + 1,
{
    let mut low: usize = 0;
    while low < intervals.len() && intervals[low].1 < start && start - intervals[low].1 > 1
        invariant
            low <= intervals.len(),
            forall|k: int| 0 <= k < low ==> (#[trigger] intervals@[k]).1 + 1 < start,
        decreases intervals.len() - low,
    {
        low += 1;
    }
    low
}

/// The range that `start..=end` forms with the intervals from `low` on that
/// touch it: where those end, its bounds, and the bytes left outside of it.
fn absorb(
    intervals: &Vec<(u64, u64)>,
    low: usize,
    start: u64,
    end: u64,
    unique_bytes: u64,
) -> (result: (usize, u64, u64, u64))
    requires
        canonical(intervals@),
        unique_bytes == saturate(total_len(intervals@)),
        start <= end,
        low <= intervals.len(),
        forall|k: int| 0 <= k < low ==> (#[trigger] intervals@[k]).1 + 1 < start,
        low < intervals.len() ==> start <= intervals@[low as int].1 + 1,
    ensures
        ({
            let (high, merged_start, merged_end, rest_bytes) = result;
            &&& low <= high <= intervals.len()
            &&& merged_start <= start <= end <= merged_end
            &&& forall|k: int| 0 <= k < low ==> (#[trigger] intervals@[k]).1 + 1 < merged_start
            &&& high < intervals.len() ==> merged_end + 1 < intervals@[high as int].0
            &&& merges(
                intervals@,
                low as int,
                high as int,
                (start, end),
                (merged_start, merged_end),
            )
            &&& canonical(intervals@.take(low as int) + intervals@.skip(high as int))
            &&& rest_bytes == saturate(
                total_len(intervals@.take(low as int) + intervals@.skip(high as int)),
            )
        }),
{
    let ghost all = intervals@;
    let mut unique: u64 = unique_bytes;
    let mut merged_start: u64 = start;
    let mut merged_end: u64 = end;
    let mut i: usize = low;
    proof {
        assert(all.take(low as int) + all.skip(low as int) =~= all);
        assert forall|p: int| #[trigger]
            merges_at(all, low as int, low as int, (start, end), (start, end), p) by {}
    }
    while i < intervals.len() && (intervals[i].0 <= merged_end || intervals[i].0 - merged_end == 1)
        invariant
            low <= i <= intervals.len(),
            all == intervals@,
            canonical(all),
            merged_start <= start <= end <= merged_end,
            forall|k: int| 0 <= k < low ==> (#[trigger] all[k]).1 + 1 < merged_start,
            low < all.len() ==> start <= all[low as int].1 + 1,
            merges(all, low as int, i as int, (start, end), (merged_start, merged_end)),
            unique == saturate(total_len(all.take(low as int) + all.skip(i as int))),
            canonical(all.take(low as int) + all.skip(i as int)),
        decreases intervals.len() - i,
    {
        let (current_start, current_end) = intervals[i];
        let ghost old_start = merged_start;
        let ghost old_end = merged_end;
        assert(all[i as int].0 <= all[i as int].1);
        proof {
            if i > low {
                assert(all[low as int].1 + 1 < all[i as int].0);
            }
        }
        if current_start < merged_start {
            merged_start = current_start;
        }
        if current_end > merged_end {
            merged_end = current_end;
        }
        proof {
            assert forall|k: int| 0 <= k < low implies (#[trigger] all[k]).1 + 1 < merged_start by {
                assert(all[k].1 + 1 < all[i as int].0);
            }
            lemma_merge_step(
                all,
                low as int,
                i as int,
                (start, end),
                (old_start, old_end),
                (merged_start, merged_end),
            );
            lemma_dropped(all, low as int, i as int);
            lemma_total_bound(all.take(low as int) + all.skip(i as int));
            lemma_total_bound(all.take(low as int) + all.skip(i + 1));
            assert((all.take(low as int) + all.skip(i as int))[low as int] == all[i as int]);
        }
        let len: u64 = current_end.saturating_sub(current_start).saturating_add(1);
        unique = unique.saturating_sub(len);
        i += 1;
    }
    (i, merged_start, merged_end, unique)
}

/// The intervals with those from `low` to `high` replaced by one.
fn replace(intervals: &Vec<(u64, u64)>, low: usize, high: usize, merged: (u64, u64)) -> (replaced:
    Vec<(u64, u64)>)
    requires
        low <= high <= intervals.len(),
    ensures
        replaced@ == intervals@.take(low as int) + seq![merged] + intervals@.skip(high as int),
{
    let ghost all = intervals@;
    let mut replaced: Vec<(u64, u64)> = Vec::new();
    let mut i: usize = 0;
    while i < low
        invariant
            i <= low <= intervals.len(),
            all == intervals@,
            replaced@ == all.take(i as int),
        decreases low - i,
    {
        replaced.push(intervals[i]);
        i += 1;
        assert(replaced@ =~= all.take(i as int));
    }
    replaced.push(merged);
    let ghost front = replaced@;
    let mut j: usize = high;
    while j < intervals.len()
        invariant
            high <= j <= intervals.len(),
            all == intervals@,
            replaced@ == front + all.subrange(high as int, j as int),
        decreases intervals.len() - j,
    {
        replaced.push(intervals[j]);
        j += 1;
        assert(replaced@ =~= front + all.subrange(high as int, j as int));
    }
    assert(replaced@ =~= all.take(low as int) + seq![merged] + all.skip(high as int));
    replaced
}

impl RangeCoverage {
    /// Adds the positions from `start` to `end` inclusive.
    pub fn insert(&mut self, start: u64, end: u64)
        requires
            old(self).wf(),
        ensures
            final(self).wf(),
            final(self)@ == old(self)@.union(set_int_range(start as int, end + 1)),
    {
        if end < start {
            assert(old(self)@.union(set_int_range(start as int, end + 1)) =~= old(self)@);
            return;
        }
        let ghost all = self.intervals@;
        let low: usize = count_before(&self.intervals, start);
        let (high, merged_start, merged_end, rest_bytes) = absorb(
            &self.intervals,
            low,
            start,
            end,
            self.unique_bytes,
        );
        let merged_len: u64 = merged_end.saturating_sub(merged_start).saturating_add(1);
        proof {
            lemma_merged(
                all,
                low as int,
                high as int,
                start,
                end,
                merged_start,
                merged_end,
            );
            lemma_total_bound(all.take(low as int) + all.skip(high as int));
            let now = all.take(low as int) + seq![(merged_start, merged_end)] + all.skip(
                high as int,
            );
            lemma_total_bound(now);
            if merged_end - merged_start == u64::MAX {
                if low > 0 {
                    assert(all[0].1 + 1 < merged_start);
                }
                assert(all.take(low as int) + all.skip(high as int) =~= Seq::<(u64, u64)>::empty());
            }
        }
        self.intervals = replace(&self.intervals, low, high, (merged_start, merged_end));
        self.unique_bytes = rest_bytes.saturating_add(merged_len);
        assert forall|p: int| #[trigger] self@.contains(p) <==> old(self)@.union(
            set_int_range(start as int, end + 1),
        ).contains(p) by {
            assert(in_intervals(self.intervals@, p) <==> (in_intervals(all, p) || (start <= p && p
                < end + 1)));
        }
        assert(self@ =~= old(self)@.union(set_int_range(start as int, end + 1)));
    }

    /// The number of covered positions.
    pub fn unique_bytes(&self) -> (count: u64)
        requires
            self.wf(),
        ensures
            self@.finite(),
            count == saturate(self@.len() as int),
    {
        proof {
            lemma_covered_len(self.intervals@);
            assert(self@ =~= Set::new(|p: int| in_intervals(self.intervals@, p)));
        }
        self.unique_bytes
    }
}

proof fn lemma_covered_len(intervals: Seq<(u64, u64)>)
    requires
        canonical(intervals),
    ensures
        Set::new(|p: int| in_intervals(intervals, p)).finite(),
        Set::new(|p: int| in_intervals(intervals, p)).len() == total_len(intervals),
    decreases intervals.len(),
{
    let covered = Set::new(|p: int| in_intervals(intervals, p));
    if intervals.len() == 0 {
        assert(covered =~= Set::<int>::empty());
    } else {
        let before = intervals.drop_last();
        let last = intervals.last();
        let n = intervals.len() as int;
        assert(canonical(before)) by {
            assert forall|i: int| 0 <= i < before.len() implies (#[trigger] before[i]).0
                <= before[i].1 by {
                assert(intervals[i].0 <= intervals[i].1);
            }
            assert forall|i: int, j: int| 0 <= i < j < before.len() implies (
            #[trigger] before[i]).1 + 1 < (#[trigger] before[j]).0 by {
                assert(intervals[i].1 + 1 < intervals[j].0);
            }
        }
        lemma_covered_len(before);
        let left = Set::new(|p: int| in_intervals(before, p));
        let right = set_int_range(last.0 as int, last.1 + 1);
        assert(intervals[n - 1].0 <= intervals[n - 1].1);
        vstd::set_lib::lemma_int_range(last.0 as int, last.1 + 1);
        assert forall|p: int| #![auto] covered.contains(p) <==> left.contains(p) || right.contains(p) by {
            if covered.contains(p) {
                let i = choose|i: int|
                    0 <= i < intervals.len() && (#[trigger] intervals[i]).0 <= p <= intervals[i].1;
                if i < n - 1 {
                    assert(before[i].0 <= p <= before[i].1);
                }
            }
            if left.contains(p) {
                let i = choose|i: int|
                    0 <= i < before.len() && (#[trigger] before[i]).0 <= p <= before[i].1;
                assert(intervals[i].0 <= p <= intervals[i].1);
            }
            if right.contains(p) {
                assert(intervals[n - 1].0 <= p <= intervals[n - 1].1);
            }
        }
        assert(covered =~= left.union(right));
        assert(left.disjoint(right)) by {
            assert forall|p: int| left.contains(p) implies !right.contains(p) by {
                let i = choose|i: int|
                    0 <= i < before.len() && (#[trigger] before[i]).0 <= p <= before[i].1;
                assert(intervals[i].1 + 1 < intervals[n - 1].0);
            }
        }
        vstd::set_lib::lemma_set_disjoint_lens(left, right);
    }
}

} // verus!

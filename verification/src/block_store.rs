//! The window of source blocks that readers share.
use bytes::Bytes;
use vstd::prelude::*;
use vstd::string::*;

use crate::buffers::{bytes_contents, slice_bytes};
use crate::diagnostics::{with_counters, SourceCounters, SourceDiagnosticsCollector};
use crate::error::{IoError, IoErrorKind, IoErrorView};
use crate::report::next_count;
use crate::source_plan::{SourcePlan, SourceRange};
use crate::zip_manifest::{manifest_views, ManifestEntry, ManifestEntryView};

verus! {

/// What has become of a block.
#[derive(Debug)]
pub enum BlockStatus {
    /// Not fetched yet.
    Pending,
    /// Being fetched.
    Fetching,
    /// Fetched and kept.
    Ready(Bytes),
    /// Given up after its last reader.
    Released,
    /// Could not be fetched.
    Failed(String),
}

/// A block of the window.
#[derive(Debug)]
pub struct BlockState {
    /// Readers that are still to read the block, including the live ones.
    pub remaining_claims: usize,
    /// Readers that are reading the block.
    pub live_claims: usize,
    /// How often the block was fetched.
    pub fetch_count: u64,
    pub status: BlockStatus,
}

/// The window: the planned blocks, their states and the bytes they occupy.
#[derive(Debug)]
pub struct BlockStore {
    blocks: Vec<SourceRange>,
    slots: Vec<BlockState>,
    resident_bytes: u64,
    capacity: u64,
}

pub enum StatusView {
    Pending,
    Fetching,
    Ready(Seq<u8>),
    Released,
    Failed(Seq<char>),
}

pub struct SlotView {
    pub remaining_claims: usize,
    pub live_claims: usize,
    pub fetch_count: u64,
    pub status: StatusView,
}

pub struct StoreView {
    pub blocks: Seq<SourceRange>,
    pub slots: Seq<SlotView>,
    pub resident_bytes: u64,
    pub capacity: u64,
}

impl View for BlockStatus {
    type V = StatusView;

    open spec fn view(&self) -> StatusView {
        match self {
            BlockStatus::Pending => StatusView::Pending,
            BlockStatus::Fetching => StatusView::Fetching,
            BlockStatus::Ready(bytes) => StatusView::Ready(bytes_contents(*bytes)),
            BlockStatus::Released => StatusView::Released,
            BlockStatus::Failed(message) => StatusView::Failed(message@),
        }
    }
}

impl View for BlockState {
    type V = SlotView;

    open spec fn view(&self) -> SlotView {
        SlotView {
            remaining_claims: self.remaining_claims,
            live_claims: self.live_claims,
            fetch_count: self.fetch_count,
            status: self.status@,
        }
    }
}

pub open spec fn slot_views(slots: Seq<BlockState>) -> Seq<SlotView> {
    slots.map_values(|slot: BlockState| slot@)
}

impl View for BlockStore {
    type V = StoreView;

    closed spec fn view(&self) -> StoreView {
        StoreView {
            blocks: self.blocks@,
            slots: slot_views(self.slots@),
            resident_bytes: self.resident_bytes,
            capacity: self.capacity,
        }
    }
}

/// A count with one more, within `usize`.
pub open spec fn one_more(count: usize) -> usize {
    if count == usize::MAX {
        usize::MAX
    } else {
        (count + 1) as usize
    }
}

/// A count with one less, within `usize`.
pub open spec fn one_less(count: usize) -> usize {
    if count == 0 {
        0
    } else {
        (count - 1) as usize
    }
}

/// A byte count with some less, within `u64`.
pub open spec fn less(count: u64, bytes: u64) -> u64 {
    if count < bytes {
        0
    } else {
        (count - bytes) as u64
    }
}

impl StoreView {
    /// Every block has a slot, and a ready slot holds as many bytes as its block.
    pub open spec fn wf(self) -> bool {
        &&& self.slots.len() == self.blocks.len()
        &&& forall|i: int|
            0 <= i < self.slots.len() ==> match (#[trigger] self.slots[i]).status {
                StatusView::Ready(bytes) => bytes.len() == self.blocks[i].len(),
                _ => true,
            }
    }

    pub open spec fn with_slot(self, index: int, slot: SlotView) -> StoreView {
        StoreView { slots: self.slots.update(index, slot), ..self }
    }
}

/// Whether a block holds bytes of `start..end_exclusive`.
pub open spec fn overlaps(block: SourceRange, start: u64, end_exclusive: u64) -> bool {
    block.start < end_exclusive && start < block.end_exclusive()
}

/// The first `n` blocks that hold bytes of `start..end_exclusive`.
pub open spec fn overlapping(
    blocks: Seq<SourceRange>,
    n: int,
    start: u64,
    end_exclusive: u64,
) -> Seq<usize>
    decreases n,
{
    if n <= 0 {
        Seq::empty()
    } else {
        let before = overlapping(blocks, n - 1, start, end_exclusive);
        if overlaps(blocks[n - 1], start, end_exclusive) {
            before.push((n - 1) as usize)
        } else {
            before
        }
    }
}

/// The blocks that hold bytes of a span; an empty span has none.
pub open spec fn span_blocks(blocks: Seq<SourceRange>, start: u64, end_exclusive: u64) -> Seq<
    usize,
> {
    if start >= end_exclusive {
        Seq::empty()
    } else {
        overlapping(blocks, blocks.len() as int, start, end_exclusive)
    }
}

fn block_indices_for_span(blocks: &Vec<SourceRange>, start: u64, end_exclusive: u64) -> (indices:
    Vec<usize>)
    ensures
        indices@ == overlapping(blocks@, blocks@.len() as int, start, end_exclusive),
{
    let mut indices: Vec<usize> = Vec::new();
    let mut index: usize = 0;
    while index < blocks.len()
        invariant
            index <= blocks.len(),
            indices@ == overlapping(blocks@, index as int, start, end_exclusive),
        decreases blocks.len() - index,
    {
        let block = blocks[index];
        if block.start < end_exclusive && start < block.end_exclusive() {
            indices.push(index);
        }
        index += 1;
    }
    indices
}

proof fn lemma_overlapping(blocks: Seq<SourceRange>, n: int, start: u64, end_exclusive: u64)
    requires
        0 <= n <= blocks.len(),
        blocks.len() <= usize::MAX,
    ensures
        forall|k: int|
            0 <= k < overlapping(blocks, n, start, end_exclusive).len() ==> (
            #[trigger] overlapping(blocks, n, start, end_exclusive)[k]) < n && overlaps(
                blocks[overlapping(blocks, n, start, end_exclusive)[k] as int],
                start,
                end_exclusive,
            ),
    decreases n,
{
    if n > 0 {
        lemma_overlapping(blocks, n - 1, start, end_exclusive);
        let before = overlapping(blocks, n - 1, start, end_exclusive);
        let now = overlapping(blocks, n, start, end_exclusive);
        assert forall|k: int| 0 <= k < now.len() implies (#[trigger] now[k]) < n && overlaps(
            blocks[now[k] as int],
            start,
            end_exclusive,
        ) by {
            if k < before.len() {
                assert(now[k] == before[k]);
            }
        }
    }
}

/// The claims that the first `n` entries have on each block.
pub open spec fn claim_counts(blocks: Seq<SourceRange>, entries: Seq<ManifestEntryView>, n: int) -> Seq<
    usize,
>
    decreases n,
{
    if n <= 0 {
        Seq::new(blocks.len(), |i: int| 0usize)
    } else {
        let before = claim_counts(blocks, entries, n - 1);
        let entry = entries[n - 1];
        Seq::new(
            blocks.len(),
            |i: int|
                if overlaps(blocks[i], entry.source_span_start, entry.source_span_end) {
                    one_more(before[i])
                } else {
                    before[i]
                },
        )
    }
}

fn initial_claim_counts(blocks: &Vec<SourceRange>, entries: &Vec<ManifestEntry>) -> (counts: Vec<
    usize,
>)
    ensures
        counts@ == claim_counts(blocks@, manifest_views(entries@), entries@.len() as int),
{
    let ghost views = manifest_views(entries@);
    let mut counts: Vec<usize> = Vec::new();
    let mut k: usize = 0;
    while k < blocks.len()
        invariant
            k <= blocks.len(),
            counts.len() == k,
            forall|i: int| 0 <= i < k ==> (#[trigger] counts@[i]) == 0,
        decreases blocks.len() - k,
    {
        counts.push(0);
        k += 1;
    }
    assert(counts@ =~= claim_counts(blocks@, views, 0));
    let mut e: usize = 0;
    while e < entries.len()
        invariant
            e <= entries.len(),
            views == manifest_views(entries@),
            counts@ == claim_counts(blocks@, views, e as int),
            counts.len() == blocks.len(),
        decreases entries.len() - e,
    {
        let entry = &entries[e];
        assert(views[e as int] == entry@);
        let ghost before = counts@;
        let ghost after = claim_counts(blocks@, views, e + 1);
        let mut i: usize = 0;
        while i < blocks.len()
            invariant
                i <= blocks.len() == counts.len(),
                before.len() == blocks.len(),
                views[e as int] == entry@,
                before == claim_counts(blocks@, views, e as int),
                after == claim_counts(blocks@, views, e + 1),
                forall|j: int| 0 <= j < i ==> #[trigger] counts@[j] == after[j],
                forall|j: int| i <= j < blocks.len() ==> #[trigger] counts@[j] == before[j],
            decreases blocks.len() - i,
        {
            let block = blocks[i];
            if block.start < entry.source_span_end && entry.source_span_start
                < block.end_exclusive() {
                counts[i] = counts[i].saturating_add(1);
            }
            i += 1;
        }
        assert(counts@ =~= after);
        e += 1;
    }
    counts
}

pub open spec fn pending(remaining_claims: usize) -> SlotView {
    SlotView {
        remaining_claims,
        live_claims: 0,
        fetch_count: 0,
        status: StatusView::Pending,
    }
}

/// A window in which nothing has been fetched.
pub open spec fn fresh_store(
    blocks: Seq<SourceRange>,
    claims: Seq<usize>,
    capacity: usize,
) -> StoreView {
    StoreView {
        blocks,
        slots: Seq::new(blocks.len(), |i: int| pending(claims[i])),
        resident_bytes: 0,
        capacity: capacity as u64,
    }
}

/// What comes of asking to fetch a block.
#[derive(Clone, Copy, Debug, PartialEq, Eq, Structural)]
pub enum ReserveFetchResult {
    /// The block is to be fetched.
    Reserved(SourceRange),
    /// The window is full.
    WaitForCapacity,
    AlreadyReady,
    AlreadyFetching,
    /// Nobody is to read the block.
    NoClaims,
    Failed,
}

pub open spec fn larger(a: u64, b: u64) -> u64 {
    if a > b {
        a
    } else {
        b
    }
}

/// What asking to fetch a block comes to.
///
/// A block fits if the window has room for it, and any block fits alone.
pub open spec fn reserve_outcome(store: StoreView, index: int) -> ReserveFetchResult {
    if !(0 <= index < store.blocks.len()) {
        ReserveFetchResult::Failed
    } else if store.slots[index].remaining_claims == 0 {
        ReserveFetchResult::NoClaims
    } else {
        match store.slots[index].status {
            StatusView::Fetching => ReserveFetchResult::AlreadyFetching,
            StatusView::Ready(_) => ReserveFetchResult::AlreadyReady,
            StatusView::Released => ReserveFetchResult::NoClaims,
            StatusView::Failed(_) => ReserveFetchResult::Failed,
            StatusView::Pending => {
                let len = store.blocks[index].len();
                if store.resident_bytes + len > larger(store.capacity, len) {
                    ReserveFetchResult::WaitForCapacity
                } else {
                    ReserveFetchResult::Reserved(store.blocks[index])
                }
            },
        }
    }
}

/// The window after asking to fetch a block.
pub open spec fn reserve_step(store: StoreView, index: int) -> StoreView {
    if reserve_outcome(store, index) is Reserved {
        StoreView {
            slots: store.slots.update(
                index,
                SlotView { status: StatusView::Fetching, ..store.slots[index] },
            ),
            resident_bytes: (store.resident_bytes + store.blocks[index].len()) as u64,
            ..store
        }
    } else {
        store
    }
}

/// What a fetch gave: the bytes, or the message of the failure.
pub enum FetchView {
    Fetched(Seq<u8>),
    Failed(Seq<char>),
}

pub open spec fn fetch_view(result: core::result::Result<Bytes, IoError>) -> FetchView {
    match result {
        Ok(bytes) => FetchView::Fetched(bytes_contents(bytes)),
        Err(error) => FetchView::Failed(error.message@),
    }
}

/// Whether nobody is to read the block any more.
pub open spec fn unclaimed(slot: SlotView) -> bool {
    slot.remaining_claims == 0 && slot.live_claims == 0
}

pub open spec fn more_fetches(count: u64) -> u64 {
    if count == u64::MAX {
        u64::MAX
    } else {
        (count + 1) as u64
    }
}

/// The window after a fetch. The bytes are kept only if somebody is to read them.
pub open spec fn finish_step(store: StoreView, index: int, fetch: FetchView) -> StoreView {
    if !(0 <= index < store.blocks.len()) {
        store
    } else {
        let slot = store.slots[index];
        let len = store.blocks[index].len();
        match fetch {
            FetchView::Fetched(bytes) => if unclaimed(slot) {
                StoreView {
                    slots: store.slots.update(
                        index,
                        SlotView {
                            fetch_count: more_fetches(slot.fetch_count),
                            status: StatusView::Released,
                            ..slot
                        },
                    ),
                    resident_bytes: less(store.resident_bytes, len),
                    ..store
                }
            } else {
                store.with_slot(
                    index,
                    SlotView {
                        fetch_count: more_fetches(slot.fetch_count),
                        status: StatusView::Ready(bytes),
                        ..slot
                    },
                )
            },
            FetchView::Failed(message) => StoreView {
                slots: store.slots.update(
                    index,
                    SlotView { status: StatusView::Failed(message), ..slot },
                ),
                resident_bytes: less(store.resident_bytes, len),
                ..store
            },
        }
    }
}

/// Whether a fetch gives room back to the window.
pub open spec fn finish_frees(store: StoreView, index: int, fetch: FetchView) -> bool {
    0 <= index < store.blocks.len() && (fetch is Failed || unclaimed(store.slots[index]))
}

/// The counters after a fetch.
pub open spec fn finish_counters(
    counters: SourceCounters,
    store: StoreView,
    index: int,
    fetch: FetchView,
) -> SourceCounters {
    if 0 <= index < store.blocks.len() && fetch is Fetched {
        SourceCounters {
            fetched_blocks: next_count(counters.fetched_blocks),
            block_releases: if unclaimed(store.slots[index]) {
                next_count(counters.block_releases)
            } else {
                counters.block_releases
            },
            ..counters
        }
    } else {
        counters
    }
}

/// A slot that one reader has left.
pub open spec fn left(slot: SlotView) -> SlotView {
    SlotView {
        live_claims: (slot.live_claims - 1) as usize,
        remaining_claims: one_less(slot.remaining_claims),
        ..slot
    }
}

/// Whether a reader that leaves a block is the last to hold its bytes.
pub open spec fn release_frees(store: StoreView, index: int) -> bool {
    0 <= index < store.blocks.len() && store.slots[index].live_claims > 0 && unclaimed(
        left(store.slots[index]),
    ) && store.slots[index].status is Ready
}

/// The window after a reader has left a block.
pub open spec fn release_step(store: StoreView, index: int) -> StoreView {
    if !(0 <= index < store.blocks.len()) || store.slots[index].live_claims == 0 {
        store
    } else if release_frees(store, index) {
        StoreView {
            slots: store.slots.update(
                index,
                SlotView { status: StatusView::Released, ..left(store.slots[index]) },
            ),
            resident_bytes: less(store.resident_bytes, store.blocks[index].len()),
            ..store
        }
    } else {
        store.with_slot(index, left(store.slots[index]))
    }
}

/// A slot with one more planned reader.
pub open spec fn claimed(slot: SlotView) -> SlotView {
    SlotView { remaining_claims: one_more(slot.remaining_claims), ..slot }
}

/// A slot that is to be read once more, and fetched again if its bytes are gone.
pub open spec fn replayed(slot: SlotView) -> SlotView {
    SlotView {
        status: match slot.status {
            StatusView::Released => StatusView::Pending,
            StatusView::Failed(_) => StatusView::Pending,
            status => status,
        },
        ..claimed(slot)
    }
}

/// The window with one more planned reader of each of the first `n` blocks listed.
pub open spec fn claim_step(store: StoreView, indices: Seq<usize>, n: int) -> StoreView
    decreases n,
{
    if n <= 0 {
        store
    } else {
        let before = claim_step(store, indices, n - 1);
        before.with_slot(indices[n - 1] as int, claimed(before.slots[indices[n - 1] as int]))
    }
}

/// The window with the first `n` blocks listed to be read once more.
pub open spec fn replay_step(store: StoreView, indices: Seq<usize>, n: int) -> StoreView
    decreases n,
{
    if n <= 0 {
        store
    } else {
        let before = replay_step(store, indices, n - 1);
        if indices[n - 1] < before.slots.len() {
            before.with_slot(indices[n - 1] as int, replayed(before.slots[indices[n - 1] as int]))
        } else {
            before
        }
    }
}

/// Why a reader cannot start on a block.
pub open spec fn admission_problem(store: StoreView, index: usize) -> Option<IoErrorView> {
    if index >= store.slots.len() {
        Some(
            IoErrorView {
                kind: IoErrorKind::InvalidInput,
                message: "source claim references an unknown block"@,
            },
        )
    } else if store.slots[index as int].remaining_claims == 0 {
        Some(
            IoErrorView {
                kind: IoErrorKind::Other,
                message: "source block has no remaining planned claims"@,
            },
        )
    } else if store.slots[index as int].status is Released {
        Some(
            IoErrorView {
                kind: IoErrorKind::Other,
                message: "source block was already released before the reader was admitted"@,
            },
        )
    } else {
        None
    }
}

/// Why a reader cannot start on the blocks listed from `k` on.
pub open spec fn admission_problem_from(store: StoreView, indices: Seq<usize>, k: int) -> Option<
    IoErrorView,
>
    decreases indices.len() - k,
{
    if k >= indices.len() {
        None
    } else {
        match admission_problem(store, indices[k]) {
            Some(error) => Some(error),
            None => admission_problem_from(store, indices, k + 1),
        }
    }
}

/// A slot with one more reader at work.
pub open spec fn entered(slot: SlotView) -> SlotView {
    SlotView { live_claims: one_more(slot.live_claims), ..slot }
}

/// The window with one more reader at work on each of the first `n` blocks listed.
pub open spec fn admit_step(store: StoreView, indices: Seq<usize>, n: int) -> StoreView
    decreases n,
{
    if n <= 0 {
        store
    } else {
        let before = admit_step(store, indices, n - 1);
        before.with_slot(indices[n - 1] as int, entered(before.slots[indices[n - 1] as int]))
    }
}

/// Bytes of one block.
#[derive(Debug)]
pub struct BlockSlice {
    /// Position of the first byte in the source.
    pub start: u64,
    pub bytes: Bytes,
}

/// What comes of reading from the window.
#[derive(Debug)]
pub enum SliceStep {
    Ready(BlockSlice),
    /// The block is not there yet: wait for it.
    Wait(usize),
    Failed(IoError),
}

/// The block that holds a position, if any: the first one.
pub open spec fn block_at(blocks: Seq<SourceRange>, from: int, position: u64) -> Option<usize>
    decreases blocks.len() - from,
{
    if from >= blocks.len() {
        None
    } else if blocks[from].contains(position as int) {
        Some(from as usize)
    } else {
        block_at(blocks, from + 1, position)
    }
}

pub proof fn lemma_block_at(blocks: Seq<SourceRange>, from: int, position: u64)
    requires
        0 <= from,
        blocks.len() <= usize::MAX,
    ensures
        block_at(blocks, from, position) is Some ==> block_at(blocks, from, position)->Some_0
            < blocks.len() && blocks[block_at(blocks, from, position)->Some_0 as int].contains(
            position as int,
        ),
    decreases blocks.len() - from,
{
    if from < blocks.len() && !blocks[from].contains(position as int) {
        lemma_block_at(blocks, from + 1, position);
    }
}

pub enum SliceView {
    Ready { start: u64, bytes: Seq<u8> },
    Wait(usize),
    Failed(IoErrorView),
}

impl View for SliceStep {
    type V = SliceView;

    open spec fn view(&self) -> SliceView {
        match self {
            SliceStep::Ready(slice) => SliceView::Ready {
                start: slice.start,
                bytes: bytes_contents(slice.bytes),
            },
            SliceStep::Wait(index) => SliceView::Wait(*index),
            SliceStep::Failed(error) => SliceView::Failed(error@),
        }
    }
}

/// What reading `position..end_exclusive` from the window comes to: the bytes
/// of the block that holds the position.
pub open spec fn slice_outcome(store: StoreView, position: u64, end_exclusive: u64) -> SliceView {
    match block_at(store.blocks, 0, position) {
        None => SliceView::Failed(
            IoErrorView {
                kind: IoErrorKind::UnexpectedEof,
                message: "source block missing"@,
            },
        ),
        Some(index) => {
            let block = store.blocks[index as int];
            let end = if block.end_exclusive() < end_exclusive {
                block.end_exclusive()
            } else {
                end_exclusive
            };
            match store.slots[index as int].status {
                StatusView::Ready(bytes) => SliceView::Ready {
                    start: position,
                    bytes: bytes.subrange(position - block.start, end - block.start),
                },
                StatusView::Failed(message) => SliceView::Failed(
                    IoErrorView { kind: IoErrorKind::Other, message },
                ),
                StatusView::Released => SliceView::Failed(
                    IoErrorView {
                        kind: IoErrorKind::Other,
                        message:
                            "source block was released before all claimed bytes were consumed"@,
                    },
                ),
                StatusView::Fetching => SliceView::Wait(index),
                StatusView::Pending => SliceView::Wait(index),
            }
        },
    }
}

/// The counters after reading from the window.
pub open spec fn slice_counters(counters: SourceCounters, outcome: SliceView) -> SourceCounters {
    match outcome {
        SliceView::Ready { start: _, bytes: _ } => SourceCounters {
            block_hits: next_count(counters.block_hits),
            ..counters
        },
        SliceView::Wait(_) => SourceCounters {
            block_waits: next_count(counters.block_waits),
            ..counters
        },
        SliceView::Failed(_) => counters,
    }
}

impl BlockStore {
    pub open spec fn wf(&self) -> bool {
        self@.wf()
    }

    fn build(blocks: Vec<SourceRange>, claims: Vec<usize>, window_capacity: usize) -> (store:
        BlockStore)
        requires
            claims.len() == blocks.len(),
        ensures
            store.wf(),
            store@ == fresh_store(blocks@, claims@, window_capacity),
    {
        let mut slots: Vec<BlockState> = Vec::new();
        let mut i: usize = 0;
        while i < blocks.len()
            invariant
                i <= blocks.len() == claims.len(),
                slots.len() == i,
                forall|k: int| 0 <= k < i ==> (#[trigger] slots@[k])@ == pending(claims@[k]),
            decreases blocks.len() - i,
        {
            slots.push(
                BlockState {
                    remaining_claims: claims[i],
                    live_claims: 0,
                    fetch_count: 0,
                    status: BlockStatus::Pending,
                },
            );
            i += 1;
        }
        let store = BlockStore {
            blocks,
            slots,
            resident_bytes: 0,
            capacity: window_capacity as u64,
        };
        assert(store@.slots =~= fresh_store(blocks@, claims@, window_capacity).slots);
        store
    }

    /// Creates a window over the blocks of a plan that nobody is to read yet.
    pub fn new(
        plan: SourcePlan,
        window_capacity: usize,
        diagnostics: &mut SourceDiagnosticsCollector,
    ) -> (store: BlockStore)
        ensures
            store.wf(),
            store@ == fresh_store(
                plan.blocks@,
                Seq::new(plan.blocks@.len(), |i: int| 0usize),
                window_capacity,
            ),
            final(diagnostics).source_zip_bytes == old(diagnostics).source_zip_bytes,
            final(diagnostics).fetched_coverage == old(diagnostics).fetched_coverage,
            final(diagnostics).counters == plan_counters(old(diagnostics).counters, plan),
    {
        diagnostics.record_plan(&plan);
        let none: Vec<ManifestEntry> = Vec::new();
        let claims = initial_claim_counts(&plan.blocks, &none);
        assert(claims@ =~= Seq::new(plan.blocks@.len(), |i: int| 0usize));
        BlockStore::build(plan.blocks, claims, window_capacity)
    }

    /// Creates a window over the blocks of a plan that entries are to read.
    pub fn with_entries(
        plan: SourcePlan,
        entries: &Vec<ManifestEntry>,
        window_capacity: usize,
        diagnostics: &mut SourceDiagnosticsCollector,
    ) -> (store: BlockStore)
        ensures
            store.wf(),
            store@ == fresh_store(
                plan.blocks@,
                claim_counts(plan.blocks@, manifest_views(entries@), entries@.len() as int),
                window_capacity,
            ),
            final(diagnostics).source_zip_bytes == old(diagnostics).source_zip_bytes,
            final(diagnostics).fetched_coverage == old(diagnostics).fetched_coverage,
            final(diagnostics).counters == plan_counters(old(diagnostics).counters, plan),
    {
        diagnostics.record_plan(&plan);
        let claims = initial_claim_counts(&plan.blocks, entries);
        proof {
            lemma_claim_counts_len(plan.blocks@, manifest_views(entries@), entries@.len() as int);
        }
        BlockStore::build(plan.blocks, claims, window_capacity)
    }

    /// The blocks that hold bytes of a span.
    pub fn block_indices_for_span(&self, start: u64, end_exclusive: u64) -> (indices: Vec<usize>)
        ensures
            indices@ == span_blocks(self@.blocks, start, end_exclusive),
    {
        if start >= end_exclusive {
            return Vec::new();
        }
        block_indices_for_span(&self.blocks, start, end_exclusive)
    }

    /// The number of blocks.
    pub fn block_count(&self) -> (count: usize)
        ensures
            count == self@.blocks.len(),
    {
        self.blocks.len()
    }

    /// The range of a block.
    pub fn block_range(&self, index: usize) -> (range: Option<SourceRange>)
        ensures
            range == if index < self@.blocks.len() {
                Some(self@.blocks[index as int])
            } else {
                None
            },
    {
        if index < self.blocks.len() {
            Some(self.blocks[index])
        } else {
            None
        }
    }

    /// The bytes that the window holds or has reserved.
    pub fn resident_bytes(&self) -> (bytes: u64)
        ensures
            bytes == self@.resident_bytes,
    {
        self.resident_bytes
    }

    /// Whether the bytes of a block are there.
    pub fn is_block_ready(&self, index: usize) -> (ready: bool)
        requires
            self.wf(),
        ensures
            ready == (index < self@.blocks.len() && self@.slots[index as int].status is Ready),
    {
        if index < self.slots.len() {
            assert(self@.slots[index as int] == self.slots@[index as int]@);
            matches!(self.slots[index].status, BlockStatus::Ready(_))
        } else {
            false
        }
    }

    /// The last position of a block.
    pub fn block_end(&self, index: usize) -> (end: Option<u64>)
        ensures
            end == if index < self@.blocks.len() {
                Some(self@.blocks[index as int].end)
            } else {
                None
            },
    {
        if index < self.blocks.len() {
            Some(self.blocks[index].end)
        } else {
            None
        }
    }

    /// Asks to fetch a block.
    pub fn reserve_fetch(
        &mut self,
        index: usize,
        diagnostics: &mut SourceDiagnosticsCollector,
    ) -> (result: ReserveFetchResult)
        requires
            old(self).wf(),
        ensures
            final(self).wf(),
            result == reserve_outcome(old(self)@, index as int),
            final(self)@ == reserve_step(old(self)@, index as int),
            *final(diagnostics) == with_counters(
                *old(diagnostics),
                SourceCounters {
                    block_refetches: if result is Reserved && old(
                        self,
                    )@.slots[index as int].fetch_count > 0 {
                        next_count(old(diagnostics).counters.block_refetches)
                    } else {
                        old(diagnostics).counters.block_refetches
                    },
                    ..old(diagnostics).counters
                },
            ),
    {
        if index >= self.blocks.len() {
            return ReserveFetchResult::Failed;
        }
        let ghost before = self@;
        assert(before.slots[index as int] == self.slots@[index as int]@);
        if self.slots[index].remaining_claims == 0 {
            return ReserveFetchResult::NoClaims;
        }
        match &self.slots[index].status {
            BlockStatus::Pending => {},
            BlockStatus::Fetching => return ReserveFetchResult::AlreadyFetching,
            BlockStatus::Ready(_) => return ReserveFetchResult::AlreadyReady,
            BlockStatus::Released => return ReserveFetchResult::NoClaims,
            BlockStatus::Failed(_) => return ReserveFetchResult::Failed,
        }
        let block = self.blocks[index];
        let len: u64 = block.len();
        let target: u64 = if self.capacity > len {
            self.capacity
        } else {
            len
        };
        match self.resident_bytes.checked_add(len) {
            Some(needed) => if needed > target {
                return ReserveFetchResult::WaitForCapacity;
            },
            None => return ReserveFetchResult::WaitForCapacity,
        }
        if self.slots[index].fetch_count > 0 {
            diagnostics.record_block_refetch();
        }
        self.resident_bytes = self.resident_bytes + len;
        self.slots[index].status = BlockStatus::Fetching;
        assert(self@.slots =~= reserve_step(before, index as int).slots);
        ReserveFetchResult::Reserved(block)
    }

    /// Takes in what a fetch gave. Returns whether the window got room back.
    pub fn finish_fetch(
        &mut self,
        index: usize,
        result: core::result::Result<Bytes, IoError>,
        diagnostics: &mut SourceDiagnosticsCollector,
    ) -> (freed: bool)
        requires
            old(self).wf(),
            index < old(self)@.blocks.len() ==> match fetch_view(result) {
                FetchView::Fetched(bytes) => bytes.len() == old(
                    self,
                )@.blocks[index as int].len(),
                FetchView::Failed(_) => true,
            },
        ensures
            final(self).wf(),
            final(self)@ == finish_step(old(self)@, index as int, fetch_view(result)),
            freed == finish_frees(old(self)@, index as int, fetch_view(result)),
            *final(diagnostics) == with_counters(
                *old(diagnostics),
                finish_counters(
                    old(diagnostics).counters,
                    old(self)@,
                    index as int,
                    fetch_view(result),
                ),
            ),
    {
        if index >= self.blocks.len() {
            return false;
        }
        let ghost before = self@;
        let ghost fetch = fetch_view(result);
        assert(before.slots[index as int] == self.slots@[index as int]@);
        let len: u64 = self.blocks[index].len();
        let freed: bool = match result {
            Ok(bytes) => {
                diagnostics.record_block_fetched();
                self.slots[index].fetch_count = self.slots[index].fetch_count.saturating_add(1);
                if self.slots[index].remaining_claims == 0 && self.slots[index].live_claims == 0 {
                    self.resident_bytes = self.resident_bytes.saturating_sub(len);
                    self.slots[index].status = BlockStatus::Released;
                    diagnostics.record_block_release();
                    true
                } else {
                    self.slots[index].status = BlockStatus::Ready(bytes);
                    false
                }
            },
            Err(error) => {
                self.resident_bytes = self.resident_bytes.saturating_sub(len);
                self.slots[index].status = BlockStatus::Failed(error.message);
                true
            },
        };
        assert(self@.slots =~= finish_step(before, index as int, fetch).slots);
        freed
    }

    /// Lets a reader leave a block. Returns whether the window got room back.
    pub fn release_block_reader(
        &mut self,
        index: usize,
        diagnostics: &mut SourceDiagnosticsCollector,
    ) -> (freed: bool)
        requires
            old(self).wf(),
        ensures
            final(self).wf(),
            final(self)@ == release_step(old(self)@, index as int),
            freed == release_frees(old(self)@, index as int),
            *final(diagnostics) == with_counters(
                *old(diagnostics),
                SourceCounters {
                    block_releases: if freed {
                        next_count(old(diagnostics).counters.block_releases)
                    } else {
                        old(diagnostics).counters.block_releases
                    },
                    ..old(diagnostics).counters
                },
            ),
    {
        if index >= self.blocks.len() {
            return false;
        }
        let ghost before = self@;
        assert(before.slots[index as int] == self.slots@[index as int]@);
        if self.slots[index].live_claims == 0 {
            return false;
        }
        let live: usize = self.slots[index].live_claims - 1;
        let remaining: usize = self.slots[index].remaining_claims.saturating_sub(1);
        self.slots[index].live_claims = live;
        self.slots[index].remaining_claims = remaining;
        let ready: bool = matches!(self.slots[index].status, BlockStatus::Ready(_));
        let freed: bool = live == 0 && remaining == 0 && ready;
        if freed {
            self.slots[index].status = BlockStatus::Released;
            let len: u64 = self.blocks[index].len();
            self.resident_bytes = self.resident_bytes.saturating_sub(len);
            diagnostics.record_block_release();
        }
        assert(self@.slots =~= release_step(before, index as int).slots);
        freed
    }
}

/// The counters after a plan is recorded.
pub open spec fn plan_counters(counters: SourceCounters, plan: SourcePlan) -> SourceCounters {
    SourceCounters {
        planned_entries: crate::diagnostics::wrapped_sum(
            counters.planned_entries,
            plan.planned_entries as u64,
        ),
        planned_blocks: crate::diagnostics::wrapped_sum(
            counters.planned_blocks,
            plan.blocks@.len() as u64,
        ),
        planned_source_bytes: crate::diagnostics::wrapped_sum(
            counters.planned_source_bytes,
            crate::diagnostics::block_bytes(plan.blocks@, plan.blocks@.len() as int),
        ),
        ..counters
    }
}

proof fn lemma_claim_counts_len(
    blocks: Seq<SourceRange>,
    entries: Seq<ManifestEntryView>,
    n: int,
)
    ensures
        claim_counts(blocks, entries, n).len() == blocks.len(),
{
}

/// Whether every block listed exists.
pub open spec fn indices_known(store: StoreView, indices: Seq<usize>) -> bool {
    forall|k: int| 0 <= k < indices.len() ==> (#[trigger] indices[k]) < store.slots.len()
}

/// The number of blocks fits `usize`.
pub(crate) proof fn lemma_block_count(store: &BlockStore)
    ensures
        store@.blocks.len() <= usize::MAX,
{
    assert(store.blocks.len() <= usize::MAX);
}

pub proof fn lemma_span_blocks_known(store: StoreView, start: u64, end_exclusive: u64)
    requires
        store.wf(),
        store.blocks.len() <= usize::MAX,
    ensures
        indices_known(store, span_blocks(store.blocks, start, end_exclusive)),
{
    lemma_overlapping(store.blocks, store.blocks.len() as int, start, end_exclusive);
}

proof fn lemma_claim_step(store: StoreView, indices: Seq<usize>, n: int)
    requires
        store.wf(),
        indices_known(store, indices),
        0 <= n <= indices.len(),
    ensures
        claim_step(store, indices, n).wf(),
        claim_step(store, indices, n).slots.len() == store.slots.len(),
        claim_step(store, indices, n).blocks == store.blocks,
    decreases n,
{
    if n > 0 {
        lemma_claim_step(store, indices, n - 1);
        assert(indices[n - 1] < store.slots.len());
    }
}

proof fn lemma_replay_step(store: StoreView, indices: Seq<usize>, n: int)
    requires
        store.wf(),
        0 <= n <= indices.len(),
    ensures
        replay_step(store, indices, n).wf(),
        replay_step(store, indices, n).slots.len() == store.slots.len(),
        replay_step(store, indices, n).blocks == store.blocks,
    decreases n,
{
    if n > 0 {
        lemma_replay_step(store, indices, n - 1);
    }
}

pub proof fn lemma_admit_step(store: StoreView, indices: Seq<usize>, n: int)
    requires
        store.wf(),
        indices_known(store, indices),
        0 <= n <= indices.len(),
    ensures
        admit_step(store, indices, n).wf(),
        admit_step(store, indices, n).slots.len() == store.slots.len(),
        admit_step(store, indices, n).blocks == store.blocks,
    decreases n,
{
    if n > 0 {
        lemma_admit_step(store, indices, n - 1);
        assert(indices[n - 1] < store.slots.len());
    }
}

proof fn lemma_admissible(store: StoreView, indices: Seq<usize>, from: int, k: int)
    requires
        admission_problem_from(store, indices, from) is None,
        0 <= from <= k < indices.len(),
    ensures
        admission_problem(store, indices[k]) is None,
    decreases k - from,
{
    if from < k {
        lemma_admissible(store, indices, from + 1, k);
    }
}

impl BlockStore {
    /// Plans one more reader of the blocks that hold an entry's bytes.
    pub fn retain_entry(&mut self, entry: &ManifestEntry)
        requires
            old(self).wf(),
        ensures
            final(self).wf(),
            final(self)@ == ({
                let indices = span_blocks(
                    old(self)@.blocks,
                    entry.source_span_start,
                    entry.source_span_end,
                );
                claim_step(old(self)@, indices, indices.len() as int)
            }),
    {
        let indices = self.block_indices_for_span(entry.source_span_start, entry.source_span_end);
        proof {
            assert(self.blocks.len() <= usize::MAX);
            lemma_span_blocks_known(self@, entry.source_span_start, entry.source_span_end);
        }
        self.add_remaining_claims(&indices);
    }

    fn add_remaining_claims(&mut self, indices: &Vec<usize>)
        requires
            old(self).wf(),
            indices_known(old(self)@, indices@),
        ensures
            final(self).wf(),
            final(self)@ == claim_step(old(self)@, indices@, indices@.len() as int),
    {
        let ghost start = self@;
        let mut k: usize = 0;
        while k < indices.len()
            invariant
                k <= indices.len(),
                start.wf(),
                indices_known(start, indices@),
                self@ == claim_step(start, indices@, k as int),
                self.wf(),
                self@.slots.len() == start.slots.len(),
            decreases indices.len() - k,
        {
            let index: usize = indices[k];
            assert(indices@[k as int] < start.slots.len());
            let ghost before = self@;
            assert(before.slots[index as int] == self.slots@[index as int]@);
            let claims: usize = self.slots[index].remaining_claims.saturating_add(1);
            self.slots[index].remaining_claims = claims;
            k += 1;
            assert(self@.slots =~= claim_step(start, indices@, k as int).slots);
            proof {
                lemma_claim_step(start, indices@, k as int);
            }
        }
    }

    /// Plans one more reader of each block listed, and lets the blocks whose
    /// bytes are gone be fetched again. Unknown blocks are passed over.
    pub fn add_replay_claims(&mut self, indices: &Vec<usize>)
        requires
            old(self).wf(),
        ensures
            final(self).wf(),
            final(self)@ == replay_step(old(self)@, indices@, indices@.len() as int),
    {
        let ghost start = self@;
        let mut k: usize = 0;
        while k < indices.len()
            invariant
                k <= indices.len(),
                start.wf(),
                self@ == replay_step(start, indices@, k as int),
                self.wf(),
            decreases indices.len() - k,
        {
            let index: usize = indices[k];
            let ghost before = self@;
            if index < self.slots.len() {
                assert(before.slots[index as int] == self.slots@[index as int]@);
                let claims: usize = self.slots[index].remaining_claims.saturating_add(1);
                let gone: bool = matches!(
                    self.slots[index].status,
                    BlockStatus::Released | BlockStatus::Failed(_)
                );
                self.slots[index].remaining_claims = claims;
                if gone {
                    self.slots[index].status = BlockStatus::Pending;
                }
            }
            k += 1;
            assert(self@.slots =~= replay_step(start, indices@, k as int).slots);
            proof {
                lemma_replay_step(start, indices@, k as int);
            }
        }
    }

    /// Plans to read an entry once more. Returns the blocks to fetch again.
    pub fn start_entry_replay(&mut self, entry: &ManifestEntry) -> (indices: Vec<usize>)
        requires
            old(self).wf(),
        ensures
            final(self).wf(),
            indices@ == span_blocks(
                old(self)@.blocks,
                entry.source_span_start,
                entry.source_span_end,
            ),
            final(self)@ == replay_step(old(self)@, indices@, indices@.len() as int),
    {
        let indices = self.block_indices_for_span(entry.source_span_start, entry.source_span_end);
        self.add_replay_claims(&indices);
        indices
    }

    /// Lets a reader start on the blocks listed, or says why it cannot.
    pub fn activate_block_indices(&mut self, indices: &Vec<usize>) -> (result: core::result::Result<
        (),
        IoError,
    >)
        requires
            old(self).wf(),
        ensures
            final(self).wf(),
            match admission_problem_from(old(self)@, indices@, 0) {
                Some(error) => result is Err && result->Err_0@ == error && final(self)@ == old(
                    self,
                )@,
                None => result is Ok && final(self)@ == admit_step(
                    old(self)@,
                    indices@,
                    indices@.len() as int,
                ),
            },
    {
        let ghost start = self@;
        let mut k: usize = 0;
        while k < indices.len()
            invariant
                k <= indices.len(),
                self@ == start,
                *self == *old(self),
                self.wf(),
                admission_problem_from(start, indices@, 0) == admission_problem_from(
                    start,
                    indices@,
                    k as int,
                ),
            decreases indices.len() - k,
        {
            let index: usize = indices[k];
            if index >= self.slots.len() {
                return Err(
                    IoError::new(
                        IoErrorKind::InvalidInput,
                        "source claim references an unknown block",
                    ),
                );
            }
            assert(start.slots[index as int] == self.slots@[index as int]@);
            if self.slots[index].remaining_claims == 0 {
                return Err(
                    IoError::new(
                        IoErrorKind::Other,
                        "source block has no remaining planned claims",
                    ),
                );
            }
            if matches!(self.slots[index].status, BlockStatus::Released) {
                return Err(
                    IoError::new(
                        IoErrorKind::Other,
                        "source block was already released before the reader was admitted",
                    ),
                );
            }
            k += 1;
        }
        proof {
            assert forall|j: int| 0 <= j < indices.len() implies (#[trigger] indices@[j])
                < start.slots.len() by {
                lemma_admissible(start, indices@, 0, j);
            }
        }
        let mut m: usize = 0;
        while m < indices.len()
            invariant
                m <= indices.len(),
                start.wf(),
                indices_known(start, indices@),
                self@ == admit_step(start, indices@, m as int),
                self.wf(),
                self@.slots.len() == start.slots.len(),
            decreases indices.len() - m,
        {
            let index: usize = indices[m];
            assert(indices@[m as int] < start.slots.len());
            let ghost before = self@;
            assert(before.slots[index as int] == self.slots@[index as int]@);
            let live: usize = self.slots[index].live_claims.saturating_add(1);
            self.slots[index].live_claims = live;
            m += 1;
            assert(self@.slots =~= admit_step(start, indices@, m as int).slots);
            proof {
                lemma_admit_step(start, indices@, m as int);
            }
        }
        Ok(())
    }

    fn block_index_at(&self, position: u64) -> (index: Option<usize>)
        ensures
            index == block_at(self@.blocks, 0, position),
            index is Some ==> index->Some_0 < self@.blocks.len()
                && self@.blocks[index->Some_0 as int].contains(position as int),
    {
        let mut index: usize = 0;
        while index < self.blocks.len()
            invariant
                index <= self.blocks.len(),
                block_at(self@.blocks, 0, position) == block_at(
                    self@.blocks,
                    index as int,
                    position,
                ),
            decreases self.blocks.len() - index,
        {
            let block = self.blocks[index];
            if block.start <= position && position <= block.end {
                return Some(index);
            }
            index += 1;
        }
        None
    }

    /// Reads the bytes from `position` to the end of its block or of the span.
    pub fn slice_from(
        &self,
        position: u64,
        end_exclusive: u64,
        diagnostics: &mut SourceDiagnosticsCollector,
    ) -> (step: SliceStep)
        requires
            self.wf(),
            position < end_exclusive,
        ensures
            step@ == slice_outcome(self@, position, end_exclusive),
            *final(diagnostics) == with_counters(
                *old(diagnostics),
                slice_counters(old(diagnostics).counters, step@),
            ),
    {
        let index: usize = match self.block_index_at(position) {
            Some(index) => index,
            None => return SliceStep::Failed(
                IoError::new(IoErrorKind::UnexpectedEof, "source block missing"),
            ),
        };
        let block = self.blocks[index];
        let block_end: u64 = block.end_exclusive();
        let end: u64 = if block_end < end_exclusive {
            block_end
        } else {
            end_exclusive
        };
        assert(self@.slots[index as int] == self.slots@[index as int]@);
        match &self.slots[index].status {
            BlockStatus::Ready(bytes) => {
                diagnostics.record_block_hit();
                let held: usize = bytes.len();
                assert(held == block.len());
                let from: usize = (position - block.start) as usize;
                let to: usize = (end - block.start) as usize;
                SliceStep::Ready(BlockSlice { start: position, bytes: slice_bytes(bytes, from, to) })
            },
            BlockStatus::Failed(message) => SliceStep::Failed(
                IoError::new(IoErrorKind::Other, message),
            ),
            BlockStatus::Released => SliceStep::Failed(
                IoError::new(
                    IoErrorKind::Other,
                    "source block was released before all claimed bytes were consumed",
                ),
            ),
            BlockStatus::Fetching | BlockStatus::Pending => {
                diagnostics.record_block_wait();
                SliceStep::Wait(index)
            },
        }
    }
}

} // verus!

//! Reading a span of the source through the block window.
use bytes::Bytes;
use vstd::prelude::*;

use crate::block_store::{
    admission_problem_from, admit_step, indices_known, lemma_block_count, release_frees,
    release_step, slice_counters, slice_outcome, span_blocks, BlockStore, SliceStep, SliceView,
    StatusView, StoreView,
};
use crate::buffers::{bytes_contents, no_bytes, slice_bytes};
use crate::diagnostics::{with_counters, SourceCounters, SourceDiagnosticsCollector};
use crate::error::IoError;
use crate::report::next_count;
use crate::source_plan::SourceRange;

verus! {

/// A reader of the bytes `position..end_exclusive` of the source.
#[derive(Debug)]
pub struct BlockRangeReader {
    pub position: u64,
    pub end_exclusive: u64,
    /// Position of the first buffered byte.
    pub buffer_start: u64,
    pub buffer: Bytes,
    /// The blocks that hold the span.
    pub claimed_blocks: Vec<usize>,
    /// How many of them the reader has left.
    pub left_blocks: usize,
}

/// What comes of reading.
#[derive(Debug)]
pub enum ReadStep {
    /// Bytes read; none at the end of the span or where none were asked for.
    Data(Bytes),
    /// The block is not there yet: wait for it.
    Wait(usize),
    Failed(IoError),
}

/// The window after a reader has left the blocks listed in `from..to`.
pub open spec fn leave_blocks(store: StoreView, blocks: Seq<usize>, from: int, to: int) -> StoreView
    decreases to - from,
{
    if to <= from {
        store
    } else {
        release_step(leave_blocks(store, blocks, from, to - 1), blocks[to - 1] as int)
    }
}

/// The first block listed from `from` on that a reader at `position` still needs.
pub open spec fn needed_from(
    ranges: Seq<SourceRange>,
    blocks: Seq<usize>,
    from: int,
    position: u64,
) -> int
    decreases blocks.len() - from,
{
    if from >= blocks.len() {
        from
    } else if ranges[blocks[from] as int].end < position {
        needed_from(ranges, blocks, from + 1, position)
    } else {
        from
    }
}

/// Whether every ready block of the window holds the bytes of a source.
pub open spec fn store_holds(store: StoreView, source: Seq<u8>) -> bool {
    forall|i: int|
        0 <= i < store.slots.len() ==> match (#[trigger] store.slots[i]).status {
            StatusView::Ready(bytes) => {
                let block = store.blocks[i];
                block.start <= block.end < source.len() && bytes == source.subrange(
                    block.start as int,
                    block.end + 1,
                )
            },
            _ => true,
        }
}

impl BlockRangeReader {
    pub open spec fn wf(&self, store: StoreView) -> bool {
        &&& indices_known(store, self.claimed_blocks@)
        &&& self.left_blocks <= self.claimed_blocks@.len()
        &&& bytes_contents(self.buffer).len() > 0 ==> self.buffer_start + bytes_contents(
            self.buffer,
        ).len() <= self.end_exclusive
    }

    /// Whether the next byte to read is buffered.
    pub open spec fn buffered(&self) -> bool {
        self.buffer_start <= self.position < self.buffer_start + bytes_contents(self.buffer).len()
    }

    /// Whether the buffer holds bytes of a source.
    pub open spec fn holds(&self, source: Seq<u8>) -> bool {
        &&& self.buffer_start + bytes_contents(self.buffer).len() <= source.len()
        &&& bytes_contents(self.buffer) == source.subrange(
            self.buffer_start as int,
            self.buffer_start + bytes_contents(self.buffer).len(),
        )
    }

    /// Starts to read a span, or says why its blocks cannot be read.
    pub fn new(store: &mut BlockStore, start: u64, end_exclusive: u64) -> (result:
        core::result::Result<BlockRangeReader, IoError>)
        requires
            old(store).wf(),
        ensures
            final(store).wf(),
            ({
                let blocks = span_blocks(old(store)@.blocks, start, end_exclusive);
                match admission_problem_from(old(store)@, blocks, 0) {
                    Some(error) => result is Err && result->Err_0@ == error && final(store)@
                        == old(store)@,
                    None => {
                        &&& result is Ok
                        &&& final(store)@ == admit_step(old(store)@, blocks, blocks.len() as int)
                        &&& result->Ok_0.wf(final(store)@)
                        &&& result->Ok_0.position == start
                        &&& result->Ok_0.end_exclusive == end_exclusive
                        &&& result->Ok_0.claimed_blocks@ == blocks
                        &&& result->Ok_0.left_blocks == 0
                        &&& result->Ok_0.buffer_start == start
                        &&& bytes_contents(result->Ok_0.buffer) == Seq::<u8>::empty()
                        &&& forall|source: Seq<u8>|
                            start <= source.len() ==> #[trigger] result->Ok_0.holds(source)
                    },
                }
            }),
    {
        let blocks = store.block_indices_for_span(start, end_exclusive);
        let ghost before = store@;
        proof {
            lemma_block_count(store);
            crate::block_store::lemma_span_blocks_known(before, start, end_exclusive);
        }
        match store.activate_block_indices(&blocks) {
            Err(error) => Err(error),
            Ok(()) => {
                proof {
                    crate::block_store::lemma_admit_step(before, blocks@, blocks@.len() as int);
                }
                let reader = BlockRangeReader {
                    position: start,
                    end_exclusive,
                    buffer_start: start,
                    buffer: no_bytes(),
                    claimed_blocks: blocks,
                    left_blocks: 0,
                };
                assert forall|source: Seq<u8>| start <= source.len() implies #[trigger] reader.holds(
                    source,
                ) by {
                    assert(bytes_contents(reader.buffer) =~= source.subrange(
                        start as int,
                        start as int,
                    ));
                }
                Ok(reader)
            },
        }
    }
}

/// The count of releases after a reader has left the blocks listed in `from..to`.
pub open spec fn leave_count(
    count: u64,
    store: StoreView,
    blocks: Seq<usize>,
    from: int,
    to: int,
) -> u64
    decreases to - from,
{
    if to <= from {
        count
    } else {
        let before = leave_count(count, store, blocks, from, to - 1);
        if release_frees(leave_blocks(store, blocks, from, to - 1), blocks[to - 1] as int) {
            next_count(before)
        } else {
            before
        }
    }
}

/// Whether leaving the blocks listed in `from..to` gives room back to the window.
pub open spec fn leave_frees(store: StoreView, blocks: Seq<usize>, from: int, to: int) -> bool
    decreases to - from,
{
    from < to && (leave_frees(store, blocks, from, to - 1) || release_frees(
        leave_blocks(store, blocks, from, to - 1),
        blocks[to - 1] as int,
    ))
}

/// The counters of a collector after blocks were left.
pub open spec fn with_releases(collector: SourceDiagnosticsCollector, releases: u64) -> SourceDiagnosticsCollector {
    with_counters(
        collector,
        SourceCounters { block_releases: releases, ..collector.counters },
    )
}

proof fn lemma_leave_blocks(store: StoreView, blocks: Seq<usize>, from: int, to: int)
    requires
        store.wf(),
        indices_known(store, blocks),
        0 <= from,
        to <= blocks.len(),
    ensures
        leave_blocks(store, blocks, from, to).wf(),
        leave_blocks(store, blocks, from, to).blocks == store.blocks,
        leave_blocks(store, blocks, from, to).slots.len() == store.slots.len(),
        leave_blocks(store, blocks, from, to).capacity == store.capacity,
        forall|source: Seq<u8>| #[trigger]
            store_holds(store, source) ==> store_holds(
                leave_blocks(store, blocks, from, to),
                source,
            ),
    decreases to - from,
{
    if from < to {
        lemma_leave_blocks(store, blocks, from, to - 1);
        let before = leave_blocks(store, blocks, from, to - 1);
        let after = leave_blocks(store, blocks, from, to);
        assert(blocks[to - 1] < store.slots.len());
        assert forall|source: Seq<u8>| #[trigger] store_holds(store, source) implies store_holds(
            after,
            source,
        ) by {
            assert(store_holds(before, source));
            assert forall|i: int| 0 <= i < after.slots.len() implies match (
            #[trigger] after.slots[i]).status {
                StatusView::Ready(bytes) => {
                    let block = after.blocks[i];
                    block.start <= block.end < source.len() && bytes == source.subrange(
                        block.start as int,
                        block.end + 1,
                    )
                },
                _ => true,
            } by {
            }
        }
    }
}

proof fn lemma_leave_twice(
    store: StoreView,
    blocks: Seq<usize>,
    from: int,
    middle: int,
    to: int,
    count: u64,
)
    requires
        from <= middle <= to,
    ensures
        leave_blocks(leave_blocks(store, blocks, from, middle), blocks, middle, to)
            == leave_blocks(store, blocks, from, to),
        leave_count(
            leave_count(count, store, blocks, from, middle),
            leave_blocks(store, blocks, from, middle),
            blocks,
            middle,
            to,
        ) == leave_count(count, store, blocks, from, to),
        (leave_frees(store, blocks, from, middle) || leave_frees(
            leave_blocks(store, blocks, from, middle),
            blocks,
            middle,
            to,
        )) == leave_frees(store, blocks, from, to),
    decreases to - middle,
{
    if middle < to {
        lemma_leave_twice(store, blocks, from, middle, to - 1, count);
    }
}

proof fn lemma_needed_from(ranges: Seq<SourceRange>, blocks: Seq<usize>, from: int, position: u64)
    requires
        0 <= from <= blocks.len(),
    ensures
        from <= needed_from(ranges, blocks, from, position) <= blocks.len(),
        forall|k: int|
            from <= k < needed_from(ranges, blocks, from, position) ==> ranges[(
            #[trigger] blocks[k]) as int].end < position,
        needed_from(ranges, blocks, from, position) < blocks.len() ==> ranges[blocks[needed_from(
            ranges,
            blocks,
            from,
            position,
        )] as int].end >= position,
    decreases blocks.len() - from,
{
    if from < blocks.len() && ranges[blocks[from] as int].end < position {
        lemma_needed_from(ranges, blocks, from + 1, position);
    }
}

proof fn lemma_needed_later(
    ranges: Seq<SourceRange>,
    blocks: Seq<usize>,
    from: int,
    position: u64,
    later: u64,
)
    requires
        0 <= from <= blocks.len(),
        position <= later,
    ensures
        needed_from(ranges, blocks, needed_from(ranges, blocks, from, position), later)
            == needed_from(ranges, blocks, from, later),
    decreases blocks.len() - from,
{
    if from < blocks.len() && ranges[blocks[from] as int].end < position {
        lemma_needed_later(ranges, blocks, from + 1, position, later);
    }
}

impl BlockRangeReader {
    /// Leaves the blocks that lie before the position. Returns whether the
    /// window got room back.
    pub fn release_finished_blocks(
        &mut self,
        store: &mut BlockStore,
        diagnostics: &mut SourceDiagnosticsCollector,
    ) -> (freed: bool)
        requires
            old(store).wf(),
            old(self).wf(old(store)@),
        ensures
            final(store).wf(),
            final(self).wf(final(store)@),
            final(self).left_blocks == needed_from(
                old(store)@.blocks,
                old(self).claimed_blocks@,
                old(self).left_blocks as int,
                old(self).position,
            ),
            *final(self) == (BlockRangeReader {
                left_blocks: final(self).left_blocks,
                ..*old(self)
            }),
            final(store)@ == leave_blocks(
                old(store)@,
                old(self).claimed_blocks@,
                old(self).left_blocks as int,
                final(self).left_blocks as int,
            ),
            freed == leave_frees(
                old(store)@,
                old(self).claimed_blocks@,
                old(self).left_blocks as int,
                final(self).left_blocks as int,
            ),
            *final(diagnostics) == with_releases(
                *old(diagnostics),
                leave_count(
                    old(diagnostics).counters.block_releases,
                    old(store)@,
                    old(self).claimed_blocks@,
                    old(self).left_blocks as int,
                    final(self).left_blocks as int,
                ),
            ),
    {
        let ghost start = store@;
        let ghost from = self.left_blocks as int;
        let ghost blocks = self.claimed_blocks@;
        let ghost collector = *diagnostics;
        let mut freed: bool = false;
        loop
            invariant
                start.wf(),
                store.wf(),
                0 <= from <= self.left_blocks <= blocks.len(),
                blocks == self.claimed_blocks@,
                indices_known(start, blocks),
                self.wf(start),
                *self == (BlockRangeReader { left_blocks: self.left_blocks, ..*old(self) }),
                needed_from(start.blocks, blocks, from, self.position) == needed_from(
                    start.blocks,
                    blocks,
                    self.left_blocks as int,
                    self.position,
                ),
                store@ == leave_blocks(start, blocks, from, self.left_blocks as int),
                store@.blocks == start.blocks,
                store@.slots.len() == start.slots.len(),
                freed == leave_frees(start, blocks, from, self.left_blocks as int),
                *diagnostics == with_releases(
                    collector,
                    leave_count(
                        collector.counters.block_releases,
                        start,
                        blocks,
                        from,
                        self.left_blocks as int,
                    ),
                ),
            ensures
                self.left_blocks == needed_from(start.blocks, blocks, from, self.position),
            decreases blocks.len() - self.left_blocks,
        {
            if self.left_blocks >= self.claimed_blocks.len() {
                break;
            }
            let index: usize = self.claimed_blocks[self.left_blocks];
            assert(blocks[self.left_blocks as int] < start.slots.len());
            let done: bool = match store.block_end(index) {
                Some(end) => end < self.position,
                None => true,
            };
            if !done {
                break;
            }
            if store.release_block_reader(index, diagnostics) {
                freed = true;
            }
            self.left_blocks += 1;
            proof {
                lemma_leave_blocks(start, blocks, from, self.left_blocks as int);
            }
        }
        freed
    }
}

/// What a reader finds at its position once the blocks behind it are left:
/// buffered bytes, or what the window gives.
pub open spec fn found_bytes(reader: BlockRangeReader, store: StoreView) -> SliceView {
    if reader.buffered() {
        SliceView::Ready {
            start: reader.position,
            bytes: bytes_contents(reader.buffer).skip(reader.position - reader.buffer_start),
        }
    } else {
        let to = needed_from(
            store.blocks,
            reader.claimed_blocks@,
            reader.left_blocks as int,
            reader.position,
        );
        slice_outcome(
            leave_blocks(store, reader.claimed_blocks@, reader.left_blocks as int, to),
            reader.position,
            reader.end_exclusive,
        )
    }
}

/// Whether a read takes a slice of a block into the buffer: there is something
/// to read, it is not buffered, and the window has it.
pub open spec fn takes_slice(reader: BlockRangeReader, store: StoreView, max: usize) -> bool {
    &&& reader.position < reader.end_exclusive
    &&& max > 0
    &&& !reader.buffered()
    &&& found_bytes(reader, store) is Ready
}

pub open spec fn at_most(bytes: Seq<u8>, max: usize) -> Seq<u8> {
    if bytes.len() <= max {
        bytes
    } else {
        bytes.take(max as int)
    }
}

proof fn lemma_slice_is_source(
    store: StoreView,
    position: u64,
    end_exclusive: u64,
    source: Seq<u8>,
)
    requires
        store.wf(),
        store.blocks.len() <= usize::MAX,
        position < end_exclusive,
        slice_outcome(store, position, end_exclusive) is Ready,
        store_holds(store, source),
    ensures
        ({
            let bytes = slice_outcome(store, position, end_exclusive)->Ready_bytes;
            &&& position + bytes.len() <= source.len()
            &&& bytes == source.subrange(position as int, position + bytes.len())
        }),
{
    crate::block_store::lemma_block_at(store.blocks, 0, position);
    let index = crate::block_store::block_at(store.blocks, 0, position)->Some_0 as int;
    let block = store.blocks[index];
    let held = store.slots[index].status->Ready_0;
    let end = if block.end_exclusive() < end_exclusive {
        block.end_exclusive()
    } else {
        end_exclusive
    };
    assert(held == source.subrange(block.start as int, block.end + 1));
    assert(held.subrange(position - block.start, end - block.start) =~= source.subrange(
        position as int,
        end as int,
    ));
}

proof fn lemma_slice_is_not_empty(store: StoreView, position: u64, end_exclusive: u64)
    requires
        store.wf(),
        store.blocks.len() <= usize::MAX,
        position < end_exclusive,
        slice_outcome(store, position, end_exclusive) is Ready,
    ensures
        slice_outcome(store, position, end_exclusive)->Ready_start == position,
        0 < slice_outcome(store, position, end_exclusive)->Ready_bytes.len() <= end_exclusive
            - position,
{
    crate::block_store::lemma_block_at(store.blocks, 0, position);
}

impl BlockRangeReader {
    /// Reads up to `max` bytes at the position and moves on. Also returns
    /// whether the window got room back.
    pub fn read(
        &mut self,
        store: &mut BlockStore,
        max: usize,
        diagnostics: &mut SourceDiagnosticsCollector,
    ) -> (result: (ReadStep, bool))
        requires
            old(store).wf(),
            old(self).wf(old(store)@),
        ensures
            final(store).wf(),
            final(self).wf(final(store)@),
            final(self).end_exclusive == old(self).end_exclusive,
            final(self).claimed_blocks == old(self).claimed_blocks,
            final(self).left_blocks == needed_from(
                old(store)@.blocks,
                old(self).claimed_blocks@,
                old(self).left_blocks as int,
                final(self).position,
            ),
            final(store)@ == leave_blocks(
                old(store)@,
                old(self).claimed_blocks@,
                old(self).left_blocks as int,
                final(self).left_blocks as int,
            ),
            result.1 == leave_frees(
                old(store)@,
                old(self).claimed_blocks@,
                old(self).left_blocks as int,
                final(self).left_blocks as int,
            ),
            if old(self).position >= old(self).end_exclusive || max == 0 {
                &&& result.0 is Data
                &&& bytes_contents(result.0->Data_0) == Seq::<u8>::empty()
                &&& final(self).position == old(self).position
            } else {
                match found_bytes(*old(self), old(store)@) {
                    SliceView::Ready { start: _, bytes } => {
                        &&& result.0 is Data
                        &&& bytes_contents(result.0->Data_0) == at_most(bytes, max)
                        &&& bytes_contents(result.0->Data_0).len() > 0
                        &&& final(self).position == old(self).position + bytes_contents(
                            result.0->Data_0,
                        ).len()
                        &&& final(self).position <= final(self).end_exclusive
                    },
                    SliceView::Wait(index) => {
                        &&& result.0 == ReadStep::Wait(index)
                        &&& final(self).position == old(self).position
                    },
                    SliceView::Failed(error) => {
                        &&& result.0 is Failed
                        &&& result.0->Failed_0@ == error
                        &&& final(self).position == old(self).position
                    },
                }
            },
            if takes_slice(*old(self), old(store)@, max) {
                &&& final(self).buffer_start == old(self).position
                &&& bytes_contents(final(self).buffer) == found_bytes(
                    *old(self),
                    old(store)@,
                )->Ready_bytes
            } else {
                &&& final(self).buffer_start == old(self).buffer_start
                &&& final(self).buffer == old(self).buffer
            },
            *final(diagnostics) == with_counters(
                *old(diagnostics),
                SourceCounters {
                    block_releases: leave_count(
                        old(diagnostics).counters.block_releases,
                        old(store)@,
                        old(self).claimed_blocks@,
                        old(self).left_blocks as int,
                        final(self).left_blocks as int,
                    ),
                    ..if old(self).position >= old(self).end_exclusive || max == 0 || old(
                        self,
                    ).buffered() {
                        old(diagnostics).counters
                    } else {
                        slice_counters(
                            old(diagnostics).counters,
                            found_bytes(*old(self), old(store)@),
                        )
                    }
                },
            ),
            forall|source: Seq<u8>|
                #![trigger store_holds(old(store)@, source)]
                store_holds(old(store)@, source) && old(self).holds(source) ==> {
                    &&& final(self).holds(source)
                    &&& store_holds(final(store)@, source)
                    &&& result.0 is Data && final(self).position > old(self).position
                        ==> final(self).position <= source.len() && bytes_contents(
                        result.0->Data_0,
                    ) == source.subrange(old(self).position as int, final(self).position as int)
                },
    {
        let ghost start = store@;
        let ghost blocks = self.claimed_blocks@;
        let ghost from = self.left_blocks as int;
        proof {
            lemma_block_count(store);
            lemma_needed_from(start.blocks, blocks, from, self.position);
        }
        if self.position >= self.end_exclusive || max == 0 {
            let freed = self.release_finished_blocks(store, diagnostics);
            proof {
                lemma_leave_blocks(start, blocks, from, self.left_blocks as int);
            }
            return (ReadStep::Data(no_bytes()), freed);
        }
        let mut freed: bool = false;
        let held: usize = self.buffer.len();
        let buffered: bool = self.buffer_start <= self.position && self.position
            - self.buffer_start < held as u64;
        assert(buffered == self.buffered());
        if !buffered {
            freed = self.release_finished_blocks(store, diagnostics);
            proof {
                lemma_leave_blocks(start, blocks, from, self.left_blocks as int);
            }
            let ghost window = store@;
            match store.slice_from(self.position, self.end_exclusive, diagnostics) {
                SliceStep::Wait(index) => return (ReadStep::Wait(index), freed),
                SliceStep::Failed(error) => return (ReadStep::Failed(error), freed),
                SliceStep::Ready(slice) => {
                    proof {
                        lemma_slice_is_not_empty(window, self.position, self.end_exclusive);
                        assert forall|source: Seq<u8>| #[trigger]
                            store_holds(start, source) implies ({
                            let bytes = bytes_contents(slice.bytes);
                            &&& self.position + bytes.len() <= source.len()
                            &&& bytes == source.subrange(
                                self.position as int,
                                self.position + bytes.len(),
                            )
                        }) by {
                            assert(store_holds(window, source));
                            lemma_slice_is_source(
                                window,
                                self.position,
                                self.end_exclusive,
                                source,
                            );
                        }
                    }
                    self.buffer_start = slice.start;
                    self.buffer = slice.bytes;
                },
            }
        }
        let ghost middle = self.left_blocks as int;
        let ghost position = self.position;
        let ghost window = store@;
        let offset: usize = (self.position - self.buffer_start) as usize;
        let available: usize = self.buffer.len() - offset;
        let len: usize = if available < max {
            available
        } else {
            max
        };
        let bytes = slice_bytes(&self.buffer, offset, offset + len);
        assert(buffered ==> bytes_contents(bytes) =~= at_most(
            bytes_contents(self.buffer).skip(offset as int),
            max,
        ));
        assert(!buffered ==> bytes_contents(bytes) =~= at_most(bytes_contents(self.buffer), max));
        self.position = self.position + len as u64;
        proof {
            lemma_needed_later(start.blocks, blocks, from, position, self.position);
            lemma_needed_from(start.blocks, blocks, middle, self.position);
        }
        let freed_after: bool = self.release_finished_blocks(store, diagnostics);
        proof {
            lemma_leave_twice(
                start,
                blocks,
                from,
                middle,
                self.left_blocks as int,
                old(diagnostics).counters.block_releases,
            );
            lemma_leave_blocks(start, blocks, from, self.left_blocks as int);
            assert forall|source: Seq<u8>|
                #![trigger store_holds(start, source)]
                store_holds(start, source) && old(self).holds(source) implies {
                &&& self.holds(source)
                &&& store_holds(store@, source)
                &&& self.position <= source.len()
                &&& bytes_contents(bytes) == source.subrange(
                    position as int,
                    self.position as int,
                )
            } by {
                assert(bytes_contents(self.buffer) == source.subrange(
                    self.buffer_start as int,
                    self.buffer_start + bytes_contents(self.buffer).len(),
                ));
                assert(bytes_contents(bytes) =~= source.subrange(
                    position as int,
                    self.position as int,
                ));
            }
        }
        (ReadStep::Data(bytes), freed || freed_after)
    }

    /// Leaves the blocks that the reader still holds. Returns whether the
    /// window got room back.
    pub fn finish(
        self,
        store: &mut BlockStore,
        diagnostics: &mut SourceDiagnosticsCollector,
    ) -> (freed: bool)
        requires
            old(store).wf(),
            self.wf(old(store)@),
        ensures
            final(store).wf(),
            final(store)@ == leave_blocks(
                old(store)@,
                self.claimed_blocks@,
                self.left_blocks as int,
                self.claimed_blocks@.len() as int,
            ),
            freed == leave_frees(
                old(store)@,
                self.claimed_blocks@,
                self.left_blocks as int,
                self.claimed_blocks@.len() as int,
            ),
            *final(diagnostics) == with_releases(
                *old(diagnostics),
                leave_count(
                    old(diagnostics).counters.block_releases,
                    old(store)@,
                    self.claimed_blocks@,
                    self.left_blocks as int,
                    self.claimed_blocks@.len() as int,
                ),
            ),
    {
        let ghost start = store@;
        let ghost from = self.left_blocks as int;
        let ghost blocks = self.claimed_blocks@;
        let ghost collector = *diagnostics;
        let mut freed: bool = false;
        let mut next: usize = self.left_blocks;
        while next < self.claimed_blocks.len()
            invariant
                start.wf(),
                store.wf(),
                0 <= from <= next <= blocks.len(),
                blocks == self.claimed_blocks@,
                indices_known(start, blocks),
                store@ == leave_blocks(start, blocks, from, next as int),
                freed == leave_frees(start, blocks, from, next as int),
                *diagnostics == with_releases(
                    collector,
                    leave_count(
                        collector.counters.block_releases,
                        start,
                        blocks,
                        from,
                        next as int,
                    ),
                ),
            decreases blocks.len() - next,
        {
            let index: usize = self.claimed_blocks[next];
            if store.release_block_reader(index, diagnostics) {
                freed = true;
            }
            next += 1;
        }
        freed
    }
}

} // verus!

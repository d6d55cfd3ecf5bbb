//! Reading and seeking in a source object by aligned chunks.
use bytes::Bytes;
use vstd::prelude::*;

use crate::buffers::{bytes_contents, no_bytes, slice_bytes};
use crate::error::{IoError, IoErrorKind, IoErrorView};
use crate::source_plan::SourceRange;

verus! {

/// Rounds a value down to a multiple of the block size.
pub fn align_down(value: u64, block_size: u64) -> (aligned: u64)
    requires
        block_size > 0,
    ensures
        aligned == value - value % block_size,
        aligned % block_size == 0,
        aligned <= value < aligned + block_size,
{
    proof {
        vstd::arithmetic::div_mod::lemma_fundamental_div_mod(value as int, block_size as int);
        vstd::arithmetic::div_mod::lemma_mod_multiples_basic(
            (value / block_size) as int,
            block_size as int,
        );
        vstd::arithmetic::mul::lemma_mul_is_commutative(
            (value / block_size) as int,
            block_size as int,
        );
    }
    value - (value % block_size)
}

/// Where to seek to.
#[derive(Clone, Copy, Debug, PartialEq, Eq, Structural)]
pub enum SeekTarget {
    Start(u64),
    End(i64),
    Current(i64),
}

/// A reader of a source object that keeps one chunk.
#[derive(Debug)]
pub struct S3RangeReader {
    /// Length of the source object.
    pub source_len: u64,
    pub position: u64,
    /// Greater than zero.
    pub chunk_size: usize,
    /// Position of the first byte of the chunk.
    pub buffer_start: u64,
    pub buffer: Bytes,
}

/// The position that a seek leads to, before it is brought into `u64`.
pub open spec fn seek_position(reader: S3RangeReader, target: SeekTarget) -> int {
    match target {
        SeekTarget::Start(offset) => offset as int,
        SeekTarget::End(offset) => reader.source_len + offset,
        SeekTarget::Current(offset) => reader.position + offset,
    }
}

impl S3RangeReader {
    pub open spec fn wf(&self) -> bool {
        self.chunk_size > 0
    }

    /// Whether the next byte to read is in the chunk. Positions end at `u64::MAX`.
    pub open spec fn buffered(&self) -> bool {
        let end = self.buffer_start + bytes_contents(self.buffer).len();
        self.buffer_start <= self.position < if end > u64::MAX {
            u64::MAX as int
        } else {
            end
        }
    }

    /// The bytes of the chunk from the position on.
    pub open spec fn rest(&self) -> Seq<u8> {
        if self.buffered() {
            bytes_contents(self.buffer).skip(self.position - self.buffer_start)
        } else {
            Seq::empty()
        }
    }

    pub fn new(source_len: u64, chunk_size: usize) -> (reader: S3RangeReader)
        ensures
            reader.wf(),
            reader.source_len == source_len,
            reader.position == 0,
            reader.chunk_size == if chunk_size == 0 {
                1
            } else {
                chunk_size
            },
            reader.buffer_start == 0,
            bytes_contents(reader.buffer) == Seq::<u8>::empty(),
    {
        S3RangeReader {
            source_len,
            position: 0,
            chunk_size: if chunk_size == 0 {
                1
            } else {
                chunk_size
            },
            buffer_start: 0,
            buffer: no_bytes(),
        }
    }

    /// The offset of the position in the chunk.
    fn available(&self) -> (offset: Option<usize>)
        ensures
            match offset {
                Some(offset) => self.buffered() && offset == self.position - self.buffer_start,
                None => !self.buffered(),
            },
    {
        let held: usize = self.buffer.len();
        let end: u64 = self.buffer_start.saturating_add(held as u64);
        if self.position >= self.buffer_start && self.position < end {
            Some((self.position - self.buffer_start) as usize)
        } else {
            None
        }
    }

    /// The range to fetch before the next byte can be read: the chunk that
    /// holds the position, within the source.
    pub fn next_fetch(&self) -> (range: Option<SourceRange>)
        requires
            self.wf(),
        ensures
            range is Some <==> self.position < self.source_len && !self.buffered(),
            match range {
                Some(range) => {
                    let start = self.position - self.position % (self.chunk_size as u64);
                    &&& range.start == start
                    &&& range.end == if start + self.chunk_size - 1 < self.source_len - 1 {
                        start + self.chunk_size - 1
                    } else {
                        self.source_len - 1
                    }
                    &&& range.start <= self.position <= range.end < self.source_len
                },
                None => true,
            },
    {
        if self.position >= self.source_len {
            return None;
        }
        if self.available().is_some() {
            return None;
        }
        let chunk: u64 = self.chunk_size as u64;
        let start: u64 = align_down(self.position, chunk);
        let last: u64 = self.source_len.saturating_sub(1);
        let chunk_end: u64 = start.saturating_add(chunk - 1);
        let end: u64 = if chunk_end < last {
            chunk_end
        } else {
            last
        };
        Some(SourceRange { start, end })
    }

    /// Keeps a fetched chunk. A chunk without bytes is an error.
    pub fn install(&mut self, start: u64, bytes: Bytes) -> (result: core::result::Result<
        (),
        IoError,
    >)
        ensures
            *final(self) == (S3RangeReader { buffer_start: start, buffer: bytes, ..*old(self) }),
            result is Ok <==> bytes_contents(bytes).len() > 0,
            result is Err ==> result->Err_0@ == (IoErrorView {
                kind: IoErrorKind::UnexpectedEof,
                message: "S3 range request returned no data before EOF"@,
            }),
    {
        let len: usize = bytes.len();
        self.buffer_start = start;
        self.buffer = bytes;
        if len == 0 {
            return Err(
                IoError::new(
                    IoErrorKind::UnexpectedEof,
                    "S3 range request returned no data before EOF",
                ),
            );
        }
        Ok(())
    }

    /// The buffered bytes from the position on; none at the end of the source.
    pub fn fill_buf(&self) -> (bytes: Bytes)
        ensures
            bytes_contents(bytes) == if self.position < self.source_len {
                self.rest()
            } else {
                Seq::<u8>::empty()
            },
    {
        if self.position >= self.source_len {
            return no_bytes();
        }
        let held: usize = self.buffer.len();
        match self.available() {
            Some(offset) => {
                let bytes = slice_bytes(&self.buffer, offset, held);
                assert(bytes_contents(bytes) =~= self.rest());
                bytes
            },
            None => no_bytes(),
        }
    }

    /// Moves over up to `amount` buffered bytes.
    pub fn consume(&mut self, amount: usize)
        ensures
            *final(self) == (S3RangeReader { position: final(self).position, ..*old(self) }),
            final(self).position == if old(self).position + (if old(self).rest().len() < amount {
                old(self).rest().len() as int
            } else {
                amount as int
            }) > u64::MAX {
                u64::MAX as int
            } else {
                old(self).position + (if old(self).rest().len() < amount {
                    old(self).rest().len() as int
                } else {
                    amount as int
                })
            },
    {
        let held: usize = self.buffer.len();
        let rest: usize = match self.available() {
            Some(offset) => held - offset,
            None => 0,
        };
        let consumed: usize = if amount < rest {
            amount
        } else {
            rest
        };
        self.position = self.position.saturating_add(consumed as u64);
    }

    /// Reads up to `max` buffered bytes and moves over them.
    pub fn read(&mut self, max: usize) -> (bytes: Bytes)
        requires
            old(self).buffer_start + bytes_contents(old(self).buffer).len() <= u64::MAX,
        ensures
            bytes_contents(bytes) == if old(self).position >= old(self).source_len {
                Seq::<u8>::empty()
            } else if old(self).rest().len() <= max {
                old(self).rest()
            } else {
                old(self).rest().take(max as int)
            },
            *final(self) == (S3RangeReader {
                position: (old(self).position + bytes_contents(bytes).len()) as u64,
                ..*old(self)
            }),
            old(self).position + bytes_contents(bytes).len() <= u64::MAX,
    {
        if self.position >= self.source_len {
            return no_bytes();
        }
        let held: usize = self.buffer.len();
        match self.available() {
            Some(offset) => {
                let rest: usize = held - offset;
                let len: usize = if rest < max {
                    rest
                } else {
                    max
                };
                let bytes = slice_bytes(&self.buffer, offset, offset + len);
                assert(bytes_contents(bytes) =~= if self.rest().len() <= max {
                    self.rest()
                } else {
                    self.rest().take(max as int)
                });
                self.position = self.position + len as u64;
                bytes
            },
            None => {
                let bytes = no_bytes();
                assert(self.rest().len() == 0);
                bytes
            },
        }
    }

    /// Moves to another position, or says that it lies before the source.
    ///
    /// Positions over `u64::MAX` wrap around.
    pub fn seek(&mut self, target: SeekTarget) -> (result: core::result::Result<u64, IoError>)
        ensures
            if seek_position(*old(self), target) < 0 {
                &&& result is Err
                &&& result->Err_0@ == (IoErrorView {
                    kind: IoErrorKind::InvalidInput,
                    message: "seek before start of S3 object"@,
                })
                &&& *final(self) == *old(self)
            } else {
                &&& result is Ok
                &&& result->Ok_0 == seek_position(*old(self), target) % 0x1_0000_0000_0000_0000
                &&& *final(self) == (S3RangeReader { position: result->Ok_0, ..*old(self) })
            },
    {
        let next: i128 = match target {
            SeekTarget::Start(offset) => offset as i128,
            SeekTarget::End(offset) => self.source_len as i128 + offset as i128,
            SeekTarget::Current(offset) => self.position as i128 + offset as i128,
        };
        if next < 0 {
            return Err(IoError::new(IoErrorKind::InvalidInput, "seek before start of S3 object"));
        }
        let position: u64 = ((next as u128) % 0x1_0000_0000_0000_0000) as u64;
        self.position = position;
        Ok(position)
    }
}

} // verus!

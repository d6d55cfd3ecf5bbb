//! The parts of a multipart upload.
use bytes::{Bytes, BytesMut};
use vstd::prelude::*;
use vstd::string::*;

use crate::buffers::{buffer_contents, bytes_contents};
use crate::constants::MAX_BODY_CHUNK_SIZE;
use crate::error::{Error, ErrorView, Result};

verus! {

/// The size of every part but the last.
pub const UPLOAD_MULTIPART_PART_SIZE: usize = 16 * 1024 * 1024;

/// The number of parts that S3 takes.
pub const S3_MULTIPART_MAX_PARTS: i32 = 10_000;

/// The most bytes that fit into the parts.
pub const UPLOAD_MULTIPART_MAX_ZIP_BYTES: u64 = 167_772_160_000;

/// A part that S3 took.
#[derive(Debug)]
pub struct UploadedPart {
    pub part_number: i32,
    pub e_tag: String,
}

/// Checks that a multipart upload holds something.
pub fn validate_multipart_upload_has_data(parts: &[UploadedPart], zip_bytes: u64) -> (result: Result<
    (),
>)
    ensures
        result is Err <==> parts@.len() == 0 || zip_bytes == 0,
        result is Err ==> result->Err_0@ == ErrorView::Build(
            "multipart upload produced no ZIP data"@,
        ),
{
    if parts.len() == 0 || zip_bytes == 0 {
        Err(Error::Build("multipart upload produced no ZIP data".to_owned()))
    } else {
        Ok(())
    }
}

/// Whether S3 takes a part with a number.
pub open spec fn is_part_number(part_number: int) -> bool {
    1 <= part_number <= S3_MULTIPART_MAX_PARTS
}

/// The error of a part whose number is out of range.
pub open spec fn too_many_parts() -> ErrorView {
    ErrorView::InvalidOption(
        "multipart upload exceeded the S3 limit of 10000 parts; with the fixed 16777216 byte part size this supports ZIP archives up to 167772160000 bytes"@,
    )
}

/// Checks that S3 takes a part with a number.
pub fn validate_part_number(part_number: i32) -> (result: Result<()>)
    ensures
        result is Ok <==> is_part_number(part_number as int),
        result is Err ==> result->Err_0@ == too_many_parts(),
{
    if 1 <= part_number && part_number <= S3_MULTIPART_MAX_PARTS {
        return Ok(());
    }
    Err(
        Error::InvalidOption(
            "multipart upload exceeded the S3 limit of 10000 parts; with the fixed 16777216 byte part size this supports ZIP archives up to 167772160000 bytes".to_owned(),
        ),
    )
}

/// The number of the part that follows.
pub fn next_part_number(part_number: i32) -> (result: Result<i32>)
    ensures
        result is Ok <==> part_number < i32::MAX,
        result is Ok ==> result->Ok_0 == part_number + 1,
        result is Err ==> result->Err_0@ == ErrorView::InvalidOption(
            "multipart part number overflow"@,
        ),
{
    match part_number.checked_add(1) {
        Some(next) => Ok(next),
        None => Err(Error::InvalidOption("multipart part number overflow".to_owned())),
    }
}

/// Takes a full part out of the buffer, where it holds one.
pub fn take_ready_multipart_part(part_buffer: &mut BytesMut, part_number: &mut i32) -> (result: Result<
    Option<(i32, Bytes)>,
>)
    ensures
        ({
            let before = buffer_contents(*old(part_buffer));
            let after = buffer_contents(*final(part_buffer));
            let size = UPLOAD_MULTIPART_PART_SIZE as int;
            if before.len() < size {
                &&& result is Ok && result->Ok_0 is None
                &&& after == before
                &&& *final(part_number) == *old(part_number)
            } else if is_part_number(*old(part_number) as int) {
                &&& result is Ok && result->Ok_0 is Some
                &&& result->Ok_0->Some_0.0 == *old(part_number)
                &&& bytes_contents(result->Ok_0->Some_0.1) == before.take(size)
                &&& after == before.skip(size)
                &&& *final(part_number) == *old(part_number) + 1
            } else {
                &&& result is Err && result->Err_0@ == too_many_parts()
                &&& after == before
                &&& *final(part_number) == *old(part_number)
            }
        }),
{
    if part_buffer.len() < UPLOAD_MULTIPART_PART_SIZE {
        return Ok(None);
    }
    match validate_part_number(*part_number) {
        Ok(()) => {},
        Err(error) => return Err(error),
    }
    let current: i32 = *part_number;
    let bytes = part_buffer.split_to(UPLOAD_MULTIPART_PART_SIZE).freeze();
    match next_part_number(current) {
        Ok(next) => *part_number = next,
        Err(error) => return Err(error),
    }
    Ok(Some((current, bytes)))
}

/// Takes what is left in the buffer as the last part, where anything is.
pub fn take_final_multipart_part(part_buffer: BytesMut, part_number: i32) -> (result: Result<
    Option<(i32, Bytes)>,
>)
    ensures
        ({
            let rest = buffer_contents(part_buffer);
            if rest.len() == 0 {
                result is Ok && result->Ok_0 is None
            } else if is_part_number(part_number as int) {
                &&& result is Ok && result->Ok_0 is Some
                &&& result->Ok_0->Some_0.0 == part_number
                &&& bytes_contents(result->Ok_0->Some_0.1) == rest
            } else {
                result is Err && result->Err_0@ == too_many_parts()
            }
        }),
{
    if part_buffer.len() == 0 {
        return Ok(None);
    }
    match validate_part_number(part_number) {
        Ok(()) => Ok(Some((part_number, part_buffer.freeze()))),
        Err(error) => Err(error),
    }
}

/// Joins the error of an upload with that of giving it up.
pub fn attach_abort_error(original: Error, abort: Error) -> (error: Error)
    ensures
        error@ == (ErrorView::MultipartAbort {
            original: Box::new(original@),
            abort: Box::new(abort@),
        }),
{
    Error::MultipartAbort { original: Box::new(original), abort: Box::new(abort) }
}

/// The length of a part as S3 takes it.
pub fn part_content_length(bytes: &Bytes) -> (result: Result<i64>)
    ensures
        bytes_contents(*bytes).len() <= i64::MAX ==> result is Ok && result->Ok_0
            == bytes_contents(*bytes).len(),
        bytes_contents(*bytes).len() > i64::MAX ==> result is Err && result->Err_0@
            == ErrorView::Build("multipart part size does not fit i64"@),
{
    let len: u64 = bytes.len() as u64;
    if len <= i64::MAX as u64 {
        Ok(len as i64)
    } else {
        Err(Error::Build("multipart part size does not fit i64".to_owned()))
    }
}

/// An archive on its way into parts.
pub struct PartStream {
    buffer: BytesMut,
    part_number: i32,
    zip_bytes: u64,
    taken: Ghost<Seq<Seq<u8>>>,
}

/// The bytes of the parts, one after another.
pub open spec fn joined_parts(parts: Seq<Seq<u8>>) -> Seq<u8>
    decreases parts.len(),
{
    if parts.len() == 0 {
        Seq::empty()
    } else {
        joined_parts(parts.drop_last()) + parts.last()
    }
}

proof fn lemma_joined_len(parts: Seq<Seq<u8>>)
    requires
        forall|i: int|
            0 <= i < parts.len() ==> (#[trigger] parts[i]).len() == UPLOAD_MULTIPART_PART_SIZE,
    ensures
        joined_parts(parts).len() == parts.len() * UPLOAD_MULTIPART_PART_SIZE,
    decreases parts.len(),
{
    if parts.len() > 0 {
        let front = parts.drop_last();
        assert forall|i: int| 0 <= i < front.len() implies (#[trigger] front[i]).len()
            == UPLOAD_MULTIPART_PART_SIZE by {
            assert(front[i] == parts[i]);
        }
        lemma_joined_len(front);
        let size = UPLOAD_MULTIPART_PART_SIZE as int;
        assert(parts.len() * size == front.len() * size + size) by (nonlinear_arith)
            requires
                parts.len() == front.len() + 1,
        ;
    }
}

impl PartStream {
    /// The parts that were taken out.
    pub closed spec fn taken(&self) -> Seq<Seq<u8>> {
        self.taken@
    }

    /// The bytes that are in no part yet.
    pub closed spec fn pending(&self) -> Seq<u8> {
        buffer_contents(self.buffer)
    }

    /// The bytes that were given in.
    pub open spec fn stream(&self) -> Seq<u8> {
        joined_parts(self.taken()) + self.pending()
    }

    /// All parts taken out are full, they are numbered from one on, and the
    /// bytes are counted.
    pub closed spec fn wf(&self) -> bool {
        &&& forall|i: int|
            0 <= i < self.taken@.len() ==> (#[trigger] self.taken@[i]).len()
                == UPLOAD_MULTIPART_PART_SIZE
        &&& self.part_number == self.taken@.len() + 1
        &&& self.taken@.len() <= S3_MULTIPART_MAX_PARTS
        &&& self.zip_bytes == self.stream().len()
    }

    /// An archive of which nothing was given in yet.
    pub fn new(body_chunk_size: usize) -> (stream: PartStream)
        requires
            body_chunk_size <= MAX_BODY_CHUNK_SIZE,
        ensures
            stream.wf(),
            stream.taken() == Seq::<Seq<u8>>::empty(),
            stream.pending() == Seq::<u8>::empty(),
    {
        let stream = PartStream {
            buffer: BytesMut::with_capacity(UPLOAD_MULTIPART_PART_SIZE + body_chunk_size),
            part_number: 1,
            zip_bytes: 0,
            taken: Ghost(Seq::empty()),
        };
        assert(stream.stream() =~= Seq::<u8>::empty());
        stream
    }

    /// Whether a full part can be taken out.
    pub fn is_ready(&self) -> (ready: bool)
        ensures
            ready == (self.pending().len() >= UPLOAD_MULTIPART_PART_SIZE),
    {
        self.buffer.len() >= UPLOAD_MULTIPART_PART_SIZE
    }

    /// The number of bytes that were given in.
    pub fn zip_bytes(&self) -> (bytes: u64)
        requires
            self.wf(),
        ensures
            bytes == self.stream().len(),
    {
        self.zip_bytes
    }

    /// Gives a chunk in. Full parts must have been taken out before.
    pub fn push(&mut self, chunk: &[u8])
        requires
            old(self).wf(),
            old(self).pending().len() < UPLOAD_MULTIPART_PART_SIZE,
            chunk@.len() <= MAX_BODY_CHUNK_SIZE,
        ensures
            final(self).wf(),
            final(self).taken() == old(self).taken(),
            final(self).pending() == old(self).pending() + chunk@,
    {
        proof {
            lemma_joined_len(self.taken@);
            let size = UPLOAD_MULTIPART_PART_SIZE as int;
            assert(self.taken@.len() * size <= 10_000 * size) by (nonlinear_arith)
                requires
                    self.taken@.len() <= 10_000,
                    0 < size,
            ;
        }
        self.zip_bytes += chunk.len() as u64;
        self.buffer.extend_from_slice(chunk);
        assert(self.stream() =~= old(self).stream() + chunk@);
    }

    /// Takes a full part out, where there is one.
    pub fn take_ready(&mut self) -> (result: Result<Option<(i32, Bytes)>>)
        requires
            old(self).wf(),
        ensures
            final(self).wf(),
            final(self).stream() == old(self).stream(),
            if old(self).pending().len() < UPLOAD_MULTIPART_PART_SIZE {
                &&& result is Ok && result->Ok_0 is None
                &&& final(self).taken() == old(self).taken()
            } else if old(self).taken().len() < S3_MULTIPART_MAX_PARTS {
                &&& result is Ok && result->Ok_0 is Some
                &&& result->Ok_0->Some_0.0 == old(self).taken().len() + 1
                &&& bytes_contents(result->Ok_0->Some_0.1) == old(self).pending().take(
                    UPLOAD_MULTIPART_PART_SIZE as int,
                )
                &&& final(self).taken() == old(self).taken().push(
                    bytes_contents(result->Ok_0->Some_0.1),
                )
            } else {
                &&& result is Err && result->Err_0@ == too_many_parts()
                &&& final(self).taken() == old(self).taken()
            },
    {
        let ghost taken = self.taken@;
        let ghost pending = buffer_contents(self.buffer);
        let result = take_ready_multipart_part(&mut self.buffer, &mut self.part_number);
        proof {
            if result is Ok && result->Ok_0 is Some {
                let part = bytes_contents(result->Ok_0->Some_0.1);
                let now = taken.push(part);
                assert(part.len() == UPLOAD_MULTIPART_PART_SIZE);
                assert(now.drop_last() =~= taken);
                assert(pending =~= part + buffer_contents(self.buffer));
                assert(joined_parts(now) + buffer_contents(self.buffer) =~= joined_parts(taken)
                    + pending);
            }
        }
        self.taken = Ghost(
            if result is Ok && result->Ok_0 is Some {
                taken.push(bytes_contents(result->Ok_0->Some_0.1))
            } else {
                taken
            },
        );
        result
    }

    /// Takes what is left as the last part, where anything is.
    pub fn finish(self) -> (result: Result<Option<(i32, Bytes)>>)
        requires
            self.wf(),
        ensures
            if self.pending().len() == 0 {
                result is Ok && result->Ok_0 is None
            } else if self.taken().len() < S3_MULTIPART_MAX_PARTS {
                &&& result is Ok && result->Ok_0 is Some
                &&& result->Ok_0->Some_0.0 == self.taken().len() + 1
                &&& bytes_contents(result->Ok_0->Some_0.1) == self.pending()
            } else {
                result is Err && result->Err_0@ == too_many_parts()
            },
    {
        take_final_multipart_part(self.buffer, self.part_number)
    }
}

/// Every archive of up to the supported size fits into the parts that S3
/// takes: with fewer bytes than that given in, no part is refused.
pub proof fn law_supported_archives_fit(stream: PartStream)
    requires
        stream.wf(),
        stream.stream().len() <= UPLOAD_MULTIPART_MAX_ZIP_BYTES,
        stream.pending().len() > 0,
    ensures
        stream.taken().len() < S3_MULTIPART_MAX_PARTS,
{
    lemma_joined_len(stream.taken());
    let size = UPLOAD_MULTIPART_PART_SIZE as int;
    if stream.taken().len() >= 10_000 {
        assert(stream.taken().len() * size >= 10_000 * size) by (nonlinear_arith)
            requires
                stream.taken().len() >= 10_000,
                0 < size,
        ;
    }
}

/// The parts taken out, followed by what is left, are the bytes given in, and
/// every part taken out has the fixed size.
pub proof fn law_parts_make_up_the_archive(stream: PartStream)
    requires
        stream.wf(),
    ensures
        stream.stream() == joined_parts(stream.taken().push(stream.pending())),
        forall|i: int|
            0 <= i < stream.taken().len() ==> (#[trigger] stream.taken()[i]).len()
                == UPLOAD_MULTIPART_PART_SIZE,
{
    assert(stream.taken().push(stream.pending()).drop_last() =~= stream.taken());
}

} // verus!

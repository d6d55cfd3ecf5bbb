//! Digests of entry contents.
use vstd::prelude::*;
use vstd::string::*;

use md5::Digest;

use crate::coverage::saturate;
use crate::error::{Error, ErrorView, Result};
use crate::s3_uri::{ascii_lower, ascii_lower_seq, etag_md5, is_hex_digit, is_md5_hex};
use crate::text::{
    cat5, decimal, decimal_spec, digit_char, is_white_space_spec, trim_end, trim_leading, trim_start,
    trim_trailing,
};
use crate::zip_manifest::{validate_crc32_value, ManifestEntry};
use crate::zip_path::invalid_zip_entry;

verus! {

/// An MD5 computation, `md5::Md5`.
#[verifier::external_type_specification]
#[verifier::external_body]
pub struct ExMd5(md5::Md5);

/// The bytes given to an MD5 computation so far.
pub uninterp spec fn md5_absorbed(hasher: md5::Md5) -> Seq<u8>;

/// The MD5 digest of bytes.
pub uninterp spec fn md5_digest(bytes: Seq<u8>) -> Seq<u8>;

/// `Md5::new` starts a computation over no bytes.
#[verifier::external_body]
pub(crate) fn md5_start() -> (hasher: md5::Md5)
    ensures
        md5_absorbed(hasher) == Seq::<u8>::empty(),
{
    md5::Md5::new()
}

/// `Digest::update` adds bytes at the end of those given so far.
#[verifier::external_body]
pub(crate) fn md5_update(hasher: &mut md5::Md5, bytes: &[u8])
    ensures
        md5_absorbed(*final(hasher)) == md5_absorbed(*old(hasher)) + bytes@,
{
    hasher.update(bytes);
}

/// `Digest::finalize` returns the digest, 16 bytes, of the bytes given.
#[verifier::external_body]
pub(crate) fn md5_finish(hasher: md5::Md5) -> (digest: Vec<u8>)
    ensures
        digest@ == md5_digest(md5_absorbed(hasher)),
        digest@.len() == 16,
{
    hasher.finalize().to_vec()
}

/// Two lowercase hexadecimal digits for each byte.
pub open spec fn hex_text(bytes: Seq<u8>) -> Seq<char> {
    Seq::new(
        2 * bytes.len(),
        |i: int|
            if i % 2 == 0 {
                digit_char((bytes[i / 2] / 16) as nat)
            } else {
                digit_char((bytes[i / 2] % 16) as nat)
            },
    )
}

/// `hex::encode` writes each byte as two lowercase hexadecimal digits.
#[verifier::external_body]
pub(crate) fn hex_encode(bytes: &Vec<u8>) -> (text: String)
    ensures
        text@ == hex_text(bytes@),
{
    hex::encode(bytes)
}

/// A CRC-32 computation, `crc32fast::Hasher`.
#[verifier::external_type_specification]
#[verifier::external_body]
pub struct ExCrc32Hasher(crc32fast::Hasher);

/// The bytes given to a CRC-32 computation so far.
pub uninterp spec fn crc32_absorbed(hasher: crc32fast::Hasher) -> Seq<u8>;

/// The CRC-32 checksum of bytes.
pub uninterp spec fn crc32_checksum(bytes: Seq<u8>) -> u32;

/// `Hasher::new` starts a computation over no bytes.
pub assume_specification[ crc32fast::Hasher::new ]() -> (hasher: crc32fast::Hasher)
    ensures
        crc32_absorbed(hasher) == Seq::<u8>::empty(),
;

/// `Hasher::update` adds bytes at the end of those given so far. It counts
/// them in a `u64`.
pub assume_specification[ crc32fast::Hasher::update ](hasher: &mut crc32fast::Hasher, buf: &[u8])
    requires
        crc32_absorbed(*old(hasher)).len() + buf@.len() <= u64::MAX,
    ensures
        crc32_absorbed(*final(hasher)) == crc32_absorbed(*old(hasher)) + buf@,
;

/// `Hasher::finalize` returns the checksum of the bytes given.
pub assume_specification[ crc32fast::Hasher::finalize ](hasher: crc32fast::Hasher) -> (checksum: u32)
    ensures
        checksum == crc32_checksum(crc32_absorbed(hasher)),
;

/// The size and digest of extracted content.
#[derive(Debug)]
pub struct ExtractDigest {
    pub bytes: u64,
    pub md5: String,
}

pub struct ExtractDigestView {
    pub bytes: u64,
    pub md5: Seq<char>,
}

impl View for ExtractDigest {
    type V = ExtractDigestView;

    open spec fn view(&self) -> ExtractDigestView {
        ExtractDigestView { bytes: self.bytes, md5: self.md5@ }
    }
}

impl Clone for ExtractDigest {
    fn clone(&self) -> (copy: ExtractDigest)
        ensures
            copy@ == self@,
    {
        ExtractDigest { bytes: self.bytes, md5: self.md5.clone() }
    }
}

/// The digest of no content.
pub fn empty_md5() -> (md5: String)
    ensures
        md5@ == "d41d8cd98f00b204e9800998ecf8427e"@,
{
    "d41d8cd98f00b204e9800998ecf8427e".to_owned()
}

/// The error of an entry whose content has another size than declared.
pub open spec fn size_error(zip_path: Seq<char>, size: u64, bytes: u64) -> ErrorView {
    ErrorView::InvalidZipEntry {
        path: zip_path,
        reason: "entry produced "@ + decimal_spec(bytes as nat)
            + " bytes but central directory declared "@ + decimal_spec(size as nat) + " bytes"@,
    }
}

fn extracted_size_error(zip_path: &str, size: u64, bytes: u64) -> (error: Error)
    ensures
        error@ == size_error(zip_path@, size, bytes),
{
    let reason = cat5(
        "entry produced ",
        &decimal(bytes),
        " bytes but central directory declared ",
        &decimal(size),
        " bytes",
    );
    invalid_zip_entry(zip_path, &reason)
}

/// Compares the size of extracted content with the declared one.
pub fn validate_extracted_size(entry: &ManifestEntry, bytes: u64) -> (result: Result<()>)
    ensures
        result is Ok <==> bytes == entry.size,
        result is Err ==> result->Err_0@ == size_error(entry.zip_path@, entry.size, bytes),
{
    if bytes == entry.size {
        Ok(())
    } else {
        Err(extracted_size_error(&entry.zip_path, entry.size, bytes))
    }
}

/// Checks that extracted content has not outgrown the declared size.
pub fn validate_extracted_size_not_exceeded(entry: &ManifestEntry, bytes: u64) -> (result: Result<
    (),
>)
    ensures
        result is Ok <==> bytes <= entry.size,
        result is Err ==> result->Err_0@ == size_error(entry.zip_path@, entry.size, bytes),
{
    if bytes <= entry.size {
        Ok(())
    } else {
        Err(extracted_size_error(&entry.zip_path, entry.size, bytes))
    }
}

/// Checks the content of an entry while it is passed on.
///
/// The last chunk is held back until the size and the checksum are known to be
/// right. So a body whose content is too short or has another checksum never
/// becomes complete. One whose content is too large stays short as well where
/// chunks are taken with [`EntryCheck::push_checked`]. With
/// [`EntryCheck::push_streamed`] it may reach the declared size, but not exceed
/// it, before the error is returned.
pub struct EntryCheck {
    zip_path: String,
    size: u64,
    crc32: u32,
    hasher: md5::Md5,
    checksum: crc32fast::Hasher,
    bytes: u64,
    pending: Vec<u8>,
}

pub struct EntryCheckView {
    pub zip_path: Seq<char>,
    /// Declared size.
    pub size: u64,
    /// Declared checksum.
    pub crc32: u32,
    /// The content so far.
    pub content: Seq<u8>,
    /// The end of the content, which is held back.
    pub pending: Seq<u8>,
}

impl View for EntryCheck {
    type V = EntryCheckView;

    closed spec fn view(&self) -> EntryCheckView {
        EntryCheckView {
            zip_path: self.zip_path@,
            size: self.size,
            crc32: self.crc32,
            content: md5_absorbed(self.hasher),
            pending: self.pending@,
        }
    }
}

impl EntryCheckView {
    /// The content that was passed on.
    pub open spec fn released(self) -> Seq<u8> {
        self.content.take(self.content.len() - self.pending.len())
    }

    /// Some content is held back, unless there is none.
    pub open spec fn holds_back(self) -> bool {
        &&& self.pending.len() <= self.content.len() <= self.size
        &&& self.content.len() > 0 ==> self.pending.len() > 0
    }
}

/// The size and digest of content.
pub open spec fn content_digest(content: Seq<u8>) -> ExtractDigestView {
    ExtractDigestView { bytes: content.len() as u64, md5: hex_text(md5_digest(content)) }
}

/// The error of content that fails the checks, if it fails.
pub open spec fn content_problem(
    zip_path: Seq<char>,
    size: u64,
    crc32: u32,
    content: Seq<u8>,
) -> Option<ErrorView> {
    if content.len() != size {
        Some(size_error(zip_path, size, content.len() as u64))
    } else if crc32_checksum(content) != crc32 {
        Some(ErrorView::Zip("a computed CRC32 value did not match the expected value"@))
    } else {
        None
    }
}

/// The error of a chunk that makes the content too large, if it does.
pub open spec fn chunk_problem(check: EntryCheckView, chunk: Seq<u8>) -> Option<ErrorView> {
    if check.content.len() + chunk.len() <= check.size {
        None
    } else {
        Some(
            size_error(
                check.zip_path,
                check.size,
                saturate((check.content.len() + chunk.len()) as int),
            ),
        )
    }
}

/// The check after a chunk, which is held back from then on.
pub open spec fn after_chunk(check: EntryCheckView, chunk: Seq<u8>) -> EntryCheckView {
    EntryCheckView { content: check.content + chunk, pending: chunk, ..check }
}

/// The check of an entry of which nothing was read.
pub open spec fn fresh_check(zip_path: Seq<char>, size: u64, crc32: u32) -> EntryCheckView {
    EntryCheckView { zip_path, size, crc32, content: Seq::empty(), pending: Seq::empty() }
}

impl EntryCheck {
    pub closed spec fn wf(&self) -> bool {
        &&& crc32_absorbed(self.checksum) == md5_absorbed(self.hasher)
        &&& self.bytes == md5_absorbed(self.hasher).len()
        &&& self.bytes <= self.size
        &&& self@.pending.len() <= self@.content.len()
        &&& self@.pending == self@.content.skip(self@.content.len() - self@.pending.len())
    }

    /// Starts on an entry.
    pub fn new(zip_path: &str, size: u64, crc32: u32) -> (check: EntryCheck)
        ensures
            check.wf(),
            check@.holds_back(),
            check@ == fresh_check(zip_path@, size, crc32),
    {
        let check = EntryCheck {
            zip_path: zip_path.to_owned(),
            size,
            crc32,
            hasher: md5_start(),
            checksum: crc32fast::Hasher::new(),
            bytes: 0,
            pending: Vec::new(),
        };
        assert(check@.pending =~= Seq::<u8>::empty());
        assert(check@.pending =~= check@.content.skip(0));
        check
    }

    fn next_bytes(&self, chunk: &[u8]) -> (next: u64)
        requires
            self.wf(),
        ensures
            next == saturate((self@.content.len() + chunk@.len()) as int),
    {
        self.bytes.saturating_add(chunk.len() as u64)
    }

    /// Takes the next chunk in and hands out the one held back.
    fn absorb(&mut self, chunk: &[u8]) -> (released: Vec<u8>)
        requires
            old(self).wf(),
            chunk@.len() > 0,
            old(self)@.content.len() + chunk@.len() <= old(self)@.size,
        ensures
            final(self).wf(),
            final(self)@ == after_chunk(old(self)@, chunk@),
            released@ == old(self)@.pending,
    {
        let mut next: Vec<u8> = vstd::slice::slice_to_vec(chunk);
        std::mem::swap(&mut self.pending, &mut next);
        md5_update(&mut self.hasher, chunk);
        self.checksum.update(chunk);
        self.bytes = self.bytes + chunk.len() as u64;
        assert(self@.pending =~= self@.content.skip(
            self@.content.len() - self@.pending.len(),
        ));
        next
    }

    /// Takes the next chunk, and returns the bytes that may now be passed on.
    ///
    /// A chunk that makes the content too large is refused, and nothing is
    /// passed on.
    pub fn push_checked(&mut self, chunk: &[u8]) -> (result: Result<Vec<u8>>)
        requires
            old(self).wf(),
            chunk@.len() > 0,
        ensures
            final(self).wf(),
            old(self)@.holds_back() ==> final(self)@.holds_back(),
            match chunk_problem(old(self)@, chunk@) {
                None => {
                    &&& result is Ok
                    &&& result->Ok_0@ == old(self)@.pending
                    &&& final(self)@ == after_chunk(old(self)@, chunk@)
                },
                Some(error) => {
                    &&& result is Err
                    &&& result->Err_0@ == error
                    &&& final(self)@ == old(self)@
                },
            },
    {
        let next: u64 = self.next_bytes(chunk);
        if next > self.size {
            return Err(extracted_size_error(&self.zip_path, self.size, next));
        }
        if chunk.len() as u64 > self.size - self.bytes {
            return Err(extracted_size_error(&self.zip_path, self.size, next));
        }
        Ok(self.absorb(chunk))
    }

    /// Takes the next chunk, and returns the bytes that are to be passed on
    /// whether or not the chunk makes the content too large.
    pub fn push_streamed(&mut self, chunk: &[u8]) -> (result: (Vec<u8>, Result<()>))
        requires
            old(self).wf(),
            chunk@.len() > 0,
        ensures
            final(self).wf(),
            result.0@ == old(self)@.pending,
            result.1 is Ok ==> final(self)@.holds_back(),
            match chunk_problem(old(self)@, chunk@) {
                None => {
                    &&& result.1 is Ok
                    &&& final(self)@ == after_chunk(old(self)@, chunk@)
                },
                Some(error) => {
                    &&& result.1 is Err
                    &&& result.1->Err_0@ == error
                    &&& final(self)@ == (EntryCheckView { pending: Seq::empty(), ..old(self)@ })
                },
            },
    {
        let next: u64 = self.next_bytes(chunk);
        if next > self.size || chunk.len() as u64 > self.size - self.bytes {
            let mut released: Vec<u8> = Vec::new();
            std::mem::swap(&mut self.pending, &mut released);
            assert(self@.pending =~= Seq::<u8>::empty());
            assert(self@.pending =~= self@.content.skip(self@.content.len() as int));
            return (released, Err(extracted_size_error(&self.zip_path, self.size, next)));
        }
        (self.absorb(chunk), Ok(()))
    }

    /// Checks the whole content. If it is right, returns the bytes held back
    /// and the digest.
    pub fn finish(self) -> (result: Result<(Vec<u8>, ExtractDigest)>)
        requires
            self.wf(),
        ensures
            match content_problem(self@.zip_path, self@.size, self@.crc32, self@.content) {
                Some(error) => result is Err && result->Err_0@ == error,
                None => {
                    &&& result is Ok
                    &&& result->Ok_0.0@ == self@.pending
                    &&& result->Ok_0.1@ == content_digest(self@.content)
                },
            },
    {
        if self.bytes != self.size {
            return Err(extracted_size_error(&self.zip_path, self.size, self.bytes));
        }
        let actual: u32 = self.checksum.finalize();
        match validate_crc32_value(self.crc32, actual) {
            Err(error) => Err(error),
            Ok(()) => {
                let digest = md5_finish(self.hasher);
                let md5 = hex_encode(&digest);
                Ok((self.pending, ExtractDigest { bytes: self.bytes, md5 }))
            },
        }
    }
}

/// While content is checked chunk by chunk, what was passed on stays shorter
/// than the declared size, unless that is zero: only a successful check hands
/// out the rest.
pub proof fn law_body_stays_short_until_checked(check: EntryCheckView)
    requires
        check.holds_back(),
    ensures
        check.size > 0 ==> check.released().len() < check.size,
        check.size == 0 ==> check.released().len() == 0,
{
}

/// The first `n` chunks, one after the other.
pub open spec fn joined_chunks(chunks: Seq<Seq<u8>>, n: int) -> Seq<u8>
    decreases n,
{
    if n <= 0 {
        Seq::empty()
    } else {
        joined_chunks(chunks, n - 1) + chunks[n - 1]
    }
}

/// Whether content is read in some chunks. None of them is empty: that would be
/// the end.
pub open spec fn is_read_as(content: Seq<u8>, chunks: Seq<Seq<u8>>) -> bool {
    &&& content == joined_chunks(chunks, chunks.len() as int)
    &&& forall|i: int| 0 <= i < chunks.len() ==> (#[trigger] chunks[i]).len() > 0
}

/// What is passed on of the first `n` chunks, and the check after them or the
/// error that ended it. Chunks are taken with [`EntryCheck::push_streamed`], or
/// else with [`EntryCheck::push_checked`].
pub open spec fn pass_chunks(
    start: EntryCheckView,
    chunks: Seq<Seq<u8>>,
    n: int,
    streamed: bool,
) -> (Seq<u8>, core::result::Result<EntryCheckView, ErrorView>)
    decreases n,
{
    if n <= 0 {
        (Seq::empty(), Ok(start))
    } else {
        let (passed, before) = pass_chunks(start, chunks, n - 1, streamed);
        match before {
            Err(error) => (passed, Err(error)),
            Ok(check) => match chunk_problem(check, chunks[n - 1]) {
                None => (passed + check.pending, Ok(after_chunk(check, chunks[n - 1]))),
                Some(error) => (
                    if streamed {
                        passed + check.pending
                    } else {
                        passed
                    },
                    Err(error),
                ),
            },
        }
    }
}

/// What is passed on of an entry that is read in some chunks, and its digest or
/// the error that ended it.
pub open spec fn checked_body(
    zip_path: Seq<char>,
    size: u64,
    crc32: u32,
    chunks: Seq<Seq<u8>>,
    streamed: bool,
) -> (Seq<u8>, core::result::Result<ExtractDigestView, ErrorView>) {
    let (passed, end) = pass_chunks(
        fresh_check(zip_path, size, crc32),
        chunks,
        chunks.len() as int,
        streamed,
    );
    match end {
        Err(error) => (passed, Err(error)),
        Ok(check) => match content_problem(zip_path, size, crc32, check.content) {
            Some(error) => (passed, Err(error)),
            None => (passed + check.pending, Ok(content_digest(check.content))),
        },
    }
}

proof fn lemma_pass_chunks(
    start: EntryCheckView,
    chunks: Seq<Seq<u8>>,
    n: int,
    streamed: bool,
)
    requires
        start.content.len() == 0,
        start.pending.len() == 0,
        0 <= n <= chunks.len(),
        forall|i: int| 0 <= i < chunks.len() ==> (#[trigger] chunks[i]).len() > 0,
    ensures
        ({
            let content = joined_chunks(chunks, n);
            let (passed, end) = pass_chunks(start, chunks, n, streamed);
            &&& end is Ok <==> content.len() <= start.size
            &&& end is Ok ==> {
                let check = end->Ok_0;
                &&& check == (EntryCheckView { content, pending: check.pending, ..start })
                &&& n > 0 ==> check.pending.len() > 0
                &&& passed + check.pending == content
            }
            &&& end is Err ==> {
                &&& passed.len() <= start.size
                &&& !streamed ==> passed.len() < start.size || start.size == 0
                &&& passed == content.take(passed.len() as int)
                &&& passed.len() <= content.len()
            }
        }),
    decreases n,
{
    let content = joined_chunks(chunks, n);
    let (passed, end) = pass_chunks(start, chunks, n, streamed);
    if n == 0 {
        assert(start.content =~= content);
        assert(passed + start.pending =~= content);
    } else {
        lemma_pass_chunks(start, chunks, n - 1, streamed);
        let before = joined_chunks(chunks, n - 1);
        let (earlier, middle) = pass_chunks(start, chunks, n - 1, streamed);
        let chunk = chunks[n - 1];
        assert(chunk.len() > 0);
        if let Ok(check) = middle {
            if end is Err {
                assert(before == earlier + check.pending);
                assert(earlier =~= content.take(earlier.len() as int));
                assert(earlier + check.pending =~= content.take(before.len() as int));
            }
        } else {
            assert(earlier =~= before.take(earlier.len() as int));
            assert(passed =~= content.take(passed.len() as int));
        }
    }
}

/// Content that has the declared size and checksum is passed on whole, in
/// whatever chunks it is read, and its digest is that of the content.
pub proof fn law_right_content_is_passed_on(
    zip_path: Seq<char>,
    content: Seq<u8>,
    chunks: Seq<Seq<u8>>,
    streamed: bool,
)
    requires
        is_read_as(content, chunks),
        content.len() <= u64::MAX,
    ensures
        checked_body(
            zip_path,
            content.len() as u64,
            crc32_checksum(content),
            chunks,
            streamed,
        ) == (
            content,
            Ok::<ExtractDigestView, ErrorView>(content_digest(content)),
        ),
{
    let size = content.len() as u64;
    let start = fresh_check(zip_path, size, crc32_checksum(content));
    lemma_pass_chunks(start, chunks, chunks.len() as int, streamed);
}

/// Content that has another size or checksum than declared is refused, and what
/// was passed on of it is its beginning. It stays shorter than the declared
/// size, unless that is zero, but where chunks are streamed content that is too
/// large may reach it.
pub proof fn law_wrong_content_stays_short(
    zip_path: Seq<char>,
    size: u64,
    crc32: u32,
    content: Seq<u8>,
    chunks: Seq<Seq<u8>>,
    streamed: bool,
)
    requires
        is_read_as(content, chunks),
        content.len() != size || crc32_checksum(content) != crc32,
    ensures
        ({
            let (passed, end) = checked_body(zip_path, size, crc32, chunks, streamed);
            &&& end is Err
            &&& passed.len() <= size
            &&& passed.len() <= content.len()
            &&& passed == content.take(passed.len() as int)
            &&& !streamed || content.len() <= size ==> passed.len() < size || size == 0
        }),
{
    let start = fresh_check(zip_path, size, crc32);
    let n = chunks.len() as int;
    lemma_pass_chunks(start, chunks, n, streamed);
    let (passed, end) = pass_chunks(start, chunks, n, streamed);
    if let Ok(check) = end {
        assert(passed =~= content.take(passed.len() as int));
        if n == 0 {
            assert(passed.len() == 0);
        }
    }
}

/// A digest in hexadecimal has the form that destination ETags are compared
/// with: read as an ETag it is the digest itself.
pub proof fn law_hex_digest_is_md5_hex(bytes: Seq<u8>)
    requires
        bytes.len() == 16,
    ensures
        is_md5_hex(hex_text(bytes)),
        etag_md5(hex_text(bytes)) == Some(hex_text(bytes)),
{
    let text = hex_text(bytes);
    assert forall|i: int| 0 <= i < text.len() implies #[trigger] is_hex_digit(text[i])
        && ascii_lower(text[i]) == text[i] && text[i] != '"' && !is_white_space_spec(text[i]) by {
        let byte = bytes[i / 2];
        assert(byte / 16 < 16 && byte % 16 < 16);
    }
    assert(is_hex_digit(text[0]) && is_hex_digit(text[31]));
    assert(text.last() == text[31]);
    assert(trim_start(text) == text);
    assert(trim_end(text) == text);
    assert(trim_leading(text, '"') == text);
    assert(trim_trailing(text, '"') == text);
    assert forall|i: int| 0 <= i < text.len() implies ascii_lower(text[i]) == text[i] by {
        assert(is_hex_digit(text[i]));
    }
    assert(ascii_lower_seq(text) =~= text);
}

/// Read as an ETag, a digest in hexadecimal between quotes is the digest itself.
pub proof fn law_quoted_digest_is_md5(bytes: Seq<u8>)
    requires
        bytes.len() == 16,
    ensures
        etag_md5("\""@ + hex_text(bytes) + "\""@) == Some(hex_text(bytes)),
{
    reveal_strlit("\"");
    let text = hex_text(bytes);
    let etag = "\""@ + text + "\""@;
    law_hex_digest_is_md5_hex(bytes);
    assert(is_hex_digit(text[0]) && is_hex_digit(text[31]));
    assert(trim_start(etag) == etag);
    assert(trim_end(etag) == etag);
    let unquoted = etag.skip(1);
    assert(unquoted[0] == text[0]);
    assert(trim_leading(unquoted, '"') == unquoted);
    assert(trim_leading(etag, '"') == unquoted);
    assert(unquoted.drop_last() =~= text);
    assert(text.last() == text[31]);
    assert(trim_trailing(text, '"') == text);
    assert(trim_trailing(unquoted, '"') == text);
    assert forall|i: int| 0 <= i < text.len() implies ascii_lower(text[i]) == text[i] by {
        let byte = bytes[i / 2];
        assert(byte / 16 < 16 && byte % 16 < 16);
    }
    assert(ascii_lower_seq(text) =~= text);
}

} // verus!

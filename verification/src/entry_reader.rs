//! The local file header in front of an entry's data.
use vstd::prelude::*;
use vstd::string::*;
use vstd::utf8::{decode_utf8, encode_utf8, valid_utf8};

use crate::compression::Compression;
use crate::error::{Error, ErrorView, Result};
use crate::text::{cat2, cat4, decimal, decimal_spec, hexadecimal, hexadecimal_spec, str_eq};
use crate::zip_manifest::{ManifestEntry, ManifestEntryView};
use crate::zip_path::{invalid_zip_entry, names_directory, normalize_zip_file_path, path_problem};

verus! {

pub const LOCAL_FILE_HEADER_SIGNATURE: u32 = 0x0403_4b50;

pub const LOCAL_FILE_HEADER_LEN: usize = 30;

/// What the local header says of the entry's data.
#[derive(Clone, Copy, Debug, PartialEq, Eq, Structural)]
pub struct LocalHeader {
    pub file_name_len: u16,
    pub extra_field_len: u16,
    /// Position of the entry's data in the source.
    pub data_offset: u64,
}

/// How an entry's data is read.
#[derive(Clone, Copy, Debug, PartialEq, Eq, Structural)]
pub enum EntryDecoding {
    /// The data is the content.
    Stored,
    /// The content is deflated.
    Deflate,
}

/// The error text of bytes that are not UTF-8.
pub uninterp spec fn utf8_error_text(bytes: Seq<u8>) -> Seq<char>;

/// `std::str::from_utf8` reads bytes as UTF-8 text and fails exactly on bytes
/// that are not UTF-8. The text of the failure is not stated further than
/// that it depends on the bytes.
#[verifier::external_body]
fn text_from_utf8(bytes: &[u8]) -> (text: core::result::Result<String, String>)
    ensures
        text is Ok <==> valid_utf8(bytes@),
        text is Ok ==> encode_utf8(text->Ok_0@) == bytes@,
        text is Err ==> text->Err_0@ == utf8_error_text(bytes@),
{
    match std::str::from_utf8(bytes) {
        Ok(text) => Ok(text.to_string()),
        Err(error) => Err(error.to_string()),
    }
}

/// A string between quotes, with escapes, as it is shown to developers.
pub uninterp spec fn debug_text(text: Seq<char>) -> Seq<char>;

/// The `Debug` form of a `str`, which depends on the text alone. Which
/// characters it escapes is not stated.
#[verifier::external_body]
pub(crate) fn debug_string(text: &str) -> (shown: String)
    ensures
        shown@ == debug_text(text@),
{
    format!("{:?}", text)
}

/// The little-endian number in two bytes.
pub open spec fn le_u16(bytes: Seq<u8>, at: int) -> u16 {
    (bytes[at] + bytes[at + 1] * 256) as u16
}

/// The little-endian number in four bytes.
pub open spec fn le_u32(bytes: Seq<u8>, at: int) -> u32 {
    (bytes[at] + bytes[at + 1] * 256 + bytes[at + 2] * 65536 + bytes[at + 3] * 16777216) as u32
}

fn read_u16(bytes: &[u8], at: usize) -> (value: u16)
    requires
        at + 2 <= bytes@.len(),
    ensures
        value == le_u16(bytes@, at as int),
{
    bytes[at] as u16 + bytes[at + 1] as u16 * 256
}

fn read_u32(bytes: &[u8], at: usize) -> (value: u32)
    requires
        at + 4 <= bytes@.len(),
    ensures
        value == le_u32(bytes@, at as int),
{
    bytes[at] as u32 + bytes[at + 1] as u32 * 256 + bytes[at + 2] as u32 * 65536 + bytes[at + 3]
        as u32 * 16777216
}

pub open spec fn entry_error(entry: ManifestEntryView, reason: Seq<char>) -> ErrorView {
    ErrorView::InvalidZipEntry { path: entry.zip_path, reason }
}

/// Why the local header cannot lie in the entry's span.
pub open spec fn header_span_problem(entry: ManifestEntryView) -> Option<ErrorView> {
    let end = entry.source_offset + LOCAL_FILE_HEADER_LEN;
    if end > u64::MAX {
        Some(entry_error(entry, "local file header offset overflowed"@))
    } else if end > entry.source_span_end {
        Some(
            entry_error(entry, "local file header extends beyond the planned source span"@),
        )
    } else {
        None
    }
}

/// Checks that the local header lies in the entry's span.
pub fn check_header_span(entry: &ManifestEntry) -> (result: Result<()>)
    ensures
        match header_span_problem(entry@) {
            Some(error) => result is Err && result->Err_0@ == error,
            None => result is Ok,
        },
{
    match entry.source_offset.checked_add(LOCAL_FILE_HEADER_LEN as u64) {
        None => Err(invalid_zip_entry(&entry.zip_path, "local file header offset overflowed")),
        Some(end) => if end > entry.source_span_end {
            Err(
                invalid_zip_entry(
                    &entry.zip_path,
                    "local file header extends beyond the planned source span",
                ),
            )
        } else {
            Ok(())
        },
    }
}

/// What a local header says, or why it is refused.
pub open spec fn local_header(entry: ManifestEntryView, header: Seq<u8>) -> core::result::Result<
    LocalHeader,
    ErrorView,
> {
    let signature = le_u32(header, 0);
    let flags = le_u16(header, 6);
    let compression = le_u16(header, 8);
    let name_len = le_u16(header, 26);
    let extra_len = le_u16(header, 28);
    let data_offset = entry.source_offset + LOCAL_FILE_HEADER_LEN + name_len + extra_len;
    if signature != LOCAL_FILE_HEADER_SIGNATURE {
        Err(
            entry_error(
                entry,
                "unexpected local file header signature 0x"@ + hexadecimal_spec(signature as nat)
                    + " at offset "@ + decimal_spec(entry.source_offset as nat),
            ),
        )
    } else if flags % 2 == 1 {
        Err(entry_error(entry, "encrypted ZIP entries are not supported"@))
    } else if compression != entry.compression.code() {
        Err(
            entry_error(
                entry,
                "local compression method "@ + decimal_spec(compression as nat)
                    + " does not match central directory method "@ + decimal_spec(
                    entry.compression.code() as nat,
                ),
            ),
        )
    } else if data_offset > u64::MAX {
        Err(entry_error(entry, "local file data offset overflowed"@))
    } else if data_offset > entry.source_span_end {
        Err(
            entry_error(
                entry,
                "local header name or extra field extends beyond the planned source span"@,
            ),
        )
    } else {
        Ok(
            LocalHeader {
                file_name_len: name_len,
                extra_field_len: extra_len,
                data_offset: data_offset as u64,
            },
        )
    }
}

/// Reads the local header of an entry.
pub fn parse_local_header(entry: &ManifestEntry, header: &[u8]) -> (result: Result<LocalHeader>)
    requires
        header@.len() == LOCAL_FILE_HEADER_LEN,
    ensures
        match local_header(entry@, header@) {
            Ok(parsed) => result is Ok && result->Ok_0 == parsed,
            Err(error) => result is Err && result->Err_0@ == error,
        },
{
    let signature: u32 = read_u32(header, 0);
    if signature != LOCAL_FILE_HEADER_SIGNATURE {
        let reason = cat4(
            "unexpected local file header signature 0x",
            &hexadecimal(signature as u64),
            " at offset ",
            &decimal(entry.source_offset),
        );
        return Err(invalid_zip_entry(&entry.zip_path, &reason));
    }
    let flags: u16 = read_u16(header, 6);
    if flags % 2 == 1 {
        return Err(
            invalid_zip_entry(&entry.zip_path, "encrypted ZIP entries are not supported"),
        );
    }
    let local_compression: u16 = read_u16(header, 8);
    let expected: u16 = entry.compression.code();
    if local_compression != expected {
        let reason = cat4(
            "local compression method ",
            &decimal(local_compression as u64),
            " does not match central directory method ",
            &decimal(expected as u64),
        );
        return Err(invalid_zip_entry(&entry.zip_path, &reason));
    }
    let name_len: u16 = read_u16(header, 26);
    let extra_len: u16 = read_u16(header, 28);
    let lead: u64 = LOCAL_FILE_HEADER_LEN as u64 + name_len as u64 + extra_len as u64;
    match entry.source_offset.checked_add(lead) {
        None => Err(invalid_zip_entry(&entry.zip_path, "local file data offset overflowed")),
        Some(data_offset) => if data_offset > entry.source_span_end {
            Err(
                invalid_zip_entry(
                    &entry.zip_path,
                    "local header name or extra field extends beyond the planned source span",
                ),
            )
        } else {
            Ok(
                LocalHeader {
                    file_name_len: name_len,
                    extra_field_len: extra_len,
                    data_offset,
                },
            )
        },
    }
}

/// The error of a local name that is not the entry's path, both as they are shown.
pub open spec fn name_mismatch(
    entry: ManifestEntryView,
    local_shown: Seq<char>,
    central_shown: Seq<char>,
) -> ErrorView {
    entry_error(
        entry,
        "local file name "@ + local_shown + " does not match central directory name "@
            + central_shown,
    )
}

/// The error of a local name that is not the entry's path, both as they are shown.
pub fn local_name_mismatch(entry: &ManifestEntry, local_shown: &str, central_shown: &str) -> (error:
    Error)
    ensures
        error@ == name_mismatch(entry@, local_shown@, central_shown@),
{
    let reason = cat4(
        "local file name ",
        local_shown,
        " does not match central directory name ",
        central_shown,
    );
    invalid_zip_entry(&entry.zip_path, &reason)
}

/// Why the path in the local header is refused.
pub open spec fn local_path_problem(entry: ManifestEntryView, name: Seq<char>) -> Option<ErrorView> {
    match path_problem(name) {
        Some(reason) => Some(ErrorView::InvalidZipEntry { path: name, reason }),
        None => if names_directory(name) {
            Some(entry_error(entry, "local file header points to a directory entry"@))
        } else if name != entry.zip_path {
            Some(name_mismatch(entry, debug_text(name), debug_text(entry.zip_path)))
        } else {
            None
        },
    }
}

/// Compares the path in the local header with the entry's path.
pub fn check_local_path(entry: &ManifestEntry, name: &str) -> (result: Result<()>)
    ensures
        match local_path_problem(entry@, name@) {
            Some(error) => result is Err && result->Err_0@ == error,
            None => result is Ok,
        },
{
    match normalize_zip_file_path(name) {
        Err(error) => Err(error),
        Ok(None) => Err(
            invalid_zip_entry(&entry.zip_path, "local file header points to a directory entry"),
        ),
        Ok(Some(local_path)) => if str_eq(&local_path, &entry.zip_path) {
            Ok(())
        } else {
            Err(
                local_name_mismatch(
                    entry,
                    &debug_string(&local_path),
                    &debug_string(&entry.zip_path),
                ),
            )
        },
    }
}

/// Why the name in the local header is refused.
pub open spec fn local_name_problem(entry: ManifestEntryView, bytes: Seq<u8>) -> Option<ErrorView> {
    if !valid_utf8(bytes) {
        Some(
            entry_error(
                entry,
                "local file name is not valid UTF-8: "@ + utf8_error_text(bytes),
            ),
        )
    } else {
        local_path_problem(entry, decode_utf8(bytes))
    }
}

/// Compares the name in the local header with the entry's path.
pub fn check_local_name(entry: &ManifestEntry, name: &[u8]) -> (result: Result<()>)
    ensures
        match local_name_problem(entry@, name@) {
            Some(error) => result is Err && result->Err_0@ == error,
            None => result is Ok,
        },
{
    match text_from_utf8(name) {
        Err(error) => Err(
            invalid_zip_entry(
                &entry.zip_path,
                &cat2("local file name is not valid UTF-8: ", &error),
            ),
        ),
        Ok(local_name) => {
            proof {
                vstd::utf8::encode_utf8_decode_utf8(local_name@);
            }
            check_local_path(entry, &local_name)
        },
    }
}

/// How an entry's data is decoded, or why it cannot be.
pub open spec fn data_decoding(entry: ManifestEntryView, data_offset: u64) -> core::result::Result<
    EntryDecoding,
    ErrorView,
> {
    let end = data_offset + entry.compressed_size;
    if end > u64::MAX {
        Err(entry_error(entry, "local file compressed data offset overflowed"@))
    } else if end > entry.source_span_end {
        Err(entry_error(entry, "local file data extends beyond the planned source span"@))
    } else {
        match entry.compression {
            Compression::Stored => Ok(EntryDecoding::Stored),
            Compression::Deflate => Ok(EntryDecoding::Deflate),
            other => Err(
                entry_error(entry, "unsupported compression method "@ + other.name_spec()),
            ),
        }
    }
}

/// Checks that the entry's data lies in its span, and says how it is decoded.
pub fn check_local_data(entry: &ManifestEntry, header: LocalHeader) -> (result: Result<
    EntryDecoding,
>)
    ensures
        match data_decoding(entry@, header.data_offset) {
            Ok(decoding) => result is Ok && result->Ok_0 == decoding,
            Err(error) => result is Err && result->Err_0@ == error,
        },
{
    match header.data_offset.checked_add(entry.compressed_size) {
        None => Err(
            invalid_zip_entry(&entry.zip_path, "local file compressed data offset overflowed"),
        ),
        Some(end) => if end > entry.source_span_end {
            Err(
                invalid_zip_entry(
                    &entry.zip_path,
                    "local file data extends beyond the planned source span",
                ),
            )
        } else {
            match entry.compression {
                Compression::Stored => Ok(EntryDecoding::Stored),
                Compression::Deflate => Ok(EntryDecoding::Deflate),
                other => Err(
                    invalid_zip_entry(
                        &entry.zip_path,
                        &cat2("unsupported compression method ", other.name()),
                    ),
                ),
            }
        },
    }
}

/// The data of an entry whose headers are accepted lies within its span.
pub proof fn law_entry_data_lies_in_its_span(entry: ManifestEntryView, header: Seq<u8>)
    requires
        local_header(entry, header) is Ok,
        data_decoding(entry, local_header(entry, header)->Ok_0.data_offset) is Ok,
    ensures
        ({
            let data_offset = local_header(entry, header)->Ok_0.data_offset;
            &&& entry.source_offset + LOCAL_FILE_HEADER_LEN <= data_offset
            &&& data_offset + entry.compressed_size <= entry.source_span_end
            &&& entry.compression.is_supported()
        }),
{
}

} // verus!

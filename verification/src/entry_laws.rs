//! Where the data of an entry lies in a source ZIP, and which headers are accepted.
use vstd::prelude::*;
use vstd::utf8::{encode_utf8, valid_utf8};

use crate::compression::Compression;
use crate::entry_reader::{
    data_decoding, header_span_problem, local_header, local_name_problem, EntryDecoding,
};
use crate::zip_manifest::ManifestEntryView;
use crate::zip_path::{names_directory, path_problem};

verus! {

/// Whether an entry lies at an offset of a source: a header of thirty bytes that
/// ends in the lengths of what follows, the name, the extra field and the data.
pub open spec fn is_laid_out(
    source: Seq<u8>,
    offset: int,
    header: Seq<u8>,
    name: Seq<u8>,
    extra: Seq<u8>,
    data: Seq<u8>,
) -> bool {
    &&& header.len() == 30
    &&& name.len() == header[26] + 256 * header[27]
    &&& extra.len() == header[28] + 256 * header[29]
    &&& 0 <= offset
    &&& offset + 30 + name.len() + extra.len() + data.len() <= source.len()
    &&& source.subrange(offset, offset + 30 + name.len() + extra.len() + data.len()) == header
        + name + extra + data
}

/// The data of an entry follows its header, name and extra field: whatever lies
/// in a source as an entry does, an accepted header gives the lengths of the name
/// and the extra field, and the bytes from the data offset on are the data.
pub proof fn law_data_follows_name_and_extra_field(
    entry: ManifestEntryView,
    source: Seq<u8>,
    header: Seq<u8>,
    name: Seq<u8>,
    extra: Seq<u8>,
    data: Seq<u8>,
)
    requires
        is_laid_out(source, entry.source_offset as int, header, name, extra, data),
        local_header(entry, header) is Ok,
    ensures
        ({
            let parsed = local_header(entry, header)->Ok_0;
            &&& parsed.file_name_len == name.len()
            &&& parsed.extra_field_len == extra.len()
            &&& source.subrange(
                entry.source_offset + 30,
                entry.source_offset + 30 + parsed.file_name_len,
            ) == name
            &&& parsed.data_offset == entry.source_offset + 30 + name.len() + extra.len()
            &&& source.subrange(
                parsed.data_offset as int,
                parsed.data_offset + data.len(),
            ) == data
        }),
{
    let offset = entry.source_offset as int;
    let whole = header + name + extra + data;
    let span = source.subrange(offset, offset + whole.len());
    assert(span == whole);
    let at = 30 + name.len();
    assert(source.subrange(offset + 30, offset + at) =~= name) by {
        assert forall|i: int| 0 <= i < name.len() implies source[offset + 30 + i] == name[i] by {
            assert(span[30 + i] == whole[30 + i]);
        }
    }
    let start = at + extra.len();
    assert(source.subrange(offset + start, offset + start + data.len()) =~= data) by {
        assert forall|i: int| 0 <= i < data.len() implies source[offset + start + i]
            == data[i] by {
            assert(span[start + i] == whole[start + i]);
        }
    }
}

/// A header is accepted exactly where it starts with the signature `PK\\3\\4`, is
/// not marked as encrypted, has the method of the central directory, and its name
/// and extra field lie in the entry's span.
pub proof fn law_header_is_accepted_where_it_fits(entry: ManifestEntryView, header: Seq<u8>)
    requires
        header.len() == 30,
    ensures
        local_header(entry, header) is Ok <==> {
            &&& header[0] == 0x50 && header[1] == 0x4b && header[2] == 3 && header[3] == 4
            &&& header[6] % 2 == 0
            &&& header[8] + 256 * header[9] == entry.compression.code_spec()
            &&& entry.source_offset + 30 + (header[26] + 256 * header[27]) + (header[28] + 256
                * header[29]) <= entry.source_span_end
        },
        header_span_problem(entry) is None <==> entry.source_offset + 30 <= entry.source_span_end,
{
    let flags = header[6] + 256 * header[7];
    assert(flags % 2 == header[6] % 2) by (nonlinear_arith)
        requires
            flags == header[6] + 256 * header[7],
    ;
    let signature = header[0] + header[1] * 256 + header[2] * 65536 + header[3] * 16777216;
    assert(signature == 0x0403_4b50 <==> header[0] == 0x50 && header[1] == 0x4b && header[2] == 3
        && header[3] == 4);
}

/// The methods have the numbers that ZIP headers use, and only stored and
/// deflated entries are read.
pub proof fn law_methods_have_their_numbers(method: Compression)
    ensures
        method is Stored <==> method.code_spec() == 0,
        method is Deflate <==> method.code_spec() == 8,
        method is Deflate64 <==> method.code_spec() == 9,
        method is Bz <==> method.code_spec() == 12,
        method is Lzma <==> method.code_spec() == 14,
        method is Zstd <==> method.code_spec() == 93,
        method is Xz <==> method.code_spec() == 95,
        method.is_supported_spec() <==> method is Stored || method is Deflate,
{
}

/// The data of an entry is accepted exactly where it ends in the entry's span and
/// its method is known, and it is decoded by that method.
pub proof fn law_data_is_decoded_by_its_method(entry: ManifestEntryView, data_offset: u64)
    ensures
        match data_decoding(entry, data_offset) {
            Ok(decoding) => {
                &&& data_offset + entry.compressed_size <= entry.source_span_end
                &&& decoding == EntryDecoding::Stored ==> entry.compression is Stored
                &&& decoding == EntryDecoding::Deflate ==> entry.compression is Deflate
            },
            Err(_) => data_offset + entry.compressed_size > entry.source_span_end || !(
            entry.compression is Stored || entry.compression is Deflate),
        },
{
}

/// The name in a local header is accepted exactly where it is the entry's path in
/// UTF-8.
pub proof fn law_local_name_is_the_entry_path(entry: ManifestEntryView, name: Seq<u8>)
    requires
        path_problem(entry.zip_path) is None,
        !names_directory(entry.zip_path),
    ensures
        local_name_problem(entry, name) is None <==> name == encode_utf8(entry.zip_path),
{
    vstd::utf8::encode_utf8_decode_utf8(entry.zip_path);
    vstd::utf8::encode_utf8_valid_utf8(entry.zip_path);
    if valid_utf8(name) {
        vstd::utf8::decode_utf8_encode_utf8(name);
    }
}

} // verus!

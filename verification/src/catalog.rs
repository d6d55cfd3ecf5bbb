//! The update catalog embedded in ZIP archives.
use vstd::hash_map::StringHashMap;
use vstd::prelude::*;
use vstd::string::*;

use crate::constants::{
    EMBEDDED_CATALOG_MAX_BYTES, EMBEDDED_CATALOG_PATH, EMBEDDED_CATALOG_VERSION,
};
use crate::s3_uri::{etag_md5, normalize_etag};
use crate::text::str_eq;
use crate::zip_path::{names_directory, normalize_zip_file_path, path_problem};

verus! {

/// The embedded update catalog: the MD5 digest of each file in the archive.
#[derive(Debug, PartialEq, Eq)]
pub struct EmbeddedCatalog {
    pub version: u32,
    pub entries: Vec<EmbeddedCatalogEntry>,
}

/// One file of the embedded catalog.
#[derive(Debug, PartialEq, Eq)]
pub struct EmbeddedCatalogEntry {
    pub path: String,
    pub md5: String,
}

/// The digests that a catalog's first `n` entries give, by path.
///
/// Entries with a path that is refused or reserved, or that names a directory,
/// and entries without an MD5 digest are left out. Later entries win.
pub open spec fn catalog_digests(entries: Seq<(Seq<char>, Seq<char>)>, n: int) -> Map<
    Seq<char>,
    Seq<char>,
>
    decreases n,
{
    if n <= 0 {
        Map::empty()
    } else {
        let (path, md5) = entries[n - 1];
        let before = catalog_digests(entries, n - 1);
        match etag_md5(md5) {
            Some(digest) => if path_problem(path) is None && !names_directory(path) && path
                != EMBEDDED_CATALOG_PATH@ {
                before.insert(path, digest)
            } else {
                before
            },
            None => before,
        }
    }
}

/// The paths and digests of catalog entries, as they are written.
pub open spec fn catalog_lines(entries: Seq<EmbeddedCatalogEntry>) -> Seq<(Seq<char>, Seq<char>)> {
    Seq::new(entries.len(), |i: int| (entries[i].path@, entries[i].md5@))
}

/// The digests of a map from path to digest text.
pub open spec fn digest_views(map: Map<Seq<char>, String>) -> Map<Seq<char>, Seq<char>> {
    map.map_values(|md5: String| md5@)
}

/// The digests of a catalog by path. A catalog of another version has none.
pub fn catalog_md5_by_path(catalog: EmbeddedCatalog) -> (digests: StringHashMap<String>)
    ensures
        digest_views(digests@) == if catalog.version == EMBEDDED_CATALOG_VERSION {
            catalog_digests(catalog_lines(catalog.entries@), catalog.entries@.len() as int)
        } else {
            Map::empty()
        },
{
    let mut result: StringHashMap<String> = StringHashMap::new();
    assert(digest_views(result@) =~= Map::<Seq<char>, Seq<char>>::empty());
    if catalog.version != EMBEDDED_CATALOG_VERSION {
        return result;
    }
    let ghost lines = catalog_lines(catalog.entries@);
    let mut i: usize = 0;
    while i < catalog.entries.len()
        invariant
            i <= catalog.entries.len(),
            lines == catalog_lines(catalog.entries@),
            digest_views(result@) == catalog_digests(lines, i as int),
        decreases catalog.entries.len() - i,
    {
        let entry = &catalog.entries[i];
        i += 1;
        assert(lines[i - 1] == (entry.path@, entry.md5@));
        let path = match normalize_zip_file_path(&entry.path) {
            Ok(Some(path)) => path,
            _ => continue,
        };
        if str_eq(&path, EMBEDDED_CATALOG_PATH) {
            continue;
        }
        let md5 = match normalize_etag(&entry.md5) {
            Some(md5) => md5,
            None => continue,
        };
        let ghost before = result@;
        result.insert(path, md5);
        assert(digest_views(result@) =~= digest_views(before).insert(path@, md5@));
    }
    result
}

/// Whether the sizes of an embedded catalog's entry allow it to be read.
pub fn catalog_sizes_allowed(size: u64, compressed_size: u64) -> (allowed: bool)
    ensures
        allowed == (size <= EMBEDDED_CATALOG_MAX_BYTES && compressed_size
            <= EMBEDDED_CATALOG_MAX_BYTES),
{
    size <= EMBEDDED_CATALOG_MAX_BYTES && compressed_size <= EMBEDDED_CATALOG_MAX_BYTES
}

/// Whether the bytes read from an embedded catalog's entry may be parsed.
pub fn catalog_bytes_accepted(read_bytes: u64, expected_crc32: u32, actual_crc32: u32) -> (accepted:
    bool)
    ensures
        accepted == (read_bytes <= EMBEDDED_CATALOG_MAX_BYTES && actual_crc32 == expected_crc32),
{
    read_bytes <= EMBEDDED_CATALOG_MAX_BYTES && actual_crc32 == expected_crc32
}

/// Every digest that a catalog gives is one in lowercase hexadecimal, under a
/// plain file path that is not the reserved one.
pub proof fn law_catalog_digests_are_valid(entries: Seq<(Seq<char>, Seq<char>)>, n: int)
    ensures
        forall|path: Seq<char>| #[trigger]
            catalog_digests(entries, n).contains_key(path) ==> path_problem(path) is None
                && !names_directory(path) && path != EMBEDDED_CATALOG_PATH@
                && crate::s3_uri::is_md5_hex(catalog_digests(entries, n)[path]),
    decreases n,
{
    if n > 0 {
        let before = catalog_digests(entries, n - 1);
        let now = catalog_digests(entries, n);
        law_catalog_digests_are_valid(entries, n - 1);
        assert forall|path: Seq<char>| #[trigger] now.contains_key(path) implies path_problem(
            path,
        ) is None && !names_directory(path) && path != EMBEDDED_CATALOG_PATH@
            && crate::s3_uri::is_md5_hex(now[path]) by {
            if path != entries[n - 1].0 {
                assert(before.contains_key(path));
            }
        }
    }
}

} // verus!

//! Which objects and files a ZIP archive takes in.
use vstd::prelude::*;
use vstd::string::*;

use crate::constants::EMBEDDED_CATALOG_PATH;
use crate::listing::ListedView;
use crate::local_path::{is_under, zip_path_of, PartView};
use crate::s3_uri::list_prefix;
use crate::text::trim_trailing;
use crate::upload_entries::{
    collect_objects, found_zip_path, prefix_entry, Collected, SourceKind, UploadEntryView,
    UploadSourceView,
};
use crate::zip_path::{lemma_trim_trailing, path_problem};

verus! {

/// The keys under a prefix are those that start with it and a slash. The empty
/// prefix holds all keys, and a prefix that ends in a slash is complete.
pub proof fn law_listed_prefix_ends_in_a_slash(prefix: Seq<char>)
    ensures
        prefix.len() == 0 ==> list_prefix(prefix).len() == 0,
        prefix.len() > 0 && prefix.last() == '/' ==> list_prefix(prefix) == prefix,
        prefix.len() > 0 && prefix.last() != '/' ==> list_prefix(prefix) == prefix.push('/'),
{
    reveal_strlit("/");
    assert(prefix.len() > 0 && prefix.last() != '/' ==> list_prefix(prefix) =~= prefix.push('/'));
}

/// How many of the first `n` listed objects have a key that is longer than the
/// listed prefix. The other one is the marker of the prefix itself.
pub open spec fn named_objects(page: Seq<ListedView>, listed: Seq<char>, n: int) -> int
    decreases n,
{
    if n <= 0 {
        0
    } else if page[n - 1].key is Some && page[n - 1].key->Some_0.len() > listed.len() {
        named_objects(page, listed, n - 1) + 1
    } else {
        named_objects(page, listed, n - 1)
    }
}

/// Whether an entry is that of a listed object: a file with its key below the
/// prefix as path, its size, key and ETag, or for a key that ends in slashes a
/// directory with one slash.
pub open spec fn is_entry_of(
    entry: UploadEntryView,
    object: ListedView,
    bucket: Seq<char>,
    listed: Seq<char>,
) -> bool {
    &&& object.key is Some
    &&& object.size is Some
    &&& object.size->Some_0 == entry.size
    &&& object.key->Some_0.len() > listed.len()
    &&& object.key->Some_0.take(listed.len() as int) == listed
    &&& if object.key->Some_0.last() == '/' {
        &&& entry.source is Directory
        &&& entry.size == 0
        &&& entry.zip_path.len() > 1
        &&& entry.zip_path.last() == '/'
        &&& entry.zip_path[entry.zip_path.len() - 2] != '/'
        &&& listed + entry.zip_path == object.key->Some_0.take(
            (listed + entry.zip_path).len() as int,
        )
        &&& forall|i: int|
            (listed + entry.zip_path).len() <= i < object.key->Some_0.len()
                ==> #[trigger] object.key->Some_0[i] == '/'
    } else {
        &&& listed + entry.zip_path == object.key->Some_0
        &&& entry.source == UploadSourceView::S3Object {
            bucket,
            key: object.key->Some_0,
            etag: object.etag,
        }
    }
}

proof fn lemma_trimmed_rest(s: Seq<char>, c: char, i: int)
    requires
        trim_trailing(s, c).len() <= i < s.len(),
    ensures
        s[i] == c,
    decreases s.len(),
{
    if s.len() > 0 && s.last() == c && i < s.len() - 1 {
        lemma_trimmed_rest(s.drop_last(), c, i);
    }
}

proof fn lemma_one_entry(
    bucket: Seq<char>,
    prefix: Seq<char>,
    key: Seq<char>,
    size: u64,
    etag: Option<Seq<char>>,
    seen: Set<Seq<char>>,
    max_file_size: Option<u64>,
)
    requires
        size <= i64::MAX,
    ensures
        match prefix_entry(bucket, prefix, key, size, etag, seen, max_file_size) {
            Ok(Some(entry)) => is_entry_of(
                entry,
                (ListedView { key: Some(key), size: Some(size as i64), etag }),
                bucket,
                list_prefix(prefix),
            ),
            Ok(None) => key.len() <= list_prefix(prefix).len(),
            Err(_) => true,
        },
{
    let listed = list_prefix(prefix);
    if let Ok(Some(entry)) = prefix_entry(bucket, prefix, key, size, etag, seen, max_file_size) {
        let relative = key.skip(listed.len() as int);
        assert(key =~= listed + relative);
        assert(relative.last() == key.last());
        if key.last() == '/' {
            lemma_trim_trailing(relative, '/');
            let body = trim_trailing(relative, '/');
            assert(entry.zip_path == body.push('/'));
            assert(relative[body.len() as int] == '/') by {
                lemma_trimmed_rest(relative, '/', body.len() as int);
            }
            assert(entry.zip_path =~= relative.take(body.len() as int + 1));
            assert(entry.zip_path[entry.zip_path.len() - 2] == body.last());
            assert(listed + entry.zip_path =~= key.take((listed + entry.zip_path).len() as int));
            assert forall|i: int|
                (listed + entry.zip_path).len() <= i < key.len() implies #[trigger] key[i]
                == '/' by {
                lemma_trimmed_rest(relative, '/', i - listed.len());
            }
        }
    }
}

/// Nothing is left out: where a listing is collected without error, each object
/// but the marker of the prefix itself has its entry, in the order of the listing,
/// and there are no other new entries.
pub proof fn law_every_listed_object_is_collected(
    bucket: Seq<char>,
    prefix: Seq<char>,
    max_file_size: Option<u64>,
    before: Collected,
    page: Seq<ListedView>,
    n: int,
)
    requires
        0 <= n <= page.len(),
        collect_objects(bucket, prefix, max_file_size, before, page, n) is Ok,
    ensures
        ({
            let after = collect_objects(bucket, prefix, max_file_size, before, page, n)->Ok_0;
            let listed = list_prefix(prefix);
            let known = before.entries.len() as int;
            &&& after.entries.len() == known + named_objects(page, listed, n)
            &&& after.entries.take(known) == before.entries
            &&& forall|i: int|
                #![trigger page[i]]
                0 <= i < n ==> page[i].key is Some && page[i].size is Some
                    && page[i].size->Some_0 >= 0 && (page[i].key->Some_0.len() > listed.len()
                    ==> 0 <= known + named_objects(page, listed, i) < after.entries.len()
                    && is_entry_of(
                    after.entries[known + named_objects(page, listed, i)],
                    page[i],
                    bucket,
                    listed,
                ))
        }),
    decreases n,
{
    let after = collect_objects(bucket, prefix, max_file_size, before, page, n)->Ok_0;
    let listed = list_prefix(prefix);
    let known = before.entries.len() as int;
    if n > 0 {
        law_every_listed_object_is_collected(bucket, prefix, max_file_size, before, page, n - 1);
        let middle = collect_objects(
            bucket,
            prefix,
            max_file_size,
            before,
            page,
            n - 1,
        )->Ok_0;
        let object = page[n - 1];
        let key = object.key->Some_0;
        let size = object.size->Some_0 as u64;
        lemma_one_entry(bucket, prefix, key, size, object.etag, middle.seen, max_file_size);
        assert(object == (ListedView { key: Some(key), size: Some(size as i64), etag: object.etag }));
        lemma_named_grows(page, listed, n - 1);
        assert(after.entries.take(known) =~= middle.entries.take(known));
        assert forall|i: int| #![trigger page[i]] 0 <= i < n implies page[i].key is Some
            && page[i].size is Some && page[i].size->Some_0 >= 0 && (page[i].key->Some_0.len()
            > listed.len() ==> 0 <= known + named_objects(page, listed, i) < after.entries.len()
            && is_entry_of(
            after.entries[known + named_objects(page, listed, i)],
            page[i],
            bucket,
            listed,
        )) by {
            if i < n - 1 && page[i].key->Some_0.len() > listed.len() {
                let at = known + named_objects(page, listed, i);
                assert(after.entries[at] == middle.entries[at]);
            }
        }
    } else {
        assert(after.entries.take(known) =~= before.entries);
    }
}

proof fn lemma_named_grows(page: Seq<ListedView>, listed: Seq<char>, n: int)
    ensures
        named_objects(page, listed, n) >= 0,
    decreases n,
{
    if n > 0 {
        lemma_named_grows(page, listed, n - 1);
    }
}

/// An object with an ordinary key under the prefix is taken in as a file of its
/// path, unless the path is taken already, reserved, or the object is too large.
pub proof fn law_ordinary_object_is_taken_in(
    bucket: Seq<char>,
    prefix: Seq<char>,
    relative: Seq<char>,
    size: u64,
    etag: Option<Seq<char>>,
    seen: Set<Seq<char>>,
    max_file_size: Option<u64>,
)
    requires
        path_problem(relative) is None,
        relative.last() != '/',
    ensures
        prefix_entry(
            bucket,
            prefix,
            list_prefix(prefix) + relative,
            size,
            etag,
            seen,
            max_file_size,
        ) is Ok <==> !seen.contains(relative) && relative != EMBEDDED_CATALOG_PATH@ && (
        max_file_size is None || size <= max_file_size->Some_0),
{
    let listed = list_prefix(prefix);
    let key = listed + relative;
    assert(key.take(listed.len() as int) =~= listed);
    assert(key.skip(listed.len() as int) =~= relative);
}

/// A key outside the prefix, an object at the prefix itself that is not empty, and
/// one that is not empty where a directory should be are refused.
pub proof fn law_misplaced_object_is_refused(
    bucket: Seq<char>,
    prefix: Seq<char>,
    key: Seq<char>,
    size: u64,
    etag: Option<Seq<char>>,
    seen: Set<Seq<char>>,
    max_file_size: Option<u64>,
)
    requires
        key.len() < list_prefix(prefix).len() || key.take(list_prefix(prefix).len() as int)
            != list_prefix(prefix) || (size > 0 && (key == list_prefix(prefix) || (key.len() > 0
            && key.last() == '/'))),
    ensures
        prefix_entry(bucket, prefix, key, size, etag, seen, max_file_size) is Err,
{
    let listed = list_prefix(prefix);
    let relative = key.skip(listed.len() as int);
    if key.len() > listed.len() {
        assert(relative.last() == key.last());
    }
}

/// What is found in a directory is taken in by its kind: files up to the limit
/// under their path below the source directory, with a slash between names,
/// directories through what lies in them, and nothing else.
pub proof fn law_found_file_is_taken_in(
    source: Seq<PartView>,
    path: Seq<PartView>,
    kind: SourceKind,
    size: u64,
    max_file_size: Option<u64>,
)
    ensures
        kind == SourceKind::Symlink || kind == SourceKind::Other ==> found_zip_path(
            source,
            path,
            kind,
            size,
            max_file_size,
        ) is Err,
        kind == SourceKind::Directory ==> found_zip_path(source, path, kind, size, max_file_size)
            == Ok::<Option<Seq<char>>, Seq<char>>(None),
        kind == SourceKind::File ==> match found_zip_path(
            source,
            path,
            kind,
            size,
            max_file_size,
        ) {
            Ok(zip_path) => {
                &&& zip_path is Some
                &&& zip_path_of(source, path) == Ok::<Seq<char>, Seq<char>>(zip_path->Some_0)
                &&& zip_path->Some_0 != EMBEDDED_CATALOG_PATH@
                &&& max_file_size is None || size <= max_file_size->Some_0
            },
            Err(_) => {
                ||| max_file_size is Some && size > max_file_size->Some_0
                ||| zip_path_of(source, path) is Err
                ||| zip_path_of(source, path)->Ok_0 == EMBEDDED_CATALOG_PATH@
            },
        },
{
}

proof fn lemma_parts_without_problem(parts: Seq<PartView>, from: int)
    requires
        0 <= from,
        forall|i: int|
            0 <= i < parts.len() ==> (#[trigger] parts[i]) is Name
                && !parts[i]->Name_0.contains('\\'),
    ensures
        crate::local_path::parts_problem(parts, from) is None,
    decreases parts.len() - from,
{
    if from < parts.len() {
        assert(parts[from] is Name && !parts[from]->Name_0.contains('\\'));
        lemma_parts_without_problem(parts, from + 1);
    }
}

proof fn lemma_parts_with_problem(parts: Seq<PartView>, from: int, i: int)
    requires
        0 <= from <= i < parts.len(),
        !(parts[i] is Name) || parts[i]->Name_0.contains('\\'),
    ensures
        crate::local_path::parts_problem(parts, from) is Some,
    decreases i - from,
{
    if from < i {
        lemma_parts_with_problem(parts, from + 1, i);
    }
}

/// A path has a ZIP path exactly where it lies below the source directory and all
/// it adds to it are names without backslashes.
pub proof fn law_paths_below_the_source_have_zip_paths(
    source: Seq<PartView>,
    path: Seq<PartView>,
)
    ensures
        zip_path_of(source, path) is Ok <==> {
            &&& source.len() < path.len()
            &&& path.take(source.len() as int) == source
            &&& forall|i: int|
                source.len() <= i < path.len() ==> (#[trigger] path[i]) is Name
                    && !path[i]->Name_0.contains('\\')
        },
{
    let n = source.len() as int;
    if is_under(path, source) {
        let relative = path.skip(n);
        if forall|i: int|
            n <= i < path.len() ==> (#[trigger] path[i]) is Name && !path[i]->Name_0.contains('\\') {
            assert forall|i: int| 0 <= i < relative.len() implies (#[trigger] relative[i]) is Name
                && !relative[i]->Name_0.contains('\\') by {
                assert(relative[i] == path[i + n]);
            }
            lemma_parts_without_problem(relative, 0);
        } else {
            let i = choose|i: int|
                n <= i < path.len() && !((#[trigger] path[i]) is Name
                    && !path[i]->Name_0.contains('\\'));
            assert(relative[i - n] == path[i]);
            lemma_parts_with_problem(relative, 0, i - n);
        }
    }
}

} // verus!

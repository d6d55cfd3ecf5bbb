//! What a local directory is zipped to is extracted to the same tree.
use vstd::prelude::*;
use vstd::string::*;

use crate::archive_writer::{after_pushes, law_pushed_content_is_kept, EntryContentView};
use crate::constants::EMBEDDED_CATALOG_PATH;
use crate::digest::{
    checked_body, content_digest, crc32_checksum, is_read_as, joined_chunks,
    law_right_content_is_passed_on, ExtractDigestView,
};
use crate::error::ErrorView;
use crate::local_destination::{
    ancestor_key, collision_keys, collision_problem, directory_names, find_key, is_control_char,
    is_reserved_char, is_unsafe_component, lemma_find_key, local_names, nonempty_components,
    path_components, same_path_problem, under_file_problem, under_files_problem, unsafe_component,
    unsafe_path,
};
use crate::local_path::{
    is_under, joined_names, lemma_first_name, lemma_joined_names_are_distinct, names_are_plain,
    parts_problem, zip_path_of, PartView,
};
use crate::local_sync::{extracted_directory, extracted_file};
use crate::local_zip::{
    local_entry_problem, local_fold, local_holds_path, local_outcome, LocalEntryView, LocalRules,
};
use crate::report::{
    counted_all, empty_summary, ObjectReport, ObjectReportView, OperationStatus, SyncSummary,
};
use crate::selection::law_empty_selection_selects_everything;
use crate::text::{find_char, split, trim_leading, trim_trailing};
use crate::upload_entries::{found_zip_path, SourceKind};
use crate::zip_manifest::{EntryNameView, StoredEntryView};
use crate::zip_path::{
    component_problem, lemma_plain_has_no_problem, names_directory, normalized_path, path_problem,
};

verus! {

/// Whether a path consists of names that are safe on every platform.
pub open spec fn names_are_safe(parts: Seq<PartView>) -> bool {
    forall|i: int|
        0 <= i < parts.len() && (#[trigger] parts[i]) is Name ==> !is_unsafe_component(
            parts[i]->Name_0,
        )
}

/// The path that consists of some names.
pub open spec fn name_parts(names: Seq<Seq<char>>) -> Seq<PartView> {
    names.map_values(|name: Seq<char>| PartView::Name(name))
}

/// Whether a path under a source directory is one that is zipped and extracted:
/// it consists of names that a file system has and that are safe.
spec fn is_portable(parts: Seq<PartView>) -> bool {
    &&& parts.len() > 0
    &&& names_are_plain(parts)
    &&& names_are_safe(parts)
    &&& forall|i: int|
        0 <= i < parts.len() ==> (#[trigger] parts[i]) is Name && !parts[i]->Name_0.contains('\\')
}

spec fn joined(parts: Seq<PartView>) -> Seq<char> {
    joined_names(parts, parts.len() as int)
}

proof fn lemma_portable_rest(parts: Seq<PartView>)
    requires
        is_portable(parts),
        parts.len() > 1,
    ensures
        is_portable(parts.skip(1)),
{
    let rest = parts.skip(1);
    assert forall|i: int| 0 <= i < rest.len() implies (#[trigger] rest[i]) is Name
        && rest[i]->Name_0.len() > 0 && !rest[i]->Name_0.contains('/')
        && !rest[i]->Name_0.contains('\\') && !is_unsafe_component(rest[i]->Name_0) by {
        assert(rest[i] == parts[i + 1]);
    }
}

proof fn lemma_no_problem_is_names(parts: Seq<PartView>, from: int, i: int)
    requires
        parts_problem(parts, from) is None,
        0 <= from <= i < parts.len(),
    ensures
        parts[i] is Name,
        !parts[i]->Name_0.contains('\\'),
    decreases i - from,
{
    if from < i {
        lemma_no_problem_is_names(parts, from + 1, i);
    }
}

/// The components of joined names are the names again.
proof fn lemma_split_joined(parts: Seq<PartView>)
    requires
        is_portable(parts),
    ensures
        name_parts(split(joined(parts), '/')) == parts,
        split(joined(parts), '/').len() == parts.len(),
    decreases parts.len(),
{
    assert(parts[0] is Name);
    lemma_first_name(parts);
    let whole = joined(parts);
    let slash = find_char(whole, '/');
    if parts.len() == 1 {
        assert(whole.take(slash) =~= whole);
        assert(name_parts(split(whole, '/')) =~= parts);
    } else {
        let rest = parts.skip(1);
        lemma_portable_rest(parts);
        lemma_split_joined(rest);
        let tail = split(whole.skip(slash + 1), '/');
        assert(split(whole, '/') == seq![whole.take(slash)] + tail);
        let all = name_parts(split(whole, '/'));
        assert forall|i: int| 0 <= i < parts.len() implies all[i] == parts[i] by {
            if i > 0 {
                assert(name_parts(tail)[i - 1] == rest[i - 1]);
            }
        }
        assert(all =~= parts);
    }
}

/// Joined names start and end with a character of a name, and hold none that
/// a ZIP path may not hold.
proof fn lemma_joined_chars(parts: Seq<PartView>)
    requires
        is_portable(parts),
    ensures
        joined(parts).len() > 0,
        joined(parts)[0] != '/',
        joined(parts).last() != '/',
        !joined(parts).contains('\0'),
        !joined(parts).contains('\\'),
    decreases parts.len(),
{
    assert(parts[0] is Name);
    lemma_first_name(parts);
    let whole = joined(parts);
    let slash = find_char(whole, '/');
    let name = parts[0]->Name_0;
    assert(!is_unsafe_component(name));
    assert forall|k: int| 0 <= k < name.len() implies name[k] != '/' && name[k] != '\0' && name[k]
        != '\\' by {
        assert(name.contains(name[k]));
        assert(!(is_reserved_char(name[k]) || is_control_char(name[k])));
    }
    assert forall|k: int| 0 <= k < name.len() implies whole[k] == name[k] by {
        assert(whole.take(slash)[k] == whole[k]);
    }
    if parts.len() > 1 {
        let rest = parts.skip(1);
        lemma_portable_rest(parts);
        lemma_joined_chars(rest);
        let tail = whole.skip(slash + 1);
        crate::text::lemma_find_char(whole, '/');
        assert(tail == joined(rest));
        assert(tail.last() == whole.last());
        assert forall|k: int| slash < k < whole.len() implies whole[k] != '\0' && whole[k]
            != '\\' by {
            assert(whole[k] == tail[k - slash - 1]);
            assert(tail.contains(tail[k - slash - 1]));
        }
    }
}

proof fn lemma_no_unsafe_component(zip_path: Seq<char>, components: Seq<Seq<char>>, from: int)
    requires
        0 <= from,
        forall|i: int|
            0 <= i < components.len() ==> !is_unsafe_component(#[trigger] components[i]),
    ensures
        unsafe_component(zip_path, components, from) is None,
    decreases components.len() - from,
{
    if from < components.len() {
        assert(!is_unsafe_component(components[from]));
        lemma_no_unsafe_component(zip_path, components, from + 1);
    }
}

/// Whether extraction accepts a ZIP path as that of a file or directory, and
/// what it is extracted to is a path of the same parts.
pub open spec fn extracts_to(zip_path: Seq<char>, is_directory: bool, parts: Seq<PartView>) -> bool {
    &&& path_problem(zip_path) is None
    &&& normalized_path(zip_path) == zip_path
    &&& names_directory(zip_path) == is_directory
    &&& unsafe_component(zip_path, path_components(zip_path), 0) is None
    &&& name_parts(path_components(zip_path)) == parts
}

proof fn lemma_extracts(parts: Seq<PartView>, is_directory: bool)
    requires
        is_portable(parts),
    ensures
        extracts_to(
            if is_directory {
                joined(parts) + "/"@
            } else {
                joined(parts)
            },
            is_directory,
            parts,
        ),
        trim_trailing(joined(parts), '/') == joined(parts),
        trim_trailing(joined(parts) + "/"@, '/') == joined(parts),
{
    reveal_strlit("/");
    reveal_strlit(".");
    reveal_strlit("..");
    let body = joined(parts);
    let marked = body + "/"@;
    lemma_joined_chars(parts);
    lemma_split_joined(parts);
    assert(marked =~= body.push('/'));
    assert(marked.drop_last() =~= body);
    assert(trim_trailing(marked, '/') == trim_trailing(body, '/'));
    let components = split(body, '/');
    assert forall|i: int| 0 <= i < components.len() implies component_problem(
        #[trigger] components[i],
        i == 0,
    ) is None && !is_unsafe_component(components[i]) by {
        assert(name_parts(components)[i] == PartView::Name(components[i]));
        assert(parts[i] == PartView::Name(components[i]));
        let name = components[i];
        assert(!is_unsafe_component(name));
        assert(name.len() > 0);
        assert(name.last() != '.');
        if name.len() == 2 {
            assert(!is_reserved_char(name[1]));
        }
    }
    lemma_plain_has_no_problem(components, 0);
    let zip_path = if is_directory {
        marked
    } else {
        body
    };
    lemma_no_unsafe_component(zip_path, components, 0);
    assert(zip_path[0] == body[0]);
    assert(body.contains(body[0]));
    assert forall|c: char| c != '/' implies #[trigger] marked.contains(c) == body.contains(c) by {
        if marked.contains(c) {
            let k = choose|k: int| 0 <= k < marked.len() && marked[k] == c;
            assert(body[k] == c);
        }
        if body.contains(c) {
            let k = choose|k: int| 0 <= k < body.len() && body[k] == c;
            assert(marked[k] == c);
        }
    }
}

proof fn lemma_zipped_is_portable(source: Seq<PartView>, path: Seq<PartView>)
    requires
        zip_path_of(source, path) is Ok,
        names_are_plain(path),
        names_are_safe(path),
    ensures
        is_portable(path.skip(source.len() as int)),
        zip_path_of(source, path) == Ok::<Seq<char>, Seq<char>>(
            joined(path.skip(source.len() as int)),
        ),
{
    let n = source.len() as int;
    let relative = path.skip(n);
    assert forall|i: int| 0 <= i < relative.len() implies (#[trigger] relative[i]) is Name
        && relative[i]->Name_0.len() > 0 && !relative[i]->Name_0.contains('/')
        && !relative[i]->Name_0.contains('\\') && !is_unsafe_component(relative[i]->Name_0) by {
        lemma_no_problem_is_names(relative, 0, i);
        assert(relative[i] == path[i + n]);
    }
}

/// A file that is zipped is extracted to where it was: its ZIP path is accepted,
/// is not the reserved one, and has the parts that the file's path has below
/// the source directory. A file with a name that is unsafe on some platform is
/// zipped too, but not extracted to a directory.
pub proof fn law_zipped_file_extracts_to_its_path(
    source: Seq<PartView>,
    path: Seq<PartView>,
    size: u64,
    max_file_size: Option<u64>,
)
    requires
        names_are_plain(path),
        names_are_safe(path),
        found_zip_path(source, path, SourceKind::File, size, max_file_size) is Ok,
    ensures
        found_zip_path(source, path, SourceKind::File, size, max_file_size)->Ok_0 is Some,
        ({
            let zip_path = found_zip_path(
                source,
                path,
                SourceKind::File,
                size,
                max_file_size,
            )->Ok_0->Some_0;
            &&& extracts_to(zip_path, false, path.skip(source.len() as int))
            &&& zip_path != EMBEDDED_CATALOG_PATH@
        }),
{
    lemma_zipped_is_portable(source, path);
    lemma_extracts(path.skip(source.len() as int), false);
}

/// An empty directory that is zipped is extracted to where it was.
pub proof fn law_zipped_directory_extracts_to_its_path(source: Seq<PartView>, path: Seq<PartView>)
    requires
        names_are_plain(path),
        names_are_safe(path),
        zip_path_of(source, path) is Ok,
    ensures
        extracts_to(
            zip_path_of(source, path)->Ok_0 + "/"@,
            true,
            path.skip(source.len() as int),
        ),
{
    lemma_zipped_is_portable(source, path);
    lemma_extracts(path.skip(source.len() as int), true);
}

/// The content of a file comes back: what is pushed into an archive chunk by
/// chunk is what is passed on when it is extracted, in whatever chunks it is
/// read, where the archive declares the content's size and checksum. Its digest
/// is the one that the archive's catalog has.
pub proof fn law_zipped_content_comes_back(
    start: EntryContentView,
    written: Seq<Seq<u8>>,
    read: Seq<Seq<u8>>,
    zip_path: Seq<char>,
    streamed: bool,
)
    requires
        start.content.len() == 0,
        is_read_as(after_pushes(start, written, written.len() as int).content, read),
        joined_chunks(written, written.len() as int).len() <= u64::MAX,
    ensures
        ({
            let content = joined_chunks(written, written.len() as int);
            checked_body(
                zip_path,
                content.len() as u64,
                crc32_checksum(content),
                read,
                streamed,
            ) == (content, Ok::<ExtractDigestView, ErrorView>(content_digest(content)))
        }),
{
    let content = joined_chunks(written, written.len() as int);
    law_pushed_content_is_kept(start, written, written.len() as int);
    assert(start.content + content =~= content);
    law_right_content_is_passed_on(zip_path, content, read, streamed);
}

/// A file or an empty directory of a source directory.
pub struct ZippedItem {
    pub path: Seq<PartView>,
    pub is_directory: bool,
    /// What a file holds.
    pub content: Seq<u8>,
}

/// The ZIP path of a file or an empty directory.
pub open spec fn item_zip_path(source: Seq<PartView>, item: ZippedItem) -> Seq<char> {
    let zip_path = zip_path_of(source, item.path)->Ok_0;
    if item.is_directory {
        zip_path + "/"@
    } else {
        zip_path
    }
}

/// Whether some files and empty directories are those of a source directory
/// that is zipped: all have ZIP paths, their names are safe, no two have the
/// same path, and none lies in a file.
pub open spec fn is_zipped_tree(source: Seq<PartView>, items: Seq<ZippedItem>) -> bool {
    &&& forall|i: int|
        #![trigger items[i]]
        0 <= i < items.len() ==> {
            &&& names_are_plain(items[i].path)
            &&& names_are_safe(items[i].path)
            &&& zip_path_of(source, items[i].path) is Ok
            &&& item_zip_path(source, items[i]) != EMBEDDED_CATALOG_PATH@
        }
    &&& forall|i: int, j: int|
        0 <= i < items.len() && 0 <= j < items.len() && i != j ==> (#[trigger] items[i]).path != (
        #[trigger] items[j]).path && (!items[i].is_directory ==> !is_under(
            items[j].path,
            items[i].path,
        ))
}

/// Whether a central directory is that of an archive of some files and empty
/// directories: each has its entry, which can be read and which declares a
/// file's size and checksum, and the embedded catalog may follow.
pub open spec fn is_archive_of(
    source: Seq<PartView>,
    items: Seq<ZippedItem>,
    stored: Seq<StoredEntryView>,
    source_len: u64,
) -> bool {
    &&& items.len() <= stored.len() <= items.len() + 1
    &&& forall|i: int|
        #![trigger stored[i]]
        0 <= i < items.len() ==> {
            &&& stored[i].name == EntryNameView::Utf8(item_zip_path(source, items[i]))
            &&& local_entry_problem(
                stored[i],
                item_zip_path(source, items[i]),
                items[i].is_directory,
                false,
                source_len,
            ) is None
            &&& !items[i].is_directory ==> stored[i].uncompressed_size == items[i].content.len()
                && stored[i].crc32 == crc32_checksum(items[i].content)
        }
    &&& stored.len() > items.len() ==> stored.last().name == EntryNameView::Utf8(
        EMBEDDED_CATALOG_PATH@,
    )
}

proof fn lemma_item(source: Seq<PartView>, items: Seq<ZippedItem>, i: int)
    requires
        is_zipped_tree(source, items),
        0 <= i < items.len(),
    ensures
        ({
            let parts = items[i].path.skip(source.len() as int);
            &&& is_portable(parts)
            &&& items[i].path == source + parts
            &&& extracts_to(item_zip_path(source, items[i]), items[i].is_directory, parts)
            &&& trim_trailing(item_zip_path(source, items[i]), '/') == joined(parts)
        }),
{
    let path = items[i].path;
    let n = source.len() as int;
    lemma_zipped_is_portable(source, path);
    lemma_extracts(path.skip(n), items[i].is_directory);
    assert(path =~= path.take(n) + path.skip(n));
}

proof fn lemma_items_are_distinct(source: Seq<PartView>, items: Seq<ZippedItem>, i: int, j: int)
    requires
        is_zipped_tree(source, items),
        0 <= i < items.len(),
        0 <= j < items.len(),
        i != j,
    ensures
        item_zip_path(source, items[i]) != item_zip_path(source, items[j]),
        trim_trailing(item_zip_path(source, items[i]), '/') != trim_trailing(
            item_zip_path(source, items[j]),
            '/',
        ),
{
    lemma_item(source, items, i);
    lemma_item(source, items, j);
    let a = items[i].path.skip(source.len() as int);
    let b = items[j].path.skip(source.len() as int);
    if joined(a) == joined(b) {
        lemma_joined_names_are_distinct(a, b);
        assert(items[i].path == items[j].path);
    }
}

proof fn lemma_archive_entries(
    source: Seq<PartView>,
    items: Seq<ZippedItem>,
    stored: Seq<StoredEntryView>,
    n: int,
    rules: LocalRules,
)
    requires
        is_zipped_tree(source, items),
        is_archive_of(source, items, stored, rules.source_len),
        rules.prefix is None,
        !rules.enforce_s3_limit,
        rules.lines.len() == 0,
        0 <= n <= items.len(),
    ensures
        local_fold(stored, n, rules) is Ok,
        ({
            let entries = local_fold(stored, n, rules)->Ok_0.0;
            &&& entries.len() == n
            &&& forall|i: int|
                0 <= i < n ==> is_item_entry(source, items[i], stored[i], #[trigger] entries[i])
        }),
    decreases n,
{
    if n > 0 {
        lemma_archive_entries(source, items, stored, n - 1, rules);
        let before = local_fold(stored, n - 1, rules)->Ok_0.0;
        let item = items[n - 1];
        let zip_path = item_zip_path(source, item);
        lemma_item(source, items, n - 1);
        assert(rules.lines =~= Seq::empty());
        law_empty_selection_selects_everything(zip_path);
        assert(stored[n - 1].name == EntryNameView::Utf8(zip_path));
        let outcome = local_outcome(stored[n - 1], (n - 1) as usize, rules);
        assert(outcome is Entry);
        let added = outcome->Entry_0;
        if local_holds_path(before, zip_path) {
            let k = choose|k: int| 0 <= k < before.len() && (#[trigger] before[k]).zip_path
                == zip_path;
            assert(is_item_entry(source, items[k], stored[k], before[k]));
            lemma_items_are_distinct(source, items, k, n - 1);
        }
        if !item.is_directory {
            assert(stored[n - 1].uncompressed_size == item.content.len());
            assert forall|chunks: Seq<Seq<u8>>, streamed: bool|
                is_read_as(item.content, chunks) implies #[trigger] checked_body(
                added.zip_path,
                added.size,
                added.crc32,
                chunks,
                streamed,
            ) == (
                item.content,
                Ok::<ExtractDigestView, ErrorView>(content_digest(item.content)),
            ) by {
                law_right_content_is_passed_on(added.zip_path, item.content, chunks, streamed);
            }
        }
        let entries = local_fold(stored, n, rules)->Ok_0.0;
        assert(entries == before.push(added));
        assert forall|i: int| 0 <= i < n implies is_item_entry(
            source,
            items[i],
            stored[i],
            #[trigger] entries[i],
        ) by {
            if i < n - 1 {
                assert(entries[i] == before[i]);
            }
        }
    }
}

/// Whether content that is read out of an archive in whatever chunks is passed
/// on whole as that of an entry.
pub open spec fn extracts_content(entry: LocalEntryView, content: Seq<u8>) -> bool {
    forall|chunks: Seq<Seq<u8>>, streamed: bool|
        is_read_as(content, chunks) ==> #[trigger] checked_body(
            entry.zip_path,
            entry.size,
            entry.crc32,
            chunks,
            streamed,
        ) == (content, Ok::<ExtractDigestView, ErrorView>(content_digest(content)))
}

/// Whether an entry to extract is that of a file or an empty directory.
pub open spec fn is_item_entry(
    source: Seq<PartView>,
    item: ZippedItem,
    stored: StoredEntryView,
    entry: LocalEntryView,
) -> bool {
    &&& entry.zip_path == item_zip_path(source, item)
    &&& entry.is_directory == item.is_directory
    &&& entry.size == stored.uncompressed_size
    &&& entry.crc32 == stored.crc32
    &&& !item.is_directory ==> extracts_content(entry, item.content)
    &&& name_parts(path_components(entry.zip_path)) == item.path.skip(source.len() as int)
}

proof fn lemma_no_unsafe_path(zip_paths: Seq<Seq<char>>, from: int)
    requires
        0 <= from,
        forall|i: int|
            #![trigger zip_paths[i]]
            0 <= i < zip_paths.len() ==> unsafe_component(
                zip_paths[i],
                path_components(zip_paths[i]),
                0,
            ) is None,
    ensures
        unsafe_path(zip_paths, from) is None,
    decreases zip_paths.len() - from,
{
    if from < zip_paths.len() {
        assert(unsafe_component(zip_paths[from], path_components(zip_paths[from]), 0) is None);
        lemma_no_unsafe_path(zip_paths, from + 1);
    }
}

proof fn lemma_distinct_is_not_found(keys: Seq<Seq<char>>, i: int, n: int)
    requires
        0 <= n <= i < keys.len(),
        forall|a: int, b: int|
            0 <= a < keys.len() && 0 <= b < keys.len() && a != b ==> (#[trigger] keys[a]) != (
            #[trigger] keys[b]),
    ensures
        find_key(keys, keys[i], n) is None,
    decreases n,
{
    if n > 0 {
        assert(keys[n - 1] != keys[i]);
        lemma_distinct_is_not_found(keys, i, n - 1);
    }
}

proof fn lemma_no_same_paths(entries: Seq<(String, bool)>, keys: Seq<Seq<char>>, from: int)
    requires
        0 <= from,
        forall|a: int, b: int|
            0 <= a < keys.len() && 0 <= b < keys.len() && a != b ==> (#[trigger] keys[a]) != (
            #[trigger] keys[b]),
    ensures
        same_path_problem(entries, keys, from) is None,
    decreases keys.len() - from,
{
    if from < keys.len() {
        lemma_distinct_is_not_found(keys, from, from);
        lemma_no_same_paths(entries, keys, from + 1);
    }
}

/// What stands before a slash in joined names is the first of the names, joined.
proof fn lemma_joined_before_slash(parts: Seq<PartView>, p: int) -> (m: int)
    requires
        is_portable(parts),
        0 <= p < joined(parts).len(),
        joined(parts)[p] == '/',
    ensures
        0 < m < parts.len(),
        joined(parts).take(p) == joined(parts.take(m)),
        is_portable(parts.take(m)),
    decreases parts.len(),
{
    reveal_strlit("/");
    assert(parts[0] is Name);
    lemma_first_name(parts);
    crate::text::lemma_find_char(joined(parts), '/');
    let whole = joined(parts);
    let slash = find_char(whole, '/');
    let name = parts[0]->Name_0;
    assert(parts.len() > 1) by {
        if parts.len() == 1 {
            assert(whole[p] != '/');
        }
    }
    if p == slash {
        let head = parts.take(1);
        assert(head[0] == parts[0]);
        assert(joined(head) == name);
        lemma_portable_front(parts, 1);
        1
    } else {
        let rest = parts.skip(1);
        lemma_portable_rest(parts);
        let tail = whole.skip(slash + 1);
        assert(p > slash);
        assert(tail[p - slash - 1] == '/');
        let k = lemma_joined_before_slash(rest, p - slash - 1);
        let m = k + 1;
        let head = parts.take(m);
        lemma_portable_front(parts, m);
        lemma_first_name(head);
        crate::text::lemma_find_char(joined(head), '/');
        assert(head.skip(1) =~= rest.take(k));
        let front = joined(head);
        assert(front =~= front.take(slash) + seq!['/'] + front.skip(slash + 1)) by {
            assert(front[slash] == '/');
        }
        assert(whole.take(p) =~= whole.take(slash) + seq!['/'] + tail.take(p - slash - 1));
        m
    }
}

proof fn lemma_portable_front(parts: Seq<PartView>, m: int)
    requires
        is_portable(parts),
        0 < m <= parts.len(),
    ensures
        is_portable(parts.take(m)),
{
    let head = parts.take(m);
    assert forall|i: int| 0 <= i < head.len() implies (#[trigger] head[i]) is Name
        && head[i]->Name_0.len() > 0 && !head[i]->Name_0.contains('/')
        && !head[i]->Name_0.contains('\\') && !is_unsafe_component(head[i]->Name_0) by {
        assert(head[i] == parts[i]);
    }
}

proof fn lemma_item_not_under_file(
    source: Seq<PartView>,
    items: Seq<ZippedItem>,
    entries: Seq<(String, bool)>,
    keys: Seq<Seq<char>>,
    k: int,
    p: int,
)
    requires
        is_zipped_tree(source, items),
        are_items(source, items, entries),
        keys == collision_keys(entries, false),
        0 <= k < items.len(),
        0 <= p,
    ensures
        under_file_problem(entries, keys, k, p) is None,
    decreases keys[k].len() - p,
{
    let key = keys[k];
    lemma_item(source, items, k);
    assert(is_item_pair(source, items[k], entries[k]));
    let parts = items[k].path.skip(source.len() as int);
    assert(key == joined(parts));
    if p < key.len() {
        lemma_item_not_under_file(source, items, entries, keys, k, p + 1);
        if key[p] == '/' {
            lemma_joined_chars(parts);
            let ancestor = key.take(p);
            assert(p > 0);
            assert(ancestor[0] == key[0]);
            assert(trim_leading(ancestor, '/') == ancestor);
            assert(ancestor_key(key, p) == ancestor);
            lemma_find_key(keys, ancestor, keys.len() as int);
            if let Some(f) = find_key(keys, ancestor, keys.len() as int) {
                if !entries[f].1 {
                    let m = lemma_joined_before_slash(parts, p);
                    lemma_item(source, items, f);
                    assert(is_item_pair(source, items[f], entries[f]));
                    let above = items[f].path.skip(source.len() as int);
                    assert(keys[f] == joined(above));
                    lemma_joined_names_are_distinct(above, parts.take(m));
                    assert(items[k].path.take(items[f].path.len() as int) =~= items[f].path);
                    assert(is_under(items[k].path, items[f].path));
                    assert(f != k);
                    assert(items[f].path != items[k].path);
                    assert(false);
                }
            }
        }
    }
}

proof fn lemma_items_not_under_files(
    source: Seq<PartView>,
    items: Seq<ZippedItem>,
    entries: Seq<(String, bool)>,
    keys: Seq<Seq<char>>,
    k: int,
)
    requires
        is_zipped_tree(source, items),
        are_items(source, items, entries),
        keys == collision_keys(entries, false),
        0 <= k,
    ensures
        under_files_problem(entries, keys, k) is None,
    decreases keys.len() - k,
{
    if k < keys.len() {
        lemma_item_not_under_file(source, items, entries, keys, k, 0);
        lemma_items_not_under_files(source, items, entries, keys, k + 1);
    }
}

pub open spec fn is_item_pair(source: Seq<PartView>, item: ZippedItem, entry: (String, bool)) -> bool {
    entry.0@ == item_zip_path(source, item) && entry.1 == item.is_directory
}

/// Whether the ZIP paths, and which of them are directories, are those of some
/// files and empty directories.
pub open spec fn are_items(
    source: Seq<PartView>,
    items: Seq<ZippedItem>,
    entries: Seq<(String, bool)>,
) -> bool {
    &&& entries.len() == items.len()
    &&& forall|i: int|
        0 <= i < items.len() ==> is_item_pair(source, items[i], #[trigger] entries[i])
}

/// A directory that is zipped is extracted as it was: from an archive of its
/// files and empty directories, with or without the embedded catalog, exactly
/// these are taken, each to the path that it had, a file's content is passed on
/// whole, and where letter case matters no check on local paths refuses any of
/// them.
pub proof fn law_zipped_tree_extracts_to_itself(
    source: Seq<PartView>,
    items: Seq<ZippedItem>,
    stored: Seq<StoredEntryView>,
    source_len: u64,
    entries: Seq<(String, bool)>,
)
    requires
        is_zipped_tree(source, items),
        is_archive_of(source, items, stored, source_len),
        are_items(source, items, entries),
    ensures
        ({
            let rules = LocalRules {
                prefix: None,
                source_len,
                enforce_s3_limit: false,
                lines: Seq::empty(),
            };
            let taken = local_fold(stored, stored.len() as int, rules);
            &&& taken is Ok
            &&& taken->Ok_0.0.len() == items.len()
            &&& forall|i: int|
                0 <= i < items.len() ==> is_item_entry(
                    source,
                    items[i],
                    stored[i],
                    #[trigger] taken->Ok_0.0[i],
                )
        }),
        unsafe_path(Seq::new(items.len(), |i: int| item_zip_path(source, items[i])), 0) is None,
        collision_problem(entries, false) is None,
{
    let rules = LocalRules {
        prefix: None,
        source_len,
        enforce_s3_limit: false,
        lines: Seq::empty(),
    };
    let n = items.len() as int;
    lemma_archive_entries(source, items, stored, n, rules);
    if stored.len() > n {
        lemma_catalog_is_accepted();
        assert(local_outcome(stored[n], n as usize, rules) is Catalog);
        assert(local_fold(stored, n + 1, rules)->Ok_0.0 == local_fold(stored, n, rules)->Ok_0.0);
    }
    let zip_paths = Seq::new(items.len(), |i: int| item_zip_path(source, items[i]));
    assert forall|i: int| #![trigger zip_paths[i]] 0 <= i < zip_paths.len() implies unsafe_component(
        zip_paths[i],
        path_components(zip_paths[i]),
        0,
    ) is None by {
        lemma_item(source, items, i);
    }
    lemma_no_unsafe_path(zip_paths, 0);
    let keys = collision_keys(entries, false);
    assert forall|a: int, b: int| 0 <= a < keys.len() && 0 <= b < keys.len() && a != b implies (
    #[trigger] keys[a]) != (#[trigger] keys[b]) by {
        assert(is_item_pair(source, items[a], entries[a]));
        assert(is_item_pair(source, items[b], entries[b]));
        lemma_items_are_distinct(source, items, a, b);
    }
    lemma_no_same_paths(entries, keys, 0);
    lemma_items_not_under_files(source, items, entries, keys, 0);
}

proof fn lemma_no_empty_components(components: Seq<Seq<char>>, n: int)
    requires
        0 <= n <= components.len(),
        forall|i: int| 0 <= i < components.len() ==> (#[trigger] components[i]).len() > 0,
    ensures
        nonempty_components(components, n) == components.take(n),
    decreases n,
{
    if n > 0 {
        lemma_no_empty_components(components, n - 1);
        assert(components[n - 1].len() > 0);
    }
    assert(nonempty_components(components, n) =~= components.take(n));
}

/// Every directory of a tree that is zipped is made again: one that is empty for
/// itself, and any other for what lies in it. Extraction makes the directories
/// that an entry's names lead through.
pub proof fn law_zipped_directories_are_made(
    source: Seq<PartView>,
    items: Seq<ZippedItem>,
    i: int,
    directory: Seq<PartView>,
)
    requires
        is_zipped_tree(source, items),
        0 <= i < items.len(),
        is_under(directory, source),
        is_under(items[i].path, directory),
        items[i].is_directory || items[i].path != directory,
    ensures
        name_parts(local_names(item_zip_path(source, items[i]))) == items[i].path.skip(
            source.len() as int,
        ),
        is_under(
            name_parts(directory_names(item_zip_path(source, items[i]), items[i].is_directory)),
            directory.skip(source.len() as int),
        ),
{
    lemma_item(source, items, i);
    let n = source.len() as int;
    let path = items[i].path;
    let parts = path.skip(n);
    let zip_path = item_zip_path(source, items[i]);
    let components = path_components(zip_path);
    assert(components.len() == parts.len()) by {
        assert(name_parts(components).len() == components.len());
    }
    assert forall|k: int| 0 <= k < components.len() implies (#[trigger] components[k]).len() > 0 by {
        assert(name_parts(components)[k] == PartView::Name(components[k]));
        assert(parts[k] == PartView::Name(components[k]));
    }
    lemma_no_empty_components(components, components.len() as int);
    assert(components.take(components.len() as int) =~= components);
    let names = directory_names(zip_path, items[i].is_directory);
    let below = directory.skip(n);
    assert forall|k: int| 0 <= k < names.len() implies name_parts(names)[k] == parts[k] by {
        assert(name_parts(components)[k] == parts[k]);
    }
    assert forall|k: int| 0 <= k < below.len() implies below[k] == parts[k] by {
        assert(path.take(directory.len() as int)[k + n] == directory[k + n]);
    }
    if !items[i].is_directory && directory.len() == path.len() {
        assert(path.take(path.len() as int) =~= path);
    }
    assert(name_parts(names).take(below.len() as int) =~= below);
}

/// Whether a report is that of an entry that was extracted to a path at which
/// there was nothing.
pub open spec fn is_new_extraction(report: ObjectReportView, entry: LocalEntryView) -> bool {
    exists|path: Seq<char>, digest: ExtractDigestView|
        #![trigger extracted_file(entry, path, false, Ok(digest))]
        report == if entry.is_directory {
            extracted_directory(entry, path, false, Ok(()))
        } else {
            extracted_file(entry, path, false, Ok(digest))
        }
}

/// Where nothing was there before and every entry is extracted, the totals say
/// so: all entries are new, and there is no error.
pub proof fn law_extraction_into_nothing_is_all_new(
    entries: Seq<LocalEntryView>,
    operations: Seq<ObjectReport>,
)
    requires
        entries.len() == operations.len() <= usize::MAX,
        forall|i: int|
            0 <= i < entries.len() ==> is_new_extraction(
                (#[trigger] operations[i])@,
                entries[i],
            ),
    ensures
        counted_all(
            SyncSummary { zip_files: entries.len() as usize, ..empty_summary() },
            operations,
            operations.len() as int,
        ) == (SyncSummary {
            zip_files: entries.len() as usize,
            uploaded_new: entries.len() as usize,
            ..empty_summary()
        }),
{
    lemma_all_new(entries, operations, operations.len() as int);
}

proof fn lemma_all_new(entries: Seq<LocalEntryView>, operations: Seq<ObjectReport>, n: int)
    requires
        entries.len() == operations.len() <= usize::MAX,
        forall|i: int|
            0 <= i < entries.len() ==> is_new_extraction(
                (#[trigger] operations[i])@,
                entries[i],
            ),
        0 <= n <= operations.len(),
    ensures
        counted_all(
            SyncSummary { zip_files: entries.len() as usize, ..empty_summary() },
            operations,
            n,
        ) == (SyncSummary {
            zip_files: entries.len() as usize,
            uploaded_new: n as usize,
            ..empty_summary()
        }),
    decreases n,
{
    if n > 0 {
        lemma_all_new(entries, operations, n - 1);
        assert(is_new_extraction(operations[n - 1]@, entries[n - 1]));
        assert(operations[n - 1]@.status == OperationStatus::UploadedNew);
    }
}

/// The path of the embedded catalog is accepted, as that of a file.
proof fn lemma_catalog_is_accepted()
    ensures
        path_problem(EMBEDDED_CATALOG_PATH@) is None,
        normalized_path(EMBEDDED_CATALOG_PATH@) == EMBEDDED_CATALOG_PATH@,
        !names_directory(EMBEDDED_CATALOG_PATH@),
{
    reveal_strlit(".s3-unspool/catalog.v1.json");
    reveal_strlit(".s3-unspool");
    reveal_strlit("catalog.v1.json");
    reveal_strlit("/");
    reveal_strlit(".");
    reveal_strlit("..");
    let path = EMBEDDED_CATALOG_PATH@;
    let first = ".s3-unspool"@;
    let second = "catalog.v1.json"@;
    assert(path.len() == 27);
    assert(path =~= first + "/"@ + second);
    crate::text::lemma_find_char_is(path, '/', 11);
    crate::text::lemma_find_char_is(second, '/', 15);
    assert(path.take(11) =~= first);
    assert(path.skip(12) =~= second);
    assert(split(second, '/') == seq![second]);
    assert(split(path, '/') == seq![first] + seq![second]);
    let parts = split(path, '/');
    assert(parts[0] == first && parts[1] == second && parts.len() == 2);
    assert forall|i: int| 0 <= i < parts.len() implies component_problem(
        #[trigger] parts[i],
        i == 0,
    ) is None by {}
    lemma_plain_has_no_problem(parts, 0);
    assert(path.last() != '/');
    assert(trim_trailing(path, '/') == path);
}

} // verus!

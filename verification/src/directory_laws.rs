//! What may be written into a local directory, and what is zipped out of one.
use std::path::PathBuf;

use vstd::prelude::*;
use vstd::string::*;

use crate::digest::ExtractDigestView;
use crate::directory_walk::{
    after_child, after_directory, after_next, fresh_walk, ChildView, LocalPathView, WalkView,
};
use crate::dry_run::{directory_dry_run, file_dry_run};
use crate::error::ErrorView;
use crate::local_destination::{
    ancestor_key, ascii_upper, ascii_upper_seq, collision_keys, collision_problem, device_stem,
    find_key, is_unsafe_component, keys_problem, law_accepted_paths_are_distinct, lemma_find_key,
    lowercase_text, path_components, same_path_problem, trim_spaces_and_dots, under_file_problem,
    under_files_problem, unsafe_component, unsafe_path,
};
use crate::local_path::zip_path_of;
use crate::local_sync::{extracted_directory, extracted_file};
use crate::local_zip::LocalEntryView;
use crate::path_probe::{
    component_presence, existing_chain_problem, existing_problem, file_problem, first_directory,
    has_ascii_letter, linux_case, parent_chain_problem, probe_root, probe_root_above,
    raced_problem, replace_step, root_presence, swapped_case, zip_destination_problem, zip_problem,
    CaseProbeRoot, PathProbe, Presence, Probed,
};
use crate::report::{DryRunOperationStatus, OperationStatus};
use crate::text::{lemma_find_char_is, trim_trailing};
use crate::upload_entries::{SourceKind, UploadEntryView, UploadSourceView};

verus! {

/// Paths lead through directories only: a missing one is made, and anything else,
/// a link above all, stops the transfer.
pub proof fn law_paths_lead_through_directories(probe: PathProbe)
    ensures
        component_presence(probe) == Ok::<Presence, Seq<char>>(Presence::Present) <==> probe
            is Directory,
        component_presence(probe) == Ok::<Presence, Seq<char>>(Presence::Missing) <==> probe
            is NotFound,
        root_presence(probe) == Ok::<Presence, Seq<char>>(Presence::Present) <==> probe
            is Directory,
        root_presence(probe) == Ok::<Presence, Seq<char>>(Presence::Missing) <==> probe
            is NotFound,
        raced_problem(probe) is None <==> probe is Directory,
        existing_problem(probe) is None <==> probe is Directory || probe is AliasSymlink,
{
}

/// A file is written only over another file, or where there is nothing.
pub proof fn law_files_replace_files_only(probe: PathProbe, description: Seq<char>)
    ensures
        file_problem(probe) is None <==> probe is Other || probe is NotFound,
        zip_problem(probe) is None <==> probe is Other || probe is NotFound,
        replace_step(description, probe) == Ok::<bool, Seq<char>>(true) <==> probe is Other,
        replace_step(description, probe) == Ok::<bool, Seq<char>>(false) <==> probe is NotFound,
{
}

/// The path of an existing directory is accepted exactly where it leads through
/// directories, and links by which the platform names system directories.
pub proof fn law_existing_paths_lead_through_directories(chain: Seq<Probed>, i: int)
    requires
        0 <= i <= chain.len(),
    ensures
        existing_chain_problem(chain, i) is None <==> forall|k: int|
            i <= k < chain.len() ==> (#[trigger] chain[k]).probe is Directory || chain[k].probe
                is AliasSymlink,
    decreases chain.len() - i,
{
    if i < chain.len() {
        law_existing_paths_lead_through_directories(chain, i + 1);
        if existing_chain_problem(chain, i) is None {
            assert forall|k: int| i <= k < chain.len() implies (#[trigger] chain[k]).probe
                is Directory || chain[k].probe is AliasSymlink by {
                if k > i {
                    assert(existing_chain_problem(chain, i + 1) is None);
                }
            }
        }
    }
}

/// The nearest directory above something missing is found past what is missing too,
/// and past nothing else.
pub proof fn law_nearest_directory_is_found(chain: Seq<Probed>, i: int)
    requires
        0 <= i <= chain.len(),
    ensures
        match first_directory(chain, i) {
            Ok(Some(at)) => i <= at < chain.len() && chain[at].probe is Directory && forall|k: int|
                i <= k < at ==> (#[trigger] chain[k]).probe is NotFound,
            Ok(None) => forall|k: int|
                i <= k < chain.len() ==> (#[trigger] chain[k]).probe is NotFound,
            Err(_) => exists|at: int|
                i <= at < chain.len() && !((#[trigger] chain[at]).probe is Directory)
                    && !(chain[at].probe is NotFound) && forall|k: int|
                    i <= k < at ==> (#[trigger] chain[k]).probe is NotFound,
        },
    decreases chain.len() - i,
{
    if i < chain.len() {
        law_nearest_directory_is_found(chain, i + 1);
        if !(chain[i].probe is Directory) && !(chain[i].probe is NotFound) {
            assert(first_directory(chain, i) is Err);
        } else if chain[i].probe is NotFound && first_directory(chain, i) is Err {
            let at = choose|at: int|
                i + 1 <= at < chain.len() && !((#[trigger] chain[at]).probe is Directory)
                    && !(chain[at].probe is NotFound) && forall|k: int|
                    i + 1 <= k < at ==> (#[trigger] chain[k]).probe is NotFound;
            assert(!(chain[at].probe is Directory));
        }
    }
}

/// The directories for a file are accepted exactly where those that exist, up to the
/// first missing one, are directories.
pub proof fn law_parents_are_directories_up_to_the_first_missing(chain: Seq<Probed>, i: int)
    requires
        0 <= i <= chain.len(),
    ensures
        parent_chain_problem(chain, i) is None <==> exists|m: int|
            i <= m <= chain.len() && (m == chain.len() || chain[m].probe is NotFound)
                && #[trigger] all_directories(chain, i, m),
    decreases chain.len() - i,
{
    if i < chain.len() {
        law_parents_are_directories_up_to_the_first_missing(chain, i + 1);
        if chain[i].probe is NotFound {
            assert(all_directories(chain, i, i));
        } else if chain[i].probe is Directory {
            if parent_chain_problem(chain, i + 1) is None {
                let m = choose|m: int|
                    i + 1 <= m <= chain.len() && (m == chain.len() || chain[m].probe is NotFound)
                        && #[trigger] all_directories(chain, i + 1, m);
                assert(all_directories(chain, i, m));
            }
            if exists|m: int|
                i <= m <= chain.len() && (m == chain.len() || chain[m].probe is NotFound)
                    && #[trigger] all_directories(chain, i, m) {
                let m = choose|m: int|
                    i <= m <= chain.len() && (m == chain.len() || chain[m].probe is NotFound)
                        && #[trigger] all_directories(chain, i, m);
                assert(all_directories(chain, i + 1, m));
            }
        } else {
            assert forall|m: int|
                i <= m <= chain.len() && (m == chain.len() || chain[m].probe
                    is NotFound) implies !#[trigger] all_directories(chain, i, m) by {
                if m > i {
                    assert(!(chain[i].probe is Directory));
                }
            }
        }
    } else {
        assert(all_directories(chain, i, i));
    }
}

/// Whether directories were found from `i` up to `m`.
pub open spec fn all_directories(chain: Seq<Probed>, i: int, m: int) -> bool {
    forall|k: int| i <= k < m ==> (#[trigger] chain[k]).probe is Directory
}

/// A ZIP file is written exactly where its directory exists and what is at its path
/// may be replaced.
pub proof fn law_zip_goes_into_an_existing_directory(
    parent: Seq<char>,
    chain: Seq<Probed>,
    zip: Probed,
)
    ensures
        zip_destination_problem(parent, chain, zip) is None <==> chain.len() > 0 && chain[0].probe
            is Directory && (zip.probe is Other || zip.probe is NotFound),
{
    law_nearest_directory_is_found(chain, 0);
}

/// An extracted file or directory is new where there was nothing, and reported with
/// its path, size and digest; a file over a file is changed, and a directory that was
/// there is unchanged.
pub proof fn law_extracted_paths_are_reported(
    entry: LocalEntryView,
    path: Seq<char>,
    existed: bool,
    digest: ExtractDigestView,
    error: ErrorView,
)
    ensures
        ({
            let file = extracted_file(entry, path, existed, Ok(digest));
            &&& file.status == if existed {
                OperationStatus::UploadedChanged
            } else {
                OperationStatus::UploadedNew
            }
            &&& file.key == path
            &&& file.zip_path == Some(entry.zip_path)
            &&& file.size == Some(digest.bytes)
            &&& file.md5 == Some(digest.md5)
            &&& file.message is None
        }),
        ({
            let directory = extracted_directory(entry, path, existed, Ok(()));
            &&& directory.status == if existed {
                OperationStatus::SkippedUnchanged
            } else {
                OperationStatus::UploadedNew
            }
            &&& directory.key == path
            &&& directory.zip_path == Some(entry.zip_path)
            &&& directory.message is None
        }),
        ({
            let failed = extracted_file(entry, path, existed, Err(error));
            &&& failed.status == OperationStatus::Error
            &&& failed.key == path
            &&& failed.message == Some(crate::error::error_text(error))
            &&& extracted_directory(entry, path, existed, Err(error)).status
                == OperationStatus::Error
        }),
{
}

/// A dry run says of a file what extraction does: it is new where nothing is there,
/// replaces a file, and fails over links, directories and paths that lead through
/// anything but directories.
pub proof fn law_dry_run_of_a_file(entry: LocalEntryView, parents: Seq<Probed>, file: Probed)
    ensures
        ({
            let report = file_dry_run(entry, parents, file);
            &&& report.status == DryRunOperationStatus::Error <==> parent_chain_problem(
                parents,
                0,
            ) is Some || file_problem(file.probe) is Some
            &&& parent_chain_problem(parents, 0) is None && file.probe is NotFound
                ==> report.status == DryRunOperationStatus::WouldUploadNew
            &&& parent_chain_problem(parents, 0) is None && file.probe is Other ==> report.status
                == DryRunOperationStatus::WouldUploadChanged
            &&& report.key == file.shown@
            &&& report.zip_path == Some(entry.zip_path)
        }),
{
}

/// A dry run says of a directory that it is there, that it would be made, or that
/// something is in the way.
pub proof fn law_dry_run_of_a_directory(
    entry: LocalEntryView,
    path: Seq<char>,
    chain: Seq<Probed>,
    i: int,
)
    requires
        0 <= i <= chain.len(),
    ensures
        ({
            let report = directory_dry_run(entry, path, chain, i);
            &&& report.status == DryRunOperationStatus::SkippedUnchanged <==> all_directories(
                chain,
                i,
                chain.len() as int,
            )
            &&& report.status == DryRunOperationStatus::Error <==> parent_chain_problem(
                chain,
                i,
            ) is Some
            &&& report.status == DryRunOperationStatus::SkippedUnchanged || report.status
                == DryRunOperationStatus::WouldUploadNew || report.status
                == DryRunOperationStatus::Error
            &&& report.zip_path == Some(entry.zip_path)
        }),
    decreases chain.len() - i,
{
    if i < chain.len() {
        law_dry_run_of_a_directory(entry, path, chain, i + 1);
        if chain[i].probe is Directory {
            if all_directories(chain, i + 1, chain.len() as int) {
                assert(all_directories(chain, i, chain.len() as int));
            }
            if all_directories(chain, i, chain.len() as int) {
                assert(all_directories(chain, i + 1, chain.len() as int));
            }
        } else {
            assert(!all_directories(chain, i, chain.len() as int)) by {
                assert(!(chain[i].probe is Directory));
            }
        }
    }
}

/// A name is unsafe where it holds a character that some platform does not take, or
/// ends in a space or a dot.
pub proof fn law_characters_that_are_unsafe(name: Seq<char>, i: int)
    requires
        0 <= i < name.len(),
    ensures
        name[i] == '<' || name[i] == '>' || name[i] == ':' || name[i] == '"' || name[i] == '|'
            || name[i] == '?' || name[i] == '*' ==> is_unsafe_component(name),
        name[i] <= '\u{1f}' || '\u{7f}' <= name[i] <= '\u{9f}' ==> is_unsafe_component(name),
        name.last() == ' ' || name.last() == '.' ==> is_unsafe_component(name),
{
}

/// Whether text is a word, letter case aside.
pub open spec fn spells(text: Seq<char>, word: Seq<char>) -> bool {
    &&& text.len() == word.len()
    &&& forall|i: int|
        #![trigger text[i]]
        0 <= i < text.len() ==> text[i] == word[i] || ('A' <= word[i] <= 'Z' && text[i] as u32
            == word[i] as u32 + 32)
}

proof fn lemma_spelled_upper(text: Seq<char>, word: Seq<char>)
    requires
        spells(text, word),
        forall|i: int| 0 <= i < word.len() ==> !('a' <= (#[trigger] word[i]) <= 'z'),
    ensures
        ascii_upper_seq(text) == word,
{
    assert forall|i: int| 0 <= i < text.len() implies ascii_upper(text[i]) == word[i] by {
        assert(!('a' <= word[i] <= 'z'));
        assert(text[i] == word[i] || ('A' <= word[i] <= 'Z' && text[i] as u32 == word[i] as u32
            + 32));
    }
    assert(ascii_upper_seq(text) =~= word);
}

/// The names of Windows devices are unsafe, in any letter case, alone or before a dot.
pub proof fn law_device_names_are_unsafe(base: Seq<char>, rest: Seq<char>, digit: char)
    requires
        rest.len() == 0 || rest[0] == '.',
        '1' <= digit <= '9',
        spells(base, "CON"@) || spells(base, "PRN"@) || spells(base, "AUX"@) || spells(
            base,
            "NUL"@,
        ) || spells(base, "CONIN$"@) || spells(base, "CONOUT$"@) || spells(
            base,
            "COM"@.push(digit),
        ) || spells(base, "LPT"@.push(digit)),
    ensures
        is_unsafe_component(base + rest),
{
    reveal_strlit("CON");
    reveal_strlit("PRN");
    reveal_strlit("AUX");
    reveal_strlit("NUL");
    reveal_strlit("CONIN$");
    reveal_strlit("CONOUT$");
    reveal_strlit("COM");
    reveal_strlit("LPT");
    let name = base + rest;
    let word = if spells(base, "CON"@) {
        "CON"@
    } else if spells(base, "PRN"@) {
        "PRN"@
    } else if spells(base, "AUX"@) {
        "AUX"@
    } else if spells(base, "NUL"@) {
        "NUL"@
    } else if spells(base, "CONIN$"@) {
        "CONIN$"@
    } else if spells(base, "CONOUT$"@) {
        "CONOUT$"@
    } else if spells(base, "COM"@.push(digit)) {
        "COM"@.push(digit)
    } else {
        "LPT"@.push(digit)
    };
    lemma_spelled_upper(base, word);
    assert forall|i: int| 0 <= i < base.len() implies base[i] != '.' && base[i] != ' ' by {
        assert(base[i] == word[i] || ('A' <= word[i] <= 'Z' && base[i] as u32 == word[i] as u32
            + 32));
    }
    assert forall|i: int| 0 <= i < base.len() implies name[i] != '.' by {
        assert(name[i] == base[i]);
    }
    if rest.len() > 0 {
        assert(name[base.len() as int] == '.');
    }
    lemma_find_char_is(name, '.', base.len() as int);
    assert(name.take(base.len() as int) =~= base);
    assert(base.last() == base[base.len() - 1]);
    assert(trim_spaces_and_dots(base) == base);
    assert(device_stem(name) == word);
    assert("COM"@.push(digit).take(3) =~= "COM"@);
    assert("LPT"@.push(digit).take(3) =~= "LPT"@);
}

/// Paths are accepted for a local directory exactly where no component of any of them
/// is unsafe.
pub proof fn law_unsafe_components_are_refused(zip_paths: Seq<Seq<char>>, i: int)
    requires
        0 <= i <= zip_paths.len(),
    ensures
        unsafe_path(zip_paths, i) is None <==> forall|k: int|
            i <= k < zip_paths.len() ==> #[trigger] all_safe(path_components(zip_paths[k])),
    decreases zip_paths.len() - i,
{
    if i < zip_paths.len() {
        law_unsafe_components_are_refused(zip_paths, i + 1);
        lemma_all_safe(zip_paths[i], path_components(zip_paths[i]), 0);
        let here = path_components(zip_paths[i]);
        assert(here.skip(0) =~= here);
        if unsafe_path(zip_paths, i) is None {
            assert forall|k: int| i <= k < zip_paths.len() implies #[trigger] all_safe(
                path_components(zip_paths[k]),
            ) by {
                if k > i {
                    assert(unsafe_path(zip_paths, i + 1) is None);
                }
            }
        } else if all_safe(here) {
            assert(unsafe_path(zip_paths, i + 1) is Some);
        }
    }
}

/// Whether no component is unsafe.
pub open spec fn all_safe(components: Seq<Seq<char>>) -> bool {
    forall|i: int| 0 <= i < components.len() ==> !is_unsafe_component(#[trigger] components[i])
}

proof fn lemma_all_safe(zip_path: Seq<char>, components: Seq<Seq<char>>, i: int)
    requires
        0 <= i <= components.len(),
    ensures
        unsafe_component(zip_path, components, i) is None <==> all_safe(components.skip(i)),
    decreases components.len() - i,
{
    let rest = components.skip(i);
    if i < components.len() {
        lemma_all_safe(zip_path, components, i + 1);
        let less = components.skip(i + 1);
        assert(rest[0] == components[i]);
        if all_safe(less) && !is_unsafe_component(components[i]) {
            assert forall|k: int| 0 <= k < rest.len() implies !is_unsafe_component(
                #[trigger] rest[k],
            ) by {
                if k > 0 {
                    assert(rest[k] == less[k - 1]);
                }
            }
        }
        if all_safe(rest) {
            assert forall|k: int| 0 <= k < less.len() implies !is_unsafe_component(
                #[trigger] less[k],
            ) by {
                assert(less[k] == rest[k + 1]);
            }
        }
    }
}

/// What is found in a directory becomes an entry if it is a file, with its path
/// below the source directory, its size and where it lies. A directory is read later,
/// and keeps the one that holds it from being empty, as a file does.
pub proof fn law_found_files_become_entries(walk: WalkView, child: ChildView)
    ensures
        match after_child(walk, child) {
            Ok(after) => {
                &&& after.has_child
                &&& after.current == walk.current
                &&& child.kind == SourceKind::Directory ==> after.entries == walk.entries
                    && after.pending.len() == walk.pending.len() + 1
                    && after.pending.last().directory == child.file
                    && after.pending.last().path == child.path
                &&& child.kind == SourceKind::File ==> after.pending == walk.pending
                    && after.entries.len() == walk.entries.len() + 1 && after.entries.last() == (
                UploadEntryView {
                    zip_path: zip_path_of(walk.source, child.path.parts)->Ok_0,
                    size: child.size,
                    source: UploadSourceView::LocalFile(child.file),
                })
                &&& child.kind == SourceKind::File || child.kind == SourceKind::Directory
            },
            Err(_) => child.kind != SourceKind::Directory,
        },
{
}

/// A directory that was read becomes an entry exactly where nothing was found in it
/// and it is not the source directory: its path with a slash.
pub proof fn law_empty_directories_become_entries(walk: WalkView)
    requires
        walk.current is Some,
        walk.current->Some_0.parts != walk.source,
        zip_path_of(walk.source, walk.current->Some_0.parts) is Ok,
    ensures
        match after_directory(walk) {
            Ok(after) => {
                &&& walk.has_child ==> after.entries == walk.entries
                &&& !walk.has_child ==> after.entries.len() == walk.entries.len() + 1
                    && after.entries.last() == (UploadEntryView {
                    zip_path: zip_path_of(
                        walk.source,
                        walk.current->Some_0.parts,
                    )->Ok_0.push('/'),
                    size: 0,
                    source: UploadSourceView::Directory,
                })
                &&& after.pending == walk.pending
            },
            Err(_) => false,
        },
{
    reveal_strlit("/");
    let path = zip_path_of(walk.source, walk.current->Some_0.parts)->Ok_0;
    assert(path + "/"@ =~= path.push('/'));
}

/// The next directory starts out empty, and is one that was to be read.
pub proof fn law_next_directory_starts_out_empty(walk: WalkView)
    requires
        walk.pending.len() > 0,
    ensures
        !after_next(walk).has_child,
        after_next(walk).current == Some(walk.pending.last().path),
        after_next(walk).pending.push(walk.pending.last()) == walk.pending,
        after_next(walk).entries == walk.entries,
{
    assert(walk.pending.drop_last().push(walk.pending.last()) =~= walk.pending);
}

/// On a file system that does not tell letter cases apart, accepted entries differ in
/// more than that; on any other they differ.
pub proof fn law_accepted_paths_differ_as_the_file_system_tells(
    entries: Seq<(String, bool)>,
    case_insensitive: bool,
    i: int,
    j: int,
)
    requires
        collision_problem(entries, case_insensitive) is None,
        0 <= i < j < entries.len(),
    ensures
        case_insensitive ==> lowercase_text(trim_trailing(entries[i].0@, '/')) != lowercase_text(
            trim_trailing(entries[j].0@, '/'),
        ),
        !case_insensitive ==> trim_trailing(entries[i].0@, '/') != trim_trailing(
            entries[j].0@,
            '/',
        ),
{
    law_accepted_paths_are_distinct(entries, case_insensitive, i, j);
    let keys = collision_keys(entries, case_insensitive);
    assert(keys[i] != keys[j]);
}

proof fn lemma_not_found(keys: Seq<Seq<char>>, key: Seq<char>, n: int)
    requires
        0 <= n <= keys.len(),
        forall|i: int| 0 <= i < n ==> (#[trigger] keys[i]) != key,
    ensures
        find_key(keys, key, n) is None,
    decreases n,
{
    if n > 0 {
        assert(keys[n - 1] != key);
        lemma_not_found(keys, key, n - 1);
    }
}

proof fn lemma_no_same_paths(entries: Seq<(String, bool)>, keys: Seq<Seq<char>>, i: int)
    requires
        0 <= i,
        forall|a: int, b: int|
            0 <= a < b < keys.len() ==> (#[trigger] keys[a]) != (#[trigger] keys[b]),
    ensures
        same_path_problem(entries, keys, i) is None,
    decreases keys.len() - i,
{
    if i < keys.len() {
        assert forall|k: int| 0 <= k < i implies (#[trigger] keys[k]) != keys[i] by {
            assert(keys[k] != keys[i]);
        }
        lemma_not_found(keys, keys[i], i);
        lemma_no_same_paths(entries, keys, i + 1);
    }
}

proof fn lemma_not_under_a_file(
    entries: Seq<(String, bool)>,
    keys: Seq<Seq<char>>,
    k: int,
    p: int,
)
    requires
        entries.len() == keys.len(),
        0 <= k < keys.len(),
        0 <= p,
        no_key_is_under_a_file(entries, keys),
    ensures
        under_file_problem(entries, keys, k, p) is None,
    decreases keys[k].len() - p,
{
    if p < keys[k].len() {
        lemma_not_under_a_file(entries, keys, k, p + 1);
        if keys[k][p] == '/' {
            let above = ancestor_key(keys[k], p);
            lemma_find_key(keys, above, keys.len() as int);
            if let Some(f) = find_key(keys, above, keys.len() as int) {
                assert(keys[f] == ancestor_key(keys[k], p));
                assert(entries[f].1);
            }
        }
    }
}

/// Whether no key leads through the key of a file.
pub open spec fn no_key_is_under_a_file(
    entries: Seq<(String, bool)>,
    keys: Seq<Seq<char>>,
) -> bool {
    forall|f: int, k: int, p: int|
        0 <= f < keys.len() && 0 <= k < keys.len() && 0 <= p < keys[k].len() && keys[k][p] == '/'
            && #[trigger] keys[f] == #[trigger] ancestor_key(keys[k], p) ==> entries[f].1
}

proof fn lemma_none_under_files(entries: Seq<(String, bool)>, keys: Seq<Seq<char>>, k: int)
    requires
        entries.len() == keys.len(),
        0 <= k,
        no_key_is_under_a_file(entries, keys),
    ensures
        under_files_problem(entries, keys, k) is None,
    decreases keys.len() - k,
{
    if k < keys.len() {
        lemma_not_under_a_file(entries, keys, k, 0);
        lemma_none_under_files(entries, keys, k + 1);
    }
}

/// Entries that differ, and of which none leads through a file, are accepted.
pub proof fn law_paths_that_do_not_collide_are_accepted(
    entries: Seq<(String, bool)>,
    keys: Seq<Seq<char>>,
)
    requires
        entries.len() == keys.len(),
        forall|a: int, b: int|
            0 <= a < b < keys.len() ==> (#[trigger] keys[a]) != (#[trigger] keys[b]),
        no_key_is_under_a_file(entries, keys),
    ensures
        keys_problem(entries, keys) is None,
{
    lemma_no_same_paths(entries, keys, 0);
    lemma_none_under_files(entries, keys, 0);
}

/// Names are looked at in the destination where it is there, and else in the nearest
/// directory above it.
pub proof fn law_names_are_looked_at_in_the_nearest_directory(
    destination: Probed,
    above: Seq<Probed>,
)
    requires
        above.len() <= usize::MAX,
    ensures
        match probe_root(destination, above) {
            Ok(CaseProbeRoot::Destination) => destination.probe is Directory,
            Ok(CaseProbeRoot::Above(at)) => destination.probe is NotFound && at < above.len()
                && above[at as int].probe is Directory && forall|k: int|
                0 <= k < at ==> (#[trigger] above[k]).probe is NotFound,
            Ok(CaseProbeRoot::Current) => destination.probe is NotFound && forall|k: int|
                0 <= k < above.len() ==> (#[trigger] above[k]).probe is NotFound,
            Err(_) => !(destination.probe is Directory),
        },
{
    lemma_probe_root_above(above, 0);
}

proof fn lemma_probe_root_above(above: Seq<Probed>, i: int)
    requires
        0 <= i <= above.len() <= usize::MAX,
    ensures
        match probe_root_above(above, i) {
            Ok(CaseProbeRoot::Destination) => false,
            Ok(CaseProbeRoot::Above(at)) => i <= at < above.len() && above[at as int].probe
                is Directory && forall|k: int|
                i <= k < at ==> (#[trigger] above[k]).probe is NotFound,
            Ok(CaseProbeRoot::Current) => forall|k: int|
                i <= k < above.len() ==> (#[trigger] above[k]).probe is NotFound,
            Err(_) => true,
        },
    decreases above.len() - i,
{
    if i < above.len() {
        lemma_probe_root_above(above, i + 1);
    }
}

/// The other name that shows whether letter case matters differs in every letter, and
/// in nothing else.
pub proof fn law_alternate_names_differ_in_letter_case(name: Seq<char>, i: int)
    requires
        0 <= i < name.len(),
    ensures
        swapped_case(name).len() == name.len(),
        'a' <= name[i] <= 'z' ==> swapped_case(name)[i] as u32 + 32 == name[i] as u32,
        'A' <= name[i] <= 'Z' ==> swapped_case(name)[i] as u32 == name[i] as u32 + 32,
        !('a' <= name[i] <= 'z') && !('A' <= name[i] <= 'Z') ==> swapped_case(name)[i] == name[i],
        has_ascii_letter(name) ==> swapped_case(name) != name,
{
    if has_ascii_letter(name) {
        let k = choose|k: int|
            0 <= k < name.len() && (('a' <= (#[trigger] name[k]) <= 'z') || ('A' <= name[k]
                <= 'Z'));
        assert(swapped_case(name)[k] != name[k]);
    }
}

/// A directory that folds letter case says so itself. Of file systems, ext4 and F2FS tell
/// cases apart, and FAT, exFAT, NTFS and SMB do not.
pub proof fn law_file_systems_tell_letter_case(kind: i64)
    ensures
        linux_case(true, Some(kind)) == Some(true),
        linux_case(true, None) == Some(true),
        linux_case(false, None) is None,
        kind == 0xef53 || kind == 0xf2f5_2010 ==> linux_case(false, Some(kind)) == Some(false),
        kind == 0x4d44 || kind == 0x2011_bab0 || kind == 0x5346_544e || kind == 0x517b || kind
            == 0xff53_4d42 ==> linux_case(false, Some(kind)) == Some(true),
{
}

/// A walk starts with the source directory to be read, and nothing collected.
pub proof fn law_walks_start_at_the_source(
    source: LocalPathView,
    root: PathBuf,
    max_file_size: Option<u64>,
)
    ensures
        ({
            let walk = fresh_walk(source, root, max_file_size);
            &&& walk.pending.len() == 1
            &&& walk.pending[0].path == source
            &&& walk.pending[0].directory == root
            &&& walk.source == source.parts
            &&& walk.max_file_size == max_file_size
            &&& walk.entries.len() == 0
            &&& walk.current is None
        }),
{
}

} // verus!

//! The course of looking through a directory that is zipped.
//!
//! Directories are handed out one after the other. The caller reads each of
//! them and hands back what it holds, child by child.
use std::path::PathBuf;

use vstd::prelude::*;
use vstd::string::*;

use crate::error::{ErrorView, Result};
use crate::local_path::{part_views, zip_path_of, LocalPath, PartView, PathPart};
use crate::upload_entries::{
    empty_directory_entry, finish_upload_entries, found_zip_path, lemma_views_of_permutation,
    local_upload_entry, sorted_by_zip_path, upload_views, SourceKind, UploadEntry, UploadEntryView,
    UploadSourceView,
};

verus! {

pub struct LocalPathView {
    pub shown: Seq<char>,
    pub parts: Seq<PartView>,
}

pub open spec fn path_view(path: LocalPath) -> LocalPathView {
    LocalPathView { shown: path.shown@, parts: part_views(path.parts@) }
}

/// A directory that was found.
pub struct DirectoryView {
    pub path: LocalPathView,
    pub directory: PathBuf,
}

/// Something found in the directory that is being read.
pub struct ChildView {
    pub path: LocalPathView,
    pub kind: SourceKind,
    pub size: u64,
    pub file: PathBuf,
}

/// How far a directory was looked through.
pub struct WalkView {
    pub source: Seq<PartView>,
    pub max_file_size: Option<u64>,
    /// The directories still to be read, the next one last.
    pub pending: Seq<DirectoryView>,
    /// The directory that is being read.
    pub current: Option<LocalPathView>,
    /// Whether something was found in it.
    pub has_child: bool,
    pub entries: Seq<UploadEntryView>,
}

pub open spec fn refused_path(path: LocalPathView, reason: Seq<char>) -> ErrorView {
    ErrorView::InvalidLocalPath { path: path.shown, reason }
}

/// The entry of something that was found, or why it cannot be zipped.
/// A directory has none.
pub open spec fn child_entry(walk: WalkView, child: ChildView) -> core::result::Result<
    Option<UploadEntryView>,
    ErrorView,
> {
    match found_zip_path(
        walk.source,
        child.path.parts,
        child.kind,
        child.size,
        walk.max_file_size,
    ) {
        Err(reason) => Err(refused_path(child.path, reason)),
        Ok(None) => Ok(None),
        Ok(Some(zip_path)) => Ok(
            Some(
                UploadEntryView {
                    zip_path,
                    size: child.size,
                    source: UploadSourceView::LocalFile(child.file),
                },
            ),
        ),
    }
}

/// The entry of the directory that was read, or why it cannot be zipped. One
/// that holds something has none, nor has the source directory.
pub open spec fn directory_entry(walk: WalkView) -> core::result::Result<
    Option<UploadEntryView>,
    ErrorView,
> {
    match walk.current {
        None => Ok(None),
        Some(path) => if walk.has_child || path.parts == walk.source {
            Ok(None)
        } else {
            match zip_path_of(walk.source, path.parts) {
                Err(reason) => Err(refused_path(path, reason)),
                Ok(zip_path) => Ok(
                    Some(
                        UploadEntryView {
                            zip_path: zip_path + "/"@,
                            size: 0,
                            source: UploadSourceView::Directory,
                        },
                    ),
                ),
            }
        },
    }
}

pub open spec fn with_entry(
    entries: Seq<UploadEntryView>,
    entry: Option<UploadEntryView>,
) -> Seq<UploadEntryView> {
    match entry {
        Some(entry) => entries.push(entry),
        None => entries,
    }
}

/// The walk after the next directory was handed out, if there is one.
pub open spec fn after_next(walk: WalkView) -> WalkView {
    if walk.pending.len() == 0 {
        walk
    } else {
        WalkView {
            pending: walk.pending.drop_last(),
            current: Some(walk.pending.last().path),
            has_child: false,
            ..walk
        }
    }
}

/// The walk after something was found: directories are to be read, and files
/// become entries.
pub open spec fn after_child(walk: WalkView, child: ChildView) -> core::result::Result<
    WalkView,
    ErrorView,
> {
    match child_entry(walk, child) {
        Err(error) => Err(error),
        Ok(entry) => Ok(
            WalkView {
                has_child: true,
                pending: if child.kind == SourceKind::Directory {
                    walk.pending.push(DirectoryView { path: child.path, directory: child.file })
                } else {
                    walk.pending
                },
                entries: with_entry(walk.entries, entry),
                ..walk
            },
        ),
    }
}

/// The walk after a directory was read.
pub open spec fn after_directory(walk: WalkView) -> core::result::Result<WalkView, ErrorView> {
    match directory_entry(walk) {
        Err(error) => Err(error),
        Ok(entry) => Ok(
            WalkView { current: None, entries: with_entry(walk.entries, entry), ..walk },
        ),
    }
}

/// The walk of a source directory before anything was read.
pub open spec fn fresh_walk(
    source: LocalPathView,
    root: PathBuf,
    max_file_size: Option<u64>,
) -> WalkView {
    WalkView {
        source: source.parts,
        max_file_size,
        pending: seq![DirectoryView { path: source, directory: root }],
        current: None,
        has_child: false,
        entries: Seq::empty(),
    }
}

/// A directory that was found.
#[derive(Debug)]
struct FoundDirectory {
    path: LocalPath,
    directory: PathBuf,
}

impl View for FoundDirectory {
    type V = DirectoryView;

    closed spec fn view(&self) -> DirectoryView {
        DirectoryView { path: path_view(self.path), directory: self.directory }
    }
}

spec fn found_views(found: Seq<FoundDirectory>) -> Seq<DirectoryView> {
    found.map_values(|directory: FoundDirectory| directory@)
}

fn copy_part(part: &PathPart) -> (copy: PathPart)
    ensures
        copy@ == part@,
{
    match part {
        PathPart::Prefix(prefix) => PathPart::Prefix(prefix.clone()),
        PathPart::Root => PathPart::Root,
        PathPart::Current => PathPart::Current,
        PathPart::Parent => PathPart::Parent,
        PathPart::Name(name) => PathPart::Name(name.clone()),
        PathPart::Foreign(bytes) => {
            let copy = bytes.clone();
            assert(copy@ =~= bytes@);
            PathPart::Foreign(copy)
        },
    }
}

fn copy_path(path: &LocalPath) -> (copy: LocalPath)
    ensures
        path_view(copy) == path_view(*path),
{
    let mut parts: Vec<PathPart> = Vec::new();
    let mut i: usize = 0;
    while i < path.parts.len()
        invariant
            i <= path.parts.len(),
            part_views(parts@) == part_views(path.parts@).take(i as int),
        decreases path.parts.len() - i,
    {
        let ghost before = part_views(parts@);
        let part = copy_part(&path.parts[i]);
        parts.push(part);
        i += 1;
        assert(part_views(parts@) =~= before.push(part@));
        assert(part_views(parts@) =~= part_views(path.parts@).take(i as int));
    }
    assert(part_views(parts@) =~= part_views(path.parts@));
    LocalPath { shown: path.shown.clone(), parts }
}

/// The entries collected from a directory that is looked through.
pub struct DirectoryCollection {
    source: LocalPath,
    max_file_size: Option<u64>,
    pending: Vec<FoundDirectory>,
    current: Option<LocalPath>,
    has_child: bool,
    entries: Vec<UploadEntry>,
}

impl View for DirectoryCollection {
    type V = WalkView;

    closed spec fn view(&self) -> WalkView {
        WalkView {
            source: part_views(self.source.parts@),
            max_file_size: self.max_file_size,
            pending: found_views(self.pending@),
            current: match self.current {
                Some(path) => Some(path_view(path)),
                None => None,
            },
            has_child: self.has_child,
            entries: upload_views(self.entries@),
        }
    }
}

impl DirectoryCollection {
    /// Starts with the source directory, which is the first to be read.
    pub fn new(source: LocalPath, root: PathBuf, max_file_size: Option<u64>) -> (collection:
        DirectoryCollection)
        ensures
            collection@ == fresh_walk(path_view(source), root, max_file_size),
    {
        let mut pending: Vec<FoundDirectory> = Vec::new();
        pending.push(FoundDirectory { path: copy_path(&source), directory: root });
        let collection = DirectoryCollection {
            source,
            max_file_size,
            pending,
            current: None,
            has_child: false,
            entries: Vec::new(),
        };
        proof {
            let fresh = fresh_walk(path_view(source), root, max_file_size);
            assert(collection@.pending =~= fresh.pending);
            assert(collection@.entries =~= fresh.entries);
        }
        collection
    }

    /// The next directory to read: the one that was found last.
    pub fn next_directory(&mut self) -> (next: Option<PathBuf>)
        ensures
            final(self)@ == after_next(old(self)@),
            next is Some <==> old(self)@.pending.len() > 0,
            next is Some ==> next->Some_0 == old(self)@.pending.last().directory,
    {
        let ghost before = found_views(self.pending@);
        match self.pending.pop() {
            Some(found) => {
                assert(found_views(self.pending@) =~= before.drop_last());
                self.current = Some(found.path);
                self.has_child = false;
                Some(found.directory)
            },
            None => None,
        }
    }

    /// Takes in something found in the directory that is being read. What was
    /// collected is of no use once something cannot be zipped.
    pub fn add_child(
        &mut self,
        path: LocalPath,
        kind: SourceKind,
        size: u64,
        file: PathBuf,
    ) -> (result: Result<()>)
        ensures
            match after_child(
                old(self)@,
                (ChildView { path: path_view(path), kind, size, file }),
            ) {
                Ok(after) => result is Ok && final(self)@ == after,
                Err(error) => {
                    &&& result is Err
                    &&& result->Err_0@ == error
                    &&& final(self)@ == (WalkView { has_child: true, ..old(self)@ })
                },
            },
    {
        self.has_child = true;
        if kind == SourceKind::Directory {
            let ghost before = found_views(self.pending@);
            let found = FoundDirectory { path, directory: file };
            self.pending.push(found);
            assert(found_views(self.pending@) =~= before.push(found@));
            return Ok(());
        }
        let ghost before = upload_views(self.entries@);
        match local_upload_entry(&self.source, &path, kind, size, self.max_file_size, file) {
            Err(error) => Err(error),
            Ok(None) => Ok(()),
            Ok(Some(entry)) => {
                self.entries.push(entry);
                assert(upload_views(self.entries@) =~= before.push(entry@));
                Ok(())
            },
        }
    }

    /// Takes note that the directory that was handed out last is read. An
    /// empty one becomes an entry.
    pub fn finish_directory(&mut self) -> (result: Result<()>)
        ensures
            match after_directory(old(self)@) {
                Ok(after) => result is Ok && final(self)@ == after,
                Err(error) => {
                    &&& result is Err
                    &&& result->Err_0@ == error
                    &&& final(self)@ == (WalkView { current: None, ..old(self)@ })
                },
            },
    {
        let directory = match self.current.take() {
            Some(directory) => directory,
            None => return Ok(()),
        };
        let ghost before = upload_views(self.entries@);
        match empty_directory_entry(&self.source, &directory, self.has_child) {
            Err(error) => Err(error),
            Ok(None) => Ok(()),
            Ok(Some(entry)) => {
                self.entries.push(entry);
                assert(upload_views(self.entries@) =~= before.push(entry@));
                Ok(())
            },
        }
    }

    /// The entries in the order in which they are written: by ZIP path.
    pub fn finish(self) -> (sorted: Vec<UploadEntry>)
        ensures
            sorted_by_zip_path(sorted@),
            upload_views(sorted@).to_multiset() == self@.entries.to_multiset(),
    {
        let ghost before = self.entries@;
        let sorted = finish_upload_entries(self.entries);
        proof {
            lemma_views_of_permutation(before, sorted@);
        }
        sorted
    }
}

/// One step of a walk.
pub enum WalkStep {
    /// The next directory is handed out.
    Next,
    /// Something is found in the directory that is being read.
    Child(ChildView),
    /// The directory is read.
    Finish,
}

pub open spec fn walk_step(walk: WalkView, step: WalkStep) -> core::result::Result<
    WalkView,
    ErrorView,
> {
    match step {
        WalkStep::Next => Ok(after_next(walk)),
        WalkStep::Child(child) => after_child(walk, child),
        WalkStep::Finish => after_directory(walk),
    }
}

/// The walk after the first `n` steps, or the first error.
pub open spec fn walked(start: WalkView, steps: Seq<WalkStep>, n: int) -> core::result::Result<
    WalkView,
    ErrorView,
>
    decreases n,
{
    if n <= 0 {
        Ok(start)
    } else {
        match walked(start, steps, n - 1) {
            Err(error) => Err(error),
            Ok(walk) => walk_step(walk, steps[n - 1]),
        }
    }
}

/// The directories found in the first `n` steps, with those known at the start.
pub open spec fn directories_found(start: WalkView, steps: Seq<WalkStep>, n: int) -> Seq<
    DirectoryView,
>
    decreases n,
{
    if n <= 0 {
        start.pending
    } else {
        let before = directories_found(start, steps, n - 1);
        match steps[n - 1] {
            WalkStep::Child(child) => if child.kind == SourceKind::Directory {
                before.push(DirectoryView { path: child.path, directory: child.file })
            } else {
                before
            },
            _ => before,
        }
    }
}

/// The directories handed out in the first `n` steps.
pub open spec fn directories_handed_out(start: WalkView, steps: Seq<WalkStep>, n: int) -> Seq<
    DirectoryView,
>
    decreases n,
{
    if n <= 0 {
        Seq::empty()
    } else {
        let before = directories_handed_out(start, steps, n - 1);
        match (steps[n - 1], walked(start, steps, n - 1)) {
            (WalkStep::Next, Ok(walk)) => if walk.pending.len() > 0 {
                before.push(walk.pending.last())
            } else {
                before
            },
            _ => before,
        }
    }
}

/// Every directory that is found is handed out exactly once: those handed out
/// and those still to be read are together those that were found, and once
/// none is left all of them were handed out.
pub proof fn law_every_directory_is_handed_out_once(
    start: WalkView,
    steps: Seq<WalkStep>,
    n: int,
)
    requires
        0 <= n <= steps.len(),
        walked(start, steps, n) is Ok,
    ensures
        directories_handed_out(start, steps, n).to_multiset().add(
            walked(start, steps, n)->Ok_0.pending.to_multiset(),
        ) == directories_found(start, steps, n).to_multiset(),
        walked(start, steps, n)->Ok_0.pending.len() == 0 ==> directories_handed_out(
            start,
            steps,
            n,
        ).to_multiset() == directories_found(start, steps, n).to_multiset(),
    decreases n,
{
    broadcast use vstd::seq_lib::group_to_multiset_ensures;

    let handed = directories_handed_out(start, steps, n);
    let found = directories_found(start, steps, n);
    let pending = walked(start, steps, n)->Ok_0.pending;
    if n > 0 {
        law_every_directory_is_handed_out_once(start, steps, n - 1);
        let walk = walked(start, steps, n - 1)->Ok_0;
        let before = directories_handed_out(start, steps, n - 1);
        match steps[n - 1] {
            WalkStep::Next => {
                if walk.pending.len() > 0 {
                    let last = walk.pending.last();
                    assert(walk.pending =~= pending.push(last));
                    assert(handed.to_multiset() =~= before.to_multiset().insert(last));
                    assert(walk.pending.to_multiset() =~= pending.to_multiset().insert(last));
                }
            },
            _ => {},
        }
    }
    assert(handed.to_multiset().add(pending.to_multiset()) =~= found.to_multiset());
    if pending.len() == 0 {
        assert(pending.to_multiset().len() == 0);
        assert(handed.to_multiset() =~= found.to_multiset());
    }
}

/// The entry that a step gives.
pub open spec fn step_entry(walk: WalkView, step: WalkStep) -> Option<UploadEntryView> {
    match step {
        WalkStep::Next => None,
        WalkStep::Child(child) => match child_entry(walk, child) {
            Ok(entry) => entry,
            Err(_) => None,
        },
        WalkStep::Finish => match directory_entry(walk) {
            Ok(entry) => entry,
            Err(_) => None,
        },
    }
}

/// Whether the step `i` gives an entry.
pub open spec fn gives_entry(
    start: WalkView,
    steps: Seq<WalkStep>,
    i: int,
    entry: UploadEntryView,
) -> bool {
    match walked(start, steps, i) {
        Ok(walk) => step_entry(walk, steps[i]) == Some(entry),
        Err(_) => false,
    }
}

/// The entries that the first `n` steps give, in their order.
pub open spec fn entries_given(start: WalkView, steps: Seq<WalkStep>, n: int) -> Seq<
    UploadEntryView,
>
    decreases n,
{
    if n <= 0 {
        Seq::empty()
    } else {
        match walked(start, steps, n - 1) {
            Ok(walk) => with_entry(
                entries_given(start, steps, n - 1),
                step_entry(walk, steps[n - 1]),
            ),
            Err(_) => entries_given(start, steps, n - 1),
        }
    }
}

proof fn lemma_with_entry(
    entries: Seq<UploadEntryView>,
    added: Option<UploadEntryView>,
    entry: UploadEntryView,
)
    ensures
        with_entry(entries, added).contains(entry) <==> entries.contains(entry) || added == Some(
            entry,
        ),
{
    let after = with_entry(entries, added);
    if added is Some {
        assert(after[entries.len() as int] == added->Some_0);
        if entries.contains(entry) {
            let k = entries.index_of(entry);
            assert(after[k] == entry);
        }
        if after.contains(entry) && entry != added->Some_0 {
            let k = after.index_of(entry);
            assert(entries[k] == entry);
        }
    }
}

/// What is collected is what the steps give, in their order: the entry of a
/// file when it is found, that of a directory when it is read and nothing was
/// found in it, and nothing else.
pub proof fn law_walk_collects_files_and_empty_directories(
    start: WalkView,
    steps: Seq<WalkStep>,
    n: int,
)
    requires
        0 <= n <= steps.len(),
        walked(start, steps, n) is Ok,
        start.entries.len() == 0,
    ensures
        walked(start, steps, n)->Ok_0.entries == entries_given(start, steps, n),
        forall|entry: UploadEntryView| #[trigger]
            entries_given(start, steps, n).contains(entry) <==> exists|i: int|
                0 <= i < n && #[trigger] gives_entry(start, steps, i, entry),
    decreases n,
{
    if n > 0 {
        law_walk_collects_files_and_empty_directories(start, steps, n - 1);
        let walk = walked(start, steps, n - 1)->Ok_0;
        let given = step_entry(walk, steps[n - 1]);
        let before = entries_given(start, steps, n - 1);
        assert(entries_given(start, steps, n) == with_entry(before, given));
        assert forall|entry: UploadEntryView| #[trigger]
            entries_given(start, steps, n).contains(entry) <==> exists|i: int|
                0 <= i < n && #[trigger] gives_entry(start, steps, i, entry) by {
            lemma_with_entry(before, given, entry);
            assert(gives_entry(start, steps, n - 1, entry) == (given == Some(entry)));
            if before.contains(entry) {
                let i = choose|i: int|
                    0 <= i < n - 1 && #[trigger] gives_entry(start, steps, i, entry);
                assert(gives_entry(start, steps, i, entry));
            }
        }
    } else {
        assert(start.entries =~= entries_given(start, steps, n));
    }
}

} // verus!

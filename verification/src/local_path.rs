//! Local paths and the ZIP paths of what lies under a directory.
use vstd::prelude::*;
use vstd::string::*;

use crate::error::{Error, ErrorView, Result};
use crate::text::{cat2, cat3, contains_char, find_char, lemma_find_char_is, str_eq};

verus! {

/// A component of a local path.
#[derive(Debug)]
pub enum PathPart {
    /// A prefix such as a drive.
    Prefix(String),
    Root,
    /// `.`
    Current,
    /// `..`
    Parent,
    Name(String),
    /// A name that is not UTF-8, in the encoding of the platform.
    Foreign(Vec<u8>),
}

pub enum PartView {
    Prefix(Seq<char>),
    Root,
    Current,
    Parent,
    Name(Seq<char>),
    Foreign(Seq<u8>),
}

impl View for PathPart {
    type V = PartView;

    open spec fn view(&self) -> PartView {
        match self {
            PathPart::Prefix(prefix) => PartView::Prefix(prefix@),
            PathPart::Root => PartView::Root,
            PathPart::Current => PartView::Current,
            PathPart::Parent => PartView::Parent,
            PathPart::Name(name) => PartView::Name(name@),
            PathPart::Foreign(bytes) => PartView::Foreign(bytes@),
        }
    }
}

/// A local path: how it is shown, and its components.
#[derive(Debug)]
pub struct LocalPath {
    pub shown: String,
    pub parts: Vec<PathPart>,
}

pub open spec fn part_views(parts: Seq<PathPart>) -> Seq<PartView> {
    parts.map_values(|part: PathPart| part@)
}

pub(crate) fn invalid_local_path(shown: &str, reason: &str) -> (error: Error)
    ensures
        error@ == (ErrorView::InvalidLocalPath { path: shown@, reason: reason@ }),
{
    Error::InvalidLocalPath { path: shown.to_owned(), reason: reason.to_owned() }
}

fn bytes_eq(a: &Vec<u8>, b: &Vec<u8>) -> (same: bool)
    ensures
        same == (a@ == b@),
{
    if a.len() != b.len() {
        return false;
    }
    let mut i: usize = 0;
    while i < a.len()
        invariant
            i <= a.len() == b.len(),
            forall|k: int| 0 <= k < i ==> a@[k] == b@[k],
        decreases a.len() - i,
    {
        if a[i] != b[i] {
            return false;
        }
        i += 1;
    }
    assert(a@ =~= b@);
    true
}

fn part_eq(a: &PathPart, b: &PathPart) -> (same: bool)
    ensures
        same == (a@ == b@),
{
    match (a, b) {
        (PathPart::Prefix(a), PathPart::Prefix(b)) => str_eq(a, b),
        (PathPart::Root, PathPart::Root) => true,
        (PathPart::Current, PathPart::Current) => true,
        (PathPart::Parent, PathPart::Parent) => true,
        (PathPart::Name(a), PathPart::Name(b)) => str_eq(a, b),
        (PathPart::Foreign(a), PathPart::Foreign(b)) => bytes_eq(a, b),
        _ => false,
    }
}

/// Whether a path is `directory` or lies under it.
pub open spec fn is_under(path: Seq<PartView>, directory: Seq<PartView>) -> bool {
    directory.len() <= path.len() && path.take(directory.len() as int) == directory
}

impl LocalPath {
    /// Whether the path is `directory` or lies under it.
    pub fn starts_with(&self, directory: &LocalPath) -> (inside: bool)
        ensures
            inside == is_under(part_views(self.parts@), part_views(directory.parts@)),
    {
        let ghost path = part_views(self.parts@);
        let ghost lead = part_views(directory.parts@);
        if directory.parts.len() > self.parts.len() {
            return false;
        }
        let mut i: usize = 0;
        while i < directory.parts.len()
            invariant
                i <= directory.parts.len() <= self.parts.len(),
                path == part_views(self.parts@),
                lead == part_views(directory.parts@),
                forall|k: int| 0 <= k < i ==> path[k] == lead[k],
            decreases directory.parts.len() - i,
        {
            if !part_eq(&self.parts[i], &directory.parts[i]) {
                assert(path.take(lead.len() as int)[i as int] == path[i as int]);
                return false;
            }
            i += 1;
        }
        assert(path.take(lead.len() as int) =~= lead);
        true
    }
}

/// Checks that the parent of a ZIP file to be written is not in the tree that
/// is zipped. Both paths are canonical.
pub fn reject_destination_inside_source(
    source: &LocalPath,
    destination_parent: &LocalPath,
    destination_shown: &str,
) -> (result: Result<()>)
    ensures
        result is Err <==> is_under(
            part_views(destination_parent.parts@),
            part_views(source.parts@),
        ),
        result is Err ==> result->Err_0@ == (ErrorView::InvalidLocalPath {
            path: destination_shown@,
            reason: "destination ZIP must not be inside source directory "@ + source.shown@,
        }),
{
    if destination_parent.starts_with(source) {
        let reason = cat2(
            "destination ZIP must not be inside source directory ",
            &source.shown,
        );
        return Err(invalid_local_path(destination_shown, &reason));
    }
    Ok(())
}

/// Why a component cannot be part of a ZIP path.
pub open spec fn part_problem(part: PartView) -> Option<Seq<char>> {
    match part {
        PartView::Name(name) => if name.contains('\\') {
            Some("path components cannot contain backslashes"@)
        } else {
            None
        },
        PartView::Foreign(_) => Some("path is not valid UTF-8"@),
        _ => Some("path must be relative and normalized"@),
    }
}

/// Why the components from `i` on cannot be a ZIP path.
pub open spec fn parts_problem(parts: Seq<PartView>, i: int) -> Option<Seq<char>>
    decreases parts.len() - i,
{
    if i >= parts.len() {
        None
    } else {
        match part_problem(parts[i]) {
            Some(reason) => Some(reason),
            None => parts_problem(parts, i + 1),
        }
    }
}

/// The names of the first `n` components, joined by slashes.
pub open spec fn joined_names(parts: Seq<PartView>, n: int) -> Seq<char>
    decreases n,
{
    if n <= 0 {
        Seq::empty()
    } else if n == 1 {
        parts[0]->Name_0
    } else {
        joined_names(parts, n - 1) + "/"@ + parts[n - 1]->Name_0
    }
}

/// The ZIP path of a path under a source directory, or why it has none.
pub open spec fn zip_path_of(source: Seq<PartView>, path: Seq<PartView>) -> core::result::Result<
    Seq<char>,
    Seq<char>,
> {
    if !is_under(path, source) {
        Err("path is outside source directory: prefix not found"@)
    } else {
        let relative = path.skip(source.len() as int);
        match parts_problem(relative, 0) {
            Some(reason) => Err(reason),
            None => if relative.len() == 0 {
                Err("path does not name a file under the source directory"@)
            } else {
                Ok(joined_names(relative, relative.len() as int))
            },
        }
    }
}

/// The ZIP path of a path under a source directory.
pub fn upload_zip_path(source_dir: &LocalPath, path: &LocalPath) -> (result: Result<String>)
    ensures
        match zip_path_of(part_views(source_dir.parts@), part_views(path.parts@)) {
            Ok(zip_path) => result is Ok && result->Ok_0@ == zip_path,
            Err(reason) => result is Err && result->Err_0@ == (ErrorView::InvalidLocalPath {
                path: path.shown@,
                reason,
            }),
        },
{
    let ghost all = part_views(path.parts@);
    let ghost lead = part_views(source_dir.parts@);
    if !path.starts_with(source_dir) {
        return Err(
            invalid_local_path(
                &path.shown,
                "path is outside source directory: prefix not found",
            ),
        );
    }
    let start: usize = source_dir.parts.len();
    let ghost relative = all.skip(start as int);
    let mut i: usize = start;
    let mut zip_path = String::new();
    while i < path.parts.len()
        invariant
            start <= i <= path.parts.len(),
            start == lead.len(),
            lead == part_views(source_dir.parts@),
            all == part_views(path.parts@),
            is_under(all, lead),
            relative == all.skip(start as int),
            parts_problem(relative, 0) == parts_problem(relative, i - start),
            zip_path@ == joined_names(relative, i - start),
        decreases path.parts.len() - i,
    {
        let ghost k = i - start;
        assert(relative[k] == path.parts@[i as int]@);
        match &path.parts[i] {
            PathPart::Name(name) => {
                if contains_char(name, '\\') {
                    return Err(
                        invalid_local_path(
                            &path.shown,
                            "path components cannot contain backslashes",
                        ),
                    );
                }
                if i == start {
                    zip_path = name.clone();
                } else {
                    zip_path = cat3(&zip_path, "/", name);
                }
            },
            PathPart::Foreign(_) => return Err(
                invalid_local_path(&path.shown, "path is not valid UTF-8"),
            ),
            _ => return Err(
                invalid_local_path(&path.shown, "path must be relative and normalized"),
            ),
        }
        i += 1;
    }
    if start == path.parts.len() {
        return Err(
            invalid_local_path(
                &path.shown,
                "path does not name a file under the source directory",
            ),
        );
    }
    Ok(zip_path)
}

/// Whether a path's names are such as a file system has: not empty, and
/// without slashes.
pub open spec fn names_are_plain(parts: Seq<PartView>) -> bool {
    forall|i: int|
        0 <= i < parts.len() && (#[trigger] parts[i]) is Name ==> parts[i]->Name_0.len() > 0
            && !parts[i]->Name_0.contains('/')
}

proof fn lemma_all_names(parts: Seq<PartView>, from: int, i: int)
    requires
        parts_problem(parts, from) is None,
        0 <= from <= i < parts.len(),
    ensures
        parts[i] is Name,
    decreases i - from,
{
    if from < i {
        lemma_all_names(parts, from + 1, i);
    }
}

proof fn lemma_joined_from_front(parts: Seq<PartView>, n: int)
    requires
        2 <= n <= parts.len(),
    ensures
        joined_names(parts, n) == parts[0]->Name_0 + "/"@ + joined_names(parts.skip(1), n - 1),
    decreases n,
{
    let rest = parts.skip(1);
    if n == 2 {
        assert(joined_names(parts, 1) == parts[0]->Name_0);
        assert(joined_names(rest, 1) == rest[0]->Name_0);
        assert(rest[0] == parts[1]);
    } else {
        lemma_joined_from_front(parts, n - 1);
        assert(rest[n - 2] == parts[n - 1]);
        assert(joined_names(parts, n) =~= parts[0]->Name_0 + "/"@ + (joined_names(rest, n - 2)
            + "/"@ + rest[n - 2]->Name_0));
    }
}

pub(crate) proof fn lemma_first_name(parts: Seq<PartView>)
    requires
        parts.len() > 0,
        names_are_plain(parts),
        parts[0] is Name,
    ensures
        ({
            let joined = joined_names(parts, parts.len() as int);
            let slash = find_char(joined, '/');
            &&& slash == parts[0]->Name_0.len()
            &&& joined.take(slash) == parts[0]->Name_0
            &&& parts.len() == 1 ==> slash == joined.len()
            &&& parts.len() > 1 ==> slash < joined.len() && joined.skip(slash + 1)
                == joined_names(parts.skip(1), parts.len() - 1)
        }),
{
    reveal_strlit("/");
    let joined = joined_names(parts, parts.len() as int);
    let name = parts[0]->Name_0;
    if parts.len() > 1 {
        lemma_joined_from_front(parts, parts.len() as int);
        assert(joined[name.len() as int] == '/');
        assert(joined.skip(name.len() as int + 1) =~= joined_names(
            parts.skip(1),
            parts.len() - 1,
        ));
    }
    assert forall|k: int| 0 <= k < name.len() implies joined[k] != '/' by {
        assert(joined[k] == name[k]);
        assert(name.contains(name[k]));
    }
    lemma_find_char_is(joined, '/', name.len() as int);
    assert(joined.take(name.len() as int) =~= name);
}

pub(crate) proof fn lemma_joined_names_are_distinct(first: Seq<PartView>, second: Seq<PartView>)
    requires
        first.len() > 0,
        second.len() > 0,
        names_are_plain(first),
        names_are_plain(second),
        forall|i: int| 0 <= i < first.len() ==> (#[trigger] first[i]) is Name,
        forall|i: int| 0 <= i < second.len() ==> (#[trigger] second[i]) is Name,
        joined_names(first, first.len() as int) == joined_names(second, second.len() as int),
    ensures
        first == second,
    decreases first.len(),
{
    lemma_first_name(first);
    lemma_first_name(second);
    assert(first[0] == second[0]);
    if first.len() > 1 {
        assert(second.len() > 1);
        let a = first.skip(1);
        let b = second.skip(1);
        assert forall|i: int| 0 <= i < a.len() && (#[trigger] a[i]) is Name implies a[i]->Name_0.len()
            > 0 && !a[i]->Name_0.contains('/') by {
            assert(a[i] == first[i + 1]);
        }
        assert forall|i: int| 0 <= i < b.len() && (#[trigger] b[i]) is Name implies b[i]->Name_0.len()
            > 0 && !b[i]->Name_0.contains('/') by {
            assert(b[i] == second[i + 1]);
        }
        lemma_joined_names_are_distinct(a, b);
        assert forall|i: int| 0 <= i < first.len() implies first[i] == second[i] by {
            if i > 0 {
                assert(a[i - 1] == b[i - 1]);
            }
        }
    }
    assert(first =~= second);
}

/// Distinct paths under a source directory have distinct ZIP paths.
pub proof fn law_zip_paths_are_distinct(
    source: Seq<PartView>,
    first: Seq<PartView>,
    second: Seq<PartView>,
)
    requires
        names_are_plain(first),
        names_are_plain(second),
        zip_path_of(source, first) is Ok,
        zip_path_of(source, first) == zip_path_of(source, second),
    ensures
        first == second,
{
    let n = source.len() as int;
    let a = first.skip(n);
    let b = second.skip(n);
    assert forall|i: int| 0 <= i < a.len() implies (#[trigger] a[i]) is Name && a[i]->Name_0.len()
        > 0 && !a[i]->Name_0.contains('/') by {
        lemma_all_names(a, 0, i);
        assert(a[i] == first[i + n]);
    }
    assert forall|i: int| 0 <= i < b.len() implies (#[trigger] b[i]) is Name && b[i]->Name_0.len()
        > 0 && !b[i]->Name_0.contains('/') by {
        lemma_all_names(b, 0, i);
        assert(b[i] == second[i + n]);
    }
    lemma_joined_names_are_distinct(a, b);
    assert(first =~= first.take(n) + a);
    assert(second =~= second.take(n) + b);
}

} // verus!

//! Normalized paths of ZIP entries.
use vstd::prelude::*;
use vstd::string::*;

use crate::error::{Error, ErrorView, Result};
use crate::text::{
    contains_char, ends_with_char, find_from, from_chars, lemma_find_char, skip_trailing, split,
    starts_with_char, to_chars, trim_trailing,
};

verus! {

/// The normalized path of a ZIP entry. A directory's path ends in one slash.
#[derive(Debug)]
pub struct ZipEntryPath {
    pub path: String,
    pub is_directory: bool,
}

/// Whether a component is a Windows drive such as `C:`.
pub open spec fn is_windows_drive(component: Seq<char>) -> bool {
    component.len() == 2 && component[1] == ':' && (('a' <= component[0] <= 'z') || ('A'
        <= component[0] <= 'Z'))
}

/// Why a path component is refused.
pub open spec fn component_problem(component: Seq<char>, first: bool) -> Option<Seq<char>> {
    if component.len() == 0 {
        Some("empty path component"@)
    } else if component == "."@ || component == ".."@ {
        Some("relative path component"@)
    } else if first && is_windows_drive(component) {
        Some("Windows drive prefix"@)
    } else {
        None
    }
}

/// Why the first refused component from `i` on is refused.
pub open spec fn components_problem(parts: Seq<Seq<char>>, i: int) -> Option<Seq<char>>
    decreases parts.len() - i,
{
    if i >= parts.len() {
        None
    } else {
        match component_problem(parts[i], i == 0) {
            Some(reason) => Some(reason),
            None => components_problem(parts, i + 1),
        }
    }
}

/// Why a raw ZIP path is refused.
pub open spec fn path_problem(raw: Seq<char>) -> Option<Seq<char>> {
    if raw.len() == 0 {
        Some("empty path"@)
    } else if raw.contains('\0') {
        Some("NUL byte in path"@)
    } else if raw[0] == '/' || raw[0] == '\\' {
        Some("absolute path"@)
    } else if raw.contains('\\') {
        Some("backslash path separators are not supported"@)
    } else if trim_trailing(raw, '/').len() == 0 {
        Some("root directory entry"@)
    } else {
        components_problem(split(trim_trailing(raw, '/'), '/'), 0)
    }
}

/// Whether a raw ZIP path names a directory.
pub open spec fn names_directory(raw: Seq<char>) -> bool {
    raw.len() > 0 && raw.last() == '/'
}

/// The normalized form of a raw ZIP path that is not refused.
pub open spec fn normalized_path(raw: Seq<char>) -> Seq<char> {
    if names_directory(raw) {
        trim_trailing(raw, '/').push('/')
    } else {
        raw
    }
}

pub(crate) fn invalid_zip_entry(path: &str, reason: &str) -> (error: Error)
    ensures
        error@ == (ErrorView::InvalidZipEntry { path: path@, reason: reason@ }),
{
    Error::InvalidZipEntry { path: path.to_owned(), reason: reason.to_owned() }
}

fn looks_like_windows_drive(component: &Vec<char>, from: usize, to: usize) -> (yes: bool)
    requires
        from <= to <= component.len(),
    ensures
        yes == is_windows_drive(component@.subrange(from as int, to as int)),
{
    to - from == 2 && component[from + 1] == ':' && (('a' <= component[from] && component[from]
        <= 'z') || ('A' <= component[from] && component[from] <= 'Z'))
}

fn find_component_problem(chars: &Vec<char>, from: usize, to: usize, first: bool) -> (reason:
    Option<&'static str>)
    requires
        from <= to <= chars.len(),
    ensures
        match component_problem(chars@.subrange(from as int, to as int), first) {
            Some(text) => reason is Some && reason->Some_0@ == text,
            None => reason is None,
        },
{
    let ghost component = chars@.subrange(from as int, to as int);
    proof {
        reveal_strlit(".");
        reveal_strlit("..");
    }
    if from == to {
        return Some("empty path component");
    }
    let dot: bool = to - from == 1 && chars[from] == '.';
    let dots: bool = to - from == 2 && chars[from] == '.' && chars[from + 1] == '.';
    assert(component[0] == chars@[from as int]);
    assert(to - from == 2 ==> component[1] == chars@[from + 1]);
    if dot {
        assert(component =~= "."@);
    }
    if dots {
        assert(component =~= ".."@);
    }
    if dot || dots {
        return Some("relative path component");
    }
    if first && looks_like_windows_drive(chars, from, to) {
        return Some("Windows drive prefix");
    }
    None
}

fn find_components_problem(chars: &Vec<char>) -> (reason: Option<&'static str>)
    ensures
        match components_problem(split(chars@, '/'), 0) {
            Some(text) => reason is Some && reason->Some_0@ == text,
            None => reason is None,
        },
{
    let ghost parts = split(chars@, '/');
    let mut from: usize = 0;
    let mut index: usize = 0;
    assert(chars@.skip(0) =~= chars@);
    assert(parts.skip(0) =~= parts);
    loop
        invariant
            from <= chars.len(),
            index <= from,
            index < parts.len(),
            parts == split(chars@, '/'),
            split(chars@.skip(from as int), '/') == parts.skip(index as int),
            components_problem(parts, 0) == components_problem(parts, index as int),
        decreases chars.len() - from,
    {
        let ghost rest = chars@.skip(from as int);
        let at: usize = find_from(chars, from, '/');
        proof {
            lemma_find_char(rest, '/');
            assert(parts[index as int] == parts.skip(index as int)[0]);
            assert(chars@.subrange(from as int, at as int) =~= rest.take(at - from));
            assert(rest.take(rest.len() as int) =~= rest);
        }
        if let Some(reason) = find_component_problem(chars, from, at, index == 0) {
            return Some(reason);
        }
        if at == chars.len() {
            assert(parts.skip(index as int).len() == 1);
            assert(components_problem(parts, index + 1) is None);
            return None;
        }
        proof {
            assert(chars@.skip(at + 1) =~= rest.skip(at - from + 1));
            assert(split(rest, '/').skip(1) =~= split(rest.skip(at - from + 1), '/'));
            assert(parts.skip(index + 1) =~= parts.skip(index as int).skip(1));
            lemma_split_nonempty(chars@.skip(at + 1), '/');
        }
        from = at + 1;
        index += 1;
    }
}

proof fn lemma_split_nonempty(s: Seq<char>, c: char)
    ensures
        split(s, c).len() > 0,
{
}

/// Whether a path holds only ordinary components: nothing empty, no `.` and no `..`.
pub open spec fn is_plain_path(path: Seq<char>) -> bool {
    &&& path.len() > 0
    &&& !path.contains('\0')
    &&& !path.contains('\\')
    &&& forall|i: int|
        0 <= i < split(path, '/').len() ==> component_problem(#[trigger] split(path, '/')[i], i == 0)
            is None
}

pub(crate) proof fn lemma_no_component_problem(parts: Seq<Seq<char>>, from: int, i: int)
    requires
        components_problem(parts, from) is None,
        0 <= from <= i < parts.len(),
    ensures
        component_problem(parts[i], i == 0) is None,
    decreases i - from,
{
    if from < i {
        lemma_no_component_problem(parts, from + 1, i);
    }
}

pub(crate) proof fn lemma_plain_has_no_problem(parts: Seq<Seq<char>>, from: int)
    requires
        0 <= from,
        forall|i: int| 0 <= i < parts.len() ==> component_problem(#[trigger] parts[i], i == 0) is None,
    ensures
        components_problem(parts, from) is None,
    decreases parts.len() - from,
{
    if from < parts.len() {
        assert(component_problem(parts[from], from == 0) is None);
        lemma_plain_has_no_problem(parts, from + 1);
    }
}

pub proof fn lemma_trim_trailing(s: Seq<char>, c: char)
    ensures
        trim_trailing(s, c).len() <= s.len(),
        trim_trailing(s, c) == s.take(trim_trailing(s, c).len() as int),
        trim_trailing(s, c).len() > 0 ==> trim_trailing(s, c).last() != c,
    decreases s.len(),
{
    if s.len() > 0 && s.last() == c {
        lemma_trim_trailing(s.drop_last(), c);
        let n = trim_trailing(s, c).len() as int;
        assert(s.drop_last().take(n) =~= s.take(n));
    } else {
        assert(s.take(s.len() as int) =~= s);
    }
}

/// A path that is not refused normalizes to plain components: it cannot name
/// anything outside the directory or prefix that it is joined to.
pub proof fn law_normalized_path_is_plain(raw: Seq<char>)
    requires
        path_problem(raw) is None,
    ensures
        is_plain_path(trim_trailing(raw, '/')),
        normalized_path(raw) == if names_directory(raw) {
            trim_trailing(raw, '/').push('/')
        } else {
            trim_trailing(raw, '/')
        },
{
    let body = trim_trailing(raw, '/');
    lemma_trim_trailing(raw, '/');
    let parts = split(body, '/');
    assert forall|i: int| 0 <= i < parts.len() implies component_problem(
        #[trigger] parts[i],
        i == 0,
    ) is None by {
        lemma_no_component_problem(parts, 0, i);
    }
    if body.contains('\0') {
        let k = choose|k: int| 0 <= k < body.len() && body[k] == '\0';
        assert(raw[k] == '\0');
    }
    if body.contains('\\') {
        let k = choose|k: int| 0 <= k < body.len() && body[k] == '\\';
        assert(raw[k] == '\\');
    }
    if !names_directory(raw) {
        assert(body == raw);
    }
}

/// Normalizing a normalized path changes nothing.
pub proof fn law_normalized_path_is_stable(raw: Seq<char>)
    requires
        path_problem(raw) is None,
    ensures
        path_problem(normalized_path(raw)) is None,
        normalized_path(normalized_path(raw)) == normalized_path(raw),
        names_directory(normalized_path(raw)) == names_directory(raw),
{
    if names_directory(raw) {
        law_normalized_path_is_plain(raw);
        lemma_trim_trailing(raw, '/');
        let body = trim_trailing(raw, '/');
        let path = normalized_path(raw);
        assert(path.drop_last() =~= body);
        assert(trim_trailing(path, '/') == trim_trailing(body, '/'));
        assert(trim_trailing(body, '/') == body);
        assert(body[0] == raw[0]);
        assert forall|c: char| c != '/' implies #[trigger] path.contains(c) == body.contains(c) by {
            if path.contains(c) {
                let k = choose|k: int| 0 <= k < path.len() && path[k] == c;
                assert(body[k] == c);
            }
            if body.contains(c) {
                let k = choose|k: int| 0 <= k < body.len() && body[k] == c;
                assert(path[k] == c);
            }
        }
        lemma_plain_has_no_problem(split(body, '/'), 0);
    }
}

/// Normalizes the path of a ZIP entry.
///
/// Runs of slashes at the end become one slash, which marks a directory.
pub fn normalize_zip_entry_path(raw_path: &str) -> (result: Result<ZipEntryPath>)
    ensures
        match path_problem(raw_path@) {
            Some(reason) => result is Err && result->Err_0@ == (ErrorView::InvalidZipEntry {
                path: raw_path@,
                reason,
            }),
            None => result is Ok && result->Ok_0.path@ == normalized_path(raw_path@)
                && result->Ok_0.is_directory == names_directory(raw_path@),
        },
{
    if raw_path.is_empty() {
        return Err(invalid_zip_entry(raw_path, "empty path"));
    }
    if contains_char(raw_path, '\0') {
        return Err(invalid_zip_entry(raw_path, "NUL byte in path"));
    }
    if starts_with_char(raw_path, '/') || starts_with_char(raw_path, '\\') {
        return Err(invalid_zip_entry(raw_path, "absolute path"));
    }
    if contains_char(raw_path, '\\') {
        return Err(invalid_zip_entry(raw_path, "backslash path separators are not supported"));
    }
    let is_directory: bool = ends_with_char(raw_path, '/');
    let mut chars = to_chars(raw_path);
    let end: usize = skip_trailing(&chars, 0, chars.len(), '/');
    assert(chars@.subrange(0, chars.len() as int) =~= raw_path@);
    assert(chars@.subrange(0, end as int) =~= chars@.take(end as int));
    chars.truncate(end);
    assert(chars@ =~= trim_trailing(raw_path@, '/'));
    if end == 0 {
        return Err(invalid_zip_entry(raw_path, "root directory entry"));
    }
    if let Some(reason) = find_components_problem(&chars) {
        return Err(invalid_zip_entry(raw_path, reason));
    }
    let mut path = from_chars(&chars, 0, end);
    assert(path@ =~= chars@);
    if is_directory {
        path.push('/');
    }
    Ok(ZipEntryPath { path, is_directory })
}

/// Normalizes the path of a ZIP file entry. Directories have none.
pub fn normalize_zip_file_path(raw_path: &str) -> (result: Result<Option<String>>)
    ensures
        match path_problem(raw_path@) {
            Some(reason) => result is Err && result->Err_0@ == (ErrorView::InvalidZipEntry {
                path: raw_path@,
                reason,
            }),
            None => result is Ok && if names_directory(raw_path@) {
                result->Ok_0 is None
            } else {
                result->Ok_0 is Some && result->Ok_0->Some_0@ == raw_path@
            },
        },
{
    match normalize_zip_entry_path(raw_path) {
        Err(error) => Err(error),
        Ok(entry) => if entry.is_directory {
            Ok(None)
        } else {
            Ok(Some(entry.path))
        },
    }
}

} // verus!

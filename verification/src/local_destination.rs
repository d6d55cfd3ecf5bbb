//! Where entries go in a local directory, and what may not be written there.
use vstd::hash_map::StringHashMap;
use vstd::prelude::*;
use vstd::string::*;

use crate::error::{ErrorView, Result};
use crate::text::{
    cat3, find_char, find_from, from_chars, lemma_find_char, skip_leading, skip_trailing, split,
    str_eq, to_chars, trim_leading, trim_trailing,
};
use crate::zip_path::invalid_zip_entry;

verus! {

/// The lowercase form of text.
pub uninterp spec fn lowercase_text(text: Seq<char>) -> Seq<char>;

/// `str::to_lowercase` maps text to lowercase by the Unicode rules, which are
/// not stated here; the result depends on the text alone.
#[verifier::external_body]
fn to_lowercase(text: &str) -> (lower: String)
    ensures
        lower@ == lowercase_text(text@),
{
    text.to_lowercase()
}

/// Whether a character is not allowed in file names on Windows.
pub open spec fn is_reserved_char(c: char) -> bool {
    c == '<' || c == '>' || c == ':' || c == '"' || c == '|' || c == '?' || c == '*'
}

/// Whether a character is a control character.
pub open spec fn is_control_char(c: char) -> bool {
    c <= '\u{1f}' || ('\u{7f}' <= c <= '\u{9f}')
}

/// `c` with an ASCII lowercase letter made uppercase.
pub open spec fn ascii_upper(c: char) -> char {
    if 'a' <= c <= 'z' {
        ((c as u8) - 32) as u8 as char
    } else {
        c
    }
}

pub open spec fn ascii_upper_seq(s: Seq<char>) -> Seq<char> {
    s.map_values(|c: char| ascii_upper(c))
}

/// `s` without trailing spaces and dots.
pub open spec fn trim_spaces_and_dots(s: Seq<char>) -> Seq<char>
    decreases s.len(),
{
    if s.len() > 0 && (s.last() == ' ' || s.last() == '.') {
        trim_spaces_and_dots(s.drop_last())
    } else {
        s
    }
}

/// The part of a component that names a device on Windows, in uppercase: what
/// stands before the first dot.
pub open spec fn device_stem(component: Seq<char>) -> Seq<char> {
    ascii_upper_seq(trim_spaces_and_dots(component.take(find_char(component, '.'))))
}

/// Whether a name is a prefix and one digit from one to nine.
pub open spec fn is_numbered_device(name: Seq<char>, prefix: Seq<char>) -> bool {
    name.len() == prefix.len() + 1 && name.take(prefix.len() as int) == prefix && '1'
        <= name.last() <= '9'
}

/// Whether a name in uppercase is that of a device on Windows.
pub open spec fn is_device_name(name: Seq<char>) -> bool {
    ||| name == "CON"@
    ||| name == "PRN"@
    ||| name == "AUX"@
    ||| name == "NUL"@
    ||| name == "CONIN$"@
    ||| name == "CONOUT$"@
    ||| is_numbered_device(name, "COM"@)
    ||| is_numbered_device(name, "LPT"@)
}

/// Whether a path component is unsafe on some platform.
pub open spec fn is_unsafe_component(component: Seq<char>) -> bool {
    ||| exists|i: int|
        0 <= i < component.len() && (is_reserved_char(#[trigger] component[i]) || is_control_char(
            component[i],
        ))
    ||| component.len() > 0 && (component.last() == ' ' || component.last() == '.')
    ||| is_device_name(device_stem(component))
}

fn to_ascii_upper(c: char) -> (upper: char)
    ensures
        upper == ascii_upper(c),
{
    if 'a' <= c && c <= 'z' {
        (c as u8 - 32) as char
    } else {
        c
    }
}

fn is_numbered_windows_device_name(value: &str, prefix: &str) -> (yes: bool)
    ensures
        yes == is_numbered_device(value@, prefix@),
{
    let name = to_chars(value);
    let lead = to_chars(prefix);
    if name.len() == 0 || name.len() - 1 != lead.len() {
        return false;
    }
    let last: char = name[name.len() - 1];
    let mut i: usize = 0;
    while i < lead.len()
        invariant
            i <= lead.len() < name.len(),
            name@ == value@,
            lead@ == prefix@,
            forall|k: int| 0 <= k < i ==> name@[k] == lead@[k],
        decreases lead.len() - i,
    {
        if name[i] != lead[i] {
            assert(value@.take(prefix@.len() as int)[i as int] == name@[i as int]);
            return false;
        }
        i += 1;
    }
    assert(value@.take(prefix@.len() as int) =~= prefix@);
    '1' <= last && last <= '9'
}

fn stem_of(chars: &Vec<char>) -> (stem: String)
    ensures
        stem@ == device_stem(chars@),
{
    let dot: usize = find_from(chars, 0, '.');
    assert(chars@.skip(0) =~= chars@);
    let ghost head = chars@.take(dot as int);
    let mut end: usize = dot;
    assert(chars@.take(end as int) =~= head);
    while end > 0 && (chars[end - 1] == ' ' || chars[end - 1] == '.')
        invariant
            end <= dot <= chars.len(),
            trim_spaces_and_dots(chars@.take(end as int)) == trim_spaces_and_dots(head),
        decreases end,
    {
        assert(chars@.take(end as int).drop_last() =~= chars@.take(end - 1));
        end -= 1;
    }
    let ghost trimmed = chars@.take(end as int);
    let mut stem = String::new();
    let mut i: usize = 0;
    while i < end
        invariant
            i <= end <= chars.len(),
            trimmed == chars@.take(end as int),
            stem@ == ascii_upper_seq(trimmed).take(i as int),
        decreases end - i,
    {
        let c = to_ascii_upper(chars[i]);
        stem.push(c);
        i += 1;
        assert(stem@ =~= ascii_upper_seq(trimmed).take(i as int));
    }
    assert(stem@ =~= ascii_upper_seq(trimmed));
    stem
}

/// Checks one component of the local path of an entry.
pub fn validate_local_destination_component(zip_path: &str, component: &str) -> (result: Result<()>)
    ensures
        result is Err <==> is_unsafe_component(component@),
        result is Err ==> result->Err_0@ == (ErrorView::InvalidZipEntry {
            path: zip_path@,
            reason: "unsafe local path component `"@ + component@ + "`"@,
        }),
{
    let chars = to_chars(component);
    let mut bad: bool = false;
    let mut i: usize = 0;
    while i < chars.len()
        invariant
            i <= chars.len(),
            chars@ == component@,
            bad == (exists|k: int|
                0 <= k < i && (is_reserved_char(#[trigger] component@[k]) || is_control_char(
                    component@[k],
                ))),
        decreases chars.len() - i,
    {
        let c = chars[i];
        let here: bool = c == '<' || c == '>' || c == ':' || c == '"' || c == '|' || c == '?' || c
            == '*' || c <= '\u{1f}' || ('\u{7f}' <= c && c <= '\u{9f}');
        assert(here == (is_reserved_char(component@[i as int]) || is_control_char(
            component@[i as int],
        )));
        bad = bad || here;
        i += 1;
    }
    let suffix: bool = chars.len() > 0 && (chars[chars.len() - 1] == ' ' || chars[chars.len() - 1]
        == '.');
    let stem = stem_of(&chars);
    let device: bool = str_eq(&stem, "CON") || str_eq(&stem, "PRN") || str_eq(&stem, "AUX")
        || str_eq(&stem, "NUL") || str_eq(&stem, "CONIN$") || str_eq(&stem, "CONOUT$")
        || is_numbered_windows_device_name(&stem, "COM") || is_numbered_windows_device_name(
        &stem,
        "LPT",
    );
    if bad || suffix || device {
        let reason = cat3("unsafe local path component `", component, "`");
        Err(invalid_zip_entry(zip_path, &reason))
    } else {
        Ok(())
    }
}

/// The components of an entry's path. A directory's path ends in slashes.
pub open spec fn path_components(zip_path: Seq<char>) -> Seq<Seq<char>> {
    split(trim_trailing(zip_path, '/'), '/')
}

pub open spec fn string_views(strings: Seq<String>) -> Seq<Seq<char>> {
    strings.map_values(|s: String| s@)
}

/// The components of an entry's path.
pub fn zip_path_components(zip_path: &str) -> (components: Vec<String>)
    ensures
        string_views(components@) == path_components(zip_path@),
{
    let chars = to_chars(zip_path);
    let end: usize = skip_trailing(&chars, 0, chars.len(), '/');
    assert(chars@.subrange(0, chars.len() as int) =~= zip_path@);
    let mut body: Vec<char> = chars;
    body.truncate(end);
    assert(body@ =~= trim_trailing(zip_path@, '/'));
    let ghost parts = split(body@, '/');
    let mut components: Vec<String> = Vec::new();
    let mut from: usize = 0;
    assert(body@.skip(0) =~= body@);
    assert(string_views(components@) + parts =~= parts);
    loop
        invariant
            from <= body.len(),
            parts == split(body@, '/'),
            string_views(components@) + split(body@.skip(from as int), '/') == parts,
            parts == path_components(zip_path@),
        decreases body.len() - from,
    {
        let ghost rest = body@.skip(from as int);
        let ghost before = string_views(components@);
        let at: usize = find_from(&body, from, '/');
        let component = from_chars(&body, from, at);
        proof {
            lemma_find_char(rest, '/');
            assert(body@.subrange(from as int, at as int) =~= rest.take(at - from));
            assert(rest.take(rest.len() as int) =~= rest);
        }
        components.push(component);
        assert(string_views(components@) =~= before.push(rest.take(at - from)));
        if at == body.len() {
            assert(before + seq![rest] =~= string_views(components@));
            return components;
        }
        proof {
            assert(body@.skip(at + 1) =~= rest.skip(at - from + 1));
            assert(before + (seq![rest.take(at - from)] + split(rest.skip(at - from + 1), '/'))
                =~= before.push(rest.take(at - from)) + split(rest.skip(at - from + 1), '/'));
        }
        from = at + 1;
    }
}

/// Those of the first `n` components that are not empty.
pub open spec fn nonempty_components(components: Seq<Seq<char>>, n: int) -> Seq<Seq<char>>
    decreases n,
{
    if n <= 0 {
        Seq::empty()
    } else if components[n - 1].len() == 0 {
        nonempty_components(components, n - 1)
    } else {
        nonempty_components(components, n - 1).push(components[n - 1])
    }
}

/// The names that lead from a destination directory to the local path of an entry.
pub open spec fn local_names(zip_path: Seq<char>) -> Seq<Seq<char>> {
    let components = path_components(zip_path);
    nonempty_components(components, components.len() as int)
}

/// The names that lead from a destination directory to the local path of an entry.
pub fn local_path_names(zip_path: &str) -> (names: Vec<String>)
    ensures
        string_views(names@) == local_names(zip_path@),
{
    let components = zip_path_components(zip_path);
    let ghost parts = string_views(components@);
    let mut names: Vec<String> = Vec::new();
    let mut i: usize = 0;
    assert(string_views(names@) =~= Seq::empty());
    while i < components.len()
        invariant
            i <= components.len(),
            parts == string_views(components@),
            string_views(names@) == nonempty_components(parts, i as int),
        decreases components.len() - i,
    {
        let ghost before = string_views(names@);
        assert(parts[i as int] == components@[i as int]@);
        if !components[i].as_str().is_empty() {
            names.push(components[i].clone());
            assert(string_views(names@) =~= before.push(parts[i as int]));
        }
        i += 1;
    }
    names
}

/// The names of the directories, outermost first, that have to be there for an
/// entry. A directory is the last of them itself.
pub open spec fn directory_names(zip_path: Seq<char>, is_directory: bool) -> Seq<Seq<char>> {
    let names = local_names(zip_path);
    if is_directory || names.len() == 0 {
        names
    } else {
        names.drop_last()
    }
}

/// The names of the directories, outermost first, that have to be there for an
/// entry.
pub fn entry_directory_names(zip_path: &str, is_directory: bool) -> (names: Vec<String>)
    ensures
        string_views(names@) == directory_names(zip_path@, is_directory),
{
    let mut names = local_path_names(zip_path);
    let ghost all = string_views(names@);
    if !is_directory {
        names.pop();
        assert(all.len() > 0 ==> string_views(names@) =~= all.drop_last());
        assert(all.len() == 0 ==> string_views(names@) =~= all);
    }
    names
}

/// Why the first unsafe one of some components from `i` on is refused.
pub open spec fn unsafe_component(
    zip_path: Seq<char>,
    components: Seq<Seq<char>>,
    i: int,
) -> Option<ErrorView>
    decreases components.len() - i,
{
    if i >= components.len() {
        None
    } else if is_unsafe_component(components[i]) {
        Some(
            ErrorView::InvalidZipEntry {
                path: zip_path,
                reason: "unsafe local path component `"@ + components[i] + "`"@,
            },
        )
    } else {
        unsafe_component(zip_path, components, i + 1)
    }
}

/// Why the first unsafe path from `i` on is refused.
pub open spec fn unsafe_path(zip_paths: Seq<Seq<char>>, i: int) -> Option<ErrorView>
    decreases zip_paths.len() - i,
{
    if i >= zip_paths.len() {
        None
    } else {
        match unsafe_component(zip_paths[i], path_components(zip_paths[i]), 0) {
            Some(error) => Some(error),
            None => unsafe_path(zip_paths, i + 1),
        }
    }
}

/// Checks the components of the local paths of entries.
pub fn validate_local_destination_zip_paths(zip_paths: &Vec<String>) -> (result: Result<()>)
    ensures
        match unsafe_path(string_views(zip_paths@), 0) {
            Some(error) => result is Err && result->Err_0@ == error,
            None => result is Ok,
        },
{
    let ghost views = string_views(zip_paths@);
    let mut i: usize = 0;
    while i < zip_paths.len()
        invariant
            i <= zip_paths.len(),
            views == string_views(zip_paths@),
            unsafe_path(views, 0) == unsafe_path(views, i as int),
        decreases zip_paths.len() - i,
    {
        let zip_path = &zip_paths[i];
        assert(views[i as int] == zip_path@);
        let components = zip_path_components(zip_path);
        let ghost parts = string_views(components@);
        let mut k: usize = 0;
        while k < components.len()
            invariant
                k <= components.len(),
                i < zip_paths.len(),
                parts == string_views(components@),
                views[i as int] == zip_path@,
                parts == path_components(zip_path@),
                views == string_views(zip_paths@),
                unsafe_component(zip_path@, parts, 0) == unsafe_component(
                    zip_path@,
                    parts,
                    k as int,
                ),
                unsafe_path(views, 0) == unsafe_path(views, i as int),
            decreases components.len() - k,
        {
            assert(parts[k as int] == components@[k as int]@);
            if let Err(error) = validate_local_destination_component(zip_path, &components[k]) {
                return Err(error);
            }
            k += 1;
        }
        i += 1;
    }
    Ok(())
}

/// What local paths are compared by.
pub open spec fn collision_key(path: Seq<char>, case_insensitive: bool) -> Seq<char> {
    if case_insensitive {
        lowercase_text(path)
    } else {
        path
    }
}

fn normalize_local_collision_key(path: &str, case_insensitive: bool) -> (key: String)
    ensures
        key@ == collision_key(path@, case_insensitive),
{
    if case_insensitive {
        to_lowercase(path)
    } else {
        path.to_owned()
    }
}

/// What the local paths of entries are compared by.
pub open spec fn collision_keys(entries: Seq<(String, bool)>, case_insensitive: bool) -> Seq<
    Seq<char>,
> {
    Seq::new(
        entries.len(),
        |i: int| collision_key(trim_trailing(entries[i].0@, '/'), case_insensitive),
    )
}

/// The last one of the first `n` keys that is equal to `key`.
pub open spec fn find_key(keys: Seq<Seq<char>>, key: Seq<char>, n: int) -> Option<int>
    decreases n,
{
    if n <= 0 {
        None
    } else if keys[n - 1] == key {
        Some(n - 1)
    } else {
        find_key(keys, key, n - 1)
    }
}

/// The error of the first entry from `i` on that has the path of an earlier one.
pub open spec fn same_path_problem(
    entries: Seq<(String, bool)>,
    keys: Seq<Seq<char>>,
    i: int,
) -> Option<ErrorView>
    decreases keys.len() - i,
{
    if i >= keys.len() {
        None
    } else {
        match find_key(keys, keys[i], i) {
            Some(j) => Some(
                ErrorView::InvalidZipEntry {
                    path: entries[i].0@,
                    reason: "maps to the same local destination path as ZIP entry `"@
                        + entries[j].0@ + "`"@,
                },
            ),
            None => same_path_problem(entries, keys, i + 1),
        }
    }
}

/// The directory that the slash at `p` of a key ends.
pub open spec fn ancestor_key(key: Seq<char>, p: int) -> Seq<char> {
    trim_leading(key.take(p), '/')
}

/// The error of entry `k` if one of its directories from position `p` of its
/// path on is a file.
pub open spec fn under_file_problem(
    entries: Seq<(String, bool)>,
    keys: Seq<Seq<char>>,
    k: int,
    p: int,
) -> Option<ErrorView>
    decreases keys[k].len() - p,
{
    let key = keys[k];
    if p >= key.len() {
        None
    } else if key[p] != '/' {
        under_file_problem(entries, keys, k, p + 1)
    } else {
        match find_key(keys, ancestor_key(key, p), keys.len() as int) {
            Some(f) => if !entries[f].1 {
                Some(
                    ErrorView::InvalidZipEntry {
                        path: entries[k].0@,
                        reason:
                            "maps under the same local destination path as file ZIP entry `"@
                            + entries[f].0@ + "`"@,
                    },
                )
            } else {
                under_file_problem(entries, keys, k, p + 1)
            },
            None => under_file_problem(entries, keys, k, p + 1),
        }
    }
}

/// The error of the first entry from `k` on that lies under a file.
pub open spec fn under_files_problem(
    entries: Seq<(String, bool)>,
    keys: Seq<Seq<char>>,
    k: int,
) -> Option<ErrorView>
    decreases keys.len() - k,
{
    if k >= keys.len() {
        None
    } else {
        match under_file_problem(entries, keys, k, 0) {
            Some(error) => Some(error),
            None => under_files_problem(entries, keys, k + 1),
        }
    }
}

/// Why the entries, compared by the keys, cannot all be written to one directory.
pub open spec fn keys_problem(entries: Seq<(String, bool)>, keys: Seq<Seq<char>>) -> Option<
    ErrorView,
> {
    match same_path_problem(entries, keys, 0) {
        Some(error) => Some(error),
        None => under_files_problem(entries, keys, 0),
    }
}

/// Why the entries cannot all be written to one directory.
pub open spec fn collision_problem(entries: Seq<(String, bool)>, case_insensitive: bool) -> Option<
    ErrorView,
> {
    keys_problem(entries, collision_keys(entries, case_insensitive))
}

/// Whether a map holds, for each of the first `n` keys, where it is.
spec fn maps_keys(places: Map<Seq<char>, usize>, keys: Seq<Seq<char>>, n: int) -> bool {
    forall|key: Seq<char>|
        #![trigger places.contains_key(key)]
        #![trigger find_key(keys, key, n)]
        match find_key(keys, key, n) {
            Some(j) => places.contains_key(key) && places[key] == j,
            None => !places.contains_key(key),
        }
}

pub(crate) proof fn lemma_find_key(keys: Seq<Seq<char>>, key: Seq<char>, n: int)
    requires
        0 <= n <= keys.len(),
    ensures
        match find_key(keys, key, n) {
            Some(j) => 0 <= j < n && keys[j] == key,
            None => true,
        },
    decreases n,
{
    if n > 0 && keys[n - 1] != key {
        lemma_find_key(keys, key, n - 1);
    }
}

fn trimmed_path(zip_path: &str) -> (path: String)
    ensures
        path@ == trim_trailing(zip_path@, '/'),
{
    let chars = to_chars(zip_path);
    let end: usize = skip_trailing(&chars, 0, chars.len(), '/');
    assert(chars@.subrange(0, chars.len() as int) =~= zip_path@);
    from_chars(&chars, 0, end)
}

/// Checks that no two entries go to the same local path, and that none goes
/// under a file.
///
/// Each entry is a ZIP path and whether it is a directory.
pub fn validate_local_destination_path_collisions(
    entries: &Vec<(String, bool)>,
    case_insensitive: bool,
) -> (result: Result<()>)
    ensures
        match collision_problem(entries@, case_insensitive) {
            Some(error) => result is Err && result->Err_0@ == error,
            None => result is Ok,
        },
{
    let ghost keys = collision_keys(entries@, case_insensitive);
    let mut key_texts: Vec<String> = Vec::new();
    let mut i: usize = 0;
    while i < entries.len()
        invariant
            i <= entries.len(),
            keys == collision_keys(entries@, case_insensitive),
            key_texts.len() == i,
            forall|k: int| 0 <= k < i ==> (#[trigger] key_texts@[k])@ == keys[k],
        decreases entries.len() - i,
    {
        let path = trimmed_path(&entries[i].0);
        let key = normalize_local_collision_key(&path, case_insensitive);
        assert(key@ == keys[i as int]);
        key_texts.push(key);
        i += 1;
    }
    assert(string_views(key_texts@) =~= keys);
    check_collision_keys(entries, &key_texts)
}

/// Checks that no two entries go to the same local path, and that none goes
/// under a file, by the keys that their local paths are compared by.
pub fn check_collision_keys(entries: &Vec<(String, bool)>, key_texts: &Vec<String>) -> (result:
    Result<()>)
    requires
        entries@.len() == key_texts@.len(),
    ensures
        match keys_problem(entries@, string_views(key_texts@)) {
            Some(error) => result is Err && result->Err_0@ == error,
            None => result is Ok,
        },
{
    let ghost keys = string_views(key_texts@);
    let mut places: StringHashMap<usize> = StringHashMap::new();
    let mut i: usize = 0;
    while i < entries.len()
        invariant
            i <= entries.len() == key_texts.len(),
            keys == string_views(key_texts@),
            same_path_problem(entries@, keys, 0) == same_path_problem(entries@, keys, i as int),
            maps_keys(places@, keys, i as int),
        decreases entries.len() - i,
    {
        let key = &key_texts[i];
        assert(key@ == keys[i as int]);
        proof {
            lemma_find_key(keys, key@, i as int);
        }
        if let Some(previous) = places.get(key) {
            assert(find_key(keys, key@, i as int) == Some(*previous as int));
            let reason = cat3(
                "maps to the same local destination path as ZIP entry `",
                &entries[*previous].0,
                "`",
            );
            return Err(invalid_zip_entry(&entries[i].0, &reason));
        }
        let ghost before = places@;
        places.insert(key.clone(), i);
        i += 1;
        proof {
            assert forall|other: Seq<char>|
                #![trigger places@.contains_key(other)]
                #![trigger find_key(keys, other, i as int)]
                match find_key(keys, other, i as int) {
                    Some(j) => places@.contains_key(other) && places@[other] == j,
                    None => !places@.contains_key(other),
                } by {
                assert(match find_key(keys, other, i - 1) {
                    Some(j) => before.contains_key(other) && before[other] == j,
                    None => !before.contains_key(other),
                });
            }
        }
    }
    let mut k: usize = 0;
    while k < entries.len()
        invariant
            k <= entries.len() == keys.len(),
            key_texts.len() == entries.len(),
            keys == string_views(key_texts@),
            same_path_problem(entries@, keys, 0) is None,
            maps_keys(places@, keys, keys.len() as int),
            under_files_problem(entries@, keys, 0) == under_files_problem(
                entries@,
                keys,
                k as int,
            ),
        decreases entries.len() - k,
    {
        let chars = to_chars(&key_texts[k]);
        assert(key_texts@[k as int]@ == keys[k as int]);
        let mut p: usize = 0;
        while p < chars.len()
            invariant
                p <= chars.len(),
                k < entries.len() == keys.len(),
                keys == string_views(key_texts@),
                chars@ == keys[k as int],
                same_path_problem(entries@, keys, 0) is None,
                maps_keys(places@, keys, keys.len() as int),
                under_files_problem(entries@, keys, 0) == under_files_problem(
                    entries@,
                    keys,
                    k as int,
                ),
                under_file_problem(entries@, keys, k as int, 0) == under_file_problem(
                    entries@,
                    keys,
                    k as int,
                    p as int,
                ),
            decreases chars.len() - p,
        {
            if chars[p] == '/' {
                let from: usize = skip_leading(&chars, 0, p, '/');
                let ancestor = from_chars(&chars, from, p);
                proof {
                    assert(chars@.subrange(0, p as int) =~= chars@.take(p as int));
                    assert(ancestor@ == ancestor_key(keys[k as int], p as int));
                    lemma_find_key(keys, ancestor@, keys.len() as int);
                    assert(match find_key(keys, ancestor@, keys.len() as int) {
                        Some(j) => places@.contains_key(ancestor@) && places@[ancestor@] == j,
                        None => !places@.contains_key(ancestor@),
                    });
                }
                if let Some(file) = places.get(&ancestor) {
                    if !entries[*file].1 {
                        let reason = cat3(
                            "maps under the same local destination path as file ZIP entry `",
                            &entries[*file].0,
                            "`",
                        );
                        return Err(invalid_zip_entry(&entries[k].0, &reason));
                    }
                }
            }
            p += 1;
        }
        k += 1;
    }
    Ok(())
}

/// Accepted entries go to distinct local paths.
pub proof fn law_accepted_paths_are_distinct(
    entries: Seq<(String, bool)>,
    case_insensitive: bool,
    i: int,
    j: int,
)
    requires
        collision_problem(entries, case_insensitive) is None,
        0 <= i < j < entries.len(),
    ensures
        collision_keys(entries, case_insensitive)[i] != collision_keys(
            entries,
            case_insensitive,
        )[j],
{
    let keys = collision_keys(entries, case_insensitive);
    lemma_no_same_path(entries, keys, 0, j);
    if keys[i] == keys[j] {
        lemma_found(keys, keys[j], i, j);
    }
}

proof fn lemma_no_same_path(
    entries: Seq<(String, bool)>,
    keys: Seq<Seq<char>>,
    from: int,
    j: int,
)
    requires
        same_path_problem(entries, keys, from) is None,
        0 <= from <= j < keys.len(),
    ensures
        find_key(keys, keys[j], j) is None,
    decreases j - from,
{
    if from < j {
        lemma_no_same_path(entries, keys, from + 1, j);
    }
}

proof fn lemma_found(keys: Seq<Seq<char>>, key: Seq<char>, i: int, n: int)
    requires
        0 <= i < n <= keys.len(),
        keys[i] == key,
    ensures
        find_key(keys, key, n) is Some,
    decreases n,
{
    if keys[n - 1] != key {
        lemma_found(keys, key, i, n - 1);
    }
}

/// No accepted entry goes under a path at which an accepted file goes.
pub proof fn law_accepted_paths_do_not_lie_under_files(
    entries: Seq<(String, bool)>,
    case_insensitive: bool,
    file: int,
    k: int,
    p: int,
)
    requires
        collision_problem(entries, case_insensitive) is None,
        0 <= file < entries.len(),
        0 <= k < entries.len(),
        !entries[file].1,
        0 <= p < collision_keys(entries, case_insensitive)[k].len(),
        collision_keys(entries, case_insensitive)[k][p] == '/',
    ensures
        collision_keys(entries, case_insensitive)[file] != ancestor_key(
            collision_keys(entries, case_insensitive)[k],
            p,
        ),
{
    let keys = collision_keys(entries, case_insensitive);
    let n = keys.len() as int;
    lemma_not_under_files(entries, keys, 0, k);
    lemma_not_under_file(entries, keys, k, 0, p);
    let ancestor = ancestor_key(keys[k], p);
    if keys[file] == ancestor {
        lemma_found(keys, ancestor, file, n);
        lemma_find_key(keys, ancestor, n);
        let f = find_key(keys, ancestor, n)->Some_0;
        if f != file {
            if f < file {
                law_accepted_paths_are_distinct(entries, case_insensitive, f, file);
            } else {
                law_accepted_paths_are_distinct(entries, case_insensitive, file, f);
            }
        }
    }
}

proof fn lemma_not_under_files(
    entries: Seq<(String, bool)>,
    keys: Seq<Seq<char>>,
    from: int,
    k: int,
)
    requires
        under_files_problem(entries, keys, from) is None,
        0 <= from <= k < keys.len(),
    ensures
        under_file_problem(entries, keys, k, 0) is None,
    decreases k - from,
{
    if from < k {
        lemma_not_under_files(entries, keys, from + 1, k);
    }
}

proof fn lemma_not_under_file(
    entries: Seq<(String, bool)>,
    keys: Seq<Seq<char>>,
    k: int,
    from: int,
    p: int,
)
    requires
        under_file_problem(entries, keys, k, from) is None,
        0 <= from <= p < keys[k].len(),
        keys[k][p] == '/',
    ensures
        match find_key(keys, ancestor_key(keys[k], p), keys.len() as int) {
            Some(f) => entries[f].1,
            None => true,
        },
    decreases p - from,
{
    if from < p {
        lemma_not_under_file(entries, keys, k, from + 1, p);
    }
}

} // verus!

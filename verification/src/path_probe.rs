//! What is found at local destination paths, and what follows from it.
use vstd::prelude::*;
use vstd::string::*;

use crate::error::{Error, ErrorView, Result};
use crate::local_destination::ascii_upper;
use crate::local_path::invalid_local_path;
use crate::s3_uri::ascii_lower;
use crate::text::{cat2, cat4, to_chars};

verus! {

/// What is found at a path, links not followed.
#[derive(Debug)]
pub enum PathProbe {
    Symlink,
    /// A link by which the platform gives a system directory a second name.
    AliasSymlink,
    Directory,
    /// A file or something else.
    Other,
    /// Nothing is there, as the message says.
    NotFound(String),
    /// The path could not be inspected, for the reason given.
    Failed(String),
}

/// A path, as it is shown, and what is found there.
#[derive(Debug)]
pub struct Probed {
    pub shown: String,
    pub probe: PathProbe,
}

/// The error that names a path and a reason.
pub open spec fn path_error(path: Seq<char>, reason: Seq<char>) -> ErrorView {
    ErrorView::InvalidLocalPath { path, reason }
}

/// Whether there is a directory at a destination path.
#[derive(Clone, Copy, Debug, PartialEq, Eq, Structural)]
pub enum Presence {
    Present,
    Missing,
}

/// What a probe of a component of a destination path comes to, or why it
/// stops the transfer.
pub open spec fn component_presence(probe: PathProbe) -> core::result::Result<Presence, Seq<char>> {
    match probe {
        PathProbe::Symlink => Err("destination path component cannot be a symbolic link"@),
        PathProbe::AliasSymlink => Err("destination path component cannot be a symbolic link"@),
        PathProbe::Directory => Ok(Presence::Present),
        PathProbe::Other => Err("destination path component exists and is not a directory"@),
        PathProbe::NotFound(_) => Ok(Presence::Missing),
        PathProbe::Failed(message) => Err(
            "cannot inspect destination path component: "@ + message@,
        ),
    }
}

/// What a probe of a component of a destination path comes to.
pub(crate) fn component_reason(component: &Probed) -> (outcome: core::result::Result<Presence, String>)
    ensures
        match component_presence(component.probe) {
            Ok(presence) => outcome is Ok && outcome->Ok_0 == presence,
            Err(reason) => outcome is Err && outcome->Err_0@ == reason,
        },
{
    match &component.probe {
        PathProbe::Symlink | PathProbe::AliasSymlink => Err(
            "destination path component cannot be a symbolic link".to_owned(),
        ),
        PathProbe::Directory => Ok(Presence::Present),
        PathProbe::Other => Err(
            "destination path component exists and is not a directory".to_owned(),
        ),
        PathProbe::NotFound(_) => Ok(Presence::Missing),
        PathProbe::Failed(message) => Err(
            cat2("cannot inspect destination path component: ", message),
        ),
    }
}

/// Decides on a component of a destination path: a missing one is to be made.
pub fn check_directory_component(component: &Probed) -> (result: Result<Presence>)
    ensures
        match component_presence(component.probe) {
            Ok(presence) => result is Ok && result->Ok_0 == presence,
            Err(reason) => result is Err && result->Err_0@ == path_error(
                component.shown@,
                reason,
            ),
        },
{
    match component_reason(component) {
        Ok(presence) => Ok(presence),
        Err(reason) => Err(invalid_local_path(&component.shown, &reason)),
    }
}

/// Why a component that somebody else made at the same time stops the transfer.
pub open spec fn raced_problem(probe: PathProbe) -> Option<Seq<char>> {
    match probe {
        PathProbe::Symlink => Some("destination path component cannot be a symbolic link"@),
        PathProbe::AliasSymlink => Some("destination path component cannot be a symbolic link"@),
        PathProbe::Directory => None,
        PathProbe::Other => Some("destination path component exists and is not a directory"@),
        PathProbe::NotFound(message) => Some(
            "cannot inspect destination path component after create race: "@ + message@,
        ),
        PathProbe::Failed(message) => Some(
            "cannot inspect destination path component after create race: "@ + message@,
        ),
    }
}

/// Decides on a component that somebody else made at the same time.
pub fn check_raced_component(component: &Probed) -> (result: Result<()>)
    ensures
        match raced_problem(component.probe) {
            Some(reason) => result is Err && result->Err_0@ == path_error(
                component.shown@,
                reason,
            ),
            None => result is Ok,
        },
{
    let shown = &component.shown;
    match &component.probe {
        PathProbe::Symlink | PathProbe::AliasSymlink => Err(
            invalid_local_path(shown, "destination path component cannot be a symbolic link"),
        ),
        PathProbe::Directory => Ok(()),
        PathProbe::Other => Err(
            invalid_local_path(
                shown,
                "destination path component exists and is not a directory",
            ),
        ),
        PathProbe::NotFound(message) | PathProbe::Failed(message) => Err(
            invalid_local_path(
                shown,
                &cat2("cannot inspect destination path component after create race: ", message),
            ),
        ),
    }
}

/// Why a component of an existing directory's path stops the transfer. Links
/// by which the platform names system directories are followed.
pub open spec fn existing_problem(probe: PathProbe) -> Option<Seq<char>> {
    match probe {
        PathProbe::AliasSymlink => None,
        PathProbe::Symlink => Some("destination path component cannot be a symbolic link"@),
        PathProbe::Directory => None,
        PathProbe::Other => Some("destination path component exists and is not a directory"@),
        PathProbe::NotFound(message) => Some(
            "cannot inspect destination path component: "@ + message@,
        ),
        PathProbe::Failed(message) => Some(
            "cannot inspect destination path component: "@ + message@,
        ),
    }
}

fn check_existing_component(component: &Probed) -> (result: Result<()>)
    ensures
        match existing_problem(component.probe) {
            Some(reason) => result is Err && result->Err_0@ == path_error(
                component.shown@,
                reason,
            ),
            None => result is Ok,
        },
{
    let shown = &component.shown;
    match &component.probe {
        PathProbe::AliasSymlink | PathProbe::Directory => Ok(()),
        PathProbe::Symlink => Err(
            invalid_local_path(shown, "destination path component cannot be a symbolic link"),
        ),
        PathProbe::Other => Err(
            invalid_local_path(
                shown,
                "destination path component exists and is not a directory",
            ),
        ),
        PathProbe::NotFound(message) | PathProbe::Failed(message) => Err(
            invalid_local_path(
                shown,
                &cat2("cannot inspect destination path component: ", message),
            ),
        ),
    }
}

/// The first problem from `i` on in the path of an existing directory.
pub open spec fn existing_chain_problem(chain: Seq<Probed>, i: int) -> Option<ErrorView>
    decreases chain.len() - i,
{
    if i >= chain.len() {
        None
    } else {
        match existing_problem(chain[i].probe) {
            Some(reason) => Some(path_error(chain[i].shown@, reason)),
            None => existing_chain_problem(chain, i + 1),
        }
    }
}

/// Checks the path of an existing directory: the directory and all above it.
pub fn validate_existing_directory_chain(chain: &Vec<Probed>) -> (result: Result<()>)
    ensures
        match existing_chain_problem(chain@, 0) {
            Some(error) => result is Err && result->Err_0@ == error,
            None => result is Ok,
        },
{
    let mut i: usize = 0;
    while i < chain.len()
        invariant
            i <= chain.len(),
            existing_chain_problem(chain@, 0) == existing_chain_problem(chain@, i as int),
        decreases chain.len() - i,
    {
        match check_existing_component(&chain[i]) {
            Ok(()) => {},
            Err(error) => return Err(error),
        }
        i += 1;
    }
    Ok(())
}

/// The place of the first directory from `i` on, where nothing is found before
/// it; an error where something else is found first.
pub open spec fn first_directory(chain: Seq<Probed>, i: int) -> core::result::Result<
    Option<int>,
    ErrorView,
>
    decreases chain.len() - i,
{
    if i >= chain.len() {
        Ok(None)
    } else {
        match component_presence(chain[i].probe) {
            Ok(Presence::Present) => Ok(Some(i)),
            Ok(Presence::Missing) => first_directory(chain, i + 1),
            Err(reason) => Err(path_error(chain[i].shown@, reason)),
        }
    }
}

/// Finds the nearest directory above a destination that is missing. `above`
/// holds what is above it, nearest first.
pub fn find_existing_parent(above: &Vec<Probed>) -> (result: Result<Option<usize>>)
    ensures
        match first_directory(above@, 0) {
            Ok(Some(at)) => result is Ok && result->Ok_0 is Some && result->Ok_0->Some_0 == at,
            Ok(None) => result is Ok && result->Ok_0 is None,
            Err(error) => result is Err && result->Err_0@ == error,
        },
        result is Ok && result->Ok_0 is Some ==> result->Ok_0->Some_0 < above.len(),
{
    let mut i: usize = 0;
    while i < above.len()
        invariant
            i <= above.len(),
            first_directory(above@, 0) == first_directory(above@, i as int),
        decreases above.len() - i,
    {
        match check_directory_component(&above[i]) {
            Ok(Presence::Present) => return Ok(Some(i)),
            Ok(Presence::Missing) => {},
            Err(error) => return Err(error),
        }
        i += 1;
    }
    Ok(None)
}

/// What a probe of the destination directory comes to, or why it stops the transfer.
pub open spec fn root_presence(probe: PathProbe) -> core::result::Result<Presence, Seq<char>> {
    match probe {
        PathProbe::Symlink => Err("destination directory cannot be a symbolic link"@),
        PathProbe::AliasSymlink => Err("destination directory cannot be a symbolic link"@),
        PathProbe::Directory => Ok(Presence::Present),
        PathProbe::Other => Err("destination must be a directory"@),
        PathProbe::NotFound(_) => Ok(Presence::Missing),
        PathProbe::Failed(message) => Err("cannot inspect destination directory: "@ + message@),
    }
}

/// Decides on the destination directory.
pub fn check_destination_root(root: &Probed) -> (result: Result<Presence>)
    ensures
        match root_presence(root.probe) {
            Ok(presence) => result is Ok && result->Ok_0 == presence,
            Err(reason) => result is Err && result->Err_0@ == path_error(root.shown@, reason),
        },
{
    let shown = &root.shown;
    match &root.probe {
        PathProbe::Symlink | PathProbe::AliasSymlink => Err(
            invalid_local_path(shown, "destination directory cannot be a symbolic link"),
        ),
        PathProbe::Directory => Ok(Presence::Present),
        PathProbe::Other => Err(invalid_local_path(shown, "destination must be a directory")),
        PathProbe::NotFound(_) => Ok(Presence::Missing),
        PathProbe::Failed(message) => Err(
            invalid_local_path(shown, &cat2("cannot inspect destination directory: ", message)),
        ),
    }
}

/// The first problem from `i` on in the directories that a file is to lie in.
/// What lies below a missing directory is missing too.
pub open spec fn parent_chain_problem(chain: Seq<Probed>, i: int) -> Option<ErrorView>
    decreases chain.len() - i,
{
    if i >= chain.len() {
        None
    } else {
        match component_presence(chain[i].probe) {
            Ok(Presence::Present) => parent_chain_problem(chain, i + 1),
            Ok(Presence::Missing) => None,
            Err(reason) => Some(path_error(chain[i].shown@, reason)),
        }
    }
}

/// Checks the directories that a file is to lie in, outermost first.
pub fn validate_parent_dirs_for_dry_run(chain: &Vec<Probed>) -> (result: Result<()>)
    ensures
        match parent_chain_problem(chain@, 0) {
            Some(error) => result is Err && result->Err_0@ == error,
            None => result is Ok,
        },
{
    let mut i: usize = 0;
    while i < chain.len()
        invariant
            i <= chain.len(),
            parent_chain_problem(chain@, 0) == parent_chain_problem(chain@, i as int),
        decreases chain.len() - i,
    {
        match check_directory_component(&chain[i]) {
            Ok(Presence::Present) => {},
            Ok(Presence::Missing) => return Ok(()),
            Err(error) => return Err(error),
        }
        i += 1;
    }
    Ok(())
}

/// Why a file cannot be written at a path.
pub open spec fn file_problem(probe: PathProbe) -> Option<Seq<char>> {
    match probe {
        PathProbe::Symlink => Some("destination file cannot be a symbolic link"@),
        PathProbe::AliasSymlink => Some("destination file cannot be a symbolic link"@),
        PathProbe::Directory => Some("destination file path is a directory"@),
        PathProbe::Other => None,
        PathProbe::NotFound(_) => None,
        PathProbe::Failed(message) => Some("cannot inspect destination file: "@ + message@),
    }
}

/// Checks that a file can be written at a path.
pub fn reject_existing_symlink_or_directory(file: &Probed) -> (result: Result<()>)
    ensures
        match file_problem(file.probe) {
            Some(reason) => result is Err && result->Err_0@ == path_error(file.shown@, reason),
            None => result is Ok,
        },
{
    let shown = &file.shown;
    match &file.probe {
        PathProbe::Symlink | PathProbe::AliasSymlink => Err(
            invalid_local_path(shown, "destination file cannot be a symbolic link"),
        ),
        PathProbe::Directory => Err(
            invalid_local_path(shown, "destination file path is a directory"),
        ),
        PathProbe::Other | PathProbe::NotFound(_) => Ok(()),
        PathProbe::Failed(message) => Err(
            invalid_local_path(shown, &cat2("cannot inspect destination file: ", message)),
        ),
    }
}

/// Why a ZIP file cannot be written at a path.
pub open spec fn zip_problem(probe: PathProbe) -> Option<Seq<char>> {
    match probe {
        PathProbe::Symlink => Some("destination ZIP cannot be a symbolic link"@),
        PathProbe::AliasSymlink => Some("destination ZIP cannot be a symbolic link"@),
        PathProbe::Directory => Some("destination ZIP path is a directory"@),
        PathProbe::Other => None,
        PathProbe::NotFound(_) => None,
        PathProbe::Failed(message) => Some("cannot inspect destination ZIP: "@ + message@),
    }
}

fn check_zip_target(zip: &Probed) -> (result: Result<()>)
    ensures
        match zip_problem(zip.probe) {
            Some(reason) => result is Err && result->Err_0@ == path_error(zip.shown@, reason),
            None => result is Ok,
        },
{
    let shown = &zip.shown;
    match &zip.probe {
        PathProbe::Symlink | PathProbe::AliasSymlink => Err(
            invalid_local_path(shown, "destination ZIP cannot be a symbolic link"),
        ),
        PathProbe::Directory => Err(
            invalid_local_path(shown, "destination ZIP path is a directory"),
        ),
        PathProbe::Other | PathProbe::NotFound(_) => Ok(()),
        PathProbe::Failed(message) => Err(
            invalid_local_path(shown, &cat2("cannot inspect destination ZIP: ", message)),
        ),
    }
}

/// Why no ZIP file can be written at a path, given the directory that is to
/// hold it and what is above that, nearest first.
pub open spec fn zip_destination_problem(parent: Seq<char>, chain: Seq<Probed>, zip: Probed) -> Option<
    ErrorView,
> {
    match first_directory(chain, 0) {
        Err(error) => Some(error),
        Ok(Some(at)) => if at == 0 {
            match zip_problem(zip.probe) {
                Some(reason) => Some(path_error(zip.shown@, reason)),
                None => None,
            }
        } else {
            Some(path_error(parent, "destination directory does not exist"@))
        },
        Ok(None) => Some(path_error(parent, "destination directory does not exist"@)),
    }
}

/// Checks that a ZIP file can be written at a path, given the directory that
/// is to hold it and what is above that, nearest first.
pub fn validate_local_zip_destination_path(parent: &str, chain: &Vec<Probed>, zip: &Probed) -> (result:
    Result<()>)
    ensures
        match zip_destination_problem(parent@, chain@, *zip) {
            Some(error) => result is Err && result->Err_0@ == error,
            None => result is Ok,
        },
{
    match find_existing_parent(chain) {
        Err(error) => Err(error),
        Ok(Some(0)) => check_zip_target(zip),
        Ok(_) => Err(invalid_local_path(parent, "destination directory does not exist")),
    }
}

/// Whether what is found where a complete file is to be moved has to be removed
/// first, or why the file cannot be moved there.
pub open spec fn replace_step(description: Seq<char>, probe: PathProbe) -> core::result::Result<
    bool,
    Seq<char>,
> {
    match probe {
        PathProbe::Symlink => Err(description + " destination cannot be a symbolic link"@),
        PathProbe::AliasSymlink => Err(description + " destination cannot be a symbolic link"@),
        PathProbe::Directory => Err(description + " destination is a directory"@),
        PathProbe::Other => Ok(true),
        PathProbe::NotFound(_) => Ok(false),
        PathProbe::Failed(message) => Err(
            "cannot inspect existing destination before moving "@ + description + ": "@ + message@,
        ),
    }
}

/// Decides whether what is found where a complete file is to be moved has to be
/// removed first.
pub fn check_replaced_file(destination: &Probed, description: &str) -> (result: Result<bool>)
    ensures
        match replace_step(description@, destination.probe) {
            Ok(remove) => result is Ok && result->Ok_0 == remove,
            Err(reason) => result is Err && result->Err_0@ == path_error(
                destination.shown@,
                reason,
            ),
        },
{
    let reason = match &destination.probe {
        PathProbe::Symlink | PathProbe::AliasSymlink => cat2(
            description,
            " destination cannot be a symbolic link",
        ),
        PathProbe::Directory => cat2(description, " destination is a directory"),
        PathProbe::Other => return Ok(true),
        PathProbe::NotFound(_) => return Ok(false),
        PathProbe::Failed(message) => cat4(
            "cannot inspect existing destination before moving ",
            description,
            ": ",
            message,
        ),
    };
    Err(invalid_local_path(&destination.shown, &reason))
}

/// Where to look at names to see whether a file system tells cases apart.
#[derive(Clone, Copy, Debug, PartialEq, Eq, Structural)]
pub enum CaseProbeRoot {
    Destination,
    /// The directory at this place above the destination.
    Above(usize),
    /// The current directory.
    Current,
}

/// Why nothing can be looked at in a path above a missing destination. A link
/// is no directory.
pub open spec fn above_presence(probe: PathProbe) -> core::result::Result<Presence, Seq<char>> {
    match probe {
        PathProbe::Directory => Ok(Presence::Present),
        PathProbe::NotFound(_) => Ok(Presence::Missing),
        PathProbe::Failed(message) => Err(
            "cannot inspect destination path component: "@ + message@,
        ),
        _ => Err("destination path component exists and is not a directory"@),
    }
}

/// Where to look at names, from place `i` above the destination on.
pub open spec fn probe_root_above(above: Seq<Probed>, i: int) -> core::result::Result<
    CaseProbeRoot,
    ErrorView,
>
    decreases above.len() - i,
{
    if i >= above.len() {
        Ok(CaseProbeRoot::Current)
    } else {
        match above_presence(above[i].probe) {
            Ok(Presence::Present) => Ok(CaseProbeRoot::Above(i as usize)),
            Ok(Presence::Missing) => probe_root_above(above, i + 1),
            Err(reason) => Err(path_error(above[i].shown@, reason)),
        }
    }
}

/// Where to look at names: the destination, or the nearest directory above it.
pub open spec fn probe_root(destination: Probed, above: Seq<Probed>) -> core::result::Result<
    CaseProbeRoot,
    ErrorView,
> {
    match destination.probe {
        PathProbe::Directory => Ok(CaseProbeRoot::Destination),
        PathProbe::NotFound(_) => probe_root_above(above, 0),
        PathProbe::Failed(message) => Err(
            path_error(
                destination.shown@,
                "cannot inspect destination directory: "@ + message@,
            ),
        ),
        _ => Err(path_error(destination.shown@, "destination must be a directory"@)),
    }
}

/// Finds the directory whose names show whether cases are told apart.
pub fn existing_case_probe_root(destination: &Probed, above: &Vec<Probed>) -> (result: Result<
    CaseProbeRoot,
>)
    ensures
        match probe_root(*destination, above@) {
            Ok(root) => result is Ok && result->Ok_0 == root,
            Err(error) => result is Err && result->Err_0@ == error,
        },
{
    match &destination.probe {
        PathProbe::Directory => return Ok(CaseProbeRoot::Destination),
        PathProbe::NotFound(_) => {},
        PathProbe::Failed(message) => return Err(
            invalid_local_path(
                &destination.shown,
                &cat2("cannot inspect destination directory: ", message),
            ),
        ),
        _ => return Err(
            invalid_local_path(&destination.shown, "destination must be a directory"),
        ),
    }
    let mut i: usize = 0;
    while i < above.len()
        invariant
            i <= above.len(),
            probe_root(*destination, above@) == probe_root_above(above@, i as int),
        decreases above.len() - i,
    {
        match &above[i].probe {
            PathProbe::Directory => return Ok(CaseProbeRoot::Above(i)),
            PathProbe::NotFound(_) => {},
            PathProbe::Failed(message) => return Err(
                invalid_local_path(
                    &above[i].shown,
                    &cat2("cannot inspect destination path component: ", message),
                ),
            ),
            _ => return Err(
                invalid_local_path(
                    &above[i].shown,
                    "destination path component exists and is not a directory",
                ),
            ),
        }
        i += 1;
    }
    Ok(CaseProbeRoot::Current)
}

/// A name with the case of its ASCII letters changed.
pub open spec fn swapped_case(name: Seq<char>) -> Seq<char> {
    name.map_values(
        |c: char|
            if 'a' <= c <= 'z' {
                ascii_upper(c)
            } else {
                ascii_lower(c)
            },
    )
}

pub open spec fn has_ascii_letter(name: Seq<char>) -> bool {
    exists|i: int|
        0 <= i < name.len() && (('a' <= (#[trigger] name[i]) <= 'z') || ('A' <= name[i] <= 'Z'))
}

/// A name that differs from the given one in the case of its ASCII letters
/// only, where there are any.
pub fn alternate_case_name(name: &str) -> (alternate: Option<String>)
    ensures
        alternate is Some <==> has_ascii_letter(name@),
        alternate is Some ==> alternate->Some_0@ == swapped_case(name@),
{
    let chars = to_chars(name);
    let mut changed: bool = false;
    let mut alternate = String::new();
    let mut i: usize = 0;
    while i < chars.len()
        invariant
            i <= chars.len(),
            chars@ == name@,
            alternate@ == swapped_case(name@).take(i as int),
            changed == (exists|k: int|
                0 <= k < i && (('a' <= (#[trigger] name@[k]) <= 'z') || ('A' <= name@[k]
                    <= 'Z'))),
        decreases chars.len() - i,
    {
        let c = chars[i];
        let lower: bool = 'a' <= c && c <= 'z';
        let upper: bool = 'A' <= c && c <= 'Z';
        assert((lower || upper) == (('a' <= name@[i as int] <= 'z') || ('A' <= name@[i as int]
            <= 'Z')));
        changed = changed || lower || upper;
        let swapped: char = if lower {
            (c as u8 - 32) as char
        } else if upper {
            (c as u8 + 32) as char
        } else {
            c
        };
        alternate.push(swapped);
        i += 1;
        assert(alternate@ =~= swapped_case(name@).take(i as int));
    }
    assert(alternate@ =~= swapped_case(name@));
    if changed {
        Some(alternate)
    } else {
        None
    }
}

/// Whether a Linux file system of a type tells cases apart, where the type
/// shows it. Directories may fold cases on their own.
pub open spec fn linux_case(folds: bool, filesystem_type: Option<i64>) -> Option<bool> {
    if folds {
        Some(true)
    } else {
        match filesystem_type {
            None => None,
            Some(kind) => if kind == 0xef53 || kind == 0xf2f5_2010 {
                Some(false)
            } else if kind == 0x4d44 || kind == 0x517b || kind == 0x2011_bab0 || kind
                == 0x5346_544e || kind == 0xff53_4d42 {
                Some(true)
            } else {
                None
            },
        }
    }
}

/// Whether names that differ in case only are the same on a Linux file system,
/// where its type shows it.
pub fn linux_case_insensitive(folds: bool, filesystem_type: Option<i64>) -> (insensitive: Option<
    bool,
>)
    ensures
        insensitive == linux_case(folds, filesystem_type),
{
    if folds {
        return Some(true);
    }
    match filesystem_type {
        None => None,
        Some(kind) => if kind == 0xef53 || kind == 0xf2f5_2010 {
            Some(false)
        } else if kind == 0x4d44 || kind == 0x517b || kind == 0x2011_bab0 || kind == 0x5346_544e
            || kind == 0xff53_4d42 {
            Some(true)
        } else {
            None
        },
    }
}

/// The error of an entry that would overwrite the archive it comes from.
pub fn source_archive_error(zip_path: &str, destination: &str, source_zip: &str) -> (error: Error)
    ensures
        error@ == (ErrorView::InvalidLocalPath {
            path: destination@,
            reason: "ZIP entry `"@ + zip_path@ + "` would overwrite the source archive "@
                + source_zip@,
        }),
{
    let reason = cat4(
        "ZIP entry `",
        zip_path,
        "` would overwrite the source archive ",
        source_zip,
    );
    invalid_local_path(destination, &reason)
}

/// No file is written through a link that is in the way: where the directories
/// for a file are accepted, none of those that exist is a link.
pub proof fn law_accepted_parents_hold_no_links(chain: Seq<Probed>, i: int, k: int)
    requires
        0 <= i <= k < chain.len(),
        parent_chain_problem(chain, i) is None,
        forall|j: int| i <= j < k ==> (#[trigger] chain[j]).probe is Directory,
    ensures
        !(chain[k].probe is Symlink),
        !(chain[k].probe is AliasSymlink),
        !(chain[k].probe is Other),
    decreases k - i,
{
    if i < k {
        assert(chain[i].probe is Directory);
        law_accepted_parents_hold_no_links(chain, i + 1, k);
    }
}

/// A ZIP file is written only into an existing directory that is no link, and
/// never over a link or a directory.
pub proof fn law_accepted_zip_destination_is_plain(parent: Seq<char>, chain: Seq<Probed>, zip: Probed)
    requires
        zip_destination_problem(parent, chain, zip) is None,
    ensures
        chain.len() > 0,
        chain[0].probe is Directory,
        zip.probe is Other || zip.probe is NotFound,
{
    lemma_first_directory_at(chain, 0);
}

proof fn lemma_first_directory_at(chain: Seq<Probed>, i: int)
    requires
        0 <= i,
    ensures
        first_directory(chain, i) is Ok && first_directory(chain, i)->Ok_0 is Some ==> {
            let at = first_directory(chain, i)->Ok_0->Some_0;
            i <= at < chain.len() && chain[at].probe is Directory
        },
    decreases chain.len() - i,
{
    if i < chain.len() {
        lemma_first_directory_at(chain, i + 1);
    }
}

} // verus!

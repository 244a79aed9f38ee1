//! Local file paths: where a download lands, its temporary and part files, and
//! the `-(n)` sibling that avoids overwriting an existing file. Splitting and
//! joining paths is left to `std::path::Path`.
use vstd::prelude::*;

use crate::error::ThufsError;
use crate::paths::{is_first_free_sibling_among, first_free_sibling, last_component_seq, remote_filename, string_views};
use crate::share::opt_view;
use crate::text::{decimal, to_owned_string, u64_to_decimal};

verus! {

/// What `Path::join` gives for `base` joined with `name`.
pub uninterp spec fn path_join(base: Seq<char>, name: Seq<char>) -> Seq<char>;

/// What `Path::file_name` gives for `path`.
pub uninterp spec fn path_file_name(path: Seq<char>) -> Option<Seq<char>>;

/// What `Path::parent` gives for `path`.
pub uninterp spec fn path_parent(path: Seq<char>) -> Option<Seq<char>>;

/// `Path::new(base).join(name)`, read back as a string. The contract names the
/// result `path_join(base, name)`; how `Path` places separators is left unsaid.
#[verifier::external_body]
pub(crate) fn join_path(base: &str, name: &str) -> (res: String)
    ensures
        res@ == path_join(base@, name@),
{
    std::path::Path::new(base).join(name).to_string_lossy().into_owned()
}

/// `Path::new(path).file_name()`, read back as a string. The contract names the
/// result `path_file_name(path)`; which components count as a file name (none for
/// a path ending in `..`) is left unsaid.
#[verifier::external_body]
pub(crate) fn file_name_of(path: &str) -> (res: Option<String>)
    ensures
        opt_view(res) == path_file_name(path@),
{
    std::path::Path::new(path).file_name().map(|name| name.to_string_lossy().into_owned())
}

/// `Path::new(path).parent()`, read back as a string. The contract names the
/// result `path_parent(path)`; that a one-component relative path has the empty
/// parent and a root has none is left unsaid.
#[verifier::external_body]
pub(crate) fn parent_of(path: &str) -> (res: Option<String>)
    ensures
        opt_view(res) == path_parent(path@),
{
    std::path::Path::new(path).parent().map(|parent| parent.to_string_lossy().into_owned())
}

/// The directory of `path`, or `.` when it has none.
pub open spec fn parent_or_dot(path: Seq<char>) -> Seq<char> {
    match path_parent(path) {
        Some(p) => p,
        None => "."@,
    }
}

/// The file name of `path`, or `fallback` when it has none.
pub open spec fn file_name_or(path: Seq<char>, fallback: Seq<char>) -> Seq<char> {
    match path_file_name(path) {
        Some(n) => n,
        None => fallback,
    }
}

/// The name of the hidden file beside `name` that a download is written to.
pub open spec fn temporary_name_seq(name: Seq<char>) -> Seq<char> {
    "."@ + name + ".thufs-part"@
}

/// The name of the hidden file beside `name` that holds one range of a parallel
/// download.
pub open spec fn part_name_seq(name: Seq<char>, index: nat) -> Seq<char> {
    "."@ + name + ".part-"@ + decimal(index) + ".thufs-part"@
}

/// The hidden file a download is written to before it is moved into place.
pub open spec fn temporary_download_path_seq(destination: Seq<char>) -> Option<Seq<char>> {
    match (path_parent(destination), path_file_name(destination)) {
        (Some(p), Some(n)) => Some(path_join(p, temporary_name_seq(n))),
        _ => None,
    }
}

/// The hidden file that holds the `index`-th range of a parallel download.
pub open spec fn part_download_path_seq(destination: Seq<char>, index: nat) -> Seq<char> {
    path_join(parent_or_dot(destination), part_name_seq(file_name_or(destination, "download.thufs-part"@), index))
}

/// The name `.<name>.thufs-part` of the hidden file a download of `name` is
/// written to.
pub fn temporary_name(name: &str) -> (res: String)
    ensures
        res@ == temporary_name_seq(name@),
{
    String::from_str(".").concat(name).concat(".thufs-part")
}

/// The name `.<name>.part-<index>.thufs-part` of the hidden file that holds one
/// range of a parallel download of `name`.
pub fn part_name(name: &str, index: usize) -> (res: String)
    ensures
        res@ == part_name_seq(name@, index as nat),
{
    String::from_str(".").concat(name).concat(".part-").concat(u64_to_decimal(index as u64).as_str()).concat(
        ".thufs-part",
    )
}

/// The local file a download of `remote_path` lands in: inside `local` when that
/// is a directory (under the remote file's name), else `local` itself.
pub fn resolve_local_destination(local: &str, remote_path: &str, local_is_dir: bool) -> (res: Result<String, ThufsError>)
    ensures
        local_is_dir ==> match res {
            Ok(p) => last_component_seq(remote_path@).len() > 0 && p@ == path_join(local@, last_component_seq(remote_path@)),
            Err(e) => {
                &&& last_component_seq(remote_path@).len() == 0
                &&& e matches ThufsError::RemoteNotAFile(q)
                &&& q@ == remote_path@
            },
        },
        !local_is_dir ==> (res matches Ok(p) && p@ == local@),
{
    if local_is_dir {
        let name = remote_filename(remote_path)?;
        Ok(join_path(local, name))
    } else {
        Ok(to_owned_string(local))
    }
}

/// The file name of a local path; a path without one is an error.
pub fn local_filename(path: &str) -> (res: Result<String, ThufsError>)
    ensures
        match path_file_name(path@) {
            Some(n) => res matches Ok(r) && r@ == n,
            None => res matches Err(ThufsError::LocalPathInvalidFilename(p)) && p@ == path@,
        },
{
    match file_name_of(path) {
        Some(name) => Ok(name),
        None => Err(ThufsError::LocalPathInvalidFilename(to_owned_string(path))),
    }
}

/// The hidden file `.<name>.thufs-part` beside `destination` that a download is
/// written to; a destination without a parent or a file name is an error.
pub fn temporary_download_path(destination: &str) -> (res: Result<String, ThufsError>)
    ensures
        match temporary_download_path_seq(destination@) {
            Some(t) => res matches Ok(r) && r@ == t,
            None => match res {
                Err(ThufsError::DestinationWithoutParent(p)) => path_parent(destination@) is None && p@
                    == destination@,
                Err(ThufsError::DestinationInvalidFilename(p)) => path_parent(destination@) is Some
                    && path_file_name(destination@) is None && p@ == destination@,
                _ => false,
            },
        },
{
    let parent = match parent_of(destination) {
        Some(p) => p,
        None => {
            return Err(ThufsError::DestinationWithoutParent(to_owned_string(destination)));
        },
    };
    let name = match file_name_of(destination) {
        Some(n) => n,
        None => {
            return Err(ThufsError::DestinationInvalidFilename(to_owned_string(destination)));
        },
    };
    let hidden = temporary_name(name.as_str());
    Ok(join_path(parent.as_str(), hidden.as_str()))
}

/// The hidden file `.<name>.part-<index>.thufs-part` beside `destination` that
/// holds one range of a parallel download.
pub fn part_download_path(destination: &str, index: usize) -> (res: String)
    ensures
        res@ == part_download_path_seq(destination@, index as nat),
{
    let parent = match parent_of(destination) {
        Some(p) => p,
        None => String::from_str("."),
    };
    let name = match file_name_of(destination) {
        Some(n) => n,
        None => String::from_str("download.thufs-part"),
    };
    let hidden = part_name(name.as_str(), index);
    join_path(parent.as_str(), hidden.as_str())
}

/// The first sibling `<stem>-(<n>)[.<ext>]` of `path`, in the same directory, whose
/// name is not among `taken` (the names already in that directory).
pub fn next_available_local_path(path: &str, taken: &Vec<String>) -> (res: String)
    requires
        taken@.len() < u64::MAX,
    ensures
        exists|name: Seq<char>|
            is_first_free_sibling_among(file_name_or(path@, "download"@), string_views(taken@), name) && res@
                == path_join(parent_or_dot(path@), name),
{
    let parent = match parent_of(path) {
        Some(p) => p,
        None => String::from_str("."),
    };
    let name = match file_name_of(path) {
        Some(n) => n,
        None => String::from_str("download"),
    };
    let candidate = first_free_sibling(name.as_str(), taken);
    let res = join_path(parent.as_str(), candidate.as_str());
    proof {
        assert(parent@ == parent_or_dot(path@));
        assert(name@ == file_name_or(path@, "download"@));
        assert(is_first_free_sibling_among(file_name_or(path@, "download"@), string_views(taken@), candidate@));
    }
    res
}

} // verus!

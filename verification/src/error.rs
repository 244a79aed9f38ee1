//! The failures the library reports, each with the text a user sees.
use vstd::prelude::*;

verus! {

/// Every failure that the verified logic can report.
#[derive(Debug, Clone, PartialEq, Eq)]
pub enum ThufsError {
    /// An empty (or all-whitespace) remote path.
    EmptyRemotePath,
    /// `repo:` with nothing before the first `/`.
    MissingRepoName,
    /// `repo:<library>/` with nothing after the `/`.
    MissingRemoteFilePath,
    /// A shorthand remote path while no default library is configured.
    DefaultRepoRequired,
    /// An output mode other than `human` or `json`.
    UnsupportedOutputMode(String),
    /// A download mode keyword that is not recognised.
    InvalidDownloadMode(String),
    /// A progress mode keyword that is not recognised.
    InvalidProgressMode(String),
    /// A conflict policy keyword that is not recognised.
    InvalidConflictPolicy(String),
    /// No visible library has the requested name.
    RepositoryNotFound(String),
    /// More than one visible library has the requested name.
    RepositoryAmbiguous(String),
    /// An authenticated request was attempted without a token.
    NoTokenConfigured,
    /// A share URL of kind `f` or `d` without a hashcode.
    ShareMissingHashcode,
    /// An empty share hashcode.
    ShareHashcodeEmpty,
    /// A share hashcode with characters outside `[A-Za-z0-9_-]`.
    ShareHashcodeUnsupported,
    /// An empty share password.
    EmptySharePassword,
    /// A share expiration of zero days.
    ShareExpirationTooShort,
    /// An empty token given to `unshare`.
    EmptyShareToken,
    /// A remote path that names no file.
    RemoteNotAFile(String),
    /// A remote path without any `/`.
    RemotePathInvalid(String),
    /// A local path whose last component is not a usable file name.
    LocalPathInvalidFilename(String),
    /// A path whose last component is not a usable file name.
    PathInvalidFilename(String),
    /// A local upload source whose last component is not a usable file name.
    LocalSourceInvalidFilename(String),
    /// A download destination without a parent directory.
    DestinationWithoutParent(String),
    /// A download destination whose last component is not a usable file name.
    DestinationInvalidFilename(String),
    /// The local download destination exists and the policy forbids replacing it.
    LocalDestinationExists(String),
    /// The remote upload target exists and the policy forbids replacing it.
    RemoteTargetExists(String),
    /// The remote upload target exists and is a directory.
    RemoteTargetNotAFile(String),
    /// A directory listing entry without a name.
    DirectoryEntryMissingName,
    /// A parallel download was requested from an endpoint without ranged downloads.
    ParallelDownloadUnsupported,
    /// A parallel download was requested while a partial file must be resumed.
    ParallelDownloadNeedsFreshFile,
    /// A range probe answered without any total length.
    RangeProbeWithoutLength,
    /// A shared-file response gave no usable file name.
    SharedFilenameUnknown,
    /// An upload answer without the uploaded file's metadata.
    UploadWithoutMetadata,
    /// An update answer without the file's metadata.
    UpdateWithoutMetadata,
}

/// The text shown for an error.
pub open spec fn spec_message(e: ThufsError) -> Seq<char> {
    match e {
        ThufsError::EmptyRemotePath => "remote path cannot be empty"@,
        ThufsError::MissingRepoName => "remote path is missing repo name"@,
        ThufsError::MissingRemoteFilePath => "remote path is missing file or directory path"@,
        ThufsError::DefaultRepoRequired =>
            "remote path must use repo:<library>/<path> when no default repo is configured"@,
        ThufsError::UnsupportedOutputMode(v) => "unsupported output mode: "@ + v@,
        ThufsError::InvalidDownloadMode(v) => "invalid download mode `"@ + v@
            + "`; expected one of: auto, parallel, sequential"@,
        ThufsError::InvalidProgressMode(v) => "invalid progress mode `"@ + v@
            + "`; expected one of: auto, jsonl, none"@,
        ThufsError::InvalidConflictPolicy(v) => "invalid conflict policy `"@ + v@
            + "`; expected one of: prompt, overwrite, uniquify, fail"@,
        ThufsError::RepositoryNotFound(v) => "repository `"@ + v@ + "` was not found"@,
        ThufsError::RepositoryAmbiguous(v) => "repository `"@ + v@ + "` is ambiguous"@,
        ThufsError::NoTokenConfigured => "no token configured; run `thufs auth set-token <token>`"@,
        ThufsError::ShareMissingHashcode => "share link is missing hashcode"@,
        ThufsError::ShareHashcodeEmpty => "share hashcode cannot be empty"@,
        ThufsError::ShareHashcodeUnsupported => "share hashcode contains unsupported characters"@,
        ThufsError::EmptySharePassword => "share password cannot be empty"@,
        ThufsError::ShareExpirationTooShort => "share expiration must be at least 1 day"@,
        ThufsError::EmptyShareToken => "share token cannot be empty"@,
        ThufsError::RemoteNotAFile(v) => "remote path `"@ + v@ + "` must point to a file"@,
        ThufsError::RemotePathInvalid(v) => "remote path `"@ + v@ + "` is invalid"@,
        ThufsError::LocalPathInvalidFilename(v) => "local path `"@ + v@ + "` has invalid filename"@,
        ThufsError::PathInvalidFilename(v) => "path `"@ + v@ + "` has invalid filename"@,
        ThufsError::LocalSourceInvalidFilename(v) => "local source `"@ + v@
            + "` has invalid filename"@,
        ThufsError::DestinationWithoutParent(v) => "destination `"@ + v@ + "` has no parent"@,
        ThufsError::DestinationInvalidFilename(v) => "destination `"@ + v@
            + "` has invalid filename"@,
        ThufsError::LocalDestinationExists(v) => "local destination `"@ + v@
            + "` already exists; rerun with --conflict overwrite, --conflict uniquify, or --conflict fail"@,
        ThufsError::RemoteTargetExists(v) => "remote target `"@ + v@
            + "` already exists; rerun with --conflict overwrite, --conflict uniquify, or --conflict fail"@,
        ThufsError::RemoteTargetNotAFile(v) => "remote target `"@ + v@ + "` is not a file path"@,
        ThufsError::DirectoryEntryMissingName => "directory entry missing name"@,
        ThufsError::ParallelDownloadUnsupported =>
            "parallel download was requested but the remote endpoint does not support ranged download"@,
        ThufsError::ParallelDownloadNeedsFreshFile =>
            "parallel download was requested but resumable partial files must continue in sequential mode"@,
        ThufsError::RangeProbeWithoutLength => "range probe did not include total content length"@,
        ThufsError::SharedFilenameUnknown =>
            "failed to infer shared filename from server response; the share may require a password or may not point to a file"@,
        ThufsError::UploadWithoutMetadata => "upload response did not include uploaded file metadata"@,
        ThufsError::UpdateWithoutMetadata => "update response did not include file metadata"@,
    }
}

/// `lit` followed by `v` followed by `tail`.
fn wrap(lit: &str, v: &String, tail: &str) -> (res: String)
    ensures
        res@ == lit@ + v@ + tail@,
{
    let s = String::from_str(lit);
    let s = s.concat(v.as_str());
    s.concat(tail)
}

impl ThufsError {
    /// The text a user sees for this error.
    pub fn message(&self) -> (res: String)
        ensures
            res@ == spec_message(*self),
    {
        match self {
            ThufsError::EmptyRemotePath => String::from_str("remote path cannot be empty"),
            ThufsError::MissingRepoName => String::from_str("remote path is missing repo name"),
            ThufsError::MissingRemoteFilePath => String::from_str(
                "remote path is missing file or directory path",
            ),
            ThufsError::DefaultRepoRequired => String::from_str(
                "remote path must use repo:<library>/<path> when no default repo is configured",
            ),
            ThufsError::UnsupportedOutputMode(v) => {
                let s = String::from_str("unsupported output mode: ");
                s.concat(v.as_str())
            },
            ThufsError::InvalidDownloadMode(v) => wrap(
                "invalid download mode `",
                v,
                "`; expected one of: auto, parallel, sequential",
            ),
            ThufsError::InvalidProgressMode(v) => wrap(
                "invalid progress mode `",
                v,
                "`; expected one of: auto, jsonl, none",
            ),
            ThufsError::InvalidConflictPolicy(v) => wrap(
                "invalid conflict policy `",
                v,
                "`; expected one of: prompt, overwrite, uniquify, fail",
            ),
            ThufsError::RepositoryNotFound(v) => wrap("repository `", v, "` was not found"),
            ThufsError::RepositoryAmbiguous(v) => wrap("repository `", v, "` is ambiguous"),
            ThufsError::NoTokenConfigured => String::from_str(
                "no token configured; run `thufs auth set-token <token>`",
            ),
            ThufsError::ShareMissingHashcode => String::from_str("share link is missing hashcode"),
            ThufsError::ShareHashcodeEmpty => String::from_str("share hashcode cannot be empty"),
            ThufsError::ShareHashcodeUnsupported => String::from_str(
                "share hashcode contains unsupported characters",
            ),
            ThufsError::EmptySharePassword => String::from_str("share password cannot be empty"),
            ThufsError::ShareExpirationTooShort => String::from_str(
                "share expiration must be at least 1 day",
            ),
            ThufsError::EmptyShareToken => String::from_str("share token cannot be empty"),
            ThufsError::RemoteNotAFile(v) => wrap("remote path `", v, "` must point to a file"),
            ThufsError::RemotePathInvalid(v) => wrap("remote path `", v, "` is invalid"),
            ThufsError::LocalPathInvalidFilename(v) => wrap(
                "local path `",
                v,
                "` has invalid filename",
            ),
            ThufsError::PathInvalidFilename(v) => wrap("path `", v, "` has invalid filename"),
            ThufsError::LocalSourceInvalidFilename(v) => wrap(
                "local source `",
                v,
                "` has invalid filename",
            ),
            ThufsError::DestinationWithoutParent(v) => wrap("destination `", v, "` has no parent"),
            ThufsError::DestinationInvalidFilename(v) => wrap(
                "destination `",
                v,
                "` has invalid filename",
            ),
            ThufsError::LocalDestinationExists(v) => wrap(
                "local destination `",
                v,
                "` already exists; rerun with --conflict overwrite, --conflict uniquify, or --conflict fail",
            ),
            ThufsError::RemoteTargetExists(v) => wrap(
                "remote target `",
                v,
                "` already exists; rerun with --conflict overwrite, --conflict uniquify, or --conflict fail",
            ),
            ThufsError::RemoteTargetNotAFile(v) => wrap("remote target `", v, "` is not a file path"),
            ThufsError::DirectoryEntryMissingName => String::from_str("directory entry missing name"),
            ThufsError::ParallelDownloadUnsupported => String::from_str(
                "parallel download was requested but the remote endpoint does not support ranged download",
            ),
            ThufsError::ParallelDownloadNeedsFreshFile => String::from_str(
                "parallel download was requested but resumable partial files must continue in sequential mode",
            ),
            ThufsError::RangeProbeWithoutLength => String::from_str(
                "range probe did not include total content length",
            ),
            ThufsError::SharedFilenameUnknown => String::from_str(
                "failed to infer shared filename from server response; the share may require a password or may not point to a file",
            ),
            ThufsError::UploadWithoutMetadata => String::from_str(
                "upload response did not include uploaded file metadata",
            ),
            ThufsError::UpdateWithoutMetadata => String::from_str("update response did not include file metadata"),
        }
    }
}

} // verus!

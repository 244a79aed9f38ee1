//! Downloads: what is downloaded (a library file or a public share), where it
//! lands locally, and what happens when a local file is already there.
use vstd::prelude::*;

use crate::config::ConfigManager;
use crate::contract::{RemoteRef, ResolvedRemoteRef};
use crate::error::ThufsError;
use crate::local::{file_name_or, local_filename, next_available_local_path, parent_or_dot, path_file_name, path_join};
use crate::paths::{is_first_free_sibling_among, last_component_seq, remote_filename, string_views};
use crate::seafile::{DownloadAuth, SeafileClient, SharedFileDownload};
use crate::text::to_owned_string;
use crate::transfer::{resolve_conflict_policy, ConflictPolicy};

verus! {

/// What a pull reports.
#[derive(Debug, Clone, PartialEq, Eq)]
pub struct PullResult {
    pub source: String,
    pub repo: String,
    pub requested_local_path: String,
    pub final_local_path: String,
    pub remote_path: String,
    pub remote_name: String,
    pub local_path: String,
    pub local_name: String,
    pub bytes_written: u64,
    pub overwritten: bool,
    pub uniquified: bool,
}

/// A file ready to download: where it comes from, its name, its download link
/// and whether the download needs the token.
#[derive(Debug, Clone, PartialEq, Eq)]
pub struct ResolvedDownloadTarget {
    pub source: String,
    pub repo: String,
    pub remote_path: String,
    pub remote_name: String,
    pub download_link: String,
    pub auth: DownloadAuth,
}

/// Where a download is written, and how an existing local file was dealt with.
#[derive(Debug, Clone, PartialEq, Eq)]
pub struct DestinationPlan {
    pub path: String,
    pub overwritten: bool,
    pub uniquified: bool,
}

/// The download command.
#[derive(Debug, Clone)]
pub struct PullService {
    config: ConfigManager,
    client: SeafileClient,
}

/// The policy in effect: `prompt` falls back to `uniquify`.
pub open spec fn effective_policy(policy: ConflictPolicy) -> ConflictPolicy {
    match policy {
        ConflictPolicy::Prompt => ConflictPolicy::Uniquify,
        p => p,
    }
}

/// The download target of a public shared file: it needs no token.
pub fn share_target(shared: &SharedFileDownload) -> (res: ResolvedDownloadTarget)
    ensures
        res.source@ == "share:"@ + shared.token@,
        res.repo@ == "share"@,
        res.remote_path@ == "/"@ + shared.file_name@,
        res.remote_name@ == shared.file_name@,
        res.download_link@ == shared.download_link@,
        res.auth == DownloadAuth::Optional,
{
    ResolvedDownloadTarget {
        source: String::from_str("share:").concat(shared.token.as_str()),
        repo: String::from_str("share"),
        remote_path: String::from_str("/").concat(shared.file_name.as_str()),
        remote_name: shared.file_name.clone(),
        download_link: shared.download_link.clone(),
        auth: DownloadAuth::Optional,
    }
}

/// The download target of a library file: it needs the token; a remote path that
/// names no file is an error.
pub fn repo_target(resolved: &ResolvedRemoteRef, remote: &RemoteRef, download_link: String) -> (res: Result<
    ResolvedDownloadTarget,
    ThufsError,
>)
    ensures
        last_component_seq(remote.path@).len() > 0 ==> (res matches Ok(t) && {
            &&& t.source@ == "repo:"@ + resolved.repo_name@ + resolved.path@
            &&& t.repo@ == resolved.repo_name@
            &&& t.remote_path@ == resolved.path@
            &&& t.remote_name@ == last_component_seq(remote.path@)
            &&& t.download_link@ == download_link@
            &&& t.auth == DownloadAuth::Required
        }),
        last_component_seq(remote.path@).len() == 0 ==> (res matches Err(ThufsError::RemoteNotAFile(p)) && p@
            == remote.path@),
{
    let name = remote_filename(remote.path.as_str())?;
    Ok(
        ResolvedDownloadTarget {
            source: String::from_str("repo:").concat(resolved.repo_name.as_str()).concat(resolved.path.as_str()),
            repo: resolved.repo_name.clone(),
            remote_path: resolved.path.clone(),
            remote_name: to_owned_string(name),
            download_link,
            auth: DownloadAuth::Required,
        },
    )
}

impl PullService {
    /// The download command, reading its settings from `config` and talking to
    /// the server through `client`.
    pub fn new(config: ConfigManager, client: SeafileClient) -> (res: PullService)
        ensures
            res.config_path() == config.path_view(),
            res.client_config_path() == client.config_path(),
    {
        PullService { config, client }
    }

    /// The configuration file the command reads.
    pub closed spec fn config_path(&self) -> Seq<char> {
        self.config.path_view()
    }

    /// The configuration file the command's client reads.
    pub closed spec fn client_config_path(&self) -> Seq<char> {
        self.client.config_path()
    }

    /// Whether the remote file's name is needed before downloading: no local path
    /// was given, or the given one is a directory.
    pub fn needs_remote_name(&self, local: Option<&str>, local_is_dir: bool) -> (res: bool)
        ensures
            res == (local is None || local_is_dir),
    {
        local.is_none() || local_is_dir
    }

    /// The local path asked for: the given one, else the remote file's name.
    pub fn requested_destination(&self, local: Option<&str>, remote_name: Option<&str>) -> (res: String)
        requires
            local is Some || remote_name is Some,
        ensures
            res@ == match local {
                Some(l) => l@,
                None => remote_name->0@,
            },
    {
        match local {
            Some(l) => to_owned_string(l),
            None => match remote_name {
                Some(n) => to_owned_string(n),
                None => to_owned_string(""),
            },
        }
    }

    /// What to do about the local destination: keep it when nothing is there;
    /// otherwise replace it (`overwrite`), move to its first free `-(n)` sibling
    /// among `taken`, the names in its directory (`uniquify`, also what `prompt`
    /// falls back to), or fail.
    pub fn settle_destination(&self, destination: &str, exists: bool, policy: ConflictPolicy, taken: &Vec<String>) -> (res:
        Result<DestinationPlan, ThufsError>)
        requires
            taken@.len() < u64::MAX,
        ensures
            !exists ==> (res matches Ok(p) && p.path@ == destination@ && !p.overwritten && !p.uniquified),
            exists ==> match effective_policy(policy) {
                ConflictPolicy::Overwrite => res matches Ok(p) && p.path@ == destination@ && p.overwritten
                    && !p.uniquified,
                ConflictPolicy::Uniquify => res matches Ok(p) && !p.overwritten && p.uniquified && exists|
                    name: Seq<char>,
                |
                    is_first_free_sibling_among(file_name_or(destination@, "download"@), string_views(taken@), name)
                        && p.path@ == path_join(parent_or_dot(destination@), name),
                _ => res matches Err(ThufsError::LocalDestinationExists(d)) && d@ == destination@,
            },
    {
        if !exists {
            return Ok(DestinationPlan { path: to_owned_string(destination), overwritten: false, uniquified: false });
        }
        match resolve_conflict_policy(policy) {
            ConflictPolicy::Overwrite => Ok(
                DestinationPlan { path: to_owned_string(destination), overwritten: true, uniquified: false },
            ),
            ConflictPolicy::Uniquify => Ok(
                DestinationPlan {
                    path: next_available_local_path(destination, taken),
                    overwritten: false,
                    uniquified: true,
                },
            ),
            _ => Err(ThufsError::LocalDestinationExists(to_owned_string(destination))),
        }
    }

    /// What a finished pull reports: where the file came from, the requested and
    /// final local paths, and how many bytes were written.
    pub fn result(&self, target: &ResolvedDownloadTarget, requested_local_path: &str, plan: &DestinationPlan, bytes_written: u64) -> (res:
        Result<PullResult, ThufsError>)
        ensures
            match path_file_name(plan.path@) {
                Some(n) => res matches Ok(r) && {
                    &&& r.source@ == target.source@
                    &&& r.repo@ == target.repo@
                    &&& r.remote_path@ == target.remote_path@
                    &&& r.remote_name@ == target.remote_name@
                    &&& r.requested_local_path@ == requested_local_path@
                    &&& r.final_local_path@ == plan.path@
                    &&& r.local_path@ == plan.path@
                    &&& r.local_name@ == n
                    &&& r.bytes_written == bytes_written
                    &&& r.overwritten == plan.overwritten
                    &&& r.uniquified == plan.uniquified
                },
                None => res matches Err(ThufsError::LocalPathInvalidFilename(p)) && p@ == plan.path@,
            },
    {
        let local_name = local_filename(plan.path.as_str())?;
        Ok(
            PullResult {
                source: target.source.clone(),
                repo: target.repo.clone(),
                requested_local_path: to_owned_string(requested_local_path),
                final_local_path: plan.path.clone(),
                remote_path: target.remote_path.clone(),
                remote_name: target.remote_name.clone(),
                local_path: plan.path.clone(),
                local_name,
                bytes_written,
                overwritten: plan.overwritten,
                uniquified: plan.uniquified,
            },
        )
    }
}


impl PullResult {
    /// The line a pull reports: `Downloaded <source> to <local path>`, noting a
    /// uniquified name.
    pub fn summary(&self) -> (res: String)
        ensures
            res@ == "Downloaded "@ + self.source@ + " to "@ + self.local_path@ + (if self.uniquified {
                " (uniquified)"@
            } else {
                ""@
            }),
    {
        let note = if self.uniquified {
            " (uniquified)"
        } else {
            ""
        };
        String::from_str("Downloaded ").concat(self.source.as_str()).concat(" to ").concat(self.local_path.as_str()).concat(
            note,
        )
    }
}

} // verus!

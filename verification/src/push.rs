//! Uploads: where a pushed file goes, and what happens when the remote target
//! already exists.
use vstd::prelude::*;

use crate::config::ConfigManager;
use crate::contract::{opt_str_view, parse_remote_seq, remote_result_view, usable_default, RemoteRef, ResolvedRemoteRef};
use crate::error::ThufsError;
use crate::listing::{DirectoryEntry, EntryKind};
use crate::local::{file_name_of, path_file_name};
use crate::contract::{lemma_split_concat, lemma_split_single, split_seq};
use crate::paths::{last_component_seq, lemma_last_component_after, 
    is_first_free_sibling, join_remote_path, join_remote_path_seq, next_available_name, split_parent_and_name,
    split_parent_and_name_seq,
};
use crate::seafile::SeafileClient;
use crate::text::{
    contains_char, ends_with, has_prefix, has_suffix, last_index_of, strip_prefix, to_owned_string, trim,
    trim_end_char, trim_end_char_seq, trim_seq, trim_start_char, trim_start_char_seq,
};
use crate::transfer::{resolve_conflict_policy, ConflictPolicy};

verus! {

/// What a push reports.
#[derive(Debug, Clone, PartialEq, Eq)]
pub struct PushResult {
    pub repo: String,
    pub requested_remote_path: String,
    pub final_remote_path: String,
    pub remote_path: String,
    pub local_name: String,
    pub local_path: String,
    pub remote_name: String,
    pub size: u64,
    pub overwritten: bool,
    pub uniquified: bool,
}

/// How a file is pushed once the remote directory is known: replaced in place
/// (`overwritten`), or uploaded into `parent_dir` as `target_name`.
#[derive(Debug, Clone, PartialEq, Eq)]
pub struct PushPlan {
    pub parent_dir: String,
    pub target_name: String,
    pub final_remote_path: String,
    pub overwritten: bool,
    pub uniquified: bool,
}

/// The upload command.
#[derive(Debug, Clone)]
pub struct PushService {
    config: ConfigManager,
    client: SeafileClient,
}

/// The remote path of a file named `file_name` pushed into the directory that
/// `target` (which ends with `/`) names.
pub open spec fn directory_target_path(target: Seq<char>, file_name: Seq<char>) -> Seq<char> {
    let base = trim_end_char_seq(target, '/');
    if base.len() == 0 {
        seq!['/'] + file_name
    } else {
        seq!['/'] + trim_start_char_seq(base, '/') + seq!['/'] + file_name
    }
}

/// Where a local file named `file_name` is pushed when the remote argument is
/// `remote`: `repo:<library>` names the library root, a path ending in `/` names
/// a directory of the default library, and anything else is a remote path.
pub open spec fn upload_target_seq(remote: Seq<char>, file_name: Seq<char>, default_repo: Option<Seq<char>>) -> Result<
    (Seq<char>, Seq<char>),
    ThufsError,
> {
    let t = trim_seq(remote);
    if t.len() == 0 {
        Err(ThufsError::EmptyRemotePath)
    } else if has_prefix(t, "repo:"@) {
        let repo = trim_end_char_seq(t.skip(5), '/');
        if repo.len() == 0 || repo.contains('/') {
            parse_remote_seq(remote, default_repo)
        } else {
            Ok((repo, seq!['/'] + file_name))
        }
    } else if has_suffix(t, "/"@) && usable_default(default_repo) {
        Ok((default_repo->0, directory_target_path(t, file_name)))
    } else {
        parse_remote_seq(remote, default_repo)
    }
}

/// The kind of the first entry named `name`, if any.
pub open spec fn named_kind(entries: Seq<DirectoryEntry>, name: Seq<char>) -> Option<EntryKind>
    decreases entries.len(),
{
    if entries.len() == 0 {
        None
    } else if entries[0].name@ == name {
        Some(entries[0].kind)
    } else {
        named_kind(entries.drop_first(), name)
    }
}

/// The error `split_parent_and_name` reports for `path`.
pub open spec fn split_failure(path: Seq<char>, e: ThufsError) -> bool {
    match e {
        ThufsError::RemoteNotAFile(p) => last_index_of(trim_seq(path), '/') is Some && p@ == trim_seq(path),
        ThufsError::RemotePathInvalid(p) => last_index_of(trim_seq(path), '/') is None && p@ == trim_seq(path),
        _ => false,
    }
}

/// The file name of a path; a path without one is an error.
pub fn file_name(path: &str) -> (res: Result<String, ThufsError>)
    ensures
        match path_file_name(path@) {
            Some(n) => res matches Ok(r) && r@ == n,
            None => res matches Err(ThufsError::PathInvalidFilename(p)) && p@ == path@,
        },
{
    match file_name_of(path) {
        Some(name) => Ok(name),
        None => Err(ThufsError::PathInvalidFilename(to_owned_string(path))),
    }
}

/// The remote path of `file_name` inside the directory `target` names.
fn directory_target(target: &str, file_name: &str) -> (res: String)
    ensures
        res@ == directory_target_path(target@, file_name@),
{
    let base = trim_end_char(target, '/');
    proof {
        reveal_strlit("/");
    }
    if base.unicode_len() == 0 {
        String::from_str("/").concat(file_name)
    } else {
        String::from_str("/").concat(trim_start_char(base, '/')).concat("/").concat(file_name)
    }
}

/// Where a local file named `file_name` is pushed for the remote argument
/// `remote` (see `upload_target_seq`).
pub fn upload_target(remote: &str, file_name: &str, default_repo: Option<&str>) -> (res: Result<RemoteRef, ThufsError>)
    ensures
        remote_result_view(res) == upload_target_seq(remote@, file_name@, opt_str_view(default_repo)),
{
    let trimmed = trim(remote);
    if trimmed.unicode_len() == 0 {
        return Err(ThufsError::EmptyRemotePath);
    }
    if let Some(explicit_repo) = strip_prefix(trimmed, "repo:") {
        proof {
            reveal_strlit("repo:");
            reveal_strlit("/");
            assert("/"@ =~= seq!['/']);
            assert(explicit_repo@ == trim_seq(remote@).skip(5));
        }
        let repo = trim_end_char(explicit_repo, '/');
        if repo.unicode_len() == 0 || contains_char(repo, '/') {
            return RemoteRef::parse(remote, default_repo);
        }
        return Ok(RemoteRef { repo: to_owned_string(repo), path: String::from_str("/").concat(file_name) });
    }
    let usable = match default_repo {
        Some(d) => trim(d).unicode_len() > 0,
        None => false,
    };
    if ends_with(trimmed, "/") && usable {
        proof {
            reveal_strlit("/");
        }
        match default_repo {
            Some(d) => {
                return Ok(RemoteRef { repo: to_owned_string(d), path: directory_target(trimmed, file_name) });
            },
            None => {},
        }
    }
    match RemoteRef::parse(remote, default_repo) {
        Ok(parsed) => Ok(parsed),
        Err(e) => {
            if usable {
                match default_repo {
                    Some(d) => {
                        return Ok(RemoteRef { repo: to_owned_string(d), path: directory_target(trimmed, file_name) });
                    },
                    None => {},
                }
            }
            Err(ThufsError::DefaultRepoRequired)
        },
    }
}

/// Where the local file `local` is pushed for the remote argument `remote` (see
/// `upload_target_seq`); a local path without a file name is an error first.
pub fn parse_upload_target(remote: &str, local: &str, default_repo: Option<&str>) -> (res: Result<RemoteRef, ThufsError>)
    ensures
        match path_file_name(local@) {
            Some(f) => remote_result_view(res) == upload_target_seq(remote@, f, opt_str_view(default_repo)),
            None => res matches Err(ThufsError::LocalSourceInvalidFilename(p)) && p@ == local@,
        },
{
    match file_name_of(local) {
        Some(name) => upload_target(remote, name.as_str(), default_repo),
        None => Err(ThufsError::LocalSourceInvalidFilename(to_owned_string(local))),
    }
}

/// The kind of the first entry named `name`, if any.
pub fn entry_kind_named(entries: &[DirectoryEntry], name: &str) -> (res: Option<EntryKind>)
    ensures
        res == named_kind(entries@, name@),
{
    let mut i: usize = 0;
    proof {
        assert(entries@.skip(0) =~= entries@);
    }
    while i < entries.len()
        invariant
            i <= entries@.len(),
            named_kind(entries@, name@) == named_kind(entries@.skip(i as int), name@),
        decreases entries@.len() - i,
    {
        if crate::text::str_eq(entries[i].name.as_str(), name) {
            return Some(entries[i].kind);
        }
        proof {
            assert(entries@.skip(i as int).drop_first() =~= entries@.skip(i + 1));
        }
        i = i + 1;
    }
    None
}

impl PushService {
    /// The upload command, reading its settings from `config` and talking to the
    /// server through `client`.
    pub fn new(config: ConfigManager, client: SeafileClient) -> (res: PushService)
        ensures
            res.config_path() == config.path_view(),
            res.client_config_path() == client.config_path(),
    {
        PushService { config, client }
    }

    /// The configuration file the command reads.
    pub closed spec fn config_path(&self) -> Seq<char> {
        self.config.path_view()
    }

    /// The configuration file the command's client reads.
    pub closed spec fn client_config_path(&self) -> Seq<char> {
        self.client.config_path()
    }

    /// How to push to `remote_path`, given the entries of its directory and the
    /// conflict policy: upload under the requested name when nothing has it;
    /// when a file has it, replace it (`overwrite`), upload under the first free
    /// `-(n)` sibling name (`uniquify`, also what `prompt` falls back to), or fail;
    /// a directory in the way is an error.
    pub fn plan(&self, remote_path: &str, entries: &[DirectoryEntry], policy: ConflictPolicy) -> (res: Result<
        PushPlan,
        ThufsError,
    >)
        requires
            entries@.len() < u64::MAX,
        ensures
            match split_parent_and_name_seq(remote_path@) {
                None => res matches Err(e) && split_failure(remote_path@, e),
                Some((parent, name)) => match named_kind(entries@, name) {
                    None => res matches Ok(p) && {
                        &&& p.parent_dir@ == parent
                        &&& p.target_name@ == name
                        &&& p.final_remote_path@ == remote_path@
                        &&& !p.overwritten && !p.uniquified
                    },
                    Some(EntryKind::Dir) => res matches Err(ThufsError::RemoteTargetNotAFile(t)) && t@
                        == remote_path@,
                    Some(EntryKind::File) => match resolve_policy(policy) {
                        ConflictPolicy::Overwrite => res matches Ok(p) && {
                            &&& p.parent_dir@ == parent
                            &&& p.target_name@ == name
                            &&& p.final_remote_path@ == remote_path@
                            &&& p.overwritten && !p.uniquified
                        },
                        ConflictPolicy::Uniquify => res matches Ok(p) && {
                            &&& p.parent_dir@ == parent
                            &&& is_first_free_sibling(name, entries@, p.target_name@)
                            &&& p.final_remote_path@ == join_remote_path_seq(parent, p.target_name@)
                            &&& !p.overwritten && p.uniquified
                        },
                        _ => res matches Err(ThufsError::RemoteTargetExists(t)) && t@ == remote_path@,
                    },
                },
            },
    {
        let (parent, name) = match split_parent_and_name(remote_path) {
            Ok(pair) => pair,
            Err(e) => {
                return Err(e);
            },
        };
        match entry_kind_named(entries, name) {
            None => Ok(
                PushPlan {
                    parent_dir: to_owned_string(parent),
                    target_name: to_owned_string(name),
                    final_remote_path: to_owned_string(remote_path),
                    overwritten: false,
                    uniquified: false,
                },
            ),
            Some(EntryKind::Dir) => Err(ThufsError::RemoteTargetNotAFile(to_owned_string(remote_path))),
            Some(EntryKind::File) => match resolve_conflict_policy(policy) {
                ConflictPolicy::Overwrite => Ok(
                    PushPlan {
                        parent_dir: to_owned_string(parent),
                        target_name: to_owned_string(name),
                        final_remote_path: to_owned_string(remote_path),
                        overwritten: true,
                        uniquified: false,
                    },
                ),
                ConflictPolicy::Uniquify => {
                    let renamed = next_available_name(name, entries);
                    let final_remote_path = join_remote_path(parent, renamed.as_str());
                    Ok(
                        PushPlan {
                            parent_dir: to_owned_string(parent),
                            target_name: renamed,
                            final_remote_path,
                            overwritten: false,
                            uniquified: true,
                        },
                    )
                },
                _ => Err(ThufsError::RemoteTargetExists(to_owned_string(remote_path))),
            },
        }
    }

    /// What a finished push reports: the library, the requested and final remote
    /// paths, the local file, and the size the server reported (or the local
    /// size when it reported none).
    pub fn result(&self, resolved: &ResolvedRemoteRef, plan: PushPlan, local: &str, uploaded_size: Option<u64>, local_size: u64) -> (res: Result<
        PushResult,
        ThufsError,
    >)
        ensures
            match path_file_name(local@) {
                Some(n) => res matches Ok(r) && {
                    &&& r.repo@ == resolved.repo_name@
                    &&& r.requested_remote_path@ == resolved.path@
                    &&& r.final_remote_path@ == plan.final_remote_path@
                    &&& r.remote_path@ == plan.final_remote_path@
                    &&& r.local_name@ == n
                    &&& r.local_path@ == local@
                    &&& r.remote_name@ == plan.target_name@
                    &&& r.size == match uploaded_size {
                        Some(s) => s,
                        None => local_size,
                    }
                    &&& r.overwritten == plan.overwritten
                    &&& r.uniquified == plan.uniquified
                },
                None => res matches Err(ThufsError::PathInvalidFilename(p)) && p@ == local@,
            },
    {
        let local_name = file_name(local)?;
        Ok(
            PushResult {
                repo: resolved.repo_name.clone(),
                requested_remote_path: resolved.path.clone(),
                final_remote_path: plan.final_remote_path.clone(),
                remote_path: plan.final_remote_path,
                local_name,
                local_path: to_owned_string(local),
                remote_name: plan.target_name,
                size: match uploaded_size {
                    Some(s) => s,
                    None => local_size,
                },
                overwritten: plan.overwritten,
                uniquified: plan.uniquified,
            },
        )
    }
}

/// The policy in effect: `prompt` falls back to `uniquify`.
pub open spec fn resolve_policy(policy: ConflictPolicy) -> ConflictPolicy {
    match policy {
        ConflictPolicy::Prompt => ConflictPolicy::Uniquify,
        p => p,
    }
}


impl PushResult {
    /// The line a push reports: `Uploaded <local> to <library><path> (<how>)`,
    /// where `how` is `uniquified`, `overwritten` or `created`.
    pub fn summary(&self) -> (res: String)
        ensures
            res@ == "Uploaded "@ + self.local_path@ + " to "@ + self.repo@ + self.remote_path@ + " ("@ + (if self.uniquified {
                "uniquified"@
            } else if self.overwritten {
                "overwritten"@
            } else {
                "created"@
            }) + ")"@,
    {
        let how = if self.uniquified {
            "uniquified"
        } else if self.overwritten {
            "overwritten"
        } else {
            "created"
        };
        String::from_str("Uploaded ").concat(self.local_path.as_str()).concat(" to ").concat(self.repo.as_str()).concat(
            self.remote_path.as_str(),
        ).concat(" (").concat(how).concat(")")
    }
}


/// Law: pushing into a directory of the default library (a remote argument that
/// ends in `/`) puts the file inside that directory: the upload path starts at
/// the root, its segments are the directory's segments (the argument without its
/// outer slashes) followed by the file name, and its last component is the file
/// name.
pub proof fn law_directory_upload_lands_inside(remote: Seq<char>, file_name: Seq<char>, default_repo: Option<Seq<char>>)
    requires
        trim_seq(remote).len() > 0,
        !has_prefix(trim_seq(remote), "repo:"@),
        has_suffix(trim_seq(remote), "/"@),
        usable_default(default_repo),
        file_name.len() > 0,
        !file_name.contains('/'),
    ensures
        upload_target_seq(remote, file_name, default_repo) matches Ok((repo, path)) && {
            let dir = trim_start_char_seq(trim_end_char_seq(trim_seq(remote), '/'), '/');
            &&& repo == default_repo->0
            &&& path.len() > 0 && path[0] == '/'
            &&& split_seq(path.skip(1), '/') == if dir.len() == 0 {
                seq![file_name]
            } else {
                split_seq(dir, '/').push(file_name)
            }
            &&& last_component_seq(path) == file_name
        },
{
    let t = trim_seq(remote);
    let base = trim_end_char_seq(t, '/');
    let dir = trim_start_char_seq(base, '/');
    let path = directory_target_path(t, file_name);
    lemma_split_single(file_name, '/');
    if base.len() == 0 {
        assert(path =~= Seq::<char>::empty().push('/') + file_name);
        assert(path.skip(1) =~= file_name);
        lemma_last_component_after(Seq::<char>::empty(), file_name);
        assert(trim_start_char_seq(base, '/') =~= base);
    } else {
        assert(path =~= (seq!['/'] + dir).push('/') + file_name);
        assert(path.skip(1) =~= dir.push('/') + file_name);
        lemma_split_concat(dir, file_name, '/');
        lemma_last_component_after(seq!['/'] + dir, file_name);
        lemma_trim_end_char_last(t, '/');
        lemma_trim_start_char_keeps_last(base, '/');
        assert(split_seq(dir, '/') + seq![file_name] =~= split_seq(dir, '/').push(file_name));
    }
}

/// Proof that trimming a character from the end leaves a text that does not end
/// with it.
proof fn lemma_trim_end_char_last(s: Seq<char>, c: char)
    ensures
        trim_end_char_seq(s, c).len() > 0 ==> trim_end_char_seq(s, c).last() != c,
    decreases s.len(),
{
    if s.len() > 0 && s.last() == c {
        lemma_trim_end_char_last(s.drop_last(), c);
    }
}

/// Proof that trimming a character from the start of a non-empty text that does
/// not end with it leaves a non-empty text.
proof fn lemma_trim_start_char_keeps_last(s: Seq<char>, c: char)
    requires
        s.len() > 0,
        s.last() != c,
    ensures
        trim_start_char_seq(s, c).len() > 0,
    decreases s.len(),
{
    if s[0] == c {
        assert(s.len() > 1);
        assert(s.drop_first().last() == s.last());
        lemma_trim_start_char_keeps_last(s.drop_first(), c);
    }
}

} // verus!

//! Creating libraries and directories: an existing library of the same name is
//! reused rather than created again.
use vstd::prelude::*;

use crate::config::ConfigManager;
use crate::contract::RemoteRef;
use crate::seafile::{first_named, first_repository_named, Repository, SeafileClient};

verus! {

/// What `mkrepo` reports.
#[derive(Debug, Clone, PartialEq, Eq)]
pub struct CreateRepoResult {
    pub repo: String,
    pub repo_id: String,
    pub created: bool,
}

/// What `mkdir` reports.
#[derive(Debug, Clone, PartialEq, Eq)]
pub struct CreateDirResult {
    pub repo: String,
    pub path: String,
    pub created: bool,
}

/// The commands that create libraries and directories.
#[derive(Debug, Clone)]
pub struct CreateService {
    config: ConfigManager,
    client: SeafileClient,
}

impl CreateService {
    /// The create commands, reading settings from `config` and talking to the
    /// server through `client`.
    pub fn new(config: ConfigManager, client: SeafileClient) -> (res: CreateService)
        ensures
            res.config_path() == config.path_view(),
            res.client_config_path() == client.config_path(),
    {
        CreateService { config, client }
    }

    /// The configuration file the commands read.
    pub closed spec fn config_path(&self) -> Seq<char> {
        self.config.path_view()
    }

    /// The configuration file the commands' client reads.
    pub closed spec fn client_config_path(&self) -> Seq<char> {
        self.client.config_path()
    }

    /// The report for `mkrepo name` when a library of that name exists already:
    /// the first such library, not created; `None` when the library must be created.
    pub fn existing_repo(&self, name: &str, repos: &[Repository]) -> (res: Option<CreateRepoResult>)
        ensures
            match first_named(repos@, name@) {
                Some(r) => res matches Some(c) && c.repo@ == r.name@ && c.repo_id@ == r.id@ && !c.created,
                None => res is None,
            },
    {
        match first_repository_named(repos, name) {
            Some(r) => Some(CreateRepoResult { repo: r.name.clone(), repo_id: r.id.clone(), created: false }),
            None => None,
        }
    }

    /// The report for a library the server just created.
    pub fn created_repo(&self, repo: &Repository) -> (res: CreateRepoResult)
        ensures
            res.repo@ == repo.name@,
            res.repo_id@ == repo.id@,
            res.created,
    {
        CreateRepoResult { repo: repo.name.clone(), repo_id: repo.id.clone(), created: true }
    }

    /// The report for `mkdir` once the directory exists in `repo`.
    pub fn dir_result(&self, repo: &Repository, remote: &RemoteRef) -> (res: CreateDirResult)
        ensures
            res.repo@ == repo.name@,
            res.path@ == remote.path@,
            res.created,
    {
        CreateDirResult { repo: repo.name.clone(), path: remote.path.clone(), created: true }
    }
}


impl CreateRepoResult {
    /// The line `mkrepo` reports: `Created repo` or `Repo already exists`, then
    /// the library's name and id separated by a tab.
    pub fn summary(&self) -> (res: String)
        ensures
            res@ == (if self.created {
                "Created repo "@
            } else {
                "Repo already exists "@
            }) + self.repo@ + "\t"@ + self.repo_id@,
    {
        let head = if self.created {
            "Created repo "
        } else {
            "Repo already exists "
        };
        String::from_str(head).concat(self.repo.as_str()).concat("\t").concat(self.repo_id.as_str())
    }
}

impl CreateDirResult {
    /// The line `mkdir` reports: `Created <library><path>`.
    pub fn summary(&self) -> (res: String)
        ensures
            res@ == "Created "@ + self.repo@ + self.path@,
    {
        String::from_str("Created ").concat(self.repo.as_str()).concat(self.path.as_str())
    }
}

} // verus!

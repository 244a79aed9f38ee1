use thufs::account::{AccountInfoResult, AccountService, RepoItem, RepoListResult};
use thufs::auth::{AuthService, ConfigInspection, TokenSetResult};
use thufs::config::{Config, ConfigManager, EnvironmentOverrides, OutputMode};
use thufs::contract::{RemoteRef, ResolvedRemoteRef};
use thufs::create::CreateService;
use thufs::error::ThufsError;
use thufs::listing::{DirectoryEntry, EntryKind, ListItem, ListResult, ListService};
use thufs::local::{
    local_filename, next_available_local_path, part_download_path, resolve_local_destination, temporary_download_path,
};
use thufs::paths::{join_remote_path, next_available_name, remote_filename, split_filename, split_parent_and_name};
use thufs::pull::{repo_target, PullService};
use thufs::headers::percent_decoded_bytes;
use thufs::local::{part_name, temporary_name};
use thufs::push::{file_name, parse_upload_target, upload_target, PushPlan, PushService};
use thufs::seafile::{
    first_repository_named, first_uploaded, needs_directory_creation, repo_endpoint_url, upload_content_range,
    upload_disposition, upload_request_url, upload_start, AccountInfo, DownloadAuth, RepoEndpoint, Repository,
    SeafileClient, UploadedFile,
};
use thufs::transfer::ConflictPolicy;

fn manager() -> ConfigManager {
    ConfigManager::from_path("config.json".to_string())
}

fn client() -> SeafileClient {
    SeafileClient::new(manager())
}

fn repo(id: &str, name: &str) -> Repository {
    Repository {
        id: id.to_string(),
        name: name.to_string(),
        mtime: None,
    }
}

fn entry(name: &str, kind: EntryKind) -> DirectoryEntry {
    DirectoryEntry {
        name: name.to_string(),
        path: format!("/{name}"),
        kind,
        size: Some(1),
        updated_at: None,
    }
}

#[test]
fn formats_account_info_for_humans() {
    let rendered = AccountService::format_account_info(&AccountInfoResult {
        login_id: Some("user-1".to_string()),
        name: Some("Alice".to_string()),
        email: "alice@example.com".to_string(),
        contact_email: None,
        is_staff: Some(false),
        usage: Some(10),
        total: Some(20),
        space_usage: Some("50%".to_string()),
        institution: None,
        department: Some("CS".to_string()),
    });

    assert!(rendered.contains("Login ID: user-1"));
    assert!(rendered.contains("Email: alice@example.com"));
    assert!(rendered.contains("Usage: 10/20 (50%)"));
}

#[test]
fn account_info_lines_cover_every_field() {
    let service = AccountService::new(client());
    let info = service.account_info(AccountInfo {
        login_id: None,
        is_staff: None,
        name: None,
        email: "e@x".to_string(),
        contact_email: Some("c@x".to_string()),
        institution: Some("THU".to_string()),
        department: None,
        space_usage: None,
        usage: Some(7),
        total: None,
    });
    assert_eq!(
        AccountService::format_account_info(&info),
        "Login ID: not set\nName: not set\nEmail: e@x\nContact email: c@x\nInstitution: THU\nDepartment: not set\nStaff: unknown\nUsage: 7"
    );
}

#[test]
fn formats_repository_list_for_humans() {
    let rendered = AccountService::format_repositories(&RepoListResult {
        repos: vec![RepoItem {
            id: "repo-1".to_string(),
            name: "course-lib".to_string(),
        }],
    });

    assert_eq!(rendered, "course-lib\trepo-1");
}

#[test]
fn empty_repository_list_has_stable_human_output() {
    let rendered = AccountService::format_repositories(&RepoListResult { repos: vec![] });
    assert_eq!(rendered, "No repositories found");
}

#[test]
fn repositories_are_sorted_by_name_then_id() {
    let service = AccountService::new(client());
    let result = service.repositories(vec![
        repo("b", "zeta"),
        repo("2", "alpha"),
        repo("1", "alpha"),
        repo("x", "Beta"),
        repo("y", "é"),
    ]);
    let pairs: Vec<(String, String)> = result.repos.iter().map(|r| (r.name.clone(), r.id.clone())).collect();
    assert_eq!(
        pairs,
        vec![
            ("Beta".to_string(), "x".to_string()),
            ("alpha".to_string(), "1".to_string()),
            ("alpha".to_string(), "2".to_string()),
            ("zeta".to_string(), "b".to_string()),
            ("é".to_string(), "y".to_string()),
        ]
    );
}

#[test]
fn inspection_redacts_token_and_reports_overrides() {
    let manager = manager();
    let file = Config {
        token: Some("file-token-value".to_string()),
        default_repo: Some("repo-a".to_string()),
        output: OutputMode::Human,
    };

    let resolved = manager.resolve_with_overrides(
        file.clone(),
        EnvironmentOverrides {
            token: Some("env-token-value".to_string()),
            default_repo: None,
            output: Some(OutputMode::Json),
        },
    );

    assert_eq!(resolved.0.output, OutputMode::Json);
    assert_eq!(resolved.1.active_keys(), vec!["THUFS_TOKEN", "THUFS_OUTPUT"]);

    let service = AuthService::new(manager.clone());
    let (stored, report) = service.set_token(file, "file-token-value");
    assert_eq!(report.token, "fi...ue");
    assert_eq!(report.config_path, "config.json");

    let inspection = service.inspect(stored, EnvironmentOverrides::default());

    assert_eq!(inspection.token, "fi...ue");
    assert_eq!(inspection.default_repo, Some("repo-a".to_string()));
    assert_eq!(inspection.output, "human");
    assert!(inspection.environment_overrides.is_empty());
}

#[test]
fn inspection_without_token_says_not_set() {
    let service = AuthService::new(manager());
    let inspection = service.inspect(Config::default(), EnvironmentOverrides::default());
    assert_eq!(inspection.token, "not set");
}

#[test]
fn list_result_resolves_default_repo_shorthand() {
    let service = ListService::new(client());

    let result = service
        .list_with_repositories(
            "slides",
            Some("course-lib"),
            &[repo("repo-1", "course-lib")],
            &[DirectoryEntry {
                name: "week1.pdf".to_string(),
                path: "/slides/week1.pdf".to_string(),
                kind: EntryKind::File,
                size: Some(42),
                updated_at: None,
            }],
        )
        .expect("list");

    assert_eq!(result.repo, "course-lib");
    assert_eq!(result.path, "/slides");
    assert_eq!(result.items.len(), 1);
    assert_eq!(result.items[0].kind, "file");
}

#[test]
fn list_result_accepts_repo_root_without_default_repo() {
    let service = ListService::new(client());

    let result = service
        .list_with_repositories(
            "course-lib",
            None,
            &[repo("repo-1", "course-lib")],
            &[DirectoryEntry {
                name: "slides".to_string(),
                path: "/slides".to_string(),
                kind: EntryKind::Dir,
                size: None,
                updated_at: None,
            }],
        )
        .expect("list");

    assert_eq!(result.repo, "course-lib");
    assert_eq!(result.path, "/");
    assert_eq!(result.items[0].kind, "dir");
}

#[test]
fn listing_an_unknown_library_fails() {
    let service = ListService::new(client());
    let err = service
        .list_with_repositories("repo:nope/x", None, &[repo("1", "course-lib")], &[])
        .expect_err("should fail");
    assert_eq!(err, ThufsError::RepositoryNotFound("nope".to_string()));
}

#[test]
fn human_render_distinguishes_files_and_directories() {
    let rendered = ListService::format_human(&ListResult {
        repo: "course-lib".to_string(),
        path: "/slides".to_string(),
        items: vec![
            ListItem {
                name: "week1".to_string(),
                path: "/slides/week1".to_string(),
                kind: "dir".to_string(),
                size: None,
            },
            ListItem {
                name: "week1.pdf".to_string(),
                path: "/slides/week1.pdf".to_string(),
                kind: "file".to_string(),
                size: Some(42),
            },
        ],
    });

    assert!(rendered.contains("d /slides/week1"));
    assert!(rendered.contains("f /slides/week1.pdf 42"));
    assert_eq!(rendered, "course-lib/slides\nd /slides/week1\nf /slides/week1.pdf 42 B");
}

#[test]
fn resolves_repo_name_to_repo_id() {
    let client = client();
    let remote = RemoteRef::parse("repo:course-lib/slides/week1.pdf", None).expect("parse");
    let resolved = client
        .resolve_remote_ref(&remote, &[repo("repo-id-1", "course-lib")])
        .expect("resolve");

    assert_eq!(resolved.repo_name, "course-lib");
    assert_eq!(resolved.repo_id, "repo-id-1");
    assert_eq!(resolved.path, "/slides/week1.pdf");
}

#[test]
fn missing_repository_fails_explicitly() {
    let client = client();
    let err = client.find_repository("missing", &[]).expect_err("should fail");
    assert!(err.message().contains("was not found"));
}

#[test]
fn duplicate_repository_names_fail_explicitly() {
    let client = client();
    let err = client
        .find_repository("dup", &[repo("1", "dup"), repo("2", "dup")])
        .expect_err("should fail");
    assert!(err.message().contains("ambiguous"));
}

#[test]
fn builds_token_authorization_header() {
    let client = client();
    let config = Config {
        token: Some("test-token".to_string()),
        default_repo: Some("course-lib".to_string()),
        output: OutputMode::Human,
    };
    let header = client.auth_header_value(&config).expect("header");
    assert_eq!(header, "Token test-token");
    assert_eq!(
        client.auth_header_value(&Config::default()),
        Err(ThufsError::NoTokenConfigured)
    );
    assert_eq!(client.download_auth_header(&Config::default(), DownloadAuth::Optional), Ok(None));
}

#[test]
fn split_filename_preserves_extension() {
    assert_eq!(split_filename("report.pdf"), ("report", "pdf"));
    assert_eq!(split_filename("archive"), ("archive", ""));
    assert_eq!(split_filename(".bashrc"), (".bashrc", ""));
    assert_eq!(split_filename("a.tar.gz"), ("a.tar", "gz"));
}

#[test]
fn next_available_name_uses_dash_number_pattern() {
    let entries = vec![DirectoryEntry {
        name: "report.pdf".to_string(),
        path: "/report.pdf".to_string(),
        kind: EntryKind::File,
        size: Some(1),
        updated_at: None,
    }];

    let renamed = next_available_name("report.pdf", &entries);
    assert_eq!(renamed, "report-(1).pdf");
}

#[test]
fn next_available_name_skips_taken_siblings() {
    let entries = vec![
        entry("notes", EntryKind::File),
        entry("notes-(1)", EntryKind::File),
        entry("notes-(2)", EntryKind::Dir),
    ];
    assert_eq!(next_available_name("notes", &entries), "notes-(3)");
}

#[test]
fn upload_target_can_use_repo_root_and_local_filename() {
    let remote = parse_upload_target("repo:course-lib", "report.pdf", None).expect("parse");

    assert_eq!(remote.repo, "course-lib");
    assert_eq!(remote.path, "/report.pdf");
}

#[test]
fn upload_target_can_use_default_repo_directory_and_local_filename() {
    let remote = parse_upload_target("submissions/", "report.pdf", Some("course-lib")).expect("parse");

    assert_eq!(remote.repo, "course-lib");
    assert_eq!(remote.path, "/submissions/report.pdf");
}

#[test]
fn upload_target_other_forms() {
    let explicit = parse_upload_target("repo:course-lib/sub/r.pdf", "/tmp/report.pdf", None).expect("parse");
    assert_eq!((explicit.repo.as_str(), explicit.path.as_str()), ("course-lib", "/sub/r.pdf"));
    let root = parse_upload_target("/", "dir/report.pdf", Some("lib")).expect("parse");
    assert_eq!((root.repo.as_str(), root.path.as_str()), ("lib", "/report.pdf"));
    assert_eq!(
        parse_upload_target("notes/", "report.pdf", None),
        Err(ThufsError::DefaultRepoRequired)
    );
    assert_eq!(parse_upload_target("  ", "report.pdf", None), Err(ThufsError::EmptyRemotePath));
    assert_eq!(
        parse_upload_target("repo:lib", "..", None),
        Err(ThufsError::LocalSourceInvalidFilename("..".to_string()))
    );
    assert_eq!(file_name("/a/b.txt"), Ok("b.txt".to_string()));
    assert_eq!(file_name("/"), Err(ThufsError::PathInvalidFilename("/".to_string())));
}

#[test]
fn push_plans_follow_the_conflict_policy() {
    let service = PushService::new(manager(), client());
    let entries = vec![entry("report.pdf", EntryKind::File), entry("docs", EntryKind::Dir)];
    let fresh = service.plan("/sub/new.pdf", &entries, ConflictPolicy::Fail).expect("plan");
    assert_eq!(
        fresh,
        PushPlan {
            parent_dir: "/sub".to_string(),
            target_name: "new.pdf".to_string(),
            final_remote_path: "/sub/new.pdf".to_string(),
            overwritten: false,
            uniquified: false,
        }
    );
    let replaced = service.plan("/report.pdf", &entries, ConflictPolicy::Overwrite).expect("plan");
    assert!(replaced.overwritten);
    assert_eq!(replaced.final_remote_path, "/report.pdf");
    let renamed = service.plan("/report.pdf", &entries, ConflictPolicy::Prompt).expect("plan");
    assert!(renamed.uniquified);
    assert_eq!(renamed.target_name, "report-(1).pdf");
    assert_eq!(renamed.final_remote_path, "/report-(1).pdf");
    assert_eq!(
        service.plan("/report.pdf", &entries, ConflictPolicy::Fail),
        Err(ThufsError::RemoteTargetExists("/report.pdf".to_string()))
    );
    assert_eq!(
        service.plan("/docs", &entries, ConflictPolicy::Overwrite),
        Err(ThufsError::RemoteTargetNotAFile("/docs".to_string()))
    );
    assert_eq!(
        service.plan("/sub/", &entries, ConflictPolicy::Fail),
        Err(ThufsError::RemoteNotAFile("/sub/".to_string()))
    );

    let resolved = ResolvedRemoteRef::new("lib".to_string(), "id".to_string(), "/report.pdf".to_string());
    let result = service.result(&resolved, renamed, "local/report.pdf", None, 99).expect("result");
    assert_eq!(result.requested_remote_path, "/report.pdf");
    assert_eq!(result.final_remote_path, "/report-(1).pdf");
    assert_eq!(result.local_name, "report.pdf");
    assert_eq!(result.size, 99);
}

#[test]
fn split_then_join_gives_the_path_back() {
    for path in ["/a/b.txt", "/b.txt", " /x/y/z.md "] {
        let (parent, name) = split_parent_and_name(path).expect("split");
        assert_eq!(join_remote_path(parent, name), path.trim());
    }
    assert_eq!(split_parent_and_name("plain"), Err(ThufsError::RemotePathInvalid("plain".to_string())));
    assert_eq!(remote_filename("/a/"), Err(ThufsError::RemoteNotAFile("/a/".to_string())));
}

#[test]
fn existing_directory_destination_uses_remote_filename() {
    let destination = resolve_local_destination("downloads", "/slides/week1.pdf", true).expect("resolve");
    assert!(destination.ends_with("week1.pdf"));
    assert_eq!(resolve_local_destination("x.pdf", "/slides/week1.pdf", false), Ok("x.pdf".to_string()));
}

#[test]
fn rename_strategy_picks_unique_local_name() {
    let taken = vec!["week1.pdf".to_string()];
    let renamed = next_available_local_path("downloads/week1.pdf", &taken);
    assert!(renamed.ends_with("week1-(1).pdf"));
    assert_eq!(
        std::path::Path::new(&renamed),
        std::path::Path::new("downloads").join("week1-(1).pdf")
    );
}

#[test]
fn local_helper_paths() {
    let temp = temporary_download_path("downloads/week1.pdf").expect("temp");
    assert_eq!(
        std::path::Path::new(&temp),
        std::path::Path::new("downloads").join(".week1.pdf.thufs-part")
    );
    assert_eq!(
        temporary_download_path(""),
        Err(ThufsError::DestinationWithoutParent(String::new()))
    );
    assert_eq!(
        temporary_download_path("/"),
        Err(ThufsError::DestinationWithoutParent("/".to_string()))
    );
    let part = part_download_path("downloads/week1.pdf", 3);
    assert_eq!(
        std::path::Path::new(&part),
        std::path::Path::new("downloads").join(".week1.pdf.part-3.thufs-part")
    );
    assert_eq!(local_filename("a/b.txt"), Ok("b.txt".to_string()));
    assert_eq!(
        local_filename("a/.."),
        Err(ThufsError::LocalPathInvalidFilename("a/..".to_string()))
    );
}

#[test]
fn pull_destinations_follow_the_conflict_policy() {
    let service = PullService::new(manager(), client());
    assert!(service.needs_remote_name(None, false));
    assert!(service.needs_remote_name(Some("dir"), true));
    assert!(!service.needs_remote_name(Some("x.pdf"), false));
    assert_eq!(service.requested_destination(None, Some("week1.pdf")), "week1.pdf");
    let taken = vec!["week1.pdf".to_string(), "week1-(1).pdf".to_string()];
    let fresh = service
        .settle_destination("d/week1.pdf", false, ConflictPolicy::Fail, &taken)
        .expect("fresh");
    assert_eq!(fresh.path, "d/week1.pdf");
    let over = service
        .settle_destination("d/week1.pdf", true, ConflictPolicy::Overwrite, &taken)
        .expect("overwrite");
    assert!(over.overwritten);
    let renamed = service
        .settle_destination("d/week1.pdf", true, ConflictPolicy::Uniquify, &taken)
        .expect("uniquify");
    assert!(renamed.uniquified);
    assert!(renamed.path.ends_with("week1-(2).pdf"));
    assert_eq!(
        service.settle_destination("d/week1.pdf", true, ConflictPolicy::Fail, &taken),
        Err(ThufsError::LocalDestinationExists("d/week1.pdf".to_string()))
    );

    let resolved = ResolvedRemoteRef::new("course-lib".to_string(), "id".to_string(), "/slides/week1.pdf".to_string());
    let remote = RemoteRef::parse("repo:course-lib/slides/week1.pdf", None).expect("parse");
    let target = repo_target(&resolved, &remote, "https://example/dl".to_string()).expect("target");
    assert_eq!(target.source, "repo:course-lib/slides/week1.pdf");
    assert_eq!(target.remote_name, "week1.pdf");
    assert_eq!(target.auth, DownloadAuth::Required);
    let result = service.result(&target, "d/week1.pdf", &renamed, 7).expect("result");
    assert_eq!(result.requested_local_path, "d/week1.pdf");
    assert_eq!(result.local_name, "week1-(2).pdf");
    assert_eq!(result.bytes_written, 7);
}

#[test]
fn libraries_and_uploads() {
    let repos = vec![repo("1", "a"), repo("2", "b"), repo("3", "b")];
    assert_eq!(first_repository_named(&repos, "b").map(|r| r.id.as_str()), Some("2"));
    assert!(first_repository_named(&repos, "c").is_none());
    let create = CreateService::new(manager(), client());
    let existing = create.existing_repo("b", &repos).expect("exists");
    assert_eq!((existing.repo_id.as_str(), existing.created), ("2", false));
    assert!(create.existing_repo("c", &repos).is_none());
    assert!(create.created_repo(&repo("9", "c")).created);
    assert!(!needs_directory_creation("/"));
    assert!(!needs_directory_creation("  "));
    assert!(needs_directory_creation("/a"));
    assert_eq!(upload_start(10, 4), 4);
    assert_eq!(upload_start(3, 4), 3);
    assert_eq!(upload_content_range(3, 10), "bytes 3-9/10");
    assert_eq!(upload_content_range(0, 0), "bytes 0-0/0");
    assert_eq!(upload_disposition("a.txt"), "attachment; filename=\"a.txt\"");
    assert_eq!(upload_request_url("https://u/x"), "https://u/x?ret-json=1");
    assert_eq!(
        repo_endpoint_url(RepoEndpoint::DirDetail, "r1"),
        "https://cloud.tsinghua.edu.cn/api/v2.1/repos/r1/dir/detail/"
    );
    let file = UploadedFile {
        name: "a".to_string(),
        id: None,
        size: Some(3),
    };
    assert_eq!(first_uploaded(vec![file.clone()], false), Ok(file));
    assert_eq!(first_uploaded(vec![], true), Err(ThufsError::UpdateWithoutMetadata));
}

#[test]
fn upload_targets_for_a_known_file_name() {
    let explicit = upload_target("repo:lib/", "r.pdf", None).expect("target");
    assert_eq!((explicit.repo.as_str(), explicit.path.as_str()), ("lib", "/r.pdf"));
    let nested = upload_target("repo:lib/a/b/", "r.pdf", None).expect("target");
    assert_eq!((nested.repo.as_str(), nested.path.as_str()), ("lib", "/a/b"));
    let directory = upload_target("//in//", "r.pdf", Some("lib")).expect("target");
    assert_eq!(directory.path, "/in/r.pdf");
    let plain = upload_target("a/./b.pdf", "r.pdf", Some("lib")).expect("target");
    assert_eq!(plain.path, "/a/b.pdf");
}

#[test]
fn hidden_download_file_names() {
    assert_eq!(temporary_name("week1.pdf"), ".week1.pdf.thufs-part");
    assert_eq!(part_name("week1.pdf", 12), ".week1.pdf.part-12.thufs-part");
    assert_eq!(percent_decoded_bytes("a%20b+c%zz"), b"a b c%zz".to_vec());
}

#[test]
fn result_summaries_for_humans() {
    let token = TokenSetResult {
        config_path: "/c/config.json".to_string(),
        token: "sa...ue".to_string(),
    };
    assert_eq!(token.summary(), "Stored token sa...ue in /c/config.json");
    let inspection = ConfigInspection {
        config_path: "/c/config.json".to_string(),
        token: "not set".to_string(),
        default_repo: None,
        output: "json".to_string(),
        environment_overrides: vec!["THUFS_TOKEN".to_string(), "THUFS_OUTPUT".to_string()],
    };
    assert_eq!(
        inspection.summary(),
        "Config file: /c/config.json\nToken: not set\nDefault repo: not set\nOutput: json\nEnvironment overrides: THUFS_TOKEN, THUFS_OUTPUT"
    );
}

#[test]
fn transfer_summaries_for_humans() {
    let service = PushService::new(manager(), client());
    let entries = vec![entry("r.pdf", EntryKind::File)];
    let plan = service.plan("/r.pdf", &entries, ConflictPolicy::Uniquify).expect("plan");
    let resolved = ResolvedRemoteRef::new("lib".to_string(), "id".to_string(), "/r.pdf".to_string());
    let pushed = service.result(&resolved, plan, "r.pdf", Some(5), 5).expect("result");
    assert_eq!(pushed.summary(), "Uploaded r.pdf to lib/r-(1).pdf (uniquified)");

    let create = CreateService::new(manager(), client());
    assert_eq!(create.created_repo(&repo("9", "c")).summary(), "Created repo c\t9");
    let remote = RemoteRef::parse("repo:c/a/b", None).expect("parse");
    assert_eq!(create.dir_result(&repo("9", "c"), &remote).summary(), "Created c/a/b");
}

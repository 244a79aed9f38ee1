use thufs::config::{Config, ConfigManager, EnvironmentOverrides, OutputMode};
use thufs::contract::{normalize_remote_path, RemoteRef};
use thufs::error::ThufsError;

#[test]
fn explicit_remote_paths_work_without_default_repo() {
    let remote = RemoteRef::parse("repo:course-lib/slides/week1.pdf", None).expect("parse");

    assert_eq!(remote.repo, "course-lib");
    assert_eq!(remote.path, "/slides/week1.pdf");
}

#[test]
fn shorthand_paths_require_default_repo() {
    let remote = RemoteRef::parse("notes/todo.md", Some("default-lib")).expect("parse");

    assert_eq!(remote.repo, "default-lib");
    assert_eq!(remote.path, "/notes/todo.md");
}

#[test]
fn shorthand_paths_fail_without_default_repo() {
    let err = RemoteRef::parse("notes/todo.md", None).expect_err("should fail");
    assert!(
        err.message().contains("remote path must use repo:"),
        "unexpected error: {}",
        err.message()
    );
}

#[test]
fn normalizes_redundant_path_segments() {
    let remote = RemoteRef::parse("repo:course-lib//slides/./week1.pdf", None).expect("parse");
    assert_eq!(remote.path, "/slides/week1.pdf");
}

#[test]
fn list_target_accepts_repo_root_without_default_repo() {
    let remote = RemoteRef::parse_list_target("course-lib", None).expect("parse");
    assert_eq!(remote.repo, "course-lib");
    assert_eq!(remote.path, "/");
}

#[test]
fn list_target_accepts_explicit_repo_root() {
    let remote = RemoteRef::parse_list_target("repo:course-lib", None).expect("parse");
    assert_eq!(remote.repo, "course-lib");
    assert_eq!(remote.path, "/");
}

#[test]
fn rejects_unknown_output_modes() {
    let err = "yaml".parse::<OutputMode>().expect_err("should fail");
    assert!(
        err.message().contains("unsupported output mode"),
        "unexpected error: {}",
        err.message()
    );
}

#[test]
fn resolve_prefers_environment_over_file_values() {
    let manager = ConfigManager::from_path("config.json".to_string());
    let file = Config {
        token: Some("file-token".to_string()),
        default_repo: Some("file-repo".to_string()),
        output: OutputMode::Human,
    };

    let (resolved, overrides) = manager.resolve_with_overrides(
        file,
        EnvironmentOverrides {
            token: Some("env-token".to_string()),
            default_repo: Some("env-repo".to_string()),
            output: Some(OutputMode::Json),
        },
    );

    assert_eq!(resolved.token.as_deref(), Some("env-token"));
    assert_eq!(resolved.default_repo.as_deref(), Some("env-repo"));
    assert_eq!(resolved.output, OutputMode::Json);
    assert_eq!(
        overrides.active_keys(),
        vec!["THUFS_TOKEN", "THUFS_DEFAULT_REPO", "THUFS_OUTPUT"]
    );
}

#[test]
fn resolve_falls_back_to_file_values_when_env_is_missing() {
    let manager = ConfigManager::from_path("config.json".to_string());
    let file = Config {
        token: Some("file-token".to_string()),
        default_repo: Some("file-repo".to_string()),
        output: OutputMode::Human,
    };

    let (resolved, overrides) = manager.resolve_with_overrides(file, EnvironmentOverrides::default());

    assert_eq!(resolved.token.as_deref(), Some("file-token"));
    assert_eq!(resolved.default_repo.as_deref(), Some("file-repo"));
    assert_eq!(resolved.output, OutputMode::Human);
    assert!(overrides.active_keys().is_empty());
}

#[test]
fn raw_environment_values_are_trimmed_and_checked() {
    let manager = ConfigManager::from_path("config.json".to_string());
    let (resolved, overrides) = manager
        .resolve(Config::default(), None, Some("env-repo".to_string()), Some("  json \n"))
        .expect("resolve");
    assert_eq!(resolved.output, OutputMode::Json);
    assert_eq!(resolved.default_repo.as_deref(), Some("env-repo"));
    assert_eq!(overrides.active_keys(), vec!["THUFS_DEFAULT_REPO", "THUFS_OUTPUT"]);

    let err = manager
        .load_resolved(Config::default(), None, None, Some(" Yaml "))
        .expect_err("should fail");
    assert_eq!(err, ThufsError::UnsupportedOutputMode("Yaml".to_string()));
    assert_eq!(err.message(), "unsupported output mode: Yaml");
}

#[test]
fn output_mode_keywords_read_back() {
    for mode in [OutputMode::Human, OutputMode::Json] {
        assert_eq!(OutputMode::parse(mode.as_str()), Ok(mode));
    }
    assert_eq!(OutputMode::default(), OutputMode::Human);
    assert_eq!("json".parse::<OutputMode>(), Ok(OutputMode::Json));
}

#[test]
fn stored_token_is_read_back_unless_overridden() {
    let manager = ConfigManager::from_path("config.json".to_string());
    let file = Config {
        token: Some("old".to_string()),
        default_repo: Some("repo-a".to_string()),
        output: OutputMode::Json,
    };
    let stored = manager.set_token(file, "new-token");
    assert_eq!(stored.token.as_deref(), Some("new-token"));
    assert_eq!(stored.default_repo.as_deref(), Some("repo-a"));
    assert_eq!(stored.output, OutputMode::Json);

    let (resolved, _) = manager.resolve_with_overrides(stored.clone(), EnvironmentOverrides::default());
    assert_eq!(resolved.token.as_deref(), Some("new-token"));

    let overrides = EnvironmentOverrides {
        token: Some("env".to_string()),
        default_repo: None,
        output: None,
    };
    let (resolved, _) = manager.resolve_with_overrides(stored, overrides);
    assert_eq!(resolved.token.as_deref(), Some("env"));
}

#[test]
fn explicit_form_ignores_the_default_library() {
    let with_default = RemoteRef::parse("repo:lib/a/b.txt", Some("other")).expect("parse");
    let without = RemoteRef::parse("repo:lib/a/b.txt", None).expect("parse");
    assert_eq!(with_default, without);
}

#[test]
fn normalizing_twice_changes_nothing() {
    let once = normalize_remote_path("//a/./b//c/");
    assert_eq!(once, "/a/b/c");
    assert_eq!(normalize_remote_path(&once), once);
}

#[test]
fn remote_path_errors_are_reported() {
    assert_eq!(RemoteRef::parse("   ", None), Err(ThufsError::EmptyRemotePath));
    assert_eq!(RemoteRef::parse("repo:/x", None), Err(ThufsError::MissingRepoName));
    assert_eq!(
        RemoteRef::parse("repo:lib/", None),
        Err(ThufsError::MissingRemoteFilePath)
    );
    assert_eq!(
        RemoteRef::parse("notes", Some("  ")),
        Err(ThufsError::DefaultRepoRequired)
    );
}

#[test]
fn default_config_path_follows_environment_order() {
    let explicit = ConfigManager::new(Some("/cfg"), Some("/xdg"), Some("/home/u"), None);
    assert_eq!(explicit.path(), "/cfg/config.json");
    let xdg = ConfigManager::new(None, Some("/xdg"), Some("/home/u"), None);
    assert_eq!(xdg.path(), "/xdg/thufs/config.json");
    let home = ConfigManager::new(None, None, Some("/home/u"), None);
    assert_eq!(home.path(), "/home/u/.config/thufs/config.json");
    let none = ConfigManager::new(None, None, None, None);
    assert_eq!(none.path(), ".thufs-config.json");
}

#[test]
fn parsed_locations_reparse_from_their_explicit_form() {
    for (input, default) in [
        ("notes/./todo.md", Some("lib")),
        ("repo:course-lib//slides/week1.pdf", None),
        (" a/b/c/ ", Some("x")),
    ] {
        let parsed = RemoteRef::parse(input, default).expect("parse");
        let again = RemoteRef::parse(&format!("repo:{}{}", parsed.repo, parsed.path), None).expect("reparse");
        assert_eq!(again, parsed);
    }
}

//! The token commands: storing a token, and showing the settings in effect
//! without revealing the token.
use vstd::prelude::*;

use crate::config::{
    output_mode_name, resolved_config, stored_token_config, active_keys_seq, Config, ConfigManager, EnvironmentOverrides,
};
use crate::output::{redact_token, redactable, redacted_seq};
use crate::text::to_owned_string;

verus! {

/// What storing a token reports.
#[derive(Debug, Clone, PartialEq, Eq)]
pub struct TokenSetResult {
    pub config_path: String,
    pub token: String,
}

/// The settings in effect, as `auth inspect` reports them.
#[derive(Debug, Clone, PartialEq, Eq)]
pub struct ConfigInspection {
    pub config_path: String,
    pub token: String,
    pub default_repo: Option<String>,
    pub output: String,
    pub environment_overrides: Vec<String>,
}

/// The token commands.
#[derive(Debug, Clone)]
pub struct AuthService {
    config: ConfigManager,
}

/// The token as reported: redacted, or `not set`.
pub open spec fn shown_token(token: Option<String>) -> Seq<char> {
    match token {
        Some(t) => redacted_seq(t@),
        None => "not set"@,
    }
}

/// The token in effect can be redacted (see `redactable`).
pub open spec fn shown_token_ok(token: Option<String>) -> bool {
    match token {
        Some(t) => redactable(t@),
        None => true,
    }
}

impl AuthService {
    /// The token commands for the configuration file of `config`.
    pub fn new(config: ConfigManager) -> (res: AuthService)
        ensures
            res.config_path() == config.path_view(),
    {
        AuthService { config }
    }

    /// The configuration file the commands read and write.
    pub closed spec fn config_path(&self) -> Seq<char> {
        self.config.path_view()
    }

    /// Stores `token` in the file settings: the settings to write back, and the
    /// report with the file's path and the token redacted.
    pub fn set_token(&self, file_config: Config, token: &str) -> (res: (Config, TokenSetResult))
        requires
            redactable(token@),
        ensures
            res.0.token matches Some(t) && t@ == token@ && res.0 == stored_token_config(file_config, t),
            res.1.config_path@ == self.config_path(),
            res.1.token@ == redacted_seq(token@),
    {
        let stored = self.config.set_token(file_config, token);
        let report = TokenSetResult {
            config_path: to_owned_string(self.config.path()),
            token: redact_token(token),
        };
        (stored, report)
    }

    /// The settings in effect for the file settings and the environment overrides:
    /// the file's path, the token redacted (or `not set`), the default library,
    /// the output mode and the names of the overriding environment variables.
    pub fn inspect(&self, file_config: Config, overrides: EnvironmentOverrides) -> (res: ConfigInspection)
        requires
            shown_token_ok(resolved_config(file_config, overrides).token),
        ensures
            res.config_path@ == self.config_path(),
            res.token@ == shown_token(resolved_config(file_config, overrides).token),
            res.default_repo == resolved_config(file_config, overrides).default_repo,
            res.output@ == output_mode_name(resolved_config(file_config, overrides).output),
            res.environment_overrides@.map_values(|k: String| k@) == active_keys_seq(overrides),
    {
        let (resolved, overrides) = self.config.resolve_with_overrides(file_config, overrides);
        let token = match &resolved.token {
            Some(t) => redact_token(t.as_str()),
            None => String::from_str("not set"),
        };
        ConfigInspection {
            config_path: to_owned_string(self.config.path()),
            token,
            default_repo: resolved.default_repo,
            output: to_owned_string(resolved.output.as_str()),
            environment_overrides: overrides.active_keys(),
        }
    }
}


/// The strings joined with `sep` between neighbours.
pub open spec fn join_with(parts: Seq<Seq<char>>, sep: Seq<char>) -> Seq<char>
    decreases parts.len(),
{
    if parts.len() == 0 {
        Seq::empty()
    } else if parts.len() == 1 {
        parts[0]
    } else {
        join_with(parts.drop_last(), sep) + sep + parts.last()
    }
}

/// The text `config show` reports for the settings in effect.
pub open spec fn inspection_text(i: ConfigInspection) -> Seq<char> {
    let overrides = i.environment_overrides@.map_values(|k: String| k@);
    "Config file: "@ + i.config_path@ + "\nToken: "@ + i.token@ + "\nDefault repo: "@ + (match i.default_repo {
        Some(r) => r@,
        None => "not set"@,
    }) + "\nOutput: "@ + i.output@ + "\nEnvironment overrides: "@ + (if overrides.len() == 0 {
        "none"@
    } else {
        join_with(overrides, ", "@)
    })
}

/// `parts` joined with `sep` (see `join_with`).
fn join_strings(parts: &Vec<String>, sep: &str) -> (res: String)
    ensures
        res@ == join_with(parts@.map_values(|k: String| k@), sep@),
{
    let ghost views = parts@.map_values(|k: String| k@);
    let mut out = String::new();
    let mut i: usize = 0;
    proof {
        assert(views.take(0) =~= Seq::<Seq<char>>::empty());
    }
    while i < parts.len()
        invariant
            i <= parts@.len(),
            views == parts@.map_values(|k: String| k@),
            out@ == join_with(views.take(i as int), sep@),
        decreases parts@.len() - i,
    {
        proof {
            assert(views.take(i + 1).drop_last() =~= views.take(i as int));
        }
        if i > 0 {
            out.append(sep);
        }
        out.append(parts[i].as_str());
        proof {
            if i == 0 {
                assert(out@ =~= views.take(1)[0]);
            }
        }
        i = i + 1;
    }
    proof {
        assert(views.take(parts@.len() as int) =~= views);
    }
    out
}

impl TokenSetResult {
    /// The line `auth set-token` reports: `Stored token <redacted> in <path>`.
    pub fn summary(&self) -> (res: String)
        ensures
            res@ == "Stored token "@ + self.token@ + " in "@ + self.config_path@,
    {
        String::from_str("Stored token ").concat(self.token.as_str()).concat(" in ").concat(self.config_path.as_str())
    }
}

impl ConfigInspection {
    /// The text `config show` reports (see `inspection_text`).
    pub fn summary(&self) -> (res: String)
        ensures
            res@ == inspection_text(*self),
    {
        let repo = match &self.default_repo {
            Some(r) => r.as_str(),
            None => "not set",
        };
        let overrides = if self.environment_overrides.len() == 0 {
            String::from_str("none")
        } else {
            join_strings(&self.environment_overrides, ", ")
        };
        String::from_str("Config file: ").concat(self.config_path.as_str()).concat("\nToken: ").concat(
            self.token.as_str(),
        ).concat("\nDefault repo: ").concat(repo).concat("\nOutput: ").concat(self.output.as_str()).concat(
            "\nEnvironment overrides: ",
        ).concat(overrides.as_str())
    }
}


/// Law: after `auth set-token`, the settings in effect show the stored token
/// redacted exactly as the set-token report did, unless `THUFS_TOKEN` overrides it.
pub proof fn law_stored_token_shown_redacted(file_config: Config, token: String, overrides: EnvironmentOverrides)
    requires
        overrides.token is None,
    ensures
        shown_token(resolved_config(stored_token_config(file_config, token), overrides).token) == redacted_seq(token@),
{
}

} // verus!

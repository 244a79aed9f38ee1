//! Configuration: the file-first settings, the environment overrides layered on
//! top of them, and where the configuration file lives.
use vstd::prelude::*;

use crate::error::ThufsError;
use crate::local::{join_path, path_join};
use crate::text::{str_eq, to_owned_string, trim, trim_seq};

verus! {

/// How command results are rendered.
#[derive(Debug, Clone, Copy, PartialEq, Eq, Structural)]
pub enum OutputMode {
    Human,
    Json,
}

/// The settings of the configuration file, or the settings in effect.
#[derive(Debug, Clone, PartialEq, Eq)]
pub struct Config {
    pub token: Option<String>,
    pub default_repo: Option<String>,
    pub output: OutputMode,
}

/// The settings given through `THUFS_TOKEN`, `THUFS_DEFAULT_REPO` and `THUFS_OUTPUT`.
#[derive(Debug, Clone, PartialEq, Eq)]
pub struct EnvironmentOverrides {
    pub token: Option<String>,
    pub default_repo: Option<String>,
    pub output: Option<OutputMode>,
}

/// Where the configuration file lives.
#[derive(Debug, Clone)]
pub struct ConfigManager {
    path: String,
}

/// The output mode a keyword names, exactly (no trimming, no case folding).
pub open spec fn output_mode_keyword(k: Seq<char>) -> Option<OutputMode> {
    if k == "human"@ {
        Some(OutputMode::Human)
    } else if k == "json"@ {
        Some(OutputMode::Json)
    } else {
        None
    }
}

/// The keyword of an output mode.
pub open spec fn output_mode_name(m: OutputMode) -> Seq<char> {
    match m {
        OutputMode::Human => "human"@,
        OutputMode::Json => "json"@,
    }
}

/// Option `o`, replaced by `over` when that is present.
pub open spec fn override_with<T>(over: Option<T>, o: Option<T>) -> Option<T> {
    match over {
        Some(v) => Some(v),
        None => o,
    }
}

/// The settings in effect: each file setting replaced by its override when set.
pub open spec fn resolved_config(file_config: Config, o: EnvironmentOverrides) -> Config {
    Config {
        token: override_with(o.token, file_config.token),
        default_repo: override_with(o.default_repo, file_config.default_repo),
        output: match o.output {
            Some(m) => m,
            None => file_config.output,
        },
    }
}

/// The file settings after storing `token`.
pub open spec fn stored_token_config(file_config: Config, token: String) -> Config {
    Config { token: Some(token), ..file_config }
}

/// The names of the environment variables that are set, in the order
/// `THUFS_TOKEN`, `THUFS_DEFAULT_REPO`, `THUFS_OUTPUT`.
pub open spec fn active_keys_seq(o: EnvironmentOverrides) -> Seq<Seq<char>> {
    let a = if o.token is Some {
        seq!["THUFS_TOKEN"@]
    } else {
        Seq::empty()
    };
    let b = if o.default_repo is Some {
        seq!["THUFS_DEFAULT_REPO"@]
    } else {
        Seq::empty()
    };
    let c = if o.output is Some {
        seq!["THUFS_OUTPUT"@]
    } else {
        Seq::empty()
    };
    a + b + c
}

/// The configuration file path for the given environment values: inside
/// `THUFS_CONFIG_DIR`, else `$XDG_CONFIG_HOME/thufs`, else `$HOME/.config/thufs`,
/// else `%APPDATA%/thufs`, else `.thufs-config.json` in the working directory.
pub open spec fn default_config_path_seq(
    config_dir: Option<Seq<char>>,
    xdg_config_home: Option<Seq<char>>,
    home: Option<Seq<char>>,
    appdata: Option<Seq<char>>,
) -> Seq<char> {
    if config_dir is Some {
        path_join(config_dir->0, "config.json"@)
    } else if xdg_config_home is Some {
        path_join(path_join(xdg_config_home->0, "thufs"@), "config.json"@)
    } else if home is Some {
        path_join(path_join(path_join(home->0, ".config"@), "thufs"@), "config.json"@)
    } else if appdata is Some {
        path_join(path_join(appdata->0, "thufs"@), "config.json"@)
    } else {
        ".thufs-config.json"@
    }
}

impl Default for OutputMode {
    /// Human-readable output unless asked otherwise.
    fn default() -> (res: Self)
        ensures
            res == OutputMode::Human,
    {
        OutputMode::Human
    }
}

impl OutputMode {
    /// The keyword of this output mode.
    pub fn as_str(self) -> (res: &'static str)
        ensures
            res@ == output_mode_name(self),
    {
        match self {
            OutputMode::Human => "human",
            OutputMode::Json => "json",
        }
    }

    /// Reads `human` or `json`.
    pub fn parse(value: &str) -> (res: Result<OutputMode, ThufsError>)
        ensures
            match res {
                Ok(m) => output_mode_keyword(value@) == Some(m),
                Err(e) => {
                    &&& output_mode_keyword(value@) is None
                    &&& e matches ThufsError::UnsupportedOutputMode(v)
                    &&& v@ == value@
                },
            },
    {
        if str_eq(value, "human") {
            Ok(OutputMode::Human)
        } else if str_eq(value, "json") {
            Ok(OutputMode::Json)
        } else {
            Err(ThufsError::UnsupportedOutputMode(to_owned_string(value)))
        }
    }
}

impl std::str::FromStr for OutputMode {
    type Err = ThufsError;

    /// Reads `human` or `json` (see `OutputMode::parse`).
    fn from_str(value: &str) -> (res: Result<OutputMode, ThufsError>)
        ensures
            match res {
                Ok(m) => output_mode_keyword(value@) == Some(m),
                Err(e) => {
                    &&& output_mode_keyword(value@) is None
                    &&& e matches ThufsError::UnsupportedOutputMode(v)
                    &&& v@ == value@
                },
            },
    {
        OutputMode::parse(value)
    }
}

impl Default for Config {
    /// No token, no default library, human output.
    fn default() -> (res: Self)
        ensures
            res.token is None,
            res.default_repo is None,
            res.output == OutputMode::Human,
    {
        Config { token: None, default_repo: None, output: OutputMode::Human }
    }
}

impl Default for EnvironmentOverrides {
    /// No override set.
    fn default() -> (res: Self)
        ensures
            res.token is None,
            res.default_repo is None,
            res.output is None,
    {
        EnvironmentOverrides { token: None, default_repo: None, output: None }
    }
}

impl EnvironmentOverrides {
    /// The overrides from the raw environment values; `THUFS_OUTPUT` is trimmed
    /// and must name an output mode.
    pub fn from_values(token: Option<String>, default_repo: Option<String>, output: Option<&str>) -> (res: Result<
        EnvironmentOverrides,
        ThufsError,
    >)
        ensures
            match res {
                Ok(o) => {
                    &&& o.token == token
                    &&& o.default_repo == default_repo
                    &&& match output {
                        Some(v) => o.output is Some && output_mode_keyword(trim_seq(v@)) == o.output,
                        None => o.output is None,
                    }
                },
                Err(e) => {
                    &&& output matches Some(v)
                    &&& output_mode_keyword(trim_seq(v@)) is None
                    &&& e matches ThufsError::UnsupportedOutputMode(w)
                    &&& w@ == trim_seq(v@)
                },
            },
    {
        let output = match output {
            Some(v) => match OutputMode::parse(trim(v)) {
                Ok(m) => Some(m),
                Err(e) => {
                    return Err(e);
                },
            },
            None => None,
        };
        Ok(EnvironmentOverrides { token, default_repo, output })
    }

    /// The names of the environment variables that are set.
    pub fn active_keys(&self) -> (res: Vec<String>)
        ensures
            res@.map_values(|k: String| k@) == active_keys_seq(*self),
    {
        let mut keys: Vec<String> = Vec::new();
        if self.token.is_some() {
            keys.push(String::from_str("THUFS_TOKEN"));
        }
        if self.default_repo.is_some() {
            keys.push(String::from_str("THUFS_DEFAULT_REPO"));
        }
        if self.output.is_some() {
            keys.push(String::from_str("THUFS_OUTPUT"));
        }
        proof {
            assert(keys@.map_values(|k: String| k@) =~= active_keys_seq(*self));
        }
        keys
    }
}

impl ConfigManager {
    /// The manager of the default configuration file for the given environment
    /// values (see `default_config_path_seq`).
    pub fn new(
        config_dir: Option<&str>,
        xdg_config_home: Option<&str>,
        home: Option<&str>,
        appdata: Option<&str>,
    ) -> (res: ConfigManager)
        ensures
            res.path_view() == default_config_path_seq(
                crate::contract::opt_str_view(config_dir),
                crate::contract::opt_str_view(xdg_config_home),
                crate::contract::opt_str_view(home),
                crate::contract::opt_str_view(appdata),
            ),
    {
        let path = match config_dir {
            Some(dir) => join_path(dir, "config.json"),
            None => match xdg_config_home {
                Some(dir) => join_path(join_path(dir, "thufs").as_str(), "config.json"),
                None => match home {
                    Some(dir) => join_path(
                        join_path(join_path(dir, ".config").as_str(), "thufs").as_str(),
                        "config.json",
                    ),
                    None => match appdata {
                        Some(dir) => join_path(join_path(dir, "thufs").as_str(), "config.json"),
                        None => String::from_str(".thufs-config.json"),
                    },
                },
            },
        };
        ConfigManager { path }
    }

    /// The manager of the configuration file at `path`.
    pub fn from_path(path: String) -> (res: ConfigManager)
        ensures
            res.path_view() == path@,
    {
        ConfigManager { path }
    }

    /// The path of the configuration file.
    pub closed spec fn path_view(&self) -> Seq<char> {
        self.path@
    }

    /// The path of the configuration file.
    pub fn path(&self) -> (res: &str)
        ensures
            res@ == self.path_view(),
    {
        self.path.as_str()
    }

    /// The settings in effect: the file's settings, each replaced by its environment
    /// override when one is set; the overrides are handed back with them.
    pub fn resolve_with_overrides(&self, file_config: Config, overrides: EnvironmentOverrides) -> (res: (
        Config,
        EnvironmentOverrides,
    ))
        ensures
            res.0 == resolved_config(file_config, overrides),
            res.1 == overrides,
    {
        let mut config = file_config;
        match &overrides.token {
            Some(token) => {
                config.token = Some(token.clone());
            },
            None => {},
        }
        match &overrides.default_repo {
            Some(repo) => {
                config.default_repo = Some(repo.clone());
            },
            None => {},
        }
        match overrides.output {
            Some(output) => {
                config.output = output;
            },
            None => {},
        }
        (config, overrides)
    }

    /// The settings in effect for the file settings and the raw values of
    /// `THUFS_TOKEN`, `THUFS_DEFAULT_REPO` and `THUFS_OUTPUT`, with the overrides
    /// they make; an output override that names no mode is an error.
    pub fn resolve(&self, file_config: Config, env_token: Option<String>, env_default_repo: Option<String>, env_output: Option<&str>) -> (res:
        Result<(Config, EnvironmentOverrides), ThufsError>)
        ensures
            match res {
                Ok((c, o)) => {
                    &&& o.token == env_token
                    &&& o.default_repo == env_default_repo
                    &&& match env_output {
                        Some(v) => o.output is Some && output_mode_keyword(trim_seq(v@)) == o.output,
                        None => o.output is None,
                    }
                    &&& c == resolved_config(file_config, o)
                },
                Err(e) => {
                    &&& env_output matches Some(v)
                    &&& output_mode_keyword(trim_seq(v@)) is None
                    &&& e matches ThufsError::UnsupportedOutputMode(w)
                    &&& w@ == trim_seq(v@)
                },
            },
    {
        let overrides = EnvironmentOverrides::from_values(env_token, env_default_repo, env_output)?;
        Ok(self.resolve_with_overrides(file_config, overrides))
    }

    /// The settings in effect (see `resolve`), without the overrides.
    pub fn load_resolved(&self, file_config: Config, env_token: Option<String>, env_default_repo: Option<String>, env_output: Option<&str>) -> (res:
        Result<Config, ThufsError>)
        ensures
            match res {
                Ok(c) => exists|o: EnvironmentOverrides|
                    {
                        &&& o.token == env_token
                        &&& o.default_repo == env_default_repo
                        &&& match env_output {
                            Some(v) => o.output is Some && output_mode_keyword(trim_seq(v@)) == o.output,
                            None => o.output is None,
                        }
                        &&& c == resolved_config(file_config, o)
                    },
                Err(e) => {
                    &&& env_output matches Some(v)
                    &&& output_mode_keyword(trim_seq(v@)) is None
                    &&& e matches ThufsError::UnsupportedOutputMode(w)
                    &&& w@ == trim_seq(v@)
                },
            },
    {
        let (config, _) = self.resolve(file_config, env_token, env_default_repo, env_output)?;
        Ok(config)
    }

    /// The file settings after storing `token`: the token replaced, the rest kept.
    pub fn set_token(&self, file_config: Config, token: &str) -> (res: Config)
        ensures
            res.token matches Some(t) && t@ == token@ && res == stored_token_config(file_config, t),
    {
        let mut config = file_config;
        config.token = Some(to_owned_string(token));
        config
    }
}

/// Law: a stored token is what the next resolution reads back when no environment
/// override is set, and an environment override always wins over it; the other
/// stored settings are untouched by storing a token.
pub proof fn law_stored_token_read_back(file_config: Config, token: String, overrides: EnvironmentOverrides)
    ensures
        overrides.token is None ==> resolved_config(stored_token_config(file_config, token), overrides).token == Some(
            token,
        ),
        overrides.token matches Some(e) ==> resolved_config(stored_token_config(file_config, token), overrides).token
            == Some(e),
        resolved_config(stored_token_config(file_config, token), overrides).default_repo == resolved_config(
            file_config,
            overrides,
        ).default_repo,
        resolved_config(stored_token_config(file_config, token), overrides).output == resolved_config(
            file_config,
            overrides,
        ).output,
{
}


/// Law: reading back the keyword of an output mode gives that mode.
pub proof fn law_output_mode_round_trip(m: OutputMode)
    ensures
        output_mode_keyword(output_mode_name(m)) == Some(m),
{
    reveal_strlit("human");
    reveal_strlit("json");
    assert("human"@ != "json"@) by {
        assert("human"@.len() != "json"@.len());
    }
}

} // verus!

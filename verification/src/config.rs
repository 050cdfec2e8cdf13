//! The configuration of the server. Every field has a default, so that it works
//! against a Zotero that runs on the same machine.

use crate::path::{FilePath, FilePathView};
use std::path::PathBuf;
use vstd::prelude::*;
use vstd::string::*;

verus! {

/// The configuration.
#[derive(Debug)]
pub struct Config {
    pub api_base: String,
    pub api_key: Option<String>,
    pub user_id: Option<u64>,
    pub library_type: String,
}

/// The mathematical value of a [`Config`].
pub struct ConfigView {
    pub api_base: Seq<char>,
    pub api_key: Option<Seq<char>>,
    pub user_id: Option<u64>,
    pub library_type: Seq<char>,
}

impl View for Config {
    type V = ConfigView;

    open spec fn view(&self) -> ConfigView {
        ConfigView {
            api_base: self.api_base@,
            api_key: self.api_key.deep_view(),
            user_id: self.user_id,
            library_type: self.library_type@,
        }
    }
}

/// What a configuration file holds. Each value can be missing.
#[derive(Debug)]
pub struct ConfigFile {
    pub api_base: Option<String>,
    pub api_key: Option<String>,
    pub user_id: Option<u64>,
    pub library_type: Option<String>,
}

/// The mathematical value of a [`ConfigFile`].
pub struct ConfigFileView {
    pub api_base: Option<Seq<char>>,
    pub api_key: Option<Seq<char>>,
    pub user_id: Option<u64>,
    pub library_type: Option<Seq<char>>,
}

impl View for ConfigFile {
    type V = ConfigFileView;

    open spec fn view(&self) -> ConfigFileView {
        ConfigFileView {
            api_base: self.api_base.deep_view(),
            api_key: self.api_key.deep_view(),
            user_id: self.user_id,
            library_type: self.library_type.deep_view(),
        }
    }
}

/// A text, or another one where it is missing.
pub open spec fn text_or(t: Option<Seq<char>>, other: Seq<char>) -> Seq<char> {
    match t {
        Some(t) => t,
        None => other,
    }
}

/// The configuration without a file and an environment.
pub open spec fn default_config() -> ConfigView {
    ConfigView {
        api_base: "http://localhost:23119/api"@,
        api_key: None,
        user_id: None,
        library_type: "user"@,
    }
}

/// The configuration that a file gives: a missing address or kind of library is the
/// default one.
pub open spec fn config_of(file: ConfigFileView) -> ConfigView {
    ConfigView {
        api_base: text_or(file.api_base, default_config().api_base),
        api_key: file.api_key,
        user_id: file.user_id,
        library_type: text_or(file.library_type, default_config().library_type),
    }
}

/// What is written to the file for a configuration: all of it.
pub open spec fn file_of(c: ConfigView) -> ConfigFileView {
    ConfigFileView {
        api_base: Some(c.api_base),
        api_key: c.api_key,
        user_id: c.user_id,
        library_type: Some(c.library_type),
    }
}

/// The configuration in effect: what the file gives, or the defaults where there is no
/// file, with the address and the key of the environment in place of the configured
/// ones where they are set.
pub open spec fn in_effect(
    file: Option<ConfigView>,
    env_api_base: Option<Seq<char>>,
    env_api_key: Option<Seq<char>>,
) -> ConfigView {
    let c = match file {
        Some(c) => c,
        None => default_config(),
    };
    ConfigView {
        api_base: text_or(env_api_base, c.api_base),
        api_key: if env_api_key is Some {
            env_api_key
        } else {
            c.api_key
        },
        ..c
    }
}

/// A configuration that was written to the file is loaded again as it was, in all of its
/// values, where the environment sets none.
pub proof fn lemma_saved_config_is_loaded(c: ConfigView)
    ensures
        in_effect(Some(config_of(file_of(c))), None, None) == c,
{
}

/// The address of the API where none is configured.
pub fn default_api_base() -> (r: String)
    ensures
        r@ == "http://localhost:23119/api"@,
{
    "http://localhost:23119/api".to_owned()
}

/// The kind of library where none is configured.
pub fn default_library_type() -> (r: String)
    ensures
        r@ == "user"@,
{
    "user".to_owned()
}

impl Default for Config {
    fn default() -> (r: Config)
        ensures
            r@ == default_config(),
    {
        Config {
            api_base: default_api_base(),
            api_key: None,
            user_id: None,
            library_type: default_library_type(),
        }
    }
}

/// The path of the configuration file: `config.toml` in the directory `zotero-mcp` below
/// that for configurations, or below `~/.config` where the system names no such
/// directory.
pub open spec fn path_below(dir: Option<PathBuf>) -> FilePathView {
    match dir {
        Some(_) => FilePathView { base: dir, parts: seq!["zotero-mcp"@, "config.toml"@] },
        None => FilePathView {
            base: None,
            parts: seq!["~/.config"@, "zotero-mcp"@, "config.toml"@],
        },
    }
}

/// Calls `dirs::config_dir`, which finds the user's directory for configurations. It
/// depends on the environment: nothing is claimed of it.
#[verifier::external_body]
fn user_config_dir() -> (r: Option<PathBuf>) {
    dirs::config_dir()
}

impl Config {
    /// The configuration that a file gives.
    pub fn from_file(file: ConfigFile) -> (r: Config)
        ensures
            r@ == config_of(file@),
    {
        Config {
            api_base: match file.api_base {
                Some(base) => base,
                None => default_api_base(),
            },
            api_key: file.api_key,
            user_id: file.user_id,
            library_type: match file.library_type {
                Some(t) => t,
                None => default_library_type(),
            },
        }
    }

    /// What is written to the file for the configuration.
    pub fn to_file(self) -> (r: ConfigFile)
        ensures
            r@ == file_of(self@),
    {
        ConfigFile {
            api_base: Some(self.api_base),
            api_key: self.api_key,
            user_id: self.user_id,
            library_type: Some(self.library_type),
        }
    }

    /// The configuration in effect.
    pub fn load(
        file: Option<Config>,
        env_api_base: Option<String>,
        env_api_key: Option<String>,
    ) -> (r: Config)
        ensures
            r@ == in_effect(
                match file {
                    Some(c) => Some(c@),
                    None => None,
                },
                env_api_base.deep_view(),
                env_api_key.deep_view(),
            ),
    {
        let mut cfg = match file {
            Some(cfg) => cfg,
            None => Config::default(),
        };
        if let Some(base) = env_api_base {
            cfg.api_base = base;
        }
        if let Some(key) = env_api_key {
            cfg.api_key = Some(key);
        }
        cfg
    }

    /// The path of the configuration file.
    pub fn path() -> (r: FilePath)
        ensures
            exists|dir: Option<PathBuf>| r@ == #[trigger] path_below(dir),
    {
        config_path(user_config_dir())
    }
}

/// The path of the configuration file below a directory for configurations.
pub fn config_path(dir: Option<PathBuf>) -> (r: FilePath)
    ensures
        r@ == path_below(dir),
{
    let base = match dir {
        Some(d) => FilePath::directory(d),
        None => FilePath::fixed("~/.config"),
    };
    let r = base.below("zotero-mcp").below("config.toml");
    assert(r@.parts =~= path_below(dir).parts);
    r
}

/// Wherever it lies, the configuration file is `config.toml` in a directory
/// `zotero-mcp`.
pub proof fn lemma_path_suffix(dir: Option<PathBuf>)
    ensures
        path_below(dir).parts.len() >= 2,
        path_below(dir).parts.skip(path_below(dir).parts.len() - 2) == seq![
            "zotero-mcp"@,
            "config.toml"@,
        ],
{
    assert(path_below(dir).parts.skip(path_below(dir).parts.len() - 2) =~= seq![
        "zotero-mcp"@,
        "config.toml"@,
    ]);
}

/// The directory of the attachments: the one that is set, else `Zotero/storage` below
/// the home directory, else `/Zotero/storage`.
pub open spec fn storage_path(setting: Option<PathBuf>, home: Option<PathBuf>) -> FilePathView {
    match (setting, home) {
        (Some(_), _) => FilePathView { base: setting, parts: Seq::empty() },
        (None, Some(_)) => FilePathView { base: home, parts: seq!["Zotero"@, "storage"@] },
        (None, None) => FilePathView { base: None, parts: seq!["/Zotero/storage"@] },
    }
}

/// Calls `dirs::home_dir`, which finds the user's home directory. It depends on the
/// environment: nothing is claimed of it.
#[verifier::external_body]
fn user_home_dir() -> (r: Option<PathBuf>) {
    dirs::home_dir()
}

/// The directory of the attachments for a setting and a home directory.
pub fn storage_root(setting: Option<PathBuf>, home: Option<PathBuf>) -> (r: FilePath)
    ensures
        r@ == storage_path(setting, home),
{
    match (setting, home) {
        (Some(dir), _) => FilePath::directory(dir),
        (None, Some(h)) => {
            let r = FilePath::directory(h).below("Zotero").below("storage");
            assert(r@.parts =~= seq!["Zotero"@, "storage"@]);
            r
        },
        (None, None) => FilePath::fixed("/Zotero/storage"),
    }
}

/// The directory of the attachments on this machine.
pub fn user_storage_root(setting: Option<PathBuf>) -> (r: FilePath)
    ensures
        exists|home: Option<PathBuf>| r@ == #[trigger] storage_path(setting, home),
        setting is Some ==> r@ == storage_path(setting, None),
{
    storage_root(setting, user_home_dir())
}

} // verus!

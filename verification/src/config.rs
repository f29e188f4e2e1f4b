//! Where the supervisor keeps its state and how it rotates logs.

use crate::paths::{join_path, joined_path, optional_text, parent_of, parent_path};
use vstd::prelude::*;

verus! {

/// Size-based log rotation policy.
#[derive(Debug, Clone, Copy, PartialEq, Eq, Structural)]
pub struct LogRotationConfig {
    /// A log file larger than this many bytes is rotated.
    pub max_file_size: u64,
    /// Number of rotated files that are kept.
    pub max_files: usize,
    /// Whether logs are rotated by size at all.
    pub enabled: bool,
}

impl Default for LogRotationConfig {
    /// Rotation at 10 MiB, five rotated files kept.
    fn default() -> (r: Self)
        ensures
            r == (LogRotationConfig { max_file_size: 10485760, max_files: 5, enabled: true }),
    {
        LogRotationConfig { max_file_size: 10 * 1024 * 1024, max_files: 5, enabled: true }
    }
}

/// Settings of the remote frontend.
#[derive(Debug, PartialEq, Eq)]
pub struct ApiConfig {
    pub enabled: bool,
    pub port: u16,
    pub auth_tokens_path: String,
}

impl Clone for ApiConfig {
    fn clone(&self) -> (r: Self)
        ensures
            r.enabled == self.enabled,
            r.port == self.port,
            r.auth_tokens_path@ == self.auth_tokens_path@,
    {
        ApiConfig {
            enabled: self.enabled,
            port: self.port,
            auth_tokens_path: self.auth_tokens_path.clone(),
        }
    }
}

impl ApiConfig {
    /// The remote frontend off, on port 8080, with its tokens kept in
    /// `api_tokens.json` in the state directory `.pmr` under `home_dir`.
    pub fn new(home_dir: &str) -> (r: Self)
        ensures
            !r.enabled,
            r.port == 8080,
            r.auth_tokens_path@ == joined_path(
                joined_path(home_dir@, ".pmr"@),
                "api_tokens.json"@,
            ),
    {
        let state_dir = join_path(home_dir, ".pmr");
        ApiConfig {
            enabled: false,
            port: 8080,
            auth_tokens_path: join_path(state_dir.as_str(), "api_tokens.json"),
        }
    }
}

/// Settings of one supervisor.
#[derive(Debug, PartialEq, Eq)]
pub struct Config {
    /// File of the persistent store.
    pub database_path: String,
    /// Directory for the logs of processes started without one of their own.
    pub default_log_dir: String,
    pub log_rotation: LogRotationConfig,
    pub api: ApiConfig,
}

impl Clone for Config {
    fn clone(&self) -> (r: Self)
        ensures
            r.database_path@ == self.database_path@,
            r.default_log_dir@ == self.default_log_dir@,
            r.log_rotation == self.log_rotation,
            r.api.enabled == self.api.enabled,
            r.api.port == self.api.port,
            r.api.auth_tokens_path@ == self.api.auth_tokens_path@,
    {
        Config {
            database_path: self.database_path.clone(),
            default_log_dir: self.default_log_dir.clone(),
            log_rotation: self.log_rotation,
            api: self.api.clone(),
        }
    }
}

impl Config {
    /// The default settings for an operator whose home directory is
    /// `home_dir` and who works in `current_dir`: the store is
    /// `processes.db` in `.pmr` under the home directory, logs go to `logs`
    /// under the working directory, rotation is the default policy.
    pub fn new(home_dir: &str, current_dir: &str) -> (r: Self)
        ensures
            r.database_path@ == joined_path(joined_path(home_dir@, ".pmr"@), "processes.db"@),
            r.default_log_dir@ == joined_path(current_dir@, "logs"@),
            r.log_rotation == (LogRotationConfig {
                max_file_size: 10485760,
                max_files: 5,
                enabled: true,
            }),
            !r.api.enabled,
            r.api.port == 8080,
            r.api.auth_tokens_path@ == joined_path(
                joined_path(home_dir@, ".pmr"@),
                "api_tokens.json"@,
            ),
    {
        let state_dir = join_path(home_dir, ".pmr");
        Config {
            database_path: join_path(state_dir.as_str(), "processes.db"),
            default_log_dir: join_path(current_dir, "logs"),
            log_rotation: LogRotationConfig::default(),
            api: ApiConfig::new(home_dir),
        }
    }

    /// The same settings with `log_dir` as the default log directory.
    pub fn with_log_dir(self, log_dir: String) -> (r: Self)
        ensures
            r == (Config { default_log_dir: log_dir, ..self }),
    {
        let mut r = self;
        r.default_log_dir = log_dir;
        r
    }

    /// The same settings with `config` as the rotation policy.
    pub fn with_log_rotation(self, config: LogRotationConfig) -> (r: Self)
        ensures
            r == (Config { log_rotation: config, ..self }),
    {
        let mut r = self;
        r.log_rotation = config;
        r
    }

    /// The same settings with `database_path` as the file of the store.
    pub fn with_database_path(self, database_path: String) -> (r: Self)
        ensures
            r == (Config { database_path: database_path, ..self }),
    {
        let mut r = self;
        r.database_path = database_path;
        r
    }

    /// The directory that has to exist before the store can be opened: the
    /// parent of the store's file, if it has one.
    pub fn store_directory(&self) -> (dir: Option<String>)
        ensures
            optional_text(dir) == parent_path(self.database_path@),
    {
        parent_of(self.database_path.as_str())
    }
}

} // verus!

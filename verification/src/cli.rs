//! The command line of `agc`, as plain values (the application parses it).
use vstd::prelude::*;

verus! {

/// The options and arguments of `agc`.
pub struct Cli {
    /// Pattern matched against the directory history.
    pub directory: Option<String>,
    /// Remote to push to after committing.
    pub push: Option<String>,
    /// Remote to pull from (and nothing else).
    pub pull: Option<String>,
    /// Path of the git-commit SKILL.md.
    pub skill_path: Option<String>,
    /// API key (before `MESSAGE_API_KEY`).
    pub api_key: Option<String>,
    /// ripgrep pattern; detected from the code when absent.
    pub rg_pattern: Option<String>,
    /// fd pattern for related files.
    pub fd_pattern: Option<String>,
    /// Path of the lazygit configuration (`.lazygit.yaml` by default).
    pub lazygit_config: Option<String>,
    /// AI configuration directory (`~/.config/agc` by default).
    pub config_dir: Option<String>,
    /// Commit without asking for confirmation.
    pub yes: bool,
    pub sub: Option<SubCommands>,
}

/// The subcommands: `config init`, `git init` and `git update`.
pub enum SubCommands {
    Config(ConfigCommand),
    Git(GitCommand),
}

/// `agc config ...`.
pub enum ConfigCommand {
    /// Writes `default.yaml` in the configuration directory.
    Init(InitArgs),
}

/// `agc config init [path] [--force]`.
pub struct InitArgs {
    /// Configuration directory (`~/.config/agc` by default).
    pub path: Option<String>,
    /// Overwrite an existing file.
    pub force: bool,
}

/// `agc git ...`.
pub enum GitCommand {
    /// Initializes the repository and writes the project scope file.
    Init(GitInitArgs),
    /// Updates the project scope file from the model's proposal.
    Update(GitUpdateArgs),
}

/// `agc git init [--force]`.
pub struct GitInitArgs {
    /// Overwrite an existing scope file.
    pub force: bool,
}

/// `agc git update [--prune] [--config-dir <dir>] [--api-key <key>]`.
pub struct GitUpdateArgs {
    /// Drop the scopes the model no longer proposes.
    pub prune: bool,
    pub config_dir: Option<String>,
    pub api_key: Option<String>,
}

} // verus!

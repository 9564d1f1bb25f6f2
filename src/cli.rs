//! The commands that the program accepts, as plain values.

use vstd::prelude::*;

verus! {

/// The parsed command line.
#[derive(Debug, Clone)]
pub struct Cli {
    /// The command to run, if any.
    pub command: Option<Commands>,
    /// Verbose output.
    pub verbose: bool,
    /// Hide warnings and errors.
    pub quiet: bool,
    /// The profile to work in; `default` when absent.
    pub profile: Option<String>,
    /// Show the paths in use.
    pub paths: bool,
    /// Show the version.
    pub version: bool,
}

impl Cli {
    /// The profile to work in: the one given, or `default`.
    pub fn profile_name(&self) -> (r: String)
        ensures
            r@ == match self.profile {
                Some(p) => p@,
                None => "default"@,
            },
    {
        match &self.profile {
            Some(p) => p.clone(),
            None => String::from_str("default"),
        }
    }
}

/// A command.
#[derive(Debug, Clone)]
pub enum Commands {
    /// Create the configuration and the repository.
    Init { repo_url: Option<String>, local: bool, force: bool },
    /// Track a file under an alias.
    Add { name: String, path: String },
    /// Stop tracking a file, by path or by alias.
    Remove { path: Option<String>, alias: Option<String> },
    /// Back up a tracked file.
    Backup { alias: Option<String>, message: Option<String>, push: bool, force: bool },
    /// Restore a tracked file from the repository.
    Restore { target: String, dry_run: bool, overwrite: bool },
    /// List tracked files, or the history of one alias.
    List { show_tracked: bool, alias: Option<String> },
    /// Back up on change, after a delay in milliseconds.
    Watch { debounce: u64 },
    /// Manage profiles.
    Profile { command: ProfileCommands },
    /// Manage encryption keys.
    Encrypt { command: EncryptCommands },
    /// Show or edit the configuration.
    Config { command: ConfigCommands },
    /// Forward arguments to the version-control tool.
    Git { args: Vec<String> },
    /// Delete the repository or the configuration.
    Delete { target: DeleteTarget },
    /// Show changed and untracked files.
    Status,
}

/// What to delete; nothing is deleted without `force`.
#[derive(Debug, Clone, Copy, PartialEq, Eq, Structural)]
pub enum DeleteTarget {
    Config { force: bool },
    Local { force: bool },
    Remote { force: bool },
    All { force: bool },
}

/// Profile management.
#[derive(Debug, Clone)]
pub enum ProfileCommands {
    Create { name: String, repo_url: Option<String> },
    List,
    Switch { name: String },
    Delete { name: String, force: bool },
    Rename { old_name: String, new_name: String },
}

/// Encryption key management.
#[derive(Debug, Clone)]
pub enum EncryptCommands {
    Init,
    AddKey { pubkey_path: String },
    Rotate,
    Remove { path: String },
}

/// Configuration commands.
#[derive(Debug, Clone, Copy, PartialEq, Eq, Structural)]
pub enum ConfigCommands {
    Show,
    Edit,
}

} // verus!

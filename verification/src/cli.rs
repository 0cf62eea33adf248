//! The command-line surface, as plain data: the toolkit's global options,
//! its commands, and each command's arguments. The argument parser itself
//! lives outside the library and hands these values in.

use vstd::prelude::*;

verus! {

/// How output is rendered.
#[derive(Debug, Clone, Copy, PartialEq, Eq, Structural)]
pub enum OutputFormat {
    Auto,
    Plain,
    Json,
}

impl Default for OutputFormat {
    /// The default output format adapts to the terminal.
    fn default() -> (r: Self)
        ensures
            r == OutputFormat::Auto,
    {
        OutputFormat::Auto
    }
}

/// The toolkit's global options and chosen command.
#[derive(Debug)]
pub struct Cli {
    pub config: Option<String>,
    pub output: OutputFormat,
    pub verbose: u8,
    pub quiet: bool,
    pub command: Commands,
}

/// The toolkit's commands.
#[derive(Debug)]
pub enum Commands {
    /// Find the oldest changes and get a datestamp for each file.
    Goldest(GoldestArgs),
    /// The staging selection tree tool.
    Gotsel(GotselArgs),
    /// Status focused on modification time.
    Statusd(StatusdArgs),
    /// Commit using the most recent date of what is staged.
    Commitd(CommitdArgs),
    /// Manage ignored files.
    Nah(NahArgs),
}

/// Arguments of the oldest-changes report.
#[derive(Debug, Clone)]
pub struct GoldestArgs {
    pub file_only: bool,
    pub date_only: bool,
    pub untracked: Option<String>,
    pub lines: usize,
    pub skip: usize,
    pub short: bool,
    pub porcelain: bool,
}

/// Arguments of the staging selection tool.
#[derive(Debug, Clone)]
pub struct GotselArgs {
    pub repo: Option<String>,
    pub staged: bool,
}

/// Arguments of the modification-time status command.
#[derive(Debug, Clone, Copy, PartialEq, Eq, Structural)]
pub struct StatusdArgs {
    pub untracked: bool,
    pub untracked_all: bool,
}

/// Arguments of the dated-commit command.
#[derive(Debug, Clone)]
pub struct CommitdArgs {
    pub message: Option<String>,
    pub allow_empty: bool,
    pub dry_run: bool,
}

/// The ignore-management subcommands.
#[derive(Debug, Clone)]
pub enum NahArgs {
    /// Add a pattern to an ignore list.
    Add { pattern: String, global: bool },
    /// Remove a pattern from an ignore list.
    Remove { pattern: String, global: bool },
    /// List the patterns of an ignore list.
    List { global: bool },
    /// Show an ignore list's location.
    Show { global: bool },
}

/// The standalone ignore tool's options.
#[derive(Debug)]
pub struct NahCli {
    pub command: NahCommands,
}

/// The standalone ignore tool's subcommands: the ignore-management
/// subcommands and the interactive pick.
#[derive(Debug, Clone)]
pub enum NahCommands {
    /// Add a pattern to an ignore list.
    Add { pattern: String, global: bool },
    /// Remove a pattern from an ignore list.
    Remove { pattern: String, global: bool },
    /// List the patterns of an ignore list.
    List { global: bool },
    /// Show an ignore list's location.
    Show { global: bool },
    /// Pick files to ignore from the untracked files.
    Pick { global: bool },
}

} // verus!

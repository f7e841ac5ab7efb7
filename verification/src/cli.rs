//! The command line's shape: the commands `fbsy` takes and their options.
//! Parsing the words is the argument parser's work; these are the values it
//! produces and how a command maps to the library's options.

use vstd::prelude::*;

use crate::update::UpdateOpts;

verus! {

/// Top-level command line: the command, when one is given (without one,
/// help is shown).
#[derive(Debug)]
pub struct Cli {
    pub command: Option<Command>,
}

/// The commands.
#[derive(Debug)]
pub enum Command {
    /// Install fbsy to a per-user bin dir and create data directories.
    Install,
    /// Remove the installed binary and PATH configurations (also spelled
    /// `unistall` and `unistaill`).
    Uninstall(UninstallArgs),
    /// Check for and install a newer release.
    Update(UpdateArgs),
    /// Live full-screen dashboard.
    Dashboard,
    /// Interactive setup wizard.
    Setup,
    /// Validate the config and print a redacted view.
    Config,
    /// Start the bridge service in the background.
    Start,
    /// Stop the running bridge service.
    Stop,
    /// Restart the bridge service.
    Restart,
    /// Pull attendance and forward it once, then exit.
    Sync(SyncArgs),
    /// Show the bridge service status and last sync results.
    Status,
    /// Print the bridge service log.
    Logs(LogsArgs),
    /// Internal entry point of detached service processes.
    ServiceRun(ServiceRunArgs),
    /// Internal foreground entry point of OS boot units.
    ServiceSupervised(ServiceRunArgs),
}

/// Options of `sync`.
#[derive(Debug)]
pub struct SyncArgs {
    /// Sync only this device code.
    pub device: Option<String>,
    /// A config file other than the default.
    pub config: Option<String>,
}

/// Options of `logs`.
#[derive(Debug)]
pub struct LogsArgs {
    /// Number of lines printed from the end of the log (default 100).
    pub lines: usize,
    /// Keep printing new lines.
    pub follow: bool,
}

/// Options of `uninstall`.
#[derive(Debug, Clone)]
pub struct UninstallArgs {
    /// Also delete configuration, logs and data.
    pub full: bool,
    /// Skip the confirmation prompt.
    pub yes: bool,
}

/// Options of `update`.
#[derive(Debug)]
pub struct UpdateArgs {
    /// Only report whether a newer release exists.
    pub check: bool,
    /// Skip the confirmation prompt.
    pub yes: bool,
    /// Non-interactive (the auto-update trigger).
    pub auto: bool,
}

/// Arguments of the hidden service entry points.
#[derive(Debug)]
pub struct ServiceRunArgs {
    /// Service kind: bridge | zkteco | hrms | scanner.
    pub service: String,
    /// The remaining, service-specific flags.
    pub rest: Vec<String>,
}

impl UpdateArgs {
    /// The update options these flags ask for.
    pub fn opts(&self) -> (r: UpdateOpts)
        ensures
            r.check_only == self.check,
            r.assume_yes == self.yes,
            r.auto == self.auto,
    {
        UpdateOpts { check_only: self.check, assume_yes: self.yes, auto: self.auto }
    }
}

} // verus!

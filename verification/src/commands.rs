//! The commands of the command-line client, as parsed from its arguments.
use vstd::prelude::*;

verus! {

/// Authentication subcommands.
#[derive(Debug, Clone, PartialEq, Eq)]
pub enum AuthCommands {
    /// Log in with a ClickUp API token (prompted for when absent), optionally
    /// setting the default workspace.
    Login { token: Option<String>, workspace: Option<String> },
    /// Show current authentication status.
    Status,
    /// Log out and remove stored credentials.
    Logout,
    /// Switch the default workspace.
    Switch { workspace: Option<String> },
}

/// Workspace subcommands.
#[derive(Debug, Clone, PartialEq, Eq)]
pub enum WorkspaceCommands {
    /// List all workspaces.
    List,
}

/// Space subcommands.
#[derive(Debug, Clone, PartialEq, Eq)]
pub enum SpaceCommands {
    /// List spaces in a workspace (overriding the default one when given).
    List { workspace: Option<String> },
    /// Show details for a space.
    Get { space_id: String },
}

/// List subcommands.
#[derive(Debug, Clone, PartialEq, Eq)]
pub enum ListCommands {
    /// List all lists in a space (folders and folderless) or in a folder.
    List { space: Option<String>, folder: Option<String> },
    /// Show details for a list.
    Get { list_id: String },
}

/// Task subcommands.
#[derive(Debug, Clone, PartialEq, Eq)]
pub enum TaskCommands {
    /// List tasks in a list, filtered by statuses and assignees.
    List { list: String, status: Vec<String>, assignee: Vec<String>, include_closed: bool },
    /// Show task details.
    Get { task_id: String },
    /// Rich view of a task with rendered markdown description.
    View { task_id: String },
}

/// Log subcommands.
#[derive(Debug, Clone, PartialEq, Eq)]
pub enum LogsCommands {
    /// List recent log sessions.
    List,
    /// Display a log file's contents (a session by number or name, the last
    /// lines only when asked).
    Show { session: Option<String>, tail: Option<usize> },
    /// Export logs of the last hours with sensitive data redacted.
    Export { hours: u64, output: Option<String> },
    /// Remove old log files.
    Clean { older_than: u32, dry_run: bool },
}

/// The workspace a space listing uses: the one given to the subcommand, else
/// the one given for the whole run.
pub fn space_list_workspace<'a>(own: &'a Option<String>, global: Option<&'a str>) -> (r: Option<&'a str>)
    ensures
        match own {
            Some(w) => r matches Some(x) && x@ == w@,
            None => r == global,
        },
{
    match own {
        Some(w) => Some(w.as_str()),
        None => global,
    }
}

} // verus!

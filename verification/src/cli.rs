//! The command-line surface as plain data: one variant per subcommand, and
//! the argument records each carries. Parsing the actual command line is the
//! caller's concern; this module owns the argument validation.

use vstd::prelude::*;
use vstd::string::StringExecFns;
use crate::error::GrabError;
use crate::models::app_new_rel;
use crate::models::App;

verus! {

/// The parsed command line: exactly one subcommand.
pub struct Cli {
    pub command: Commands,
}

/// The subcommands, each mapping to one registry or pipeline operation.
pub enum Commands {
    Add(AddArgs),
    Check(CheckArgs),
    Download,
    List,
    Remote(RemoteArgs),
    Remove(RemoveArgs),
    Search(SearchArgs),
}

/// Arguments of `add`: the five app fields, each optional on the command
/// line, and the interactive-mode switch.
pub struct AddArgs {
    pub name: Option<String>,
    pub owner: Option<String>,
    pub repo: Option<String>,
    pub asset_pattern: Option<String>,
    pub version_flag: Option<String>,
    pub interactive: bool,
}

/// Arguments of `check`.
pub struct CheckArgs {
    pub download: bool,
}

/// Arguments of `remote`: the manifest location.
pub struct RemoteArgs {
    pub file: Option<String>,
}

/// Arguments of `remove`: the one-based registry index.
pub struct RemoveArgs {
    pub index: usize,
}

/// Arguments of `search`.
pub struct SearchArgs {
    pub query: Option<String>,
}

/// The rejection of a missing `add` argument.
pub open spec fn required_field_err(e: GrabError, msg: Seq<char>) -> bool {
    e matches GrabError::InvalidInput(m) && m@ == msg
}

impl AddArgs {
    /// One of the three identity fields was not given on the command line,
    /// so `add` falls back to prompting.
    pub fn are_any_fields_missing(&self) -> (r: bool)
        ensures
            r == (self.name is None || self.owner is None || self.repo is None),
    {
        self.name.is_none() || self.owner.is_none() || self.repo.is_none()
    }

    /// Builds the app from the given arguments: the first missing one is
    /// rejected, and the present ones go through [`App::new`] validation.
    pub fn into_app(self) -> (r: core::result::Result<App, GrabError>)
        ensures
            match self.name {
                None => r matches Err(e) && required_field_err(
                    e,
                    "Name of the app is required"@,
                ),
                Some(name) => match self.owner {
                    None => r matches Err(e) && required_field_err(
                        e,
                        "Owner of the repo is required"@,
                    ),
                    Some(owner) => match self.repo {
                        None => r matches Err(e) && required_field_err(
                            e,
                            "Name of the repo is required"@,
                        ),
                        Some(repo) => match self.asset_pattern {
                            None => r matches Err(e) && required_field_err(
                                e,
                                "Asset pattern of the repo is required"@,
                            ),
                            Some(pattern) => match self.version_flag {
                                None => r matches Err(e) && required_field_err(
                                    e,
                                    "Version flag is required"@,
                                ),
                                Some(flag) => app_new_rel(
                                    name@,
                                    owner@,
                                    repo@,
                                    pattern@,
                                    flag@,
                                    r,
                                ),
                            },
                        },
                    },
                },
            },
    {
        let name = match self.name {
            Some(v) => v,
            None => {
                return Err(
                    GrabError::InvalidInput(String::from_str("Name of the app is required")),
                );
            },
        };
        let owner = match self.owner {
            Some(v) => v,
            None => {
                return Err(
                    GrabError::InvalidInput(String::from_str("Owner of the repo is required")),
                );
            },
        };
        let repo = match self.repo {
            Some(v) => v,
            None => {
                return Err(
                    GrabError::InvalidInput(String::from_str("Name of the repo is required")),
                );
            },
        };
        let asset_pattern = match self.asset_pattern {
            Some(v) => v,
            None => {
                return Err(
                    GrabError::InvalidInput(
                        String::from_str("Asset pattern of the repo is required"),
                    ),
                );
            },
        };
        let version_flag = match self.version_flag {
            Some(v) => v,
            None => {
                return Err(GrabError::InvalidInput(String::from_str("Version flag is required")));
            },
        };
        App::new(name, owner, repo, asset_pattern, version_flag)
    }
}

} // verus!

//! The decisions of the commands.
//!
//! A command reads files, asks CloudFormation and the repository, and
//! submits a change set. What it decides in between is decided here, on what
//! was read: which parameters a change set gets, whether they are complete,
//! and what to tell the user.

use vstd::prelude::*;

use crate::error::Error;

pub mod create_stack;
pub mod identify_new_parameters;
pub mod override_parameters;
pub mod update_deployed_template;
pub mod verify_changes_compatible;
pub mod verify_parameter_file;

verus! {

/// The outcome of a check that the user may force past.
///
/// A check that passed gives no warning. A check that failed gives the
/// warning where the user forces the command, and the error else.
pub open spec fn gate(passed: bool, force: bool, error: Error, warning: String) -> Result<
    Option<String>,
    Error,
> {
    if passed {
        Ok(None)
    } else if force {
        Ok(Some(warning))
    } else {
        Err(error)
    }
}

/// Decide on a check that the user may force past: go on without a warning
/// where the check passed, go on with the warning where it failed and the
/// user forces the command, and fail with the error else.
pub fn checked_or_warn(passed: bool, force: bool, error: Error, warning: String) -> (res: Result<
    Option<String>,
    Error,
>)
    ensures
        res == gate(passed, force, error, warning),
{
    if passed {
        Ok(None)
    } else if force {
        Ok(Some(warning))
    } else {
        Err(error)
    }
}

/// What every command is configured with.
#[derive(Debug)]
pub struct Configuration {
    /// The key of the stack parameter that holds the deployment metadata.
    pub deployment_metadata_parameter: String,
    /// Whether the deployment metadata are left as they are.
    pub dont_update_deployment_metadata: bool,
}

/// The key of the stack parameter that holds the deployment metadata, unless
/// another is configured.
pub open spec fn default_metadata_parameter() -> Seq<char> {
    "DeploymentMetadata"@
}

impl Default for Configuration {
    fn default() -> (res: Configuration)
        ensures
            res.deployment_metadata_parameter@ == default_metadata_parameter(),
            !res.dont_update_deployment_metadata,
    {
        Configuration {
            deployment_metadata_parameter: "DeploymentMetadata".to_owned(),
            dont_update_deployment_metadata: false,
        }
    }
}

/// What a command reports when it is done.
#[derive(Debug)]
pub struct Report {
    /// The message for a reader.
    pub message: String,
    /// Whether the command did what it was asked to do.
    pub successful: bool,
}

/// The mathematical value of a [`Report`].
pub struct ReportView {
    pub message: Seq<char>,
    pub successful: bool,
}

impl View for Report {
    type V = ReportView;

    open spec fn view(&self) -> ReportView {
        ReportView { message: self.message@, successful: self.successful }
    }
}

/// The text of an optional warning.
pub open spec fn warning_text(warning: Option<String>) -> Option<Seq<char>> {
    match warning {
        Some(warning) => Some(warning@),
        None => None,
    }
}

} // verus!

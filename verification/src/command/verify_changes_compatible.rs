//! Verify that the deployed and local changes are compatible: what the
//! command reports.

use vstd::prelude::*;

use crate::command::{Report, ReportView};

verus! {

/// What the command reports for an outcome of the check: the outcome is
/// nothing where the stack has no deployment metadata, and else whether the
/// changes are compatible.
pub open spec fn reported(changes_compatible: Option<bool>) -> ReportView {
    match changes_compatible {
        None => ReportView {
            message: "Stack currently deployed does not have deployment metadata"@,
            successful: false,
        },
        Some(true) => ReportView { message: "Changes are compatible"@, successful: true },
        Some(false) => ReportView { message: "Changes are NOT compatible"@, successful: false },
    }
}

/// What the command reports for an outcome of the check. Changes that are not
/// compatible are no error, but the command is not successful then.
pub fn report(changes_compatible: Option<bool>) -> (res: Report)
    ensures
        res@ == reported(changes_compatible),
{
    match changes_compatible {
        None => Report {
            message: "Stack currently deployed does not have deployment metadata".to_owned(),
            successful: false,
        },
        Some(true) => Report { message: "Changes are compatible".to_owned(), successful: true },
        Some(false) => Report {
            message: "Changes are NOT compatible".to_owned(),
            successful: false,
        },
    }
}

} // verus!

//! When a completed audit fails the policy that the user selected.

use vstd::prelude::*;
use crate::report::Summary;

verus! {

/// Which findings make a completed audit fail.
#[derive(Clone, Copy, Debug, PartialEq, Eq, Structural)]
pub enum FailOn {
    /// No findings do.
    Never,
    /// Error findings do.
    Broken,
    /// Any finding does.
    Any,
}

pub open spec fn policy_fails(fail_on: FailOn, s: Summary) -> bool {
    match fail_on {
        FailOn::Never => false,
        FailOn::Broken => s.broken > 0,
        FailOn::Any => s.broken > 0 || s.warnings > 0,
    }
}

/// Whether a summary fails the selected policy.
pub fn policy_failed(fail_on: FailOn, summary: &Summary) -> (r: bool)
    ensures
        r == policy_fails(fail_on, *summary),
{
    match fail_on {
        FailOn::Never => false,
        FailOn::Broken => summary.broken > 0,
        FailOn::Any => summary.broken > 0 || summary.warnings > 0,
    }
}

/// The exit status of a completed audit: 1 when the policy fails, 0 otherwise.
pub fn completed_exit_status(fail_on: FailOn, summary: &Summary) -> (code: u8)
    ensures
        code == (if policy_fails(fail_on, *summary) { 1u8 } else { 0u8 }),
{
    if policy_failed(fail_on, summary) {
        1
    } else {
        0
    }
}

} // verus!

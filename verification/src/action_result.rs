//! Results of steps and tasks.
use vstd::prelude::*;

verus! {

/// The result of a step.
#[derive(Debug, Clone, Copy, PartialEq, Eq, Hash, Structural)]
pub enum ActionResult {
    Success,
    Failure,
    Cancelled,
    Skipped,
}

impl ActionResult {
    /// Whether the step succeeded.
    pub fn is_success(&self) -> (r: bool)
        ensures
            r == (*self == ActionResult::Success),
    {
        match self {
            ActionResult::Success => true,
            _ => false,
        }
    }

    /// The result's name.
    pub fn name(&self) -> (r: &'static str)
        ensures
            r@ == match *self {
                ActionResult::Success => "Success"@,
                ActionResult::Failure => "Failure"@,
                ActionResult::Cancelled => "Cancelled"@,
                ActionResult::Skipped => "Skipped"@,
            },
    {
        match self {
            ActionResult::Success => "Success",
            ActionResult::Failure => "Failure",
            ActionResult::Cancelled => "Cancelled",
            ActionResult::Skipped => "Skipped",
        }
    }
}

} // verus!

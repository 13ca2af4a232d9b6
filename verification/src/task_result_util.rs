//! Results of tasks, and the return codes that carry them between processes.
use vstd::prelude::*;

use crate::action_result::ActionResult;

verus! {

/// What is added to a result's number to make a return code.
pub const RETURN_CODE_OFFSET: i32 = 100;

/// The result of a task, from best to worst.
#[derive(Debug, Clone, Copy, PartialEq, Eq, PartialOrd, Ord, Hash, Structural)]
pub enum TaskResult {
    Succeeded,
    SucceededWithIssues,
    Failed,
    Canceled,
    Skipped,
    Abandoned,
}

impl TaskResult {
    /// The result's number, which grows with its severity.
    pub open spec fn severity(self) -> int {
        match self {
            TaskResult::Succeeded => 0,
            TaskResult::SucceededWithIssues => 1,
            TaskResult::Failed => 2,
            TaskResult::Canceled => 3,
            TaskResult::Skipped => 4,
            TaskResult::Abandoned => 5,
        }
    }

    fn number(self) -> (r: i32)
        ensures
            r == self.severity(),
    {
        match self {
            TaskResult::Succeeded => 0,
            TaskResult::SucceededWithIssues => 1,
            TaskResult::Failed => 2,
            TaskResult::Canceled => 3,
            TaskResult::Skipped => 4,
            TaskResult::Abandoned => 5,
        }
    }

    /// The result with this number.
    pub fn from_i32(value: i32) -> (r: Option<Self>)
        ensures
            r is Some <==> 0 <= value <= 5,
            r matches Some(result) ==> result.severity() == value,
    {
        match value {
            0 => Some(TaskResult::Succeeded),
            1 => Some(TaskResult::SucceededWithIssues),
            2 => Some(TaskResult::Failed),
            3 => Some(TaskResult::Canceled),
            4 => Some(TaskResult::Skipped),
            5 => Some(TaskResult::Abandoned),
            _ => None,
        }
    }

    /// The result of a step whose task ended like this.
    pub fn to_action_result(self) -> (r: ActionResult)
        ensures
            r == match self {
                TaskResult::Succeeded | TaskResult::SucceededWithIssues => ActionResult::Success,
                TaskResult::Failed | TaskResult::Abandoned => ActionResult::Failure,
                TaskResult::Canceled => ActionResult::Cancelled,
                TaskResult::Skipped => ActionResult::Skipped,
            },
    {
        match self {
            TaskResult::Succeeded | TaskResult::SucceededWithIssues => ActionResult::Success,
            TaskResult::Failed => ActionResult::Failure,
            TaskResult::Canceled => ActionResult::Cancelled,
            TaskResult::Skipped => ActionResult::Skipped,
            TaskResult::Abandoned => ActionResult::Failure,
        }
    }

    /// The result's name.
    pub fn name(&self) -> (r: &'static str)
        ensures
            r@ == match *self {
                TaskResult::Succeeded => "Succeeded"@,
                TaskResult::SucceededWithIssues => "SucceededWithIssues"@,
                TaskResult::Failed => "Failed"@,
                TaskResult::Canceled => "Canceled"@,
                TaskResult::Skipped => "Skipped"@,
                TaskResult::Abandoned => "Abandoned"@,
            },
    {
        match self {
            TaskResult::Succeeded => "Succeeded",
            TaskResult::SucceededWithIssues => "SucceededWithIssues",
            TaskResult::Failed => "Failed",
            TaskResult::Canceled => "Canceled",
            TaskResult::Skipped => "Skipped",
            TaskResult::Abandoned => "Abandoned",
        }
    }
}

/// The return code of a result.
pub open spec fn code_of(result: TaskResult) -> int {
    RETURN_CODE_OFFSET + result.severity()
}

/// The return code stands for a result.
pub open spec fn valid_code(code: int) -> bool {
    RETURN_CODE_OFFSET <= code <= RETURN_CODE_OFFSET + 5
}

/// The result that a return code stands for; an unknown code stands for a failure.
pub open spec fn result_of(code: int) -> TaskResult {
    if code == 100 {
        TaskResult::Succeeded
    } else if code == 101 {
        TaskResult::SucceededWithIssues
    } else if code == 103 {
        TaskResult::Canceled
    } else if code == 104 {
        TaskResult::Skipped
    } else if code == 105 {
        TaskResult::Abandoned
    } else {
        TaskResult::Failed
    }
}

/// The worse of two results.
pub open spec fn worse(a: TaskResult, b: TaskResult) -> TaskResult {
    if b.severity() >= a.severity() {
        b
    } else {
        a
    }
}

/// Return codes of tasks.
pub struct TaskResultUtil;

impl TaskResultUtil {
    /// Whether a return code stands for a result.
    pub fn is_valid_return_code(return_code: i32) -> (r: bool)
        ensures
            r == valid_code(return_code as int),
    {
        RETURN_CODE_OFFSET <= return_code && TaskResult::from_i32(
            return_code - RETURN_CODE_OFFSET,
        ).is_some()
    }

    /// The return code of a result.
    pub fn translate_to_return_code(result: TaskResult) -> (r: i32)
        ensures
            r == code_of(result),
    {
        RETURN_CODE_OFFSET + result.number()
    }

    /// The result that a return code stands for; an unknown code stands for a failure.
    pub fn translate_from_return_code(return_code: i32) -> (r: TaskResult)
        ensures
            r == result_of(return_code as int),
    {
        if return_code < RETURN_CODE_OFFSET {
            return TaskResult::Failed;
        }
        match TaskResult::from_i32(return_code - RETURN_CODE_OFFSET) {
            Some(result) => result,
            None => TaskResult::Failed,
        }
    }

    /// The worse of a result so far, if there is one, and another.
    pub fn merge_task_results(current_result: Option<TaskResult>, coming_result: TaskResult) -> (r:
        TaskResult)
        ensures
            r == match current_result {
                Some(current) => worse(current, coming_result),
                None => coming_result,
            },
    {
        match current_result {
            None => coming_result,
            Some(current) => if coming_result.number() >= current.number() {
                coming_result
            } else {
                current
            },
        }
    }
}

/// A result that travels as a return code arrives as it was.
pub proof fn law_code_reads_back(result: TaskResult)
    ensures
        valid_code(code_of(result)),
        result_of(code_of(result)) == result,
{
}

/// Distinct valid codes stand for distinct results.
pub proof fn law_valid_codes_are_distinct(a: int, b: int)
    requires
        valid_code(a),
        valid_code(b),
        result_of(a) == result_of(b),
    ensures
        a == b,
{
}

/// Merging never improves a result, and the order of merging does not matter.
pub proof fn law_merge_keeps_the_worst(a: TaskResult, b: TaskResult, c: TaskResult)
    ensures
        worse(a, b).severity() >= a.severity(),
        worse(a, b).severity() >= b.severity(),
        worse(a, b) == a || worse(a, b) == b,
        worse(a, b) == worse(b, a),
        worse(worse(a, b), c) == worse(a, worse(b, c)),
        worse(a, a) == a,
{
}

/// Results are ordered from success to abandonment, and their return codes are the six from
/// 100 on.
pub proof fn law_results_are_ordered()
    ensures
        code_of(TaskResult::Succeeded) == 100,
        code_of(TaskResult::SucceededWithIssues) == 101,
        code_of(TaskResult::Failed) == 102,
        code_of(TaskResult::Canceled) == 103,
        code_of(TaskResult::Skipped) == 104,
        code_of(TaskResult::Abandoned) == 105,
{
}

/// A return code that stands for no result counts as a failure, never as a success.
pub proof fn law_unknown_code_is_a_failure(code: int)
    ensures
        valid_code(code) <==> 100 <= code <= 105,
        code < 100 || code > 105 ==> result_of(code) == TaskResult::Failed,
{
}

} // verus!

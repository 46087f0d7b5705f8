use vstd::prelude::*;
use crate::text::{chars_of, extend_chars, own, str_eq, string_of};

verus! {

/// One action of the chain run after a screenshot.
#[derive(Debug, Clone)]
pub struct WorkflowStep {
    pub action: String,
}

impl WorkflowStep {
    /// A step running `action`.
    pub fn new(action: &str) -> (s: Self)
        ensures
            s.action@ == action@,
    {
        WorkflowStep { action: own(action) }
    }
}

/// What the chain has done so far: the summaries of the steps that
/// succeeded, and each failed step's action with its error, in order.
#[derive(Debug, Clone)]
pub struct WorkflowActionResult {
    pub succeeded: Vec<String>,
    pub failed: Vec<(String, String)>,
}

impl WorkflowActionResult {
    /// A chain that has not run any step.
    pub fn new() -> (r: Self)
        ensures
            r.succeeded@.len() == 0,
            r.failed@.len() == 0,
    {
        WorkflowActionResult { succeeded: Vec::new(), failed: Vec::new() }
    }

    /// Whether no step succeeded.
    pub fn is_total_failure(&self) -> (r: bool)
        ensures
            r == (self.succeeded@.len() == 0),
    {
        self.succeeded.len() == 0
    }
}

/// The actions a step can run.
#[derive(Debug, Clone, Copy, PartialEq, Eq, Structural)]
pub enum WorkflowAction {
    Copy,
    Save,
    Pin,
    Ai,
}

/// The action a step names, or the error of an unknown one.
pub open spec fn step_dispatch(action: Seq<char>) -> Result<WorkflowAction, Seq<char>> {
    if action == "copy"@ {
        Ok(WorkflowAction::Copy)
    } else if action == "save"@ {
        Ok(WorkflowAction::Save)
    } else if action == "pin"@ {
        Ok(WorkflowAction::Pin)
    } else if action == "ai"@ {
        Ok(WorkflowAction::Ai)
    } else {
        Err("不支持的截图动作: "@ + action)
    }
}

/// Decides what a step runs; an unknown action fails without running anything.
pub fn dispatch_step(step: &WorkflowStep) -> (r: Result<WorkflowAction, String>)
    ensures
        match step_dispatch(step.action@) {
            Ok(a) => r == Ok::<WorkflowAction, String>(a),
            Err(m) => r is Err && r->Err_0@ == m,
        },
{
    let a = step.action.as_str();
    if str_eq(a, "copy") {
        Ok(WorkflowAction::Copy)
    } else if str_eq(a, "save") {
        Ok(WorkflowAction::Save)
    } else if str_eq(a, "pin") {
        Ok(WorkflowAction::Pin)
    } else if str_eq(a, "ai") {
        Ok(WorkflowAction::Ai)
    } else {
        let mut m = chars_of("不支持的截图动作: ");
        let ac = chars_of(a);
        extend_chars(&mut m, ac.as_slice());
        Err(string_of(m.as_slice()))
    }
}

/// Records the outcome of one step and goes on: a success adds its summary,
/// a failure adds the step's action with its error.
pub fn record_step_result(result: &mut WorkflowActionResult, step: &WorkflowStep, outcome: Result<String, String>)
    ensures
        match outcome {
            Ok(summary) => final(result).succeeded@ == old(result).succeeded@.push(summary)
                && final(result).failed@ == old(result).failed@,
            Err(error) => final(result).succeeded@ == old(result).succeeded@
                && final(result).failed@.len() == old(result).failed@.len() + 1
                && final(result).failed@.take(old(result).failed@.len() as int) == old(result).failed@
                && final(result).failed@.last().0@ == step.action@
                && final(result).failed@.last().1@ == error@,
        },
{
    match outcome {
        Ok(summary) => result.succeeded.push(summary),
        Err(error) => {
            let ghost before = result.failed@;
            result.failed.push((step.action.clone(), error));
            assert(result.failed@.take(before.len() as int) =~= before);
        },
    }
}

} // verus!

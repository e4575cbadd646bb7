//! The stopping rules of a plan's execution loop (observe, identify, reduce,
//! act, until the goal is reached): overall timeout, cancellation,
//! accessibility failures, unknown screens, and the step budget.

use crate::text::decimal;
use vstd::prelude::*;

verus! {

broadcast use vstd::string::group_string_axioms;

/// How a plan's execution ended.
#[derive(Debug)]
pub struct ExecutionResult {
    pub success: bool,
    pub error: Option<String>,
}

/// The longest an execution may run, in milliseconds.
pub const EXECUTION_TIMEOUT_MS: u64 = 300_000;

/// The longest no known screen may be identified, in milliseconds.
pub const UNKNOWN_STATE_TIMEOUT_MS: u64 = 60_000;

/// The most steps an execution takes.
pub const MAX_STEPS: u32 = 500;

/// Accessibility failures in a row that abort the execution.
pub const MAX_A11Y_FAILURES: u32 = 8;

/// The failure count at which receive-only mode restarts the accessibility daemon.
pub const A11Y_REPROBE_AT: u32 = 3;

/// The message of the `failed` event sent when accessibility stays unavailable.
pub const A11Y_ABORT_MESSAGE: &'static str = "Accessibility unavailable, login aborted";

/// The view of an execution result: success and the error text.
pub open spec fn result_view(r: ExecutionResult) -> (bool, Option<Seq<char>>) {
    (
        r.success,
        match r.error {
            Some(e) => Some(e@),
            None => None,
        },
    )
}

/// A failed execution with the given error.
pub open spec fn failure(e: Seq<char>) -> (bool, Option<Seq<char>>) {
    (false, Some(e))
}

fn failed(error: String) -> (r: ExecutionResult)
    ensures
        result_view(r) == failure(error@),
{
    ExecutionResult { success: false, error: Some(error) }
}

/// Whether to stop before a step, `elapsed_ms` into the execution: past
/// the overall timeout it fails with `Execution timeout after <s>s`; when
/// cancelled it fails with `Aborted`.
pub fn check_step_start(elapsed_ms: u64, cancelled: bool) -> (r: Option<ExecutionResult>)
    ensures
        match r {
            Some(res) => if elapsed_ms > EXECUTION_TIMEOUT_MS {
                result_view(res) == failure(
                    "Execution timeout after "@ + decimal((elapsed_ms / 1000) as nat) + "s"@,
                )
            } else {
                cancelled && result_view(res) == failure("Aborted"@)
            },
            None => elapsed_ms <= EXECUTION_TIMEOUT_MS && !cancelled,
        },
{
    if elapsed_ms > EXECUTION_TIMEOUT_MS {
        let mut msg = "Execution timeout after ".to_string();
        let secs = crate::text::u64_to_decimal(elapsed_ms / 1000);
        msg.append(secs.as_str());
        msg.append("s");
        return Some(failed(msg));
    }
    if cancelled {
        return Some(failed("Aborted".to_string()));
    }
    None
}

/// Whether step number `step` (counted from 0) is within the budget.
pub fn within_step_budget(step: u32) -> (r: bool)
    ensures
        r == (step < MAX_STEPS),
{
    step < MAX_STEPS
}

/// The result when the step budget runs out.
pub fn max_steps_result() -> (r: ExecutionResult)
    ensures
        result_view(r) == failure("Max steps reached"@),
{
    failed("Max steps reached".to_string())
}

/// What to do after reading the accessibility tree.
#[derive(Debug)]
pub enum A11yDecision {
    /// The tree was read; go on with this step.
    Proceed,
    /// Wait and try again; restart the daemon first when `reprobe`.
    Retry { reprobe: bool },
    /// Give up: send the `failed` event and end with this result.
    Abort(ExecutionResult),
}

/// What to do after identifying the screen.
#[derive(Debug)]
pub enum ScreenDecision {
    /// A main window was identified; go on.
    Proceed,
    /// No known screen yet for this many seconds; wait and look again.
    Wait { unknown_secs: u64 },
    /// No known screen for too long; end with this result.
    Fail(ExecutionResult),
}

/// The counters an execution keeps between steps.
pub struct ExecutionMonitor {
    consecutive_a11y_failures: u32,
    unknown_since_ms: Option<u64>,
}

impl ExecutionMonitor {
    #[verifier::type_invariant]
    spec fn failures_below_limit(self) -> bool {
        self.consecutive_a11y_failures < MAX_A11Y_FAILURES
    }

    /// Accessibility failures in a row so far.
    pub closed spec fn failures(self) -> nat {
        self.consecutive_a11y_failures as nat
    }

    /// Since when (milliseconds into the execution) no known screen was seen.
    pub closed spec fn unknown_since(self) -> Option<u64> {
        self.unknown_since_ms
    }

    /// A monitor with no failures and no unknown screen.
    pub fn new() -> (r: ExecutionMonitor)
        ensures
            r.failures() == 0,
            r.unknown_since() is None,
    {
        ExecutionMonitor { consecutive_a11y_failures: 0, unknown_since_ms: None }
    }

    /// Records whether the accessibility tree was read: success clears the
    /// count; a failure counts, restarts the daemon at the third failure in
    /// receive-only mode, and aborts with `a11y unavailable` at the eighth.
    pub fn on_a11y_result(&mut self, ok: bool, receive_only: bool) -> (r: A11yDecision)
        ensures
            final(self).unknown_since() == old(self).unknown_since(),
            if ok {
                r is Proceed && final(self).failures() == 0
            } else if old(self).failures() + 1 >= MAX_A11Y_FAILURES {
                r matches A11yDecision::Abort(res) && result_view(res) == failure("a11y unavailable"@)
            } else {
                r == A11yDecision::Retry { reprobe: receive_only && old(self).failures() + 1 == A11Y_REPROBE_AT }
                    && final(self).failures() == old(self).failures() + 1
            },
    {
        proof {
            use_type_invariant(&*self);
        }
        if ok {
            self.consecutive_a11y_failures = 0;
            return A11yDecision::Proceed;
        }
        let failures = self.consecutive_a11y_failures + 1;
        if failures >= MAX_A11Y_FAILURES {
            return A11yDecision::Abort(failed("a11y unavailable".to_string()));
        }
        self.consecutive_a11y_failures = failures;
        A11yDecision::Retry { reprobe: receive_only && failures == A11Y_REPROBE_AT }
    }

    /// Records whether a main window was identified at `now_ms` (milliseconds
    /// into the execution): one clears the unknown-screen clock; without one
    /// the clock starts (if it has not), and past the unknown-screen timeout
    /// the execution fails with
    /// `Unknown state for <s>s - no matching IAState found`.
    pub fn on_screen(&mut self, main_window_found: bool, now_ms: u64) -> (r: ScreenDecision)
        requires
            old(self).unknown_since() matches Some(s) ==> s <= now_ms,
        ensures
            final(self).failures() == old(self).failures(),
            if main_window_found {
                r is Proceed && final(self).unknown_since() is None
            } else {
                let since = match old(self).unknown_since() {
                    Some(s) => s,
                    None => now_ms,
                };
                let elapsed = now_ms - since;
                &&& final(self).unknown_since() == Some(since)
                &&& if elapsed > UNKNOWN_STATE_TIMEOUT_MS {
                    r matches ScreenDecision::Fail(res) && result_view(res) == failure(
                        "Unknown state for "@ + decimal((elapsed / 1000) as nat)
                            + "s - no matching IAState found"@,
                    )
                } else {
                    r == ScreenDecision::Wait { unknown_secs: (elapsed / 1000) as u64 }
                }
            },
    {
        proof {
            use_type_invariant(&*self);
        }
        if main_window_found {
            self.unknown_since_ms = None;
            return ScreenDecision::Proceed;
        }
        let since = match self.unknown_since_ms {
            Some(s) => s,
            None => now_ms,
        };
        self.unknown_since_ms = Some(since);
        let elapsed = now_ms - since;
        if elapsed > UNKNOWN_STATE_TIMEOUT_MS {
            let mut msg = "Unknown state for ".to_string();
            let secs = crate::text::u64_to_decimal(elapsed / 1000);
            msg.append(secs.as_str());
            msg.append("s - no matching IAState found");
            return ScreenDecision::Fail(failed(msg));
        }
        ScreenDecision::Wait { unknown_secs: elapsed / 1000 }
    }
}

/// Whether to stop after a step's action: success when the goal is reached,
/// `No action selected` when the plan chose nothing, else go on.
pub fn check_after_action(goal_reached: bool, action_selected: bool) -> (r: Option<ExecutionResult>)
    ensures
        match r {
            Some(res) => if goal_reached {
                result_view(res) == (true, Option::<Seq<char>>::None)
            } else {
                !action_selected && result_view(res) == failure("No action selected"@)
            },
            None => !goal_reached && action_selected,
        },
{
    if goal_reached {
        return Some(ExecutionResult { success: true, error: None });
    }
    if !action_selected {
        return Some(failed("No action selected".to_string()));
    }
    None
}

} // verus!

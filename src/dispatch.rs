use vstd::prelude::*;
use vstd::string::StringExecFns;
use crate::error::HostError;

verus! {

/// The code a failed call returns.
pub const CALL_FAILED: i32 = -1;

/// What the engine reports after running a function.
#[derive(Debug, PartialEq, Eq)]
pub enum CallOutcome {
    /// The function returned; its single result, if it has one.
    Returned(Option<i32>),
    /// A WASI entry point exited with a process-style code.
    Exit { code: i32, message: String },
    /// The call trapped or was interrupted; the text of the root cause and
    /// the full message.
    Trapped { root_cause: String, message: String },
}

/// The root-cause text with which an interrupted call ends.
pub open spec fn timeout_text() -> Seq<char> {
    seq!['t', 'i', 'm', 'e', 'o', 'u', 't']
}

/// The name of the conventional WASI start entry point.
pub open spec fn start_text() -> Seq<char> {
    seq!['_', 's', 't', 'a', 'r', 't']
}

/// The code a call returns for an outcome.
pub open spec fn outcome_code(o: CallOutcome) -> i32 {
    match o {
        CallOutcome::Exit { code, .. } => code,
        CallOutcome::Trapped { .. } => CALL_FAILED,
        CallOutcome::Returned(None) => 0,
        CallOutcome::Returned(Some(v)) => v,
    }
}

/// Whether an outcome is a failure that is recorded on the plugin.
pub open spec fn outcome_fails(o: CallOutcome) -> bool {
    match o {
        CallOutcome::Exit { code, .. } => code != 0,
        CallOutcome::Trapped { .. } => true,
        CallOutcome::Returned(_) => false,
    }
}

/// The error recorded for a failing outcome.
pub open spec fn outcome_error(o: CallOutcome) -> HostError {
    match o {
        CallOutcome::Exit { code, message } => HostError::Exit { code, message },
        CallOutcome::Trapped { root_cause, message } => if root_cause@ == timeout_text() {
            HostError::Timeout
        } else {
            HostError::CallFailed(message)
        },
        CallOutcome::Returned(_) => HostError::Timeout,
    }
}

/// A call whose root cause is a timeout is classified as one and returns the
/// failure code.
pub proof fn lemma_timeout_classified(outcome: CallOutcome)
    requires
        outcome matches CallOutcome::Trapped { root_cause, .. } && root_cause@ == timeout_text(),
    ensures
        outcome_code(outcome) == CALL_FAILED,
        outcome_fails(outcome),
        outcome_error(outcome) == HostError::Timeout,
{
}

/// Whether `s` is the text `t`.
fn text_is(s: &String, t: &str) -> (r: bool)
    ensures
        r == (s@ == t@),
{
    let t = String::from_str(t);
    *s == t
}

/// Whether a root cause names a timeout.
pub fn is_timeout(root_cause: &String) -> (r: bool)
    ensures
        r == (root_cause@ == timeout_text()),
{
    proof {
        reveal_strlit("timeout");
    }
    assert("timeout"@ =~= timeout_text());
    text_is(root_cause, "timeout")
}

/// Whether a function name is the WASI start entry point.
pub fn is_start(name: &String) -> (r: bool)
    ensures
        r == (name@ == start_text()),
{
    proof {
        reveal_strlit("_start");
    }
    assert("_start"@ =~= start_text());
    text_is(name, "_start")
}

/// Checks the result arity of a function before it runs: 0 or 1 results
/// are accepted, more are refused.
pub fn check_arity(name: &String, count: usize) -> (r: Result<usize, HostError>)
    ensures
        count <= 1 ==> r == Ok::<usize, HostError>(count),
        count > 1 ==> (r matches Err(HostError::TooManyResults { name: n, count: c }) && n@
            == name@ && c == count),
{
    if count > 1 {
        Err(HostError::TooManyResults { name: name.clone(), count })
    } else {
        Ok(count)
    }
}

/// Classifies what the engine reported: an explicit exit code goes back
/// verbatim (recorded when nonzero), a timeout or any other trap gives the
/// failure code, a return gives 0 or the single result.
pub fn classify(outcome: CallOutcome) -> (r: (i32, Option<HostError>))
    ensures
        r.0 == outcome_code(outcome),
        outcome_fails(outcome) <==> r.1 is Some,
        r.1 matches Some(e) ==> e == outcome_error(outcome),
{
    match outcome {
        CallOutcome::Exit { code, message } => {
            if code != 0 {
                (code, Some(HostError::Exit { code, message }))
            } else {
                (0, None)
            }
        },
        CallOutcome::Trapped { root_cause, message } => {
            if is_timeout(&root_cause) {
                (CALL_FAILED, Some(HostError::Timeout))
            } else {
                (CALL_FAILED, Some(HostError::CallFailed(message)))
            }
        },
        CallOutcome::Returned(None) => (0, None),
        CallOutcome::Returned(Some(v)) => (v, None),
    }
}

} // verus!

//! Result routing: successes to the primary channel, failures to the
//! diagnostic channel.
//!
//! Every result is rendered to exactly one line on exactly one channel:
//! a success as the machine-parseable `username@target`, a failure as a
//! diagnostic record naming the target, the username, the stage that
//! failed and the underlying cause. Nothing is filtered, deduplicated or
//! aggregated, and no failure ever stops the scan.

use vstd::prelude::*;
use vstd::string::StringExecFns;

use crate::attempt::AttemptResult;
use crate::attempt::Stage;

verus! {

/// One rendered result: a line for the primary output channel, or a record
/// for the diagnostic channel.
pub enum Emission {
    Primary(String),
    Diagnostic(String),
}

/// The name of a stage as it appears in diagnostic records.
pub open spec fn stage_label(s: Stage) -> Seq<char> {
    match s {
        Stage::Connect => "connect"@,
        Stage::Handshake => "handshake"@,
        Stage::Authenticate => "authenticate"@,
    }
}

/// The primary line for a successful attempt: `username@target`.
pub open spec fn success_line(target: Seq<char>, username: Seq<char>) -> Seq<char> {
    username + "@"@ + target
}

/// The diagnostic record for a failed attempt, naming the stage at which it
/// failed and the underlying cause.
pub open spec fn failure_line(
    target: Seq<char>,
    username: Seq<char>,
    stage: Stage,
    cause: Seq<char>,
) -> Seq<char> {
    "failed to "@ + stage_label(stage) + " as "@ + username + "@"@ + target + ": "@ + cause
}

/// The diagnostic name of a stage.
pub fn stage_name(s: Stage) -> (r: &'static str)
    ensures
        r@ == stage_label(s),
{
    match s {
        Stage::Connect => "connect",
        Stage::Handshake => "handshake",
        Stage::Authenticate => "authenticate",
    }
}

/// Render one result for its channel: a success becomes a primary
/// `username@target` line, a failure becomes a diagnostic record. Exactly
/// one emission per result, whatever the outcome.
pub fn render_result(r: &AttemptResult) -> (e: Emission)
    ensures
        r matches AttemptResult::Success { target, username } ==> (e matches Emission::Primary(
            line,
        ) && line@ == success_line(target@, username@)),
        r matches AttemptResult::Failure { target, username, stage, cause } ==> (
        e matches Emission::Diagnostic(line) && line@ == failure_line(
            target@,
            username@,
            *stage,
            cause@,
        )),
{
    match r {
        AttemptResult::Success { target, username } => {
            let mut line = String::new();
            line.append(username.as_str());
            line.append("@");
            line.append(target.as_str());
            proof {
                assert(line@ =~= success_line(target@, username@));
            }
            Emission::Primary(line)
        },
        AttemptResult::Failure { target, username, stage, cause } => {
            let mut line = String::new();
            line.append("failed to ");
            line.append(stage_name(*stage));
            line.append(" as ");
            line.append(username.as_str());
            line.append("@");
            line.append(target.as_str());
            line.append(": ");
            line.append(cause.as_str());
            proof {
                assert(line@ =~= failure_line(target@, username@, *stage, cause@));
            }
            Emission::Diagnostic(line)
        },
    }
}

} // verus!

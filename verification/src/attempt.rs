//! The staged life cycle of one authentication attempt.
//!
//! An attempt runs three strictly sequential stages — connect, handshake,
//! authenticate — and resolves with exactly one result. Only the connect
//! stage carries an explicit deadline; a timeout there resolves the attempt
//! as a connect-stage failure. The surrounding binary performs the network
//! work of each stage and feeds the outcome back through [`AttemptExec::step`],
//! which decides how the attempt advances and how its result is classified.

use vstd::prelude::*;

verus! {

/// The three sequential steps of an attempt.
#[derive(Clone, Copy, Debug, PartialEq, Eq, Structural)]
pub enum Stage {
    Connect,
    Handshake,
    Authenticate,
}

/// Which stage an in-flight attempt is about to run, or `Resolved` once it
/// has produced its result.
#[derive(Clone, Copy, Debug, PartialEq, Eq, Structural)]
pub enum Phase {
    Connect,
    Handshake,
    Authenticate,
    Resolved,
}

/// The outcome of running one stage, reported by the transport driver.
/// `TimedOut` is only ever produced by the connect stage, the one stage
/// bounded by the configured deadline.
pub enum StageEvent {
    Succeeded,
    Failed(String),
    TimedOut,
}

/// The single result an attempt resolves to: either the credential was
/// accepted for (target, username), or the attempt failed at one stage
/// with an underlying cause.
pub enum AttemptResult {
    Success { target: String, username: String },
    Failure { target: String, username: String, stage: Stage, cause: String },
}

/// The stage a still-running phase is about to execute.
pub open spec fn stage_for(p: Phase) -> Stage
    recommends
        !(p is Resolved),
{
    match p {
        Phase::Connect => Stage::Connect,
        Phase::Handshake => Stage::Handshake,
        _ => Stage::Authenticate,
    }
}

/// One attempt being driven through its stages.
pub struct AttemptExec {
    pub target: String,
    pub username: String,
    pub phase: Phase,
}

impl AttemptExec {
    /// Start an attempt at its first stage.
    pub fn new(target: String, username: String) -> (r: AttemptExec)
        ensures
            r.phase is Connect,
            r.target@ == target@,
            r.username@ == username@,
    {
        AttemptExec { target, username, phase: Phase::Connect }
    }

    /// Advance the attempt by the outcome of the stage it was about to run.
    ///
    /// A succeeded stage moves to the next stage; success of the final
    /// stage resolves the attempt as `Success`. Any failure resolves it at
    /// once as a `Failure` tagged with the stage that failed; a connect
    /// deadline expiry resolves it as a connect-stage failure. No stage is
    /// retried, and a resolved attempt is never stepped again.
    pub fn step(&mut self, ev: StageEvent) -> (r: Option<AttemptResult>)
        requires
            !(old(self).phase is Resolved),
            ev is TimedOut ==> old(self).phase is Connect,
        ensures
            final(self).target@ == old(self).target@,
            final(self).username@ == old(self).username@,
            r is None <==> !(final(self).phase is Resolved),
            ev is Succeeded && old(self).phase is Connect ==> final(self).phase is Handshake
                && r is None,
            ev is Succeeded && old(self).phase is Handshake ==> final(self).phase is Authenticate
                && r is None,
            ev is Succeeded && old(self).phase is Authenticate ==> final(self).phase is Resolved
                && (r matches Some(res) && res matches AttemptResult::Success { target, username }
                && target@ == old(self).target@ && username@ == old(self).username@),
            ev matches StageEvent::Failed(why) ==> final(self).phase is Resolved && (
            r matches Some(res) && res matches AttemptResult::Failure {
                target,
                username,
                stage,
                cause,
            } && target@ == old(self).target@ && username@ == old(self).username@ && stage
                == stage_for(old(self).phase) && cause@ == why@),
            ev is TimedOut ==> final(self).phase is Resolved && (r matches Some(res)
                && res matches AttemptResult::Failure { target, username, stage, cause } && target@
                == old(self).target@ && username@ == old(self).username@ && stage is Connect
                && cause@ == "connect deadline elapsed"@),
    {
        match ev {
            StageEvent::Succeeded => {
                match self.phase {
                    Phase::Connect => {
                        self.phase = Phase::Handshake;
                        None
                    },
                    Phase::Handshake => {
                        self.phase = Phase::Authenticate;
                        None
                    },
                    _ => {
                        self.phase = Phase::Resolved;
                        Some(
                            AttemptResult::Success {
                                target: self.target.clone(),
                                username: self.username.clone(),
                            },
                        )
                    },
                }
            },
            StageEvent::Failed(why) => {
                let stage = match self.phase {
                    Phase::Connect => Stage::Connect,
                    Phase::Handshake => Stage::Handshake,
                    _ => Stage::Authenticate,
                };
                self.phase = Phase::Resolved;
                Some(
                    AttemptResult::Failure {
                        target: self.target.clone(),
                        username: self.username.clone(),
                        stage,
                        cause: why,
                    },
                )
            },
            StageEvent::TimedOut => {
                self.phase = Phase::Resolved;
                Some(
                    AttemptResult::Failure {
                        target: self.target.clone(),
                        username: self.username.clone(),
                        stage: Stage::Connect,
                        cause: "connect deadline elapsed".to_owned(),
                    },
                )
            },
        }
    }
}

} // verus!

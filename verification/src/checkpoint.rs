//! Fine-grained resume. After each step the cursor of the last completed step is
//! recorded; a resumed run skips everything already applied and continues from the
//! next step.
use vstd::prelude::*;
use vstd::string::*;

use crate::step::{
    before, cursor_past_a_step_covers_it, every_remaining_step_runs, has_step,
    only_remaining_steps_run, plan_events, PhaseModel, PlanEvent,
};
use crate::text::{notation, number, pad_left, padded, same, show_text, shown_text};

verus! {

pub const PATH: &'static str = "/var/lib/raiden/checkpoint.toml";

pub struct Checkpoint {
    pub operation: String,
    pub config_hash: String,
    /// The operation's destructive scope (eg. the disks and layers of a replace), which
    /// the configuration does not capture.
    pub scope: String,
    /// The last completed step, and the phase it sits in.
    pub phase: usize,
    pub step: usize,
    pub phase_name: String,
}

/// Why a run cannot be resumed.
#[derive(Debug)]
pub enum ResumeError {
    NoCheckpoint,
    /// The checkpoint belongs to this other operation.
    OtherOperation(String),
    ConfigChanged,
    /// The target was this one.
    TargetChanged(String),
}

impl ResumeError {
    /// What is printed of the error, for this operation and scope.
    pub open spec fn text(self, op: Seq<char>, scope: Seq<char>) -> Seq<char> {
        match self {
            ResumeError::NoCheckpoint => "no checkpoint to resume; run without --resume"@,
            ResumeError::OtherOperation(other) => "checkpoint is for "@ + shown_text(other@)
                + ", not "@ + shown_text(op),
            ResumeError::ConfigChanged =>
                "config changed since the checkpoint; cannot resume safely"@,
            ResumeError::TargetChanged(was) => "the "@ + op
                + " target changed since the checkpoint (was ["@ + was@ + "], now ["@ + scope
                + "]); run without --resume to start fresh, or --resume with the original arguments"@,
        }
    }

    /// What is printed of the error.
    pub fn message(&self, op: &str, scope: &str) -> (r: String)
        ensures
            r@ == self.text(op@, scope@),
    {
        match self {
            ResumeError::NoCheckpoint =>
                "no checkpoint to resume; run without --resume".to_owned(),
            ResumeError::OtherOperation(other) => "checkpoint is for ".to_owned().concat(
                show_text(other.as_str()).as_str(),
            ).concat(", not ").concat(show_text(op).as_str()),
            ResumeError::ConfigChanged =>
                "config changed since the checkpoint; cannot resume safely".to_owned(),
            ResumeError::TargetChanged(was) => "the ".to_owned().concat(op).concat(
                " target changed since the checkpoint (was [",
            ).concat(was.as_str()).concat("], now [").concat(scope).concat(
                "]); run without --resume to start fresh, or --resume with the original arguments",
            ),
        }
    }
}

/// The cursor past the checkpoint's step.
pub open spec fn past(c: Checkpoint) -> (usize, usize) {
    (c.phase, (c.step + 1) as usize)
}

/// Whether the checkpoint is of this very run.
pub open spec fn matches_run(c: Checkpoint, op: Seq<char>, hash: Seq<char>, scope: Seq<char>) -> bool {
    c.operation@ == op && c.config_hash@ == hash && c.scope@ == scope
}

/// The cursor to start from. A fresh run starts at the beginning; a resumed one past
/// the checkpoint, which must be of the same operation, configuration and scope: the
/// cursor means nothing against another plan.
pub fn resume_start(
    op: &str,
    hash: &str,
    scope: &str,
    resume: bool,
    saved: Option<&Checkpoint>,
) -> (res: Result<(usize, usize), ResumeError>)
    requires
        saved is Some ==> saved->0.step < usize::MAX,
    ensures
        !resume ==> res is Ok && res->Ok_0 == (0usize, 0usize),
        resume ==> (res is Ok <==> saved is Some && matches_run(*saved->0, op@, hash@, scope@)),
        resume && res is Ok ==> res->Ok_0 == past(*saved->0),
        res is Err ==> match res->Err_0 {
            ResumeError::NoCheckpoint => saved is None,
            ResumeError::OtherOperation(o) => saved is Some && saved->0.operation@ != op@ && o@
                == saved->0.operation@,
            ResumeError::ConfigChanged => saved is Some && saved->0.operation@ == op@
                && saved->0.config_hash@ != hash@,
            ResumeError::TargetChanged(s) => saved is Some && saved->0.operation@ == op@
                && saved->0.config_hash@ == hash@ && saved->0.scope@ != scope@ && s@
                == saved->0.scope@,
        },
{
    if !resume {
        return Ok((0, 0));
    }
    match saved {
        None => Err(ResumeError::NoCheckpoint),
        Some(c) => {
            if !same(c.operation.as_str(), op) {
                Err(ResumeError::OtherOperation(c.operation.clone()))
            } else if !same(c.config_hash.as_str(), hash) {
                Err(ResumeError::ConfigChanged)
            } else if !same(c.scope.as_str(), scope) {
                Err(ResumeError::TargetChanged(c.scope.clone()))
            } else {
                Ok((c.phase, c.step + 1))
            }
        },
    }
}

/// The checkpoint of a completed step.
pub fn record(
    op: &str,
    hash: &str,
    scope: &str,
    phase: usize,
    step: usize,
    phase_name: &str,
) -> (r: Checkpoint)
    ensures
        matches_run(r, op@, hash@, scope@),
        r.phase == phase,
        r.step == step,
        r.phase_name@ == phase_name@,
{
    Checkpoint {
        operation: op.to_owned(),
        config_hash: hash.to_owned(),
        scope: scope.to_owned(),
        phase,
        step,
        phase_name: phase_name.to_owned(),
    }
}

/// A plan resumed from a checkpoint runs exactly the steps behind the checkpoint's
/// step: neither that one again, nor one before it, and all the others.
pub proof fn resume_runs_what_is_left(plan: Seq<PhaseModel>, c: Checkpoint, p: int, s: int)
    requires
        plan.len() <= usize::MAX,
        forall|i: int| 0 <= i < plan.len() ==> (#[trigger] plan[i]).steps.len() <= usize::MAX,
        c.step < usize::MAX,
        has_step(plan, p, s),
    ensures
        plan_events(plan, past(c)).contains(PlanEvent::Run(p as usize, s as usize)) <==> !(before(
            p,
            s,
            (c.phase, c.step),
        ) || (p == c.phase && s == c.step)),
{
    let start = past(c);
    let want = PlanEvent::Run(p as usize, s as usize);
    cursor_past_a_step_covers_it(p, s, (c.phase, c.step));
    if plan_events(plan, start).contains(want) {
        let i = choose|i: int|
            0 <= i < plan_events(plan, start).len() && plan_events(plan, start)[i] == want;
        only_remaining_steps_run(plan, start, i);
    }
    if !before(p, s, start) {
        every_remaining_step_runs(plan, start, p, s);
    }
}

/// The text of a fingerprint: sixteen hexadecimal digits.
pub fn fingerprint(hash: u64) -> (r: String)
    ensures
        r@ == padded(notation(hash as nat, 16), 16, '0'),
{
    pad_left(number(hash, 16), 16, '0')
}

/// A checkpoint is of a run only where the operation, the configuration and the target are
/// all the same.
pub proof fn a_changed_run_is_not_resumed(
    c: Checkpoint,
    op: Seq<char>,
    hash: Seq<char>,
    scope: Seq<char>,
)
    ensures
        matches_run(c, op, hash, scope) <==> c.operation@ == op && c.config_hash@ == hash
            && c.scope@ == scope,
        c.step < usize::MAX ==> past(c).0 == c.phase && past(c).1 == c.step + 1,
{
}

} // verus!

//! The move protocol for one task, as a state machine: existence check on
//! the target, then copy, then delete of the source. The caller performs
//! each store call that a step asks for and hands back its reply.
use vstd::prelude::*;
use crate::task::{Status, Task, TaskResult};

verus! {

/// Where the move of one task stands.
#[derive(Debug, Clone, Copy, PartialEq, Eq, Structural)]
pub enum Phase {
    /// The existence check on the target is pending.
    CheckExists,
    /// The copy to the target is pending.
    Copying,
    /// The copy succeeded and the delete of the source is pending.
    Deleting,
    /// The result is reported and nothing is left to do.
    Done,
}

/// The reply of the store to the pending call.
#[derive(Debug, Clone, Copy, PartialEq, Eq, Structural)]
pub enum Event {
    /// The existence check: `true` when it succeeded and found the target;
    /// `false` when it failed, "not found" included.
    Head(bool),
    /// The copy: `true` when it succeeded.
    Copy(bool),
    /// The delete: `true` when it succeeded.
    Delete(bool),
}

/// A call that the store is asked to make.
#[derive(Debug, Clone)]
pub enum StoreCall {
    Head { bucket: String, key: String },
    Copy { source_bucket: String, source_key: String, target_bucket: String, target_key: String },
    Delete { bucket: String, key: String },
}

/// What one step asks of its caller: a result to report (first), then a
/// store call to make.
#[derive(Debug, Clone)]
pub struct Step {
    pub report: Option<TaskResult>,
    pub call: Option<StoreCall>,
}

/// The move of one task in progress.
#[derive(Debug, Clone)]
pub struct MoveJob {
    pub task: Task,
    pub phase: Phase,
}

pub open spec fn head_call(t: Task) -> StoreCall {
    StoreCall::Head { bucket: t.target_bucket, key: t.target_key }
}

pub open spec fn copy_call(t: Task) -> StoreCall {
    StoreCall::Copy {
        source_bucket: t.source_bucket,
        source_key: t.object_key,
        target_bucket: t.target_bucket,
        target_key: t.target_key,
    }
}

pub open spec fn delete_call(t: Task) -> StoreCall {
    StoreCall::Delete { bucket: t.source_bucket, key: t.object_key }
}

pub open spec fn result_of(t: Task, s: Status) -> TaskResult {
    TaskResult { object_key: t.object_key, status: s }
}

/// One step of the protocol: the next phase, the result to report and the
/// store call to make. A reply that does not answer the pending call changes
/// nothing.
pub open spec fn transition(t: Task, p: Phase, e: Event) -> (Phase, Option<TaskResult>, Option<StoreCall>) {
    match (p, e) {
        (Phase::CheckExists, Event::Head(true)) => (Phase::Done, Some(result_of(t, Status::AlreadyExist)), None),
        (Phase::CheckExists, Event::Head(false)) => (Phase::Copying, None, Some(copy_call(t))),
        (Phase::Copying, Event::Copy(true)) => (Phase::Deleting, None, Some(delete_call(t))),
        (Phase::Copying, Event::Copy(false)) => (Phase::Done, Some(result_of(t, Status::Error)), None),
        (Phase::Deleting, Event::Delete(true)) => (Phase::Done, Some(result_of(t, Status::Moved)), None),
        (Phase::Deleting, Event::Delete(false)) => (Phase::Done, Some(result_of(t, Status::MovedButNotDeleted)), None),
        _ => (p, None, None),
    }
}

pub open spec fn opt_seq<A>(o: Option<A>) -> Seq<A> {
    match o {
        Some(a) => seq![a],
        None => Seq::empty(),
    }
}

/// The phase reached, the results reported and the calls asked for when the
/// replies `evs` arrive in turn from phase `p`.
pub open spec fn run(t: Task, p: Phase, evs: Seq<Event>) -> (Phase, Seq<TaskResult>, Seq<StoreCall>)
    decreases evs.len(),
{
    if evs.len() == 0 {
        (p, Seq::empty(), Seq::empty())
    } else {
        let (p1, r, c) = transition(t, p, evs[0]);
        let (p2, rs, cs) = run(t, p1, evs.drop_first());
        (p2, opt_seq(r) + rs, opt_seq(c) + cs)
    }
}

/// The results that a job on `t` reports over the replies `evs`.
pub open spec fn job_results(t: Task, evs: Seq<Event>) -> Seq<TaskResult> {
    run(t, Phase::CheckExists, evs).1
}

/// Every store call that a job on `t` asks for over the replies `evs`, the
/// first existence check included.
pub open spec fn job_calls(t: Task, evs: Seq<Event>) -> Seq<StoreCall> {
    seq![head_call(t)] + run(t, Phase::CheckExists, evs).2
}

/// The phase in which a job on `t` ends over the replies `evs`.
pub open spec fn job_phase(t: Task, evs: Seq<Event>) -> Phase {
    run(t, Phase::CheckExists, evs).0
}

pub open spec fn is_finished(p: Phase) -> bool {
    p == Phase::Done
}

impl MoveJob {
    /// Starts the move of `task`, with the existence check on its target.
    pub fn new(task: Task) -> (r: (MoveJob, StoreCall))
        ensures
            r.0.task == task,
            r.0.phase == Phase::CheckExists,
            r.1 == head_call(task),
    {
        let call = StoreCall::Head { bucket: task.target_bucket.clone(), key: task.target_key.clone() };
        (MoveJob { task, phase: Phase::CheckExists }, call)
    }

    /// Whether nothing is left to do.
    pub fn is_finished(&self) -> (r: bool)
        ensures
            r == is_finished(self.phase),
    {
        match self.phase {
            Phase::Done => true,
            _ => false,
        }
    }

    /// Takes the reply to the pending call.
    pub fn step(&mut self, e: Event) -> (s: Step)
        ensures
            final(self).task == old(self).task,
            (final(self).phase, s.report, s.call) == transition(old(self).task, old(self).phase, e),
    {
        let t = &self.task;
        match (self.phase, e) {
            (Phase::CheckExists, Event::Head(true)) => {
                let report = TaskResult { object_key: t.object_key.clone(), status: Status::AlreadyExist };
                self.phase = Phase::Done;
                Step { report: Some(report), call: None }
            },
            (Phase::CheckExists, Event::Head(false)) => {
                let call = StoreCall::Copy {
                    source_bucket: t.source_bucket.clone(),
                    source_key: t.object_key.clone(),
                    target_bucket: t.target_bucket.clone(),
                    target_key: t.target_key.clone(),
                };
                self.phase = Phase::Copying;
                Step { report: None, call: Some(call) }
            },
            (Phase::Copying, Event::Copy(true)) => {
                let call = StoreCall::Delete { bucket: t.source_bucket.clone(), key: t.object_key.clone() };
                self.phase = Phase::Deleting;
                Step { report: None, call: Some(call) }
            },
            (Phase::Copying, Event::Copy(false)) => {
                let report = TaskResult { object_key: t.object_key.clone(), status: Status::Error };
                self.phase = Phase::Done;
                Step { report: Some(report), call: None }
            },
            (Phase::Deleting, Event::Delete(true)) => {
                let report = TaskResult { object_key: t.object_key.clone(), status: Status::Moved };
                self.phase = Phase::Done;
                Step { report: Some(report), call: None }
            },
            (Phase::Deleting, Event::Delete(false)) => {
                let report = TaskResult {
                    object_key: t.object_key.clone(),
                    status: Status::MovedButNotDeleted,
                };
                self.phase = Phase::Done;
                Step { report: Some(report), call: None }
            },
            _ => Step { report: None, call: None },
        }
    }
}

} // verus!

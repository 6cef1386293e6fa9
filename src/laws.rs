//! What holds of every run of the move protocol, and of a migration as a
//! whole, over a model of the store as the set of its `(bucket, key)` pairs.
use vstd::prelude::*;
use crate::task::{Status, Task, TaskResult};
use crate::worker::{copy_call, delete_call, head_call, is_finished, job_calls, job_phase, job_results, result_of, run, transition, Event, Phase, StoreCall};

verus! {

/// Where a task's object is.
pub open spec fn source_of(t: Task) -> (Seq<char>, Seq<char>) {
    (t.source_bucket@, t.object_key@)
}

/// Where a task's object goes.
pub open spec fn target_of(t: Task) -> (Seq<char>, Seq<char>) {
    (t.target_bucket@, t.target_key@)
}

/// What a reply tells of the store: a successful copy made the target, a
/// successful delete removed the source.
pub open spec fn store_effect(
    store: Set<(Seq<char>, Seq<char>)>,
    t: Task,
    p: Phase,
    e: Event,
) -> Set<(Seq<char>, Seq<char>)> {
    match (p, e) {
        (Phase::Copying, Event::Copy(true)) => store.insert(target_of(t)),
        (Phase::Deleting, Event::Delete(true)) => store.remove(source_of(t)),
        _ => store,
    }
}

/// The store after the replies `evs` arrive in turn from phase `p`.
pub open spec fn store_after(
    store: Set<(Seq<char>, Seq<char>)>,
    t: Task,
    p: Phase,
    evs: Seq<Event>,
) -> Set<(Seq<char>, Seq<char>)>
    decreases evs.len(),
{
    if evs.len() == 0 {
        store
    } else {
        store_after(store_effect(store, t, p, evs[0]), t, transition(t, p, evs[0]).0, evs.drop_first())
    }
}

/// The results of each task, task by task.
pub open spec fn per_task_results(ts: Seq<Task>, traces: Seq<Seq<Event>>) -> Seq<Seq<TaskResult>> {
    Seq::new(ts.len(), |j: int| job_results(ts[j], traces[j]))
}

/// How many results worker `w` reports when task `i` goes to worker
/// `owner[i]`.
pub open spec fn worker_result_count(
    ts: Seq<Task>,
    traces: Seq<Seq<Event>>,
    owner: Seq<nat>,
    w: nat,
) -> nat
    decreases ts.len(),
{
    if ts.len() == 0 {
        0
    } else {
        worker_result_count(ts.drop_last(), traces.drop_last(), owner.drop_last(), w) + if owner.last()
            == w {
            job_results(ts.last(), traces.last()).len()
        } else {
            0
        }
    }
}

/// How many results workers `0..n` report together.
pub open spec fn pool_result_count(
    ts: Seq<Task>,
    traces: Seq<Seq<Event>>,
    owner: Seq<nat>,
    n: nat,
) -> nat
    decreases n,
{
    if n == 0 {
        0
    } else {
        pool_result_count(ts, traces, owner, (n - 1) as nat) + worker_result_count(
            ts,
            traces,
            owner,
            (n - 1) as nat,
        )
    }
}

proof fn lemma_finished(t: Task, p: Phase, evs: Seq<Event>)
    requires
        is_finished(p),
    ensures
        run(t, p, evs) == (p, Seq::<TaskResult>::empty(), Seq::<StoreCall>::empty()),
    decreases evs.len(),
{
    if evs.len() > 0 {
        lemma_finished(t, p, evs.drop_first());
    }
}

/// A result that says the copy was made: `Moved` or `MovedButNotDeleted`.
pub open spec fn is_copied(s: Status) -> bool {
    s == Status::Moved || s == Status::MovedButNotDeleted
}

proof fn lemma_from_deleting(t: Task, evs: Seq<Event>)
    ensures
        ({
            let r = run(t, Phase::Deleting, evs);
            ||| (r.0 == Phase::Deleting && r.1 == Seq::<TaskResult>::empty() && r.2 == Seq::<StoreCall>::empty())
            ||| (r.0 == Phase::Done && r.1 == seq![result_of(t, Status::Moved)] && r.2 == Seq::<StoreCall>::empty())
            ||| (r.0 == Phase::Done && r.1 == seq![result_of(t, Status::MovedButNotDeleted)] && r.2 == Seq::<StoreCall>::empty())
        }),
    decreases evs.len(),
{
    if evs.len() > 0 {
        let rest = evs.drop_first();
        match evs[0] {
            Event::Delete(ok) => {
                lemma_finished(t, Phase::Done, rest);
                let s = if ok { Status::Moved } else { Status::MovedButNotDeleted };
                assert(seq![result_of(t, s)] + Seq::<TaskResult>::empty() =~= seq![result_of(t, s)]);
                assert(Seq::<StoreCall>::empty() + Seq::<StoreCall>::empty() =~= Seq::<StoreCall>::empty());
            },
            _ => {
                lemma_from_deleting(t, rest);
                let r = run(t, Phase::Deleting, rest);
                assert(Seq::<TaskResult>::empty() + r.1 =~= r.1);
                assert(Seq::<StoreCall>::empty() + r.2 =~= r.2);
            },
        }
    }
}

proof fn lemma_from_copying(t: Task, evs: Seq<Event>)
    ensures
        ({
            let r = run(t, Phase::Copying, evs);
            ||| (r.0 == Phase::Copying && r.1 == Seq::<TaskResult>::empty() && r.2 == Seq::<StoreCall>::empty())
            ||| (r.0 == Phase::Deleting && r.1 == Seq::<TaskResult>::empty() && r.2 == seq![delete_call(t)])
            ||| (r.0 == Phase::Done && r.1 == seq![result_of(t, Status::Moved)] && r.2 == seq![delete_call(t)])
            ||| (r.0 == Phase::Done && r.1 == seq![result_of(t, Status::MovedButNotDeleted)] && r.2 == seq![delete_call(t)])
            ||| (r.0 == Phase::Done && r.1 == seq![result_of(t, Status::Error)] && r.2 == Seq::<StoreCall>::empty())
        }),
    decreases evs.len(),
{
    if evs.len() > 0 {
        let rest = evs.drop_first();
        match evs[0] {
            Event::Copy(true) => {
                lemma_from_deleting(t, rest);
                let r = run(t, Phase::Deleting, rest);
                assert(Seq::<TaskResult>::empty() + r.1 =~= r.1);
                assert(seq![delete_call(t)] + r.2 =~= seq![delete_call(t)]);
            },
            Event::Copy(false) => {
                lemma_finished(t, Phase::Done, rest);
                assert(seq![result_of(t, Status::Error)] + Seq::<TaskResult>::empty() =~= seq![result_of(t, Status::Error)]);
                assert(Seq::<StoreCall>::empty() + Seq::<StoreCall>::empty() =~= Seq::<StoreCall>::empty());
            },
            _ => {
                lemma_from_copying(t, rest);
                let r = run(t, Phase::Copying, rest);
                assert(Seq::<TaskResult>::empty() + r.1 =~= r.1);
                assert(Seq::<StoreCall>::empty() + r.2 =~= r.2);
            },
        }
    }
}

proof fn lemma_from_check(t: Task, evs: Seq<Event>)
    ensures
        ({
            let r = run(t, Phase::CheckExists, evs);
            ||| (r.0 == Phase::CheckExists && r.1 == Seq::<TaskResult>::empty() && r.2 == Seq::<StoreCall>::empty())
            ||| (r.0 == Phase::Done && r.1 == seq![result_of(t, Status::AlreadyExist)] && r.2 == Seq::<StoreCall>::empty())
            ||| (r.0 == Phase::Copying && r.1 == Seq::<TaskResult>::empty() && r.2 == seq![copy_call(t)])
            ||| (r.0 == Phase::Deleting && r.1 == Seq::<TaskResult>::empty() && r.2 == seq![copy_call(t), delete_call(t)])
            ||| (r.0 == Phase::Done && r.1 == seq![result_of(t, Status::Moved)] && r.2 == seq![copy_call(t), delete_call(t)])
            ||| (r.0 == Phase::Done && r.1 == seq![result_of(t, Status::MovedButNotDeleted)] && r.2 == seq![copy_call(t), delete_call(t)])
            ||| (r.0 == Phase::Done && r.1 == seq![result_of(t, Status::Error)] && r.2 == seq![copy_call(t)])
        }),
    decreases evs.len(),
{
    if evs.len() > 0 {
        let rest = evs.drop_first();
        match evs[0] {
            Event::Head(true) => {
                lemma_finished(t, Phase::Done, rest);
                assert(seq![result_of(t, Status::AlreadyExist)] + Seq::<TaskResult>::empty() =~= seq![result_of(t, Status::AlreadyExist)]);
                assert(Seq::<StoreCall>::empty() + Seq::<StoreCall>::empty() =~= Seq::<StoreCall>::empty());
            },
            Event::Head(false) => {
                lemma_from_copying(t, rest);
                let r = run(t, Phase::Copying, rest);
                assert(Seq::<TaskResult>::empty() + r.1 =~= r.1);
                assert(seq![copy_call(t)] + Seq::<StoreCall>::empty() =~= seq![copy_call(t)]);
                assert(seq![copy_call(t)] + seq![delete_call(t)] =~= seq![copy_call(t), delete_call(t)]);
            },
            _ => {
                lemma_from_check(t, rest);
                let r = run(t, Phase::CheckExists, rest);
                assert(Seq::<TaskResult>::empty() + r.1 =~= r.1);
                assert(Seq::<StoreCall>::empty() + r.2 =~= r.2);
            },
        }
    }
}

/// A job reports at most one result, and exactly one once it has finished.
pub proof fn lemma_one_result_per_job(t: Task, evs: Seq<Event>)
    ensures
        job_results(t, evs).len() <= 1,
        is_finished(job_phase(t, evs)) ==> job_results(t, evs).len() == 1,
{
    lemma_from_check(t, evs);
}

/// An object reported as moved (its source deleted or not) had exactly one
/// existence check, one copy and one delete asked for, in that order, and
/// nothing else.
pub proof fn lemma_moved_exactly_once(t: Task, evs: Seq<Event>)
    requires
        exists|i: int| 0 <= i < job_results(t, evs).len() && is_copied((#[trigger] job_results(t, evs)[i]).status),
    ensures
        job_calls(t, evs) == seq![head_call(t), copy_call(t), delete_call(t)],
{
    lemma_from_check(t, evs);
    assert(seq![head_call(t)] + seq![copy_call(t), delete_call(t)] =~= seq![head_call(t), copy_call(t), delete_call(t)]);
}

proof fn lemma_pool_drop_last(ts: Seq<Task>, traces: Seq<Seq<Event>>, owner: Seq<nat>, m: nat)
    requires
        ts.len() > 0,
        ts.len() == traces.len(),
        ts.len() == owner.len(),
        job_results(ts.last(), traces.last()).len() == 1,
    ensures
        pool_result_count(ts, traces, owner, m) == pool_result_count(
            ts.drop_last(),
            traces.drop_last(),
            owner.drop_last(),
            m,
        ) + if owner.last() < m {
            1nat
        } else {
            0nat
        },
    decreases m,
{
    if m > 0 {
        lemma_pool_drop_last(ts, traces, owner, (m - 1) as nat);
    }
}

/// A migration whose jobs have all finished reports exactly one result per
/// task, whatever the number of workers and however the tasks were shared
/// among them.
pub proof fn lemma_result_count(ts: Seq<Task>, traces: Seq<Seq<Event>>, owner: Seq<nat>, n: nat)
    requires
        ts.len() == traces.len(),
        ts.len() == owner.len(),
        forall|i: int| 0 <= i < owner.len() ==> #[trigger] owner[i] < n,
        forall|i: int| 0 <= i < ts.len() ==> is_finished(#[trigger] job_phase(ts[i], traces[i])),
    ensures
        pool_result_count(ts, traces, owner, n) == ts.len(),
    decreases ts.len(),
{
    if ts.len() > 0 {
        let k = ts.len() - 1;
        assert(is_finished(job_phase(ts[k], traces[k])));
        assert(owner[k] < n);
        lemma_one_result_per_job(ts[k], traces[k]);
        lemma_pool_drop_last(ts, traces, owner, n);
        assert forall|i: int| 0 <= i < ts.drop_last().len() implies is_finished(
            #[trigger] job_phase(ts.drop_last()[i], traces.drop_last()[i]),
        ) by {
            assert(is_finished(job_phase(ts[i], traces[i])));
        }
        assert forall|i: int| 0 <= i < owner.drop_last().len() implies #[trigger] owner.drop_last()[i]
            < n by {
            assert(owner[i] < n);
        }
        lemma_result_count(ts.drop_last(), traces.drop_last(), owner.drop_last(), n);
    } else {
        lemma_pool_zero(ts, traces, owner, n);
    }
}

proof fn lemma_pool_zero(ts: Seq<Task>, traces: Seq<Seq<Event>>, owner: Seq<nat>, m: nat)
    requires
        ts.len() == 0,
    ensures
        pool_result_count(ts, traces, owner, m) == 0,
    decreases m,
{
    if m > 0 {
        lemma_pool_zero(ts, traces, owner, (m - 1) as nat);
    }
}

/// Whatever the store answers for one task, the results of every other task
/// stay as they were.
pub proof fn lemma_no_cross_contamination(
    ts: Seq<Task>,
    traces: Seq<Seq<Event>>,
    i: int,
    other: Seq<Event>,
)
    requires
        ts.len() == traces.len(),
        0 <= i < ts.len(),
    ensures
        forall|j: int|
            0 <= j < ts.len() && j != i ==> (#[trigger] per_task_results(ts, traces.update(i, other))[j])
                == per_task_results(ts, traces)[j],
{
}

proof fn lemma_store_finished(store: Set<(Seq<char>, Seq<char>)>, t: Task, p: Phase, evs: Seq<Event>)
    requires
        is_finished(p),
    ensures
        store_after(store, t, p, evs) == store,
    decreases evs.len(),
{
    if evs.len() > 0 {
        lemma_store_finished(store, t, p, evs.drop_first());
    }
}

proof fn lemma_store_deleting_keeps_target(store: Set<(Seq<char>, Seq<char>)>, t: Task, evs: Seq<Event>)
    requires
        store.contains(target_of(t)),
        source_of(t) != target_of(t),
    ensures
        store_after(store, t, Phase::Deleting, evs).contains(target_of(t)),
    decreases evs.len(),
{
    if evs.len() > 0 {
        let s1 = store_effect(store, t, Phase::Deleting, evs[0]);
        let p1 = transition(t, Phase::Deleting, evs[0]).0;
        if p1 == Phase::Deleting {
            lemma_store_deleting_keeps_target(s1, t, evs.drop_first());
        } else {
            lemma_store_finished(s1, t, p1, evs.drop_first());
        }
    }
}

proof fn lemma_store_copying_moved(store: Set<(Seq<char>, Seq<char>)>, t: Task, evs: Seq<Event>)
    requires
        source_of(t) != target_of(t),
        run(t, Phase::Copying, evs).1.len() == 1,
        is_copied(run(t, Phase::Copying, evs).1[0].status),
    ensures
        store_after(store, t, Phase::Copying, evs).contains(target_of(t)),
    decreases evs.len(),
{
    lemma_from_copying(t, evs);
    if evs.len() > 0 {
        let rest = evs.drop_first();
        match evs[0] {
            Event::Copy(true) => {
                lemma_store_deleting_keeps_target(store.insert(target_of(t)), t, rest);
            },
            Event::Copy(false) => {
                lemma_finished(t, Phase::Done, rest);
                assert(run(t, Phase::Copying, evs).1[0].status == Status::Error);
            },
            _ => {
                assert(run(t, Phase::Copying, evs).1 =~= run(t, Phase::Copying, rest).1);
                lemma_store_copying_moved(store, t, rest);
            },
        }
    }
}

proof fn lemma_store_check_moved(store: Set<(Seq<char>, Seq<char>)>, t: Task, evs: Seq<Event>)
    requires
        source_of(t) != target_of(t),
        job_results(t, evs).len() == 1,
        is_copied(job_results(t, evs)[0].status),
    ensures
        store_after(store, t, Phase::CheckExists, evs).contains(target_of(t)),
    decreases evs.len(),
{
    if evs.len() > 0 {
        let rest = evs.drop_first();
        match evs[0] {
            Event::Head(true) => {
                lemma_finished(t, Phase::Done, rest);
                assert(job_results(t, evs)[0].status == Status::AlreadyExist);
            },
            Event::Head(false) => {
                assert(job_results(t, evs) =~= run(t, Phase::Copying, rest).1);
                lemma_store_copying_moved(store, t, rest);
            },
            _ => {
                assert(job_results(t, evs) =~= job_results(t, rest));
                lemma_store_check_moved(store, t, rest);
            },
        }
    }
}

/// Running a job again on an object that the first run copied (and reported
/// as `Moved` or `MovedButNotDeleted`) finds it at the target: it reports `AlreadyExist`, asks for no copy or delete, and leaves
/// the store as it was. This needs the source and the target to differ, and
/// the existence check of the second run to answer what the store holds.
pub proof fn lemma_rerun_idempotent(
    store: Set<(Seq<char>, Seq<char>)>,
    t: Task,
    first: Seq<Event>,
    second: Seq<Event>,
)
    requires
        source_of(t) != target_of(t),
        exists|i: int| 0 <= i < job_results(t, first).len() && is_copied((#[trigger] job_results(t, first)[i]).status),
        second.len() > 0,
        second[0] == Event::Head(store_after(store, t, Phase::CheckExists, first).contains(target_of(t))),
    ensures
        job_results(t, second) == seq![result_of(t, Status::AlreadyExist)],
        job_calls(t, second) == seq![head_call(t)],
        store_after(store_after(store, t, Phase::CheckExists, first), t, Phase::CheckExists, second)
            == store_after(store, t, Phase::CheckExists, first),
{
    lemma_from_check(t, first);
    lemma_store_check_moved(store, t, first);
    let s1 = store_after(store, t, Phase::CheckExists, first);
    let rest = second.drop_first();
    lemma_finished(t, Phase::Done, rest);
    lemma_store_finished(s1, t, Phase::Done, rest);
    assert(job_results(t, second) =~= seq![result_of(t, Status::AlreadyExist)]);
    assert(job_calls(t, second) =~= seq![head_call(t)]);
}

} // verus!

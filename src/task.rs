//! Tasks, their outcomes, and the tally of outcomes.
use vstd::prelude::*;
use crate::keys::{file_name, file_name_of, join, make_key};

verus! {

/// One object to move: where it is and where it goes.
#[derive(Debug, Clone)]
pub struct Task {
    pub source_bucket: String,
    pub target_bucket: String,
    pub object_key: String,
    pub target_key: String,
}

/// How the move of one object ended.
#[derive(Debug, Clone, Copy, PartialEq, Eq, Structural)]
pub enum Status {
    AlreadyExist,
    Moved,
    /// The copy succeeded but the delete of the source failed: the object is
    /// at the target and still at the source.
    MovedButNotDeleted,
    Error,
}

/// The outcome reported for one task.
#[derive(Debug, Clone)]
pub struct TaskResult {
    pub object_key: String,
    pub status: Status,
}

/// The task for a listed key: the key is moved as it is, and lands under the
/// destination path with its file name. A key without a file name gets no
/// task.
pub open spec fn task_for(
    source_bucket: Seq<char>,
    target_bucket: Seq<char>,
    destination_path: Seq<char>,
    key: Seq<char>,
    t: Option<Task>,
) -> bool {
    match file_name(key) {
        None => t is None,
        Some(name) => match t {
            None => false,
            Some(t) => {
                &&& t.source_bucket@ == source_bucket
                &&& t.target_bucket@ == target_bucket
                &&& t.object_key@ == key
                &&& t.target_key@ == join(destination_path, name)
            },
        },
    }
}

/// Builds the task for one listed key.
pub fn make_task(
    source_bucket: &str,
    target_bucket: &str,
    destination_path: &str,
    key: &str,
) -> (t: Option<Task>)
    ensures
        task_for(source_bucket@, target_bucket@, destination_path@, key@, t),
{
    match file_name_of(key) {
        None => None,
        Some(name) => Some(
            Task {
                source_bucket: String::from_str(source_bucket),
                target_bucket: String::from_str(target_bucket),
                object_key: String::from_str(key),
                target_key: make_key(destination_path, name.as_str()),
            },
        ),
    }
}

/// Builds the task for each listed key, in the order of the listing; a key
/// without a file name has `None` in its place.
pub fn plan_tasks(
    source_bucket: &str,
    target_bucket: &str,
    destination_path: &str,
    keys: &Vec<String>,
) -> (tasks: Vec<Option<Task>>)
    ensures
        tasks.len() == keys.len(),
        forall|i: int|
            0 <= i < keys.len() ==> task_for(
                source_bucket@,
                target_bucket@,
                destination_path@,
                #[trigger] keys[i]@,
                tasks[i],
            ),
{
    let mut tasks: Vec<Option<Task>> = Vec::new();
    let mut i: usize = 0;
    while i < keys.len()
        invariant
            i <= keys.len(),
            tasks.len() == i,
            forall|j: int|
                0 <= j < i ==> task_for(
                    source_bucket@,
                    target_bucket@,
                    destination_path@,
                    #[trigger] keys[j]@,
                    tasks[j],
                ),
        decreases keys.len() - i,
    {
        let t = make_task(source_bucket, target_bucket, destination_path, keys[i].as_str());
        tasks.push(t);
        i = i + 1;
    }
    tasks
}

/// The result reported for a listed key that gets no task.
pub fn unmapped_result(key: &str) -> (r: TaskResult)
    ensures
        r.object_key@ == key@,
        r.status == Status::Error,
{
    TaskResult { object_key: String::from_str(key), status: Status::Error }
}

/// The destination bucket: the one given, else the source bucket.
pub fn destination_bucket(given: Option<String>, source_bucket: &str) -> (b: String)
    ensures
        b@ == (match given {
            Some(g) => g@,
            None => source_bucket@,
        }),
{
    match given {
        Some(g) => g,
        None => String::from_str(source_bucket),
    }
}

/// How many results in `rs` have status `s`.
pub open spec fn count_status(rs: Seq<TaskResult>, s: Status) -> nat
    decreases rs.len(),
{
    if rs.len() == 0 {
        0
    } else {
        count_status(rs.drop_last(), s) + if rs.last().status == s {
            1nat
        } else {
            0nat
        }
    }
}

/// The number of results of each status.
#[derive(Debug, Clone, Copy, PartialEq, Eq, Structural)]
pub struct Tally {
    pub already_exist: usize,
    pub moved: usize,
    pub moved_but_not_deleted: usize,
    pub error: usize,
}

/// Counts the results by status.
pub fn tally(results: &Vec<TaskResult>) -> (t: Tally)
    ensures
        t.already_exist == count_status(results@, Status::AlreadyExist),
        t.moved == count_status(results@, Status::Moved),
        t.moved_but_not_deleted == count_status(results@, Status::MovedButNotDeleted),
        t.error == count_status(results@, Status::Error),
        t.already_exist + t.moved + t.moved_but_not_deleted + t.error == results.len(),
{
    let mut t = Tally { already_exist: 0, moved: 0, moved_but_not_deleted: 0, error: 0 };
    let mut i: usize = 0;
    while i < results.len()
        invariant
            i <= results.len(),
            t.already_exist == count_status(results@.subrange(0, i as int), Status::AlreadyExist),
            t.moved == count_status(results@.subrange(0, i as int), Status::Moved),
            t.moved_but_not_deleted == count_status(
                results@.subrange(0, i as int),
                Status::MovedButNotDeleted,
            ),
            t.error == count_status(results@.subrange(0, i as int), Status::Error),
            t.already_exist + t.moved + t.moved_but_not_deleted + t.error == i,
        decreases results.len() - i,
    {
        assert(results@.subrange(0, i + 1).drop_last() =~= results@.subrange(0, i as int));
        match results[i].status {
            Status::AlreadyExist => t.already_exist = t.already_exist + 1,
            Status::Moved => t.moved = t.moved + 1,
            Status::MovedButNotDeleted => t.moved_but_not_deleted = t.moved_but_not_deleted + 1,
            Status::Error => t.error = t.error + 1,
        }
        i = i + 1;
    }
    assert(results@.subrange(0, i as int) =~= results@);
    t
}

} // verus!

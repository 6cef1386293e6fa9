use std::collections::HashSet;

use s3_mover::keys::{copy_source, file_name_of, is_key_valid, make_key, validate_locations, validate_paths};
use s3_mover::task::{
    destination_bucket, make_task, plan_tasks, tally, unmapped_result, Status, Task, TaskResult,
};
use s3_mover::worker::{Event, MoveJob, Phase, StoreCall};

type Store = HashSet<(String, String)>;

struct Counts {
    copies: usize,
    deletes: usize,
}

fn obj(bucket: &str, key: &str) -> (String, String) {
    (bucket.to_string(), key.to_string())
}

/// Drives one job against an in-memory store that answers every call
/// truthfully; `copy_ok` decides whether copies succeed.
fn drive(task: Task, store: &mut Store, copy_ok: bool, counts: &mut Counts) -> (Vec<TaskResult>, Phase) {
    let (mut job, first) = MoveJob::new(task);
    let mut pending = Some(first);
    let mut results = Vec::new();
    while let Some(call) = pending.take() {
        let event = match call {
            StoreCall::Head { bucket, key } => Event::Head(store.contains(&(bucket, key))),
            StoreCall::Copy { source_bucket, source_key, target_bucket, target_key } => {
                counts.copies += 1;
                let ok = copy_ok && store.contains(&(source_bucket, source_key));
                if ok {
                    store.insert((target_bucket, target_key));
                }
                Event::Copy(ok)
            }
            StoreCall::Delete { bucket, key } => {
                counts.deletes += 1;
                Event::Delete(store.remove(&(bucket, key)))
            }
        };
        let step = job.step(event);
        if let Some(r) = step.report {
            results.push(r);
        }
        pending = step.call;
    }
    (results, job.phase)
}

fn scenario_tasks() -> Vec<Task> {
    let keys = vec!["in/a.txt".to_string(), "in/sub/b.txt".to_string()];
    plan_tasks("src", "src", "out/", &keys).into_iter().map(|t| t.unwrap()).collect()
}

fn scenario_store() -> Store {
    let mut store = Store::new();
    store.insert(obj("src", "in/a.txt"));
    store.insert(obj("src", "in/sub/b.txt"));
    store
}

fn task(src_key: &str, dst_key: &str) -> Task {
    Task {
        source_bucket: "src".to_string(),
        target_bucket: "dst".to_string(),
        object_key: src_key.to_string(),
        target_key: dst_key.to_string(),
    }
}

#[test]
fn join_with_empty_prefix() {
    assert_eq!(make_key("", "a.txt"), "a.txt");
}

#[test]
fn join_inserts_one_separator() {
    assert_eq!(make_key("dst", "a.txt"), "dst/a.txt");
}

#[test]
fn join_keeps_trailing_separator() {
    assert_eq!(make_key("dst/", "a.txt"), "dst/a.txt");
    assert_eq!(make_key("a/b", "c/d.txt"), "a/b/c/d.txt");
}

#[test]
fn leading_separator_is_refused() {
    assert_eq!(is_key_valid("/x"), Err("Invalid path /x".to_string()));
}

#[test]
fn relative_and_empty_paths_pass() {
    assert_eq!(is_key_valid("x"), Ok(()));
    assert_eq!(is_key_valid(""), Ok(()));
    assert_eq!(is_key_valid("x/"), Ok(()));
}

#[test]
fn validation_checks_both_paths() {
    assert_eq!(validate_paths("x", ""), Ok(()));
    assert_eq!(validate_paths("/x", "y"), Err("Invalid path /x".to_string()));
    assert_eq!(validate_paths("x", "/y"), Err("Invalid path /y".to_string()));
    assert_eq!(validate_paths("/a", "/b"), Err("Invalid path /a".to_string()));
}

#[test]
fn file_name_is_last_segment() {
    assert_eq!(file_name_of("in/sub/b.txt"), Some("b.txt".to_string()));
    assert_eq!(file_name_of("a.txt"), Some("a.txt".to_string()));
}

#[test]
fn file_name_ignores_trailing_separators() {
    assert_eq!(file_name_of("in/sub/"), Some("sub".to_string()));
    assert_eq!(file_name_of("dir//"), Some("dir".to_string()));
}

#[test]
fn key_without_file_name_has_none() {
    assert_eq!(file_name_of(""), None);
    assert_eq!(file_name_of("/"), None);
    assert_eq!(file_name_of("//"), None);
    assert_eq!(file_name_of("a/.."), None);
    assert_eq!(file_name_of("a/./"), None);
    assert_eq!(file_name_of("a/..b"), Some("..b".to_string()));
}

#[test]
fn copy_source_joins_bucket_and_key() {
    assert_eq!(copy_source("src", "in/a.txt"), "src/in/a.txt");
}

#[test]
fn destination_bucket_defaults_to_source() {
    assert_eq!(destination_bucket(None, "src"), "src");
    assert_eq!(destination_bucket(Some("dst".to_string()), "src"), "dst");
}

#[test]
fn task_maps_key_to_target() {
    let t = make_task("src", "dst", "out", "in/sub/b.txt").unwrap();
    assert_eq!(t.source_bucket, "src");
    assert_eq!(t.target_bucket, "dst");
    assert_eq!(t.object_key, "in/sub/b.txt");
    assert_eq!(t.target_key, "out/b.txt");
}

#[test]
fn plan_has_one_task_per_key() {
    let ts = scenario_tasks();
    assert_eq!(ts.len(), 2);
    assert_eq!(ts[0].object_key, "in/a.txt");
    assert_eq!(ts[0].target_key, "out/a.txt");
    assert_eq!(ts[1].object_key, "in/sub/b.txt");
    assert_eq!(ts[1].target_key, "out/b.txt");
    assert_eq!(plan_tasks("s", "d", "", &Vec::new()).len(), 0);
}

#[test]
fn folder_marker_maps_to_its_own_name() {
    let t = make_task("src", "src", "out", "in/sub/").unwrap();
    assert_eq!(t.object_key, "in/sub/");
    assert_eq!(t.target_key, "out/sub");
}

#[test]
fn key_without_name_gets_no_task() {
    assert!(make_task("src", "src", "out", "/").is_none());
    let keys = vec!["in/a.txt".to_string(), "".to_string(), "in/..".to_string()];
    let ts = plan_tasks("src", "src", "out", &keys);
    assert_eq!(ts.len(), 3);
    assert_eq!(ts[0].as_ref().unwrap().target_key, "out/a.txt");
    assert!(ts[1].is_none());
    assert!(ts[2].is_none());
    let r = unmapped_result("in/..");
    assert_eq!(r.object_key, "in/..");
    assert_eq!(r.status, Status::Error);
}

#[test]
fn same_folder_is_refused() {
    assert_eq!(
        validate_locations("b", "in", "b", "in/"),
        Err("Source and destination are the same: b/in".to_string())
    );
    assert_eq!(
        validate_locations("b", "", "b", ""),
        Err("Source and destination are the same: b/".to_string())
    );
}

#[test]
fn distinct_folders_pass() {
    assert_eq!(validate_locations("b", "in", "b", "out"), Ok(()));
    assert_eq!(validate_locations("b", "in", "c", "in"), Ok(()));
    assert_eq!(validate_locations("b", "in/", "b", "in/sub"), Ok(()));
}

#[test]
fn job_starts_with_existence_check_on_target() {
    let (job, call) = MoveJob::new(task("in/a.txt", "out/a.txt"));
    assert_eq!(job.phase, Phase::CheckExists);
    match call {
        StoreCall::Head { bucket, key } => {
            assert_eq!(bucket, "dst");
            assert_eq!(key, "out/a.txt");
        }
        _ => panic!("expected an existence check"),
    }
}

#[test]
fn present_target_is_already_exist() {
    let (mut job, _) = MoveJob::new(task("in/a.txt", "out/a.txt"));
    let step = job.step(Event::Head(true));
    let r = step.report.unwrap();
    assert_eq!(r.status, Status::AlreadyExist);
    assert_eq!(r.object_key, "in/a.txt");
    assert!(step.call.is_none());
    assert!(job.is_finished());
}

#[test]
fn absent_target_is_copied_then_source_deleted() {
    let (mut job, _) = MoveJob::new(task("in/a.txt", "out/a.txt"));
    let step = job.step(Event::Head(false));
    assert!(step.report.is_none());
    match step.call.unwrap() {
        StoreCall::Copy { source_bucket, source_key, target_bucket, target_key } => {
            assert_eq!(source_bucket, "src");
            assert_eq!(source_key, "in/a.txt");
            assert_eq!(target_bucket, "dst");
            assert_eq!(target_key, "out/a.txt");
        }
        _ => panic!("expected a copy"),
    }
    let step = job.step(Event::Copy(true));
    assert!(step.report.is_none());
    match step.call.unwrap() {
        StoreCall::Delete { bucket, key } => {
            assert_eq!(bucket, "src");
            assert_eq!(key, "in/a.txt");
        }
        _ => panic!("expected a delete"),
    }
    assert_eq!(job.phase, Phase::Deleting);
    let step = job.step(Event::Delete(true));
    let r = step.report.unwrap();
    assert_eq!(r.status, Status::Moved);
    assert_eq!(r.object_key, "in/a.txt");
    assert!(step.call.is_none());
    assert_eq!(job.phase, Phase::Done);
}

#[test]
fn failed_copy_is_error_and_leaves_source() {
    let (mut job, _) = MoveJob::new(task("in/a.txt", "out/a.txt"));
    job.step(Event::Head(false));
    let step = job.step(Event::Copy(false));
    assert_eq!(step.report.unwrap().status, Status::Error);
    assert!(step.call.is_none());
    assert_eq!(job.phase, Phase::Done);
}

#[test]
fn failed_delete_is_moved_but_not_deleted() {
    let (mut job, _) = MoveJob::new(task("in/a.txt", "out/a.txt"));
    job.step(Event::Head(false));
    job.step(Event::Copy(true));
    let step = job.step(Event::Delete(false));
    assert_eq!(step.report.unwrap().status, Status::MovedButNotDeleted);
    assert!(step.call.is_none());
    assert_eq!(job.phase, Phase::Done);
    assert!(job.is_finished());
}

#[test]
fn reply_to_another_call_is_ignored() {
    let (mut job, _) = MoveJob::new(task("in/a.txt", "out/a.txt"));
    let step = job.step(Event::Copy(true));
    assert!(step.report.is_none() && step.call.is_none());
    assert_eq!(job.phase, Phase::CheckExists);
    job.step(Event::Head(true));
    let step = job.step(Event::Head(false));
    assert!(step.report.is_none() && step.call.is_none());
    assert_eq!(job.phase, Phase::Done);
}

#[test]
fn scenario_moves_then_rerun_finds_targets() {
    let mut store = scenario_store();
    let mut counts = Counts { copies: 0, deletes: 0 };
    let mut results = Vec::new();
    for t in scenario_tasks() {
        let (rs, phase) = drive(t, &mut store, true, &mut counts);
        assert_eq!(phase, Phase::Done);
        results.extend(rs);
    }
    assert_eq!(results.len(), 2);
    assert!(results.iter().all(|r| r.status == Status::Moved));
    assert!(store.contains(&obj("src", "out/a.txt")));
    assert!(store.contains(&obj("src", "out/b.txt")));
    assert!(!store.contains(&obj("src", "in/a.txt")));
    assert!(!store.contains(&obj("src", "in/sub/b.txt")));
    assert_eq!((counts.copies, counts.deletes), (2, 2));

    let before = store.clone();
    let mut again = Counts { copies: 0, deletes: 0 };
    let mut second = Vec::new();
    for t in scenario_tasks() {
        let (rs, _) = drive(t, &mut store, true, &mut again);
        second.extend(rs);
    }
    assert_eq!(second.len(), 2);
    assert!(second.iter().all(|r| r.status == Status::AlreadyExist));
    assert_eq!((again.copies, again.deletes), (0, 0));
    assert_eq!(store, before);
}

#[test]
fn failure_of_one_object_leaves_the_other() {
    let ts = scenario_tasks();
    let mut store = scenario_store();
    store.remove(&obj("src", "in/a.txt"));
    let mut counts = Counts { copies: 0, deletes: 0 };
    let (ra, _) = drive(ts[0].clone(), &mut store, true, &mut counts);
    let (rb, _) = drive(ts[1].clone(), &mut store, true, &mut counts);
    assert_eq!(ra[0].status, Status::Error);
    assert_eq!(rb[0].status, Status::Moved);
    assert_eq!(rb[0].object_key, "in/sub/b.txt");
}

#[test]
fn each_moved_object_has_one_copy_and_one_delete() {
    let mut store = scenario_store();
    let mut counts = Counts { copies: 0, deletes: 0 };
    let (rs, _) = drive(scenario_tasks()[0].clone(), &mut store, true, &mut counts);
    assert_eq!(rs[0].status, Status::Moved);
    assert_eq!((counts.copies, counts.deletes), (1, 1));
}

#[test]
fn one_result_per_key_whatever_happens() {
    let keys: Vec<String> = (0..7).map(|i| format!("in/k{}.txt", i)).collect();
    let ts: Vec<Task> = plan_tasks("src", "src", "out", &keys).into_iter().map(|t| t.unwrap()).collect();
    let mut store = Store::new();
    for (i, k) in keys.iter().enumerate() {
        if i % 3 != 0 {
            store.insert(obj("src", k));
        }
    }
    store.insert(obj("src", "out/k1.txt"));
    let mut counts = Counts { copies: 0, deletes: 0 };
    let mut results = Vec::new();
    for t in ts {
        results.extend(drive(t, &mut store, true, &mut counts).0);
    }
    assert_eq!(results.len(), 7);
    let t = tally(&results);
    assert_eq!((t.already_exist, t.moved, t.error), (1, 3, 3));
}

#[test]
fn tally_counts_by_status() {
    let r = |s: Status| TaskResult { object_key: "k".to_string(), status: s };
    let rs = vec![
        r(Status::Moved),
        r(Status::Error),
        r(Status::Moved),
        r(Status::AlreadyExist),
        r(Status::MovedButNotDeleted),
    ];
    let t = tally(&rs);
    assert_eq!((t.already_exist, t.moved, t.moved_but_not_deleted, t.error), (1, 2, 1, 1));
    let e = tally(&Vec::new());
    assert_eq!((e.already_exist, e.moved, e.error), (0, 0, 0));
}

#[test]
fn result_count_does_not_depend_on_workers() {
    let keys: Vec<String> = (0..5).map(|i| format!("in/f{}.txt", i)).collect();
    for n in 1..=4usize {
        let mut store = Store::new();
        for k in &keys {
            store.insert(obj("src", k));
        }
        let mut queues: Vec<Vec<Task>> = vec![Vec::new(); n];
        for (i, t) in plan_tasks("src", "src", "out", &keys).into_iter().enumerate() {
            queues[i % n].push(t.unwrap());
        }
        let mut counts = Counts { copies: 0, deletes: 0 };
        let mut results = Vec::new();
        for q in queues {
            for t in q {
                results.extend(drive(t, &mut store, true, &mut counts).0);
            }
        }
        assert_eq!(results.len(), 5);
        assert_eq!(tally(&results).moved, 5);
    }
}

use kasugai_converter::jobs::{JobOutcome, JobStatus, JobStore};

#[test]
fn jobs_are_numbered_from_one() {
    let mut store = JobStore::new();
    assert_eq!(store.next_id(), 1);
    let a = store.create(100);
    let b = store.create(200);
    assert_eq!(a, "1");
    assert_eq!(b, "2");
    assert_eq!(store.next_id(), 3);
    let list = store.list();
    assert_eq!(list.len(), 2);
    assert_eq!(list[0].id, "1");
    assert_eq!(list[1].created_at, 200);
}

#[test]
fn created_job_is_found_pending() {
    let mut store = JobStore::new();
    let id = store.create(42);
    let job = store.get(&id).unwrap();
    assert_eq!(job.id, id);
    assert_eq!(job.status, JobStatus::Pending);
    assert_eq!(job.output, "");
    assert_eq!(job.exit_code, None);
    assert_eq!(job.created_at, 42);
    assert!(store.get("99").is_none());
    assert!(store.get("01").is_none());
}

#[test]
fn updates_touch_only_their_job() {
    let mut store = JobStore::new();
    let a = store.create(1);
    let b = store.create(2);
    store.set_running(&a);
    assert_eq!(store.get(&a).unwrap().status, JobStatus::Running);
    assert_eq!(store.get(&b).unwrap().status, JobStatus::Pending);
    store.finish(&a, Some(0), true, "done\n".to_string());
    let ja = store.get(&a).unwrap();
    assert_eq!(ja.status, JobStatus::Completed);
    assert_eq!(ja.exit_code, Some(0));
    assert_eq!(ja.output, "done\n");
    store.finish(&b, None, false, "killed".to_string());
    assert_eq!(store.get(&b).unwrap().status, JobStatus::Failed);
    store.fail_system(&a, "boom");
    let ja = store.get(&a).unwrap();
    assert_eq!(ja.status, JobStatus::Failed);
    assert_eq!(ja.output, "done\n\n[system error] boom\n");
    assert_eq!(ja.exit_code, Some(0));
    store.set_running("7");
    assert_eq!(store.list().len(), 2);
}

#[test]
fn outcomes_keep_exit_codes_they_do_not_set() {
    let mut store = JobStore::new();
    let a = store.create(1);
    store.apply(&a, JobOutcome { status: JobStatus::Failed, exit_code: Some(3), output: "x".to_string() });
    store.apply(&a, JobOutcome { status: JobStatus::Completed, exit_code: None, output: "y".to_string() });
    let j = store.get(&a).unwrap();
    assert_eq!(j.exit_code, Some(3));
    assert_eq!(j.status, JobStatus::Completed);
    assert_eq!(j.output, "y");
}

use triage_core::db::jobs::{
    delete_job, get_duration_from_cron, get_jobs_to_execute, insert_job, insert_job_with_id,
    restore_job, update_job_error_message, update_job_executed_at, CronUnit, Job, JobStore,
    JobType, StoreError,
};
use triage_core::time::Timestamp;

fn at(secs: i64) -> Timestamp {
    Timestamp { secs, nanos: 0 }
}

fn text(value: &str) -> serde_json::Value {
    serde_json::Value::String(value.to_string())
}

fn schedule(db: &mut JobStore, id: u128, name: &str, when: i64, metadata: &str) {
    insert_job_with_id(
        db,
        id,
        &name.to_string(),
        &JobType::SingleExecution,
        &at(when),
        &None,
        &None,
        &text(metadata),
    )
    .expect("a new slot with a new identifier is accepted");
}

fn due_ids(db: &JobStore, now: &Timestamp) -> Vec<u128> {
    let jobs: Vec<Job> = get_jobs_to_execute(db, now).expect("selecting never fails");
    jobs.iter().map(|job| job.id).collect()
}

#[test]
fn duration_of_each_unit() {
    assert_eq!(get_duration_from_cron(1, &CronUnit::Day), chrono::Duration::seconds(86400));
    assert_eq!(get_duration_from_cron(1, &CronUnit::Hour), chrono::Duration::seconds(3600));
    assert_eq!(get_duration_from_cron(1, &CronUnit::Minute), chrono::Duration::seconds(60));
    assert_eq!(get_duration_from_cron(1, &CronUnit::Second), chrono::Duration::seconds(1));
}

#[test]
fn duration_scales_with_the_period() {
    assert_eq!(get_duration_from_cron(2, &CronUnit::Day), chrono::Duration::seconds(172800));
    assert_eq!(get_duration_from_cron(3, &CronUnit::Hour), chrono::Duration::seconds(10800));
    assert_eq!(get_duration_from_cron(45, &CronUnit::Minute), chrono::Duration::seconds(2700));
    assert_eq!(get_duration_from_cron(17, &CronUnit::Second), chrono::Duration::seconds(17));
    assert_eq!(get_duration_from_cron(0, &CronUnit::Day), chrono::Duration::seconds(0));
}

#[test]
fn duration_is_not_clamped() {
    assert_eq!(get_duration_from_cron(-2, &CronUnit::Minute), chrono::Duration::seconds(-120));
    assert_eq!(
        get_duration_from_cron(i32::MAX, &CronUnit::Day),
        chrono::Duration::seconds(2147483647i64 * 86400)
    );
    assert_eq!(
        get_duration_from_cron(i32::MIN, &CronUnit::Day),
        chrono::Duration::seconds(-2147483648i64 * 86400)
    );
}

#[test]
fn new_store_is_empty() {
    let db = JobStore::new();
    assert_eq!(db.len(), 0);
    assert!(due_ids(&db, &at(0)).is_empty());
}

#[test]
fn insert_adds_a_row_that_has_not_run() {
    let mut db = JobStore::new();
    insert_job_with_id(
        &mut db,
        7,
        &"docs_update".to_string(),
        &JobType::Cron,
        &at(100),
        &Some(2),
        &Some(CronUnit::Hour),
        &text("m"),
    )
    .unwrap();
    assert_eq!(db.len(), 1);
    let job = db.row(0).unwrap();
    assert_eq!(
        *job,
        Job {
            id: 7,
            name: "docs_update".to_string(),
            job_type: JobType::Cron,
            expected_time: at(100),
            cron_period: Some(2),
            cron_unit: Some(CronUnit::Hour),
            metadata: text("m"),
            executed_at: None,
            error_message: None,
        }
    );
}

#[test]
fn upsert_twice_keeps_one_row_with_latest_metadata() {
    let mut db = JobStore::new();
    schedule(&mut db, 1, "a", 10, "first");
    update_job_error_message(&mut db, &1, &"boom".to_string()).unwrap();
    insert_job_with_id(
        &mut db,
        2,
        &"a".to_string(),
        &JobType::Cron,
        &at(10),
        &Some(1),
        &Some(CronUnit::Day),
        &text("second"),
    )
    .unwrap();
    assert_eq!(db.len(), 1);
    let job = db.row(0).unwrap();
    assert_eq!(job.metadata, text("second"));
    assert_eq!(job.id, 1);
    assert_eq!(job.job_type, JobType::SingleExecution);
    assert_eq!(job.cron_period, None);
    assert_eq!(job.cron_unit, None);
    assert_eq!(job.error_message, Some("boom".to_string()));
}

#[test]
fn same_name_at_another_time_is_another_job() {
    let mut db = JobStore::new();
    schedule(&mut db, 1, "a", 10, "x");
    schedule(&mut db, 2, "a", 11, "y");
    schedule(&mut db, 3, "b", 10, "z");
    insert_job_with_id(
        &mut db,
        4,
        &"a".to_string(),
        &JobType::SingleExecution,
        &Timestamp { secs: 10, nanos: 1 },
        &None,
        &None,
        &text("w"),
    )
    .unwrap();
    assert_eq!(db.len(), 4);
    assert_eq!(db.find_slot("a", &at(11)), Some(1));
    assert_eq!(db.find_slot("b", &at(10)), Some(2));
    assert_eq!(db.find_slot("b", &at(11)), None);
    assert_eq!(db.find_id(3), Some(2));
    assert_eq!(db.find_id(9), None);
}

#[test]
fn taken_identifier_is_refused_for_a_new_slot() {
    let mut db = JobStore::new();
    schedule(&mut db, 1, "a", 10, "x");
    let r = insert_job_with_id(
        &mut db,
        1,
        &"b".to_string(),
        &JobType::SingleExecution,
        &at(10),
        &None,
        &None,
        &text("y"),
    );
    assert_eq!(r, Err(StoreError::DuplicateJobId));
    assert_eq!(db.len(), 1);
    assert_eq!(db.row(0).unwrap().name, "a");
}

#[test]
fn period_without_unit_is_refused() {
    let mut db = JobStore::new();
    let r = insert_job_with_id(
        &mut db,
        1,
        &"a".to_string(),
        &JobType::Cron,
        &at(10),
        &Some(5),
        &None,
        &text("x"),
    );
    assert_eq!(r, Err(StoreError::CronMismatch));
    let r = insert_job(
        &mut db,
        &"a".to_string(),
        &JobType::Cron,
        &at(10),
        &None,
        &Some(CronUnit::Day),
        &text("x"),
    );
    assert_eq!(r, Err(StoreError::CronMismatch));
    assert_eq!(db.len(), 0);
}

#[test]
fn request_for_a_taken_slot_counts_for_its_metadata_only() {
    let mut db = JobStore::new();
    schedule(&mut db, 1, "a", 10, "first");
    let r = insert_job_with_id(
        &mut db,
        1,
        &"a".to_string(),
        &JobType::Cron,
        &at(10),
        &Some(5),
        &None,
        &text("second"),
    );
    assert_eq!(r, Ok(()));
    assert_eq!(db.len(), 1);
    assert_eq!(db.row(0).unwrap().metadata, text("second"));
    assert_eq!(db.row(0).unwrap().cron_period, None);
}

#[test]
fn insert_job_draws_identifiers_of_its_own() {
    let mut db = JobStore::new();
    let name = "rustc_commits".to_string();
    insert_job(&mut db, &name, &JobType::SingleExecution, &at(1), &None, &None, &text("a"))
        .unwrap();
    insert_job(&mut db, &name, &JobType::SingleExecution, &at(2), &None, &None, &text("b"))
        .unwrap();
    insert_job(&mut db, &name, &JobType::SingleExecution, &at(1), &None, &None, &text("c"))
        .unwrap();
    assert_eq!(db.len(), 2);
    assert_ne!(db.row(0).unwrap().id, db.row(1).unwrap().id);
    assert_eq!(db.row(0).unwrap().metadata, text("c"));
    assert_eq!(db.row(1).unwrap().metadata, text("b"));
}

#[test]
fn delete_removes_the_job_and_only_it() {
    let mut db = JobStore::new();
    schedule(&mut db, 1, "a", 10, "x");
    schedule(&mut db, 2, "b", 10, "y");
    schedule(&mut db, 3, "c", 10, "z");
    assert_eq!(delete_job(&mut db, &2), Ok(()));
    assert_eq!(db.len(), 2);
    assert_eq!(db.row(0).unwrap().id, 1);
    assert_eq!(db.row(1).unwrap().id, 3);
    assert_eq!(delete_job(&mut db, &2), Ok(()));
    assert_eq!(db.len(), 2);
}

#[test]
fn recording_an_error_leaves_executed_at_alone() {
    let mut db = JobStore::new();
    schedule(&mut db, 1, "a", 10, "x");
    schedule(&mut db, 2, "b", 10, "y");
    update_job_executed_at(&mut db, &1, &at(50)).unwrap();
    update_job_error_message(&mut db, &1, &"first".to_string()).unwrap();
    update_job_error_message(&mut db, &1, &"second".to_string()).unwrap();
    assert_eq!(db.row(0).unwrap().error_message, Some("second".to_string()));
    assert_eq!(db.row(0).unwrap().executed_at, Some(at(50)));
    assert_eq!(db.row(1).unwrap().error_message, None);
    assert_eq!(db.row(1).unwrap().executed_at, None);
    assert_eq!(update_job_error_message(&mut db, &9, &"nobody".to_string()), Ok(()));
    assert_eq!(db.len(), 2);
}

#[test]
fn recording_an_execution_sets_the_time() {
    let mut db = JobStore::new();
    schedule(&mut db, 1, "a", 10, "x");
    update_job_executed_at(&mut db, &1, &Timestamp { secs: 77, nanos: 5 }).unwrap();
    assert_eq!(db.row(0).unwrap().executed_at, Some(Timestamp { secs: 77, nanos: 5 }));
    assert_eq!(db.row(0).unwrap().error_message, None);
    assert_eq!(update_job_executed_at(&mut db, &9, &at(1)), Ok(()));
    assert_eq!(db.row(0).unwrap().executed_at, Some(Timestamp { secs: 77, nanos: 5 }));
}

#[test]
fn due_jobs_are_those_whose_time_has_come() {
    let mut db = JobStore::new();
    schedule(&mut db, 1, "past", 10, "x");
    schedule(&mut db, 2, "now", 20, "y");
    schedule(&mut db, 3, "future", 21, "z");
    assert_eq!(due_ids(&db, &at(20)), vec![1, 2]);
    assert_eq!(due_ids(&db, &at(9)), Vec::<u128>::new());
    assert_eq!(due_ids(&db, &at(1000)), vec![1, 2, 3]);
    assert_eq!(due_ids(&db, &Timestamp { secs: 20, nanos: 999_999_999 }), vec![1, 2]);
}

#[test]
fn due_compares_nanoseconds_within_a_second() {
    let mut db = JobStore::new();
    insert_job_with_id(
        &mut db,
        1,
        &"a".to_string(),
        &JobType::SingleExecution,
        &Timestamp { secs: 20, nanos: 500 },
        &None,
        &None,
        &text("x"),
    )
    .unwrap();
    assert!(due_ids(&db, &Timestamp { secs: 20, nanos: 499 }).is_empty());
    assert_eq!(due_ids(&db, &Timestamp { secs: 20, nanos: 500 }), vec![1]);
}

#[test]
fn unfailed_job_is_offered_on_every_poll() {
    let mut db = JobStore::new();
    schedule(&mut db, 1, "a", 10, "x");
    assert_eq!(due_ids(&db, &at(10)), vec![1]);
    assert_eq!(due_ids(&db, &at(11)), vec![1]);
    update_job_executed_at(&mut db, &1, &at(11)).unwrap();
    assert_eq!(due_ids(&db, &at(12)), vec![1]);
}

#[test]
fn failed_job_rests_for_sixty_minutes() {
    let mut db = JobStore::new();
    schedule(&mut db, 1, "a", 10, "x");
    update_job_executed_at(&mut db, &1, &at(1000)).unwrap();
    update_job_error_message(&mut db, &1, &"boom".to_string()).unwrap();
    assert!(due_ids(&db, &at(1000)).is_empty());
    assert!(due_ids(&db, &at(1000 + 3599)).is_empty());
    assert_eq!(due_ids(&db, &at(1000 + 3600)), vec![1]);
    assert_eq!(due_ids(&db, &at(1000 + 3601)), vec![1]);
}

#[test]
fn backoff_counts_nanoseconds() {
    let mut db = JobStore::new();
    schedule(&mut db, 1, "a", 10, "x");
    update_job_executed_at(&mut db, &1, &Timestamp { secs: 1000, nanos: 7 }).unwrap();
    update_job_error_message(&mut db, &1, &"boom".to_string()).unwrap();
    assert!(due_ids(&db, &Timestamp { secs: 4600, nanos: 6 }).is_empty());
    assert_eq!(due_ids(&db, &Timestamp { secs: 4600, nanos: 7 }), vec![1]);
}

#[test]
fn failed_job_without_an_attempt_is_never_offered() {
    let mut db = JobStore::new();
    schedule(&mut db, 1, "a", 10, "x");
    update_job_error_message(&mut db, &1, &"boom".to_string()).unwrap();
    assert!(due_ids(&db, &at(10)).is_empty());
    assert!(due_ids(&db, &at(i64::MAX)).is_empty());
}

#[test]
fn backoff_near_the_end_of_time_does_not_wrap() {
    let mut db = JobStore::new();
    schedule(&mut db, 1, "a", 10, "x");
    update_job_executed_at(&mut db, &1, &at(i64::MAX - 10)).unwrap();
    update_job_error_message(&mut db, &1, &"boom".to_string()).unwrap();
    assert!(due_ids(&db, &at(i64::MAX)).is_empty());
}

#[test]
fn due_jobs_come_back_whole() {
    let mut db = JobStore::new();
    insert_job_with_id(
        &mut db,
        5,
        &"a".to_string(),
        &JobType::Cron,
        &at(10),
        &Some(3),
        &Some(CronUnit::Minute),
        &text("payload"),
    )
    .unwrap();
    let jobs = get_jobs_to_execute(&db, &at(10)).unwrap();
    assert_eq!(jobs.len(), 1);
    assert_eq!(jobs[0], db.row(0).unwrap().clone());
    assert_eq!(jobs[0].metadata, text("payload"));
    assert_eq!(jobs[0].is_due_at(&at(10)), true);
    assert_eq!(jobs[0].is_due_at(&at(9)), false);
}

#[test]
fn timestamps_order_by_seconds_then_nanoseconds() {
    let a = Timestamp { secs: 1, nanos: 900 };
    let b = Timestamp { secs: 2, nanos: 0 };
    assert!(a.is_at_or_before(&b));
    assert!(!b.is_at_or_before(&a));
    assert!(a.is_at_or_before(&a));
    assert!(Timestamp { secs: -5, nanos: 0 }.is_at_or_before(&Timestamp { secs: -4, nanos: 0 }));
}

#[test]
fn timestamps_move_by_spans() {
    let a = Timestamp { secs: 100, nanos: 42 };
    assert_eq!(
        a.checked_add_signed(&chrono::Duration::seconds(864000)),
        Some(Timestamp { secs: 864100, nanos: 42 })
    );
    assert_eq!(
        a.checked_add_signed(&chrono::Duration::seconds(-200)),
        Some(Timestamp { secs: -100, nanos: 42 })
    );
    assert_eq!(
        a.checked_add_signed(&chrono::Duration::nanoseconds(999_999_958)),
        Some(Timestamp { secs: 101, nanos: 0 })
    );
    assert_eq!(
        a.checked_add_signed(&chrono::Duration::nanoseconds(-43)),
        Some(Timestamp { secs: 99, nanos: 999_999_999 })
    );
    assert_eq!(
        a.checked_add_signed(&chrono::Duration::milliseconds(-1500)),
        Some(Timestamp { secs: 98, nanos: 500_000_042 })
    );
    assert_eq!(
        a.checked_add_signed(&chrono::Duration::milliseconds(2500)),
        Some(Timestamp { secs: 102, nanos: 500_000_042 })
    );
    assert_eq!(
        a.checked_add_signed(&get_duration_from_cron(2, &CronUnit::Hour)),
        Some(Timestamp { secs: 7300, nanos: 42 })
    );
}

#[test]
fn timestamps_do_not_move_past_the_ends() {
    let one = chrono::Duration::seconds(1);
    let back = chrono::Duration::seconds(-1);
    assert_eq!(Timestamp { secs: i64::MAX, nanos: 0 }.checked_add_signed(&one), None);
    assert_eq!(Timestamp { secs: i64::MIN, nanos: 0 }.checked_add_signed(&back), None);
    assert_eq!(
        Timestamp { secs: i64::MAX - 1, nanos: 0 }.checked_add_signed(&one),
        Some(Timestamp { secs: i64::MAX, nanos: 0 })
    );
    assert_eq!(
        Timestamp { secs: i64::MAX, nanos: 999_999_999 }
            .checked_add_signed(&chrono::Duration::nanoseconds(1)),
        None
    );
    assert_eq!(
        Timestamp { secs: i64::MIN, nanos: 0 }.checked_add_signed(&chrono::Duration::nanoseconds(-1)),
        None
    );
}

#[test]
fn elapsed_time_is_counted_to_the_nanosecond() {
    let a = Timestamp { secs: 100, nanos: 42 };
    assert!(a.has_elapsed(10, &Timestamp { secs: 110, nanos: 42 }));
    assert!(!a.has_elapsed(10, &Timestamp { secs: 110, nanos: 41 }));
    assert!(a.has_elapsed(i64::MIN, &at(0)));
    assert!(!Timestamp { secs: i64::MAX, nanos: 0 }.has_elapsed(i64::MAX, &at(i64::MAX)));
}

fn stored(id: u128, name: &str, when: i64) -> Job {
    Job {
        id,
        name: name.to_string(),
        job_type: JobType::Cron,
        expected_time: at(when),
        cron_period: Some(1),
        cron_unit: Some(CronUnit::Day),
        metadata: text("kept"),
        executed_at: Some(at(when + 1)),
        error_message: Some("kept too".to_string()),
    }
}

#[test]
fn restored_rows_keep_their_record() {
    let mut db = JobStore::new();
    assert_eq!(restore_job(&mut db, stored(1, "a", 10)), Ok(()));
    assert_eq!(restore_job(&mut db, stored(2, "a", 11)), Ok(()));
    assert_eq!(db.len(), 2);
    assert_eq!(*db.row(0).unwrap(), stored(1, "a", 10));
    assert_eq!(*db.row(1).unwrap(), stored(2, "a", 11));
    assert_eq!(db.row(2), None);
}

#[test]
fn restoring_refuses_what_breaks_the_table() {
    let mut db = JobStore::new();
    restore_job(&mut db, stored(1, "a", 10)).unwrap();
    assert_eq!(restore_job(&mut db, stored(2, "a", 10)), Err(StoreError::DuplicateSlot));
    assert_eq!(restore_job(&mut db, stored(1, "b", 10)), Err(StoreError::DuplicateJobId));
    let mut unpaired = stored(3, "c", 10);
    unpaired.cron_unit = None;
    assert_eq!(restore_job(&mut db, unpaired), Err(StoreError::CronMismatch));
    assert_eq!(db.len(), 1);
}

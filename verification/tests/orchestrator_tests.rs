use commit_ingest::ledger::{run_job, Ledger};
use commit_ingest::models::AnalyzeResponse;
use commit_ingest::archive::{build_archive, ArchiveError};
use commit_ingest::orchestrator::{archive_event, step, Action, Event, Job, JobStatus, Phase};

fn listed(total: usize) -> Job {
    let (job, _) = step(Job::new(), Event::Start);
    let (job, _) = step(job, Event::Materialized);
    let (job, _) = step(job, Event::Listed { total });
    job
}

#[test]
fn a_job_starts_queued() {
    let job = Job::new();
    assert_eq!(job.status(), JobStatus::Queued);
    assert_eq!(job.total, 0);
    assert_eq!(job.processed, 0);
    assert!(job.error.is_none());
}

#[test]
fn a_job_goes_from_queued_to_parsing() {
    let (job, action) = step(Job::new(), Event::Start);
    assert_eq!(job.status(), JobStatus::Cloning);
    assert!(matches!(action, Action::Materialize));
    let (job, action) = step(job, Event::Materialized);
    assert_eq!(job.status(), JobStatus::Parsing);
    assert_eq!(job.phase, Phase::Listing);
    assert!(matches!(action, Action::ListCommits));
    let (job, action) = step(job, Event::Listed { total: 2 });
    assert_eq!(job.status(), JobStatus::Parsing);
    assert_eq!(job.total, 2);
    assert_eq!(job.processed, 0);
    assert!(matches!(action, Action::Lookup(0)));
}

#[test]
fn an_empty_history_completes_at_once() {
    let job = listed(0);
    assert_eq!(job.status(), JobStatus::Completed);
    assert_eq!(job.total, 0);
}

#[test]
fn a_new_commit_is_extracted_uploaded_and_stored() {
    let job = listed(2);
    let (job, action) = step(job, Event::Unknown);
    assert!(matches!(action, Action::Extract(0)));
    let (job, action) = step(job, Event::Extracted { archive: true });
    assert!(matches!(action, Action::Upload(0)));
    let (job, action) = step(job, Event::Uploaded);
    assert!(matches!(action, Action::Store(0)));
    assert_eq!(job.processed, 0);
    let (job, action) = step(job, Event::Stored);
    assert_eq!(job.processed, 1);
    assert!(matches!(action, Action::Lookup(1)));
    assert_eq!(job.status(), JobStatus::Parsing);
}

#[test]
fn a_commit_without_archive_is_stored_without_upload() {
    let job = listed(1);
    let (job, _) = step(job, Event::Unknown);
    let (job, action) = step(job, Event::Extracted { archive: false });
    assert!(matches!(action, Action::Store(0)));
    let (job, action) = step(job, Event::Stored);
    assert!(matches!(action, Action::Complete));
    assert_eq!(job.status(), JobStatus::Completed);
    assert_eq!(job.processed, 1);
}

#[test]
fn a_known_commit_is_skipped_and_counted() {
    let job = listed(2);
    let (job, action) = step(job, Event::Known);
    assert_eq!(job.processed, 1);
    assert!(matches!(action, Action::Lookup(1)));
    let (job, action) = step(job, Event::Known);
    assert_eq!(job.processed, 2);
    assert!(matches!(action, Action::Complete));
    assert_eq!(job.status(), JobStatus::Completed);
}

#[test]
fn a_diff_failure_fails_the_job() {
    let job = listed(3);
    let (job, _) = step(job, Event::Known);
    let (job, _) = step(job, Event::Unknown);
    let (job, action) = step(job, Event::Failure("cannot read tree".to_string()));
    assert!(matches!(action, Action::ReportFailure));
    assert_eq!(job.status(), JobStatus::Failed);
    assert_eq!(job.processed, 1);
    assert_eq!(job.total, 3);
    assert_eq!(job.error, Some("cannot read tree".to_string()));
    let (job, action) = step(job, Event::Stored);
    assert!(matches!(action, Action::Idle));
    assert_eq!(job.status(), JobStatus::Failed);
    assert_eq!(job.processed, 1);
}

#[test]
fn a_clone_failure_fails_the_job() {
    let (job, _) = step(Job::new(), Event::Start);
    let (job, action) = step(job, Event::Failure("authentication failed".to_string()));
    assert!(matches!(action, Action::ReportFailure));
    assert_eq!(job.status(), JobStatus::Failed);
    assert_eq!(job.error, Some("authentication failed".to_string()));
}

#[test]
fn a_finished_job_stays_finished() {
    let job = listed(0);
    let (job, action) = step(job, Event::Failure("late".to_string()));
    assert!(matches!(action, Action::Idle));
    assert_eq!(job.status(), JobStatus::Completed);
    assert!(job.error.is_none());
}

#[test]
fn an_unexpected_event_changes_nothing() {
    let (job, action) = step(Job::new(), Event::Stored);
    assert!(matches!(action, Action::Idle));
    assert_eq!(job.phase, Phase::Queued);
    let job = listed(1);
    let (job, action) = step(job, Event::Uploaded);
    assert!(matches!(action, Action::Idle));
    assert_eq!(job.phase, Phase::Lookup);
    assert_eq!(job.processed, 0);
}

#[test]
fn a_second_run_writes_no_row() {
    let shas = vec!["a1".to_string(), "b2".to_string(), "c3".to_string()];
    let mut ledger = Ledger::new();
    let first = run_job(&mut ledger, &shas);
    assert_eq!(first.status(), JobStatus::Completed);
    assert_eq!(first.processed, 3);
    assert_eq!(ledger.len(), 3);
    let second = run_job(&mut ledger, &shas);
    assert_eq!(second.status(), JobStatus::Completed);
    assert_eq!(second.total, 3);
    assert_eq!(second.processed, 3);
    assert_eq!(ledger.len(), 3);
}

#[test]
fn a_run_records_only_new_commits() {
    let mut ledger = Ledger::new();
    run_job(&mut ledger, &vec!["a1".to_string(), "b2".to_string()]);
    let job = run_job(&mut ledger, &vec!["c3".to_string(), "b2".to_string(), "a1".to_string()]);
    assert_eq!(job.processed, 3);
    assert_eq!(ledger.len(), 3);
    assert!(ledger.contains("a1"));
    assert!(ledger.contains("b2"));
    assert!(ledger.contains("c3"));
    assert!(!ledger.contains("d4"));
}

#[test]
fn a_repeated_revision_gets_one_row() {
    let mut ledger = Ledger::new();
    let job = run_job(&mut ledger, &vec!["a1".to_string(), "a1".to_string()]);
    assert_eq!(job.processed, 2);
    assert_eq!(ledger.len(), 1);
}

#[test]
fn record_tells_whether_the_row_existed() {
    let mut ledger = Ledger::new();
    assert!(!ledger.record("a1"));
    assert!(ledger.record("a1"));
    assert!(!ledger.record("a2"));
    assert_eq!(ledger.len(), 2);
}

#[test]
fn an_accepted_request_is_answered_at_once() {
    let r = AnalyzeResponse::accepted("job-1".to_string());
    assert_eq!(r.job_id, "job-1");
    assert_eq!(r.status, "processing");
    assert_eq!(r.message, "Analysis started in background");
}

#[test]
fn archive_outcomes_become_events() {
    assert!(matches!(archive_event(&Ok(Some(vec![1, 2]))), Event::Extracted { archive: true }));
    assert!(matches!(archive_event(&Ok(None)), Event::Extracted { archive: false }));
    let failed = Err(ArchiveError { message: "disk full".to_string() });
    match archive_event(&failed) {
        Event::Failure(message) => assert_eq!(message, "disk full"),
        _ => panic!("a failure was expected"),
    }
}

#[test]
fn a_deletion_only_commit_is_recorded_without_upload() {
    let entries: Vec<(String, Option<Vec<u8>>)> = Vec::new();
    let event = archive_event(&build_archive(&entries));
    let job = listed(1);
    let (job, _) = step(job, Event::Unknown);
    let (job, action) = step(job, event);
    assert!(matches!(action, Action::Store(0)));
    let (job, action) = step(job, Event::Stored);
    assert!(matches!(action, Action::Complete));
    assert_eq!(job.processed, 1);
}

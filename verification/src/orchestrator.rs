//! The life of one analysis job as a state machine. The caller does the outside
//! work (fetching, reading history, talking to the stores) and reports each
//! outcome as an [`Event`]; [`step`] answers with the job's next state and the
//! next piece of work.

use vstd::prelude::*;
use crate::archive::{archived_paths, lemma_deletions_archive_nothing, ArchiveError};
use crate::diff::{ChangeKind, ChangedFile};

verus! {

/// The status that the record store shows for a job.
#[derive(Clone, Copy, Debug, PartialEq, Eq, Structural)]
pub enum JobStatus {
    Queued,
    Cloning,
    Parsing,
    Completed,
    Failed,
}

/// Where a job stands. From `Listing` to `Storing` its status is `Parsing`.
#[derive(Clone, Copy, Debug, PartialEq, Eq, Structural)]
pub enum Phase {
    Queued,
    Cloning,
    /// The working copy is ready; the history is being read.
    Listing,
    /// The record store is asked whether it has the next commit.
    Lookup,
    /// The next commit is being diffed and its files archived.
    Extracting,
    /// The archive of the next commit is being uploaded.
    Uploading,
    /// The record of the next commit is being written.
    Storing,
    Completed,
    Failed,
}

#[derive(Debug)]
pub struct Job {
    pub phase: Phase,
    /// The number of commits that the history walk selected.
    pub total: usize,
    /// The number of selected commits that are done: found in the record store,
    /// or written to it.
    pub processed: usize,
    pub error: Option<String>,
}

/// What the caller reports.
#[derive(Debug)]
pub enum Event {
    /// The request was accepted.
    Start,
    /// The working copy was cloned or refreshed.
    Materialized,
    /// The history was walked and `total` commits were selected.
    Listed { total: usize },
    /// The record store already holds the commit that was looked up.
    Known,
    /// The record store does not hold it.
    Unknown,
    /// The commit was diffed; `archive` tells whether any file content was
    /// packed.
    Extracted { archive: bool },
    /// The archive is in the blob store.
    Uploaded,
    /// The commit's record is in the record store.
    Stored,
    /// The work that was asked for failed, with this message.
    Failure(String),
}

/// What the caller is asked to do next. A number is the position of a commit
/// in the selected sequence.
#[derive(Debug)]
pub enum Action {
    Materialize,
    ListCommits,
    Lookup(usize),
    Extract(usize),
    Upload(usize),
    Store(usize),
    /// Mark the job completed and stamp the repository's synchronisation time.
    Complete,
    /// Mark the job failed, with the job's error message.
    ReportFailure,
    /// Nothing: the job is over, or the event was not expected.
    Idle,
}

impl JobStatus {
    /// How far a status is along the way from queued to finished.
    pub open spec fn rank(self) -> nat {
        match self {
            JobStatus::Queued => 0,
            JobStatus::Cloning => 1,
            JobStatus::Parsing => 2,
            JobStatus::Completed => 3,
            JobStatus::Failed => 3,
        }
    }
}

impl Phase {
    pub open spec fn status(self) -> JobStatus {
        match self {
            Phase::Queued => JobStatus::Queued,
            Phase::Cloning => JobStatus::Cloning,
            Phase::Completed => JobStatus::Completed,
            Phase::Failed => JobStatus::Failed,
            _ => JobStatus::Parsing,
        }
    }

    pub open spec fn is_terminal(self) -> bool {
        self == Phase::Completed || self == Phase::Failed
    }

    /// The phases in which one commit is being worked on.
    pub open spec fn in_commit(self) -> bool {
        self == Phase::Lookup || self == Phase::Extracting || self == Phase::Uploading || self
            == Phase::Storing
    }
}

impl Job {
    /// A job is well formed when no more commits are done than were selected,
    /// a commit is being worked on only while one is left, a completed job has
    /// done them all, and exactly the failed job carries an error message.
    pub open spec fn wf(self) -> bool {
        &&& self.processed <= self.total
        &&& self.phase.in_commit() ==> self.processed < self.total
        &&& self.phase == Phase::Completed ==> self.processed == self.total
        &&& (self.phase == Phase::Queued || self.phase == Phase::Cloning || self.phase
            == Phase::Listing) ==> self.total == 0
        &&& (self.phase == Phase::Failed) == self.error.is_some()
    }

    /// The job after one more commit is done, and the work that follows.
    pub open spec fn advanced(self) -> (Job, Action) {
        if self.processed + 1 == self.total {
            (
                Job {
                    phase: Phase::Completed,
                    total: self.total,
                    processed: self.total,
                    error: self.error,
                },
                Action::Complete,
            )
        } else {
            (
                Job {
                    phase: Phase::Lookup,
                    total: self.total,
                    processed: (self.processed + 1) as usize,
                    error: self.error,
                },
                Action::Lookup((self.processed + 1) as usize),
            )
        }
    }

    pub open spec fn at(self, phase: Phase) -> Job {
        Job { phase, total: self.total, processed: self.processed, error: self.error }
    }

    pub fn new() -> (job: Job)
        ensures
            job.phase == Phase::Queued,
            job.total == 0,
            job.processed == 0,
            job.error.is_none(),
            job.wf(),
    {
        Job { phase: Phase::Queued, total: 0, processed: 0, error: None }
    }

    pub fn is_well_formed(&self) -> (b: bool)
        ensures
            b == self.wf(),
    {
        let in_commit = match self.phase {
            Phase::Lookup | Phase::Extracting | Phase::Uploading | Phase::Storing => true,
            _ => false,
        };
        let early = match self.phase {
            Phase::Queued | Phase::Cloning | Phase::Listing => true,
            _ => false,
        };
        let completed = match self.phase {
            Phase::Completed => true,
            _ => false,
        };
        let failed = match self.phase {
            Phase::Failed => true,
            _ => false,
        };
        self.processed <= self.total && (!in_commit || self.processed < self.total) && (!completed
            || self.processed == self.total) && (!early || self.total == 0) && failed
            == self.error.is_some()
    }

    pub fn status(&self) -> (s: JobStatus)
        ensures
            s == self.phase.status(),
    {
        match self.phase {
            Phase::Queued => JobStatus::Queued,
            Phase::Cloning => JobStatus::Cloning,
            Phase::Completed => JobStatus::Completed,
            Phase::Failed => JobStatus::Failed,
            _ => JobStatus::Parsing,
        }
    }
}

/// The transition table. A finished job stays as it is. A failure ends any
/// other job, with the message kept and the counters untouched. Otherwise the
/// event that the phase waits for moves the job on, and any other event
/// changes nothing.
pub open spec fn transition(job: Job, event: Event) -> (Job, Action) {
    if job.phase.is_terminal() {
        (job, Action::Idle)
    } else {
        match (job.phase, event) {
            (_, Event::Failure(message)) => (
                Job {
                    phase: Phase::Failed,
                    total: job.total,
                    processed: job.processed,
                    error: Some(message),
                },
                Action::ReportFailure,
            ),
            (Phase::Queued, Event::Start) => (job.at(Phase::Cloning), Action::Materialize),
            (Phase::Cloning, Event::Materialized) => (job.at(Phase::Listing), Action::ListCommits),
            (Phase::Listing, Event::Listed { total }) => if total == 0 {
                (
                    Job { phase: Phase::Completed, total: 0, processed: 0, error: job.error },
                    Action::Complete,
                )
            } else {
                (
                    Job { phase: Phase::Lookup, total, processed: 0, error: job.error },
                    Action::Lookup(0),
                )
            },
            (Phase::Lookup, Event::Known) => job.advanced(),
            (Phase::Lookup, Event::Unknown) => (
                job.at(Phase::Extracting),
                Action::Extract(job.processed),
            ),
            (Phase::Extracting, Event::Extracted { archive }) => if archive {
                (job.at(Phase::Uploading), Action::Upload(job.processed))
            } else {
                (job.at(Phase::Storing), Action::Store(job.processed))
            },
            (Phase::Uploading, Event::Uploaded) => (
                job.at(Phase::Storing),
                Action::Store(job.processed),
            ),
            (Phase::Storing, Event::Stored) => job.advanced(),
            _ => (job, Action::Idle),
        }
    }
}

fn advance(job: Job) -> (r: (Job, Action))
    requires
        job.wf(),
        job.phase.in_commit(),
    ensures
        r == job.advanced(),
{
    let done: usize = job.processed + 1;
    if done == job.total {
        (
            Job { phase: Phase::Completed, total: job.total, processed: done, error: job.error },
            Action::Complete,
        )
    } else {
        (
            Job { phase: Phase::Lookup, total: job.total, processed: done, error: job.error },
            Action::Lookup(done),
        )
    }
}

/// Takes the job one step on: the next state and the next piece of work for
/// the event that the caller reports.
pub fn step(job: Job, event: Event) -> (r: (Job, Action))
    requires
        job.wf(),
    ensures
        r == transition(job, event),
        r.0.wf(),
{
    match job.phase {
        Phase::Completed | Phase::Failed => (job, Action::Idle),
        phase => {
            let Job { phase: _, total, processed, error } = job;
            match (phase, event) {
                (_, Event::Failure(message)) => (
                    Job { phase: Phase::Failed, total, processed, error: Some(message) },
                    Action::ReportFailure,
                ),
                (Phase::Queued, Event::Start) => (
                    Job { phase: Phase::Cloning, total, processed, error },
                    Action::Materialize,
                ),
                (Phase::Cloning, Event::Materialized) => (
                    Job { phase: Phase::Listing, total, processed, error },
                    Action::ListCommits,
                ),
                (Phase::Listing, Event::Listed { total: selected }) => {
                    if selected == 0 {
                        (
                            Job { phase: Phase::Completed, total: 0, processed: 0, error },
                            Action::Complete,
                        )
                    } else {
                        (
                            Job { phase: Phase::Lookup, total: selected, processed: 0, error },
                            Action::Lookup(0),
                        )
                    }
                },
                (Phase::Lookup, Event::Known) => advance(
                    Job { phase: Phase::Lookup, total, processed, error },
                ),
                (Phase::Lookup, Event::Unknown) => (
                    Job { phase: Phase::Extracting, total, processed, error },
                    Action::Extract(processed),
                ),
                (Phase::Extracting, Event::Extracted { archive }) => {
                    if archive {
                        (
                            Job { phase: Phase::Uploading, total, processed, error },
                            Action::Upload(processed),
                        )
                    } else {
                        (
                            Job { phase: Phase::Storing, total, processed, error },
                            Action::Store(processed),
                        )
                    }
                },
                (Phase::Uploading, Event::Uploaded) => (
                    Job { phase: Phase::Storing, total, processed, error },
                    Action::Store(processed),
                ),
                (Phase::Storing, Event::Stored) => advance(
                    Job { phase: Phase::Storing, total, processed, error },
                ),
                (phase, _) => (Job { phase, total, processed, error }, Action::Idle),
            }
        },
    }
}

/// The event that the building of a commit's archive ends in: extracted,
/// with or without an archive, or failed with the builder's message.
pub open spec fn archive_outcome(built: Result<Option<Vec<u8>>, ArchiveError>) -> Event {
    match built {
        Ok(Some(_)) => Event::Extracted { archive: true },
        Ok(None) => Event::Extracted { archive: false },
        Err(e) => Event::Failure(e.message),
    }
}

/// Reports how the building of a commit's archive went.
pub fn archive_event(built: &Result<Option<Vec<u8>>, ArchiveError>) -> (event: Event)
    ensures
        event == archive_outcome(*built),
{
    match built {
        Ok(Some(_)) => Event::Extracted { archive: true },
        Ok(None) => Event::Extracted { archive: false },
        Err(e) => Event::Failure(e.message.clone()),
    }
}

/// A commit that only deleted files has no file to archive; and where no
/// archive was made of a commit, its record is still written, and nothing is
/// uploaded before.
pub proof fn lemma_deletions_are_recorded_without_upload(job: Job, files: Seq<ChangedFile>)
    requires
        job.wf(),
        job.phase == Phase::Extracting,
        forall|k: int| 0 <= k < files.len() ==> (#[trigger] files[k]).kind == ChangeKind::Deleted,
    ensures
        archived_paths(files).len() == 0,
        transition(job, archive_outcome(Ok(None))) == (
            job.at(Phase::Storing),
            Action::Store(job.processed),
        ),
{
    lemma_deletions_archive_nothing(files);
}

/// A well-formed job stays well formed, whatever is reported.
pub proof fn lemma_step_keeps_wf(job: Job, event: Event)
    requires
        job.wf(),
    ensures
        transition(job, event).0.wf(),
{
}

/// A job's status never goes back: from queued to cloning to parsing to
/// completed, or from any of the first three to failed. It is completed only
/// after parsing, with every selected commit done.
pub proof fn lemma_status_moves_forward(job: Job, event: Event)
    requires
        job.wf(),
    ensures
        ({
            let next = transition(job, event).0;
            &&& next.phase.status().rank() >= job.phase.status().rank()
            &&& next.phase.status().rank() <= job.phase.status().rank() + 1 || next.phase
                == Phase::Failed
            &&& next.phase == Phase::Completed && job.phase != Phase::Completed ==> job.phase.status()
                == JobStatus::Parsing && next.processed == next.total
        }),
{
}

/// Completed and failed jobs are final: no event changes them or asks for
/// more work.
pub proof fn lemma_terminal_is_absorbing(job: Job, event: Event)
    requires
        job.phase.is_terminal(),
    ensures
        transition(job, event) == (job, Action::Idle),
{
}

/// A failure reported at any step of an unfinished job ends it: the job is
/// failed with the reported message, no further work on any commit is asked
/// for, and the count of commits done is what it was, so it counts the commits
/// that were finished before the failing step and no other.
pub proof fn lemma_failure_ends_job(job: Job, message: String)
    requires
        job.wf(),
        !job.phase.is_terminal(),
    ensures
        transition(job, Event::Failure(message)).0.phase == Phase::Failed,
        transition(job, Event::Failure(message)).0.error == Some(message),
        transition(job, Event::Failure(message)).0.processed == job.processed,
        transition(job, Event::Failure(message)).0.total == job.total,
        transition(job, Event::Failure(message)).1 == Action::ReportFailure,
{
}

/// The count of commits done never goes down, and goes up, by one, only on
/// the two events that finish a commit: the record store has it already, or
/// its record was just written. The total is set once, when the history is
/// listed.
pub proof fn lemma_progress_is_monotonic(job: Job, event: Event)
    requires
        job.wf(),
    ensures
        ({
            let next = transition(job, event).0;
            let finishes = (job.phase == Phase::Lookup && event == Event::Known) || (job.phase
                == Phase::Storing && event == Event::Stored);
            &&& next.processed == if finishes {
                job.processed + 1
            } else {
                job.processed as int
            }
            &&& next.total != job.total ==> job.phase == Phase::Listing
        }),
{
}

/// A record is written only as the last step of a commit's work: the store
/// is asked for one only after the commit was looked up and found unknown,
/// then extracted and, where it has an archive, uploaded.
pub proof fn lemma_store_is_last(job: Job, event: Event)
    requires
        job.wf(),
    ensures
        ({
            let (next, action) = transition(job, event);
            &&& action == Action::Store(job.processed) ==> (job.phase == Phase::Uploading
                || job.phase == Phase::Extracting) && next.phase == Phase::Storing
            &&& (job.phase == Phase::Lookup && event == Event::Known) ==> !(action is Store)
                && !(action is Extract) && !(action is Upload)
            &&& (job.phase == Phase::Extracting && event == Event::Extracted { archive: false })
                ==> action == Action::Store(job.processed)
        }),
{
}

} // verus!

//! The plain records that pass between the service and this library.

use vstd::prelude::*;
use crate::diff::{ChangedFile, FileDelta};

verus! {

/// A commit as the history walk hands it over, with its comparison against
/// its first parent.
#[derive(Debug)]
pub struct RawCommit {
    /// The revision id.
    pub sha: String,
    pub author_name: String,
    pub author_email: String,
    /// The commit time, in seconds from the start of 1970, UTC.
    pub time: i64,
    pub message: String,
    pub deltas: Vec<FileDelta>,
}

/// A commit that was selected, as it is recorded.
#[derive(Debug, Clone)]
pub struct ParsedCommit {
    /// An identifier of the record's own, drawn when the commit is selected.
    pub id: String,
    pub sha: String,
    pub author_name: String,
    pub author_email: String,
    /// The commit time, in seconds from the start of 1970, UTC.
    pub commit_date: i64,
    pub message: String,
    /// The first line of the message.
    pub message_title: String,
    pub files_changed: usize,
    /// The lines inserted in all the changed files together.
    pub insertions: u128,
    /// The lines removed in all the changed files together.
    pub deletions: u128,
    /// The summary of the changes: for each changed file one line, its kind
    /// in capitals, a colon and its path.
    pub changed_paths: String,
    /// The changed files, in the order of the comparison.
    pub files: Vec<ChangedFile>,
}

/// Where the archive of a commit's files is kept, and how large it is.
#[derive(Debug)]
pub struct ArchiveRef {
    /// The key in the blob store.
    pub key: String,
    /// The number of bytes.
    pub size: usize,
}

/// A selected commit as it is written to the record store: its texts cleaned
/// and cut to the lengths of their columns, its ticket, and the reference to
/// its archive where it has one.
#[derive(Debug)]
pub struct CommitRow {
    pub id: String,
    pub sha: String,
    pub author_name: String,
    pub author_email: String,
    pub commit_date: i64,
    pub message: String,
    pub message_title: String,
    pub files_changed: usize,
    pub insertions: u128,
    pub deletions: u128,
    pub changed_paths: String,
    pub files: Vec<ChangedFile>,
    pub jira_key: Option<String>,
    pub jira_url: Option<String>,
    pub archive: Option<ArchiveRef>,
}

#[derive(Debug, Clone)]
pub struct RepositoryInfo {
    pub name: String,
    pub url: String,
    pub branch: String,
    pub last_commit_sha: Option<String>,
}

/// A request to analyse a repository.
#[derive(Debug)]
pub struct AnalyzeRequest {
    pub job_id: String,
    pub repo_url: String,
    pub branch: String,
    pub credential_token: Option<String>,
    pub start_date: Option<String>,
    pub end_date: Option<String>,
    pub author_filter: Option<String>,
}

/// The answer to an accepted request.
#[derive(Debug)]
pub struct AnalyzeResponse {
    pub job_id: String,
    pub status: String,
    pub message: String,
}

impl AnalyzeResponse {
    /// The answer that is given at once, while the job runs on.
    pub fn accepted(job_id: String) -> (r: AnalyzeResponse)
        ensures
            r.job_id == job_id,
            r.status@ == "processing"@,
            r.message@ == "Analysis started in background"@,
    {
        AnalyzeResponse {
            job_id,
            status: "processing".to_owned(),
            message: "Analysis started in background".to_owned(),
        }
    }
}

} // verus!

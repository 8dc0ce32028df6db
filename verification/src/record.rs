//! The row that is written for a commit.

use vstd::prelude::*;
use crate::archive::{archive_key, key_of};
use crate::diff::copy_files;
use crate::models::{ArchiveRef, CommitRow, ParsedCommit};
use crate::sanitize::{sanitize_for_mysql, sanitized};
use crate::ticket::{extract_jira_key, first_match, jira_url, ticket_pattern, ticket_url};

verus! {

/// The length of the columns that hold a name, an address or a title.
pub const SHORT_TEXT: usize = 500;

/// The length of the columns that hold a message or a summary of changes.
pub const LONG_TEXT: usize = 65000;

/// `row` is the row of `commit` in the repository `repository`, where the
/// tracker is at `base` and an archive of `archive_size` bytes was uploaded
/// (`None`: there is no archive). Identifier, revision id, time, the counts
/// and the changed files are as they are in the commit; names and title are
/// cleaned and cut to the short length, message and summary to the long one;
/// the ticket key is the first one in the message as it was recorded, with
/// its address where there is a key and a tracker; and the row refers to the
/// archive, where there is one, by its key and its size.
pub open spec fn row_of(
    row: CommitRow,
    commit: ParsedCommit,
    base: Option<Seq<char>>,
    repository: Seq<char>,
    archive_size: Option<usize>,
) -> bool {
    &&& row.id@ == commit.id@
    &&& row.sha@ == commit.sha@
    &&& row.commit_date == commit.commit_date
    &&& row.files_changed == commit.files_changed
    &&& row.insertions == commit.insertions
    &&& row.deletions == commit.deletions
    &&& row.files@ == commit.files@
    &&& match archive_size {
        Some(n) => row.archive matches Some(a) && a.key@ == key_of(repository, commit.sha@)
            && a.size == n,
        None => row.archive is None,
    }
    &&& row.author_name@ == sanitized(commit.author_name@, SHORT_TEXT as nat)
    &&& row.author_email@ == sanitized(commit.author_email@, SHORT_TEXT as nat)
    &&& row.message_title@ == sanitized(commit.message_title@, SHORT_TEXT as nat)
    &&& row.message@ == sanitized(commit.message@, LONG_TEXT as nat)
    &&& row.changed_paths@ == sanitized(commit.changed_paths@, LONG_TEXT as nat)
    &&& match first_match(ticket_pattern(), commit.message@) {
        Some(key) => {
            &&& row.jira_key matches Some(k) && k@ == key
            &&& match base {
                Some(b) => row.jira_url matches Some(u) && u@ == ticket_url(b, key),
                None => row.jira_url is None,
            }
        },
        None => row.jira_key is None && row.jira_url is None,
    }
}

/// Makes the row of a commit. `tracker_base` is the address of the ticket
/// tracker, where one is known; `archive_size` is the size of the commit's
/// archive, where one was made and uploaded.
pub fn prepare_row(
    commit: &ParsedCommit,
    tracker_base: Option<&str>,
    repository_id: &str,
    archive_size: Option<usize>,
) -> (row: CommitRow)
    ensures
        row_of(
            row,
            *commit,
            match tracker_base {
                Some(b) => Some(b@),
                None => None,
            },
            repository_id@,
            archive_size,
        ),
{
    let archive = match archive_size {
        Some(size) => Some(
            ArchiveRef { key: archive_key(repository_id, commit.sha.as_str()), size },
        ),
        None => None,
    };
    let jira_key = extract_jira_key(commit.message.as_str());
    let url = match &jira_key {
        Some(k) => jira_url(tracker_base, Some(k.as_str())),
        None => None,
    };
    CommitRow {
        id: commit.id.clone(),
        sha: commit.sha.clone(),
        author_name: sanitize_for_mysql(commit.author_name.as_str(), SHORT_TEXT),
        author_email: sanitize_for_mysql(commit.author_email.as_str(), SHORT_TEXT),
        commit_date: commit.commit_date,
        message: sanitize_for_mysql(commit.message.as_str(), LONG_TEXT),
        message_title: sanitize_for_mysql(commit.message_title.as_str(), SHORT_TEXT),
        files_changed: commit.files_changed,
        insertions: commit.insertions,
        deletions: commit.deletions,
        changed_paths: sanitize_for_mysql(commit.changed_paths.as_str(), LONG_TEXT),
        files: copy_files(&commit.files),
        jira_key,
        jira_url: url,
        archive,
    }
}

} // verus!

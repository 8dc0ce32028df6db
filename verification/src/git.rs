//! The working copy of a repository and the commits that are taken from it.
//! What touches the disk or the network is the caller's part: here it is
//! decided where the copy lives, how it is brought up to date, where the walk
//! through the history starts, and which commits are recorded.

use vstd::prelude::*;
use vstd::string::StringExecFns;
use crate::diff::{diff, summary_text, total, FileDelta};
use crate::history::{author_matches, author_passes, author_tokens, tokens_of, views, DateWindow};
use crate::md5::{compute, digest, hex, lemma_hex_is_one_to_one, to_hex};
use crate::models::{ParsedCommit, RawCommit};
use crate::text::{chars_of, slice_of, string_of};

verus! {

/// The user name under which an access token is presented.
pub open spec fn token_user() -> Seq<char> {
    "x-access-token"@
}

/// The refspec that fetches every branch of the remote into the
/// remote-tracking names.
pub open spec fn all_branches_refspec() -> Seq<char> {
    "refs/heads/*:refs/remotes/origin/*"@
}

/// The pattern of the local branch references.
pub open spec fn local_glob() -> Seq<char> {
    "refs/heads/*"@
}

/// The pattern of the remote-tracking references.
pub open spec fn remote_glob() -> Seq<char> {
    "refs/remotes/origin/*"@
}

/// The name of the local branch reference.
pub open spec fn local_ref(branch: Seq<char>) -> Seq<char> {
    "refs/heads/"@ + branch
}

/// The name of the remote-tracking reference.
pub open spec fn remote_ref(branch: Seq<char>) -> Seq<char> {
    "refs/remotes/origin/"@ + branch
}

/// The directory `name` inside the directory `dir`.
pub open spec fn path_in(dir: Seq<char>, name: Seq<char>) -> Seq<char> {
    if dir.len() == 0 || dir.last() == '/' {
        dir + name
    } else {
        dir + "/"@ + name
    }
}

/// The name of the working copy of the repository at `url`: its digest in
/// hexadecimal. The branch plays no part in it.
pub open spec fn copy_name(url: Seq<char>) -> Seq<char> {
    hex(digest(url) as nat)
}

/// In one directory, different names are different paths.
pub proof fn lemma_path_in_is_one_to_one(dir: Seq<char>, a: Seq<char>, b: Seq<char>)
    requires
        path_in(dir, a) == path_in(dir, b),
    ensures
        a == b,
{
    let prefix = if dir.len() == 0 || dir.last() == '/' {
        dir
    } else {
        dir + "/"@
    };
    assert(path_in(dir, a) == prefix + a);
    assert(path_in(dir, b) == prefix + b);
    assert((prefix + a).subrange(prefix.len() as int, (prefix + a).len() as int) =~= a);
    assert((prefix + b).subrange(prefix.len() as int, (prefix + b).len() as int) =~= b);
}

/// Repositories whose URLs have different digests have different working
/// copies under one directory.
pub proof fn lemma_distinct_digests_distinct_paths(dir: Seq<char>, url: Seq<char>, other: Seq<char>)
    requires
        digest(url) != digest(other),
    ensures
        path_in(dir, copy_name(url)) != path_in(dir, copy_name(other)),
{
    if path_in(dir, copy_name(url)) == path_in(dir, copy_name(other)) {
        lemma_path_in_is_one_to_one(dir, copy_name(url), copy_name(other));
        lemma_hex_is_one_to_one(digest(url) as nat, digest(other) as nat);
    }
}

/// A user name and a password for the transport.
#[derive(Debug)]
pub struct Credential {
    pub username: String,
    pub password: String,
}

/// How a working copy is brought up to date.
#[derive(Debug)]
pub enum SyncPlan {
    /// There is no copy yet: clone `branch` of `url` into `path`.
    Clone { url: String, path: String, branch: String, credential: Option<Credential> },
    /// Fetch `refspec`, set `local_ref`, where it exists, to what was
    /// fetched, and check the head out, overwriting what is there.
    FetchBranch { path: String, refspec: String, local_ref: String, credential: Option<Credential> },
    /// Fetch `refspec`, which names every branch, and leave what is checked
    /// out as it is.
    FetchAll { path: String, refspec: String, credential: Option<Credential> },
}

/// Where a walk through the history starts.
#[derive(Debug)]
pub enum WalkSeed {
    /// From the tip of every reference that matches one of the two patterns:
    /// every local and every remote-tracking branch.
    AllBranches { local: String, remote: String },
    /// From the remote-tracking reference of this name.
    Remote(String),
    /// From the local reference of this name.
    Local(String),
    /// From the head: the branch was not found, which deserves a warning.
    Head,
}

pub struct GitProcessor {
    work_dir: String,
}

impl Credential {
    /// The credential that presents an access token.
    pub open spec fn presents(self, token: Seq<char>) -> bool {
        self.username@ == token_user() && self.password@ == token
    }

    pub fn from_token(token: &str) -> (c: Credential)
        ensures
            c.presents(token@),
    {
        Credential { username: "x-access-token".to_owned(), password: token.to_owned() }
    }
}

/// The credential of a plan is the one that presents the token, and none
/// where there is no token.
pub open spec fn credential_for(credential: Option<Credential>, token: Option<&str>) -> bool {
    match token {
        Some(t) => credential matches Some(c) && c.presents(t@),
        None => credential is None,
    }
}

fn credential_of(token: Option<&str>) -> (c: Option<Credential>)
    ensures
        credential_for(c, token),
{
    match token {
        Some(t) => Some(Credential::from_token(t)),
        None => None,
    }
}

/// Up to where the first line goes: the position of the first line feed, or
/// the length where there is none.
pub open spec fn line_end(s: Seq<char>) -> int
    decreases s.len(),
{
    if s.len() == 0 || s[0] == '\n' {
        0
    } else {
        1 + line_end(s.drop_first())
    }
}

/// The first line of a text. Where a line feed ends it, the line goes
/// without the line feed and without a carriage return just before it; where
/// the text has no line feed, the line is the whole text.
pub open spec fn first_line(s: Seq<char>) -> Seq<char> {
    let line = s.take(line_end(s));
    if line_end(s) < s.len() && line.len() > 0 && line.last() == '\r' {
        line.drop_last()
    } else {
        line
    }
}

/// The first line of a message: its title.
pub fn title_of(message: &str) -> (title: String)
    ensures
        title@ == first_line(message@),
{
    let v = chars_of(message);
    let n: usize = v.len();
    let mut i: usize = 0;
    assert(v@.subrange(0, n as int) =~= v@);
    while i < n && v[i] != '\n'
        invariant
            i <= n == v.len(),
            line_end(v@) == i + line_end(v@.subrange(i as int, n as int)),
        decreases n - i,
    {
        assert(v@.subrange(i as int, n as int).drop_first() =~= v@.subrange(i + 1, n as int));
        i += 1;
    }
    assert(line_end(v@) == i);
    assert(v@.take(i as int) =~= v@.subrange(0, i as int));
    let end: usize = if i < n && i > 0 && v[i - 1] == '\r' {
        i - 1
    } else {
        i
    };
    let line = slice_of(&v, 0, end);
    assert(line@ =~= first_line(v@));
    string_of(&line)
}

/// A commit is wanted when its time lies in the window and its author passes
/// the filter.
pub open spec fn wanted(c: RawCommit, window: DateWindow, filter: Option<Seq<char>>) -> bool {
    window.holds(c.time) && author_passes(filter, c.author_email@, c.author_name@)
}

/// The wanted commits, in the order of the walk.
pub open spec fn selection(raws: Seq<RawCommit>, window: DateWindow, filter: Option<Seq<char>>) -> Seq<
    RawCommit,
> {
    raws.filter(|c: RawCommit| wanted(c, window, filter))
}

/// The walk goes from later commits to earlier ones.
pub open spec fn time_descending(commits: Seq<RawCommit>) -> bool {
    forall|i: int, j: int| 0 <= i < j < commits.len() ==> commits[i].time >= commits[j].time
}

/// Once a walk that goes back in time has reached a commit from before the
/// window, it may stop: no commit from there on is wanted.
pub proof fn lemma_walk_may_stop(
    commits: Seq<RawCommit>,
    window: DateWindow,
    filter: Option<Seq<char>>,
    i: int,
)
    requires
        time_descending(commits),
        0 <= i < commits.len(),
        window.precedes(commits[i].time),
    ensures
        forall|j: int| i <= j < commits.len() ==> !wanted(#[trigger] commits[j], window, filter),
{
}

/// Without dates and without an author filter every commit of the walk is
/// selected: a walk that is not empty gives records.
pub proof fn lemma_no_filter_selects_all(commits: Seq<RawCommit>)
    ensures
        selection(commits, DateWindow::of(None, None), None) == commits,
    decreases commits.len(),
{
    reveal(Seq::filter);
    let window = DateWindow::of(None, None);
    if commits.len() > 0 {
        lemma_no_filter_selects_all(commits.drop_last());
        assert(wanted(commits.last(), window, None));
        assert(commits.drop_last().push(commits.last()) =~= commits);
    } else {
        assert(selection(commits, window, None) =~= commits);
    }
}

/// No selected commit is earlier than a time that no commit of the walk is
/// earlier than.
pub proof fn lemma_selection_not_before(
    commits: Seq<RawCommit>,
    window: DateWindow,
    filter: Option<Seq<char>>,
    bound: i64,
)
    requires
        forall|j: int| 0 <= j < commits.len() ==> (#[trigger] commits[j]).time >= bound,
    ensures
        forall|k: int|
            0 <= k < selection(commits, window, filter).len() ==> (#[trigger] selection(
                commits,
                window,
                filter,
            )[k]).time >= bound,
    decreases commits.len(),
{
    reveal(Seq::filter);
    if commits.len() > 0 {
        let rest = commits.drop_last();
        assert forall|j: int| 0 <= j < rest.len() implies (#[trigger] rest[j]).time >= bound by {
            assert(rest[j] == commits[j]);
        }
        lemma_selection_not_before(rest, window, filter, bound);
        let last = commits[commits.len() - 1];
        let chosen = selection(commits, window, filter);
        let before = selection(rest, window, filter);
        assert(chosen == if wanted(last, window, filter) {
            before.push(last)
        } else {
            before
        });
        assert forall|k: int| 0 <= k < chosen.len() implies (#[trigger] chosen[k]).time
            >= bound by {
            if k < before.len() {
                assert(chosen[k] == before[k]);
            }
        }
    }
}

/// The selection keeps the order of the walk: of a walk that goes back in
/// time, the selected commits go back in time too.
pub proof fn lemma_selection_keeps_order(
    commits: Seq<RawCommit>,
    window: DateWindow,
    filter: Option<Seq<char>>,
)
    requires
        time_descending(commits),
    ensures
        time_descending(selection(commits, window, filter)),
    decreases commits.len(),
{
    reveal(Seq::filter);
    if commits.len() > 0 {
        let rest = commits.drop_last();
        let last = commits.last();
        assert forall|i: int, j: int| 0 <= i < j < rest.len() implies rest[i].time
            >= rest[j].time by {
            assert(rest[i] == commits[i] && rest[j] == commits[j]);
        }
        lemma_selection_keeps_order(rest, window, filter);
        assert forall|j: int| 0 <= j < rest.len() implies (#[trigger] rest[j]).time
            >= last.time by {
            assert(rest[j] == commits[j]);
            assert(last == commits[commits.len() - 1]);
        }
        lemma_selection_not_before(rest, window, filter, last.time);
        let chosen = selection(commits, window, filter);
        let before = selection(rest, window, filter);
        assert(chosen == if wanted(last, window, filter) {
            before.push(last)
        } else {
            before
        });
        assert forall|i: int, j: int| 0 <= i < j < chosen.len() implies chosen[i].time
            >= chosen[j].time by {
            if j < before.len() {
                assert(chosen[i] == before[i] && chosen[j] == before[j]);
            } else {
                assert(chosen[i] == before[i]);
            }
        }
    }
}

/// `p` is the record of the commit `c`: it has the commit's revision id,
/// author, time and message, the message's first line as title, the number
/// of the changed files, the lines inserted and removed in all of them, the
/// summary of the changes, each changed file with its kind and its counts,
/// and an identifier of 36 characters.
pub open spec fn records(p: ParsedCommit, c: RawCommit) -> bool {
    &&& p.id@.len() == 36
    &&& p.sha@ == c.sha@
    &&& p.author_name@ == c.author_name@
    &&& p.author_email@ == c.author_email@
    &&& p.commit_date == c.time
    &&& p.message@ == c.message@
    &&& p.message_title@ == first_line(c.message@)
    &&& p.files_changed == c.deltas.len()
    &&& p.insertions == total(c.deltas@, '+')
    &&& p.deletions == total(c.deltas@, '-')
    &&& p.changed_paths@ == summary_text(c.deltas@)
    &&& p.files.len() == c.deltas.len()
    &&& forall|k: int| 0 <= k < c.deltas.len() ==> (#[trigger] c.deltas[k]).describes(p.files[k])
}

/// Trusted: `uuid::Uuid::new_v4` and its `to_string`. Each call draws a fresh
/// random identifier; all that is said of it is its written length, that of
/// the hyphenated form.
#[verifier::external_body]
fn fresh_id() -> (id: String)
    ensures
        id@.len() == 36,
{
    uuid::Uuid::new_v4().to_string()
}

/// The name of the local reference of a branch.
pub fn local_ref_name(branch: &str) -> (name: String)
    ensures
        name@ == local_ref(branch@),
{
    let mut name = "refs/heads/".to_owned();
    name.append(branch);
    name
}

/// The name of the remote-tracking reference of a branch.
pub fn remote_ref_name(branch: &str) -> (name: String)
    ensures
        name@ == remote_ref(branch@),
{
    let mut name = "refs/remotes/origin/".to_owned();
    name.append(branch);
    name
}

/// The path of the directory `name` inside the directory `dir`.
pub fn join_path(dir: &str, name: &str) -> (path: String)
    ensures
        path@ == path_in(dir@, name@),
{
    let chars = chars_of(dir);
    let mut path = dir.to_owned();
    if chars.len() > 0 && chars[chars.len() - 1] != '/' {
        path.append("/");
    }
    path.append(name);
    path
}

impl GitProcessor {
    /// The directory under which the working copies live.
    pub closed spec fn work_dir(&self) -> Seq<char> {
        self.work_dir@
    }

    pub fn new(work_dir: &str) -> (p: Self)
        ensures
            p.work_dir() == work_dir@,
    {
        Self { work_dir: work_dir.to_owned() }
    }

    /// Where the working copy of the repository at `url` lives. The place
    /// depends on the URL alone, so every request for one URL shares one copy.
    pub fn repo_path(&self, url: &str) -> (path: String)
        ensures
            path@ == path_in(self.work_dir(), copy_name(url@)),
    {
        let name = to_hex(compute(url));
        join_path(self.work_dir.as_str(), name.as_str())
    }

    /// Decides how the working copy is brought up to date. `exists` tells
    /// whether there is something at [`GitProcessor::repo_path`]. Where there
    /// is nothing the repository is cloned; else it is fetched, all its
    /// branches or the one that is named.
    pub fn clone_or_fetch(
        &self,
        url: &str,
        branch: &str,
        token: Option<&str>,
        all_branches: bool,
        exists: bool,
    ) -> (plan: SyncPlan)
        ensures
            match plan {
                SyncPlan::Clone { url: u, path, branch: b, credential } => {
                    &&& !exists
                    &&& u@ == url@
                    &&& b@ == branch@
                    &&& path@ == path_in(self.work_dir(), copy_name(url@))
                    &&& credential_for(credential, token)
                },
                SyncPlan::FetchBranch { path, refspec, local_ref: r, credential } => {
                    &&& exists
                    &&& !all_branches
                    &&& path@ == path_in(self.work_dir(), copy_name(url@))
                    &&& refspec@ == branch@
                    &&& r@ == local_ref(branch@)
                    &&& credential_for(credential, token)
                },
                SyncPlan::FetchAll { path, refspec, credential } => {
                    &&& exists
                    &&& all_branches
                    &&& path@ == path_in(self.work_dir(), copy_name(url@))
                    &&& refspec@ == all_branches_refspec()
                    &&& credential_for(credential, token)
                },
            },
    {
        let path = self.repo_path(url);
        let credential = credential_of(token);
        if !exists {
            SyncPlan::Clone { url: url.to_owned(), path, branch: branch.to_owned(), credential }
        } else if all_branches {
            SyncPlan::FetchAll {
                path,
                refspec: "refs/heads/*:refs/remotes/origin/*".to_owned(),
                credential,
            }
        } else {
            SyncPlan::FetchBranch {
                path,
                refspec: branch.to_owned(),
                local_ref: local_ref_name(branch),
                credential,
            }
        }
    }

    /// Decides where the walk starts: from every branch where that is asked
    /// for; else from the remote-tracking reference of the branch where it
    /// exists, else from the local one where that exists, else from the head.
    pub fn walk_seed(&self, branch: &str, all_branches: bool, has_remote: bool, has_local: bool) -> (seed:
        WalkSeed)
        ensures
            match seed {
                WalkSeed::AllBranches { local, remote } => all_branches && local@ == local_glob()
                    && remote@ == remote_glob(),
                WalkSeed::Remote(name) => !all_branches && has_remote && name@ == remote_ref(
                    branch@,
                ),
                WalkSeed::Local(name) => !all_branches && !has_remote && has_local && name@
                    == local_ref(branch@),
                WalkSeed::Head => !all_branches && !has_remote && !has_local,
            },
    {
        if all_branches {
            WalkSeed::AllBranches {
                local: "refs/heads/*".to_owned(),
                remote: "refs/remotes/origin/*".to_owned(),
            }
        } else if has_remote {
            WalkSeed::Remote(remote_ref_name(branch))
        } else if has_local {
            WalkSeed::Local(local_ref_name(branch))
        } else {
            WalkSeed::Head
        }
    }

    /// The number of changed files and the summary of the changes: for each
    /// file one line, its kind in capitals, a colon and its path, in the
    /// order of the comparison.
    pub fn get_changed_paths(&self, deltas: &Vec<FileDelta>) -> (r: (usize, String))
        ensures
            r.0 == deltas.len(),
            r.1@ == summary_text(deltas@),
    {
        let summary = diff(deltas);
        (summary.files_changed, summary.summary)
    }

    /// Selects the commits of a walk that are wanted and makes a record of
    /// each: those whose time lies in `window` and whose author passes
    /// `author_filter`. The order of the walk is kept, so that the records of
    /// a walk that goes back in time go back in time. A filter without tokens
    /// excludes nothing.
    pub fn select_commits(
        &self,
        commits: &Vec<RawCommit>,
        window: DateWindow,
        author_filter: Option<&str>,
    ) -> (r: Vec<ParsedCommit>)
        ensures
            ({
                let filter = match author_filter {
                    Some(f) => Some(f@),
                    None => None,
                };
                let chosen = selection(commits@, window, filter);
                &&& r.len() == chosen.len()
                &&& forall|k: int| 0 <= k < r.len() ==> records(#[trigger] r[k], chosen[k])
                &&& time_descending(commits@) ==> forall|i: int, j: int|
                    0 <= i < j < r.len() ==> r[i].commit_date >= r[j].commit_date
            }),
    {
        let tokens: Option<Vec<Vec<char>>> = match author_filter {
            Some(f) => Some(author_tokens(f)),
            None => None,
        };
        let ghost filter: Option<Seq<char>> = match author_filter {
            Some(f) => Some(f@),
            None => None,
        };
        let mut r: Vec<ParsedCommit> = Vec::new();
        let mut i: usize = 0;
        assert(commits@.take(0) =~= Seq::<RawCommit>::empty());
        while i < commits.len()
            invariant
                i <= commits.len(),
                tokens is Some == filter is Some,
                tokens matches Some(t) ==> views(t@) == tokens_of(filter.unwrap()),
                r.len() == selection(commits@.take(i as int), window, filter).len(),
                forall|k: int|
                    0 <= k < r.len() ==> records(
                        #[trigger] r[k],
                        selection(commits@.take(i as int), window, filter)[k],
                    ),
            decreases commits.len() - i,
        {
            let c = &commits[i];
            proof {
                assert(commits@.take(i + 1).drop_last() =~= commits@.take(i as int));
                assert(commits@.take(i + 1).last() == *c);
                reveal(Seq::filter);
            }
            let in_window = window.admits(c.time);
            let by_author = match &tokens {
                Some(t) => author_matches(t, c.author_email.as_str(), c.author_name.as_str()),
                None => true,
            };
            if in_window && by_author {
                let changes = diff(&c.deltas);
                let p = ParsedCommit {
                    id: fresh_id(),
                    sha: c.sha.clone(),
                    author_name: c.author_name.clone(),
                    author_email: c.author_email.clone(),
                    commit_date: c.time,
                    message: c.message.clone(),
                    message_title: title_of(c.message.as_str()),
                    files_changed: changes.files_changed,
                    insertions: changes.insertions,
                    deletions: changes.deletions,
                    changed_paths: changes.summary,
                    files: changes.files,
                };
                assert(records(p, *c));
                r.push(p);
            }
            i += 1;
        }
        proof {
            assert(commits@.take(i as int) =~= commits@);
            if time_descending(commits@) {
                lemma_selection_keeps_order(commits@, window, filter);
                let chosen = selection(commits@, window, filter);
                assert forall|i: int, j: int| 0 <= i < j < r.len() implies r[i].commit_date
                    >= r[j].commit_date by {
                    assert(records(r[i], chosen[i]));
                    assert(records(r[j], chosen[j]));
                }
            }
        }
        r
    }

    /// Selects the commits of a walk that are wanted and makes a record of
    /// each: those whose time lies between the first second of `start_date`
    /// and the last second of `end_date`, and whose author passes
    /// `author_filter`. The order of the walk is kept, so that the records of
    /// a walk that goes back in time go back in time. A date that cannot be
    /// read, and a filter without tokens, exclude nothing.
    pub fn parse_commits(
        &self,
        commits: &Vec<RawCommit>,
        start_date: Option<&str>,
        end_date: Option<&str>,
        author_filter: Option<&str>,
    ) -> (r: Vec<ParsedCommit>)
        ensures
            ({
                let window = DateWindow::of(
                    match start_date {
                        Some(d) => Some(d@),
                        None => None,
                    },
                    match end_date {
                        Some(d) => Some(d@),
                        None => None,
                    },
                );
                let filter = match author_filter {
                    Some(f) => Some(f@),
                    None => None,
                };
                let chosen = selection(commits@, window, filter);
                &&& r.len() == chosen.len()
                &&& forall|k: int| 0 <= k < r.len() ==> records(#[trigger] r[k], chosen[k])
                &&& time_descending(commits@) ==> forall|i: int, j: int|
                    0 <= i < j < r.len() ==> r[i].commit_date >= r[j].commit_date
            }),
    {
        let window = DateWindow::new(start_date, end_date);
        self.select_commits(commits, window, author_filter)
    }
}

} // verus!

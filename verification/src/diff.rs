//! What a commit changed. The comparison of the commit's tree with that of
//! its first parent comes in as plain data, one [`FileDelta`] for each file;
//! here each is classified and its lines are counted, and the whole is summed
//! up.

use vstd::prelude::*;
use vstd::string::StringExecFns;
use crate::text::{join, joined, string_views};

verus! {

/// The status of a file in a tree comparison, as the version-control engine
/// reports it.
#[derive(Clone, Copy, Debug, PartialEq, Eq, Structural)]
pub enum DeltaStatus {
    Unmodified,
    Added,
    Deleted,
    Modified,
    Renamed,
    Copied,
    Ignored,
    Untracked,
    Typechange,
    Unreadable,
    Conflicted,
}

/// The classification of a changed file.
#[derive(Clone, Copy, Debug, PartialEq, Eq, Structural)]
pub enum ChangeKind {
    Added,
    Deleted,
    Modified,
    Renamed,
    Copied,
}

/// One file of a tree comparison.
#[derive(Debug)]
pub struct FileDelta {
    pub status: DeltaStatus,
    pub old_path: Option<String>,
    pub new_path: Option<String>,
    /// The marker of each line of the file's hunks, in order: `'+'` for an
    /// inserted line, `'-'` for a removed one, anything else for the rest.
    pub origins: Vec<char>,
    /// The patch text, where it was captured.
    pub patch: Option<String>,
}

/// One file that a commit touched.
#[derive(Debug, Clone)]
pub struct ChangedFile {
    pub path: String,
    pub kind: ChangeKind,
    pub additions: usize,
    pub deletions: usize,
    pub patch: Option<String>,
}

/// The changes of one commit.
#[derive(Debug)]
pub struct DiffSummary {
    pub files_changed: usize,
    pub insertions: u128,
    pub deletions: u128,
    /// One line for each file, `KIND: path`, in the order of the comparison.
    pub summary: String,
    pub files: Vec<ChangedFile>,
}

impl DeltaStatus {
    /// Added, deleted, modified, renamed and copied stand for themselves;
    /// every other status counts as modified.
    pub open spec fn kind(self) -> ChangeKind {
        match self {
            DeltaStatus::Added => ChangeKind::Added,
            DeltaStatus::Deleted => ChangeKind::Deleted,
            DeltaStatus::Renamed => ChangeKind::Renamed,
            DeltaStatus::Copied => ChangeKind::Copied,
            _ => ChangeKind::Modified,
        }
    }

    pub fn classify(self) -> (k: ChangeKind)
        ensures
            k == self.kind(),
    {
        match self {
            DeltaStatus::Added => ChangeKind::Added,
            DeltaStatus::Deleted => ChangeKind::Deleted,
            DeltaStatus::Renamed => ChangeKind::Renamed,
            DeltaStatus::Copied => ChangeKind::Copied,
            _ => ChangeKind::Modified,
        }
    }
}

impl ChangeKind {
    pub open spec fn label(self) -> Seq<char> {
        match self {
            ChangeKind::Added => "ADDED"@,
            ChangeKind::Deleted => "DELETED"@,
            ChangeKind::Modified => "MODIFIED"@,
            ChangeKind::Renamed => "RENAMED"@,
            ChangeKind::Copied => "COPIED"@,
        }
    }

    pub fn name(self) -> (s: &'static str)
        ensures
            s@ == self.label(),
    {
        match self {
            ChangeKind::Added => "ADDED",
            ChangeKind::Deleted => "DELETED",
            ChangeKind::Modified => "MODIFIED",
            ChangeKind::Renamed => "RENAMED",
            ChangeKind::Copied => "COPIED",
        }
    }
}

/// How often `marker` occurs among the line markers.
pub open spec fn tally(origins: Seq<char>, marker: char) -> nat
    decreases origins.len(),
{
    if origins.len() == 0 {
        0
    } else {
        tally(origins.drop_last(), marker) + if origins.last() == marker {
            1nat
        } else {
            0nat
        }
    }
}

/// Counts the occurrences of `marker` among the line markers.
pub fn count_lines(origins: &Vec<char>, marker: char) -> (n: usize)
    ensures
        n == tally(origins@, marker),
{
    let mut n: usize = 0;
    let mut i: usize = 0;
    while i < origins.len()
        invariant
            i <= origins.len(),
            n <= i,
            n == tally(origins@.take(i as int), marker),
        decreases origins.len() - i,
    {
        assert(origins@.take(i + 1).drop_last() =~= origins@.take(i as int));
        if origins[i] == marker {
            n += 1;
        }
        i += 1;
    }
    assert(origins@.take(i as int) =~= origins@);
    n
}

impl ChangedFile {
    /// A copy of the entry.
    pub fn copy(&self) -> (file: ChangedFile)
        ensures
            file == *self,
    {
        ChangedFile {
            path: self.path.clone(),
            kind: self.kind,
            additions: self.additions,
            deletions: self.deletions,
            patch: self.patch.clone(),
        }
    }
}

/// Copies a list of changed files.
pub fn copy_files(files: &Vec<ChangedFile>) -> (r: Vec<ChangedFile>)
    ensures
        r@ == files@,
{
    let mut r: Vec<ChangedFile> = Vec::new();
    let mut i: usize = 0;
    while i < files.len()
        invariant
            i <= files.len(),
            r@ == files@.take(i as int),
        decreases files.len() - i,
    {
        r.push(files[i].copy());
        i += 1;
        assert(r@ =~= files@.take(i as int));
    }
    assert(files@.take(i as int) =~= files@);
    r
}

impl FileDelta {
    /// The path under which the file is reported: the new one, else the old
    /// one, else the word `unknown`.
    pub open spec fn path(self) -> Seq<char> {
        match (self.new_path, self.old_path) {
            (Some(p), _) => p@,
            (None, Some(p)) => p@,
            (None, None) => "unknown"@,
        }
    }

    /// The file's line of the summary.
    pub open spec fn summary_line(self) -> Seq<char> {
        self.status.kind().label() + ": "@ + self.path()
    }

    /// The changed file that the delta stands for.
    pub open spec fn describes(self, file: ChangedFile) -> bool {
        &&& file.path@ == self.path()
        &&& file.kind == self.status.kind()
        &&& file.additions == tally(self.origins@, '+')
        &&& file.deletions == tally(self.origins@, '-')
        &&& file.patch == self.patch
    }

    pub fn reported_path(&self) -> (p: String)
        ensures
            p@ == self.path(),
    {
        match &self.new_path {
            Some(p) => p.clone(),
            None => match &self.old_path {
                Some(p) => p.clone(),
                None => "unknown".to_owned(),
            },
        }
    }

    pub fn changed_file(&self) -> (file: ChangedFile)
        ensures
            self.describes(file),
    {
        ChangedFile {
            path: self.reported_path(),
            kind: self.status.classify(),
            additions: count_lines(&self.origins, '+'),
            deletions: count_lines(&self.origins, '-'),
            patch: self.patch.clone(),
        }
    }

    pub fn line(&self) -> (s: String)
        ensures
            s@ == self.summary_line(),
    {
        let mut s = self.status.classify().name().to_owned();
        s.append(": ");
        let p = self.reported_path();
        s.append(p.as_str());
        s
    }
}

/// The occurrences of `marker` in all the files together.
pub open spec fn total(deltas: Seq<FileDelta>, marker: char) -> nat
    decreases deltas.len(),
{
    if deltas.len() == 0 {
        0
    } else {
        total(deltas.drop_last(), marker) + tally(deltas.last().origins@, marker)
    }
}

/// The summary lines of the files, in order.
pub open spec fn summary_lines(deltas: Seq<FileDelta>) -> Seq<Seq<char>> {
    deltas.map_values(|d: FileDelta| d.summary_line())
}

/// The summary text: the files' lines, each on a line of its own.
pub open spec fn summary_text(deltas: Seq<FileDelta>) -> Seq<char> {
    joined(summary_lines(deltas), "\n"@)
}

/// Sums up a tree comparison: each file classified and counted, in the order
/// given, the totals of inserted and removed lines, and the summary text.
pub fn diff(deltas: &Vec<FileDelta>) -> (r: DiffSummary)
    ensures
        r.files_changed == deltas.len(),
        r.files.len() == deltas.len(),
        forall|k: int| 0 <= k < deltas.len() ==> (#[trigger] deltas[k]).describes(r.files[k]),
        r.insertions == total(deltas@, '+'),
        r.deletions == total(deltas@, '-'),
        r.summary@ == summary_text(deltas@),
{
    let mut files: Vec<ChangedFile> = Vec::new();
    let mut lines: Vec<String> = Vec::new();
    let mut insertions: u128 = 0;
    let mut deletions: u128 = 0;
    let mut k: usize = 0;
    assert(deltas@.take(0) =~= Seq::<FileDelta>::empty());
    while k < deltas.len()
        invariant
            k <= deltas.len(),
            files.len() == k,
            lines.len() == k,
            forall|j: int| 0 <= j < k ==> (#[trigger] deltas[j]).describes(files[j]),
            forall|j: int| 0 <= j < k ==> (#[trigger] lines[j])@ == deltas[j].summary_line(),
            insertions == total(deltas@.take(k as int), '+'),
            deletions == total(deltas@.take(k as int), '-'),
            insertions <= k * 0xFFFF_FFFF_FFFF_FFFF,
            deletions <= k * 0xFFFF_FFFF_FFFF_FFFF,
        decreases deltas.len() - k,
    {
        let file = deltas[k].changed_file();
        proof {
            assert(deltas@.take(k + 1).drop_last() =~= deltas@.take(k as int));
            assert(deltas@.take(k + 1).last() == deltas[k as int]);
            assert(file.additions <= 0xFFFF_FFFF_FFFF_FFFF);
            assert(file.deletions <= 0xFFFF_FFFF_FFFF_FFFF);
        }
        insertions = insertions + file.additions as u128;
        deletions = deletions + file.deletions as u128;
        lines.push(deltas[k].line());
        files.push(file);
        k += 1;
    }
    assert(deltas@.take(k as int) =~= deltas@);
    assert(string_views(lines@) =~= summary_lines(deltas@));
    let summary = join(&lines, "\n");
    DiffSummary { files_changed: deltas.len(), insertions, deletions, summary, files }
}

/// A comparison in which every marked line is an insertion has no deletions:
/// so it is for a commit without a parent, whose files are all new.
pub proof fn lemma_only_insertions(deltas: Seq<FileDelta>)
    requires
        forall|k: int, i: int|
            0 <= k < deltas.len() && 0 <= i < deltas[k].origins@.len() ==> (
            #[trigger] deltas[k].origins@[i]) == '+',
    ensures
        total(deltas, '-') == 0,
        forall|k: int| 0 <= k < deltas.len() ==> tally((#[trigger] deltas[k]).origins@, '+')
            == deltas[k].origins@.len(),
    decreases deltas.len(),
{
    if deltas.len() > 0 {
        let rest = deltas.drop_last();
        assert forall|k: int, i: int|
            0 <= k < rest.len() && 0 <= i < rest[k].origins@.len() implies (
        #[trigger] rest[k].origins@[i]) == '+' by {
            assert(rest[k] == deltas[k]);
        }
        lemma_only_insertions(rest);
        lemma_uniform_tally(deltas.last().origins@);
    }
    assert forall|k: int| 0 <= k < deltas.len() implies tally(
        (#[trigger] deltas[k]).origins@,
        '+',
    ) == deltas[k].origins@.len() by {
        lemma_uniform_tally(deltas[k].origins@);
    }
}

/// A comparison in which every file is new and every marked line an
/// insertion, as that of a commit without a parent: every file is classified
/// as added and has its own line of the summary, under the kind `ADDED`;
/// each file has as many insertions as it has lines, and nothing is removed.
pub proof fn lemma_new_files_only(deltas: Seq<FileDelta>)
    requires
        forall|k: int| 0 <= k < deltas.len() ==> (#[trigger] deltas[k]).status == DeltaStatus::Added,
        forall|k: int, i: int|
            0 <= k < deltas.len() && 0 <= i < deltas[k].origins@.len() ==> (
            #[trigger] deltas[k].origins@[i]) == '+',
    ensures
        summary_lines(deltas).len() == deltas.len(),
        forall|k: int|
            0 <= k < deltas.len() ==> (#[trigger] deltas[k]).status.kind() == ChangeKind::Added
                && summary_lines(deltas)[k] == ChangeKind::Added.label() + ": "@ + deltas[k].path(),
        forall|k: int|
            0 <= k < deltas.len() ==> tally((#[trigger] deltas[k]).origins@, '+')
                == deltas[k].origins@.len() && tally(deltas[k].origins@, '-') == 0,
        total(deltas, '-') == 0,
{
    lemma_only_insertions(deltas);
    assert forall|k: int| 0 <= k < deltas.len() implies tally(
        (#[trigger] deltas[k]).origins@,
        '-',
    ) == 0 by {
        lemma_uniform_tally(deltas[k].origins@);
    }
}

/// Markers that are all `'+'` count as many insertions as there are lines,
/// and no deletion.
pub proof fn lemma_uniform_tally(origins: Seq<char>)
    requires
        forall|i: int| 0 <= i < origins.len() ==> origins[i] == '+',
    ensures
        tally(origins, '+') == origins.len(),
        tally(origins, '-') == 0,
    decreases origins.len(),
{
    if origins.len() > 0 {
        lemma_uniform_tally(origins.drop_last());
    }
}

} // verus!

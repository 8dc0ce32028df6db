//! The revision ids that the record store holds for one repository, kept in
//! memory, and a whole run of a job against them. A commit is recorded at most
//! once, so a run may be repeated safely.

use vstd::prelude::*;
use crate::orchestrator::{step, Event, Job, Phase};
use crate::text::string_views;

verus! {

/// The rows after a check-and-insert of `id`.
pub open spec fn recorded(rows: Seq<Seq<char>>, id: Seq<char>) -> Seq<Seq<char>> {
    if rows.contains(id) {
        rows
    } else {
        rows.push(id)
    }
}

/// The rows after a run over the revision ids `ids`, taken in order.
pub open spec fn ingested(rows: Seq<Seq<char>>, ids: Seq<Seq<char>>) -> Seq<Seq<char>>
    decreases ids.len(),
{
    if ids.len() == 0 {
        rows
    } else {
        recorded(ingested(rows, ids.drop_last()), ids.last())
    }
}

pub struct Ledger {
    rows: Vec<String>,
}

impl View for Ledger {
    type V = Seq<Seq<char>>;

    closed spec fn view(&self) -> Seq<Seq<char>> {
        string_views(self.rows@)
    }
}

impl Ledger {
    /// No revision id has two rows.
    pub open spec fn wf(&self) -> bool {
        self@.no_duplicates()
    }

    pub fn new() -> (ledger: Ledger)
        ensures
            ledger@ == Seq::<Seq<char>>::empty(),
            ledger.wf(),
    {
        let ledger = Ledger { rows: Vec::new() };
        assert(ledger@ =~= Seq::<Seq<char>>::empty());
        ledger
    }

    pub fn len(&self) -> (n: usize)
        ensures
            n == self@.len(),
    {
        self.rows.len()
    }

    /// Whether a commit with this revision id is recorded.
    pub fn contains(&self, sha: &str) -> (b: bool)
        ensures
            b == self@.contains(sha@),
    {
        let key = sha.to_owned();
        let mut i: usize = 0;
        while i < self.rows.len()
            invariant
                i <= self.rows.len(),
                key@ == sha@,
                forall|k: int| 0 <= k < i ==> self@[k] != sha@,
            decreases self.rows.len() - i,
        {
            if self.rows[i] == key {
                assert(self@[i as int] == sha@);
                return true;
            }
            i += 1;
        }
        false
    }

    /// Check-and-insert: records the revision id unless it is recorded
    /// already, and tells whether it was.
    pub fn record(&mut self, sha: &str) -> (existed: bool)
        ensures
            existed == old(self)@.contains(sha@),
            final(self)@ == recorded(old(self)@, sha@),
            old(self).wf() ==> final(self).wf(),
    {
        if self.contains(sha) {
            true
        } else {
            self.rows.push(sha.to_owned());
            assert(self@ =~= old(self)@.push(sha@));
            false
        }
    }
}

/// Runs a whole job over the selected commits `shas` against the ledger,
/// with every piece of outside work succeeding and no commit having an
/// archive: the state machine is stepped from the accepted request to the
/// end, the ledger answering each lookup and taking each record.
pub fn run_job(ledger: &mut Ledger, shas: &Vec<String>) -> (job: Job)
    ensures
        job.phase == Phase::Completed,
        job.total == shas.len(),
        job.processed == shas.len(),
        job.error.is_none(),
        final(ledger)@ == ingested(old(ledger)@, string_views(shas@)),
        old(ledger).wf() ==> final(ledger).wf(),
{
    let n: usize = shas.len();
    let (job, _) = step(Job::new(), Event::Start);
    let (job, _) = step(job, Event::Materialized);
    let (job, _) = step(job, Event::Listed { total: n });
    let mut job = job;
    let mut i: usize = 0;
    assert(string_views(shas@).take(0) =~= Seq::<Seq<char>>::empty());
    while i < n
        invariant
            i <= n == shas.len(),
            job.wf(),
            job.total == n,
            job.processed == i,
            job.error.is_none(),
            job.phase == if i < n {
                Phase::Lookup
            } else {
                Phase::Completed
            },
            ledger@ == ingested(old(ledger)@, string_views(shas@).take(i as int)),
            old(ledger).wf() ==> ledger.wf(),
        decreases n - i,
    {
        let sha = shas[i].as_str();
        proof {
            let ids = string_views(shas@);
            assert(ids.take(i + 1).drop_last() =~= ids.take(i as int));
            assert(ids.take(i + 1).last() == sha@);
        }
        if ledger.contains(sha) {
            let (next, _) = step(job, Event::Known);
            job = next;
        } else {
            let (next, _) = step(job, Event::Unknown);
            let (next, _) = step(next, Event::Extracted { archive: false });
            ledger.record(sha);
            let (next, _) = step(next, Event::Stored);
            job = next;
        }
        i += 1;
    }
    assert(string_views(shas@).take(n as int) =~= string_views(shas@));
    job
}

/// After a run, every selected commit has a row.
pub proof fn lemma_ingested_holds_all(rows: Seq<Seq<char>>, ids: Seq<Seq<char>>)
    ensures
        forall|k: int| 0 <= k < ids.len() ==> ingested(rows, ids).contains(#[trigger] ids[k]),
        forall|k: int| 0 <= k < rows.len() ==> ingested(rows, ids).contains(#[trigger] rows[k]),
    decreases ids.len(),
{
    if ids.len() > 0 {
        let before = ingested(rows, ids.drop_last());
        lemma_ingested_holds_all(rows, ids.drop_last());
        let after = ingested(rows, ids);
        assert forall|x: Seq<char>| before.contains(x) implies after.contains(x) by {
            if !before.contains(ids.last()) {
                let j = choose|j: int| 0 <= j < before.len() && before[j] == x;
                assert(after[j] == x);
            }
        }
        assert(after.contains(ids.last())) by {
            if !before.contains(ids.last()) {
                assert(after[after.len() - 1] == ids.last());
            }
        }
        assert forall|k: int| 0 <= k < ids.len() implies after.contains(#[trigger] ids[k]) by {
            if k < ids.len() - 1 {
                assert(ids.drop_last()[k] == ids[k]);
            }
        }
    }
}

/// A run never gives a revision id a second row.
pub proof fn lemma_ingested_no_duplicates(rows: Seq<Seq<char>>, ids: Seq<Seq<char>>)
    requires
        rows.no_duplicates(),
    ensures
        ingested(rows, ids).no_duplicates(),
    decreases ids.len(),
{
    if ids.len() > 0 {
        lemma_ingested_no_duplicates(rows, ids.drop_last());
    }
}

/// A run over commits that all have their row changes nothing.
pub proof fn lemma_ingested_known(rows: Seq<Seq<char>>, ids: Seq<Seq<char>>)
    requires
        forall|k: int| 0 <= k < ids.len() ==> rows.contains(#[trigger] ids[k]),
    ensures
        ingested(rows, ids) == rows,
    decreases ids.len(),
{
    if ids.len() > 0 {
        assert forall|k: int| 0 <= k < ids.drop_last().len() implies rows.contains(
            #[trigger] ids.drop_last()[k],
        ) by {
            assert(ids.drop_last()[k] == ids[k]);
        }
        lemma_ingested_known(rows, ids.drop_last());
        assert(rows.contains(ids[ids.len() - 1]));
    }
}

/// Running twice over an unchanged history is the same as running once: the
/// second run writes no row, so each revision id has exactly one.
pub proof fn lemma_rerun_is_idempotent(rows: Seq<Seq<char>>, ids: Seq<Seq<char>>)
    requires
        rows.no_duplicates(),
    ensures
        ingested(ingested(rows, ids), ids) == ingested(rows, ids),
        ingested(rows, ids).no_duplicates(),
        forall|k: int| 0 <= k < ids.len() ==> ingested(rows, ids).contains(#[trigger] ids[k]),
{
    lemma_ingested_holds_all(rows, ids);
    lemma_ingested_no_duplicates(rows, ids);
    lemma_ingested_known(ingested(rows, ids), ids);
}

} // verus!

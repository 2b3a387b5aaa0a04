//! The tally of one scrape job over all stores.

use vstd::prelude::*;
use crate::error::{AppError, ErrorView};
use crate::model::ScrapeStats;

verus! {

/// How one store's part of a job ended.
#[derive(Debug, Clone, PartialEq, Eq)]
pub enum StoreOutcome {
    /// The store's records were fetched and written; the number is theirs.
    Stored(usize),
    /// The store's first page could not be fetched.
    FetchFailed,
    /// The store's records could not be written.
    WriteFailed(AppError),
}

pub enum OutcomeView {
    Stored(nat),
    FetchFailed,
    WriteFailed(ErrorView),
}

impl View for StoreOutcome {
    type V = OutcomeView;

    open spec fn view(&self) -> OutcomeView {
        match self {
            StoreOutcome::Stored(n) => OutcomeView::Stored(*n as nat),
            StoreOutcome::FetchFailed => OutcomeView::FetchFailed,
            StoreOutcome::WriteFailed(e) => OutcomeView::WriteFailed(e@),
        }
    }
}

pub struct StatsView {
    pub stores_total: nat,
    pub stores_succeeded: nat,
    pub stores_failed: nat,
    pub mods_upserted: nat,
}

impl View for ScrapeStats {
    type V = StatsView;

    open spec fn view(&self) -> StatsView {
        StatsView {
            stores_total: self.stores_total as nat,
            stores_succeeded: self.stores_succeeded as nat,
            stores_failed: self.stores_failed as nat,
            mods_upserted: self.mods_upserted as nat,
        }
    }
}

pub open spec fn outcome_views(outcomes: Seq<StoreOutcome>) -> Seq<OutcomeView> {
    outcomes.map_values(|o: StoreOutcome| o@)
}

/// The tally at the start of a job over `stores_total` stores.
pub open spec fn fresh_tally(stores_total: nat) -> StatsView {
    StatsView { stores_total, stores_succeeded: 0, stores_failed: 0, mods_upserted: 0 }
}

/// The tally with one more store counted. A failed write counts nothing: it
/// ends the job.
pub open spec fn tally(stats: StatsView, outcome: OutcomeView) -> StatsView {
    match outcome {
        OutcomeView::Stored(n) => StatsView {
            stores_succeeded: stats.stores_succeeded + 1,
            mods_upserted: stats.mods_upserted + n,
            ..stats
        },
        OutcomeView::FetchFailed => StatsView { stores_failed: stats.stores_failed + 1, ..stats },
        OutcomeView::WriteFailed(_) => stats,
    }
}

pub open spec fn all_stores_failed_text() -> Seq<char> {
    "Failed to fetch products from all configured stores"@
}

/// How a job ends once every store is counted: it fails when no store
/// succeeded and at least one failed, and returns its tally otherwise.
pub open spec fn job_end(stats: StatsView) -> Result<StatsView, ErrorView> {
    if stats.stores_succeeded == 0 && stats.stores_failed > 0 {
        Err(ErrorView::Upstream(all_stores_failed_text()))
    } else {
        Ok(stats)
    }
}

/// How a job ends that has the tally `stats` and then meets `outcomes` in
/// this order: the first failed write ends it with that failure.
pub open spec fn job_result(stats: StatsView, outcomes: Seq<OutcomeView>) -> Result<
    StatsView,
    ErrorView,
>
    decreases outcomes.len(),
{
    if outcomes.len() == 0 {
        job_end(stats)
    } else {
        match outcomes.first() {
            OutcomeView::WriteFailed(e) => Err(e),
            outcome => job_result(tally(stats, outcome), outcomes.drop_first()),
        }
    }
}

/// The records that the outcomes say were written, added up.
pub open spec fn stored_total(outcomes: Seq<OutcomeView>) -> nat
    decreases outcomes.len(),
{
    if outcomes.len() == 0 {
        0
    } else {
        stored_total(outcomes.drop_last()) + match outcomes.last() {
            OutcomeView::Stored(n) => n,
            _ => 0,
        }
    }
}

pub open spec fn all_fetches_failed(outcomes: Seq<OutcomeView>) -> bool {
    forall|i: int| 0 <= i < outcomes.len() ==> #[trigger] outcomes[i] is FetchFailed
}

/// A job in which no store has succeeded, and in which every store still to
/// come fails to fetch, fails, provided that at least one store failed or
/// will.
pub proof fn lemma_failures_only(stats: StatsView, outcomes: Seq<OutcomeView>)
    requires
        stats.stores_succeeded == 0,
        stats.stores_failed > 0 || outcomes.len() > 0,
        all_fetches_failed(outcomes),
    ensures
        job_result(stats, outcomes) == Err::<StatsView, ErrorView>(
            ErrorView::Upstream(all_stores_failed_text()),
        ),
    decreases outcomes.len(),
{
    if outcomes.len() > 0 {
        assert(outcomes[0] is FetchFailed);
        let rest = outcomes.drop_first();
        assert forall|i: int| 0 <= i < rest.len() implies #[trigger] rest[i] is FetchFailed by {
            assert(rest[i] == outcomes[i + 1]);
        }
        lemma_failures_only(tally(stats, outcomes[0]), rest);
    }
}

/// A job over one or more stores, each of which fails to fetch, fails as a
/// whole, and no store is counted as succeeded.
pub proof fn lemma_all_stores_failed(stores_total: nat, outcomes: Seq<OutcomeView>)
    requires
        outcomes.len() > 0,
        all_fetches_failed(outcomes),
    ensures
        job_result(fresh_tally(stores_total), outcomes) == Err::<StatsView, ErrorView>(
            ErrorView::Upstream(all_stores_failed_text()),
        ),
{
    lemma_failures_only(fresh_tally(stores_total), outcomes);
}

impl ScrapeStats {
    /// The tally at the start of a job.
    pub fn start(stores_total: usize) -> (out: Self)
        ensures
            out@ == fresh_tally(stores_total as nat),
    {
        ScrapeStats { stores_total, stores_succeeded: 0, stores_failed: 0, mods_upserted: 0 }
    }

    /// Counts one store. A failed write is handed back as the job's failure
    /// and counts nothing.
    pub fn record(&mut self, outcome: StoreOutcome) -> (r: Result<(), AppError>)
        requires
            tally(old(self)@, outcome@).stores_succeeded <= usize::MAX,
            tally(old(self)@, outcome@).stores_failed <= usize::MAX,
            tally(old(self)@, outcome@).mods_upserted <= usize::MAX,
        ensures
            final(self)@ == tally(old(self)@, outcome@),
            match outcome {
                StoreOutcome::WriteFailed(e) => r == Err::<(), AppError>(e),
                _ => r is Ok,
            },
    {
        match outcome {
            StoreOutcome::Stored(n) => {
                self.stores_succeeded = self.stores_succeeded + 1;
                self.mods_upserted = self.mods_upserted + n;
                Ok(())
            },
            StoreOutcome::FetchFailed => {
                self.stores_failed = self.stores_failed + 1;
                Ok(())
            },
            StoreOutcome::WriteFailed(e) => Err(e),
        }
    }

    /// Ends the job once every store is counted.
    pub fn finish(self) -> (r: Result<ScrapeStats, AppError>)
        ensures
            match r {
                Ok(stats) => job_end(self@) == Ok::<StatsView, ErrorView>(stats@) && stats == self,
                Err(e) => job_end(self@) == Err::<StatsView, ErrorView>(e@),
            },
    {
        if self.stores_succeeded == 0 && self.stores_failed > 0 {
            Err(AppError::Upstream("Failed to fetch products from all configured stores".to_owned()))
        } else {
            Ok(self)
        }
    }
}

proof fn lemma_stored_total_prefix(outcomes: Seq<OutcomeView>, k: int)
    requires
        0 <= k <= outcomes.len(),
    ensures
        stored_total(outcomes.take(k)) <= stored_total(outcomes),
    decreases outcomes.len() - k,
{
    if k < outcomes.len() {
        lemma_stored_total_prefix(outcomes, k + 1);
        assert(outcomes.take(k + 1).drop_last() == outcomes.take(k));
    } else {
        assert(outcomes.take(k) == outcomes);
    }
}

/// The end of a job over `stores_total` stores whose outcomes came in the
/// given order.
pub fn summarize_job(stores_total: usize, outcomes: Vec<StoreOutcome>) -> (r: Result<
    ScrapeStats,
    AppError,
>)
    requires
        stored_total(outcome_views(outcomes@)) <= usize::MAX,
    ensures
        match r {
            Ok(stats) => job_result(fresh_tally(stores_total as nat), outcome_views(outcomes@))
                == Ok::<StatsView, ErrorView>(stats@),
            Err(e) => job_result(fresh_tally(stores_total as nat), outcome_views(outcomes@))
                == Err::<StatsView, ErrorView>(e@),
        },
{
    let ghost all = outcome_views(outcomes@);
    let mut stats = ScrapeStats::start(stores_total);
    let count: usize = outcomes.len();
    proof {
        assert(all.skip(0) == all);
    }
    for outcome in it: outcomes
        invariant
            it.seq().len() == count,
            outcome_views(it.seq()) == all,
            stored_total(all) <= usize::MAX,
            job_result(fresh_tally(stores_total as nat), all) == job_result(
                stats@,
                all.skip(it.index() as int),
            ),
            stats.stores_succeeded + stats.stores_failed <= it.index(),
            stats.mods_upserted == stored_total(all.take(it.index() as int)),
    {
        let ghost index = it.index() as int;
        proof {
            assert(all.skip(index).first() == outcome@);
            assert(all.skip(index).drop_first() == all.skip(index + 1));
            assert(all.take(index + 1).drop_last() == all.take(index));
            assert(all.take(index + 1).last() == outcome@);
            lemma_stored_total_prefix(all, index + 1);
        }
        match stats.record(outcome) {
            Ok(()) => {},
            Err(e) => {
                return Err(e);
            },
        }
    }
    stats.finish()
}

} // verus!

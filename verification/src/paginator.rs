//! Walking the pages of one store's catalog: which products are new, when
//! to stop, and what the walk returns.

use std::collections::HashSet;
use vstd::prelude::*;
use crate::error::{AppError, ErrorView};
use crate::fetcher::{FetchStepView, failure_text, rate_limit_cause, response_step};
use crate::model::{
    ModView, NormalizedMod, ProductView, ScrapeConfig, ShopifyProduct, Store, StoreView,
    mod_views,
};
use crate::normalizer::{lemma_mod_id_injective, mod_id, normalize_product, normalized};

verus! {

broadcast use vstd::std_specs::hash::group_hash_axioms;

/// The upstream ids known once `products` have been seen as well.
pub open spec fn seen_with(seen: Set<i64>, products: Seq<ProductView>) -> Set<i64>
    decreases products.len(),
{
    if products.len() == 0 {
        seen
    } else {
        seen_with(seen, products.drop_last()).insert(products.last().id)
    }
}

/// The products whose upstream id was neither seen before the page nor
/// earlier on it, in the order of the page.
pub open spec fn fresh_products(seen: Set<i64>, products: Seq<ProductView>) -> Seq<ProductView>
    decreases products.len(),
{
    if products.len() == 0 {
        Seq::empty()
    } else {
        let before = fresh_products(seen, products.drop_last());
        if seen_with(seen, products.drop_last()).contains(products.last().id) {
            before
        } else {
            before.push(products.last())
        }
    }
}

pub open spec fn normalize_all(products: Seq<ProductView>, store: StoreView) -> Seq<ModView> {
    products.map_values(|p: ProductView| normalized(p, store))
}

pub open spec fn product_views(products: Seq<ShopifyProduct>) -> Seq<ProductView> {
    products.map_values(|p: ShopifyProduct| p@)
}

/// No two records have the same id.
pub open spec fn distinct_ids(mods: Seq<ModView>) -> bool {
    forall|i: int, j: int| 0 <= i < mods.len() && 0 <= j < mods.len() && i != j ==> mods[i].id
        != mods[j].id
}

/// The state of a walk: the store, the page to fetch next, the records
/// collected so far and the upstream ids seen so far.
pub struct Paginator {
    pub store: Store,
    pub page: usize,
    pub collected: Vec<NormalizedMod>,
    pub seen: HashSet<i64>,
}

pub struct PaginatorView {
    pub store: StoreView,
    pub page: nat,
    pub collected: Seq<ModView>,
    pub seen: Set<i64>,
}

impl View for Paginator {
    type V = PaginatorView;

    open spec fn view(&self) -> PaginatorView {
        PaginatorView {
            store: self.store@,
            page: self.page as nat,
            collected: mod_views(self.collected@),
            seen: self.seen@,
        }
    }
}

/// The record's id is that of a seen upstream id in the store.
pub open spec fn from_seen(m: ModView, store_id: Seq<char>, seen: Set<i64>) -> bool {
    exists|upstream: i64| seen.contains(upstream) && m.id == mod_id(store_id, upstream as int)
}

/// A state of a walk as the walk itself makes it: pages count from 1, every
/// collected record belongs to the store and carries an upstream id that was
/// seen, and no two have the same id.
pub open spec fn well_formed(state: PaginatorView) -> bool {
    &&& state.page >= 1
    &&& distinct_ids(state.collected)
    &&& forall|i: int|
        0 <= i < state.collected.len() ==> from_seen(
            #[trigger] state.collected[i],
            state.store.id,
            state.seen,
        )
}

/// What a page leads to.
pub enum PageStep {
    /// Wait `delay_ms` milliseconds, then fetch page `state.page`.
    Continue { state: Paginator, delay_ms: u64 },
    /// The walk has ended, with the store's records or with the failure of
    /// its first page.
    Done(Result<Vec<NormalizedMod>, AppError>),
}

pub enum PageStepView {
    Continue { state: PaginatorView, delay_ms: u64 },
    Done(Result<Seq<ModView>, ErrorView>),
}

impl View for PageStep {
    type V = PageStepView;

    open spec fn view(&self) -> PageStepView {
        match self {
            PageStep::Continue { state, delay_ms } => PageStepView::Continue {
                state: state@,
                delay_ms: *delay_ms,
            },
            PageStep::Done(Ok(mods)) => PageStepView::Done(Ok(mod_views(mods@))),
            PageStep::Done(Err(e)) => PageStepView::Done(Err(e@)),
        }
    }
}

pub open spec fn outcome_view(outcome: Result<Vec<ShopifyProduct>, AppError>) -> Result<
    Seq<ProductView>,
    ErrorView,
> {
    match outcome {
        Ok(products) => Ok(product_views(products@)),
        Err(e) => Err(e@),
    }
}

/// What the fetch of page `state.page` leads to.
///
/// A failed fetch fails the walk on page 1 and ends it with what was
/// collected on any later page. An empty page ends the walk, and so does a
/// page without a new product; neither adds a record. Otherwise the new
/// products are added in page order, and the walk ends if the page was
/// shorter than the page size or was the last page allowed; else it goes on
/// with the next page after the configured delay.
pub open spec fn page_step(
    state: PaginatorView,
    outcome: Result<Seq<ProductView>, ErrorView>,
    cfg: ScrapeConfig,
) -> PageStepView {
    match outcome {
        Err(e) => if state.page == 1 {
            PageStepView::Done(Err(e))
        } else {
            PageStepView::Done(Ok(state.collected))
        },
        Ok(products) => {
            let fresh = fresh_products(state.seen, products);
            let collected = state.collected + normalize_all(fresh, state.store);
            if products.len() == 0 || fresh.len() == 0 {
                PageStepView::Done(Ok(state.collected))
            } else if products.len() < cfg.page_limit || state.page >= cfg.max_pages {
                PageStepView::Done(Ok(collected))
            } else {
                PageStepView::Continue {
                    state: PaginatorView {
                        store: state.store,
                        page: state.page + 1,
                        collected,
                        seen: seen_with(state.seen, products),
                    },
                    delay_ms: cfg.page_delay_ms,
                }
            }
        },
    }
}

/// What a step hands on is well formed: the next state, or records with
/// distinct ids.
pub open spec fn step_well_formed(step: PageStepView) -> bool {
    match step {
        PageStepView::Continue { state, delay_ms } => well_formed(state),
        PageStepView::Done(Ok(mods)) => distinct_ids(mods),
        PageStepView::Done(Err(_)) => true,
    }
}

/// Adding the record of an upstream id that was not seen keeps a state well
/// formed.
proof fn lemma_add_fresh(state: PaginatorView, p: ProductView)
    requires
        well_formed(state),
        !state.seen.contains(p.id),
    ensures
        well_formed(
            PaginatorView {
                store: state.store,
                page: state.page,
                collected: state.collected.push(normalized(p, state.store)),
                seen: state.seen.insert(p.id),
            },
        ),
{
    let added = normalized(p, state.store);
    let collected = state.collected.push(added);
    let seen = state.seen.insert(p.id);
    assert forall|i: int, j: int|
        0 <= i < collected.len() && 0 <= j < collected.len() && i != j implies collected[i].id
        != collected[j].id by {
        if i < state.collected.len() && j < state.collected.len() {
        } else {
            let k = if i < state.collected.len() {
                i
            } else {
                j
            };
            assert(from_seen(state.collected[k], state.store.id, state.seen));
            let upstream = choose|upstream: i64|
                state.seen.contains(upstream) && state.collected[k].id == mod_id(
                    state.store.id,
                    upstream as int,
                );
            if state.collected[k].id == added.id {
                lemma_mod_id_injective(state.store.id, upstream as int, p.id as int);
            }
        }
    }
    assert forall|i: int| 0 <= i < collected.len() implies from_seen(
        #[trigger] collected[i],
        state.store.id,
        seen,
    ) by {
        if i < state.collected.len() {
            assert(from_seen(state.collected[i], state.store.id, state.seen));
            let upstream = choose|upstream: i64|
                state.seen.contains(upstream) && state.collected[i].id == mod_id(
                    state.store.id,
                    upstream as int,
                );
            assert(seen.contains(upstream));
        } else {
            assert(seen.contains(p.id));
        }
    }
}

/// Seeing more products keeps a state well formed.
proof fn lemma_see_known(state: PaginatorView, upstream_id: i64)
    requires
        well_formed(state),
    ensures
        well_formed(
            PaginatorView {
                store: state.store,
                page: state.page,
                collected: state.collected,
                seen: state.seen.insert(upstream_id),
            },
        ),
{
    let seen = state.seen.insert(upstream_id);
    assert forall|i: int| 0 <= i < state.collected.len() implies from_seen(
        #[trigger] state.collected[i],
        state.store.id,
        seen,
    ) by {
        assert(from_seen(state.collected[i], state.store.id, state.seen));
        let upstream = choose|upstream: i64|
            state.seen.contains(upstream) && state.collected[i].id == mod_id(
                state.store.id,
                upstream as int,
            );
        assert(seen.contains(upstream));
    }
}

/// The records of a walk never share an id: every step from a well-formed
/// state hands on a well-formed state or records with distinct ids.
pub proof fn lemma_step_keeps_ids_distinct(
    state: PaginatorView,
    outcome: Result<Seq<ProductView>, ErrorView>,
    cfg: ScrapeConfig,
)
    requires
        well_formed(state),
    ensures
        step_well_formed(page_step(state, outcome, cfg)),
{
    if let Ok(products) = outcome {
        lemma_page_well_formed(state, products);
    }
}

/// A well-formed state stays well formed over the products of a page.
proof fn lemma_page_well_formed(state: PaginatorView, products: Seq<ProductView>)
    requires
        well_formed(state),
    ensures
        well_formed(
            PaginatorView {
                store: state.store,
                page: state.page,
                collected: state.collected + normalize_all(
                    fresh_products(state.seen, products),
                    state.store,
                ),
                seen: seen_with(state.seen, products),
            },
        ),
    decreases products.len(),
{
    if products.len() == 0 {
        assert(state.collected + normalize_all(Seq::<ProductView>::empty(), state.store)
            =~= state.collected);
    } else {
        let init = products.drop_last();
        let last = products.last();
        lemma_page_well_formed(state, init);
        let mid = PaginatorView {
            store: state.store,
            page: state.page,
            collected: state.collected + normalize_all(
                fresh_products(state.seen, init),
                state.store,
            ),
            seen: seen_with(state.seen, init),
        };
        if mid.seen.contains(last.id) {
            lemma_see_known(mid, last.id);
            assert(mid.seen.insert(last.id) =~= mid.seen);
        } else {
            lemma_add_fresh(mid, last);
            assert(state.collected + normalize_all(
                fresh_products(state.seen, init).push(last),
                state.store,
            ) =~= mid.collected.push(normalized(last, state.store)));
        }
    }
}

/// A rate-limit response to an attempt on which the retries are used up
/// fails the fetch, and that failure on a store's first page fails the
/// store's walk with no record.
pub proof fn lemma_rate_limit_exhaustion_fails_store(
    store: StoreView,
    url: Seq<char>,
    cfg: ScrapeConfig,
    attempt: nat,
    retry_after: Option<Seq<char>>,
)
    requires
        attempt >= cfg.max_429_retries,
    ensures
        response_step(store.id, url, cfg, attempt, 429, retry_after) == FetchStepView::Fail(
            ErrorView::Upstream(failure_text(store.id, rate_limit_cause(url))),
        ),
        page_step(
            PaginatorView { store, page: 1, collected: Seq::empty(), seen: Set::empty() },
            Err(ErrorView::Upstream(failure_text(store.id, rate_limit_cause(url)))),
            cfg,
        ) == PageStepView::Done(
            Err(ErrorView::Upstream(failure_text(store.id, rate_limit_cause(url)))),
        ),
{
}

impl Paginator {
    /// The start of a walk of `store`: page 1, nothing collected or seen.
    pub fn new(store: Store) -> (out: Self)
        ensures
            out@ == (PaginatorView {
                store: store@,
                page: 1,
                collected: Seq::empty(),
                seen: Set::empty(),
            }),
            well_formed(out@),
    {
        let out = Paginator { store, page: 1, collected: Vec::new(), seen: HashSet::new() };
        assert(mod_views(out.collected@) =~= Seq::<ModView>::empty());
        out
    }

    /// Takes the outcome of the fetch of page `self.page` and says how the
    /// walk goes on.
    pub fn advance(
        self,
        outcome: Result<Vec<ShopifyProduct>, AppError>,
        scrape_cfg: &ScrapeConfig,
    ) -> (step: PageStep)
        requires
            well_formed(self@),
        ensures
            step@ == page_step(self@, outcome_view(outcome), *scrape_cfg),
            step_well_formed(step@),
    {
        proof {
            lemma_step_keeps_ids_distinct(self@, outcome_view(outcome), *scrape_cfg);
        }
        let Paginator { store, page, collected, seen } = self;
        let products = match outcome {
            Err(e) => {
                if page == 1 {
                    return PageStep::Done(Err(e));
                }
                return PageStep::Done(Ok(collected));
            },
            Ok(products) => products,
        };
        let fetched: usize = products.len();
        if fetched == 0 {
            return PageStep::Done(Ok(collected));
        }
        let ghost start = self@;
        let ghost all = product_views(products@);
        let mut collected = collected;
        let mut seen = seen;
        let mut fresh: usize = 0;
        proof {
            assert(start.collected + normalize_all(Seq::<ProductView>::empty(), start.store)
                =~= start.collected);
        }
        for product in it: products
            invariant
                it.seq().len() == fetched,
                product_views(it.seq()) == all,
                store@ == start.store,
                seen@ == seen_with(start.seen, all.take(it.index() as int)),
                mod_views(collected@) == start.collected + normalize_all(
                    fresh_products(start.seen, all.take(it.index() as int)),
                    start.store,
                ),
                fresh == fresh_products(start.seen, all.take(it.index() as int)).len(),
                fresh <= it.index(),
        {
            let ghost index = it.index() as int;
            let ghost view = product@;
            proof {
                assert(all.take(index + 1).drop_last() =~= all.take(index));
                assert(all.take(index + 1).last() == view);
            }
            let ghost before = collected@;
            if seen.insert(product.id) {
                let item = normalize_product(product, &store);
                collected.push(item);
                fresh = fresh + 1;
                proof {
                    let earlier = fresh_products(start.seen, all.take(index));
                    assert(mod_views(collected@) =~= mod_views(before).push(item@));
                    assert(normalize_all(earlier.push(view), start.store) =~= normalize_all(
                        earlier,
                        start.store,
                    ).push(normalized(view, start.store)));
                    assert(mod_views(collected@) =~= start.collected + normalize_all(
                        earlier.push(view),
                        start.store,
                    ));
                }
            } else {
                assert(seen@ =~= seen_with(start.seen, all.take(index)));
            }
        }
        proof {
            assert(all.take(fetched as int) == all);
        }
        if fresh == 0 {
            assert(mod_views(collected@) =~= start.collected);
            return PageStep::Done(Ok(collected));
        }
        if fetched < scrape_cfg.page_limit || page >= scrape_cfg.max_pages {
            return PageStep::Done(Ok(collected));
        }
        PageStep::Continue {
            state: Paginator { store, page: page + 1, collected, seen },
            delay_ms: scrape_cfg.page_delay_ms,
        }
    }
}

/// The state at the start of a walk of a store.
pub open spec fn start_of_walk(store: StoreView) -> PaginatorView {
    PaginatorView { store, page: 1, collected: Seq::empty(), seen: Set::empty() }
}

/// The end of the walk that goes from `state` through the outcomes of its
/// page fetches in order; `None` where the walk would go on after the last
/// of them.
pub open spec fn walk(
    state: PaginatorView,
    outcomes: Seq<Result<Seq<ProductView>, ErrorView>>,
    cfg: ScrapeConfig,
) -> Option<Result<Seq<ModView>, ErrorView>>
    decreases outcomes.len(),
{
    if outcomes.len() == 0 {
        None
    } else {
        match page_step(state, outcomes.first(), cfg) {
            PageStepView::Done(result) => Some(result),
            PageStepView::Continue { state: next, delay_ms } => walk(
                next,
                outcomes.drop_first(),
                cfg,
            ),
        }
    }
}

/// Whatever the pages hold, the records that a walk returns have distinct
/// ids.
pub proof fn lemma_walk_ids_distinct(
    state: PaginatorView,
    outcomes: Seq<Result<Seq<ProductView>, ErrorView>>,
    cfg: ScrapeConfig,
)
    requires
        well_formed(state),
    ensures
        walk(state, outcomes, cfg) matches Some(Ok(mods)) ==> distinct_ids(mods),
    decreases outcomes.len(),
{
    if outcomes.len() > 0 {
        lemma_step_keeps_ids_distinct(state, outcomes.first(), cfg);
        if let PageStepView::Continue { state: next, delay_ms } = page_step(
            state,
            outcomes.first(),
            cfg,
        ) {
            lemma_walk_ids_distinct(next, outcomes.drop_first(), cfg);
        }
    }
}

/// A walk whose first page fails ends with that failure and no record,
/// whatever would have come after.
pub proof fn lemma_first_page_failure_fails_walk(
    store: StoreView,
    failure: ErrorView,
    later: Seq<Result<Seq<ProductView>, ErrorView>>,
    cfg: ScrapeConfig,
)
    ensures
        walk(start_of_walk(store), seq![Err(failure)] + later, cfg) == Some(
            Err::<Seq<ModView>, ErrorView>(failure),
        ),
{
    let outcomes = seq![Err::<Seq<ProductView>, ErrorView>(failure)] + later;
    assert(outcomes.first() == Err::<Seq<ProductView>, ErrorView>(failure));
}

pub open spec fn outcome_views(outcomes: Seq<Result<Vec<ShopifyProduct>, AppError>>) -> Seq<
    Result<Seq<ProductView>, ErrorView>,
> {
    outcomes.map_values(|o: Result<Vec<ShopifyProduct>, AppError>| outcome_view(o))
}

pub open spec fn walk_end_view(end: Option<Result<Vec<NormalizedMod>, AppError>>) -> Option<
    Result<Seq<ModView>, ErrorView>,
> {
    match end {
        Some(Ok(mods)) => Some(Ok(mod_views(mods@))),
        Some(Err(e)) => Some(Err(e@)),
        None => None,
    }
}

/// Walks a store's catalog over the outcomes of its page fetches, given in
/// page order. Returns `None` where the walk would go on after the last
/// outcome; outcomes after the end of the walk are not looked at.
#[verifier::loop_isolation(false)]
pub fn collect_pages(
    store: Store,
    scrape_cfg: &ScrapeConfig,
    outcomes: Vec<Result<Vec<ShopifyProduct>, AppError>>,
) -> (end: Option<Result<Vec<NormalizedMod>, AppError>>)
    ensures
        walk_end_view(end) == walk(start_of_walk(store@), outcome_views(outcomes@), *scrape_cfg),
        end matches Some(Ok(mods)) ==> distinct_ids(mod_views(mods@)),
{
    let ghost all = outcome_views(outcomes@);
    let ghost start = start_of_walk(store@);
    let count: usize = outcomes.len();
    let mut state = Paginator::new(store);
    proof {
        assert(all.skip(0) == all);
    }
    for outcome in it: outcomes
        invariant
            it.seq().len() == count,
            outcome_views(it.seq()) == all,
            well_formed(state@),
            walk(start, all, *scrape_cfg) == walk(state@, all.skip(it.index() as int), *scrape_cfg),
    {
        let ghost index = it.index() as int;
        proof {
            assert(all.skip(index).first() == outcome_view(outcome));
            assert(all.skip(index).drop_first() == all.skip(index + 1));
        }
        match state.advance(outcome, scrape_cfg) {
            PageStep::Continue { state: next, delay_ms } => {
                state = next;
            },
            PageStep::Done(result) => {
                return Some(result);
            },
        }
    }
    proof {
        assert(all.skip(count as int).len() == 0);
    }
    None
}

} // verus!

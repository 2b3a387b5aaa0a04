use torque_mods::error::AppError;
use torque_mods::model::{NormalizedMod, ScrapeConfig, ShopifyProduct, ShopifyTags, Store};
use torque_mods::paginator::{collect_pages, PageStep, Paginator};

fn config(page_limit: usize, max_pages: usize) -> ScrapeConfig {
    ScrapeConfig {
        page_limit,
        max_pages,
        page_delay_ms: 500,
        store_concurrency: 3,
        max_429_retries: 6,
        retry_base_delay_ms: 1_000,
        refresh_interval_secs: 900,
    }
}

fn store() -> Store {
    Store {
        id: "xforce".to_string(),
        name: "XForce".to_string(),
        base_url: "https://xforce.com.au".to_string(),
        logo_url: None,
    }
}

fn product(id: i64) -> ShopifyProduct {
    ShopifyProduct {
        id,
        title: format!("Product {id}"),
        handle: format!("product-{id}"),
        vendor: None,
        product_type: String::new(),
        tags: ShopifyTags::default(),
        images: vec![],
        variants: vec![],
    }
}

fn page(ids: &[i64]) -> Result<Vec<ShopifyProduct>, AppError> {
    Ok(ids.iter().map(|id| product(*id)).collect())
}

fn ids(mods: &[NormalizedMod]) -> Vec<String> {
    mods.iter().map(|m| m.id.clone()).collect()
}

/// Walks the given pages and returns the result with the number of pages used.
fn walk(
    cfg: &ScrapeConfig,
    pages: Vec<Result<Vec<ShopifyProduct>, AppError>>,
) -> (Result<Vec<NormalizedMod>, AppError>, usize) {
    let mut state = Paginator::new(store());
    let mut used = 0;
    for outcome in pages {
        assert_eq!(state.page, used + 1);
        used += 1;
        match state.advance(outcome, cfg) {
            PageStep::Continue { state: next, delay_ms } => {
                assert_eq!(delay_ms, cfg.page_delay_ms);
                state = next;
            }
            PageStep::Done(result) => return (result, used),
        }
    }
    panic!("the walk wants page {}", used + 1);
}

#[test]
fn walk_starts_at_page_one() {
    let state = Paginator::new(store());
    assert_eq!(state.page, 1);
    assert!(state.collected.is_empty());
    assert!(state.seen.is_empty());
}

#[test]
fn repeated_ids_across_pages_are_collected_once() {
    let cfg = config(3, 40);
    let (result, used) =
        walk(&cfg, vec![page(&[1, 2, 3]), page(&[3, 4, 1]), page(&[4, 5, 5]), page(&[6])]);
    assert_eq!(used, 4);
    assert_eq!(
        ids(&result.unwrap()),
        vec!["xforce:1", "xforce:2", "xforce:3", "xforce:4", "xforce:5", "xforce:6"]
    );
}

#[test]
fn repeated_ids_within_a_page_are_collected_once() {
    let cfg = config(4, 40);
    let (result, used) = walk(&cfg, vec![page(&[7, 7, 8, 7]), page(&[])]);
    assert_eq!(used, 2);
    assert_eq!(ids(&result.unwrap()), vec!["xforce:7", "xforce:8"]);
}

#[test]
fn failure_of_the_first_page_fails_the_walk() {
    let cfg = config(3, 40);
    let failure = AppError::Upstream("xforce (timeout)".to_string());
    let (result, used) = walk(&cfg, vec![Err(failure.clone())]);
    assert_eq!(used, 1);
    assert_eq!(result, Err(failure));
}

#[test]
fn failure_of_a_later_page_keeps_what_was_collected() {
    let cfg = config(2, 40);
    let (result, used) = walk(
        &cfg,
        vec![page(&[1, 2]), Err(AppError::Upstream("xforce (timeout)".to_string()))],
    );
    assert_eq!(used, 2);
    assert_eq!(ids(&result.unwrap()), vec!["xforce:1", "xforce:2"]);
}

#[test]
fn empty_first_page_gives_no_records() {
    let cfg = config(3, 40);
    let (result, used) = walk(&cfg, vec![page(&[])]);
    assert_eq!(used, 1);
    assert_eq!(result, Ok(vec![]));
}

#[test]
fn page_without_new_products_ends_the_walk() {
    let cfg = config(2, 40);
    let (result, used) = walk(&cfg, vec![page(&[1, 2]), page(&[2, 1]), page(&[3, 4])]);
    assert_eq!(used, 2);
    assert_eq!(ids(&result.unwrap()), vec!["xforce:1", "xforce:2"]);
}

#[test]
fn short_page_ends_the_walk() {
    let cfg = config(3, 40);
    let (result, used) = walk(&cfg, vec![page(&[1, 2, 3]), page(&[4, 5]), page(&[6])]);
    assert_eq!(used, 2);
    assert_eq!(ids(&result.unwrap()).len(), 5);
}

#[test]
fn page_ceiling_ends_the_walk() {
    let cfg = config(2, 2);
    let (result, used) = walk(&cfg, vec![page(&[1, 2]), page(&[3, 4]), page(&[5, 6])]);
    assert_eq!(used, 2);
    assert_eq!(ids(&result.unwrap()), vec!["xforce:1", "xforce:2", "xforce:3", "xforce:4"]);
    let (result, used) = walk(&config(2, 1), vec![page(&[1, 2]), page(&[3, 4])]);
    assert_eq!(used, 1);
    assert_eq!(ids(&result.unwrap()), vec!["xforce:1", "xforce:2"]);
}

#[test]
fn long_page_counts_as_full() {
    let cfg = config(2, 40);
    let (result, used) = walk(&cfg, vec![page(&[1, 2, 3]), page(&[4])]);
    assert_eq!(used, 2);
    assert_eq!(ids(&result.unwrap()).len(), 4);
}

#[test]
fn records_are_normalized_for_the_store() {
    let cfg = config(5, 40);
    let (result, _) = walk(&cfg, vec![page(&[9])]);
    let mods = result.unwrap();
    assert_eq!(mods.len(), 1);
    assert_eq!(mods[0].store_id, "xforce");
    assert_eq!(mods[0].title, "Product 9");
    assert_eq!(mods[0].vendor, "Unknown");
    assert_eq!(mods[0].product_url, "https://xforce.com.au/products/product-9");
}

#[test]
fn collected_pages_end_as_the_walk_does() {
    let cfg = config(3, 40);
    let pages = vec![page(&[1, 2, 3]), page(&[3, 4, 1]), page(&[4, 5, 5]), page(&[6]), page(&[7])];
    let end = collect_pages(store(), &cfg, pages).unwrap().unwrap();
    assert_eq!(
        ids(&end),
        vec!["xforce:1", "xforce:2", "xforce:3", "xforce:4", "xforce:5", "xforce:6"]
    );
}

#[test]
fn collected_pages_that_run_out_have_no_end() {
    let cfg = config(2, 40);
    assert_eq!(collect_pages(store(), &cfg, vec![]), None);
    assert_eq!(collect_pages(store(), &cfg, vec![page(&[1, 2]), page(&[3, 4])]), None);
}

#[test]
fn collected_pages_fail_with_the_first_page() {
    let cfg = config(2, 40);
    let failure = AppError::Upstream("xforce (HTTP status 500 for url (u))".to_string());
    assert_eq!(
        collect_pages(store(), &cfg, vec![Err(failure.clone()), page(&[1, 2])]),
        Some(Err(failure))
    );
}

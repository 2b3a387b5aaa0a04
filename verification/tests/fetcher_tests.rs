use torque_mods::error::AppError;
use torque_mods::fetcher::{fetch_failure, on_response, page_url, retry_delay_for_429, FetchStep};
use torque_mods::model::{ScrapeConfig, Store};
use torque_mods::paginator::{PageStep, Paginator};

fn config() -> ScrapeConfig {
    ScrapeConfig {
        page_limit: 250,
        max_pages: 40,
        page_delay_ms: 500,
        store_concurrency: 3,
        max_429_retries: 6,
        retry_base_delay_ms: 1_000,
        refresh_interval_secs: 900,
    }
}

fn store() -> Store {
    Store {
        id: "xforce".to_string(),
        name: "XForce".to_string(),
        base_url: "https://xforce.com.au/".to_string(),
        logo_url: None,
    }
}

#[test]
fn retry_after_of_five_seconds_is_honored_exactly() {
    assert_eq!(retry_delay_for_429(Some("5"), &config(), 0), 5_000);
    assert_eq!(retry_delay_for_429(Some("5"), &config(), 4), 5_000);
}

#[test]
fn retry_after_is_kept_within_one_and_120_seconds() {
    assert_eq!(retry_delay_for_429(Some("0"), &config(), 0), 1_000);
    assert_eq!(retry_delay_for_429(Some("1"), &config(), 0), 1_000);
    assert_eq!(retry_delay_for_429(Some("120"), &config(), 0), 120_000);
    assert_eq!(retry_delay_for_429(Some("121"), &config(), 0), 120_000);
    assert_eq!(retry_delay_for_429(Some("18446744073709551615"), &config(), 0), 120_000);
    assert_eq!(retry_delay_for_429(Some("+7"), &config(), 0), 7_000);
    assert_eq!(retry_delay_for_429(Some("007"), &config(), 0), 7_000);
}

#[test]
fn retry_after_that_is_no_number_falls_back_to_backoff() {
    for raw in ["", "soon", "5s", " 5", "-5", "5.0", "+", "18446744073709551616",
        "Wed, 21 Oct 2015 07:28:00 GMT"]
    {
        assert_eq!(retry_delay_for_429(Some(raw), &config(), 1), 2_000, "{raw}");
    }
    assert_eq!(retry_delay_for_429(None, &config(), 1), 2_000);
}

#[test]
fn backoff_doubles_per_attempt_within_its_bounds() {
    let cfg = config();
    assert_eq!(retry_delay_for_429(None, &cfg, 0), 1_000);
    assert_eq!(retry_delay_for_429(None, &cfg, 1), 2_000);
    assert_eq!(retry_delay_for_429(None, &cfg, 3), 8_000);
    assert_eq!(retry_delay_for_429(None, &cfg, 4), 16_000);
    assert_eq!(retry_delay_for_429(None, &cfg, 5), 30_000);
    assert_eq!(retry_delay_for_429(None, &cfg, 64), 30_000);
    assert_eq!(retry_delay_for_429(None, &cfg, usize::MAX), 30_000);
}

#[test]
fn backoff_is_at_least_250_milliseconds() {
    let mut cfg = config();
    cfg.retry_base_delay_ms = 100;
    assert_eq!(retry_delay_for_429(None, &cfg, 0), 250);
    assert_eq!(retry_delay_for_429(None, &cfg, 1), 250);
    assert_eq!(retry_delay_for_429(None, &cfg, 2), 400);
    cfg.retry_base_delay_ms = 0;
    assert_eq!(retry_delay_for_429(None, &cfg, 50), 250);
    cfg.retry_base_delay_ms = u64::MAX;
    assert_eq!(retry_delay_for_429(None, &cfg, 0), 30_000);
}

#[test]
fn page_url_names_limit_and_page() {
    assert_eq!(
        page_url(&store(), &config(), 1),
        "https://xforce.com.au/products.json?limit=250&page=1"
    );
    let mut cfg = config();
    cfg.page_limit = 50;
    assert_eq!(
        page_url(&store(), &cfg, 12),
        "https://xforce.com.au/products.json?limit=50&page=12"
    );
}

#[test]
fn success_status_leads_to_the_body() {
    for status in [200, 204, 299] {
        assert!(matches!(
            on_response(&store(), "u", &config(), 0, status, None),
            FetchStep::ReadBody
        ));
    }
}

#[test]
fn rate_limit_is_retried_after_the_delay() {
    match on_response(&store(), "u", &config(), 0, 429, Some("5")) {
        FetchStep::Retry { delay_ms, next_attempt } => {
            assert_eq!(delay_ms, 5_000);
            assert_eq!(next_attempt, 1);
        }
        _ => panic!("expected a retry"),
    }
    match on_response(&store(), "u", &config(), 5, 429, None) {
        FetchStep::Retry { delay_ms, next_attempt } => {
            assert_eq!(delay_ms, 30_000);
            assert_eq!(next_attempt, 6);
        }
        _ => panic!("expected a retry"),
    }
}

#[test]
fn rate_limit_beyond_the_retries_fails() {
    let url = "https://xforce.com.au/products.json?limit=250&page=1";
    match on_response(&store(), url, &config(), 6, 429, Some("5")) {
        FetchStep::Fail(e) => assert_eq!(
            e,
            AppError::Upstream(format!("xforce (HTTP 429 Too Many Requests for url ({url}))"))
        ),
        _ => panic!("expected a failure"),
    }
    let mut cfg = config();
    cfg.max_429_retries = 0;
    assert!(matches!(on_response(&store(), url, &cfg, 0, 429, None), FetchStep::Fail(_)));
}

#[test]
fn other_status_fails_without_retry() {
    for status in [100, 301, 400, 404, 500, 503] {
        match on_response(&store(), "https://x/p", &config(), 0, status, Some("5")) {
            FetchStep::Fail(e) => assert_eq!(
                e,
                AppError::Upstream(format!("xforce (HTTP status {status} for url (https://x/p))"))
            ),
            _ => panic!("expected a failure for {status}"),
        }
    }
}

#[test]
fn fetch_failure_names_store_and_cause() {
    assert_eq!(
        fetch_failure(&store(), "connection refused"),
        AppError::Upstream("xforce (connection refused)".to_string())
    );
}

#[test]
fn rate_limit_on_every_attempt_of_page_one_fails_the_store() {
    let cfg = config();
    let url = page_url(&store(), &cfg, 1);
    let mut attempt = 0;
    let mut waits = Vec::new();
    let failure = loop {
        match on_response(&store(), &url, &cfg, attempt, 429, None) {
            FetchStep::Retry { delay_ms, next_attempt } => {
                waits.push(delay_ms);
                attempt = next_attempt;
            }
            FetchStep::Fail(e) => break e,
            FetchStep::ReadBody => panic!("a rate-limit response has no page"),
        }
    };
    assert_eq!(waits, vec![1_000, 2_000, 4_000, 8_000, 16_000, 30_000]);
    assert_eq!(attempt, cfg.max_429_retries);
    match Paginator::new(store()).advance(Err(failure.clone()), &cfg) {
        PageStep::Done(Err(e)) => assert_eq!(e, failure),
        _ => panic!("expected the store to fail"),
    }
}

use std::collections::HashSet;

use torque_mods::config::{
    default_stores, load_scrape_config, load_stores, parse_env_u64, parse_env_usize, ScrapeEnv,
};
use torque_mods::error::AppError;
use torque_mods::model::{ScrapeConfig, Store};

fn no_settings() -> ScrapeEnv {
    ScrapeEnv {
        page_limit: None,
        max_pages: None,
        page_delay_ms: None,
        store_concurrency: None,
        max_429_retries: None,
        retry_base_delay_ms: None,
        refresh_interval_secs: None,
    }
}

fn set(value: &str) -> Option<String> {
    Some(value.to_string())
}

#[test]
fn setting_within_bounds_is_taken() {
    assert_eq!(parse_env_usize(Some("100"), 250, 1, 250), 100);
    assert_eq!(parse_env_usize(Some("1"), 250, 1, 250), 1);
    assert_eq!(parse_env_usize(Some("250"), 250, 1, 250), 250);
    assert_eq!(parse_env_usize(Some("+7"), 250, 1, 250), 7);
    assert_eq!(parse_env_u64(Some("0"), 500, 0, 30_000), 0);
    assert_eq!(parse_env_u64(Some("30000"), 500, 0, 30_000), 30_000);
}

#[test]
fn setting_outside_bounds_gives_the_default() {
    assert_eq!(parse_env_usize(Some("0"), 250, 1, 250), 250);
    assert_eq!(parse_env_usize(Some("251"), 250, 1, 250), 250);
    assert_eq!(parse_env_u64(Some("30001"), 500, 0, 30_000), 500);
    assert_eq!(parse_env_u64(Some("99999999999999999999999999"), 500, 0, 30_000), 500);
    assert_eq!(parse_env_usize(Some("99999999999999999999999999"), 3, 1, 32), 3);
}

#[test]
fn setting_that_is_no_number_gives_the_default() {
    for raw in ["", "abc", "12a", " 12", "12 ", "-3", "1.5", "1_000", "+", "0x10"] {
        assert_eq!(parse_env_usize(Some(raw), 40, 1, 250), 40, "{raw}");
        assert_eq!(parse_env_u64(Some(raw), 900, 30, 86_400), 900, "{raw}");
    }
}

#[test]
fn absent_setting_gives_the_default() {
    assert_eq!(parse_env_usize(None, 6, 0, 20), 6);
    assert_eq!(parse_env_u64(None, 1_000, 100, 60_000), 1_000);
}

#[test]
fn configuration_without_settings_is_the_default_one() {
    assert_eq!(
        load_scrape_config(&no_settings()),
        ScrapeConfig {
            page_limit: 250,
            max_pages: 40,
            page_delay_ms: 500,
            store_concurrency: 3,
            max_429_retries: 6,
            retry_base_delay_ms: 1_000,
            refresh_interval_secs: 900,
        }
    );
}

#[test]
fn each_setting_overrides_its_own_value() {
    let env = ScrapeEnv {
        page_limit: set("50"),
        max_pages: set("250"),
        page_delay_ms: set("0"),
        store_concurrency: set("32"),
        max_429_retries: set("0"),
        retry_base_delay_ms: set("100"),
        refresh_interval_secs: set("86400"),
    };
    assert_eq!(
        load_scrape_config(&env),
        ScrapeConfig {
            page_limit: 50,
            max_pages: 250,
            page_delay_ms: 0,
            store_concurrency: 32,
            max_429_retries: 0,
            retry_base_delay_ms: 100,
            refresh_interval_secs: 86_400,
        }
    );
}

#[test]
fn invalid_settings_are_ignored_one_by_one() {
    let env = ScrapeEnv {
        page_limit: set("251"),
        max_pages: set("0"),
        page_delay_ms: set("30001"),
        store_concurrency: set("33"),
        max_429_retries: set("21"),
        retry_base_delay_ms: set("99"),
        refresh_interval_secs: set("29"),
    };
    assert_eq!(load_scrape_config(&env), load_scrape_config(&no_settings()));
    let mut mixed = no_settings();
    mixed.page_limit = set("many");
    mixed.max_pages = set("10");
    let cfg = load_scrape_config(&mixed);
    assert_eq!(cfg.page_limit, 250);
    assert_eq!(cfg.max_pages, 10);
}

#[test]
fn built_in_registry_has_eighteen_distinct_stores() {
    let stores = default_stores();
    assert_eq!(stores.len(), 18);
    let ids: HashSet<&str> = stores.iter().map(|s| s.id.as_str()).collect();
    assert_eq!(ids.len(), 18);
    for s in stores.iter() {
        assert!(!s.id.is_empty() && !s.name.is_empty());
        assert!(s.base_url.starts_with("https://"));
        assert!(!s.base_url.ends_with('/'));
    }
    assert_eq!(stores[0].id, "21overlays");
    assert_eq!(stores[0].logo_url, None);
    assert_eq!(stores[3].id, "xforce");
    assert_eq!(stores[3].name, "XForce");
    assert_eq!(stores[3].base_url, "https://xforce.com.au");
    assert_eq!(stores[17].id, "chicaneaustralia");
}

#[test]
fn registry_without_configuration_is_the_built_in_one() {
    assert_eq!(load_stores(None), Ok(default_stores()));
}

#[test]
fn configured_registry_is_taken_as_it_is() {
    let stores = vec![Store {
        id: "only".to_string(),
        name: "Only".to_string(),
        base_url: "https://only.example".to_string(),
        logo_url: Some("https://only.example/logo.png".to_string()),
    }];
    assert_eq!(load_stores(Some(Ok(stores.clone()))), Ok(stores));
}

#[test]
fn empty_configured_registry_is_refused() {
    assert_eq!(
        load_stores(Some(Ok(vec![]))),
        Err(AppError::BadRequest("STORES_JSON cannot be an empty list".to_string()))
    );
}

#[test]
fn unreadable_configured_registry_is_refused() {
    assert_eq!(
        load_stores(Some(Err("expected value at line 1 column 1".to_string()))),
        Err(AppError::BadRequest(
            "Invalid STORES_JSON: expected value at line 1 column 1".to_string()
        ))
    );
}

//! Configuration: bounded numeric settings with defaults, and the store
//! registry.

use vstd::prelude::*;
use vstd::string::StringExecFns;
use crate::decimal::{parse_u64_chars, parse_unsigned};
use crate::error::{AppError, ErrorView};
use crate::fetcher::str_text;
use crate::model::{ScrapeConfig, Store, StoreView, optional_text};
use crate::text::str_chars;

verus! {

/// The number that a setting's text denotes, where it lies within `min` and
/// `max`; the default where the setting is absent, is no unsigned number, or
/// lies outside.
pub open spec fn bounded_or_default(raw: Option<Seq<char>>, default: nat, min: nat, max: nat) -> nat {
    match raw {
        Some(text) => match parse_unsigned(text) {
            Some(value) => if min <= value <= max {
                value
            } else {
                default
            },
            None => default,
        },
        None => default,
    }
}

pub fn parse_env_u64(raw: Option<&str>, default: u64, min: u64, max: u64) -> (out: u64)
    ensures
        out == bounded_or_default(str_text(raw), default as nat, min as nat, max as nat),
{
    match raw {
        Some(text) => {
            let chars = str_chars(text);
            match parse_u64_chars(&chars) {
                Some(value) => if value >= min && value <= max {
                    value
                } else {
                    default
                },
                None => default,
            }
        },
        None => default,
    }
}

pub fn parse_env_usize(raw: Option<&str>, default: usize, min: usize, max: usize) -> (out: usize)
    ensures
        out == bounded_or_default(str_text(raw), default as nat, min as nat, max as nat),
{
    match raw {
        Some(text) => {
            let chars = str_chars(text);
            match parse_u64_chars(&chars) {
                Some(value) => if value >= min as u64 && value <= max as u64 {
                    value as usize
                } else {
                    default
                },
                None => default,
            }
        },
        None => default,
    }
}

/// The texts of the settings that override the fetch configuration, each
/// absent where it is not set.
#[derive(Debug, Clone, PartialEq, Eq)]
pub struct ScrapeEnv {
    pub page_limit: Option<String>,
    pub max_pages: Option<String>,
    pub page_delay_ms: Option<String>,
    pub store_concurrency: Option<String>,
    pub max_429_retries: Option<String>,
    pub retry_base_delay_ms: Option<String>,
    pub refresh_interval_secs: Option<String>,
}

pub struct ScrapeEnvView {
    pub page_limit: Option<Seq<char>>,
    pub max_pages: Option<Seq<char>>,
    pub page_delay_ms: Option<Seq<char>>,
    pub store_concurrency: Option<Seq<char>>,
    pub max_429_retries: Option<Seq<char>>,
    pub retry_base_delay_ms: Option<Seq<char>>,
    pub refresh_interval_secs: Option<Seq<char>>,
}

impl View for ScrapeEnv {
    type V = ScrapeEnvView;

    open spec fn view(&self) -> ScrapeEnvView {
        ScrapeEnvView {
            page_limit: optional_text(self.page_limit),
            max_pages: optional_text(self.max_pages),
            page_delay_ms: optional_text(self.page_delay_ms),
            store_concurrency: optional_text(self.store_concurrency),
            max_429_retries: optional_text(self.max_429_retries),
            retry_base_delay_ms: optional_text(self.retry_base_delay_ms),
            refresh_interval_secs: optional_text(self.refresh_interval_secs),
        }
    }
}

/// The fetch configuration that the settings give: each value with its own
/// default and bounds.
pub open spec fn scrape_config_of(env: ScrapeEnvView) -> ScrapeConfig {
    ScrapeConfig {
        page_limit: bounded_or_default(env.page_limit, 250, 1, 250) as usize,
        max_pages: bounded_or_default(env.max_pages, 40, 1, 250) as usize,
        page_delay_ms: bounded_or_default(env.page_delay_ms, 500, 0, 30_000) as u64,
        store_concurrency: bounded_or_default(env.store_concurrency, 3, 1, 32) as usize,
        max_429_retries: bounded_or_default(env.max_429_retries, 6, 0, 20) as usize,
        retry_base_delay_ms: bounded_or_default(env.retry_base_delay_ms, 1_000, 100, 60_000) as u64,
        refresh_interval_secs: bounded_or_default(env.refresh_interval_secs, 900, 30, 86_400) as u64,
    }
}

fn as_text(raw: &Option<String>) -> (out: Option<&str>)
    ensures
        str_text(out) == optional_text(*raw),
{
    match raw {
        Some(text) => Some(text.as_str()),
        None => None,
    }
}

pub fn load_scrape_config(env: &ScrapeEnv) -> (cfg: ScrapeConfig)
    ensures
        cfg == scrape_config_of(env@),
{
    ScrapeConfig {
        page_limit: parse_env_usize(as_text(&env.page_limit), 250, 1, 250),
        max_pages: parse_env_usize(as_text(&env.max_pages), 40, 1, 250),
        page_delay_ms: parse_env_u64(as_text(&env.page_delay_ms), 500, 0, 30_000),
        store_concurrency: parse_env_usize(as_text(&env.store_concurrency), 3, 1, 32),
        max_429_retries: parse_env_usize(as_text(&env.max_429_retries), 6, 0, 20),
        retry_base_delay_ms: parse_env_u64(as_text(&env.retry_base_delay_ms), 1_000, 100, 60_000),
        refresh_interval_secs: parse_env_u64(
            as_text(&env.refresh_interval_secs),
            900,
            30,
            86_400,
        ),
    }
}

pub open spec fn store_views(stores: Seq<Store>) -> Seq<StoreView> {
    stores.map_values(|s: Store| s@)
}

pub open spec fn store_ids(stores: Seq<StoreView>) -> Seq<Seq<char>> {
    stores.map_values(|s: StoreView| s.id)
}

/// A store has an id, a name and a base URL.
pub open spec fn named_store(s: StoreView) -> bool {
    s.id.len() > 0 && s.name.len() > 0 && s.base_url.len() > 0
}

/// The built-in stores, in registry order.
pub open spec fn default_registry() -> Seq<StoreView> {
    seq![
        StoreView {
            id: "21overlays"@,
            name: "21 Overlays"@,
            base_url: "https://21overlays.com.au"@,
            logo_url: None,
        },
        StoreView {
            id: "dubhaus"@,
            name: "Dubhaus"@,
            base_url: "https://dubhaus.com.au"@,
            logo_url: Some("https://dubhaus.com.au/cdn/shop/files/Dubhaus-Logo-Dark_2x_aceaf8af-66d7-4aa4-9bdc-e7b868f4752b.png?v=1677123947&width=2000"@),
        },
        StoreView {
            id: "modeautoconcepts"@,
            name: "Mode Auto Concepts"@,
            base_url: "https://modeautoconcepts.com"@,
            logo_url: Some("https://modeautoconcepts.com/cdn/shop/files/mode_website_header.png?v=1726554561&width=130"@),
        },
        StoreView {
            id: "xforce"@,
            name: "XForce"@,
            base_url: "https://xforce.com.au"@,
            logo_url: Some("https://xforce.com.au/cdn/shop/files/Logo_Square_X_RED.png?v=1754529662"@),
        },
        StoreView {
            id: "justjap"@,
            name: "JustJap"@,
            base_url: "https://justjap.com"@,
            logo_url: Some("https://justjap.com/cdn/shop/t/76/assets/icon-logo.svg?v=158336173239139661481733262283"@),
        },
        StoreView {
            id: "modsdirect"@,
            name: "Mods Direct"@,
            base_url: "https://www.modsdirect.com.au"@,
            logo_url: Some("https://www.modsdirect.com.au/cdn/shop/files/MODSPPFBLK.png?v=1717205712&width=520"@),
        },
        StoreView {
            id: "prospeedracing"@,
            name: "Prospeed Racing"@,
            base_url: "https://www.prospeedracing.com.au"@,
            logo_url: Some("https://www.prospeedracing.com.au/cdn/shop/files/pro_speed_racing_logo.png?v=1702293418&width=340"@),
        },
        StoreView {
            id: "shiftymods"@,
            name: "Shifty Mods"@,
            base_url: "https://shiftymods.com.au"@,
            logo_url: Some("https://shiftymods.com.au/cdn/shop/files/3.png?v=1724340298&width=275"@),
        },
        StoreView {
            id: "hi-torqueperformance"@,
            name: "Hi-Torque Performance"@,
            base_url: "https://hi-torqueperformance.myshopify.com"@,
            logo_url: Some("https://hi-torqueperformance.myshopify.com/cdn/shop/files/HTP_logo_300x300.png?v=1751503487"@),
        },
        StoreView {
            id: "performancewarehouse"@,
            name: "Performance Warehouse"@,
            base_url: "https://performancewarehouse.com.au"@,
            logo_url: Some("https://cdn.shopify.com/s/files/1/0323/1596/5572/files/main-logo-v4.png?v=1707862321"@),
        },
        StoreView {
            id: "streetelement"@,
            name: "Street Element"@,
            base_url: "https://streetelement.com.au"@,
            logo_url: None,
        },
        StoreView {
            id: "allautomotiveparts"@,
            name: "All Automotive Parts"@,
            base_url: "https://allautomotiveparts.com.au"@,
            logo_url: Some("https://allautomotiveparts.com.au/cdn/shop/files/logo_3.png?v=1662423972&width=438"@),
        },
        StoreView {
            id: "eziautoparts"@,
            name: "Ezi Auto Parts"@,
            base_url: "https://eziautoparts.com.au"@,
            logo_url: Some("https://eziautoparts.com.au/cdn/shop/files/eziauto_logo_white_inlay.png?v=1711271402&width=600"@),
        },
        StoreView {
            id: "autocave"@,
            name: "Auto Cave"@,
            base_url: "https://autocave.com.au"@,
            logo_url: Some("https://autocave.com.au/cdn/shop/files/Untitled_design_-_2024-12-09T203629.178_300x@2x.png?v=1733736998"@),
        },
        StoreView {
            id: "jtmauto"@,
            name: "JTM Auto"@,
            base_url: "https://jtmauto.com.au"@,
            logo_url: Some("https://jtmauto.com.au/cdn/shop/files/jtm-logo4_456x60.png?v=1704599783"@),
        },
        StoreView {
            id: "tjautoparts"@,
            name: "TJ Auto Parts"@,
            base_url: "https://tjautoparts.com.au"@,
            logo_url: Some("https://tjautoparts.com.au/cdn/shop/files/Logo-01_Crop_393x150.png?v=1711854530"@),
        },
        StoreView {
            id: "nationwideautoparts"@,
            name: "Nationwide Auto Parts"@,
            base_url: "https://www.nationwideautoparts.com.au"@,
            logo_url: Some("https://www.nationwideautoparts.com.au/cdn/shop/files/NW-Logo-Temp_200x50.png?v=1745620530"@),
        },
        StoreView {
            id: "chicaneaustralia"@,
            name: "Chicane Australia"@,
            base_url: "https://www.chicaneaustralia.com.au"@,
            logo_url: Some("https://www.chicaneaustralia.com.au/cdn/shop/files/ChicaneLogo_2048x2048-LockupWhiteTransparent_V1.png?v=1747808484&width=300"@),
        },
    ]
}

/// The ids of the built-in stores, in registry order.
pub open spec fn default_store_ids() -> Seq<Seq<char>> {
    seq![
        "21overlays"@,
        "dubhaus"@,
        "modeautoconcepts"@,
        "xforce"@,
        "justjap"@,
        "modsdirect"@,
        "prospeedracing"@,
        "shiftymods"@,
        "hi-torqueperformance"@,
        "performancewarehouse"@,
        "streetelement"@,
        "allautomotiveparts"@,
        "eziautoparts"@,
        "autocave"@,
        "jtmauto"@,
        "tjautoparts"@,
        "nationwideautoparts"@,
        "chicaneaustralia"@,
    ]
}

fn store_entry(id: &str, name: &str, base_url: &str, logo_url: Option<&str>) -> (out: Store)
    ensures
        out@ == (StoreView {
            id: id@,
            name: name@,
            base_url: base_url@,
            logo_url: str_text(logo_url),
        }),
{
    Store {
        id: id.to_owned(),
        name: name.to_owned(),
        base_url: base_url.to_owned(),
        logo_url: match logo_url {
            Some(url) => Some(url.to_owned()),
            None => None,
        },
    }
}

/// No two of the built-in stores share an id.
pub proof fn lemma_default_store_ids_distinct()
    ensures
        default_store_ids().no_duplicates(),
{
    reveal_strlit("21overlays");
    reveal_strlit("dubhaus");
    reveal_strlit("modeautoconcepts");
    reveal_strlit("xforce");
    reveal_strlit("justjap");
    reveal_strlit("modsdirect");
    reveal_strlit("prospeedracing");
    reveal_strlit("shiftymods");
    reveal_strlit("hi-torqueperformance");
    reveal_strlit("performancewarehouse");
    reveal_strlit("streetelement");
    reveal_strlit("allautomotiveparts");
    reveal_strlit("eziautoparts");
    reveal_strlit("autocave");
    reveal_strlit("jtmauto");
    reveal_strlit("tjautoparts");
    reveal_strlit("nationwideautoparts");
    reveal_strlit("chicaneaustralia");
    let ids = default_store_ids();
    assert forall|i: int, j: int| 0 <= i < ids.len() && 0 <= j < ids.len() && i != j implies ids[i]
        != ids[j] by {
        if ids[i].len() == ids[j].len() {
            assert(ids[i][0] != ids[j][0] || ids[i][1] != ids[j][1] || ids[i][2] != ids[j][2]);
        }
    }
}

/// The built-in registry: eighteen stores with distinct ids, each with an
/// id, a name and a base URL.
pub fn default_stores() -> (out: Vec<Store>)
    ensures
        store_views(out@) == default_registry(),
        store_ids(store_views(out@)) == default_store_ids(),
        forall|i: int| 0 <= i < out.len() ==> named_store(#[trigger] out@[i]@),
        store_ids(store_views(out@)).no_duplicates(),
{
    let mut out: Vec<Store> = Vec::new();
    out.push(
        store_entry(
            "21overlays",
            "21 Overlays",
            "https://21overlays.com.au",
            None,
        ),
    );
    out.push(
        store_entry(
            "dubhaus",
            "Dubhaus",
            "https://dubhaus.com.au",
            Some("https://dubhaus.com.au/cdn/shop/files/Dubhaus-Logo-Dark_2x_aceaf8af-66d7-4aa4-9bdc-e7b868f4752b.png?v=1677123947&width=2000"),
        ),
    );
    out.push(
        store_entry(
            "modeautoconcepts",
            "Mode Auto Concepts",
            "https://modeautoconcepts.com",
            Some("https://modeautoconcepts.com/cdn/shop/files/mode_website_header.png?v=1726554561&width=130"),
        ),
    );
    out.push(
        store_entry(
            "xforce",
            "XForce",
            "https://xforce.com.au",
            Some("https://xforce.com.au/cdn/shop/files/Logo_Square_X_RED.png?v=1754529662"),
        ),
    );
    out.push(
        store_entry(
            "justjap",
            "JustJap",
            "https://justjap.com",
            Some("https://justjap.com/cdn/shop/t/76/assets/icon-logo.svg?v=158336173239139661481733262283"),
        ),
    );
    out.push(
        store_entry(
            "modsdirect",
            "Mods Direct",
            "https://www.modsdirect.com.au",
            Some("https://www.modsdirect.com.au/cdn/shop/files/MODSPPFBLK.png?v=1717205712&width=520"),
        ),
    );
    out.push(
        store_entry(
            "prospeedracing",
            "Prospeed Racing",
            "https://www.prospeedracing.com.au",
            Some("https://www.prospeedracing.com.au/cdn/shop/files/pro_speed_racing_logo.png?v=1702293418&width=340"),
        ),
    );
    out.push(
        store_entry(
            "shiftymods",
            "Shifty Mods",
            "https://shiftymods.com.au",
            Some("https://shiftymods.com.au/cdn/shop/files/3.png?v=1724340298&width=275"),
        ),
    );
    out.push(
        store_entry(
            "hi-torqueperformance",
            "Hi-Torque Performance",
            "https://hi-torqueperformance.myshopify.com",
            Some("https://hi-torqueperformance.myshopify.com/cdn/shop/files/HTP_logo_300x300.png?v=1751503487"),
        ),
    );
    out.push(
        store_entry(
            "performancewarehouse",
            "Performance Warehouse",
            "https://performancewarehouse.com.au",
            Some("https://cdn.shopify.com/s/files/1/0323/1596/5572/files/main-logo-v4.png?v=1707862321"),
        ),
    );
    out.push(
        store_entry(
            "streetelement",
            "Street Element",
            "https://streetelement.com.au",
            None,
        ),
    );
    out.push(
        store_entry(
            "allautomotiveparts",
            "All Automotive Parts",
            "https://allautomotiveparts.com.au",
            Some("https://allautomotiveparts.com.au/cdn/shop/files/logo_3.png?v=1662423972&width=438"),
        ),
    );
    out.push(
        store_entry(
            "eziautoparts",
            "Ezi Auto Parts",
            "https://eziautoparts.com.au",
            Some("https://eziautoparts.com.au/cdn/shop/files/eziauto_logo_white_inlay.png?v=1711271402&width=600"),
        ),
    );
    out.push(
        store_entry(
            "autocave",
            "Auto Cave",
            "https://autocave.com.au",
            Some("https://autocave.com.au/cdn/shop/files/Untitled_design_-_2024-12-09T203629.178_300x@2x.png?v=1733736998"),
        ),
    );
    out.push(
        store_entry(
            "jtmauto",
            "JTM Auto",
            "https://jtmauto.com.au",
            Some("https://jtmauto.com.au/cdn/shop/files/jtm-logo4_456x60.png?v=1704599783"),
        ),
    );
    out.push(
        store_entry(
            "tjautoparts",
            "TJ Auto Parts",
            "https://tjautoparts.com.au",
            Some("https://tjautoparts.com.au/cdn/shop/files/Logo-01_Crop_393x150.png?v=1711854530"),
        ),
    );
    out.push(
        store_entry(
            "nationwideautoparts",
            "Nationwide Auto Parts",
            "https://www.nationwideautoparts.com.au",
            Some("https://www.nationwideautoparts.com.au/cdn/shop/files/NW-Logo-Temp_200x50.png?v=1745620530"),
        ),
    );
    out.push(
        store_entry(
            "chicaneaustralia",
            "Chicane Australia",
            "https://www.chicaneaustralia.com.au",
            Some("https://www.chicaneaustralia.com.au/cdn/shop/files/ChicaneLogo_2048x2048-LockupWhiteTransparent_V1.png?v=1747808484&width=300"),
        ),
    );
    proof {
        reveal_strlit("21overlays");
        reveal_strlit("21 Overlays");
        reveal_strlit("https://21overlays.com.au");
        reveal_strlit("dubhaus");
        reveal_strlit("Dubhaus");
        reveal_strlit("https://dubhaus.com.au");
        reveal_strlit("modeautoconcepts");
        reveal_strlit("Mode Auto Concepts");
        reveal_strlit("https://modeautoconcepts.com");
        reveal_strlit("xforce");
        reveal_strlit("XForce");
        reveal_strlit("https://xforce.com.au");
        reveal_strlit("justjap");
        reveal_strlit("JustJap");
        reveal_strlit("https://justjap.com");
        reveal_strlit("modsdirect");
        reveal_strlit("Mods Direct");
        reveal_strlit("https://www.modsdirect.com.au");
        reveal_strlit("prospeedracing");
        reveal_strlit("Prospeed Racing");
        reveal_strlit("https://www.prospeedracing.com.au");
        reveal_strlit("shiftymods");
        reveal_strlit("Shifty Mods");
        reveal_strlit("https://shiftymods.com.au");
        reveal_strlit("hi-torqueperformance");
        reveal_strlit("Hi-Torque Performance");
        reveal_strlit("https://hi-torqueperformance.myshopify.com");
        reveal_strlit("performancewarehouse");
        reveal_strlit("Performance Warehouse");
        reveal_strlit("https://performancewarehouse.com.au");
        reveal_strlit("streetelement");
        reveal_strlit("Street Element");
        reveal_strlit("https://streetelement.com.au");
        reveal_strlit("allautomotiveparts");
        reveal_strlit("All Automotive Parts");
        reveal_strlit("https://allautomotiveparts.com.au");
        reveal_strlit("eziautoparts");
        reveal_strlit("Ezi Auto Parts");
        reveal_strlit("https://eziautoparts.com.au");
        reveal_strlit("autocave");
        reveal_strlit("Auto Cave");
        reveal_strlit("https://autocave.com.au");
        reveal_strlit("jtmauto");
        reveal_strlit("JTM Auto");
        reveal_strlit("https://jtmauto.com.au");
        reveal_strlit("tjautoparts");
        reveal_strlit("TJ Auto Parts");
        reveal_strlit("https://tjautoparts.com.au");
        reveal_strlit("nationwideautoparts");
        reveal_strlit("Nationwide Auto Parts");
        reveal_strlit("https://www.nationwideautoparts.com.au");
        reveal_strlit("chicaneaustralia");
        reveal_strlit("Chicane Australia");
        reveal_strlit("https://www.chicaneaustralia.com.au");
        assert(store_views(out@) =~= default_registry());
        assert(store_ids(store_views(out@)) =~= default_store_ids());
        lemma_default_store_ids_distinct();
    }
    out
}

pub open spec fn parsed_view(parsed: Option<Result<Vec<Store>, String>>) -> Option<
    Result<Seq<StoreView>, Seq<char>>,
> {
    match parsed {
        Some(Ok(stores)) => Some(Ok(store_views(stores@))),
        Some(Err(cause)) => Some(Err(cause@)),
        None => None,
    }
}

/// The failure that a configured registry gives, if it gives one: it could
/// not be read, or it is empty.
pub open spec fn registry_failure(parsed: Option<Result<Seq<StoreView>, Seq<char>>>) -> Option<
    ErrorView,
> {
    match parsed {
        Some(Err(cause)) => Some(ErrorView::BadRequest("Invalid STORES_JSON: "@ + cause)),
        Some(Ok(stores)) => if stores.len() == 0 {
            Some(ErrorView::BadRequest("STORES_JSON cannot be an empty list"@))
        } else {
            None
        },
        None => None,
    }
}

/// The store registry. `parsed` is what reading the configured registry
/// gave: its stores, or the cause for which it could not be read; it is
/// absent where none is configured, and the built-in registry is then used.
pub fn load_stores(parsed: Option<Result<Vec<Store>, String>>) -> (r: Result<Vec<Store>, AppError>)
    ensures
        match r {
            Ok(stores) => registry_failure(parsed_view(parsed)) is None && match parsed {
                Some(Ok(configured)) => stores == configured,
                _ => store_views(stores@) == default_registry(),
            },
            Err(e) => registry_failure(parsed_view(parsed)) == Some(e@),
        },
{
    match parsed {
        Some(Ok(stores)) => {
            if stores.len() == 0 {
                Err(AppError::BadRequest("STORES_JSON cannot be an empty list".to_owned()))
            } else {
                Ok(stores)
            }
        },
        Some(Err(cause)) => {
            let mut text = "Invalid STORES_JSON: ".to_owned();
            text.append(cause.as_str());
            Err(AppError::BadRequest(text))
        },
        None => Ok(default_stores()),
    }
}

} // verus!

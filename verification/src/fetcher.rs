//! Fetching one catalog page: the page's address, what to do with a
//! response, and how long to wait after a rate-limit response.

use vstd::prelude::*;
use vstd::arithmetic::power2::{
    lemma2_to64, lemma_pow2_strictly_increases, lemma_pow2_unfold, pow2,
};
use crate::decimal::{decimal_text, parse_u64_chars, parse_unsigned, push_decimal};
use crate::error::{AppError, ErrorView};
use crate::model::{ScrapeConfig, Store};
use crate::normalizer::{strip_trailing_slashes, without_trailing_slashes};
use crate::text::{chars_string, push_str_chars, str_chars};

verus! {

pub open spec fn clamp(v: int, low: int, high: int) -> int {
    if v < low {
        low
    } else if v > high {
        high
    } else {
        v
    }
}

/// The seconds that a `Retry-After` value names: an unsigned number that
/// fits in 64 bits.
pub open spec fn retry_after_seconds(header: Option<Seq<char>>) -> Option<nat> {
    match header {
        Some(raw) => match parse_unsigned(raw) {
            Some(seconds) => if seconds <= u64::MAX {
                Some(seconds)
            } else {
                None
            },
            None => None,
        },
        None => None,
    }
}

/// The wait in milliseconds when the response names none: the base delay
/// doubled once per earlier attempt, kept within 250 and 30000.
pub open spec fn backoff_ms(base_delay_ms: int, attempt: nat) -> int {
    clamp(base_delay_ms * pow2(attempt), 250, 30_000)
}

/// The wait in milliseconds after a rate-limit response: the seconds that
/// the response names, kept within 1 and 120; else the backoff.
pub open spec fn retry_delay_ms(header: Option<Seq<char>>, base_delay_ms: int, attempt: nat) -> int {
    match retry_after_seconds(header) {
        Some(seconds) => clamp(seconds as int, 1, 120) * 1000,
        None => backoff_ms(base_delay_ms, attempt),
    }
}

pub open spec fn str_text(s: Option<&str>) -> Option<Seq<char>> {
    match s {
        Some(text) => Some(text@),
        None => None,
    }
}

/// The address of one page of a store's catalog.
pub open spec fn page_url_text(base_url: Seq<char>, page_limit: nat, page: nat) -> Seq<char> {
    without_trailing_slashes(base_url) + "/products.json?limit="@ + decimal_text(page_limit)
        + "&page="@ + decimal_text(page)
}

/// The detail of a failed fetch: the store, and the cause in brackets.
pub open spec fn failure_text(store_id: Seq<char>, cause: Seq<char>) -> Seq<char> {
    store_id + " ("@ + cause + ")"@
}

pub open spec fn rate_limit_cause(url: Seq<char>) -> Seq<char> {
    "HTTP 429 Too Many Requests for url ("@ + url + ")"@
}

pub open spec fn status_cause(status: nat, url: Seq<char>) -> Seq<char> {
    "HTTP status "@ + decimal_text(status) + " for url ("@ + url + ")"@
}

pub open spec fn is_success_status(status: int) -> bool {
    200 <= status < 300
}

/// What follows a response.
pub enum FetchStep {
    /// Wait, then ask for the same page again as attempt `next_attempt`.
    Retry { delay_ms: u64, next_attempt: usize },
    /// The fetch has failed.
    Fail(AppError),
    /// The response is a success: its body holds the page.
    ReadBody,
}

pub enum FetchStepView {
    Retry { delay_ms: int, next_attempt: int },
    Fail(ErrorView),
    ReadBody,
}

impl View for FetchStep {
    type V = FetchStepView;

    open spec fn view(&self) -> FetchStepView {
        match self {
            FetchStep::Retry { delay_ms, next_attempt } => FetchStepView::Retry {
                delay_ms: *delay_ms as int,
                next_attempt: *next_attempt as int,
            },
            FetchStep::Fail(e) => FetchStepView::Fail(e@),
            FetchStep::ReadBody => FetchStepView::ReadBody,
        }
    }
}

/// What follows a response with the given status: a rate-limit response is
/// retried after a wait until the retries are used up; any other status that
/// is no success fails the fetch at once.
pub open spec fn response_step(
    store_id: Seq<char>,
    url: Seq<char>,
    cfg: ScrapeConfig,
    attempt: nat,
    status: nat,
    retry_after: Option<Seq<char>>,
) -> FetchStepView {
    if status == 429 {
        if attempt >= cfg.max_429_retries {
            FetchStepView::Fail(ErrorView::Upstream(failure_text(store_id, rate_limit_cause(url))))
        } else {
            FetchStepView::Retry {
                delay_ms: retry_delay_ms(retry_after, cfg.retry_base_delay_ms as int, attempt),
                next_attempt: attempt as int + 1,
            }
        }
    } else if !is_success_status(status as int) {
        FetchStepView::Fail(ErrorView::Upstream(failure_text(store_id, status_cause(status, url))))
    } else {
        FetchStepView::ReadBody
    }
}

fn compute_backoff_ms(base_delay_ms: u64, attempt: usize) -> (ms: u64)
    ensures
        ms == backoff_ms(base_delay_ms as int, attempt as nat),
{
    if base_delay_ms == 0 {
        assert(0 * pow2(attempt as nat) == 0);
        return 250;
    }
    let mut value: u64 = base_delay_ms;
    let mut k: usize = 0;
    proof {
        lemma2_to64();
    }
    while k < attempt && value < 30_000
        invariant
            k <= attempt,
            base_delay_ms > 0,
            value == base_delay_ms * pow2(k as nat),
        decreases attempt - k,
    {
        proof {
            lemma_pow2_unfold((k + 1) as nat);
            assert(base_delay_ms * (2 * pow2(k as nat)) == 2 * (base_delay_ms * pow2(k as nat)))
                by (nonlinear_arith);
        }
        value = value * 2;
        k += 1;
    }
    proof {
        if k < attempt {
            lemma_pow2_strictly_increases(k as nat, attempt as nat);
            assert(base_delay_ms * pow2(k as nat) <= base_delay_ms * pow2(attempt as nat))
                by (nonlinear_arith)
                requires
                    base_delay_ms > 0,
                    pow2(k as nat) < pow2(attempt as nat),
            ;
        }
    }
    if value < 250 {
        250
    } else if value > 30_000 {
        30_000
    } else {
        value
    }
}

/// How long to wait, in milliseconds, before a page is asked for again after
/// a rate-limit response. `retry_after` is the value of the response's
/// `Retry-After` header, where it has one that is text.
pub fn retry_delay_for_429(retry_after: Option<&str>, scrape_cfg: &ScrapeConfig, attempt: usize) -> (ms:
    u64)
    ensures
        ms == retry_delay_ms(
            str_text(retry_after),
            scrape_cfg.retry_base_delay_ms as int,
            attempt as nat,
        ),
        250 <= ms <= 120_000,
{
    if let Some(raw) = retry_after {
        let chars = str_chars(raw);
        if let Some(seconds) = parse_u64_chars(&chars) {
            let kept: u64 = if seconds < 1 {
                1
            } else if seconds > 120 {
                120
            } else {
                seconds
            };
            return kept * 1000;
        }
    }
    compute_backoff_ms(scrape_cfg.retry_base_delay_ms, attempt)
}

pub fn page_url(store: &Store, scrape_cfg: &ScrapeConfig, page: usize) -> (url: String)
    ensures
        url@ == page_url_text(store@.base_url, scrape_cfg.page_limit as nat, page as nat),
{
    let mut chars = strip_trailing_slashes(store.base_url.as_str());
    push_str_chars(&mut chars, "/products.json?limit=");
    push_decimal(&mut chars, scrape_cfg.page_limit as u64);
    push_str_chars(&mut chars, "&page=");
    push_decimal(&mut chars, page as u64);
    chars_string(&chars)
}

/// The failure of a fetch of `store` with the given cause: a request that
/// could not be sent, or a body that is no catalog page.
pub fn fetch_failure(store: &Store, cause: &str) -> (e: AppError)
    ensures
        e@ == ErrorView::Upstream(failure_text(store@.id, cause@)),
{
    let mut chars = str_chars(store.id.as_str());
    push_str_chars(&mut chars, " (");
    push_str_chars(&mut chars, cause);
    push_str_chars(&mut chars, ")");
    AppError::Upstream(chars_string(&chars))
}

fn rate_limit_failure(store: &Store, url: &str) -> (e: AppError)
    ensures
        e@ == ErrorView::Upstream(failure_text(store@.id, rate_limit_cause(url@))),
{
    let mut chars = str_chars(store.id.as_str());
    push_str_chars(&mut chars, " (");
    push_str_chars(&mut chars, "HTTP 429 Too Many Requests for url (");
    push_str_chars(&mut chars, url);
    push_str_chars(&mut chars, ")");
    push_str_chars(&mut chars, ")");
    assert(chars@ =~= failure_text(store@.id, rate_limit_cause(url@)));
    AppError::Upstream(chars_string(&chars))
}

fn status_failure(store: &Store, status: u16, url: &str) -> (e: AppError)
    ensures
        e@ == ErrorView::Upstream(failure_text(store@.id, status_cause(status as nat, url@))),
{
    let mut chars = str_chars(store.id.as_str());
    push_str_chars(&mut chars, " (");
    push_str_chars(&mut chars, "HTTP status ");
    push_decimal(&mut chars, status as u64);
    push_str_chars(&mut chars, " for url (");
    push_str_chars(&mut chars, url);
    push_str_chars(&mut chars, ")");
    push_str_chars(&mut chars, ")");
    assert(chars@ =~= failure_text(store@.id, status_cause(status as nat, url@)));
    AppError::Upstream(chars_string(&chars))
}

/// Decides what follows a response to attempt number `attempt` (the first
/// attempt is number 0) for the page at `url`.
pub fn on_response(
    store: &Store,
    url: &str,
    scrape_cfg: &ScrapeConfig,
    attempt: usize,
    status: u16,
    retry_after: Option<&str>,
) -> (step: FetchStep)
    ensures
        step@ == response_step(
            store@.id,
            url@,
            *scrape_cfg,
            attempt as nat,
            status as nat,
            str_text(retry_after),
        ),
{
    if status == 429 {
        if attempt >= scrape_cfg.max_429_retries {
            FetchStep::Fail(rate_limit_failure(store, url))
        } else {
            let delay_ms = retry_delay_for_429(retry_after, scrape_cfg, attempt);
            FetchStep::Retry { delay_ms, next_attempt: attempt + 1 }
        }
    } else if status < 200 || status >= 300 {
        FetchStep::Fail(status_failure(store, status, url))
    } else {
        FetchStep::ReadBody
    }
}

} // verus!

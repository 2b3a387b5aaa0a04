//! The shared data model: configured stores, upstream products, canonical
//! records, queries, job statistics and the fetch configuration.

use vstd::prelude::*;
use crate::text::string_texts;

verus! {

/// The view of an optional string.
pub open spec fn optional_text(s: Option<String>) -> Option<Seq<char>> {
    match s {
        Some(text) => Some(text@),
        None => None,
    }
}

/// A copy of a list of strings.
pub fn clone_strings(v: &Vec<String>) -> (out: Vec<String>)
    ensures
        string_texts(out@) == string_texts(v@),
{
    let mut out: Vec<String> = Vec::new();
    let mut i: usize = 0;
    while i < v.len()
        invariant
            i <= v.len(),
            out.len() == i,
            forall|k: int| 0 <= k < i ==> out@[k]@ == v@[k]@,
        decreases v.len() - i,
    {
        out.push(v[i].clone());
        i += 1;
    }
    assert(string_texts(out@) =~= string_texts(v@));
    out
}

/// A copy of an optional string.
pub fn clone_optional(s: &Option<String>) -> (out: Option<String>)
    ensures
        optional_text(out) == optional_text(*s),
{
    match s {
        Some(text) => Some(text.clone()),
        None => None,
    }
}

/// One configured upstream catalog source.
#[derive(Debug, PartialEq, Eq)]
pub struct Store {
    pub id: String,
    pub name: String,
    pub base_url: String,
    pub logo_url: Option<String>,
}

pub struct StoreView {
    pub id: Seq<char>,
    pub name: Seq<char>,
    pub base_url: Seq<char>,
    pub logo_url: Option<Seq<char>>,
}

impl View for Store {
    type V = StoreView;

    open spec fn view(&self) -> StoreView {
        StoreView {
            id: self.id@,
            name: self.name@,
            base_url: self.base_url@,
            logo_url: optional_text(self.logo_url),
        }
    }
}

impl Clone for Store {
    fn clone(&self) -> (out: Self)
        ensures
            out@ == self@,
    {
        Store {
            id: self.id.clone(),
            name: self.name.clone(),
            base_url: self.base_url.clone(),
            logo_url: clone_optional(&self.logo_url),
        }
    }
}

/// The canonical product record. `price` holds the price in decimal notation.
#[derive(Debug, PartialEq, Eq)]
pub struct NormalizedMod {
    pub id: String,
    pub store_id: String,
    pub title: String,
    pub images: Vec<String>,
    pub price: String,
    pub vendor: String,
    pub product_type: String,
    pub tags: Vec<String>,
    pub product_url: String,
}

pub struct ModView {
    pub id: Seq<char>,
    pub store_id: Seq<char>,
    pub title: Seq<char>,
    pub images: Seq<Seq<char>>,
    pub price: Seq<char>,
    pub vendor: Seq<char>,
    pub product_type: Seq<char>,
    pub tags: Seq<Seq<char>>,
    pub product_url: Seq<char>,
}

impl View for NormalizedMod {
    type V = ModView;

    open spec fn view(&self) -> ModView {
        ModView {
            id: self.id@,
            store_id: self.store_id@,
            title: self.title@,
            images: string_texts(self.images@),
            price: self.price@,
            vendor: self.vendor@,
            product_type: self.product_type@,
            tags: string_texts(self.tags@),
            product_url: self.product_url@,
        }
    }
}

impl Clone for NormalizedMod {
    fn clone(&self) -> (out: Self)
        ensures
            out@ == self@,
    {
        NormalizedMod {
            id: self.id.clone(),
            store_id: self.store_id.clone(),
            title: self.title.clone(),
            images: clone_strings(&self.images),
            price: self.price.clone(),
            vendor: self.vendor.clone(),
            product_type: self.product_type.clone(),
            tags: clone_strings(&self.tags),
            product_url: self.product_url.clone(),
        }
    }
}

/// The views of a list of records.
pub open spec fn mod_views(v: Seq<NormalizedMod>) -> Seq<ModView> {
    v.map_values(|m: NormalizedMod| m@)
}

/// The tags of an upstream product: one comma-separated text, or a list.
#[derive(Debug, Clone, PartialEq, Eq)]
pub enum ShopifyTags {
    Text(String),
    List(Vec<String>),
}

pub enum TagsView {
    Text(Seq<char>),
    List(Seq<Seq<char>>),
}

impl View for ShopifyTags {
    type V = TagsView;

    open spec fn view(&self) -> TagsView {
        match self {
            ShopifyTags::Text(raw) => TagsView::Text(raw@),
            ShopifyTags::List(values) => TagsView::List(string_texts(values@)),
        }
    }
}

impl Default for ShopifyTags {
    fn default() -> (out: Self)
        ensures
            out@ == TagsView::List(Seq::empty()),
    {
        let out = ShopifyTags::List(Vec::new());
        assert(string_texts(Seq::<String>::empty()) =~= Seq::<Seq<char>>::empty());
        out
    }
}

#[derive(Debug, Clone, PartialEq, Eq)]
pub struct ShopifyImage {
    pub src: String,
}

/// One priced variant; `price` is the upstream text, where there is one.
#[derive(Debug, Clone, PartialEq, Eq)]
pub struct ShopifyVariant {
    pub price: Option<String>,
}

/// One product as an upstream catalog page lists it.
#[derive(Debug, Clone, PartialEq, Eq)]
pub struct ShopifyProduct {
    pub id: i64,
    pub title: String,
    pub handle: String,
    pub vendor: Option<String>,
    pub product_type: String,
    pub tags: ShopifyTags,
    pub images: Vec<ShopifyImage>,
    pub variants: Vec<ShopifyVariant>,
}

pub struct ProductView {
    pub id: i64,
    pub title: Seq<char>,
    pub handle: Seq<char>,
    pub vendor: Option<Seq<char>>,
    pub product_type: Seq<char>,
    pub tags: TagsView,
    pub images: Seq<Seq<char>>,
    pub prices: Seq<Option<Seq<char>>>,
}

impl View for ShopifyProduct {
    type V = ProductView;

    open spec fn view(&self) -> ProductView {
        ProductView {
            id: self.id,
            title: self.title@,
            handle: self.handle@,
            vendor: optional_text(self.vendor),
            product_type: self.product_type@,
            tags: self.tags@,
            images: self.images@.map_values(|image: ShopifyImage| image.src@),
            prices: self.variants@.map_values(|variant: ShopifyVariant| optional_text(variant.price)),
        }
    }
}

/// The free-text filters of one search.
#[derive(Debug, Clone, PartialEq, Eq)]
pub struct ModsQuery {
    pub make: Option<String>,
    pub model: Option<String>,
    pub engine: Option<String>,
}

pub struct QueryView {
    pub make: Option<Seq<char>>,
    pub model: Option<Seq<char>>,
    pub engine: Option<Seq<char>>,
}

impl View for ModsQuery {
    type V = QueryView;

    open spec fn view(&self) -> QueryView {
        QueryView {
            make: optional_text(self.make),
            model: optional_text(self.model),
            engine: optional_text(self.engine),
        }
    }
}

/// What one scrape job did.
#[derive(Debug, Clone, Copy, PartialEq, Eq)]
pub struct ScrapeStats {
    pub stores_total: usize,
    pub stores_succeeded: usize,
    pub stores_failed: usize,
    pub mods_upserted: usize,
}

/// How catalogs are fetched. Delays are in milliseconds, the refresh
/// interval in seconds.
#[derive(Debug, Clone, Copy, PartialEq, Eq)]
pub struct ScrapeConfig {
    pub page_limit: usize,
    pub max_pages: usize,
    pub page_delay_ms: u64,
    pub store_concurrency: usize,
    pub max_429_retries: usize,
    pub retry_base_delay_ms: u64,
    pub refresh_interval_secs: u64,
}

} // verus!

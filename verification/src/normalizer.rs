//! The mapping from one upstream product to one canonical record.

use vstd::prelude::*;
use crate::decimal::{
    is_decimal_text, lemma_signed_decimal_text_injective, push_signed_decimal,
    signed_decimal_text,
};
use crate::model::{
    ModView, NormalizedMod, ProductView, ShopifyImage, ShopifyProduct, ShopifyTags,
    ShopifyVariant, Store, StoreView, TagsView, optional_text,
};
use crate::search::is_nonempty;
use crate::text::{
    char_is_ascii_digit, chars_string, chars_strings, is_ascii_digit, lemma_filter_push,
    push_str_chars, str_chars, string_texts, strings_chars, texts,
};
use crate::words::{copy_range, split_chars, split_on, trim, trim_chars};

verus! {

pub open spec fn trimmed() -> spec_fn(Seq<char>) -> Seq<char> {
    |s: Seq<char>| trim(s)
}

/// Every tag trimmed, and the empty ones dropped; order is kept.
pub open spec fn clean_tags(raw: Seq<Seq<char>>) -> Seq<Seq<char>> {
    raw.map_values(trimmed()).filter(is_nonempty())
}

/// The tags of a product: a text is split at its commas, a list is taken as
/// it is; both are then cleaned.
pub open spec fn tags_of(t: TagsView) -> Seq<Seq<char>> {
    match t {
        TagsView::Text(raw) => clean_tags(split_on(raw, ',')),
        TagsView::List(values) => clean_tags(values),
    }
}

/// The price of the first variant whose price is a decimal text; "0.0" if
/// there is none.
pub open spec fn first_price(prices: Seq<Option<Seq<char>>>) -> Seq<char>
    decreases prices.len(),
{
    if prices.len() == 0 {
        "0.0"@
    } else {
        match prices.first() {
            Some(p) => if is_decimal_text(p) {
                p
            } else {
                first_price(prices.drop_first())
            },
            None => first_price(prices.drop_first()),
        }
    }
}

/// The text without the slashes at its end.
pub open spec fn without_trailing_slashes(s: Seq<char>) -> Seq<char>
    decreases s.len(),
{
    if s.len() > 0 && s.last() == '/' {
        without_trailing_slashes(s.drop_last())
    } else {
        s
    }
}

/// The id of a record: the store's id, a colon, the upstream product id.
pub open spec fn mod_id(store_id: Seq<char>, product_id: int) -> Seq<char> {
    store_id + seq![':'] + signed_decimal_text(product_id)
}

pub open spec fn product_url(base_url: Seq<char>, handle: Seq<char>) -> Seq<char> {
    without_trailing_slashes(base_url) + "/products/"@ + handle
}

pub open spec fn vendor_or_unknown(vendor: Option<Seq<char>>) -> Seq<char> {
    match vendor {
        Some(name) => name,
        None => "Unknown"@,
    }
}

/// The canonical record of a product of a store.
pub open spec fn normalized(p: ProductView, s: StoreView) -> ModView {
    ModView {
        id: mod_id(s.id, p.id as int),
        store_id: s.id,
        title: p.title,
        images: p.images,
        price: first_price(p.prices),
        vendor: vendor_or_unknown(p.vendor),
        product_type: p.product_type,
        tags: tags_of(p.tags),
        product_url: product_url(s.base_url, p.handle),
    }
}

/// Two upstream ids that give the same record id for a store are the same.
pub proof fn lemma_mod_id_injective(store_id: Seq<char>, a: int, b: int)
    requires
        mod_id(store_id, a) == mod_id(store_id, b),
    ensures
        a == b,
{
    let n = store_id.len() + 1;
    assert(mod_id(store_id, a).skip(n as int) =~= signed_decimal_text(a));
    assert(mod_id(store_id, b).skip(n as int) =~= signed_decimal_text(b));
    lemma_signed_decimal_text_injective(a, b);
}

/// A record's id names its store and its upstream product: where store ids
/// hold no colon, two records with the same id are of the same store and the
/// same upstream product.
pub proof fn lemma_mod_id_names_store_and_product(
    first_store: Seq<char>,
    first_product: int,
    second_store: Seq<char>,
    second_product: int,
)
    requires
        !first_store.contains(':'),
        !second_store.contains(':'),
        mod_id(first_store, first_product) == mod_id(second_store, second_product),
    ensures
        first_store == second_store,
        first_product == second_product,
{
    let first = mod_id(first_store, first_product);
    let second = mod_id(second_store, second_product);
    assert(first[first_store.len() as int] == ':');
    assert(second[second_store.len() as int] == ':');
    if first_store.len() < second_store.len() {
        assert(second[first_store.len() as int] == second_store[first_store.len() as int]);
        assert(second_store.contains(':'));
    }
    if second_store.len() < first_store.len() {
        assert(first[second_store.len() as int] == first_store[second_store.len() as int]);
        assert(first_store.contains(':'));
    }
    assert(first.take(first_store.len() as int) =~= first_store);
    assert(second.take(second_store.len() as int) =~= second_store);
    lemma_mod_id_injective(first_store, first_product, second_product);
}

fn clean_tag_chars(raw: &Vec<Vec<char>>) -> (out: Vec<Vec<char>>)
    ensures
        texts(out@) == clean_tags(texts(raw@)),
{
    let ghost all = texts(raw@);
    let mut out: Vec<Vec<char>> = Vec::new();
    let mut i: usize = 0;
    proof {
        reveal(Seq::filter);
        assert(all.take(0).map_values(trimmed()) =~= Seq::<Seq<char>>::empty());
        assert(texts(out@) =~= Seq::<Seq<char>>::empty());
    }
    while i < raw.len()
        invariant
            i <= raw.len(),
            all == texts(raw@),
            texts(out@) == clean_tags(all.take(i as int)),
        decreases raw.len() - i,
    {
        let tag = trim_chars(&raw[i]);
        proof {
            let done = all.take(i as int).map_values(trimmed());
            assert(all.take(i + 1).map_values(trimmed()) =~= done.push(tag@));
            lemma_filter_push(done, tag@, is_nonempty());
        }
        if tag.len() > 0 {
            let ghost before = out@;
            out.push(tag);
            assert(texts(out@) =~= texts(before).push(tag@));
        }
        i += 1;
    }
    assert(all.take(raw.len() as int) == all);
    out
}

pub fn normalize_tags(raw_tags: ShopifyTags) -> (out: Vec<String>)
    ensures
        string_texts(out@) == tags_of(raw_tags@),
{
    let raw: Vec<Vec<char>> = match raw_tags {
        ShopifyTags::Text(text) => {
            let chars = str_chars(text.as_str());
            split_chars(&chars, ',')
        },
        ShopifyTags::List(values) => strings_chars(values.as_slice()),
    };
    let cleaned = clean_tag_chars(&raw);
    chars_strings(&cleaned)
}

/// Whether a text is a price in decimal notation.
pub fn is_decimal_price(text: &str) -> (r: bool)
    ensures
        r == is_decimal_text(text@),
{
    let s = str_chars(text);
    let mut seen_digit = false;
    let mut seen_point = false;
    let ghost mut digit_at: int = 0;
    let ghost mut point_at: int = 0;
    let mut i: usize = 0;
    while i < s.len()
        invariant
            i <= s.len(),
            s@ == text@,
            forall|k: int| 0 <= k < i ==> is_ascii_digit(s@[k]) || s@[k] == '.',
            forall|a: int, b: int| 0 <= a < b < i ==> !(s@[a] == '.' && s@[b] == '.'),
            seen_digit ==> 0 <= digit_at < i && is_ascii_digit(s@[digit_at]),
            !seen_digit ==> forall|k: int| 0 <= k < i ==> !is_ascii_digit(s@[k]),
            seen_point ==> 0 <= point_at < i && s@[point_at] == '.',
            !seen_point ==> forall|k: int| 0 <= k < i ==> s@[k] != '.',
        decreases s.len() - i,
    {
        let c = s[i];
        if char_is_ascii_digit(c) {
            seen_digit = true;
            proof {
                digit_at = i as int;
            }
        } else if c == '.' {
            if seen_point {
                assert(s@[point_at] == '.' && s@[i as int] == '.');
                return false;
            }
            seen_point = true;
            proof {
                point_at = i as int;
            }
        } else {
            assert(!(is_ascii_digit(s@[i as int]) || s@[i as int] == '.'));
            return false;
        }
        i += 1;
    }
    seen_digit
}

pub fn extract_price(variants: &Vec<ShopifyVariant>) -> (out: String)
    ensures
        out@ == first_price(
            variants@.map_values(|variant: ShopifyVariant| optional_text(variant.price)),
        ),
{
    let ghost prices = variants@.map_values(|variant: ShopifyVariant| optional_text(variant.price));
    let mut i: usize = 0;
    assert(prices.skip(0) == prices);
    while i < variants.len()
        invariant
            i <= variants.len(),
            prices == variants@.map_values(|variant: ShopifyVariant| optional_text(variant.price)),
            first_price(prices) == first_price(prices.skip(i as int)),
        decreases variants.len() - i,
    {
        proof {
            assert(prices.skip(i as int).drop_first() == prices.skip(i + 1));
            assert(prices.skip(i as int).first() == optional_text(variants@[i as int].price));
        }
        match &variants[i].price {
            Some(text) => {
                if is_decimal_price(text.as_str()) {
                    return text.clone();
                }
            },
            None => {},
        }
        i += 1;
    }
    "0.0".to_owned()
}

/// The id of the record of an upstream product of a store.
pub fn build_mod_id(store_id: &str, product_id: i64) -> (out: String)
    ensures
        out@ == mod_id(store_id@, product_id as int),
{
    let mut chars = str_chars(store_id);
    chars.push(':');
    push_signed_decimal(&mut chars, product_id);
    chars_string(&chars)
}

/// The characters of a base URL without the slashes at its end.
pub fn strip_trailing_slashes(base_url: &str) -> (out: Vec<char>)
    ensures
        out@ == without_trailing_slashes(base_url@),
{
    let s = str_chars(base_url);
    let mut end: usize = s.len();
    assert(s@.subrange(0, end as int) == s@);
    while end > 0 && s[end - 1] == '/'
        invariant
            end <= s.len(),
            without_trailing_slashes(s@) == without_trailing_slashes(s@.subrange(0, end as int)),
        decreases end,
    {
        assert(s@.subrange(0, end as int).drop_last() == s@.subrange(0, end - 1));
        end -= 1;
    }
    copy_range(&s, 0, end)
}

pub fn build_product_url(base_url: &str, handle: &str) -> (out: String)
    ensures
        out@ == product_url(base_url@, handle@),
{
    let mut chars = strip_trailing_slashes(base_url);
    push_str_chars(&mut chars, "/products/");
    push_str_chars(&mut chars, handle);
    chars_string(&chars)
}

fn image_sources(images: &Vec<ShopifyImage>) -> (out: Vec<String>)
    ensures
        string_texts(out@) == images@.map_values(|image: ShopifyImage| image.src@),
{
    let mut out: Vec<String> = Vec::new();
    let mut i: usize = 0;
    while i < images.len()
        invariant
            i <= images.len(),
            out.len() == i,
            forall|k: int| 0 <= k < i ==> out@[k]@ == images@[k].src@,
        decreases images.len() - i,
    {
        out.push(images[i].src.clone());
        i += 1;
    }
    assert(string_texts(out@) =~= images@.map_values(|image: ShopifyImage| image.src@));
    out
}

pub fn normalize_product(product: ShopifyProduct, store: &Store) -> (out: NormalizedMod)
    ensures
        out@ == normalized(product@, store@),
{
    let images = image_sources(&product.images);
    let price = extract_price(&product.variants);
    let id = build_mod_id(store.id.as_str(), product.id);
    let product_url = build_product_url(store.base_url.as_str(), product.handle.as_str());
    let vendor = match product.vendor {
        Some(name) => name,
        None => "Unknown".to_owned(),
    };
    let tags = normalize_tags(product.tags);
    NormalizedMod {
        id,
        store_id: store.id.clone(),
        title: product.title,
        images,
        price,
        vendor,
        product_type: product.product_type,
        tags,
        product_url,
    }
}

} // verus!

use torque_mods::model::{
    NormalizedMod, ShopifyImage, ShopifyProduct, ShopifyTags, ShopifyVariant, Store,
};
use torque_mods::normalizer::{
    build_mod_id, build_product_url, extract_price, is_decimal_price, normalize_product,
    normalize_tags,
};

fn store(id: &str, base_url: &str) -> Store {
    Store {
        id: id.to_string(),
        name: "A Store".to_string(),
        base_url: base_url.to_string(),
        logo_url: None,
    }
}

fn variant(price: Option<&str>) -> ShopifyVariant {
    ShopifyVariant { price: price.map(|p| p.to_string()) }
}

fn strings(values: &[&str]) -> Vec<String> {
    values.iter().map(|v| v.to_string()).collect()
}

#[test]
fn tags_in_text_form_are_split_at_commas() {
    let tags = normalize_tags(ShopifyTags::Text("Exhaust, G35 ,,  Nissan 350Z ,".to_string()));
    assert_eq!(tags, strings(&["Exhaust", "G35", "Nissan 350Z"]));
}

#[test]
fn tags_in_list_form_are_trimmed_and_kept_in_order() {
    let tags = normalize_tags(ShopifyTags::List(strings(&[" b ", "", "a", "  ", "b", "x,y"])));
    assert_eq!(tags, strings(&["b", "a", "b", "x,y"]));
}

#[test]
fn tags_of_nothing_are_none() {
    assert!(normalize_tags(ShopifyTags::Text(String::new())).is_empty());
    assert!(normalize_tags(ShopifyTags::Text(" , ,".to_string())).is_empty());
    assert!(normalize_tags(ShopifyTags::List(vec![])).is_empty());
    assert!(normalize_tags(ShopifyTags::default()).is_empty());
}

#[test]
fn tags_are_trimmed_of_unicode_whitespace() {
    let tags = normalize_tags(ShopifyTags::Text("\u{a0}Turbo\u{3000},\t\n".to_string()));
    assert_eq!(tags, strings(&["Turbo"]));
}

#[test]
fn default_tags_are_an_empty_list() {
    assert_eq!(ShopifyTags::default(), ShopifyTags::List(vec![]));
}

#[test]
fn decimal_price_grammar() {
    for good in ["0", "12", "12.50", "12.", ".5", "007.10"] {
        assert!(is_decimal_price(good), "{good}");
    }
    for bad in ["", ".", "1.2.3", "-1", "+1", "1e5", " 1", "1,5", "abc", "12.5a", "NaN", "inf"] {
        assert!(!is_decimal_price(bad), "{bad}");
    }
}

#[test]
fn price_is_that_of_the_first_variant_with_a_decimal_price() {
    let variants =
        vec![variant(None), variant(Some("abc")), variant(Some("12.50")), variant(Some("3"))];
    assert_eq!(extract_price(&variants), "12.50");
    assert_eq!(extract_price(&vec![variant(Some("129.95"))]), "129.95");
}

#[test]
fn price_defaults_to_zero() {
    assert_eq!(extract_price(&vec![]), "0.0");
    assert_eq!(extract_price(&vec![variant(None), variant(Some("call us"))]), "0.0");
}

#[test]
fn record_id_joins_store_and_upstream_id() {
    assert_eq!(build_mod_id("xforce", 123), "xforce:123");
    assert_eq!(build_mod_id("xforce", 0), "xforce:0");
    assert_eq!(build_mod_id("hi-torqueperformance", 7654321098765), "hi-torqueperformance:7654321098765");
    assert_eq!(build_mod_id("s", -45), "s:-45");
    assert_eq!(build_mod_id("s", i64::MAX), "s:9223372036854775807");
    assert_eq!(build_mod_id("s", i64::MIN), "s:-9223372036854775808");
}

#[test]
fn product_url_strips_trailing_slashes() {
    assert_eq!(
        build_product_url("https://xforce.com.au", "cat-back"),
        "https://xforce.com.au/products/cat-back"
    );
    assert_eq!(
        build_product_url("https://xforce.com.au/", "cat-back"),
        "https://xforce.com.au/products/cat-back"
    );
    assert_eq!(build_product_url("https://x.au///", "h"), "https://x.au/products/h");
    assert_eq!(build_product_url("", "h"), "/products/h");
}

#[test]
fn product_is_normalized_field_by_field() {
    let product = ShopifyProduct {
        id: 42,
        title: "XForce Stage 2 Intake".to_string(),
        handle: "stage-2-intake".to_string(),
        vendor: Some("XForce".to_string()),
        product_type: "Air Intake".to_string(),
        tags: ShopifyTags::Text("G35, VQ35DE".to_string()),
        images: vec![
            ShopifyImage { src: "https://cdn/b.png".to_string() },
            ShopifyImage { src: "https://cdn/a.png".to_string() },
            ShopifyImage { src: "https://cdn/b.png".to_string() },
        ],
        variants: vec![variant(None), variant(Some("499.00"))],
    };
    let normalized = normalize_product(product, &store("xforce", "https://xforce.com.au/"));
    assert_eq!(
        normalized,
        NormalizedMod {
            id: "xforce:42".to_string(),
            store_id: "xforce".to_string(),
            title: "XForce Stage 2 Intake".to_string(),
            images: strings(&["https://cdn/b.png", "https://cdn/a.png", "https://cdn/b.png"]),
            price: "499.00".to_string(),
            vendor: "XForce".to_string(),
            product_type: "Air Intake".to_string(),
            tags: strings(&["G35", "VQ35DE"]),
            product_url: "https://xforce.com.au/products/stage-2-intake".to_string(),
        }
    );
}

#[test]
fn product_without_vendor_price_or_tags_gets_defaults() {
    let product = ShopifyProduct {
        id: 7,
        title: "Lip".to_string(),
        handle: "lip".to_string(),
        vendor: None,
        product_type: String::new(),
        tags: ShopifyTags::default(),
        images: vec![],
        variants: vec![],
    };
    let normalized = normalize_product(product, &store("justjap", "https://justjap.com"));
    assert_eq!(normalized.vendor, "Unknown");
    assert_eq!(normalized.price, "0.0");
    assert!(normalized.tags.is_empty());
    assert!(normalized.images.is_empty());
    assert_eq!(normalized.id, "justjap:7");
    assert_eq!(normalized.store_id, "justjap");
    assert_eq!(normalized.product_url, "https://justjap.com/products/lip");
}

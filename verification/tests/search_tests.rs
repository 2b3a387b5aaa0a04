use torque_mods::conditions::build_query_conditions;
use torque_mods::error::AppError;
use torque_mods::filters::{
    matches_engine_filter, matches_filters, matches_model_filter, matches_simple_value,
    require_filter, token_has_letters_and_digits,
};
use torque_mods::model::{ModsQuery, NormalizedMod};
use torque_mods::search::{
    build_search_compact, build_search_haystacks, build_search_text, normalize_match_text,
};

fn item(title: &str, vendor: &str, product_type: &str, tags: &[&str]) -> NormalizedMod {
    NormalizedMod {
        id: "xforce:1".to_string(),
        store_id: "xforce".to_string(),
        title: title.to_string(),
        images: vec![],
        price: "0.0".to_string(),
        vendor: vendor.to_string(),
        product_type: product_type.to_string(),
        tags: tags.iter().map(|t| t.to_string()).collect(),
        product_url: "https://xforce.com.au/products/x".to_string(),
    }
}

fn query(make: Option<&str>, model: Option<&str>, engine: Option<&str>) -> ModsQuery {
    ModsQuery {
        make: make.map(|s| s.to_string()),
        model: model.map(|s| s.to_string()),
        engine: engine.map(|s| s.to_string()),
    }
}

fn strings(values: &[&str]) -> Vec<String> {
    values.iter().map(|v| v.to_string()).collect()
}

#[test]
fn normalize_lowercases_and_collapses_runs() {
    assert_eq!(normalize_match_text("  XForce -- Stage_2  Intake!! "), "xforce stage 2 intake");
    assert_eq!(normalize_match_text("2JZ-GTE"), "2jz gte");
    assert_eq!(normalize_match_text("a\tb\nc"), "a b c");
}

#[test]
fn normalize_of_nothing_is_empty() {
    assert_eq!(normalize_match_text(""), "");
    assert_eq!(normalize_match_text(" -_- "), "");
}

#[test]
fn normalize_drops_characters_outside_ascii() {
    assert_eq!(normalize_match_text("Café Racer"), "caf racer");
    assert_eq!(normalize_match_text("日産 GT-R"), "gt r");
}

#[test]
fn normalize_is_idempotent_on_examples() {
    for raw in ["XForce Stage 2 Intake", "  a--b  ", "G35 Sedan", ""] {
        let once = normalize_match_text(raw);
        assert_eq!(normalize_match_text(&once), once);
    }
}

#[test]
fn haystacks_skip_empty_sources() {
    let it = item("XForce Stage 2 Intake", "", "Air Intake", &["G35", "--", "Nissan 350Z"]);
    assert_eq!(
        build_search_haystacks(&it),
        strings(&["xforce stage 2 intake", "air intake", "g35", "nissan 350z"])
    );
}

#[test]
fn search_text_joins_haystacks_with_spaces() {
    let it = item("XForce Stage 2 Intake", "XForce", "Air Intake", &["G35"]);
    assert_eq!(build_search_text(&it), "xforce stage 2 intake xforce air intake g35");
    assert_eq!(build_search_compact(&it), "xforcestage2intakexforceairintakeg35");
}

#[test]
fn search_text_of_blank_record_is_empty() {
    let it = item("", "", "", &[]);
    assert_eq!(build_search_text(&it), "");
    assert_eq!(build_search_compact(&it), "");
    assert!(build_search_haystacks(&it).is_empty());
}

#[test]
fn make_filter_matches_xforce_and_not_justjap() {
    let it = item("XForce Stage 2 Intake", "Unknown", "", &[]);
    assert!(matches_filters(&it, &query(Some("xforce"), None, None)));
    assert!(!matches_filters(&it, &query(Some("justjap"), None, None)));
    let haystacks = strings(&[&normalize_match_text("XForce Stage 2 Intake")]);
    assert!(matches_simple_value(&haystacks, "xforce"));
    assert!(!matches_simple_value(&haystacks, "justjap"));
}

#[test]
fn simple_match_accepts_a_word_that_differs_in_case_only() {
    let haystacks = strings(&["XFORCE intake"]);
    assert!(matches_simple_value(&haystacks, "xforce"));
    assert!(!matches_simple_value(&haystacks, "xforc"));
    assert!(matches_simple_value(&haystacks, "ORCE in"));
}

#[test]
fn simple_match_of_empty_filter_needs_a_haystack() {
    assert!(matches_simple_value(&strings(&["abc"]), ""));
    assert!(!matches_simple_value(&strings(&[]), ""));
    assert!(!matches_simple_value(&strings(&[]), "abc"));
}

#[test]
fn model_filter_matches_through_a_chassis_token() {
    let it = item("Coilover Kit", "Unknown", "", &["G35"]);
    assert!(!build_search_text(&it).contains("g35 sedan"));
    assert!(matches_filters(&it, &query(None, Some("g35 sedan"), None)));
    let haystacks = build_search_haystacks(&it);
    assert!(matches_model_filter(&haystacks, "g35 sedan"));
    assert!(!matches_model_filter(&haystacks, "g37 sedan"));
}

#[test]
fn model_filter_with_chassis_token_ignores_other_tokens() {
    let haystacks = strings(&["nissan skyline coupe"]);
    assert!(!matches_model_filter(&haystacks, "r34 skyline"));
    assert!(matches_model_filter(&strings(&["fits r34"]), "r34 skyline"));
}

#[test]
fn model_filter_matches_on_half_of_the_meaningful_tokens() {
    let with_mkiv = item("MKIV front lip", "Unknown", "", &[]);
    let with_neither = item("Front lip", "Unknown", "", &[]);
    let q = query(None, Some("supra mkiv"), None);
    assert!(matches_filters(&with_mkiv, &q));
    assert!(!matches_filters(&with_neither, &q));
    assert!(matches_model_filter(&strings(&["mkiv front lip"]), "supra mkiv"));
    assert!(!matches_model_filter(&strings(&["front lip"]), "supra mkiv"));
}

#[test]
fn model_filter_needs_two_of_three_meaningful_tokens() {
    let haystacks = strings(&["toyota exhaust"]);
    assert!(!matches_model_filter(&haystacks, "toyota supra turbo"));
    assert!(matches_model_filter(&strings(&["toyota turbo exhaust"]), "toyota supra turbo"));
}

#[test]
fn model_filter_skips_short_tokens_and_the_word_series() {
    let haystacks = strings(&["bmw series m"]);
    assert!(!matches_model_filter(&haystacks, "x series"));
    assert!(!matches_model_filter(&haystacks, "gt"));
    assert!(matches_model_filter(&haystacks, "series"));
    assert!(matches_model_filter(&strings(&["golf gti"]), "golf series"));
}

#[test]
fn engine_filter_matches_in_compact_form() {
    let it = item("Turbo manifold 2JZGTE", "Unknown", "", &[]);
    assert!(build_search_text(&it).contains("2jzgte"));
    assert!(matches_filters(&it, &query(None, None, Some("2JZ GTE"))));
    assert!(matches_engine_filter(&strings(&["turbo manifold 2jzgte"]), "2jz gte"));
    assert!(matches_engine_filter(&strings(&["turbo manifold 2 jz gte"]), "2jzgte"));
    assert!(!matches_engine_filter(&strings(&["turbo manifold 1jzgte"]), "2jz gte"));
}

#[test]
fn filters_are_combined_with_and() {
    let it = item("XForce exhaust", "XForce", "", &["G35", "VQ35DE"]);
    assert!(matches_filters(&it, &query(Some("xforce"), Some("g35"), Some("vq35 de"))));
    assert!(!matches_filters(&it, &query(Some("xforce"), Some("g37"), Some("vq35 de"))));
    assert!(!matches_filters(&it, &query(Some("hks"), Some("g35"), None)));
}

#[test]
fn filter_that_normalizes_to_nothing_is_ignored() {
    let it = item("XForce exhaust", "XForce", "", &[]);
    assert!(matches_filters(&it, &query(Some(" -- "), None, None)));
    assert!(matches_filters(&it, &query(None, None, None)));
}

#[test]
fn token_with_letters_and_digits_is_a_chassis_token() {
    assert!(token_has_letters_and_digits("g35"));
    assert!(token_has_letters_and_digits("2JZ"));
    assert!(!token_has_letters_and_digits("supra"));
    assert!(!token_has_letters_and_digits("350"));
    assert!(!token_has_letters_and_digits(""));
    assert!(!token_has_letters_and_digits("é3"));
}

#[test]
fn query_without_filter_is_refused() {
    assert_eq!(
        require_filter(&query(None, None, None)),
        Err(AppError::BadRequest(
            "At least one filter must be provided: make, model, or engine".to_string()
        ))
    );
    assert_eq!(require_filter(&query(Some(""), None, None)), Ok(()));
    assert_eq!(require_filter(&query(None, None, Some("2jz"))), Ok(()));
}

#[test]
fn conditions_accept_what_the_filters_match() {
    let items = [
        item("XForce Stage 2 Intake", "XForce", "Air Intake", &["G35", "VQ35DE"]),
        item("MKIV front lip", "Unknown", "", &["supra"]),
        item("Turbo manifold 2JZGTE", "JustJap", "", &[]),
        item("Red", "Car", "", &[]),
        item("", "", "", &[]),
    ];
    let queries = [
        query(Some("xforce"), None, None),
        query(Some("red car"), None, None),
        query(None, Some("g35 sedan"), None),
        query(None, Some("supra mkiv"), None),
        query(None, Some("gt"), None),
        query(None, Some("series"), None),
        query(None, None, Some("2JZ GTE")),
        query(None, None, Some("vq 35 de")),
        query(Some("justjap"), Some("manifold turbo kit"), Some("2jz")),
        query(Some("--"), None, None),
    ];
    for it in items.iter() {
        let text = build_search_text(it);
        let compact = build_search_compact(it);
        for q in queries.iter() {
            let conditions = build_query_conditions(q);
            assert_eq!(matches_filters(it, q), conditions.accepts(&text, &compact));
        }
    }
}

#[test]
fn match_may_span_two_fields_of_a_record() {
    let it = item("Red", "Car", "", &[]);
    assert!(matches_filters(&it, &query(Some("red car"), None, None)));
    assert!(build_query_conditions(&query(Some("red car"), None, None)).accepts("red car", "redcar"));
}

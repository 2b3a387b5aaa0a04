use torque_mods::conditions::{build_query_conditions, Clause, Column, Conditions, Like};
use torque_mods::model::ModsQuery;
use torque_mods::sql::{build_mods_query, render_mods_query, BindValue};

const HEAD: &str = "SELECT id, store_id, title, images, price, vendor, product_type, tags, product_url FROM normalized_mods WHERE 1=1";
const TAIL: &str = " ORDER BY updated_at DESC";

fn query(make: Option<&str>, model: Option<&str>, engine: Option<&str>) -> ModsQuery {
    ModsQuery {
        make: make.map(|s| s.to_string()),
        model: model.map(|s| s.to_string()),
        engine: engine.map(|s| s.to_string()),
    }
}

fn text(value: &str) -> BindValue {
    BindValue::Text(value.to_string())
}

fn in_text(needle: &str) -> Like {
    Like { column: Column::SearchText, needle: needle.to_string() }
}

#[test]
fn query_without_active_filter_selects_everything() {
    let rendered = build_mods_query(&query(None, None, None)).unwrap();
    assert_eq!(rendered.sql, format!("{HEAD}{TAIL}"));
    assert!(rendered.args.is_empty());
}

#[test]
fn make_filter_renders_one_like() {
    let rendered = build_mods_query(&query(Some("XForce"), None, None)).unwrap();
    assert_eq!(rendered.sql, format!("{HEAD} AND search_text LIKE $1{TAIL}"));
    assert_eq!(rendered.args, vec![text("%xforce%")]);
}

#[test]
fn model_filter_with_chassis_tokens_renders_alternatives() {
    let rendered = build_mods_query(&query(None, Some("G35 sedan V36"), None)).unwrap();
    assert_eq!(
        rendered.sql,
        format!(
            "{HEAD} AND (search_text LIKE $1 OR search_text LIKE $2 OR search_text LIKE $3){TAIL}"
        )
    );
    assert_eq!(rendered.args, vec![text("%g35 sedan v36%"), text("%g35%"), text("%v36%")]);
}

#[test]
fn model_filter_without_chassis_tokens_renders_a_majority_count() {
    let rendered = build_mods_query(&query(None, Some("Toyota Supra Turbo"), None)).unwrap();
    assert_eq!(
        rendered.sql,
        format!(
            "{HEAD} AND (search_text LIKE $1 OR (CASE WHEN search_text LIKE $2 THEN 1 ELSE 0 END + CASE WHEN search_text LIKE $3 THEN 1 ELSE 0 END + CASE WHEN search_text LIKE $4 THEN 1 ELSE 0 END) >= $5){TAIL}"
        )
    );
    assert_eq!(
        rendered.args,
        vec![
            text("%toyota supra turbo%"),
            text("%toyota%"),
            text("%supra%"),
            text("%turbo%"),
            BindValue::Int(2),
        ]
    );
}

#[test]
fn model_filter_threshold_is_half_rounded_up() {
    for (filter, expected) in [("supra", 1), ("supra mkiv", 1), ("aaa bbb ccc ddd eee", 3)] {
        let conditions = build_query_conditions(&query(None, Some(filter), None));
        match &conditions.clauses[0] {
            Clause::FullOrAtLeast { threshold, .. } => assert_eq!(*threshold, expected),
            other => panic!("unexpected clause {:?}", other),
        }
    }
}

#[test]
fn model_filter_without_meaningful_tokens_keeps_the_whole_filter() {
    let conditions = build_query_conditions(&query(None, Some("GT series"), None));
    assert_eq!(conditions.clauses, vec![Clause::AnyOf(vec![in_text("gt series")])]);
    let rendered = render_mods_query(&conditions).unwrap();
    assert_eq!(rendered.sql, format!("{HEAD} AND (search_text LIKE $1){TAIL}"));
    assert_eq!(rendered.args, vec![text("%gt series%")]);
}

#[test]
fn engine_filter_renders_text_and_compact_likes() {
    let rendered = build_mods_query(&query(None, None, Some("2JZ GTE"))).unwrap();
    assert_eq!(
        rendered.sql,
        format!("{HEAD} AND (search_text LIKE $1 OR search_compact LIKE $2){TAIL}")
    );
    assert_eq!(rendered.args, vec![text("%2jz gte%"), text("%2jzgte%")]);
}

#[test]
fn placeholders_are_numbered_across_filters() {
    let rendered =
        build_mods_query(&query(Some("XForce"), Some("supra mkiv"), Some("2JZ"))).unwrap();
    assert_eq!(
        rendered.sql,
        format!(
            "{HEAD} AND search_text LIKE $1 AND (search_text LIKE $2 OR (CASE WHEN search_text LIKE $3 THEN 1 ELSE 0 END + CASE WHEN search_text LIKE $4 THEN 1 ELSE 0 END) >= $5) AND (search_text LIKE $6 OR search_compact LIKE $7){TAIL}"
        )
    );
    assert_eq!(
        rendered.args,
        vec![
            text("%xforce%"),
            text("%supra mkiv%"),
            text("%supra%"),
            text("%mkiv%"),
            BindValue::Int(1),
            text("%2jz%"),
            text("%2jz%"),
        ]
    );
}

#[test]
fn placeholders_go_beyond_nine() {
    let likes: Vec<Like> = (0..11).map(|i| in_text(&format!("t{i}"))).collect();
    let rendered = render_mods_query(&Conditions { clauses: vec![Clause::AnyOf(likes)] }).unwrap();
    assert!(rendered.sql.contains("search_text LIKE $9 OR search_text LIKE $10 OR search_text LIKE $11)"));
    assert_eq!(rendered.args.len(), 11);
    assert_eq!(rendered.args[10], text("%t10%"));
}

#[test]
fn empty_alternatives_render_empty_brackets() {
    let rendered = render_mods_query(&Conditions { clauses: vec![Clause::AnyOf(vec![])] }).unwrap();
    assert_eq!(rendered.sql, format!("{HEAD} AND (){TAIL}"));
}

#[test]
fn ignored_filter_renders_no_clause() {
    let rendered = build_mods_query(&query(Some(" -- "), None, Some("2jz"))).unwrap();
    assert_eq!(
        rendered.sql,
        format!("{HEAD} AND (search_text LIKE $1 OR search_compact LIKE $2){TAIL}")
    );
}

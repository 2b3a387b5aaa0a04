use std::collections::BTreeMap;

use torque_mods::error::AppError;
use torque_mods::model::NormalizedMod;
use torque_mods::persistence::{
    build_row, found_or_missing, matches_lookup, plan_store_write, ModRow, PruneRule, StoreWrite,
    UPSERT_CHUNK_SIZE,
};

fn record(store_id: &str, upstream: u64, title: &str) -> NormalizedMod {
    NormalizedMod {
        id: format!("{store_id}:{upstream}"),
        store_id: store_id.to_string(),
        title: title.to_string(),
        images: vec![],
        price: "10.00".to_string(),
        vendor: "Unknown".to_string(),
        product_type: String::new(),
        tags: vec!["G35".to_string()],
        product_url: format!("https://{store_id}/products/{upstream}"),
    }
}

fn batch(store_id: &str, count: u64) -> Vec<NormalizedMod> {
    (1..=count).map(|n| record(store_id, n, &format!("Part {n}"))).collect()
}

/// A table as the storage keeps it: rows by id, each with the timestamp of
/// the transaction that last wrote it.
type Table = BTreeMap<String, (ModRow, u64)>;

/// Carries out a planned write on the table, as one transaction at `now`.
fn apply(table: &mut Table, store_id: &str, write: StoreWrite, now: u64) {
    for chunk in write.chunks {
        for row in chunk {
            table.insert(row.record.id.clone(), (row, now));
        }
    }
    table.retain(|_, (row, updated_at)| {
        row.record.store_id != store_id
            || match write.prune {
                PruneRule::EveryRow => false,
                PruneRule::UntouchedRows => *updated_at >= now,
            }
    });
}

fn rows_of<'a>(table: &'a Table, store_id: &str) -> Vec<&'a (ModRow, u64)> {
    table.values().filter(|(row, _)| row.record.store_id == store_id).collect()
}

#[test]
fn row_carries_the_derived_search_fields() {
    let row = build_row(&record("xforce", 1, "XForce Cat-Back"));
    assert_eq!(row.record, record("xforce", 1, "XForce Cat-Back"));
    assert_eq!(row.search_text, "xforce cat back unknown g35");
    assert_eq!(row.search_compact, "xforcecatbackunknowng35");
}

#[test]
fn empty_batch_prunes_every_row() {
    let write = plan_store_write(&vec![]);
    assert!(write.chunks.is_empty());
    assert_eq!(write.prune, PruneRule::EveryRow);
}

#[test]
fn batch_is_written_in_chunks_in_order() {
    let mods = batch("xforce", 801);
    let write = plan_store_write(&mods);
    assert_eq!(write.prune, PruneRule::UntouchedRows);
    let sizes: Vec<usize> = write.chunks.iter().map(|c| c.len()).collect();
    assert_eq!(sizes, vec![UPSERT_CHUNK_SIZE, UPSERT_CHUNK_SIZE, 1]);
    let written: Vec<&NormalizedMod> =
        write.chunks.iter().flat_map(|c| c.iter().map(|r| &r.record)).collect();
    assert_eq!(written, mods.iter().collect::<Vec<_>>());
}

#[test]
fn batch_of_exactly_one_chunk_has_no_empty_chunk() {
    let sizes = |n: u64| -> Vec<usize> {
        plan_store_write(&batch("s", n)).chunks.iter().map(|c| c.len()).collect()
    };
    assert_eq!(sizes(1), vec![1]);
    assert_eq!(sizes(399), vec![399]);
    assert_eq!(sizes(400), vec![400]);
    assert_eq!(sizes(401), vec![400, 1]);
    assert_eq!(sizes(800), vec![400, 400]);
}

#[test]
fn record_that_disappears_is_pruned() {
    let mut table = Table::new();
    let first = batch("xforce", 5);
    apply(&mut table, "xforce", plan_store_write(&first), 100);
    assert_eq!(rows_of(&table, "xforce").len(), 5);
    let mut second = first.clone();
    second.remove(2);
    apply(&mut table, "xforce", plan_store_write(&second), 200);
    let left = rows_of(&table, "xforce");
    assert_eq!(left.len(), 4);
    assert!(left.iter().all(|(row, _)| row.record.id != "xforce:3"));
}

#[test]
fn last_record_that_disappears_is_pruned() {
    let mut table = Table::new();
    let first = batch("xforce", 1);
    apply(&mut table, "xforce", plan_store_write(&first), 100);
    apply(&mut table, "xforce", plan_store_write(&vec![]), 200);
    assert!(rows_of(&table, "xforce").is_empty());
}

#[test]
fn empty_batch_removes_the_rows_of_its_store_only() {
    let mut table = Table::new();
    apply(&mut table, "xforce", plan_store_write(&batch("xforce", 3)), 100);
    apply(&mut table, "justjap", plan_store_write(&batch("justjap", 2)), 110);
    apply(&mut table, "xforce", plan_store_write(&vec![]), 200);
    assert!(rows_of(&table, "xforce").is_empty());
    assert_eq!(rows_of(&table, "justjap").len(), 2);
}

#[test]
fn same_batch_twice_keeps_rows_and_refreshes_them() {
    let mut table = Table::new();
    let mods = batch("xforce", 4);
    apply(&mut table, "xforce", plan_store_write(&mods), 100);
    let before: Vec<ModRow> =
        rows_of(&table, "xforce").into_iter().map(|(row, _)| build_row(&row.record)).collect();
    apply(&mut table, "xforce", plan_store_write(&mods), 200);
    let after = rows_of(&table, "xforce");
    assert_eq!(after.len(), 4);
    for ((row, updated_at), old) in after.iter().zip(before.iter()) {
        assert_eq!(row, old);
        assert_eq!(*updated_at, 200);
    }
}

#[test]
fn changed_record_is_overwritten_in_place() {
    let mut table = Table::new();
    apply(&mut table, "xforce", plan_store_write(&batch("xforce", 2)), 100);
    let changed = vec![record("xforce", 1, "Renamed Part"), record("xforce", 2, "Part 2")];
    apply(&mut table, "xforce", plan_store_write(&changed), 200);
    let rows = rows_of(&table, "xforce");
    assert_eq!(rows.len(), 2);
    assert_eq!(rows[0].0.record.title, "Renamed Part");
    assert_eq!(rows[0].0.search_text, "renamed part unknown g35");
}

#[test]
fn lookup_finds_by_whole_id_or_upstream_id() {
    assert!(matches_lookup("xforce:123", "xforce:123"));
    assert!(matches_lookup("xforce:123", "123"));
    assert!(!matches_lookup("xforce:123", "xforce"));
    assert!(!matches_lookup("xforce:123", "12"));
    assert!(!matches_lookup("xforce:123", ""));
    assert!(matches_lookup("a:b:c", "b"));
    assert!(!matches_lookup("a:b:c", "b:c"));
    assert!(matches_lookup("nocolon", ""));
    assert!(matches_lookup("nocolon", "nocolon"));
}

#[test]
fn lookup_without_a_record_is_not_found() {
    assert_eq!(found_or_missing(None), Err(AppError::NotFound));
    let item = record("xforce", 1, "Part");
    assert_eq!(found_or_missing(Some(item.clone())), Ok(item));
}

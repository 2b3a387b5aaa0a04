//! Replacing one store's persisted records by its current batch: the rows to
//! write, how they are chunked, which rows are pruned, and what the storage
//! holds afterwards.

use vstd::prelude::*;
use crate::error::AppError;
use crate::model::{ModView, NormalizedMod, mod_views};
use crate::paginator::distinct_ids;
use crate::search::{search_compact, search_haystack_chars, search_text};
use crate::text::{chars_equal, chars_string, str_chars, texts};
use crate::words::{join_chars, split_chars, split_on, strip_whitespace};

verus! {

/// The most rows that one statement writes.
pub const UPSERT_CHUNK_SIZE: usize = 400;

/// A record with its derived search fields, as it is written.
#[derive(Debug, PartialEq, Eq)]
pub struct ModRow {
    pub record: NormalizedMod,
    pub search_text: String,
    pub search_compact: String,
}

pub struct RowView {
    pub record: ModView,
    pub search_text: Seq<char>,
    pub search_compact: Seq<char>,
}

impl View for ModRow {
    type V = RowView;

    open spec fn view(&self) -> RowView {
        RowView {
            record: self.record@,
            search_text: self.search_text@,
            search_compact: self.search_compact@,
        }
    }
}

/// The row of a record: its search fields are derived from its content.
pub open spec fn row_of(m: ModView) -> RowView {
    RowView { record: m, search_text: search_text(m), search_compact: search_compact(m) }
}

pub open spec fn rows_of(mods: Seq<ModView>) -> Seq<RowView> {
    mods.map_values(|m: ModView| row_of(m))
}

/// Which of a store's rows are deleted once its batch is written.
#[derive(Debug, Clone, Copy, PartialEq, Eq)]
pub enum PruneRule {
    /// Every row of the store.
    EveryRow,
    /// The rows of the store that this transaction did not write: those
    /// whose freshness timestamp is earlier than the transaction's.
    UntouchedRows,
}

/// What one transaction does for a store: it writes the chunks in order,
/// every row with the transaction's timestamp, then prunes.
pub struct StoreWrite {
    pub chunks: Vec<Vec<ModRow>>,
    pub prune: PruneRule,
}

pub struct StoreWriteView {
    pub chunks: Seq<Seq<RowView>>,
    pub prune: PruneRule,
}

pub open spec fn row_views(rows: Seq<ModRow>) -> Seq<RowView> {
    rows.map_values(|r: ModRow| r@)
}

pub open spec fn chunk_views(chunks: Seq<Vec<ModRow>>) -> Seq<Seq<RowView>> {
    chunks.map_values(|c: Vec<ModRow>| row_views(c@))
}

impl View for StoreWrite {
    type V = StoreWriteView;

    open spec fn view(&self) -> StoreWriteView {
        StoreWriteView { chunks: chunk_views(self.chunks@), prune: self.prune }
    }
}

/// The rows in consecutive pieces of `size`, the last one shorter where the
/// rows do not divide evenly; no piece for no rows.
pub open spec fn chunked(rows: Seq<RowView>, size: nat) -> Seq<Seq<RowView>>
    decreases rows.len(),
{
    if rows.len() == 0 || size == 0 {
        Seq::empty()
    } else if rows.len() <= size {
        seq![rows]
    } else {
        seq![rows.take(size as int)] + chunked(rows.skip(size as int), size)
    }
}

/// The write of a batch: its rows in chunks; an empty batch prunes every row
/// of the store, any other the rows that it did not touch.
pub open spec fn store_write_of(mods: Seq<ModView>) -> StoreWriteView {
    StoreWriteView {
        chunks: chunked(rows_of(mods), UPSERT_CHUNK_SIZE as nat),
        prune: if mods.len() == 0 {
            PruneRule::EveryRow
        } else {
            PruneRule::UntouchedRows
        },
    }
}

pub fn build_row(item: &NormalizedMod) -> (row: ModRow)
    ensures
        row@ == row_of(item@),
{
    let haystacks = search_haystack_chars(item);
    let text = join_chars(&haystacks);
    let compact = strip_whitespace(&text);
    ModRow {
        record: item.clone(),
        search_text: chars_string(&text),
        search_compact: chars_string(&compact),
    }
}

/// Plans the transaction that makes the store's persisted records those of
/// `mods`.
pub fn plan_store_write(mods: &Vec<NormalizedMod>) -> (write: StoreWrite)
    ensures
        write@ == store_write_of(mod_views(mods@)),
{
    let ghost all = rows_of(mod_views(mods@));
    let mut chunks: Vec<Vec<ModRow>> = Vec::new();
    let mut i: usize = 0;
    proof {
        assert(all.skip(0) == all);
        assert(chunk_views(chunks@) =~= Seq::<Seq<RowView>>::empty());
    }
    while i < mods.len()
        invariant
            i <= mods.len(),
            all == rows_of(mod_views(mods@)),
            chunked(all, UPSERT_CHUNK_SIZE as nat) == chunk_views(chunks@) + chunked(
                all.skip(i as int),
                UPSERT_CHUNK_SIZE as nat,
            ),
        decreases mods.len() - i,
    {
        let end: usize = if mods.len() - i <= UPSERT_CHUNK_SIZE {
            mods.len()
        } else {
            i + UPSERT_CHUNK_SIZE
        };
        let mut chunk: Vec<ModRow> = Vec::new();
        let mut j: usize = i;
        while j < end
            invariant
                i <= j <= end,
                end <= mods.len(),
                all == rows_of(mod_views(mods@)),
                row_views(chunk@) == all.subrange(i as int, j as int),
            decreases end - j,
        {
            let row = build_row(&mods[j]);
            let ghost before = chunk@;
            chunk.push(row);
            proof {
                assert(all[j as int] == row_of(mods@[j as int]@));
                assert(row_views(chunk@) =~= row_views(before).push(row@));
                assert(row_views(chunk@) =~= all.subrange(i as int, j + 1));
            }
            j += 1;
        }
        let ghost before = chunks@;
        chunks.push(chunk);
        proof {
            let rest = all.skip(i as int);
            assert(chunk_views(chunks@) =~= chunk_views(before).push(all.subrange(i as int, end as int)));
            if end == mods.len() {
                assert(rest =~= all.subrange(i as int, end as int));
                assert(all.skip(end as int) =~= Seq::<RowView>::empty());
                assert(chunked(rest, UPSERT_CHUNK_SIZE as nat) =~= seq![rest] + chunked(
                    all.skip(end as int),
                    UPSERT_CHUNK_SIZE as nat,
                ));
            } else {
                assert(rest.take(UPSERT_CHUNK_SIZE as int) =~= all.subrange(i as int, end as int));
                assert(rest.skip(UPSERT_CHUNK_SIZE as int) =~= all.skip(end as int));
            }
            assert(chunked(all, UPSERT_CHUNK_SIZE as nat) =~= chunk_views(chunks@) + chunked(
                all.skip(end as int),
                UPSERT_CHUNK_SIZE as nat,
            ));
        }
        i = end;
    }
    proof {
        assert(chunked(all, UPSERT_CHUNK_SIZE as nat) =~= chunk_views(chunks@));
    }
    let prune = if mods.len() == 0 {
        PruneRule::EveryRow
    } else {
        PruneRule::UntouchedRows
    };
    StoreWrite { chunks, prune }
}

/// A persisted row: what was written, and the timestamp of the transaction
/// that last wrote it.
pub struct StoredRow {
    pub row: RowView,
    pub updated_at: int,
}

/// The table after `rows` are written at `now`, in order: a row takes the
/// place of the one with its id, or is added.
pub open spec fn upsert_rows(
    table: Map<Seq<char>, StoredRow>,
    rows: Seq<RowView>,
    now: int,
) -> Map<Seq<char>, StoredRow>
    decreases rows.len(),
{
    if rows.len() == 0 {
        table
    } else {
        upsert_rows(table, rows.drop_last(), now).insert(
            rows.last().record.id,
            StoredRow { row: rows.last(), updated_at: now },
        )
    }
}

/// Whether the prune at `now` deletes a row.
pub open spec fn is_pruned(stored: StoredRow, store_id: Seq<char>, rule: PruneRule, now: int) -> bool {
    stored.row.record.store_id == store_id && (rule is EveryRow || stored.updated_at < now)
}

/// The table after the prune.
pub open spec fn prune_rows(
    table: Map<Seq<char>, StoredRow>,
    store_id: Seq<char>,
    rule: PruneRule,
    now: int,
) -> Map<Seq<char>, StoredRow> {
    Map::new(
        |id: Seq<char>| table.dom().contains(id) && !is_pruned(table[id], store_id, rule, now),
        |id: Seq<char>| table[id],
    )
}

/// The table after a transaction at `now` has carried out `write` for the
/// store.
pub open spec fn apply_store_write(
    table: Map<Seq<char>, StoredRow>,
    store_id: Seq<char>,
    write: StoreWriteView,
    now: int,
) -> Map<Seq<char>, StoredRow> {
    prune_rows(upsert_rows(table, write.chunks.flatten(), now), store_id, write.prune, now)
}

/// The table after the batch `mods` of the store is persisted at `now`.
pub open spec fn persisted(
    table: Map<Seq<char>, StoredRow>,
    store_id: Seq<char>,
    mods: Seq<ModView>,
    now: int,
) -> Map<Seq<char>, StoredRow> {
    apply_store_write(table, store_id, store_write_of(mods), now)
}

/// The ids of the rows that the table holds for a store.
pub open spec fn store_row_ids(table: Map<Seq<char>, StoredRow>, store_id: Seq<char>) -> Set<
    Seq<char>,
> {
    Set::new(|id: Seq<char>| table.dom().contains(id) && table[id].row.record.store_id == store_id)
}

pub open spec fn mod_ids(mods: Seq<ModView>) -> Seq<Seq<char>> {
    mods.map_values(|m: ModView| m.id)
}

/// Every record of the batch belongs to the store.
pub open spec fn batch_of_store(mods: Seq<ModView>, store_id: Seq<char>) -> bool {
    forall|i: int| 0 <= i < mods.len() ==> (#[trigger] mods[i]).store_id == store_id
}

/// Every row of the table was written before `now`.
pub open spec fn written_before(table: Map<Seq<char>, StoredRow>, now: int) -> bool {
    forall|id: Seq<char>| table.dom().contains(id) ==> (#[trigger] table[id]).updated_at < now
}

/// The table holds for `id` after what it held before.
pub open spec fn untouched(
    before: Map<Seq<char>, StoredRow>,
    after: Map<Seq<char>, StoredRow>,
    id: Seq<char>,
) -> bool {
    &&& after.dom().contains(id) == before.dom().contains(id)
    &&& before.dom().contains(id) ==> after[id] == before[id]
}

proof fn lemma_chunks_flatten(rows: Seq<RowView>, size: nat)
    requires
        size > 0,
    ensures
        chunked(rows, size).flatten() == rows,
    decreases rows.len(),
{
    if rows.len() == 0 {
    } else if rows.len() <= size {
        let one = seq![rows];
        assert(one.drop_first() =~= Seq::<Seq<RowView>>::empty());
        assert(one.drop_first().flatten() =~= Seq::<RowView>::empty());
        assert(one.flatten() =~= rows);
    } else {
        let head = rows.take(size as int);
        let tail = chunked(rows.skip(size as int), size);
        lemma_chunks_flatten(rows.skip(size as int), size);
        let whole = seq![head] + tail;
        assert(whole.first() == head);
        assert(whole.drop_first() =~= tail);
        assert(whole.flatten() =~= head + tail.flatten());
        assert(head + rows.skip(size as int) =~= rows);
    }
}

/// What the table holds once the rows of distinct records are written.
proof fn lemma_upsert_rows(table: Map<Seq<char>, StoredRow>, mods: Seq<ModView>, now: int)
    requires
        distinct_ids(mods),
    ensures
        forall|i: int|
            0 <= i < mods.len() ==> {
                &&& upsert_rows(table, rows_of(mods), now).dom().contains(#[trigger] mods[i].id)
                &&& upsert_rows(table, rows_of(mods), now)[mods[i].id] == StoredRow {
                    row: row_of(mods[i]),
                    updated_at: now,
                }
            },
        forall|id: Seq<char>|
            !mod_ids(mods).contains(id) ==> #[trigger] untouched(
                table,
                upsert_rows(table, rows_of(mods), now),
                id,
            ),
    decreases mods.len(),
{
    if mods.len() > 0 {
        let init = mods.drop_last();
        lemma_upsert_rows(table, init, now);
        assert(rows_of(mods).drop_last() =~= rows_of(init));
        assert(rows_of(mods).last() == row_of(mods.last()));
        assert forall|i: int| 0 <= i < mods.len() - 1 implies mods[i].id != mods.last().id by {
            assert(mods[i].id != mods[mods.len() - 1].id);
        }
        assert forall|id: Seq<char>| !mod_ids(mods).contains(id) implies !mod_ids(init).contains(
            id,
        ) && id != mods.last().id by {
            if mod_ids(init).contains(id) {
                let k = choose|k: int| 0 <= k < init.len() && mod_ids(init)[k] == id;
                assert(mod_ids(mods)[k] == id);
            }
            if id == mods.last().id {
                assert(mod_ids(mods)[mods.len() - 1] == id);
            }
        }
        assert forall|i: int| 0 <= i < mods.len() implies {
            &&& upsert_rows(table, rows_of(mods), now).dom().contains(#[trigger] mods[i].id)
            &&& upsert_rows(table, rows_of(mods), now)[mods[i].id] == StoredRow {
                row: row_of(mods[i]),
                updated_at: now,
            }
        } by {
            if i < mods.len() - 1 {
                assert(init[i] == mods[i]);
            }
        }
        assert forall|id: Seq<char>| !mod_ids(mods).contains(id) implies #[trigger] untouched(
            table,
            upsert_rows(table, rows_of(mods), now),
            id,
        ) by {
            assert(!mod_ids(init).contains(id) && id != mods.last().id);
            assert(untouched(table, upsert_rows(table, rows_of(init), now), id));
        }
    } else {
        assert(rows_of(mods).len() == 0);
    }
}

/// After a batch of distinct records of a store is persisted at a time later
/// than every earlier write, the store's rows are exactly the batch's: one
/// row per record, with the record's content, its derived search fields and
/// the transaction's timestamp.
pub proof fn lemma_store_reflects_batch(
    table: Map<Seq<char>, StoredRow>,
    store_id: Seq<char>,
    mods: Seq<ModView>,
    now: int,
)
    requires
        distinct_ids(mods),
        batch_of_store(mods, store_id),
        written_before(table, now),
    ensures
        store_row_ids(persisted(table, store_id, mods, now), store_id) == mod_ids(mods).to_set(),
        store_row_ids(persisted(table, store_id, mods, now), store_id).len() == mods.len(),
        forall|i: int|
            0 <= i < mods.len() ==> persisted(table, store_id, mods, now)[#[trigger] mods[i].id]
                == (StoredRow { row: row_of(mods[i]), updated_at: now }),
        forall|id: Seq<char>|
            persisted(table, store_id, mods, now).dom().contains(id) ==> (#[trigger] persisted(
                table,
                store_id,
                mods,
                now,
            )[id]).updated_at <= now,
{
    let write = store_write_of(mods);
    let written = upsert_rows(table, rows_of(mods), now);
    let after = persisted(table, store_id, mods, now);
    lemma_chunks_flatten(rows_of(mods), UPSERT_CHUNK_SIZE as nat);
    lemma_upsert_rows(table, mods, now);
    assert(after == prune_rows(written, store_id, write.prune, now));
    assert forall|id: Seq<char>| store_row_ids(after, store_id).contains(id) == mod_ids(
        mods,
    ).to_set().contains(id) by {
        if mod_ids(mods).contains(id) {
            let k = choose|k: int| 0 <= k < mods.len() && mod_ids(mods)[k] == id;
            assert(mods[k].id == id);
            assert(written[id] == StoredRow { row: row_of(mods[k]), updated_at: now });
        } else {
            assert(untouched(table, written, id));
        }
    }
    assert(store_row_ids(after, store_id) =~= mod_ids(mods).to_set());
    assert(mod_ids(mods).no_duplicates()) by {
        assert forall|i: int, j: int|
            0 <= i < mods.len() && 0 <= j < mods.len() && i != j implies mod_ids(mods)[i]
            != mod_ids(mods)[j] by {
            assert(mods[i].id != mods[j].id);
        }
    }
    mod_ids(mods).unique_seq_to_set();
    assert forall|id: Seq<char>| after.dom().contains(id) implies (#[trigger] after[id]).updated_at
        <= now by {
        if mod_ids(mods).contains(id) {
            let k = choose|k: int| 0 <= k < mods.len() && mod_ids(mods)[k] == id;
            assert(mods[k].id == id);
        } else {
            assert(untouched(table, written, id));
        }
    }
}

/// Persisting an empty batch for a store leaves no row of that store,
/// whatever the table held.
pub proof fn lemma_empty_batch_removes_store(
    table: Map<Seq<char>, StoredRow>,
    store_id: Seq<char>,
    now: int,
)
    ensures
        store_row_ids(persisted(table, store_id, Seq::empty(), now), store_id) == Set::<
            Seq<char>,
        >::empty(),
        forall|id: Seq<char>|
            table.dom().contains(id) && table[id].row.record.store_id != store_id ==> persisted(
                table,
                store_id,
                Seq::empty(),
                now,
            ).dom().contains(id) && #[trigger] persisted(table, store_id, Seq::empty(), now)[id]
                == table[id],
{
    let none = Seq::<ModView>::empty();
    lemma_chunks_flatten(rows_of(none), UPSERT_CHUNK_SIZE as nat);
    assert(rows_of(none) =~= Seq::<RowView>::empty());
    assert(store_row_ids(persisted(table, store_id, none, now), store_id) =~= Set::<
        Seq<char>,
    >::empty());
}

/// Persisting a batch of N distinct records of a store, and later the same
/// batch without one of its records, leaves exactly N - 1 rows for the
/// store: those of the second batch.
pub proof fn lemma_missing_record_is_pruned(
    table: Map<Seq<char>, StoredRow>,
    store_id: Seq<char>,
    first: Seq<ModView>,
    dropped: int,
    first_at: int,
    second_at: int,
)
    requires
        distinct_ids(first),
        batch_of_store(first, store_id),
        0 <= dropped < first.len(),
        written_before(table, first_at),
        first_at < second_at,
    ensures
        store_row_ids(persisted(table, store_id, first, first_at), store_id).len() == first.len(),
        store_row_ids(
            persisted(
                persisted(table, store_id, first, first_at),
                store_id,
                first.remove(dropped),
                second_at,
            ),
            store_id,
        ).len() == first.len() - 1,
        store_row_ids(
            persisted(
                persisted(table, store_id, first, first_at),
                store_id,
                first.remove(dropped),
                second_at,
            ),
            store_id,
        ) == mod_ids(first.remove(dropped)).to_set(),
        !store_row_ids(
            persisted(
                persisted(table, store_id, first, first_at),
                store_id,
                first.remove(dropped),
                second_at,
            ),
            store_id,
        ).contains(first[dropped].id),
{
    let second = first.remove(dropped);
    let between = persisted(table, store_id, first, first_at);
    lemma_store_reflects_batch(table, store_id, first, first_at);
    assert(written_before(between, second_at));
    assert(distinct_ids(second) && batch_of_store(second, store_id)) by {
        assert forall|i: int| 0 <= i < second.len() implies second[i] == first[if i < dropped {
            i
        } else {
            i + 1
        }] by {}
    }
    lemma_store_reflects_batch(between, store_id, second, second_at);
    if mod_ids(second).contains(first[dropped].id) {
        let k = choose|k: int| 0 <= k < second.len() && mod_ids(second)[k] == first[dropped].id;
        let origin = if k < dropped {
            k
        } else {
            k + 1
        };
        assert(second[k] == first[origin]);
        assert(first[origin].id != first[dropped].id);
    }
}

/// Persisting the same batch of distinct records of a store twice leaves the
/// same rows: one per record, with unchanged content and with the later
/// transaction's timestamp.
pub proof fn lemma_upsert_is_idempotent(
    table: Map<Seq<char>, StoredRow>,
    store_id: Seq<char>,
    mods: Seq<ModView>,
    first_at: int,
    second_at: int,
)
    requires
        distinct_ids(mods),
        batch_of_store(mods, store_id),
        written_before(table, first_at),
        first_at < second_at,
    ensures
        store_row_ids(
            persisted(persisted(table, store_id, mods, first_at), store_id, mods, second_at),
            store_id,
        ) == store_row_ids(persisted(table, store_id, mods, first_at), store_id),
        store_row_ids(
            persisted(persisted(table, store_id, mods, first_at), store_id, mods, second_at),
            store_id,
        ).len() == mods.len(),
        forall|i: int|
            0 <= i < mods.len() ==> {
                &&& persisted(table, store_id, mods, first_at)[#[trigger] mods[i].id] == (StoredRow {
                    row: row_of(mods[i]),
                    updated_at: first_at,
                })
                &&& persisted(
                    persisted(table, store_id, mods, first_at),
                    store_id,
                    mods,
                    second_at,
                )[mods[i].id] == (StoredRow { row: row_of(mods[i]), updated_at: second_at })
            },
{
    let between = persisted(table, store_id, mods, first_at);
    lemma_store_reflects_batch(table, store_id, mods, first_at);
    assert(written_before(between, second_at));
    lemma_store_reflects_batch(between, store_id, mods, second_at);
}

/// The second of the pieces that colons part an id into: the upstream id of
/// a record's id. Empty where the id holds no colon.
pub open spec fn upstream_part(id: Seq<char>) -> Seq<char> {
    let pieces = split_on(id, ':');
    if pieces.len() >= 2 {
        pieces[1]
    } else {
        Seq::empty()
    }
}

/// A lookup finds a record by its whole id or by the upstream part of it.
pub open spec fn lookup_accepts(id: Seq<char>, wanted: Seq<char>) -> bool {
    id == wanted || upstream_part(id) == wanted
}

/// Whether a lookup for `wanted` finds the record with the given id.
pub fn matches_lookup(id: &str, wanted: &str) -> (r: bool)
    ensures
        r == lookup_accepts(id@, wanted@),
{
    let id_chars = str_chars(id);
    let wanted_chars = str_chars(wanted);
    if chars_equal(&id_chars, &wanted_chars) {
        return true;
    }
    let pieces = split_chars(&id_chars, ':');
    assert(texts(pieces@).len() == pieces.len());
    if pieces.len() >= 2 {
        assert(texts(pieces@)[1] == pieces@[1]@);
        chars_equal(&pieces[1], &wanted_chars)
    } else {
        assert(wanted_chars.len() == 0 ==> wanted@ =~= Seq::<char>::empty());
        wanted_chars.len() == 0
    }
}

/// What a lookup answers: the record, or that there is none.
pub fn found_or_missing(found: Option<NormalizedMod>) -> (r: Result<NormalizedMod, AppError>)
    ensures
        match found {
            Some(item) => r == Ok::<NormalizedMod, AppError>(item),
            None => r == Err::<NormalizedMod, AppError>(AppError::NotFound),
        },
{
    match found {
        Some(item) => Ok(item),
        None => Err(AppError::NotFound),
    }
}

} // verus!

//! Rendering the conditions of a query as a statement with numbered
//! placeholders and the values to bind to them.

use vstd::prelude::*;
use crate::conditions::{
    Clause, ClauseView, Column, Conditions, Like, LikeView, build_query_conditions, like_views,
    query_conditions,
};
use crate::decimal::decimal_text;
use crate::error::{AppError, ErrorView};
use crate::model::ModsQuery;
use crate::text::{chars_string, push_str_chars, utf8_len, utf8_len_at_least};

verus! {

/// A statement under construction: a query builder of sqlx for Postgres.
/// Nothing in this library builds the statement from it, so a builder is
/// always open for more.
#[verifier::external_body]
pub struct SqlBuilder {
    inner: sqlx::QueryBuilder<'static, sqlx::Postgres>,
}

/// The text of the statement that a builder holds.
pub uninterp spec fn builder_sql(builder: SqlBuilder) -> Seq<char>;

/// The number of values bound in a builder so far.
pub uninterp spec fn builder_arg_count(builder: SqlBuilder) -> nat;

/// The most bytes that a bound value may take.
pub const MAX_BIND_BYTES: usize = 0x7fff_ffff;

/// The placeholder of the bound value with the given number.
pub open spec fn placeholder(number: nat) -> Seq<char> {
    seq!['$'] + decimal_text(number)
}

/// `sqlx::QueryBuilder::new`: the builder starts with the given text and
/// with no bound value.
#[verifier::external_body]
fn builder_new(init: &str) -> (builder: SqlBuilder)
    ensures
        builder_sql(builder) == init@,
        builder_arg_count(builder) == 0,
{
    SqlBuilder { inner: sqlx::QueryBuilder::new(init) }
}

/// `sqlx::QueryBuilder::push`: the text is appended to the statement; the
/// bound values stay.
#[verifier::external_body]
fn builder_push(builder: &mut SqlBuilder, sql: &str)
    ensures
        builder_sql(*final(builder)) == builder_sql(*old(builder)) + sql@,
        builder_arg_count(*final(builder)) == builder_arg_count(*old(builder)),
{
    builder.inner.push(sql);
}

/// `sqlx::QueryBuilder::push_bind` with a text: the value is bound, and the
/// placeholder with its number, counted from 1, is appended to the
/// statement. A value of more than `MAX_BIND_BYTES` bytes cannot be bound.
#[verifier::external_body]
fn builder_push_bind_text(builder: &mut SqlBuilder, value: String)
    requires
        utf8_len(value@) <= MAX_BIND_BYTES,
    ensures
        builder_sql(*final(builder)) == builder_sql(*old(builder)) + placeholder(
            builder_arg_count(*old(builder)) + 1,
        ),
        builder_arg_count(*final(builder)) == builder_arg_count(*old(builder)) + 1,
{
    builder.inner.push_bind(value);
}

/// `sqlx::QueryBuilder::push_bind` with a 64-bit integer: the value is
/// bound, and the placeholder with its number, counted from 1, is appended
/// to the statement.
#[verifier::external_body]
fn builder_push_bind_int(builder: &mut SqlBuilder, value: i64)
    ensures
        builder_sql(*final(builder)) == builder_sql(*old(builder)) + placeholder(
            builder_arg_count(*old(builder)) + 1,
        ),
        builder_arg_count(*final(builder)) == builder_arg_count(*old(builder)) + 1,
{
    builder.inner.push_bind(value);
}

/// `sqlx::QueryBuilder::into_sql`: the text of the statement.
#[verifier::external_body]
fn builder_into_sql(builder: SqlBuilder) -> (sql: String)
    ensures
        sql@ == builder_sql(builder),
{
    builder.inner.into_sql()
}

/// A value to bind to a placeholder.
#[derive(Debug, Clone, PartialEq, Eq)]
pub enum BindValue {
    Text(String),
    Int(i64),
}

pub enum SqlArg {
    Text(Seq<char>),
    Int(int),
}

impl View for BindValue {
    type V = SqlArg;

    open spec fn view(&self) -> SqlArg {
        match self {
            BindValue::Text(text) => SqlArg::Text(text@),
            BindValue::Int(value) => SqlArg::Int(*value as int),
        }
    }
}

pub open spec fn arg_views(args: Seq<BindValue>) -> Seq<SqlArg> {
    args.map_values(|a: BindValue| a@)
}

/// A statement and the values of its placeholders: the value at index `i`
/// belongs to the placeholder `$i+1`.
#[derive(Debug, Clone, PartialEq, Eq)]
pub struct RenderedQuery {
    pub sql: String,
    pub args: Vec<BindValue>,
}

pub struct Rendered {
    pub sql: Seq<char>,
    pub args: Seq<SqlArg>,
}

impl View for RenderedQuery {
    type V = Rendered;

    open spec fn view(&self) -> Rendered {
        Rendered { sql: self.sql@, args: arg_views(self.args@) }
    }
}

/// The statement with more text.
pub open spec fn emit_raw(r: Rendered, sql: Seq<char>) -> Rendered {
    Rendered { sql: r.sql + sql, args: r.args }
}

/// The statement with one more bound value and its placeholder.
pub open spec fn emit_bind(r: Rendered, arg: SqlArg) -> Rendered {
    Rendered { sql: r.sql + placeholder(r.args.len() + 1), args: r.args.push(arg) }
}

pub open spec fn column_name(column: Column) -> Seq<char> {
    match column {
        Column::SearchText => "search_text"@,
        Column::SearchCompact => "search_compact"@,
    }
}

/// The pattern that stands for "holds `needle` as a part".
pub open spec fn like_pattern(needle: Seq<char>) -> Seq<char> {
    seq!['%'] + needle + seq!['%']
}

pub open spec fn render_like(r: Rendered, like: LikeView) -> Rendered {
    emit_bind(
        emit_raw(emit_raw(r, column_name(like.column)), " LIKE "@),
        SqlArg::Text(like_pattern(like.needle)),
    )
}

/// The conditions with `OR` between them.
pub open spec fn render_any_of(r: Rendered, likes: Seq<LikeView>) -> Rendered
    decreases likes.len(),
{
    if likes.len() == 0 {
        r
    } else if likes.len() == 1 {
        render_like(r, likes[0])
    } else {
        render_like(emit_raw(render_any_of(r, likes.drop_last()), " OR "@), likes.last())
    }
}

/// 1 where the condition holds, 0 where it does not.
pub open spec fn render_case(r: Rendered, like: LikeView) -> Rendered {
    emit_raw(render_like(emit_raw(r, "CASE WHEN "@), like), " THEN 1 ELSE 0 END"@)
}

/// The number of conditions that hold, as a sum.
pub open spec fn render_counted(r: Rendered, likes: Seq<LikeView>) -> Rendered
    decreases likes.len(),
{
    if likes.len() == 0 {
        r
    } else if likes.len() == 1 {
        render_case(r, likes[0])
    } else {
        render_case(emit_raw(render_counted(r, likes.drop_last()), " + "@), likes.last())
    }
}

pub open spec fn render_clause(r: Rendered, clause: ClauseView) -> Rendered {
    match clause {
        ClauseView::Single(like) => render_like(emit_raw(r, " AND "@), like),
        ClauseView::AnyOf(likes) => emit_raw(render_any_of(emit_raw(r, " AND ("@), likes), ")"@),
        ClauseView::FullOrAtLeast { full, counted, threshold } => emit_raw(
            emit_bind(
                emit_raw(
                    render_counted(
                        emit_raw(render_like(emit_raw(r, " AND ("@), full), " OR ("@),
                        counted,
                    ),
                    ") >= "@,
                ),
                SqlArg::Int(threshold as int),
            ),
            ")"@,
        ),
    }
}

pub open spec fn render_clauses(r: Rendered, clauses: Seq<ClauseView>) -> Rendered
    decreases clauses.len(),
{
    if clauses.len() == 0 {
        r
    } else {
        render_clause(render_clauses(r, clauses.drop_last()), clauses.last())
    }
}

/// The start of the statement: the columns of a record from every row.
pub open spec fn select_head() -> Seq<char> {
    "SELECT id, store_id, title, images, price, vendor, product_type, tags, product_url FROM normalized_mods WHERE 1=1"@
}

/// The statement that selects the records that meet the conditions, most
/// recently written first.
pub open spec fn rendered_query(clauses: Seq<ClauseView>) -> Rendered {
    emit_raw(
        render_clauses(Rendered { sql: select_head(), args: Seq::empty() }, clauses),
        " ORDER BY updated_at DESC"@,
    )
}

/// A condition whose pattern can be bound.
pub open spec fn like_fits(like: LikeView) -> bool {
    utf8_len(like_pattern(like.needle)) <= MAX_BIND_BYTES
}

pub open spec fn likes_fit(likes: Seq<LikeView>) -> bool {
    forall|k: int| 0 <= k < likes.len() ==> like_fits(#[trigger] likes[k])
}

pub open spec fn clause_fits(clause: ClauseView) -> bool {
    match clause {
        ClauseView::Single(like) => like_fits(like),
        ClauseView::AnyOf(likes) => likes_fit(likes),
        ClauseView::FullOrAtLeast { full, counted, threshold } => like_fits(full) && likes_fit(
            counted,
        ) && threshold <= i64::MAX,
    }
}

/// Conditions all of whose values can be bound.
pub open spec fn conditions_fit(clauses: Seq<ClauseView>) -> bool {
    forall|k: int| 0 <= k < clauses.len() ==> clause_fits(#[trigger] clauses[k])
}

pub open spec fn too_long_text() -> Seq<char> {
    "Filter is too long"@
}

struct Draft {
    builder: SqlBuilder,
    args: Vec<BindValue>,
}

impl Draft {
    spec fn rendered(&self) -> Rendered {
        Rendered { sql: builder_sql(self.builder), args: arg_views(self.args@) }
    }

    spec fn counted(&self) -> bool {
        builder_arg_count(self.builder) == self.args@.len()
    }

    fn push_raw(&mut self, sql: &str)
        requires
            old(self).counted(),
        ensures
            final(self).counted(),
            final(self).rendered() == emit_raw(old(self).rendered(), sql@),
    {
        builder_push(&mut self.builder, sql);
    }

    fn bind_text(&mut self, value: String)
        requires
            old(self).counted(),
            utf8_len(value@) <= MAX_BIND_BYTES,
        ensures
            final(self).counted(),
            final(self).rendered() == emit_bind(old(self).rendered(), SqlArg::Text(value@)),
    {
        let copy = value.clone();
        builder_push_bind_text(&mut self.builder, copy);
        self.args.push(BindValue::Text(value));
        assert(arg_views(self.args@) =~= arg_views(old(self).args@).push(SqlArg::Text(value@)));
    }

    fn bind_int(&mut self, value: i64)
        requires
            old(self).counted(),
        ensures
            final(self).counted(),
            final(self).rendered() == emit_bind(old(self).rendered(), SqlArg::Int(value as int)),
    {
        builder_push_bind_int(&mut self.builder, value);
        self.args.push(BindValue::Int(value));
        assert(arg_views(self.args@) =~= arg_views(old(self).args@).push(SqlArg::Int(value as int)));
    }

    fn push_like(&mut self, like: &Like)
        requires
            old(self).counted(),
            like_fits(like@),
        ensures
            final(self).counted(),
            final(self).rendered() == render_like(old(self).rendered(), like@),
    {
        match like.column {
            Column::SearchText => self.push_raw("search_text"),
            Column::SearchCompact => self.push_raw("search_compact"),
        }
        self.push_raw(" LIKE ");
        self.bind_text(pattern_of(like));
    }

    fn push_any_of(&mut self, likes: &Vec<Like>)
        requires
            old(self).counted(),
            likes_fit(like_views(likes@)),
        ensures
            final(self).counted(),
            final(self).rendered() == render_any_of(old(self).rendered(), like_views(likes@)),
    {
        let ghost all = like_views(likes@);
        let mut k: usize = 0;
        while k < likes.len()
            invariant
                k <= likes.len(),
                all == like_views(likes@),
                likes_fit(all),
                self.counted(),
                self.rendered() == render_any_of(old(self).rendered(), all.take(k as int)),
            decreases likes.len() - k,
        {
            proof {
                assert(all.take(k + 1).drop_last() =~= all.take(k as int));
                assert(all.take(k + 1).last() == likes@[k as int]@);
                assert(all[k as int] == likes@[k as int]@);
            }
            if k > 0 {
                self.push_raw(" OR ");
            }
            self.push_like(&likes[k]);
            k += 1;
        }
        assert(all.take(likes.len() as int) == all);
    }

    fn push_counted(&mut self, likes: &Vec<Like>)
        requires
            old(self).counted(),
            likes_fit(like_views(likes@)),
        ensures
            final(self).counted(),
            final(self).rendered() == render_counted(old(self).rendered(), like_views(likes@)),
    {
        let ghost all = like_views(likes@);
        let mut k: usize = 0;
        while k < likes.len()
            invariant
                k <= likes.len(),
                all == like_views(likes@),
                likes_fit(all),
                self.counted(),
                self.rendered() == render_counted(old(self).rendered(), all.take(k as int)),
            decreases likes.len() - k,
        {
            proof {
                assert(all.take(k + 1).drop_last() =~= all.take(k as int));
                assert(all.take(k + 1).last() == likes@[k as int]@);
                assert(all[k as int] == likes@[k as int]@);
            }
            if k > 0 {
                self.push_raw(" + ");
            }
            self.push_raw("CASE WHEN ");
            self.push_like(&likes[k]);
            self.push_raw(" THEN 1 ELSE 0 END");
            k += 1;
        }
        assert(all.take(likes.len() as int) == all);
    }

    fn push_clause(&mut self, clause: &Clause)
        requires
            old(self).counted(),
            clause_fits(clause@),
        ensures
            final(self).counted(),
            final(self).rendered() == render_clause(old(self).rendered(), clause@),
    {
        match clause {
            Clause::Single(like) => {
                self.push_raw(" AND ");
                self.push_like(like);
            },
            Clause::AnyOf(likes) => {
                self.push_raw(" AND (");
                self.push_any_of(likes);
                self.push_raw(")");
            },
            Clause::FullOrAtLeast { full, counted, threshold } => {
                self.push_raw(" AND (");
                self.push_like(full);
                self.push_raw(" OR (");
                self.push_counted(counted);
                self.push_raw(") >= ");
                self.bind_int(*threshold as i64);
                self.push_raw(")");
            },
        }
    }
}

fn pattern_of(like: &Like) -> (pattern: String)
    ensures
        pattern@ == like_pattern(like@.needle),
{
    let mut chars: Vec<char> = Vec::new();
    chars.push('%');
    push_str_chars(&mut chars, like.needle.as_str());
    chars.push('%');
    assert(chars@ =~= like_pattern(like@.needle));
    chars_string(&chars)
}

fn like_fits_check(like: &Like) -> (r: bool)
    ensures
        r == like_fits(like@),
{
    let mut chars: Vec<char> = Vec::new();
    chars.push('%');
    push_str_chars(&mut chars, like.needle.as_str());
    chars.push('%');
    assert(chars@ =~= like_pattern(like@.needle));
    !utf8_len_at_least(&chars, 0x8000_0000)
}

fn likes_fit_check(likes: &Vec<Like>) -> (r: bool)
    ensures
        r == likes_fit(like_views(likes@)),
{
    let mut k: usize = 0;
    while k < likes.len()
        invariant
            k <= likes.len(),
            forall|j: int| 0 <= j < k ==> like_fits(#[trigger] like_views(likes@)[j]),
        decreases likes.len() - k,
    {
        assert(like_views(likes@)[k as int] == likes@[k as int]@);
        if !like_fits_check(&likes[k]) {
            return false;
        }
        k += 1;
    }
    true
}

fn clause_fits_check(clause: &Clause) -> (r: bool)
    ensures
        r == clause_fits(clause@),
{
    match clause {
        Clause::Single(like) => like_fits_check(like),
        Clause::AnyOf(likes) => likes_fit_check(likes),
        Clause::FullOrAtLeast { full, counted, threshold } => like_fits_check(full)
            && likes_fit_check(counted) && (*threshold as u64) <= 0x7fff_ffff_ffff_ffffu64,
    }
}

/// Whether every value of the conditions can be bound.
pub fn conditions_fit_check(conditions: &Conditions) -> (r: bool)
    ensures
        r == conditions_fit(conditions@),
{
    let mut k: usize = 0;
    while k < conditions.clauses.len()
        invariant
            k <= conditions.clauses.len(),
            forall|j: int| 0 <= j < k ==> clause_fits(#[trigger] conditions@[j]),
        decreases conditions.clauses.len() - k,
    {
        assert(conditions@[k as int] == conditions.clauses@[k as int]@);
        if !clause_fits_check(&conditions.clauses[k]) {
            return false;
        }
        k += 1;
    }
    true
}

/// Renders conditions all of whose values can be bound.
pub fn render_fitting(conditions: &Conditions) -> (query: RenderedQuery)
    requires
        conditions_fit(conditions@),
    ensures
        query@ == rendered_query(conditions@),
{
    let builder = builder_new(
        "SELECT id, store_id, title, images, price, vendor, product_type, tags, product_url FROM normalized_mods WHERE 1=1",
    );
    let mut draft = Draft { builder, args: Vec::new() };
    let ghost start = draft.rendered();
    assert(start.sql == select_head());
    assert(start.args =~= Seq::<SqlArg>::empty());
    let mut k: usize = 0;
    while k < conditions.clauses.len()
        invariant
            k <= conditions.clauses.len(),
            conditions_fit(conditions@),
            draft.counted(),
            draft.rendered() == render_clauses(start, conditions@.take(k as int)),
        decreases conditions.clauses.len() - k,
    {
        proof {
            assert(conditions@.take(k + 1).drop_last() =~= conditions@.take(k as int));
            assert(conditions@.take(k + 1).last() == conditions.clauses@[k as int]@);
            assert(conditions@[k as int] == conditions.clauses@[k as int]@);
        }
        draft.push_clause(&conditions.clauses[k]);
        k += 1;
    }
    assert(conditions@.take(conditions.clauses.len() as int) == conditions@);
    draft.push_raw(" ORDER BY updated_at DESC");
    let Draft { builder, args } = draft;
    RenderedQuery { sql: builder_into_sql(builder), args }
}

/// Renders the conditions of a query as a statement; refuses conditions of
/// which a value cannot be bound.
pub fn render_mods_query(conditions: &Conditions) -> (r: Result<RenderedQuery, AppError>)
    ensures
        match r {
            Ok(query) => conditions_fit(conditions@) && query@ == rendered_query(conditions@),
            Err(e) => !conditions_fit(conditions@) && e@ == ErrorView::BadRequest(too_long_text()),
        },
{
    if conditions_fit_check(conditions) {
        Ok(render_fitting(conditions))
    } else {
        Err(AppError::BadRequest("Filter is too long".to_owned()))
    }
}

/// The statement that selects the records that match the filters of a
/// query, most recently written first.
pub fn build_mods_query(query: &ModsQuery) -> (r: Result<RenderedQuery, AppError>)
    ensures
        match r {
            Ok(rendered) => conditions_fit(query_conditions(query@)) && rendered@ == rendered_query(
                query_conditions(query@),
            ),
            Err(e) => !conditions_fit(query_conditions(query@)) && e@ == ErrorView::BadRequest(
                too_long_text(),
            ),
        },
{
    let conditions = build_query_conditions(query);
    render_mods_query(&conditions)
}

} // verus!

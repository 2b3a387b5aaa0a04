//! The conditions that a query puts on the stored search fields: built from
//! the filters, evaluated against a row, and proved to accept the records
//! that the filters match.

use vstd::prelude::*;
use crate::filters::{
    active_filter, active_filter_chars, chassis_tokens, chassis_tokens_of, engine_match,
    filters_accept, has_word_ignoring_case, haystack_matches, meaningful_tokens,
    meaningful_tokens_of, mod_matches, model_match, simple_match, tokens_matching,
};
use crate::model::{ModView, ModsQuery, QueryView};
use crate::search::{
    is_nonempty, lemma_normalized_is_caseless, lemma_search_text_is_caseless, normalizer,
    search_compact, search_haystacks, search_sources, search_text,
};
use crate::text::{
    all_caseless, chars_contain, chars_string, eq_ignore_ascii_case, lemma_filter_push,
    str_chars, text_contains, texts,
};
use crate::words::{
    join_spaced, lemma_joined_holds_parts, lemma_part_is_caseless, lemma_part_of_part,
    lemma_stripped_join_holds_stripped_parts, lemma_words_are_parts, strip_whitespace,
    without_whitespace, words,
};

verus! {

/// A stored search field.
#[derive(Debug, Clone, Copy, PartialEq, Eq)]
pub enum Column {
    SearchText,
    SearchCompact,
}

/// The condition that a stored field holds `needle` as a part.
#[derive(Debug, PartialEq, Eq)]
pub struct Like {
    pub column: Column,
    pub needle: String,
}

pub struct LikeView {
    pub column: Column,
    pub needle: Seq<char>,
}

impl View for Like {
    type V = LikeView;

    open spec fn view(&self) -> LikeView {
        LikeView { column: self.column, needle: self.needle@ }
    }
}

pub open spec fn like_views(likes: Seq<Like>) -> Seq<LikeView> {
    likes.map_values(|l: Like| l@)
}

/// The condition of one filter.
#[derive(Debug, PartialEq, Eq)]
pub enum Clause {
    /// The one condition holds.
    Single(Like),
    /// At least one of the conditions holds.
    AnyOf(Vec<Like>),
    /// `full` holds, or at least `threshold` of `counted` hold.
    FullOrAtLeast { full: Like, counted: Vec<Like>, threshold: usize },
}

pub enum ClauseView {
    Single(LikeView),
    AnyOf(Seq<LikeView>),
    FullOrAtLeast { full: LikeView, counted: Seq<LikeView>, threshold: nat },
}

impl View for Clause {
    type V = ClauseView;

    open spec fn view(&self) -> ClauseView {
        match self {
            Clause::Single(like) => ClauseView::Single(like@),
            Clause::AnyOf(likes) => ClauseView::AnyOf(like_views(likes@)),
            Clause::FullOrAtLeast { full, counted, threshold } => ClauseView::FullOrAtLeast {
                full: full@,
                counted: like_views(counted@),
                threshold: *threshold as nat,
            },
        }
    }
}

pub open spec fn clause_views(clauses: Seq<Clause>) -> Seq<ClauseView> {
    clauses.map_values(|c: Clause| c@)
}

pub open spec fn column_value(column: Column, text: Seq<char>, compact: Seq<char>) -> Seq<char> {
    match column {
        Column::SearchText => text,
        Column::SearchCompact => compact,
    }
}

/// Whether a row with the given search fields meets the condition.
pub open spec fn like_accepts(like: LikeView, text: Seq<char>, compact: Seq<char>) -> bool {
    text_contains(column_value(like.column, text, compact), like.needle)
}

pub open spec fn accepting(text: Seq<char>, compact: Seq<char>) -> spec_fn(LikeView) -> bool {
    |like: LikeView| like_accepts(like, text, compact)
}

pub open spec fn clause_accepts(clause: ClauseView, text: Seq<char>, compact: Seq<char>) -> bool {
    match clause {
        ClauseView::Single(like) => like_accepts(like, text, compact),
        ClauseView::AnyOf(likes) => exists|k: int|
            0 <= k < likes.len() && like_accepts(#[trigger] likes[k], text, compact),
        ClauseView::FullOrAtLeast { full, counted, threshold } => like_accepts(full, text, compact)
            || counted.filter(accepting(text, compact)).len() >= threshold,
    }
}

/// Whether a row with the given search fields meets every clause.
pub open spec fn conditions_accept(clauses: Seq<ClauseView>, text: Seq<char>, compact: Seq<char>) -> bool {
    forall|k: int| 0 <= k < clauses.len() ==> clause_accepts(#[trigger] clauses[k], text, compact)
}

pub open spec fn in_text(needle: Seq<char>) -> LikeView {
    LikeView { column: Column::SearchText, needle }
}

pub open spec fn in_compact(needle: Seq<char>) -> LikeView {
    LikeView { column: Column::SearchCompact, needle }
}

pub open spec fn text_likes(needles: Seq<Seq<char>>) -> Seq<LikeView> {
    needles.map_values(|needle: Seq<char>| in_text(needle))
}

/// The clause of a make filter: the search text holds the filter.
pub open spec fn make_clause(filter: Seq<char>) -> ClauseView {
    ClauseView::Single(in_text(filter))
}

/// The clause of a model filter: the search text holds the filter; or, where
/// the filter has chassis tokens, one of them; or, where it has none, at
/// least half of its meaningful tokens, rounded up.
pub open spec fn model_clause(filter: Seq<char>) -> ClauseView {
    let chassis = words(filter).filter(chassis_tokens());
    let meaningful = words(filter).filter(meaningful_tokens());
    if chassis.len() > 0 {
        ClauseView::AnyOf(seq![in_text(filter)] + text_likes(chassis))
    } else if meaningful.len() == 0 {
        ClauseView::AnyOf(seq![in_text(filter)])
    } else {
        ClauseView::FullOrAtLeast {
            full: in_text(filter),
            counted: text_likes(meaningful),
            threshold: ((meaningful.len() + 1) / 2) as nat,
        }
    }
}

/// The clause of an engine filter: the search text holds the filter, or the
/// compact search text holds the filter without its whitespace.
pub open spec fn engine_clause(filter: Seq<char>) -> ClauseView {
    let compact = without_whitespace(filter);
    if compact.len() > 0 {
        ClauseView::AnyOf(seq![in_text(filter), in_compact(compact)])
    } else {
        ClauseView::AnyOf(seq![in_text(filter)])
    }
}

pub open spec fn optional_clause(clause: Option<ClauseView>) -> Seq<ClauseView> {
    match clause {
        Some(c) => seq![c],
        None => Seq::empty(),
    }
}

pub open spec fn map_filter(
    filter: Option<Seq<char>>,
    clause: spec_fn(Seq<char>) -> ClauseView,
) -> Option<ClauseView> {
    match filter {
        Some(f) => Some(clause(f)),
        None => None,
    }
}

/// The clauses of a query: one for each active filter, make first, then
/// model, then engine.
pub open spec fn query_conditions(q: QueryView) -> Seq<ClauseView> {
    optional_clause(map_filter(active_filter(q.make), |f: Seq<char>| make_clause(f)))
        + optional_clause(map_filter(active_filter(q.model), |f: Seq<char>| model_clause(f)))
        + optional_clause(map_filter(active_filter(q.engine), |f: Seq<char>| engine_clause(f)))
}

/// The conditions of a query, all of which a row has to meet.
#[derive(Debug, PartialEq, Eq)]
pub struct Conditions {
    pub clauses: Vec<Clause>,
}

impl View for Conditions {
    type V = Seq<ClauseView>;

    open spec fn view(&self) -> Seq<ClauseView> {
        clause_views(self.clauses@)
    }
}

fn like_in_text(needle: &Vec<char>) -> (like: Like)
    ensures
        like@ == in_text(needle@),
{
    Like { column: Column::SearchText, needle: chars_string(needle) }
}

fn likes_in_text(needles: &Vec<Vec<char>>, likes: &mut Vec<Like>)
    ensures
        like_views(final(likes)@) == like_views(old(likes)@) + text_likes(texts(needles@)),
{
    let mut i: usize = 0;
    assert(like_views(likes@) =~= like_views(old(likes)@) + text_likes(texts(needles@).take(0)));
    while i < needles.len()
        invariant
            i <= needles.len(),
            like_views(likes@) == like_views(old(likes)@) + text_likes(
                texts(needles@).take(i as int),
            ),
        decreases needles.len() - i,
    {
        let ghost before = likes@;
        let like = like_in_text(&needles[i]);
        likes.push(like);
        proof {
            assert(like_views(likes@) =~= like_views(before).push(in_text(needles@[i as int]@)));
            assert(text_likes(texts(needles@).take(i + 1)) =~= text_likes(
                texts(needles@).take(i as int),
            ).push(in_text(needles@[i as int]@)));
            assert(like_views(likes@) =~= like_views(old(likes)@) + text_likes(
                texts(needles@).take(i + 1),
            ));
        }
        i += 1;
    }
    assert(texts(needles@).take(needles.len() as int) == texts(needles@));
}

fn build_model_clause(filter: &Vec<char>) -> (clause: Clause)
    ensures
        clause@ == model_clause(filter@),
{
    let chassis = chassis_tokens_of(filter);
    let mut likes: Vec<Like> = Vec::new();
    if chassis.len() > 0 {
        likes.push(like_in_text(filter));
        assert(like_views(likes@) =~= seq![in_text(filter@)]);
        likes_in_text(&chassis, &mut likes);
        return Clause::AnyOf(likes);
    }
    let meaningful = meaningful_tokens_of(filter);
    if meaningful.len() == 0 {
        likes.push(like_in_text(filter));
        assert(like_views(likes@) =~= seq![in_text(filter@)]);
        return Clause::AnyOf(likes);
    }
    assert(like_views(likes@) =~= Seq::<LikeView>::empty());
    likes_in_text(&meaningful, &mut likes);
    assert(like_views(likes@) =~= text_likes(texts(meaningful@)));
    let half: usize = meaningful.len() / 2;
    let threshold: usize = half + meaningful.len() % 2;
    Clause::FullOrAtLeast { full: like_in_text(filter), counted: likes, threshold }
}

fn build_engine_clause(filter: &Vec<char>) -> (clause: Clause)
    ensures
        clause@ == engine_clause(filter@),
{
    let compact = strip_whitespace(filter);
    let mut likes: Vec<Like> = Vec::new();
    likes.push(like_in_text(filter));
    if compact.len() > 0 {
        likes.push(Like { column: Column::SearchCompact, needle: chars_string(&compact) });
        assert(like_views(likes@) =~= seq![in_text(filter@), in_compact(compact@)]);
    } else {
        assert(like_views(likes@) =~= seq![in_text(filter@)]);
    }
    Clause::AnyOf(likes)
}

/// Builds the conditions of a query.
pub fn build_query_conditions(query: &ModsQuery) -> (conditions: Conditions)
    ensures
        conditions@ == query_conditions(query@),
{
    let mut clauses: Vec<Clause> = Vec::new();
    assert(clause_views(clauses@) =~= Seq::<ClauseView>::empty());
    if let Some(f) = active_filter_chars(&query.make) {
        let ghost before = clauses@;
        clauses.push(Clause::Single(like_in_text(&f)));
        assert(clause_views(clauses@) =~= clause_views(before).push(make_clause(f@)));
    }
    let ghost after_make = clause_views(clauses@);
    assert(after_make =~= optional_clause(
        map_filter(active_filter(query@.make), |f: Seq<char>| make_clause(f)),
    ));
    if let Some(f) = active_filter_chars(&query.model) {
        let ghost before = clauses@;
        clauses.push(build_model_clause(&f));
        assert(clause_views(clauses@) =~= clause_views(before).push(model_clause(f@)));
    }
    let ghost after_model = clause_views(clauses@);
    assert(after_model =~= after_make + optional_clause(
        map_filter(active_filter(query@.model), |f: Seq<char>| model_clause(f)),
    ));
    if let Some(f) = active_filter_chars(&query.engine) {
        let ghost before = clauses@;
        clauses.push(build_engine_clause(&f));
        assert(clause_views(clauses@) =~= clause_views(before).push(engine_clause(f@)));
    }
    assert(clause_views(clauses@) =~= after_model + optional_clause(
        map_filter(active_filter(query@.engine), |f: Seq<char>| engine_clause(f)),
    ));
    Conditions { clauses }
}

fn like_accepts_chars(like: &Like, text: &Vec<char>, compact: &Vec<char>) -> (r: bool)
    ensures
        r == like_accepts(like@, text@, compact@),
{
    let needle = str_chars(like.needle.as_str());
    match like.column {
        Column::SearchText => chars_contain(text, &needle),
        Column::SearchCompact => chars_contain(compact, &needle),
    }
}

fn any_like_accepts(likes: &Vec<Like>, text: &Vec<char>, compact: &Vec<char>) -> (r: bool)
    ensures
        r == (exists|k: int|
            0 <= k < likes.len() && like_accepts(#[trigger] like_views(likes@)[k], text@, compact@)),
{
    let mut k: usize = 0;
    while k < likes.len()
        invariant
            k <= likes.len(),
            forall|j: int|
                0 <= j < k ==> !like_accepts(#[trigger] like_views(likes@)[j], text@, compact@),
        decreases likes.len() - k,
    {
        assert(like_views(likes@)[k as int] == likes@[k as int]@);
        if like_accepts_chars(&likes[k], text, compact) {
            return true;
        }
        k += 1;
    }
    false
}

fn count_likes_accepting(likes: &Vec<Like>, text: &Vec<char>, compact: &Vec<char>) -> (n: usize)
    ensures
        n == like_views(likes@).filter(accepting(text@, compact@)).len(),
{
    let ghost all = like_views(likes@);
    let ghost keep = accepting(text@, compact@);
    let mut n: usize = 0;
    let mut k: usize = 0;
    proof {
        reveal(Seq::filter);
        assert(all.take(0).filter(keep).len() == 0);
    }
    while k < likes.len()
        invariant
            k <= likes.len(),
            n <= k,
            all == like_views(likes@),
            keep == accepting(text@, compact@),
            n == all.take(k as int).filter(keep).len(),
        decreases likes.len() - k,
    {
        proof {
            assert(all.take(k + 1) =~= all.take(k as int).push(likes@[k as int]@));
            lemma_filter_push(all.take(k as int), likes@[k as int]@, keep);
        }
        if like_accepts_chars(&likes[k], text, compact) {
            n += 1;
        }
        k += 1;
    }
    assert(all.take(likes.len() as int) == all);
    n
}

fn clause_accepts_chars(clause: &Clause, text: &Vec<char>, compact: &Vec<char>) -> (r: bool)
    ensures
        r == clause_accepts(clause@, text@, compact@),
{
    match clause {
        Clause::Single(like) => like_accepts_chars(like, text, compact),
        Clause::AnyOf(likes) => any_like_accepts(likes, text, compact),
        Clause::FullOrAtLeast { full, counted, threshold } => {
            like_accepts_chars(full, text, compact) || count_likes_accepting(counted, text, compact)
                >= *threshold
        },
    }
}

impl Conditions {
    /// Whether a row with the given search fields meets the conditions.
    pub fn accepts(&self, search_text: &str, search_compact: &str) -> (r: bool)
        ensures
            r == conditions_accept(self@, search_text@, search_compact@),
    {
        let text = str_chars(search_text);
        let compact = str_chars(search_compact);
        let mut k: usize = 0;
        while k < self.clauses.len()
            invariant
                k <= self.clauses.len(),
                text@ == search_text@,
                compact@ == search_compact@,
                forall|j: int|
                    0 <= j < k ==> clause_accepts(#[trigger] self@[j], text@, compact@),
            decreases self.clauses.len() - k,
        {
            assert(self@[k as int] == self.clauses@[k as int]@);
            if !clause_accepts_chars(&self.clauses[k], &text, &compact) {
                return false;
            }
            k += 1;
        }
        true
    }
}

/// In a text without capitals, a word that equals a needle without capitals
/// once case is ignored is the needle, so the text holds the needle.
pub proof fn lemma_word_match_is_part(hay: Seq<char>, needle: Seq<char>)
    requires
        all_caseless(hay),
        all_caseless(needle),
    ensures
        haystack_matches(hay, needle) == text_contains(hay, needle),
{
    if has_word_ignoring_case(hay, needle) {
        let k = choose|k: int|
            0 <= k < words(hay).len() && eq_ignore_ascii_case(#[trigger] words(hay)[k], needle);
        let word = words(hay)[k];
        lemma_words_are_parts(hay);
        lemma_part_is_caseless(hay, word);
        assert(word =~= needle);
    }
}

/// Against one haystack without capitals, the simple match of a needle
/// without capitals says that the haystack holds the needle.
pub proof fn lemma_simple_match_one(hay: Seq<char>, needle: Seq<char>)
    requires
        all_caseless(hay),
        all_caseless(needle),
    ensures
        simple_match(seq![hay], needle) == text_contains(hay, needle),
{
    lemma_word_match_is_part(hay, needle);
    let haystacks = seq![hay];
    if text_contains(hay, needle) {
        assert(haystack_matches(haystacks[0], needle));
    }
}

/// As many tokens match the one haystack as conditions on the tokens hold.
proof fn lemma_count_agrees(hay: Seq<char>, compact: Seq<char>, tokens: Seq<Seq<char>>)
    requires
        all_caseless(hay),
        forall|k: int| 0 <= k < tokens.len() ==> all_caseless(#[trigger] tokens[k]),
    ensures
        tokens.filter(tokens_matching(seq![hay])).len() == text_likes(tokens).filter(
            accepting(hay, compact),
        ).len(),
    decreases tokens.len(),
{
    reveal(Seq::filter);
    if tokens.len() > 0 {
        let init = tokens.drop_last();
        assert forall|k: int| 0 <= k < init.len() implies all_caseless(#[trigger] init[k]) by {
            assert(init[k] == tokens[k]);
        }
        lemma_count_agrees(hay, compact, init);
        assert(all_caseless(tokens.last()));
        lemma_simple_match_one(hay, tokens.last());
        assert(text_likes(tokens).drop_last() =~= text_likes(init));
        assert(text_likes(tokens).last() == in_text(tokens.last()));
    } else {
        assert(text_likes(tokens).len() == 0);
    }
}

/// The tokens that a filter keeps of a text's words are parts of the text.
proof fn lemma_kept_words_are_caseless(filter: Seq<char>, keep: spec_fn(Seq<char>) -> bool)
    requires
        all_caseless(filter),
    ensures
        forall|k: int|
            0 <= k < words(filter).filter(keep).len() ==> all_caseless(
                #[trigger] words(filter).filter(keep)[k],
            ),
{
    let kept = words(filter).filter(keep);
    lemma_words_are_parts(filter);
    assert forall|k: int| 0 <= k < kept.len() implies all_caseless(#[trigger] kept[k]) by {
        assert(kept.contains(kept[k]));
        words(filter).lemma_filter_contains_rev(keep, kept[k]);
        let j = choose|j: int| 0 <= j < words(filter).len() && words(filter)[j] == kept[k];
        lemma_part_is_caseless(filter, words(filter)[j]);
    }
}

proof fn lemma_model_agrees(hay: Seq<char>, compact: Seq<char>, filter: Seq<char>)
    requires
        all_caseless(hay),
        all_caseless(filter),
    ensures
        model_match(seq![hay], filter) == clause_accepts(model_clause(filter), hay, compact),
{
    let chassis = words(filter).filter(chassis_tokens());
    let meaningful = words(filter).filter(meaningful_tokens());
    lemma_simple_match_one(hay, filter);
    lemma_kept_words_are_caseless(filter, chassis_tokens());
    lemma_kept_words_are_caseless(filter, meaningful_tokens());
    if chassis.len() > 0 {
        let likes = seq![in_text(filter)] + text_likes(chassis);
        assert(likes[0] == in_text(filter));
        assert forall|k: int| 0 <= k < chassis.len() implies simple_match(seq![hay], chassis[k])
            == like_accepts(likes[k + 1], hay, compact) by {
            lemma_simple_match_one(hay, chassis[k]);
            assert(likes[k + 1] == in_text(chassis[k]));
        }
        if model_match(seq![hay], filter) {
            if simple_match(seq![hay], filter) {
                assert(like_accepts(likes[0], hay, compact));
            } else {
                let k = choose|k: int|
                    0 <= k < chassis.len() && simple_match(seq![hay], #[trigger] chassis[k]);
                assert(like_accepts(likes[k + 1], hay, compact));
            }
        }
        if clause_accepts(model_clause(filter), hay, compact) {
            let k = choose|k: int|
                0 <= k < likes.len() && like_accepts(#[trigger] likes[k], hay, compact);
            if k > 0 {
                assert(simple_match(seq![hay], chassis[k - 1]));
            }
        }
    } else if meaningful.len() == 0 {
        let likes = seq![in_text(filter)];
        assert(likes[0] == in_text(filter));
    } else {
        lemma_count_agrees(hay, compact, meaningful);
    }
}

proof fn lemma_engine_agrees(hay: Seq<char>, filter: Seq<char>)
    requires
        all_caseless(hay),
        all_caseless(filter),
    ensures
        engine_match(seq![hay], filter) == clause_accepts(
            engine_clause(filter),
            hay,
            without_whitespace(hay),
        ),
{
    let compact = without_whitespace(hay);
    let needle = without_whitespace(filter);
    let haystacks = seq![hay];
    lemma_simple_match_one(hay, filter);
    let likes = if needle.len() > 0 {
        seq![in_text(filter), in_compact(needle)]
    } else {
        seq![in_text(filter)]
    };
    assert(likes[0] == in_text(filter));
    assert(haystacks[0] == hay);
    if needle.len() > 0 {
        assert(likes[1] == in_compact(needle));
    }
    if engine_match(haystacks, filter) {
        if simple_match(haystacks, filter) {
            assert(like_accepts(likes[0], hay, compact));
        } else {
            let i = choose|i: int|
                0 <= i < haystacks.len() && text_contains(
                    without_whitespace(#[trigger] haystacks[i]),
                    needle,
                );
            assert(i == 0);
            assert(like_accepts(likes[1], hay, compact));
        }
        assert(clause_accepts(engine_clause(filter), hay, compact));
    }
    if clause_accepts(engine_clause(filter), hay, compact) {
        let k = choose|k: int| 0 <= k < likes.len() && like_accepts(#[trigger] likes[k], hay, compact);
        if k == 1 {
            assert(text_contains(without_whitespace(haystacks[0]), needle));
        } else {
            assert(text_contains(hay, filter));
        }
        assert(engine_match(haystacks, filter));
    }
}

/// The filters match a record exactly when the conditions built from them
/// accept the record's stored search fields: matching in memory and matching
/// in storage accept the same records.
pub proof fn lemma_renderings_agree(m: ModView, q: QueryView)
    ensures
        mod_matches(m, q) == conditions_accept(
            query_conditions(q),
            search_text(m),
            search_compact(m),
        ),
{
    let text = search_text(m);
    let compact = search_compact(m);
    let clauses = query_conditions(q);
    let make = optional_clause(map_filter(active_filter(q.make), |f: Seq<char>| make_clause(f)));
    let model = optional_clause(map_filter(active_filter(q.model), |f: Seq<char>| model_clause(f)));
    let engine = optional_clause(
        map_filter(active_filter(q.engine), |f: Seq<char>| engine_clause(f)),
    );
    lemma_search_text_is_caseless(m);
    if let Some(raw) = q.make {
        lemma_normalized_is_caseless(raw);
    }
    if let Some(raw) = q.model {
        lemma_normalized_is_caseless(raw);
    }
    if let Some(raw) = q.engine {
        lemma_normalized_is_caseless(raw);
    }
    if let Some(f) = active_filter(q.make) {
        lemma_simple_match_one(text, f);
        assert(make[0] == make_clause(f));
    }
    if let Some(f) = active_filter(q.model) {
        lemma_model_agrees(text, compact, f);
        assert(model[0] == model_clause(f));
    }
    if let Some(f) = active_filter(q.engine) {
        lemma_engine_agrees(text, f);
        assert(engine[0] == engine_clause(f));
    }
    if mod_matches(m, q) {
        assert forall|k: int| 0 <= k < clauses.len() implies clause_accepts(
            #[trigger] clauses[k],
            text,
            compact,
        ) by {
            if k < make.len() {
                assert(clauses[k] == make[k]);
            } else if k < make.len() + model.len() {
                assert(clauses[k] == model[k - make.len()]);
            } else {
                assert(clauses[k] == engine[k - make.len() - model.len()]);
            }
        }
    }
    if conditions_accept(clauses, text, compact) {
        if active_filter(q.make) is Some {
            assert(clauses[0] == make[0]);
        }
        if active_filter(q.model) is Some {
            assert(clauses[make.len() as int] == model[0]);
        }
        if active_filter(q.engine) is Some {
            assert(clauses[(make.len() + model.len()) as int] == engine[0]);
        }
    }
}

/// A filter keeps at most as many elements as a filter that keeps whatever
/// it keeps.
proof fn lemma_filter_len_monotone<A>(s: Seq<A>, p: spec_fn(A) -> bool, q: spec_fn(A) -> bool)
    requires
        forall|i: int| 0 <= i < s.len() && p(s[i]) ==> q(#[trigger] s[i]),
    ensures
        s.filter(p).len() <= s.filter(q).len(),
    decreases s.len(),
{
    reveal(Seq::filter);
    if s.len() > 0 {
        let init = s.drop_last();
        assert forall|i: int| 0 <= i < init.len() && p(init[i]) implies q(#[trigger] init[i]) by {
            assert(init[i] == s[i]);
        }
        lemma_filter_len_monotone(init, p, q);
        assert(p(s.last()) ==> q(s[s.len() - 1]));
    }
}

/// What matches one of the haystacks simply, matches their joined text
/// simply.
proof fn lemma_simple_match_widens(haystacks: Seq<Seq<char>>, needle: Seq<char>)
    requires
        forall|i: int| 0 <= i < haystacks.len() ==> all_caseless(#[trigger] haystacks[i]),
        all_caseless(needle),
        simple_match(haystacks, needle),
    ensures
        simple_match(seq![join_spaced(haystacks)], needle),
{
    let joined = join_spaced(haystacks);
    let i = choose|i: int|
        0 <= i < haystacks.len() && haystack_matches(#[trigger] haystacks[i], needle);
    lemma_word_match_is_part(haystacks[i], needle);
    lemma_joined_holds_parts(haystacks, i);
    lemma_part_of_part(joined, haystacks[i], needle);
    let one = seq![joined];
    assert(haystack_matches(one[0], needle));
}

/// Matching each searched text of a record on its own accepts no record that
/// matching the record's search text refuses: filters that the normalized
/// title, vendor, product type and tags match, taken as separate haystacks,
/// match the record.
pub proof fn lemma_field_match_is_record_match(m: ModView, q: QueryView)
    requires
        filters_accept(q, search_haystacks(m)),
    ensures
        mod_matches(m, q),
{
    let fields = search_haystacks(m);
    let text = search_text(m);
    let one = seq![text];
    let normalized = search_sources(m).map_values(normalizer());
    assert forall|k: int| 0 <= k < fields.len() implies all_caseless(#[trigger] fields[k]) by {
        assert(normalized.filter(is_nonempty()).contains(fields[k]));
        normalized.lemma_filter_contains_rev(is_nonempty(), fields[k]);
        let j = choose|j: int| 0 <= j < normalized.len() && normalized[j] == fields[k];
        lemma_normalized_is_caseless(search_sources(m)[j]);
    }
    if let Some(raw) = q.make {
        lemma_normalized_is_caseless(raw);
    }
    if let Some(raw) = q.model {
        lemma_normalized_is_caseless(raw);
    }
    if let Some(raw) = q.engine {
        lemma_normalized_is_caseless(raw);
    }
    if let Some(f) = active_filter(q.make) {
        lemma_simple_match_widens(fields, f);
    }
    if let Some(f) = active_filter(q.model) {
        let chassis = words(f).filter(chassis_tokens());
        let meaningful = words(f).filter(meaningful_tokens());
        lemma_kept_words_are_caseless(f, chassis_tokens());
        lemma_kept_words_are_caseless(f, meaningful_tokens());
        if simple_match(fields, f) {
            lemma_simple_match_widens(fields, f);
        } else if chassis.len() > 0 {
            let k = choose|k: int|
                0 <= k < chassis.len() && simple_match(fields, #[trigger] chassis[k]);
            lemma_simple_match_widens(fields, chassis[k]);
        } else {
            assert forall|i: int|
                0 <= i < meaningful.len() && tokens_matching(fields)(
                    meaningful[i],
                ) implies tokens_matching(one)(#[trigger] meaningful[i]) by {
                lemma_simple_match_widens(fields, meaningful[i]);
            }
            lemma_filter_len_monotone(meaningful, tokens_matching(fields), tokens_matching(one));
        }
        assert(model_match(one, f));
    }
    if let Some(f) = active_filter(q.engine) {
        if simple_match(fields, f) {
            lemma_simple_match_widens(fields, f);
        } else {
            let needle = without_whitespace(f);
            let i = choose|i: int|
                0 <= i < fields.len() && text_contains(
                    without_whitespace(#[trigger] fields[i]),
                    needle,
                );
            lemma_stripped_join_holds_stripped_parts(fields, i);
            lemma_part_of_part(without_whitespace(text), without_whitespace(fields[i]), needle);
            assert(text_contains(without_whitespace(one[0]), needle));
        }
        assert(engine_match(one, f));
    }
}

} // verus!

//! Matching of free-text filters against the searched texts of a record.

use vstd::prelude::*;
use crate::error::{AppError, ErrorView};
use crate::model::{ModView, ModsQuery, NormalizedMod, QueryView, optional_text};
use crate::search::{normalize_chars, normalize_text, search_haystack_chars, search_text};
use crate::text::{
    char_is_ascii_digit, char_is_ascii_letter, chars_contain, chars_eq_ignore_ascii_case,
    chars_equal, eq_ignore_ascii_case, is_ascii_digit, is_ascii_letter, lemma_filter_push,
    str_chars, string_texts, strings_chars, text_contains, texts, utf8_len, utf8_len_at_least,
};
use crate::words::{join_chars, split_words, strip_whitespace, without_whitespace, words};

verus! {

/// Some word of `hay` equals `needle` once case is ignored.
pub open spec fn has_word_ignoring_case(hay: Seq<char>, needle: Seq<char>) -> bool {
    exists|k: int| 0 <= k < words(hay).len() && eq_ignore_ascii_case(#[trigger] words(hay)[k], needle)
}

/// `needle` is part of `hay`, or equals one of its words once case is ignored.
pub open spec fn haystack_matches(hay: Seq<char>, needle: Seq<char>) -> bool {
    text_contains(hay, needle) || has_word_ignoring_case(hay, needle)
}

/// The simple match: some haystack matches.
pub open spec fn simple_match(haystacks: Seq<Seq<char>>, needle: Seq<char>) -> bool {
    exists|i: int| 0 <= i < haystacks.len() && haystack_matches(#[trigger] haystacks[i], needle)
}

/// A token with at least one ASCII letter and at least one ASCII digit.
pub open spec fn is_chassis_token(t: Seq<char>) -> bool {
    (exists|i: int| 0 <= i < t.len() && is_ascii_letter(t[i])) && (exists|j: int|
        0 <= j < t.len() && is_ascii_digit(t[j]))
}

/// A token of at least three bytes that is not the word "series".
pub open spec fn is_meaningful_token(t: Seq<char>) -> bool {
    utf8_len(t) >= 3 && t != "series"@
}

pub open spec fn chassis_tokens() -> spec_fn(Seq<char>) -> bool {
    |t: Seq<char>| is_chassis_token(t)
}

pub open spec fn meaningful_tokens() -> spec_fn(Seq<char>) -> bool {
    |t: Seq<char>| is_meaningful_token(t)
}

pub open spec fn tokens_matching(haystacks: Seq<Seq<char>>) -> spec_fn(Seq<char>) -> bool {
    |t: Seq<char>| simple_match(haystacks, t)
}

/// The model match: the simple match of the whole filter; else, where the
/// filter has chassis tokens, the simple match of one of them; else the
/// simple match of at least half of its meaningful tokens.
pub open spec fn model_match(haystacks: Seq<Seq<char>>, filter: Seq<char>) -> bool {
    let chassis = words(filter).filter(chassis_tokens());
    let meaningful = words(filter).filter(meaningful_tokens());
    ||| simple_match(haystacks, filter)
    ||| chassis.len() > 0 && exists|k: int|
        0 <= k < chassis.len() && simple_match(haystacks, #[trigger] chassis[k])
    ||| chassis.len() == 0 && meaningful.len() > 0 && 2 * meaningful.filter(
        tokens_matching(haystacks),
    ).len() >= meaningful.len()
}

/// The engine match: the simple match of the filter; else the filter without
/// its whitespace, if anything is left of it, is part of some haystack
/// without its whitespace.
pub open spec fn engine_match(haystacks: Seq<Seq<char>>, filter: Seq<char>) -> bool {
    ||| simple_match(haystacks, filter)
    ||| without_whitespace(filter).len() > 0 && exists|i: int|
        0 <= i < haystacks.len() && text_contains(
            without_whitespace(#[trigger] haystacks[i]),
            without_whitespace(filter),
        )
}

/// The normal form of a filter that is present and not empty once normalized.
pub open spec fn active_filter(raw: Option<Seq<char>>) -> Option<Seq<char>> {
    match raw {
        Some(text) => if normalize_text(text).len() > 0 {
            Some(normalize_text(text))
        } else {
            None
        },
        None => None,
    }
}

/// Every active filter of the query matches the haystacks.
pub open spec fn filters_accept(q: QueryView, haystacks: Seq<Seq<char>>) -> bool {
    &&& active_filter(q.make) matches Some(f) ==> simple_match(haystacks, f)
    &&& active_filter(q.model) matches Some(f) ==> model_match(haystacks, f)
    &&& active_filter(q.engine) matches Some(f) ==> engine_match(haystacks, f)
}

/// A record matches a query when its search text, taken as the one haystack,
/// is accepted by every active filter.
pub open spec fn mod_matches(m: ModView, q: QueryView) -> bool {
    filters_accept(q, seq![search_text(m)])
}

/// A query needs at least one filter.
pub open spec fn has_filter(q: QueryView) -> bool {
    q.make is Some || q.model is Some || q.engine is Some
}

fn has_word_chars(hay: &Vec<char>, needle: &Vec<char>) -> (r: bool)
    ensures
        r == has_word_ignoring_case(hay@, needle@),
{
    let tokens = split_words(hay);
    let mut k: usize = 0;
    while k < tokens.len()
        invariant
            k <= tokens.len(),
            texts(tokens@) == words(hay@),
            forall|j: int| 0 <= j < k ==> !eq_ignore_ascii_case(#[trigger] words(hay@)[j], needle@),
        decreases tokens.len() - k,
    {
        assert(texts(tokens@)[k as int] == tokens@[k as int]@);
        if chars_eq_ignore_ascii_case(&tokens[k], needle) {
            return true;
        }
        k += 1;
    }
    assert(texts(tokens@).len() == tokens.len());
    false
}

fn haystack_matches_chars(hay: &Vec<char>, needle: &Vec<char>) -> (r: bool)
    ensures
        r == haystack_matches(hay@, needle@),
{
    chars_contain(hay, needle) || has_word_chars(hay, needle)
}

pub fn simple_match_chars(haystacks: &Vec<Vec<char>>, needle: &Vec<char>) -> (r: bool)
    ensures
        r == simple_match(texts(haystacks@), needle@),
{
    let mut i: usize = 0;
    while i < haystacks.len()
        invariant
            i <= haystacks.len(),
            forall|j: int| 0 <= j < i ==> !haystack_matches(#[trigger] texts(haystacks@)[j], needle@),
        decreases haystacks.len() - i,
    {
        assert(texts(haystacks@)[i as int] == haystacks@[i as int]@);
        if haystack_matches_chars(&haystacks[i], needle) {
            return true;
        }
        i += 1;
    }
    false
}

pub fn chars_have_letters_and_digits(token: &Vec<char>) -> (r: bool)
    ensures
        r == is_chassis_token(token@),
{
    let mut has_letter = false;
    let mut has_digit = false;
    let mut i: usize = 0;
    while i < token.len()
        invariant
            i <= token.len(),
            has_letter == (exists|k: int| 0 <= k < i && is_ascii_letter(token@[k])),
            has_digit == (exists|k: int| 0 <= k < i && is_ascii_digit(token@[k])),
        decreases token.len() - i,
    {
        if char_is_ascii_letter(token[i]) {
            has_letter = true;
        }
        if char_is_ascii_digit(token[i]) {
            has_digit = true;
        }
        i += 1;
    }
    has_letter && has_digit
}

fn chars_are_meaningful(token: &Vec<char>) -> (r: bool)
    ensures
        r == is_meaningful_token(token@),
{
    if !utf8_len_at_least(token, 3) {
        return false;
    }
    let series = str_chars("series");
    !chars_equal(token, &series)
}

fn copy_chars(s: &Vec<char>) -> (out: Vec<char>)
    ensures
        out@ == s@,
{
    let mut out: Vec<char> = Vec::new();
    let mut i: usize = 0;
    while i < s.len()
        invariant
            i <= s.len(),
            out@ == s@.take(i as int),
        decreases s.len() - i,
    {
        out.push(s[i]);
        assert(out@ =~= s@.take(i + 1));
        i += 1;
    }
    assert(s@.take(s.len() as int) == s@);
    out
}

fn keep_chassis(tokens: &Vec<Vec<char>>) -> (out: Vec<Vec<char>>)
    ensures
        texts(out@) == texts(tokens@).filter(chassis_tokens()),
{
    let ghost all = texts(tokens@);
    let mut out: Vec<Vec<char>> = Vec::new();
    let mut i: usize = 0;
    proof {
        reveal(Seq::filter);
        assert(texts(out@) =~= all.take(0).filter(chassis_tokens()));
    }
    while i < tokens.len()
        invariant
            i <= tokens.len(),
            all == texts(tokens@),
            texts(out@) == all.take(i as int).filter(chassis_tokens()),
        decreases tokens.len() - i,
    {
        proof {
            assert(all.take(i + 1) =~= all.take(i as int).push(tokens@[i as int]@));
            lemma_filter_push(all.take(i as int), tokens@[i as int]@, chassis_tokens());
        }
        if chars_have_letters_and_digits(&tokens[i]) {
            let ghost before = out@;
            out.push(copy_chars(&tokens[i]));
            assert(texts(out@) =~= texts(before).push(tokens@[i as int]@));
        }
        i += 1;
    }
    assert(all.take(tokens.len() as int) == all);
    out
}

fn keep_meaningful(tokens: &Vec<Vec<char>>) -> (out: Vec<Vec<char>>)
    ensures
        texts(out@) == texts(tokens@).filter(meaningful_tokens()),
{
    let ghost all = texts(tokens@);
    let mut out: Vec<Vec<char>> = Vec::new();
    let mut i: usize = 0;
    proof {
        reveal(Seq::filter);
        assert(texts(out@) =~= all.take(0).filter(meaningful_tokens()));
    }
    while i < tokens.len()
        invariant
            i <= tokens.len(),
            all == texts(tokens@),
            texts(out@) == all.take(i as int).filter(meaningful_tokens()),
        decreases tokens.len() - i,
    {
        proof {
            assert(all.take(i + 1) =~= all.take(i as int).push(tokens@[i as int]@));
            lemma_filter_push(all.take(i as int), tokens@[i as int]@, meaningful_tokens());
        }
        if chars_are_meaningful(&tokens[i]) {
            let ghost before = out@;
            out.push(copy_chars(&tokens[i]));
            assert(texts(out@) =~= texts(before).push(tokens@[i as int]@));
        }
        i += 1;
    }
    assert(all.take(tokens.len() as int) == all);
    out
}

/// The chassis tokens of a filter, in order.
pub fn chassis_tokens_of(filter: &Vec<char>) -> (out: Vec<Vec<char>>)
    ensures
        texts(out@) == words(filter@).filter(chassis_tokens()),
{
    let tokens = split_words(filter);
    keep_chassis(&tokens)
}

/// The meaningful tokens of a filter, in order.
pub fn meaningful_tokens_of(filter: &Vec<char>) -> (out: Vec<Vec<char>>)
    ensures
        texts(out@) == words(filter@).filter(meaningful_tokens()),
{
    let tokens = split_words(filter);
    keep_meaningful(&tokens)
}

fn any_token_matches(haystacks: &Vec<Vec<char>>, tokens: &Vec<Vec<char>>) -> (r: bool)
    ensures
        r == (exists|k: int|
            0 <= k < tokens.len() && simple_match(texts(haystacks@), #[trigger] texts(tokens@)[k])),
{
    let mut k: usize = 0;
    while k < tokens.len()
        invariant
            k <= tokens.len(),
            forall|j: int|
                0 <= j < k ==> !simple_match(texts(haystacks@), #[trigger] texts(tokens@)[j]),
        decreases tokens.len() - k,
    {
        assert(texts(tokens@)[k as int] == tokens@[k as int]@);
        if simple_match_chars(haystacks, &tokens[k]) {
            return true;
        }
        k += 1;
    }
    false
}

fn count_matching_tokens(haystacks: &Vec<Vec<char>>, tokens: &Vec<Vec<char>>) -> (n: usize)
    ensures
        n == texts(tokens@).filter(tokens_matching(texts(haystacks@))).len(),
        n <= tokens.len(),
{
    let ghost all = texts(tokens@);
    let ghost keep = tokens_matching(texts(haystacks@));
    let mut n: usize = 0;
    let mut k: usize = 0;
    proof {
        reveal(Seq::filter);
        assert(all.take(0).filter(keep).len() == 0);
    }
    while k < tokens.len()
        invariant
            k <= tokens.len(),
            n <= k,
            all == texts(tokens@),
            keep == tokens_matching(texts(haystacks@)),
            n == all.take(k as int).filter(keep).len(),
        decreases tokens.len() - k,
    {
        proof {
            assert(all.take(k + 1) =~= all.take(k as int).push(tokens@[k as int]@));
            lemma_filter_push(all.take(k as int), tokens@[k as int]@, keep);
        }
        if simple_match_chars(haystacks, &tokens[k]) {
            n += 1;
        }
        k += 1;
    }
    assert(all.take(tokens.len() as int) == all);
    n
}

pub fn model_match_chars(haystacks: &Vec<Vec<char>>, filter: &Vec<char>) -> (r: bool)
    ensures
        r == model_match(texts(haystacks@), filter@),
{
    if simple_match_chars(haystacks, filter) {
        return true;
    }
    let chassis = chassis_tokens_of(filter);
    if chassis.len() > 0 {
        return any_token_matches(haystacks, &chassis);
    }
    let meaningful = meaningful_tokens_of(filter);
    if meaningful.len() == 0 {
        return false;
    }
    let matching = count_matching_tokens(haystacks, &meaningful);
    matching >= meaningful.len() - matching
}

pub fn engine_match_chars(haystacks: &Vec<Vec<char>>, filter: &Vec<char>) -> (r: bool)
    ensures
        r == engine_match(texts(haystacks@), filter@),
{
    if simple_match_chars(haystacks, filter) {
        return true;
    }
    let compact = strip_whitespace(filter);
    if compact.len() == 0 {
        return false;
    }
    let mut i: usize = 0;
    while i < haystacks.len()
        invariant
            i <= haystacks.len(),
            compact@ == without_whitespace(filter@),
            compact@.len() > 0,
            forall|j: int|
                0 <= j < i ==> !text_contains(
                    without_whitespace(#[trigger] texts(haystacks@)[j]),
                    compact@,
                ),
        decreases haystacks.len() - i,
    {
        assert(texts(haystacks@)[i as int] == haystacks@[i as int]@);
        let stripped = strip_whitespace(&haystacks[i]);
        if chars_contain(&stripped, &compact) {
            return true;
        }
        i += 1;
    }
    false
}

pub fn matches_simple_value(haystacks: &[String], filter_value: &str) -> (r: bool)
    ensures
        r == simple_match(string_texts(haystacks@), filter_value@),
{
    let hay = strings_chars(haystacks);
    let needle = str_chars(filter_value);
    simple_match_chars(&hay, &needle)
}

pub fn matches_model_filter(haystacks: &[String], model_filter: &str) -> (r: bool)
    ensures
        r == model_match(string_texts(haystacks@), model_filter@),
{
    let hay = strings_chars(haystacks);
    let filter = str_chars(model_filter);
    model_match_chars(&hay, &filter)
}

pub fn matches_engine_filter(haystacks: &[String], engine_filter: &str) -> (r: bool)
    ensures
        r == engine_match(string_texts(haystacks@), engine_filter@),
{
    let hay = strings_chars(haystacks);
    let filter = str_chars(engine_filter);
    engine_match_chars(&hay, &filter)
}

pub fn token_has_letters_and_digits(token: &str) -> (r: bool)
    ensures
        r == is_chassis_token(token@),
{
    let chars = str_chars(token);
    chars_have_letters_and_digits(&chars)
}

/// The normal form of a filter, where it is present and not empty.
pub fn active_filter_chars(raw: &Option<String>) -> (out: Option<Vec<char>>)
    ensures
        match out {
            Some(f) => active_filter(optional_text(*raw)) == Some(f@),
            None => active_filter(optional_text(*raw)) is None,
        },
{
    match raw {
        Some(text) => {
            let chars = str_chars(text.as_str());
            let normalized = normalize_chars(&chars);
            if normalized.len() > 0 {
                Some(normalized)
            } else {
                None
            }
        },
        None => None,
    }
}

pub fn matches_filters(item: &NormalizedMod, query: &ModsQuery) -> (r: bool)
    ensures
        r == mod_matches(item@, query@),
{
    let parts = search_haystack_chars(item);
    let mut haystacks: Vec<Vec<char>> = Vec::new();
    haystacks.push(join_chars(&parts));
    assert(texts(haystacks@) =~= seq![search_text(item@)]);
    if let Some(f) = active_filter_chars(&query.make) {
        if !simple_match_chars(&haystacks, &f) {
            return false;
        }
    }
    if let Some(f) = active_filter_chars(&query.model) {
        if !model_match_chars(&haystacks, &f) {
            return false;
        }
    }
    if let Some(f) = active_filter_chars(&query.engine) {
        if !engine_match_chars(&haystacks, &f) {
            return false;
        }
    }
    true
}

/// Refuses a query without any filter.
pub fn require_filter(query: &ModsQuery) -> (r: Result<(), AppError>)
    ensures
        r is Ok <==> has_filter(query@),
        r matches Err(e) ==> e@ == ErrorView::BadRequest(
            "At least one filter must be provided: make, model, or engine"@,
        ),
{
    if query.make.is_none() && query.model.is_none() && query.engine.is_none() {
        Err(
            AppError::BadRequest(
                "At least one filter must be provided: make, model, or engine".to_owned(),
            ),
        )
    } else {
        Ok(())
    }
}

} // verus!

//! Normalization of free text and the search fields derived from a record.

use vstd::prelude::*;
use crate::model::{ModView, NormalizedMod};
use crate::text::{
    all_caseless, is_ascii_digit, is_caseless, ascii_lower, char_ascii_lower, char_is_ascii_alphanumeric, chars_string, chars_strings,
    is_ascii_alphanumeric, lemma_filter_push, occurs_at, str_chars, string_texts,
    text_contains, texts,
};
use crate::words::{
    is_single_spaced, join_chars, join_spaced, lemma_join_is_caseless,
    lemma_joined_words_are_single_spaced, lemma_part_is_caseless, lemma_words_are_parts,
    lemma_words_are_words, lemma_words_of_joined_words, split_words, strip_whitespace, without_whitespace, words,
};

verus! {

/// A letter or digit in lower case; a space for every other character.
pub open spec fn fold_char(c: char) -> char {
    if is_ascii_alphanumeric(c) {
        ascii_lower(c)
    } else {
        ' '
    }
}

pub open spec fn fold_text(s: Seq<char>) -> Seq<char> {
    s.map_values(|c: char| fold_char(c))
}

/// The normal form of a text: lower case, every maximal run of characters
/// that are no ASCII letters or digits replaced by one space, and no space at
/// either end.
pub open spec fn normalize_text(s: Seq<char>) -> Seq<char> {
    join_spaced(words(fold_text(s)))
}

pub open spec fn normalizer() -> spec_fn(Seq<char>) -> Seq<char> {
    |s: Seq<char>| normalize_text(s)
}

pub open spec fn is_nonempty() -> spec_fn(Seq<char>) -> bool {
    |s: Seq<char>| s.len() > 0
}

/// The texts of a record that a search looks at.
pub open spec fn search_sources(m: ModView) -> Seq<Seq<char>> {
    seq![m.title, m.vendor, m.product_type] + m.tags
}

/// The normal forms of the searched texts, without the empty ones.
pub open spec fn search_haystacks(m: ModView) -> Seq<Seq<char>> {
    search_sources(m).map_values(normalizer()).filter(is_nonempty())
}

/// The derived search text of a record.
pub open spec fn search_text(m: ModView) -> Seq<char> {
    join_spaced(search_haystacks(m))
}

/// The derived search text without its spaces.
pub open spec fn search_compact(m: ModView) -> Seq<char> {
    without_whitespace(search_text(m))
}

/// A normalized text holds no capitals.
pub proof fn lemma_normalized_is_caseless(s: Seq<char>)
    ensures
        all_caseless(normalize_text(s)),
{
    let folded = fold_text(s);
    assert forall|i: int| 0 <= i < folded.len() implies is_caseless(#[trigger] folded[i]) by {
        assert(folded[i] == fold_char(s[i]));
    }
    lemma_words_are_parts(folded);
    assert forall|k: int| 0 <= k < words(folded).len() implies all_caseless(
        #[trigger] words(folded)[k],
    ) by {
        lemma_part_is_caseless(folded, words(folded)[k]);
    }
    lemma_join_is_caseless(words(folded));
}

/// A small ASCII letter, an ASCII digit or a space.
pub open spec fn is_normal_char(c: char) -> bool {
    ('a' <= c && c <= 'z') || is_ascii_digit(c) || c == ' '
}

/// A normalized text is made of small letters, digits and spaces, has no
/// space at either end and no two spaces in a row.
pub proof fn lemma_normalized_shape(s: Seq<char>)
    ensures
        forall|i: int|
            0 <= i < normalize_text(s).len() ==> is_normal_char(#[trigger] normalize_text(s)[i]),
        is_single_spaced(normalize_text(s)),
{
    let folded = fold_text(s);
    let parts = words(folded);
    let joined = normalize_text(s);
    assert forall|i: int| 0 <= i < folded.len() implies is_normal_char(#[trigger] folded[i]) by {
        assert(folded[i] == fold_char(s[i]));
    }
    lemma_words_are_words(folded);
    lemma_joined_words_are_single_spaced(parts);
    lemma_words_are_parts(folded);
    lemma_joined_is_normal(folded, parts);
}

/// Normalizing a normalized text changes nothing.
pub proof fn lemma_normalize_is_idempotent(s: Seq<char>)
    ensures
        normalize_text(normalize_text(s)) == normalize_text(s),
{
    let once = normalize_text(s);
    let parts = words(fold_text(s));
    lemma_normalized_shape(s);
    assert(fold_text(once) =~= once) by {
        assert forall|i: int| 0 <= i < once.len() implies fold_char(once[i]) == once[i] by {
            assert(is_normal_char(once[i]));
        }
    }
    lemma_words_are_words(fold_text(s));
    lemma_words_of_joined_words(parts);
}

/// Parts of a text of normal characters, joined, are of normal characters.
proof fn lemma_joined_is_normal(whole: Seq<char>, parts: Seq<Seq<char>>)
    requires
        forall|i: int| 0 <= i < whole.len() ==> is_normal_char(#[trigger] whole[i]),
        forall|k: int| 0 <= k < parts.len() ==> text_contains(whole, #[trigger] parts[k]),
    ensures
        forall|i: int|
            0 <= i < join_spaced(parts).len() ==> is_normal_char(#[trigger] join_spaced(parts)[i]),
    decreases parts.len(),
{
    let joined = join_spaced(parts);
    if parts.len() > 0 {
        let last = parts.last();
        assert(text_contains(whole, parts[parts.len() - 1]));
        let at = choose|at: int| occurs_at(whole, last, at);
        assert forall|i: int| 0 <= i < last.len() implies is_normal_char(#[trigger] last[i]) by {
            assert(whole.subrange(at, at + last.len())[i] == whole[at + i]);
        }
        if parts.len() > 1 {
            let init = parts.drop_last();
            let left = join_spaced(init);
            assert forall|k: int| 0 <= k < init.len() implies text_contains(
                whole,
                #[trigger] init[k],
            ) by {
                assert(init[k] == parts[k]);
            }
            lemma_joined_is_normal(whole, init);
            assert forall|i: int| 0 <= i < joined.len() implies is_normal_char(
                #[trigger] joined[i],
            ) by {
                if i < left.len() {
                    assert(joined[i] == left[i]);
                } else if i == left.len() {
                } else {
                    assert(joined[i] == last[i - left.len() - 1]);
                }
            }
        }
    }
}

/// The search text of a record holds no capitals.
pub proof fn lemma_search_text_is_caseless(m: ModView)
    ensures
        all_caseless(search_text(m)),
{
    let normalized = search_sources(m).map_values(normalizer());
    let kept = search_haystacks(m);
    assert forall|k: int| 0 <= k < kept.len() implies all_caseless(#[trigger] kept[k]) by {
        assert(normalized.filter(is_nonempty()).contains(kept[k]));
        normalized.lemma_filter_contains_rev(is_nonempty(), kept[k]);
        let j = choose|j: int| 0 <= j < normalized.len() && normalized[j] == kept[k];
        lemma_normalized_is_caseless(search_sources(m)[j]);
    }
    lemma_join_is_caseless(kept);
}

pub fn normalize_chars(s: &Vec<char>) -> (out: Vec<char>)
    ensures
        out@ == normalize_text(s@),
{
    let mut folded: Vec<char> = Vec::new();
    let mut i: usize = 0;
    while i < s.len()
        invariant
            i <= s.len(),
            folded@ == fold_text(s@.take(i as int)),
        decreases s.len() - i,
    {
        let c = s[i];
        if char_is_ascii_alphanumeric(c) {
            folded.push(char_ascii_lower(c));
        } else {
            folded.push(' ');
        }
        assert(folded@ =~= fold_text(s@.take(i + 1)));
        i += 1;
    }
    assert(s@.take(s.len() as int) == s@);
    let parts = split_words(&folded);
    join_chars(&parts)
}

pub fn normalize_match_text(value: &str) -> (out: String)
    ensures
        out@ == normalize_text(value@),
{
    let chars = str_chars(value);
    let normalized = normalize_chars(&chars);
    chars_string(&normalized)
}

fn search_source_chars(item: &NormalizedMod) -> (out: Vec<Vec<char>>)
    ensures
        texts(out@) == search_sources(item@),
{
    let mut out: Vec<Vec<char>> = Vec::new();
    out.push(str_chars(item.title.as_str()));
    out.push(str_chars(item.vendor.as_str()));
    out.push(str_chars(item.product_type.as_str()));
    let mut i: usize = 0;
    assert(texts(out@) =~= seq![item@.title, item@.vendor, item@.product_type] + item@.tags.take(
        0,
    ));
    while i < item.tags.len()
        invariant
            i <= item.tags.len(),
            out.len() == 3 + i,
            texts(out@) == seq![item@.title, item@.vendor, item@.product_type] + item@.tags.take(
                i as int,
            ),
        decreases item.tags.len() - i,
    {
        let ghost before = out@;
        out.push(str_chars(item.tags[i].as_str()));
        assert forall|k: int| 0 <= k < out@.len() implies texts(out@)[k] == (seq![
            item@.title,
            item@.vendor,
            item@.product_type,
        ] + item@.tags.take(i + 1))[k] by {
            if k < 3 + i {
                assert(texts(before)[k] == (seq![item@.title, item@.vendor, item@.product_type]
                    + item@.tags.take(i as int))[k]);
            }
        }
        assert(texts(out@) =~= seq![item@.title, item@.vendor, item@.product_type]
            + item@.tags.take(i + 1));
        i += 1;
    }
    assert(item@.tags.take(item.tags.len() as int) == item@.tags);
    out
}

/// The normalized, non-empty texts of a record, as characters.
pub fn search_haystack_chars(item: &NormalizedMod) -> (out: Vec<Vec<char>>)
    ensures
        texts(out@) == search_haystacks(item@),
{
    let sources = search_source_chars(item);
    let ghost all = texts(sources@);
    let mut out: Vec<Vec<char>> = Vec::new();
    let mut i: usize = 0;
    proof {
        reveal(Seq::filter);
        assert(all.take(0).map_values(normalizer()) =~= Seq::<Seq<char>>::empty());
        assert(texts(out@) =~= Seq::<Seq<char>>::empty());
    }
    while i < sources.len()
        invariant
            i <= sources.len(),
            all == texts(sources@),
            texts(out@) == all.take(i as int).map_values(normalizer()).filter(is_nonempty()),
        decreases sources.len() - i,
    {
        let normalized = normalize_chars(&sources[i]);
        proof {
            let done = all.take(i as int).map_values(normalizer());
            assert(all.take(i + 1).map_values(normalizer()) =~= done.push(normalized@));
            lemma_filter_push(done, normalized@, is_nonempty());
        }
        if normalized.len() > 0 {
            let ghost before = out@;
            out.push(normalized);
            assert(texts(out@) =~= texts(before).push(normalized@));
        }
        i += 1;
    }
    assert(all.take(sources.len() as int) == all);
    out
}

pub fn build_search_haystacks(item: &NormalizedMod) -> (out: Vec<String>)
    ensures
        string_texts(out@) == search_haystacks(item@),
{
    let haystacks = search_haystack_chars(item);
    chars_strings(&haystacks)
}

pub fn build_search_text(item: &NormalizedMod) -> (out: String)
    ensures
        out@ == search_text(item@),
{
    let haystacks = search_haystack_chars(item);
    let joined = join_chars(&haystacks);
    chars_string(&joined)
}

pub fn build_search_compact(item: &NormalizedMod) -> (out: String)
    ensures
        out@ == search_compact(item@),
{
    let haystacks = search_haystack_chars(item);
    let joined = join_chars(&haystacks);
    let compact = strip_whitespace(&joined);
    chars_string(&compact)
}

} // verus!

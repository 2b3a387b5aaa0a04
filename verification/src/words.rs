//! Words, joining, trimming and splitting of texts.

use vstd::prelude::*;
use crate::text::{
    all_caseless, char_is_whitespace, is_caseless, is_whitespace, lemma_filter_push, occurs_at,
    text_contains, texts,
};

verus! {

/// The text is not empty and its last character is no whitespace.
pub open spec fn ends_in_word(s: Seq<char>) -> bool {
    s.len() > 0 && !is_whitespace(s.last())
}

/// The maximal runs of characters that are no whitespace, in the order in
/// which they stand in the text. Defined from the right: a character that is
/// no whitespace either lengthens the word before it or starts a new one.
pub open spec fn words(s: Seq<char>) -> Seq<Seq<char>>
    decreases s.len(),
{
    if s.len() == 0 {
        Seq::empty()
    } else {
        let before = words(s.drop_last());
        if is_whitespace(s.last()) {
            before
        } else if ends_in_word(s.drop_last()) {
            before.drop_last().push(before.last().push(s.last()))
        } else {
            before.push(seq![s.last()])
        }
    }
}

/// The parts in order, with one space between neighbours.
pub open spec fn join_spaced(parts: Seq<Seq<char>>) -> Seq<char>
    decreases parts.len(),
{
    if parts.len() == 0 {
        Seq::empty()
    } else if parts.len() == 1 {
        parts[0]
    } else {
        join_spaced(parts.drop_last()) + seq![' '] + parts.last()
    }
}

/// The text with every whitespace character taken out.
pub open spec fn without_whitespace(s: Seq<char>) -> Seq<char> {
    s.filter(|c: char| !is_whitespace(c))
}

pub open spec fn trim_start(s: Seq<char>) -> Seq<char>
    decreases s.len(),
{
    if s.len() > 0 && is_whitespace(s.first()) {
        trim_start(s.drop_first())
    } else {
        s
    }
}

pub open spec fn trim_end(s: Seq<char>) -> Seq<char>
    decreases s.len(),
{
    if s.len() > 0 && is_whitespace(s.last()) {
        trim_end(s.drop_last())
    } else {
        s
    }
}

/// The text without the whitespace at its two ends.
pub open spec fn trim(s: Seq<char>) -> Seq<char> {
    trim_end(trim_start(s))
}

/// The pieces between occurrences of `sep`; a text without `sep` is one piece,
/// and so is the empty text.
pub open spec fn split_on(s: Seq<char>, sep: char) -> Seq<Seq<char>>
    decreases s.len(),
{
    if s.len() == 0 {
        seq![Seq::empty()]
    } else {
        let before = split_on(s.drop_last(), sep);
        if s.last() == sep {
            before.push(Seq::empty())
        } else {
            before.drop_last().push(before.last().push(s.last()))
        }
    }
}

/// Every word of a text is a part of the text, and where the text ends in a
/// word, its last word is its end.
pub proof fn lemma_words_are_parts(s: Seq<char>)
    ensures
        forall|k: int| 0 <= k < words(s).len() ==> text_contains(s, #[trigger] words(s)[k]),
        ends_in_word(s) ==> words(s).len() > 0 && occurs_at(
            s,
            words(s).last(),
            s.len() - words(s).last().len(),
        ),
    decreases s.len(),
{
    if s.len() > 0 {
        let init = s.drop_last();
        let before = words(init);
        lemma_words_are_parts(init);
        assert forall|k: int| 0 <= k < before.len() implies text_contains(s, before[k]) by {
            let at = choose|at: int| occurs_at(init, before[k], at);
            assert(s.subrange(at, at + before[k].len()) =~= init.subrange(at, at + before[k].len()));
            assert(occurs_at(s, before[k], at));
        }
        if is_whitespace(s.last()) {
        } else if ends_in_word(init) {
            let grown = before.last().push(s.last());
            let at = init.len() - before.last().len();
            assert(s.subrange(at, at + grown.len()) =~= init.subrange(
                at,
                at + before.last().len(),
            ).push(s.last()));
            assert(occurs_at(s, grown, at));
            assert forall|k: int| 0 <= k < words(s).len() implies text_contains(
                s,
                #[trigger] words(s)[k],
            ) by {
                if k < before.len() - 1 {
                    assert(words(s)[k] == before[k]);
                }
            }
        } else {
            let single = seq![s.last()];
            assert(s.subrange(s.len() - 1, s.len() as int) =~= single);
            assert(occurs_at(s, single, s.len() - 1));
            assert forall|k: int| 0 <= k < words(s).len() implies text_contains(
                s,
                #[trigger] words(s)[k],
            ) by {
                if k < before.len() {
                    assert(words(s)[k] == before[k]);
                }
            }
        }
    }
}

/// A text without whitespace in it, and not empty.
pub open spec fn is_word(w: Seq<char>) -> bool {
    w.len() > 0 && forall|i: int| 0 <= i < w.len() ==> !is_whitespace(#[trigger] w[i])
}

/// Every word of a text is a word: not empty and free of whitespace.
pub proof fn lemma_words_are_words(s: Seq<char>)
    ensures
        forall|k: int| 0 <= k < words(s).len() ==> is_word(#[trigger] words(s)[k]),
        ends_in_word(s) ==> words(s).len() > 0,
    decreases s.len(),
{
    if s.len() > 0 {
        let init = s.drop_last();
        let before = words(init);
        lemma_words_are_words(init);
        if is_whitespace(s.last()) {
        } else if ends_in_word(init) {
            let grown = before.last().push(s.last());
            assert(is_word(before[before.len() - 1]));
            assert forall|i: int| 0 <= i < grown.len() implies !is_whitespace(
                #[trigger] grown[i],
            ) by {
                if i < grown.len() - 1 {
                    assert(grown[i] == before.last()[i]);
                }
            }
            assert forall|k: int| 0 <= k < words(s).len() implies is_word(
                #[trigger] words(s)[k],
            ) by {
                if k < before.len() - 1 {
                    assert(words(s)[k] == before[k]);
                }
            }
        } else {
            assert(is_word(seq![s.last()]));
            assert forall|k: int| 0 <= k < words(s).len() implies is_word(
                #[trigger] words(s)[k],
            ) by {
                if k < before.len() {
                    assert(words(s)[k] == before[k]);
                }
            }
        }
    }
}

/// The shape of a trimmed text with single spaces: no space at either end
/// and no two spaces in a row.
pub open spec fn is_single_spaced(t: Seq<char>) -> bool {
    &&& t.len() > 0 ==> t.first() != ' ' && t.last() != ' '
    &&& forall|i: int| 0 <= i < t.len() - 1 ==> !(#[trigger] t[i] == ' ' && t[i + 1] == ' ')
}

/// Words joined with spaces are single-spaced, and empty only where there is
/// no word.
pub proof fn lemma_joined_words_are_single_spaced(parts: Seq<Seq<char>>)
    requires
        forall|k: int| 0 <= k < parts.len() ==> is_word(#[trigger] parts[k]),
    ensures
        is_single_spaced(join_spaced(parts)),
        join_spaced(parts).len() == 0 <==> parts.len() == 0,
    decreases parts.len(),
{
    let joined = join_spaced(parts);
    if parts.len() == 1 {
        let only = parts[0];
        assert(is_word(only));
        assert(is_whitespace(' '));
        assert forall|i: int| 0 <= i < only.len() implies only[i] != ' ' by {
            assert(!is_whitespace(only[i]));
        }
    } else if parts.len() > 1 {
        let init = parts.drop_last();
        let left = join_spaced(init);
        let last = parts.last();
        assert forall|k: int| 0 <= k < init.len() implies is_word(#[trigger] init[k]) by {
            assert(init[k] == parts[k]);
        }
        lemma_joined_words_are_single_spaced(init);
        assert(is_word(parts[parts.len() - 1]));
        assert(is_whitespace(' '));
        assert forall|i: int| 0 <= i < last.len() implies last[i] != ' ' by {
            assert(!is_whitespace(last[i]));
        }
        assert(joined.first() == left.first());
        assert(joined.last() == last.last());
        assert forall|i: int| 0 <= i < joined.len() - 1 implies !(#[trigger] joined[i] == ' '
            && joined[i + 1] == ' ') by {
            if i + 1 < left.len() {
                assert(joined[i] == left[i] && joined[i + 1] == left[i + 1]);
            } else if i + 1 == left.len() {
                assert(joined[i] == left.last());
            } else {
                assert(joined[i + 1] == last[i - left.len()]);
            }
        }
    }
}

/// A word after a text that is empty or ends in whitespace is one more word
/// of the whole.
proof fn lemma_word_after_gap(before: Seq<char>, word: Seq<char>)
    requires
        !ends_in_word(before),
        is_word(word),
    ensures
        words(before + word) == words(before).push(word),
    decreases word.len(),
{
    let whole = before + word;
    let init = word.drop_last();
    assert(whole.drop_last() =~= before + init);
    assert(whole.last() == word.last());
    assert(!is_whitespace(word[word.len() - 1]));
    if init.len() == 0 {
        assert(before + init =~= before);
        assert(word =~= seq![word.last()]);
    } else {
        assert forall|i: int| 0 <= i < init.len() implies !is_whitespace(#[trigger] init[i]) by {
            assert(init[i] == word[i]);
        }
        lemma_word_after_gap(before, init);
        assert((before + init).last() == init.last());
        assert(!is_whitespace(init[init.len() - 1]));
        assert(init.push(word.last()) =~= word);
        assert(words(before).push(init).drop_last() =~= words(before));
    }
}

/// The words of words joined with spaces are those words.
pub proof fn lemma_words_of_joined_words(parts: Seq<Seq<char>>)
    requires
        forall|k: int| 0 <= k < parts.len() ==> is_word(#[trigger] parts[k]),
    ensures
        words(join_spaced(parts)) == parts,
    decreases parts.len(),
{
    if parts.len() == 1 {
        let none = Seq::<char>::empty();
        assert(is_word(parts[0]));
        lemma_word_after_gap(none, parts[0]);
        assert(none + parts[0] =~= parts[0]);
        assert(words(none).push(parts[0]) =~= parts);
    } else if parts.len() > 1 {
        let init = parts.drop_last();
        assert forall|k: int| 0 <= k < init.len() implies is_word(#[trigger] init[k]) by {
            assert(init[k] == parts[k]);
        }
        lemma_words_of_joined_words(init);
        let gap = join_spaced(init) + seq![' '];
        assert(gap.drop_last() =~= join_spaced(init));
        assert(is_whitespace(' '));
        assert(words(gap) == init);
        assert(is_word(parts[parts.len() - 1]));
        lemma_word_after_gap(gap, parts.last());
        assert(init.push(parts.last()) =~= parts);
    } else {
        assert(parts =~= Seq::<Seq<char>>::empty());
    }
}

/// A part of a part of a text is a part of the text.
pub proof fn lemma_part_of_part(whole: Seq<char>, part: Seq<char>, piece: Seq<char>)
    requires
        text_contains(whole, part),
        text_contains(part, piece),
    ensures
        text_contains(whole, piece),
{
    let i = choose|i: int| occurs_at(whole, part, i);
    let j = choose|j: int| occurs_at(part, piece, j);
    assert(whole.subrange(i + j, i + j + piece.len()) =~= whole.subrange(
        i,
        i + part.len(),
    ).subrange(j, j + piece.len()));
    assert(occurs_at(whole, piece, i + j));
}

/// Every part that is joined is a part of the joined text.
pub proof fn lemma_joined_holds_parts(parts: Seq<Seq<char>>, k: int)
    requires
        0 <= k < parts.len(),
    ensures
        text_contains(join_spaced(parts), parts[k]),
    decreases parts.len(),
{
    let joined = join_spaced(parts);
    if parts.len() == 1 {
        assert(joined.subrange(0, joined.len() as int) =~= parts[0]);
        assert(occurs_at(joined, parts[0], 0));
    } else {
        let init = parts.drop_last();
        let left = join_spaced(init);
        if k == parts.len() - 1 {
            let at = left.len() as int + 1;
            assert(joined.subrange(at, at + parts[k].len()) =~= parts[k]);
            assert(occurs_at(joined, parts[k], at));
        } else {
            lemma_joined_holds_parts(init, k);
            assert(init[k] == parts[k]);
            assert(joined.subrange(0, left.len() as int) =~= left);
            assert(occurs_at(joined, left, 0));
            lemma_part_of_part(joined, left, parts[k]);
        }
    }
}

/// Every part that is joined, taken without its whitespace, is a part of
/// the joined text without its whitespace.
pub proof fn lemma_stripped_join_holds_stripped_parts(parts: Seq<Seq<char>>, k: int)
    requires
        0 <= k < parts.len(),
    ensures
        text_contains(without_whitespace(join_spaced(parts)), without_whitespace(parts[k])),
    decreases parts.len(),
{
    let keep = |c: char| !is_whitespace(c);
    let stripped = without_whitespace(join_spaced(parts));
    if parts.len() == 1 {
        assert(stripped.subrange(0, stripped.len() as int) =~= stripped);
        assert(occurs_at(stripped, without_whitespace(parts[0]), 0));
    } else {
        let init = parts.drop_last();
        let left = without_whitespace(join_spaced(init));
        let right = without_whitespace(parts.last());
        Seq::filter_distributes_over_add(join_spaced(init) + seq![' '], parts.last(), keep);
        Seq::filter_distributes_over_add(join_spaced(init), seq![' '], keep);
        assert(seq![' '].filter(keep) =~= Seq::<char>::empty()) by {
            reveal(Seq::filter);
            let none = Seq::<char>::empty();
            assert(seq![' '] =~= none.push(' '));
            assert(is_whitespace(' '));
            lemma_filter_push(none, ' ', keep);
            assert(none.filter(keep) =~= none);
        }
        assert(stripped =~= left + right);
        if k == parts.len() - 1 {
            assert(stripped.subrange(left.len() as int, (left.len() + right.len()) as int)
                =~= right);
            assert(occurs_at(stripped, right, left.len() as int));
        } else {
            lemma_stripped_join_holds_stripped_parts(init, k);
            assert(init[k] == parts[k]);
            assert(stripped.subrange(0, left.len() as int) =~= left);
            assert(occurs_at(stripped, left, 0));
            lemma_part_of_part(stripped, left, without_whitespace(parts[k]));
        }
    }
}

/// A part of a text that holds no capitals holds none either.
pub proof fn lemma_part_is_caseless(hay: Seq<char>, part: Seq<char>)
    requires
        all_caseless(hay),
        text_contains(hay, part),
    ensures
        all_caseless(part),
{
    let at = choose|at: int| occurs_at(hay, part, at);
    assert forall|i: int| 0 <= i < part.len() implies is_caseless(#[trigger] part[i]) by {
        assert(hay.subrange(at, at + part.len())[i] == hay[at + i]);
    }
}

/// Parts without capitals, joined, hold no capitals.
pub proof fn lemma_join_is_caseless(parts: Seq<Seq<char>>)
    requires
        forall|k: int| 0 <= k < parts.len() ==> all_caseless(#[trigger] parts[k]),
    ensures
        all_caseless(join_spaced(parts)),
    decreases parts.len(),
{
    if parts.len() > 1 {
        let init = parts.drop_last();
        assert forall|k: int| 0 <= k < init.len() implies all_caseless(#[trigger] init[k]) by {
            assert(init[k] == parts[k]);
        }
        lemma_join_is_caseless(init);
        assert(all_caseless(parts.last()));
        let joined = join_spaced(parts);
        assert forall|i: int| 0 <= i < joined.len() implies is_caseless(#[trigger] joined[i]) by {
            let left = join_spaced(init);
            if i < left.len() {
                assert(joined[i] == left[i]);
            } else if i == left.len() {
                assert(joined[i] == ' ');
            } else {
                assert(joined[i] == parts.last()[i - left.len() - 1]);
            }
        }
    } else if parts.len() == 1 {
        assert(all_caseless(parts[0]));
    }
}

pub fn split_words(s: &Vec<char>) -> (out: Vec<Vec<char>>)
    ensures
        texts(out@) == words(s@),
{
    let mut done: Vec<Vec<char>> = Vec::new();
    let mut cur: Vec<char> = Vec::new();
    let mut i: usize = 0;
    assert(texts(done@) =~= Seq::<Seq<char>>::empty());
    while i < s.len()
        invariant
            i <= s.len(),
            words(s@.take(i as int)) == if cur@.len() > 0 {
                texts(done@).push(cur@)
            } else {
                texts(done@)
            },
            cur@.len() > 0 <==> ends_in_word(s@.take(i as int)),
        decreases s.len() - i,
    {
        let c = s[i];
        proof {
            assert(s@.take(i + 1).drop_last() == s@.take(i as int));
        }
        let ghost done_before = done@;
        let ghost cur_before = cur@;
        if char_is_whitespace(c) {
            if cur.len() > 0 {
                done.push(cur);
                cur = Vec::new();
                assert(texts(done@) =~= texts(done_before).push(cur_before));
            }
        } else {
            cur.push(c);
            proof {
                if cur_before.len() > 0 {
                    let before = texts(done_before).push(cur_before);
                    assert(before.drop_last() =~= texts(done_before));
                } else {
                    assert(cur@ =~= seq![c]);
                }
            }
        }
        i += 1;
    }
    assert(s@.take(s.len() as int) == s@);
    if cur.len() > 0 {
        let ghost done_before = done@;
        let ghost cur_before = cur@;
        done.push(cur);
        assert(texts(done@) =~= texts(done_before).push(cur_before));
    }
    done
}

pub fn join_chars(parts: &Vec<Vec<char>>) -> (out: Vec<char>)
    ensures
        out@ == join_spaced(texts(parts@)),
{
    let mut out: Vec<char> = Vec::new();
    let mut i: usize = 0;
    while i < parts.len()
        invariant
            i <= parts.len(),
            out@ == join_spaced(texts(parts@).take(i as int)),
        decreases parts.len() - i,
    {
        proof {
            assert(texts(parts@).take(i + 1).drop_last() =~= texts(parts@).take(i as int));
        }
        if i > 0 {
            out.push(' ');
        }
        let part = &parts[i];
        let ghost base = out@;
        let mut j: usize = 0;
        while j < part.len()
            invariant
                j <= part.len(),
                out@ == base + part@.take(j as int),
            decreases part.len() - j,
        {
            out.push(part[j]);
            assert(out@ =~= base + part@.take(j + 1));
            j += 1;
        }
        assert(part@.take(part.len() as int) == part@);
        assert(out@ =~= if i > 0 {
            join_spaced(texts(parts@).take(i as int)) + seq![' '] + part@
        } else {
            part@
        });
        i += 1;
    }
    assert(texts(parts@).take(parts.len() as int) =~= texts(parts@));
    out
}

pub fn strip_whitespace(s: &Vec<char>) -> (out: Vec<char>)
    ensures
        out@ == without_whitespace(s@),
{
    let mut out: Vec<char> = Vec::new();
    let mut i: usize = 0;
    proof {
        reveal(Seq::filter);
    }
    while i < s.len()
        invariant
            i <= s.len(),
            out@ == without_whitespace(s@.take(i as int)),
        decreases s.len() - i,
    {
        proof {
            reveal(Seq::filter);
            assert(s@.take(i + 1).drop_last() == s@.take(i as int));
        }
        if !char_is_whitespace(s[i]) {
            out.push(s[i]);
        }
        i += 1;
    }
    assert(s@.take(s.len() as int) == s@);
    out
}

/// The characters of `s` from `from` up to `to`.
pub fn copy_range(s: &Vec<char>, from: usize, to: usize) -> (out: Vec<char>)
    requires
        from <= to <= s.len(),
    ensures
        out@ == s@.subrange(from as int, to as int),
{
    let mut out: Vec<char> = Vec::new();
    let mut i: usize = from;
    while i < to
        invariant
            from <= i <= to,
            to <= s.len(),
            out@ == s@.subrange(from as int, i as int),
        decreases to - i,
    {
        out.push(s[i]);
        assert(out@ =~= s@.subrange(from as int, i + 1));
        i += 1;
    }
    out
}

pub fn trim_chars(s: &Vec<char>) -> (out: Vec<char>)
    ensures
        out@ == trim(s@),
{
    let n: usize = s.len();
    let mut a: usize = 0;
    assert(s@.skip(0) == s@);
    while a < n && char_is_whitespace(s[a])
        invariant
            a <= n,
            n == s.len(),
            trim_start(s@) == trim_start(s@.skip(a as int)),
        decreases n - a,
    {
        assert(s@.skip(a as int).drop_first() == s@.skip(a + 1));
        a += 1;
    }
    assert(trim_start(s@) == s@.skip(a as int));
    let mut b: usize = n;
    assert(s@.skip(a as int) == s@.subrange(a as int, b as int));
    while b > a && char_is_whitespace(s[b - 1])
        invariant
            a <= b <= n,
            n == s.len(),
            trim(s@) == trim_end(s@.subrange(a as int, b as int)),
        decreases b - a,
    {
        assert(s@.subrange(a as int, b as int).drop_last() == s@.subrange(a as int, b - 1));
        b -= 1;
    }
    copy_range(s, a, b)
}

pub fn split_chars(s: &Vec<char>, sep: char) -> (out: Vec<Vec<char>>)
    ensures
        texts(out@) == split_on(s@, sep),
{
    let mut done: Vec<Vec<char>> = Vec::new();
    let mut cur: Vec<char> = Vec::new();
    let mut i: usize = 0;
    assert(texts(done@).push(cur@) =~= seq![Seq::<char>::empty()]);
    while i < s.len()
        invariant
            i <= s.len(),
            split_on(s@.take(i as int), sep) == texts(done@).push(cur@),
        decreases s.len() - i,
    {
        let c = s[i];
        proof {
            assert(s@.take(i + 1).drop_last() == s@.take(i as int));
        }
        let ghost done_before = done@;
        let ghost cur_before = cur@;
        if c == sep {
            done.push(cur);
            cur = Vec::new();
            assert(texts(done@) =~= texts(done_before).push(cur_before));
            assert(cur@ =~= Seq::<char>::empty());
        } else {
            cur.push(c);
            assert(texts(done_before).push(cur_before).drop_last() =~= texts(done_before));
        }
        i += 1;
    }
    assert(s@.take(s.len() as int) == s@);
    let ghost done_before = done@;
    let ghost cur_before = cur@;
    done.push(cur);
    assert(texts(done@) =~= texts(done_before).push(cur_before));
    done
}

} // verus!

//! What the choice of the separator amounts to: of all the places where one
//! of the seven separators is written, the leftmost, and there the longest.

use vstd::prelude::*;
use crate::param::{
    first_sep_from,
    first_sep_token_from,
    has_separator,
    is_sep_char,
    longest_at,
    matches_at,
    parsed,
    resolution,
    sep_text,
    token_has_sep_char,
    token_has_separator,
    Separator,
};
use crate::parse::{lemma_first_sep_from, lemma_first_sep_token_from};
use crate::token::{contents, lemma_tokenize_text, literal_len, tokenize, TokenView};

verus! {

/// Whether `sep` at `offset` is the separator that splits `t`: it is written
/// there, no separator is written further left, and none that is written at
/// the same offset is longer.
pub open spec fn is_leftmost_longest(t: Seq<char>, offset: int, sep: Separator) -> bool {
    &&& matches_at(t, offset, sep)
    &&& forall|at: int, other: Separator| #[trigger] matches_at(t, at, other) ==> offset <= at
    &&& forall|other: Separator| #[trigger]
        matches_at(t, offset, other) ==> sep_text(other).len() <= sep_text(sep).len()
}

/// A separator is written at `at` exactly where its characters stand there
/// one by one.
pub proof fn lemma_matches_at(t: Seq<char>, at: int, sep: Separator)
    ensures
        matches_at(t, at, sep) <==> (0 <= at && at + sep_text(sep).len() <= t.len() && forall|
            k: int,
        |
            0 <= k < sep_text(sep).len() ==> t[at + k] == #[trigger] sep_text(sep)[k]),
{
    let w = sep_text(sep);
    if 0 <= at && at + w.len() <= t.len() {
        let sub = t.subrange(at, at + w.len());
        if matches_at(t, at, sep) {
            assert forall|k: int| 0 <= k < w.len() implies t[at + k] == #[trigger] w[k] by {
                assert(sub[k] == t[at + k]);
            }
        }
        if forall|k: int| 0 <= k < w.len() ==> t[at + k] == #[trigger] w[k] {
            assert(sub =~= w);
        }
    }
}

/// Where a separator is written, a separator character stands.
pub proof fn lemma_match_starts_with_sep_char(t: Seq<char>, at: int, sep: Separator)
    requires
        matches_at(t, at, sep),
    ensures
        0 <= at < t.len(),
        is_sep_char(t[at]),
{
    lemma_matches_at(t, at, sep);
    assert(t[at + 0] == sep_text(sep)[0]);
}

/// At the first separator character of `t` the leftmost separator is
/// written, and `longest_at` is the longest written there.
pub proof fn lemma_first_is_leftmost_longest(t: Seq<char>)
    requires
        first_sep_from(t, 0) < t.len(),
    ensures
        is_leftmost_longest(t, first_sep_from(t, 0), longest_at(t, first_sep_from(t, 0))),
{
    let p = first_sep_from(t, 0);
    let sep = longest_at(t, p);
    lemma_first_sep_from(t, 0);
    lemma_matches_at(t, p, sep);
    assert(matches_at(t, p, sep));
    assert forall|at: int, other: Separator| #[trigger] matches_at(t, at, other) implies p
        <= at by {
        lemma_match_starts_with_sep_char(t, at, other);
    }
    assert forall|other: Separator| #[trigger] matches_at(t, p, other) implies sep_text(
        other,
    ).len() <= sep_text(sep).len() by {
        lemma_matches_at(t, p, other);
        let w = sep_text(other);
        assert(t[p + 0] == w[0]);
        if w.len() >= 2 {
            assert(t[p + 1] == w[1]);
        }
        if w.len() >= 3 {
            assert(t[p + 2] == w[2]);
        }
    }
}

/// A text holds a separator exactly if it holds a separator character.
pub proof fn lemma_has_separator(t: Seq<char>)
    ensures
        has_separator(t) <==> first_sep_from(t, 0) < t.len(),
{
    lemma_first_sep_from(t, 0);
    if first_sep_from(t, 0) < t.len() {
        lemma_first_is_leftmost_longest(t);
        assert(matches_at(t, first_sep_from(t, 0), longest_at(t, first_sep_from(t, 0))));
    }
    if has_separator(t) {
        let (at, sep) = choose|at: int, sep: Separator| matches_at(t, at, sep);
        lemma_match_starts_with_sep_char(t, at, sep);
    }
}

/// Only one offset and one separator split a text.
pub proof fn lemma_leftmost_longest_unique(
    t: Seq<char>,
    offset1: int,
    sep1: Separator,
    offset2: int,
    sep2: Separator,
)
    requires
        is_leftmost_longest(t, offset1, sep1),
        is_leftmost_longest(t, offset2, sep2),
    ensures
        offset1 == offset2,
        sep1 == sep2,
{
    assert(matches_at(t, offset1, sep1));
    assert(matches_at(t, offset2, sep2));
    assert(offset1 == offset2);
    lemma_matches_at(t, offset1, sep1);
    lemma_matches_at(t, offset1, sep2);
    let w1 = sep_text(sep1);
    let w2 = sep_text(sep2);
    assert(w1.len() == w2.len());
    assert(t[offset1 + 0] == w1[0] && t[offset1 + 0] == w2[0]);
    if w1.len() >= 2 {
        assert(t[offset1 + 1] == w1[1] && t[offset1 + 1] == w2[1]);
    }
}

/// The split that `resolution` finds is in the first text token that holds
/// a separator, at the leftmost separator written in it, the longest of
/// those that start there. It finds none only where no text token holds a
/// separator.
pub proof fn lemma_resolution_leftmost_longest(tokens: Seq<TokenView>)
    ensures
        match resolution(tokens) {
            Some(split) => {
                &&& 0 <= split.index < tokens.len()
                &&& tokens[split.index] is Text
                &&& is_leftmost_longest(
                    tokens[split.index]->Text_0,
                    split.offset,
                    split.separator,
                )
                &&& forall|j: int|
                    0 <= j < split.index ==> !token_has_separator(#[trigger] tokens[j])
            },
            None => forall|j: int|
                0 <= j < tokens.len() ==> !token_has_separator(#[trigger] tokens[j]),
        },
{
    lemma_first_sep_token_from(tokens, 0);
    let index = first_sep_token_from(tokens, 0);
    assert forall|j: int| 0 <= j < index implies !token_has_separator(#[trigger] tokens[j]) by {
        assert(!token_has_sep_char(tokens[j]));
        match tokens[j] {
            TokenView::Text(t) => {
                lemma_has_separator(t);
            },
            TokenView::Escape(_) => {},
        }
    }
    if index < tokens.len() {
        match tokens[index] {
            TokenView::Text(t) => {
                lemma_first_is_leftmost_longest(t);
            },
            TokenView::Escape(_) => {},
        }
    }
}

/// Whether `s` holds no backslash.
pub open spec fn is_plain(s: Seq<char>) -> bool {
    forall|i: int| 0 <= i < s.len() ==> #[trigger] s[i] != '\\'
}

/// A text without a backslash is one literal run.
pub proof fn lemma_literal_len_plain(s: Seq<char>)
    requires
        is_plain(s),
    ensures
        literal_len(s) == s.len(),
    decreases s.len(),
{
    if s.len() > 0 {
        assert(s[0] != '\\');
        assert(is_plain(s.skip(1))) by {
            assert forall|i: int| 0 <= i < s.skip(1).len() implies #[trigger] s.skip(1)[i]
                != '\\' by {
                assert(s.skip(1)[i] == s[i + 1]);
            }
        }
        lemma_literal_len_plain(s.skip(1));
    }
}

/// A non-empty expression without a backslash is one text token.
pub proof fn lemma_tokenize_plain(s: Seq<char>)
    requires
        is_plain(s),
        s.len() > 0,
    ensures
        tokenize(s) == seq![TokenView::Text(s)],
{
    lemma_literal_len_plain(s);
    lemma_tokenize_text(s, s.len());
    assert(s.take(s.len() as int) =~= s);
    assert(s.skip(s.len() as int) =~= Seq::<char>::empty());
    assert(tokenize(s) =~= seq![TokenView::Text(s)]);
}

/// An expression without a backslash is split at the leftmost place where
/// one of the seven separators is written in it, by the longest separator
/// written there: the key is what stands before it, the value what stands
/// behind it. It is refused exactly if no separator is written in it.
pub proof fn lemma_parsed_plain(s: Seq<char>)
    requires
        is_plain(s),
    ensures
        match parsed(s) {
            Some(p) => exists|offset: int|
                {
                    &&& #[trigger] is_leftmost_longest(s, offset, p.kind)
                    &&& p.key == s.take(offset)
                    &&& p.value == s.skip(offset + sep_text(p.kind).len())
                },
            None => !has_separator(s),
        },
{
    if s.len() == 0 {
        assert(tokenize(s) =~= Seq::<TokenView>::empty());
        lemma_has_separator(s);
    } else {
        lemma_tokenize_plain(s);
        let tokens = tokenize(s);
        lemma_resolution_leftmost_longest(tokens);
        lemma_first_sep_token_from(tokens, 0);
        match resolution(tokens) {
            Some(split) => {
                assert(split.index == 0);
                assert(tokens[0] == TokenView::Text(s));
                let p = parsed(s)->Some_0;
                assert(tokens.take(0) =~= Seq::<TokenView>::empty());
                assert(tokens.skip(1) =~= Seq::<TokenView>::empty());
                assert(contents(tokens.take(0)) =~= Seq::<char>::empty());
                assert(contents(tokens.skip(1)) =~= Seq::<char>::empty());
                assert(p.key =~= s.take(split.offset));
                assert(p.value =~= s.skip(split.offset + sep_text(p.kind).len()));
                assert(is_leftmost_longest(s, split.offset, p.kind));
            },
            None => {
                assert(!token_has_separator(tokens[0]));
            },
        }
    }
}

} // verus!

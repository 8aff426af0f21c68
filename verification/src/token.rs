//! The tokenizer: splits a parameter expression into literal text and
//! backslash-escaped characters.

use vstd::prelude::*;
use crate::text::{chars_of, string_of};

verus! {

/// One piece of a parameter expression.
#[derive(Debug, Clone, PartialEq, Eq)]
pub enum Token {
    /// A run of literal characters, never empty.
    Text(String),
    /// One character that was written behind a backslash.
    Escape(char),
}

/// The mathematical value of a [`Token`].
pub enum TokenView {
    Text(Seq<char>),
    Escape(char),
}

impl View for Token {
    type V = TokenView;

    open spec fn view(&self) -> TokenView {
        match self {
            Token::Text(s) => TokenView::Text(s@),
            Token::Escape(c) => TokenView::Escape(*c),
        }
    }
}

/// The characters that a backslash escapes.
pub open spec fn is_special(c: char) -> bool {
    c == '\\' || c == '=' || c == '@' || c == ':'
}

/// Whether `s` starts with an escape: a backslash and an escapable character.
pub open spec fn starts_with_escape(s: Seq<char>) -> bool {
    s.len() >= 2 && s[0] == '\\' && is_special(s[1])
}

/// The length of the longest prefix of `s` that is literal text: it ends
/// where the first escape starts. A backslash that starts no escape is
/// literal, together with the character behind it.
pub open spec fn literal_len(s: Seq<char>) -> nat
    decreases s.len(),
{
    if s.len() == 0 {
        0
    } else if s[0] != '\\' {
        1 + literal_len(s.skip(1))
    } else if s.len() == 1 {
        1
    } else if is_special(s[1]) {
        0
    } else {
        2 + literal_len(s.skip(2))
    }
}

/// The tokens of `s`: maximal literal runs, and the escapes between them.
pub open spec fn tokenize(s: Seq<char>) -> Seq<TokenView>
    decreases s.len(),
{
    if s.len() == 0 {
        Seq::empty()
    } else if starts_with_escape(s) {
        seq![TokenView::Escape(s[1])] + tokenize(s.skip(2))
    } else {
        let n = literal_len(s);
        if 0 < n <= s.len() {
            seq![TokenView::Text(s.take(n as int))] + tokenize(s.skip(n as int))
        } else {
            Seq::empty()
        }
    }
}

/// What a token stands for: its text, or the escaped character itself.
pub open spec fn token_content(t: TokenView) -> Seq<char> {
    match t {
        TokenView::Text(s) => s,
        TokenView::Escape(c) => seq![c],
    }
}

/// How a token was written: its text, or a backslash and the character.
pub open spec fn token_source(t: TokenView) -> Seq<char> {
    match t {
        TokenView::Text(s) => s,
        TokenView::Escape(c) => seq!['\\', c],
    }
}

/// The contents of `tokens`, one after the other.
pub open spec fn contents(tokens: Seq<TokenView>) -> Seq<char>
    decreases tokens.len(),
{
    if tokens.len() == 0 {
        Seq::empty()
    } else {
        token_content(tokens[0]) + contents(tokens.skip(1))
    }
}

/// `tokens` as they were written, one after the other.
pub open spec fn sources(tokens: Seq<TokenView>) -> Seq<char>
    decreases tokens.len(),
{
    if tokens.len() == 0 {
        Seq::empty()
    } else {
        token_source(tokens[0]) + sources(tokens.skip(1))
    }
}

/// `s` without the backslash of each escape. A backslash that starts no
/// escape stays, and so does the character behind it.
pub open spec fn unescaped(s: Seq<char>) -> Seq<char>
    decreases s.len(),
{
    if s.len() == 0 {
        Seq::empty()
    } else if starts_with_escape(s) {
        seq![s[1]] + unescaped(s.skip(2))
    } else if s[0] == '\\' && s.len() >= 2 {
        seq![s[0], s[1]] + unescaped(s.skip(2))
    } else {
        seq![s[0]] + unescaped(s.skip(1))
    }
}

/// The views of a vector of tokens.
pub open spec fn token_views(tokens: Seq<Token>) -> Seq<TokenView> {
    tokens.map_values(|t: Token| t@)
}

/// A literal run is never longer than the text it is found in.
pub proof fn lemma_literal_len_bound(s: Seq<char>)
    ensures
        literal_len(s) <= s.len(),
    decreases s.len(),
{
    if s.len() == 0 {
    } else if s[0] != '\\' {
        lemma_literal_len_bound(s.skip(1));
    } else if s.len() == 1 {
    } else if is_special(s[1]) {
    } else {
        lemma_literal_len_bound(s.skip(2));
    }
}

/// A text that begins with a literal run of `k > 0` characters has that run
/// as its first token.
pub proof fn lemma_tokenize_text(s: Seq<char>, k: nat)
    requires
        literal_len(s) == k,
        k > 0,
    ensures
        k <= s.len(),
        tokenize(s) == seq![TokenView::Text(s.take(k as int))] + tokenize(s.skip(k as int)),
{
    lemma_literal_len_bound(s);
}

/// A text that begins with an escape has it as its first token.
pub proof fn lemma_tokenize_escape(s: Seq<char>)
    requires
        starts_with_escape(s),
    ensures
        tokenize(s) == seq![TokenView::Escape(s[1])] + tokenize(s.skip(2)),
{
}

/// Removing the escapes' backslashes from a literal run changes nothing,
/// and what follows the run is unescaped on its own.
pub proof fn lemma_unescaped_literal(s: Seq<char>)
    ensures
        literal_len(s) <= s.len(),
        unescaped(s) == s.take(literal_len(s) as int) + unescaped(s.skip(literal_len(s) as int)),
    decreases s.len(),
{
    lemma_literal_len_bound(s);
    let k = literal_len(s) as int;
    if s.len() == 0 {
        assert(s.take(0) + unescaped(s.skip(0)) =~= unescaped(s));
    } else if s[0] != '\\' {
        let r = s.skip(1);
        lemma_unescaped_literal(r);
        let j = literal_len(r) as int;
        assert(r.skip(j) =~= s.skip(k));
        assert(seq![s[0]] + r.take(j) =~= s.take(k));
        assert(unescaped(s) =~= s.take(k) + unescaped(s.skip(k)));
    } else if s.len() == 1 {
        assert(s.take(1) =~= seq![s[0]]);
        assert(s.skip(1).len() == 0);
        assert(unescaped(s) =~= s.take(k) + unescaped(s.skip(k)));
    } else if is_special(s[1]) {
        assert(s.skip(0) =~= s);
        assert(s.take(0) + unescaped(s) =~= unescaped(s));
    } else {
        let r = s.skip(2);
        lemma_unescaped_literal(r);
        let j = literal_len(r) as int;
        assert(r.skip(j) =~= s.skip(k));
        assert(seq![s[0], s[1]] + r.take(j) =~= s.take(k));
        assert(unescaped(s) =~= s.take(k) + unescaped(s.skip(k)));
    }
}

/// Tokenizing and then concatenating the tokens' contents gives the input
/// with the backslash of each escape removed.
pub proof fn lemma_contents_of_tokens(s: Seq<char>)
    ensures
        contents(tokenize(s)) == unescaped(s),
    decreases s.len(),
{
    if s.len() == 0 {
    } else if starts_with_escape(s) {
        let rest = tokenize(s.skip(2));
        lemma_contents_of_tokens(s.skip(2));
        let all = seq![TokenView::Escape(s[1])] + rest;
        assert(all.skip(1) =~= rest);
        assert(all[0] == TokenView::Escape(s[1]));
    } else {
        lemma_unescaped_literal(s);
        let k = literal_len(s);
        if k > 0 {
            lemma_tokenize_text(s, k);
            let rest = tokenize(s.skip(k as int));
            lemma_contents_of_tokens(s.skip(k as int));
            let all = seq![TokenView::Text(s.take(k as int))] + rest;
            assert(all.skip(1) =~= rest);
            assert(all[0] == TokenView::Text(s.take(k as int)));
        }
    }
}

/// Writing the tokens of `s` out again, each escape with its backslash,
/// gives `s` back.
pub proof fn lemma_sources_of_tokens(s: Seq<char>)
    ensures
        sources(tokenize(s)) == s,
    decreases s.len(),
{
    if s.len() == 0 {
        assert(sources(tokenize(s)) =~= s);
    } else if starts_with_escape(s) {
        let rest = tokenize(s.skip(2));
        lemma_sources_of_tokens(s.skip(2));
        let all = seq![TokenView::Escape(s[1])] + rest;
        assert(all.skip(1) =~= rest);
        assert(all[0] == TokenView::Escape(s[1]));
        assert(seq!['\\', s[1]] + s.skip(2) =~= s);
    } else {
        lemma_literal_len_bound(s);
        let k = literal_len(s);
        assert(k > 0);
        lemma_tokenize_text(s, k);
        let rest = tokenize(s.skip(k as int));
        lemma_sources_of_tokens(s.skip(k as int));
        let all = seq![TokenView::Text(s.take(k as int))] + rest;
        assert(all.skip(1) =~= rest);
        assert(all[0] == TokenView::Text(s.take(k as int)));
        assert(s.take(k as int) + s.skip(k as int) =~= s);
    }
}

/// Every text token is non-empty, and every escape token holds one of the
/// four escapable characters.
pub proof fn lemma_tokens_well_formed(s: Seq<char>)
    ensures
        forall|i: int|
            0 <= i < tokenize(s).len() ==> match #[trigger] tokenize(s)[i] {
                TokenView::Text(t) => t.len() > 0,
                TokenView::Escape(c) => is_special(c),
            },
    decreases s.len(),
{
    if s.len() == 0 {
    } else if starts_with_escape(s) {
        lemma_tokens_well_formed(s.skip(2));
    } else {
        lemma_literal_len_bound(s);
        let k = literal_len(s);
        assert(k > 0);
        lemma_tokenize_text(s, k);
        lemma_tokens_well_formed(s.skip(k as int));
    }
}

/// Whether `c` is one of the four characters that a backslash escapes.
pub fn special_char(c: char) -> (r: bool)
    ensures
        r == is_special(c),
{
    c == '\\' || c == '=' || c == '@' || c == ':'
}

/// Splits `src` into tokens.
///
/// A backslash followed by one of `\ = @ :` becomes an escape token for that
/// character. Everything else is literal text, gathered into maximal runs,
/// a backslash that starts no escape included.
pub fn gather_escape(src: &str) -> (tokens: Vec<Token>)
    ensures
        token_views(tokens@) == tokenize(src@),
{
    let v = chars_of(src);
    let n: usize = v.len();
    let mut tokens: Vec<Token> = Vec::new();
    let mut start: usize = 0;
    let mut end: usize = 0;
    proof {
        assert(v@.skip(0) =~= v@);
        assert(token_views(tokens@) =~= Seq::<TokenView>::empty());
        assert(token_views(tokens@) + tokenize(v@.skip(0)) =~= tokenize(v@));
    }
    loop
        invariant
            v@ == src@,
            n == v@.len(),
            start <= end <= n,
            token_views(tokens@) + tokenize(v@.skip(start as int)) == tokenize(v@),
            literal_len(v@.skip(start as int)) == (end - start) + literal_len(
                v@.skip(end as int),
            ),
        decreases n - end,
    {
        let ghost rest = v@.skip(start as int);
        let ghost tail = v@.skip(end as int);
        if end == n {
            if start != end {
                let text = string_of(&v, start, end);
                proof {
                    assert(tail =~= Seq::<char>::empty());
                    assert(text@ =~= rest.take(end - start));
                    assert(rest.skip(end - start) =~= Seq::<char>::empty());
                    lemma_tokenize_text(rest, (end - start) as nat);
                    lemma_push_view(tokens@, Token::Text(text));
                    assert(token_views(tokens@.push(Token::Text(text))) =~= tokenize(v@));
                }
                tokens.push(Token::Text(text));
            } else {
                proof {
                    assert(rest =~= Seq::<char>::empty());
                    assert(token_views(tokens@) =~= tokenize(v@));
                }
            }
            return tokens;
        }
        let c = v[end];
        if c != '\\' {
            proof {
                assert(tail[0] == c);
                assert(tail.skip(1) =~= v@.skip(end + 1));
            }
            end = end + 1;
            continue ;
        }
        if end + 1 == n {
            let text = string_of(&v, start, n);
            proof {
                assert(tail.len() == 1 && tail[0] == '\\');
                assert(text@ =~= rest.take(n - start));
                assert(rest.skip(n - start) =~= Seq::<char>::empty());
                lemma_tokenize_text(rest, (n - start) as nat);
                lemma_push_view(tokens@, Token::Text(text));
                assert(token_views(tokens@.push(Token::Text(text))) =~= tokenize(v@));
            }
            tokens.push(Token::Text(text));
            return tokens;
        }
        let d = v[end + 1];
        if special_char(d) {
            proof {
                assert(tail[0] == c && tail[1] == d);
                assert(starts_with_escape(tail));
                assert(literal_len(tail) == 0);
            }
            if start != end {
                let text = string_of(&v, start, end);
                proof {
                    assert(text@ =~= rest.take(end - start));
                    assert(rest.skip(end - start) =~= tail);
                    lemma_tokenize_text(rest, (end - start) as nat);
                    lemma_push_view(tokens@, Token::Text(text));
                    assert(token_views(tokens@.push(Token::Text(text))) + tokenize(tail)
                        =~= tokenize(v@));
                }
                tokens.push(Token::Text(text));
            }
            proof {
                assert(token_views(tokens@) + tokenize(tail) == tokenize(v@));
                assert(tail.skip(2) =~= v@.skip(end + 2));
                lemma_tokenize_escape(tail);
                lemma_push_view(tokens@, Token::Escape(d));
                assert(token_views(tokens@.push(Token::Escape(d))) + tokenize(
                    v@.skip(end + 2),
                ) =~= tokenize(v@));
                assert(v@.skip(end + 2).skip(0) =~= v@.skip(end + 2));
            }
            tokens.push(Token::Escape(d));
            end = end + 2;
            start = end;
        } else {
            proof {
                assert(tail[0] == c && tail[1] == d);
                assert(tail.skip(2) =~= v@.skip(end + 2));
            }
            end = end + 2;
        }
    }
}

/// Pushing a token appends its view to the views.
pub proof fn lemma_push_view(tokens: Seq<Token>, t: Token)
    ensures
        token_views(tokens.push(t)) == token_views(tokens) + seq![t@],
{
    assert(token_views(tokens.push(t)) =~= token_views(tokens) + seq![t@]);
}

} // verus!

//! The parser of parameter expressions: finds the separator among the
//! tokens and splits them into key and value.

use vstd::prelude::*;
use vstd::string::*;
use crate::errors::Error;
use crate::param::{
    classified,
    first_sep_from,
    first_sep_token_from,
    is_sep_char,
    longest_at,
    parsed,
    resolution,
    sep_text,
    token_has_sep_char,
    Parameter,
    Separator,
    Split,
};
use crate::text::{chars_of, push_char, string_of};
use crate::token::{contents, gather_escape, token_content, token_views, Token, TokenView};

verus! {

impl Separator {
    /// The separator that `value` is, if it is one.
    pub fn try_from(value: &str) -> (r: Result<Separator, ()>)
        ensures
            match r {
                Ok(sep) => value@ == sep_text(sep),
                Err(_) => forall|sep: Separator| value@ != sep_text(sep),
            },
    {
        let v = chars_of(value);
        let n: usize = v.len();
        if n == 0 || n > 3 || !sep_char(v[0]) {
            return Err(());
        }
        let sep = longest_separator(&v, 0);
        if sep.len() == n {
            assert(value@ =~= sep_text(sep));
            Ok(sep)
        } else {
            Err(())
        }
    }

    /// The separator as it is written.
    pub fn text(&self) -> (r: &'static str)
        ensures
            r@ == sep_text(*self),
    {
        proof {
            reveal_strlit(":");
            reveal_strlit("=");
            reveal_strlit("@");
            reveal_strlit(":=");
            reveal_strlit("==");
            reveal_strlit("=@");
            reveal_strlit(":=@");
        }
        let r = match self {
            Separator::Colon => ":",
            Separator::Equal => "=",
            Separator::At => "@",
            Separator::ColonEqual => ":=",
            Separator::EqualEqual => "==",
            Separator::EqualAt => "=@",
            Separator::Snail => ":=@",
        };
        assert(r@ =~= sep_text(*self));
        r
    }

    /// The number of characters of the separator.
    pub fn len(&self) -> (n: usize)
        ensures
            n == sep_text(*self).len(),
            1 <= n <= 3,
    {
        match self {
            Separator::Colon => 1,
            Separator::Equal => 1,
            Separator::At => 1,
            Separator::ColonEqual => 2,
            Separator::EqualEqual => 2,
            Separator::EqualAt => 2,
            Separator::Snail => 3,
        }
    }
}

/// Whether `c` is a character that separators are made of.
pub fn sep_char(c: char) -> (r: bool)
    ensures
        r == is_sep_char(c),
{
    c == ':' || c == '=' || c == '@'
}

/// Between `from` and the first separator character behind it there is no
/// separator character.
pub proof fn lemma_first_sep_from(t: Seq<char>, from: int)
    requires
        0 <= from <= t.len(),
    ensures
        from <= first_sep_from(t, from) <= t.len(),
        first_sep_from(t, from) < t.len() ==> is_sep_char(t[first_sep_from(t, from)]),
        forall|k: int| from <= k < first_sep_from(t, from) ==> !is_sep_char(#[trigger] t[k]),
    decreases t.len() - from,
{
    if from < t.len() && !is_sep_char(t[from]) {
        lemma_first_sep_from(t, from + 1);
    }
}

/// The longest separator at a separator character fits into the text.
pub proof fn lemma_longest_fits(t: Seq<char>, at: int)
    requires
        0 <= at < t.len(),
        is_sep_char(t[at]),
    ensures
        at + sep_text(longest_at(t, at)).len() <= t.len(),
{
}

/// The offset of the first separator character of `v`, or its length if it
/// has none.
pub fn find_separator(v: &Vec<char>) -> (at: usize)
    ensures
        at == first_sep_from(v@, 0),
        at <= v@.len(),
{
    let n: usize = v.len();
    let mut i: usize = 0;
    while i < n
        invariant
            n == v@.len(),
            i <= n,
            first_sep_from(v@, 0) == first_sep_from(v@, i as int),
        decreases n - i,
    {
        if sep_char(v[i]) {
            return i;
        }
        i = i + 1;
    }
    i
}

/// The longest separator written in `v` at offset `at`.
pub fn longest_separator(v: &Vec<char>, at: usize) -> (sep: Separator)
    requires
        at < v@.len(),
        is_sep_char(v@[at as int]),
    ensures
        sep == longest_at(v@, at as int),
{
    let n: usize = v.len();
    let c = v[at];
    if c == ':' {
        if at + 1 < n && v[at + 1] == '=' {
            if at + 2 < n && v[at + 2] == '@' {
                Separator::Snail
            } else {
                Separator::ColonEqual
            }
        } else {
            Separator::Colon
        }
    } else if c == '=' {
        if at + 1 < n && v[at + 1] == '=' {
            Separator::EqualEqual
        } else if at + 1 < n && v[at + 1] == '@' {
            Separator::EqualAt
        } else {
            Separator::Equal
        }
    } else {
        Separator::At
    }
}

/// Finds where `tokens` are split: the first text token that holds a
/// separator, the leftmost separator in it, and of those written there the
/// longest. `None` where no text token holds one.
pub fn resolve(tokens: &Vec<Token>) -> (r: Option<Split>)
    ensures
        match r {
            Some(split) => resolution(token_views(tokens@)) == Some(split@),
            None => resolution(token_views(tokens@)) is None,
        },
{
    let n: usize = tokens.len();
    let ghost views = token_views(tokens@);
    let mut i: usize = 0;
    while i < n
        invariant
            n == tokens@.len(),
            views == token_views(tokens@),
            i <= n,
            first_sep_token_from(views, 0) == first_sep_token_from(views, i as int),
        decreases n - i,
    {
        assert(views[i as int] == tokens@[i as int]@);
        match &tokens[i] {
            Token::Text(s) => {
                let v = chars_of(s.as_str());
                let at = find_separator(&v);
                if at < v.len() {
                    proof {
                        lemma_first_sep_from(v@, 0);
                    }
                    let separator = longest_separator(&v, at);
                    return Some(Split { index: i, offset: at, separator });
                }
            },
            Token::Escape(_) => {},
        }
        i = i + 1;
    }
    None
}

/// The contents of tokens followed by one more are the contents of the
/// tokens followed by the content of that one.
pub proof fn lemma_contents_push(tokens: Seq<TokenView>, t: TokenView)
    ensures
        contents(tokens.push(t)) == contents(tokens) + token_content(t),
    decreases tokens.len(),
{
    if tokens.len() == 0 {
        let one = tokens.push(t);
        assert(one.skip(1) =~= Seq::<TokenView>::empty());
        assert(one[0] == t);
        assert(contents(one.skip(1)) =~= Seq::<char>::empty());
        assert(contents(one) == token_content(t) + contents(one.skip(1)));
        assert(contents(tokens) =~= Seq::<char>::empty());
        assert(contents(one) =~= contents(tokens) + token_content(t));
    } else {
        lemma_contents_push(tokens.skip(1), t);
        assert(tokens.push(t).skip(1) =~= tokens.skip(1).push(t));
        assert(contents(tokens.push(t)) =~= contents(tokens) + token_content(t));
    }
}

/// Appends to `out` what `t` stands for.
pub fn append_token(out: &mut String, t: &Token)
    ensures
        final(out)@ == old(out)@ + token_content(t@),
{
    match t {
        Token::Text(s) => {
            out.append(s.as_str());
        },
        Token::Escape(c) => {
            push_char(out, *c);
            assert(old(out)@.push(*c) =~= old(out)@ + seq![*c]);
        },
    }
}

/// Makes the parameter that `tokens` stand for when split at `split`.
pub fn classify(tokens: &Vec<Token>, split: &Split) -> (p: Parameter)
    requires
        split.index < tokens@.len(),
        split.offset + sep_text(split.separator).len() <= token_content(
            tokens@[split.index as int]@,
        ).len(),
    ensures
        p@ == classified(token_views(tokens@), split@),
{
    let n: usize = tokens.len();
    let index: usize = split.index;
    let ghost views = token_views(tokens@);
    let mut key = String::new();
    let mut i: usize = 0;
    assert(views.take(0) =~= Seq::<TokenView>::empty());
    while i < index
        invariant
            n == tokens@.len(),
            views == token_views(tokens@),
            i <= index < n,
            key@ == contents(views.take(i as int)),
        decreases index - i,
    {
        proof {
            lemma_contents_push(views.take(i as int), views[i as int]);
            assert(views.take(i as int).push(views[i as int]) =~= views.take(i + 1));
        }
        append_token(&mut key, &tokens[i]);
        i = i + 1;
    }
    let mut middle = String::new();
    append_token(&mut middle, &tokens[index]);
    let v = chars_of(middle.as_str());
    let ghost t = token_content(views[index as int]);
    assert(v@ =~= t);
    let sep_len: usize = split.separator.len();
    let width: usize = v.len();
    assert(split.offset + sep_len <= width);
    let left = string_of(&v, 0, split.offset);
    let mut value = string_of(&v, split.offset + sep_len, width);
    key.append(left.as_str());
    proof {
        assert(left@ =~= t.take(split.offset as int));
        assert(value@ =~= t.skip(split.offset + sep_text(split.separator).len()));
        assert(views.subrange(index + 1, index + 1) =~= Seq::<TokenView>::empty());
        assert(value@ =~= t.skip(split.offset + sep_text(split.separator).len()) + contents(
            views.subrange(index + 1, index + 1),
        ));
    }
    let mut j: usize = index + 1;
    while j < n
        invariant
            n == tokens@.len(),
            views == token_views(tokens@),
            index < j <= n,
            value@ == t.skip(split.offset + sep_text(split.separator).len()) + contents(
                views.subrange(index + 1, j as int),
            ),
        decreases n - j,
    {
        proof {
            lemma_contents_push(views.subrange(index + 1, j as int), views[j as int]);
            assert(views.subrange(index + 1, j as int).push(views[j as int]) =~= views.subrange(
                index + 1,
                j + 1,
            ));
        }
        append_token(&mut value, &tokens[j]);
        j = j + 1;
    }
    assert(views.subrange(index + 1, n as int) =~= views.skip(index + 1));
    Parameter::new(split.separator, key, value)
}

/// What `resolution` finds lies inside the text of a text token.
pub proof fn lemma_resolution_fits(tokens: Seq<TokenView>)
    ensures
        match resolution(tokens) {
            Some(split) => {
                &&& 0 <= split.index < tokens.len()
                &&& tokens[split.index] is Text
                &&& 0 <= split.offset
                &&& split.offset + sep_text(split.separator).len() <= token_content(
                    tokens[split.index],
                ).len()
            },
            None => true,
        },
{
    match resolution(tokens) {
        Some(split) => {
            lemma_first_sep_token_from(tokens, 0);
            let t = token_content(tokens[split.index]);
            lemma_first_sep_from(t, 0);
            lemma_longest_fits(t, split.offset);
        },
        None => {},
    }
}

/// Between `from` and the first token behind it that has a separator
/// character there is no such token.
pub proof fn lemma_first_sep_token_from(tokens: Seq<TokenView>, from: int)
    requires
        0 <= from <= tokens.len(),
    ensures
        from <= first_sep_token_from(tokens, from) <= tokens.len(),
        first_sep_token_from(tokens, from) < tokens.len() ==> token_has_sep_char(
            tokens[first_sep_token_from(tokens, from)],
        ),
        forall|k: int|
            from <= k < first_sep_token_from(tokens, from) ==> !token_has_sep_char(
                #[trigger] tokens[k],
            ),
    decreases tokens.len() - from,
{
    if from < tokens.len() && !token_has_sep_char(tokens[from]) {
        lemma_first_sep_token_from(tokens, from + 1);
    }
}

/// Parses one parameter expression.
///
/// The expression is split at the first separator that is written outside
/// an escape: the leftmost, and of those that start there the longest. The
/// separator decides the kind of the parameter. In key and value each
/// escape stands for its character. An expression without a separator is
/// refused, and the error holds the expression.
pub fn parse_param(src: &str) -> (r: Result<Parameter, Error>)
    ensures
        match r {
            Ok(p) => parsed(src@) == Some(p@),
            Err(e) => parsed(src@) is None && (e matches Error::ParameterMissingSeparator(s)
                && s@ == src@),
        },
{
    let tokens = gather_escape(src);
    proof {
        lemma_resolution_fits(token_views(tokens@));
    }
    match resolve(&tokens) {
        Some(split) => {
            assert(token_views(tokens@)[split.index as int] == tokens@[split.index as int]@);
            Ok(classify(&tokens, &split))
        },
        None => Err(Error::ParameterMissingSeparator(src.to_owned())),
    }
}

} // verus!

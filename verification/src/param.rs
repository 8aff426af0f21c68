//! Parameter expressions: `key<separator>value`, where the separator says
//! which part of the request the parameter belongs to.

use vstd::prelude::*;
use crate::token::{contents, token_content, tokenize, TokenView};

verus! {

/// The seven separators of a parameter expression.
#[derive(Debug, Clone, Copy, PartialEq, Eq, Structural)]
pub enum Separator {
    /// `:`
    Colon,
    /// `=`
    Equal,
    /// `@`
    At,
    /// `:=`
    ColonEqual,
    /// `==`
    EqualEqual,
    /// `=@`
    EqualAt,
    /// `:=@`
    Snail,
}

/// One parsed parameter of a request.
#[derive(Debug, Clone, PartialEq, Eq)]
pub enum Parameter {
    /// `key:value`, a request header.
    Header { key: String, value: String },
    /// `key=value`, a text field of the body.
    Data { key: String, value: String },
    /// `key:=value`, a field of the body whose value is JSON text.
    RawJsonData { key: String, value: String },
    /// `key==value`, a query parameter.
    Query { key: String, value: String },
    /// `key@filename`, a file to upload in a multipart form.
    FormFile { key: String, value: String },
    /// `key=@filename`, a text field of the body read from a file.
    DataFile { key: String, value: String },
    /// `key:=@filename`, a JSON field of the body read from a file.
    RawJsonDataFile { key: String, value: String },
}

/// The mathematical value of a [`Parameter`]: its separator, key and value.
pub struct ParameterView {
    pub kind: Separator,
    pub key: Seq<char>,
    pub value: Seq<char>,
}

impl View for Parameter {
    type V = ParameterView;

    open spec fn view(&self) -> ParameterView {
        match self {
            Parameter::Header { key, value } => ParameterView {
                kind: Separator::Colon,
                key: key@,
                value: value@,
            },
            Parameter::Data { key, value } => ParameterView {
                kind: Separator::Equal,
                key: key@,
                value: value@,
            },
            Parameter::RawJsonData { key, value } => ParameterView {
                kind: Separator::ColonEqual,
                key: key@,
                value: value@,
            },
            Parameter::Query { key, value } => ParameterView {
                kind: Separator::EqualEqual,
                key: key@,
                value: value@,
            },
            Parameter::FormFile { key, value } => ParameterView {
                kind: Separator::At,
                key: key@,
                value: value@,
            },
            Parameter::DataFile { key, value } => ParameterView {
                kind: Separator::EqualAt,
                key: key@,
                value: value@,
            },
            Parameter::RawJsonDataFile { key, value } => ParameterView {
                kind: Separator::Snail,
                key: key@,
                value: value@,
            },
        }
    }
}

impl Parameter {
    /// Whether this parameter uploads a file in a multipart form.
    pub fn is_form_file(&self) -> (r: bool)
        ensures
            r == (self@.kind == Separator::At),
    {
        match self {
            Parameter::FormFile { .. } => true,
            _ => false,
        }
    }

    /// Whether this parameter goes into the request's body: every kind but
    /// headers and query parameters.
    pub fn is_data(&self) -> (r: bool)
        ensures
            r == (self@.kind != Separator::Colon && self@.kind != Separator::EqualEqual),
    {
        match self {
            Parameter::Header { .. } => false,
            Parameter::Query { .. } => false,
            _ => true,
        }
    }

    /// Whether the parameter's value names a file.
    pub fn names_file(&self) -> (r: bool)
        ensures
            r == (self@.kind == Separator::At || self@.kind == Separator::EqualAt || self@.kind
                == Separator::Snail),
    {
        match self {
            Parameter::FormFile { .. } => true,
            Parameter::DataFile { .. } => true,
            Parameter::RawJsonDataFile { .. } => true,
            _ => false,
        }
    }

    /// The parameter's key.
    pub fn key(&self) -> (r: &String)
        ensures
            r@ == self@.key,
    {
        match self {
            Parameter::Header { key, .. } => key,
            Parameter::Data { key, .. } => key,
            Parameter::RawJsonData { key, .. } => key,
            Parameter::Query { key, .. } => key,
            Parameter::FormFile { key, .. } => key,
            Parameter::DataFile { key, .. } => key,
            Parameter::RawJsonDataFile { key, .. } => key,
        }
    }

    /// The parameter's value: a literal, JSON text, or a file name.
    pub fn value(&self) -> (r: &String)
        ensures
            r@ == self@.value,
    {
        match self {
            Parameter::Header { value, .. } => value,
            Parameter::Data { value, .. } => value,
            Parameter::RawJsonData { value, .. } => value,
            Parameter::Query { value, .. } => value,
            Parameter::FormFile { value, .. } => value,
            Parameter::DataFile { value, .. } => value,
            Parameter::RawJsonDataFile { value, .. } => value,
        }
    }

    /// The parameter of kind `kind` with the given key and value.
    pub fn new(kind: Separator, key: String, value: String) -> (p: Parameter)
        ensures
            p@ == (ParameterView { kind, key: key@, value: value@ }),
    {
        match kind {
            Separator::At => Parameter::FormFile { key, value },
            Separator::Equal => Parameter::Data { key, value },
            Separator::Colon => Parameter::Header { key, value },
            Separator::ColonEqual => Parameter::RawJsonData { key, value },
            Separator::EqualEqual => Parameter::Query { key, value },
            Separator::EqualAt => Parameter::DataFile { key, value },
            Separator::Snail => Parameter::RawJsonDataFile { key, value },
        }
    }
}

/// The characters that a separator is written with.
pub open spec fn sep_text(sep: Separator) -> Seq<char> {
    match sep {
        Separator::Colon => seq![':'],
        Separator::Equal => seq!['='],
        Separator::At => seq!['@'],
        Separator::ColonEqual => seq![':', '='],
        Separator::EqualEqual => seq!['=', '='],
        Separator::EqualAt => seq!['=', '@'],
        Separator::Snail => seq![':', '=', '@'],
    }
}

/// Whether `sep` is written in `t` at offset `at`.
pub open spec fn matches_at(t: Seq<char>, at: int, sep: Separator) -> bool {
    &&& 0 <= at
    &&& at + sep_text(sep).len() <= t.len()
    &&& t.subrange(at, at + sep_text(sep).len()) == sep_text(sep)
}

/// Whether any of the seven separators is written anywhere in `t`.
pub open spec fn has_separator(t: Seq<char>) -> bool {
    exists|at: int, sep: Separator| matches_at(t, at, sep)
}

/// Whether `t` is a text token in which a separator is written. An escape
/// token never holds a separator.
pub open spec fn token_has_separator(t: TokenView) -> bool {
    match t {
        TokenView::Text(s) => has_separator(s),
        TokenView::Escape(_) => false,
    }
}

/// The characters that separators are made of.
pub open spec fn is_sep_char(c: char) -> bool {
    c == ':' || c == '=' || c == '@'
}

/// The offset of the first separator character of `t` at or after `from`,
/// or the length of `t` if there is none.
pub open spec fn first_sep_from(t: Seq<char>, from: int) -> int
    decreases t.len() - from,
{
    if from < 0 || from >= t.len() {
        t.len() as int
    } else if is_sep_char(t[from]) {
        from
    } else {
        first_sep_from(t, from + 1)
    }
}

/// The longest separator written in `t` at offset `at`, where a separator
/// character stands.
pub open spec fn longest_at(t: Seq<char>, at: int) -> Separator {
    if t[at] == ':' {
        if at + 1 < t.len() && t[at + 1] == '=' {
            if at + 2 < t.len() && t[at + 2] == '@' {
                Separator::Snail
            } else {
                Separator::ColonEqual
            }
        } else {
            Separator::Colon
        }
    } else if t[at] == '=' {
        if at + 1 < t.len() && t[at + 1] == '=' {
            Separator::EqualEqual
        } else if at + 1 < t.len() && t[at + 1] == '@' {
            Separator::EqualAt
        } else {
            Separator::Equal
        }
    } else {
        Separator::At
    }
}

/// Where a parameter expression is split: the token, the offset in its
/// text, and the separator written there.
pub struct Split {
    pub index: usize,
    pub offset: usize,
    pub separator: Separator,
}

/// The mathematical value of a [`Split`].
pub struct SplitView {
    pub index: int,
    pub offset: int,
    pub separator: Separator,
}

impl View for Split {
    type V = SplitView;

    open spec fn view(&self) -> SplitView {
        SplitView {
            index: self.index as int,
            offset: self.offset as int,
            separator: self.separator,
        }
    }
}

/// Whether `t` is a text token with a separator character in it.
pub open spec fn token_has_sep_char(t: TokenView) -> bool {
    match t {
        TokenView::Text(s) => first_sep_from(s, 0) < s.len(),
        TokenView::Escape(_) => false,
    }
}

/// The index of the first token at or after `from` that has a separator
/// character in its text, or the number of tokens if there is none.
pub open spec fn first_sep_token_from(tokens: Seq<TokenView>, from: int) -> int
    decreases tokens.len() - from,
{
    if from < 0 || from >= tokens.len() {
        tokens.len() as int
    } else if token_has_sep_char(tokens[from]) {
        from
    } else {
        first_sep_token_from(tokens, from + 1)
    }
}

/// Where `tokens` are split: in the first text token that holds a separator,
/// at the leftmost separator in it, and of those written there the longest.
/// `None` where no text token holds a separator.
pub open spec fn resolution(tokens: Seq<TokenView>) -> Option<SplitView> {
    let index = first_sep_token_from(tokens, 0);
    if 0 <= index < tokens.len() {
        match tokens[index] {
            TokenView::Text(t) => {
                let offset = first_sep_from(t, 0);
                Some(SplitView { index, offset, separator: longest_at(t, offset) })
            },
            TokenView::Escape(_) => None,
        }
    } else {
        None
    }
}

/// The parameter that `tokens` make when split at `split`: the key is what
/// stands before the separator, the value what stands behind it, each
/// escape resolved to its character.
pub open spec fn classified(tokens: Seq<TokenView>, split: SplitView) -> ParameterView {
    let t = token_content(tokens[split.index]);
    ParameterView {
        kind: split.separator,
        key: contents(tokens.take(split.index)) + t.take(split.offset),
        value: t.skip(split.offset + sep_text(split.separator).len()) + contents(
            tokens.skip(split.index + 1),
        ),
    }
}

/// The parameter that the expression `src` stands for, or `None` where no
/// separator is written in it outside an escape.
pub open spec fn parsed(src: Seq<char>) -> Option<ParameterView> {
    match resolution(tokenize(src)) {
        Some(split) => Some(classified(tokenize(src), split)),
        None => None,
    }
}

} // verus!

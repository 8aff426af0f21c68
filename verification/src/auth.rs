//! Basic credentials as given on the command line: `username:password`.

use vstd::prelude::*;
use crate::text::{chars_of, string_of};

verus! {

/// The password that goes with a user name.
#[derive(Debug, Clone, PartialEq, Eq)]
pub enum Password {
    /// This password.
    Given(String),
    /// No password: the user name was followed by a colon and nothing else.
    Absent,
    /// The user name came alone: the password has to be asked for.
    Ask,
}

/// The mathematical value of a [`Password`].
pub enum PasswordView {
    Given(Seq<char>),
    Absent,
    Ask,
}

impl View for Password {
    type V = PasswordView;

    open spec fn view(&self) -> PasswordView {
        match self {
            Password::Given(p) => PasswordView::Given(p@),
            Password::Absent => PasswordView::Absent,
            Password::Ask => PasswordView::Ask,
        }
    }
}

/// The offset of the first colon of `s` at or after `from`, or the length
/// of `s` if there is none.
pub open spec fn first_colon_from(s: Seq<char>, from: int) -> int
    decreases s.len() - from,
{
    if from < 0 || from >= s.len() {
        s.len() as int
    } else if s[from] == ':' {
        from
    } else {
        first_colon_from(s, from + 1)
    }
}

/// The offset of the first character of `s` at or after `from` that is no
/// colon, or the length of `s` if there is none.
pub open spec fn colons_end_from(s: Seq<char>, from: int) -> int
    decreases s.len() - from,
{
    if from < 0 || from >= s.len() {
        s.len() as int
    } else if s[from] != ':' {
        from
    } else {
        colons_end_from(s, from + 1)
    }
}

/// The user name and password that `s` holds. The user name is what stands
/// before the first colon. The password is what stands behind that colon
/// and the colons that follow it directly; where nothing stands there,
/// there is no password. Without any colon the password is to be asked for.
pub open spec fn credentials(s: Seq<char>) -> (Seq<char>, PasswordView) {
    let colon = first_colon_from(s, 0);
    if 0 <= colon < s.len() {
        let start = colons_end_from(s, colon);
        if 0 <= start < s.len() {
            (s.take(colon), PasswordView::Given(s.skip(start)))
        } else {
            (s.take(colon), PasswordView::Absent)
        }
    } else {
        (s, PasswordView::Ask)
    }
}

/// Splits `s` into user name and password.
pub fn parse_auth(s: &str) -> (r: (String, Password))
    ensures
        (r.0@, r.1@) == credentials(s@),
{
    let v = chars_of(s);
    let n: usize = v.len();
    let mut colon: usize = 0;
    while colon < n && v[colon] != ':'
        invariant
            n == v@.len(),
            colon <= n,
            first_colon_from(v@, 0) == first_colon_from(v@, colon as int),
        decreases n - colon,
    {
        colon = colon + 1;
    }
    if colon == n {
        assert(v@.subrange(0, n as int) =~= v@);
        return (string_of(&v, 0, n), Password::Ask);
    }
    let mut start: usize = colon;
    while start < n && v[start] == ':'
        invariant
            n == v@.len(),
            colon <= start <= n,
            colons_end_from(v@, colon as int) == colons_end_from(v@, start as int),
        decreases n - start,
    {
        start = start + 1;
    }
    let username = string_of(&v, 0, colon);
    assert(v@.subrange(0, colon as int) =~= v@.take(colon as int));
    if start == n {
        (username, Password::Absent)
    } else {
        let password = string_of(&v, start, n);
        assert(v@.subrange(start as int, n as int) =~= v@.skip(start as int));
        (username, Password::Given(password))
    }
}

} // verus!

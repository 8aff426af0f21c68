//! Small string helpers over the `Seq<char>` view of `str` and `String`.

use vstd::prelude::*;
use vstd::string::*;

verus! {

/// Appends one character to `s`.
///
/// Trusted: `String::push` appends the given character to the end of the
/// string and changes nothing else.
#[verifier::external_body]
pub(crate) fn push_char(s: &mut String, c: char)
    ensures
        final(s)@ == old(s)@.push(c),
{
    s.push(c);
}

/// The characters of `s`, in order.
pub fn chars_of(s: &str) -> (out: Vec<char>)
    ensures
        out@ == s@,
{
    let n: usize = s.unicode_len();
    let mut out: Vec<char> = Vec::new();
    let mut i: usize = 0;
    while i < n
        invariant
            n == s@.len(),
            i <= n,
            out@ == s@.take(i as int),
        decreases n - i,
    {
        out.push(s.get_char(i));
        i = i + 1;
        assert(out@ =~= s@.take(i as int));
    }
    assert(s@.take(n as int) =~= s@);
    out
}

/// The string made of `v[from..to]`.
pub fn string_of(v: &Vec<char>, from: usize, to: usize) -> (out: String)
    requires
        from <= to <= v@.len(),
    ensures
        out@ == v@.subrange(from as int, to as int),
{
    let mut out = String::new();
    let mut i: usize = from;
    while i < to
        invariant
            from <= i <= to <= v@.len(),
            out@ == v@.subrange(from as int, i as int),
        decreases to - i,
    {
        push_char(&mut out, v[i]);
        i = i + 1;
        assert(out@ =~= v@.subrange(from as int, i as int));
    }
    out
}

/// `c` in lower case, where it is an ASCII capital letter; else `c`.
pub open spec fn lower_char(c: char) -> char {
    if 'A' <= c && c <= 'Z' {
        ((c as u8) + 32) as char
    } else {
        c
    }
}

/// `s` with each ASCII capital letter in lower case.
pub open spec fn lower(s: Seq<char>) -> Seq<char> {
    s.map_values(|c: char| lower_char(c))
}

/// `c` in lower case, where it is an ASCII capital letter; else `c`.
pub fn to_lower(c: char) -> (r: char)
    ensures
        r == lower_char(c),
{
    if 'A' <= c && c <= 'Z' {
        let b: u8 = c as u8;
        (b + 32) as char
    } else {
        c
    }
}

/// Whether `a` and `b` are equal but for the case of ASCII letters.
pub fn same_ignoring_case(a: &str, b: &str) -> (r: bool)
    ensures
        r == (lower(a@) == lower(b@)),
{
    let x = chars_of(a);
    let y = chars_of(b);
    let n: usize = x.len();
    if n != y.len() {
        assert(lower(a@).len() != lower(b@).len());
        return false;
    }
    let mut i: usize = 0;
    while i < n
        invariant
            x@ == a@,
            y@ == b@,
            n == x@.len(),
            n == y@.len(),
            i <= n,
            forall|k: int| 0 <= k < i ==> lower_char(#[trigger] x@[k]) == lower_char(y@[k]),
        decreases n - i,
    {
        if to_lower(x[i]) != to_lower(y[i]) {
            assert(lower(a@)[i as int] != lower(b@)[i as int]);
            return false;
        }
        i = i + 1;
    }
    assert(lower(a@) =~= lower(b@));
    true
}

/// The character of the decimal digit `d`.
pub open spec fn digit_char(d: nat) -> char {
    if d == 0 {
        '0'
    } else if d == 1 {
        '1'
    } else if d == 2 {
        '2'
    } else if d == 3 {
        '3'
    } else if d == 4 {
        '4'
    } else if d == 5 {
        '5'
    } else if d == 6 {
        '6'
    } else if d == 7 {
        '7'
    } else if d == 8 {
        '8'
    } else {
        '9'
    }
}

/// `n` in decimal digits, without leading zeros; `0` for zero.
pub open spec fn digits(n: nat) -> Seq<char>
    decreases n,
{
    if n < 10 {
        seq![digit_char(n)]
    } else {
        digits(n / 10).push(digit_char(n % 10))
    }
}

/// The character of the decimal digit `d`.
pub fn digit(d: u64) -> (c: char)
    requires
        d < 10,
    ensures
        c == digit_char(d as nat),
{
    if d == 0 {
        '0'
    } else if d == 1 {
        '1'
    } else if d == 2 {
        '2'
    } else if d == 3 {
        '3'
    } else if d == 4 {
        '4'
    } else if d == 5 {
        '5'
    } else if d == 6 {
        '6'
    } else if d == 7 {
        '7'
    } else if d == 8 {
        '8'
    } else {
        '9'
    }
}

/// `n` in decimal digits.
pub fn decimal(n: u64) -> (text: String)
    ensures
        text@ == digits(n as nat),
{
    let mut reversed: Vec<char> = Vec::new();
    let mut rest: u64 = n;
    assert(digits(n as nat) =~= digits(rest as nat) + reversed@.reverse());
    while rest >= 10
        invariant
            digits(n as nat) == digits(rest as nat) + reversed@.reverse(),
        decreases rest,
    {
        let ghost before = reversed@;
        let ghost old_rest = rest;
        reversed.push(digit(rest % 10));
        rest = rest / 10;
        proof {
            let d = digit_char((old_rest % 10) as nat);
            assert(reversed@.reverse() =~= seq![d] + before.reverse());
            assert(digits(old_rest as nat) =~= digits(rest as nat) + seq![d]);
            assert(digits(old_rest as nat) + before.reverse() =~= digits(rest as nat)
                + reversed@.reverse());
        }
    }
    let mut text = String::new();
    push_char(&mut text, digit(rest));
    let mut i: usize = reversed.len();
    proof {
        assert(text@ =~= digits(rest as nat) + reversed@.reverse().take(0));
    }
    while i > 0
        invariant
            i <= reversed@.len(),
            digits(n as nat) == digits(rest as nat) + reversed@.reverse(),
            text@ == digits(rest as nat) + reversed@.reverse().take(reversed@.len() - i),
        decreases i,
    {
        i = i - 1;
        push_char(&mut text, reversed[i]);
        proof {
            let r = reversed@.reverse();
            let k = reversed@.len() - i - 1;
            assert(r[k] == reversed@[i as int]);
            assert(r.take(k + 1) =~= r.take(k).push(r[k]));
            assert(text@ =~= digits(rest as nat) + r.take(k + 1));
        }
    }
    assert(reversed@.reverse().take(reversed@.len() as int) =~= reversed@.reverse());
    text
}

} // verus!

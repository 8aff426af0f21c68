//! The head of a response as it is shown: the status line, and the headers
//! with their names in title case, in alphabetical order.

use vstd::prelude::*;
use vstd::string::*;
use crate::request::pairs;
use crate::text::{chars_of, decimal, digits, push_char};

verus! {

/// `s` in title case: its words capitalized, with one space between them.
pub uninterp spec fn title_cased(s: Seq<char>) -> Seq<char>;

/// Puts `s` in title case.
///
/// Trusted: `heck::TitleCase::to_title_case` on `str`. The contract claims
/// only that the outcome is a function of the text, which it names
/// `title_cased`.
#[verifier::external_body]
pub(crate) fn title_case(s: &str) -> (r: String)
    ensures
        r@ == title_cased(s@),
{
    heck::TitleCase::to_title_case(s)
}

/// Whether `a` comes before `b`, or is `b`, where strings are ordered
/// character by character and a prefix comes before what it is a prefix of.
pub open spec fn lex_le(a: Seq<char>, b: Seq<char>) -> bool
    decreases a.len(),
{
    if a.len() == 0 {
        true
    } else if b.len() == 0 {
        false
    } else if a[0] == b[0] {
        lex_le(a.skip(1), b.skip(1))
    } else {
        (a[0] as u32) < (b[0] as u32)
    }
}

/// Whether each of the lines comes before those behind it, or equals them.
pub open spec fn is_sorted(lines: Seq<Seq<char>>) -> bool {
    forall|i: int, j: int| 0 <= i < j < lines.len() ==> lex_le(lines[i], lines[j])
}

/// The views of a vector of strings.
pub open spec fn lines_view(lines: Seq<String>) -> Seq<Seq<char>> {
    lines.map_values(|s: String| s@)
}

/// Sorts the lines.
///
/// Trusted: `sort` on a slice of `String`. It keeps the lines and puts them
/// in ascending order; strings are ordered by their bytes, which is the
/// order of their characters.
#[verifier::external_body]
pub(crate) fn sort_lines(lines: &mut Vec<String>)
    ensures
        lines_view(final(lines)@).to_multiset() == lines_view(old(lines)@).to_multiset(),
        is_sorted(lines_view(final(lines)@)),
{
    lines.sort();
}

/// `s` with a hyphen in the place of each space.
pub open spec fn dashed(s: Seq<char>) -> Seq<char> {
    s.map_values(
        |c: char|
            if c == ' ' {
                '-'
            } else {
                c
            },
    )
}

/// The name of a header as it is shown: in title case, its words joined by
/// hyphens.
pub open spec fn nice_name(key: Seq<char>) -> Seq<char> {
    dashed(title_cased(key))
}

/// One header as it is shown.
pub open spec fn header_line(key: Seq<char>, value: Seq<char>) -> Seq<char> {
    nice_name(key) + ": "@ + value
}

/// The line that tells the length of the content.
pub open spec fn length_line(content_length: nat) -> Seq<char> {
    "Content-Length: "@ + digits(content_length)
}

/// The lines of the headers, in the order given, and behind them the line
/// that tells the length of the content.
pub open spec fn head_lines(headers: Seq<(Seq<char>, Seq<char>)>, content_length: nat) -> Seq<
    Seq<char>,
> {
    headers.map_values(|h: (Seq<char>, Seq<char>)| header_line(h.0, h.1)).push(
        length_line(content_length),
    )
}

/// The first line of the head: version, status and reason, and a line
/// break.
pub open spec fn status_line(version: Seq<char>, status: nat, reason: Seq<char>) -> Seq<char> {
    version + " "@ + digits(status) + " "@ + reason + "\n"@
}

/// The lines, with a line break between each two.
pub open spec fn joined(lines: Seq<Seq<char>>) -> Seq<char>
    decreases lines.len(),
{
    if lines.len() == 0 {
        Seq::empty()
    } else if lines.len() == 1 {
        lines[0]
    } else {
        joined(lines.drop_last()) + "\n"@ + lines.last()
    }
}

/// `s` with a hyphen in the place of each space.
pub fn with_dashes(s: &str) -> (out: String)
    ensures
        out@ == dashed(s@),
{
    let v = chars_of(s);
    let n: usize = v.len();
    let mut out = String::new();
    let mut i: usize = 0;
    while i < n
        invariant
            v@ == s@,
            n == v@.len(),
            i <= n,
            out@ == dashed(s@).take(i as int),
        decreases n - i,
    {
        if v[i] == ' ' {
            push_char(&mut out, '-');
        } else {
            push_char(&mut out, v[i]);
        }
        i = i + 1;
        assert(out@ =~= dashed(s@).take(i as int));
    }
    assert(dashed(s@).take(n as int) =~= dashed(s@));
    out
}

/// The name of a header as it is shown.
pub fn nice_key(key: &str) -> (out: String)
    ensures
        out@ == nice_name(key@),
{
    let titled = title_case(key);
    with_dashes(titled.as_str())
}

/// The lines, with a line break between each two.
pub fn join_lines(lines: &Vec<String>) -> (text: String)
    ensures
        text@ == joined(lines_view(lines@)),
{
    let n: usize = lines.len();
    let ghost all = lines_view(lines@);
    let mut text = String::new();
    let mut i: usize = 0;
    assert(all.take(0) =~= Seq::empty());
    while i < n
        invariant
            n == lines@.len(),
            all == lines_view(lines@),
            i <= n,
            text@ == joined(all.take(i as int)),
        decreases n - i,
    {
        let ghost now = all.take(i + 1);
        assert(now.drop_last() =~= all.take(i as int));
        assert(now.last() == lines@[i as int]@);
        if i > 0 {
            text.append("\n");
        } else {
            assert(now[0] == now.last());
            assert(text@ + lines@[i as int]@ =~= lines@[i as int]@);
        }
        text.append(lines[i].as_str());
        i = i + 1;
    }
    assert(all.take(n as int) =~= all);
    text
}

/// The head of a response as it is shown: the status line, then one line
/// for each header and one for the length of the content, all in
/// alphabetical order.
pub fn response_head(
    version: &str,
    status: u16,
    reason: &str,
    headers: &Vec<(String, String)>,
    content_length: u64,
) -> (text: String)
    ensures
        exists|lines: Seq<Seq<char>>|
            {
                &&& #[trigger] is_sorted(lines)
                &&& lines.to_multiset() == head_lines(
                    pairs(headers@),
                    content_length as nat,
                ).to_multiset()
                &&& text@ == status_line(version@, status as nat, reason@) + joined(lines)
            },
{
    let mut text = String::from_str(version);
    text.append(" ");
    text.append(decimal(status as u64).as_str());
    text.append(" ");
    text.append(reason);
    text.append("\n");
    let n: usize = headers.len();
    let ghost shown = pairs(headers@).map_values(
        |h: (Seq<char>, Seq<char>)| header_line(h.0, h.1),
    );
    let mut lines: Vec<String> = Vec::new();
    let mut i: usize = 0;
    assert(lines_view(lines@) =~= shown.take(0));
    while i < n
        invariant
            n == headers@.len(),
            shown == pairs(headers@).map_values(|h: (Seq<char>, Seq<char>)| header_line(h.0, h.1)),
            i <= n,
            lines_view(lines@) == shown.take(i as int),
        decreases n - i,
    {
        let mut line = nice_key(headers[i].0.as_str());
        line.append(": ");
        line.append(headers[i].1.as_str());
        let ghost before = lines@;
        lines.push(line);
        proof {
            assert(pairs(headers@)[i as int] == (headers@[i as int].0@, headers@[i as int].1@));
            assert(line@ == shown[i as int]);
            assert(lines_view(lines@) =~= lines_view(before).push(line@));
            assert(shown.take(i + 1) =~= shown.take(i as int).push(shown[i as int]));
        }
        i = i + 1;
    }
    let mut last = String::from_str("Content-Length: ");
    last.append(decimal(content_length).as_str());
    let ghost before = lines@;
    lines.push(last);
    proof {
        assert(shown.take(n as int) =~= shown);
        assert(lines_view(lines@) =~= lines_view(before).push(last@));
        assert(lines_view(lines@) == head_lines(pairs(headers@), content_length as nat));
    }
    sort_lines(&mut lines);
    let body = join_lines(&lines);
    text.append(body.as_str());
    assert(is_sorted(lines_view(lines@)));
    text
}

} // verus!

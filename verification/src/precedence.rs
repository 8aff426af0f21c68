//! Who wins where the session and the request name the same header: the
//! request. And what the session then keeps: the request's value.

use vstd::prelude::*;
use crate::client::{filled, outgoing};
use crate::param::{ParameterView, Separator};
use crate::errors::Error;
use crate::request::{
    assembled, empty_assembly, json_outcome, stepped, AssemblyView, RequestView,
};
use crate::session::{
    carried,
    cookie_header,
    has_key,
    key_index_from,
    lookup,
    merged,
    recorded,
    stored,
    SessionView,
};
use crate::text::lower;

verus! {

/// Between `from` and the first header behind it that has the key there is
/// no header with the key.
pub proof fn lemma_key_index_from(headers: Seq<(Seq<char>, Seq<char>)>, key: Seq<char>, from: int)
    requires
        0 <= from <= headers.len(),
    ensures
        from <= key_index_from(headers, key, from) <= headers.len(),
        key_index_from(headers, key, from) < headers.len() ==> lower(
            headers[key_index_from(headers, key, from)].0,
        ) == lower(key),
        forall|k: int|
            from <= k < key_index_from(headers, key, from) ==> lower((#[trigger] headers[k]).0)
                != lower(key),
    decreases headers.len() - from,
{
    if from < headers.len() && lower(headers[from].0) != lower(key) {
        lemma_key_index_from(headers, key, from + 1);
    }
}

/// The first header with the key is at `at`, where one with the key stands
/// at `at` and none stands between `from` and `at`; and there is none,
/// where `at` is the number of headers.
pub proof fn lemma_key_index_is(
    headers: Seq<(Seq<char>, Seq<char>)>,
    key: Seq<char>,
    from: int,
    at: int,
)
    requires
        0 <= from <= at <= headers.len(),
        forall|k: int| from <= k < at ==> lower((#[trigger] headers[k]).0) != lower(key),
        at < headers.len() ==> lower(headers[at].0) == lower(key),
    ensures
        key_index_from(headers, key, from) == at,
    decreases at - from,
{
    if from < at {
        assert(lower(headers[from].0) != lower(key));
        lemma_key_index_is(headers, key, from + 1, at);
    }
}

/// Under the key that a value was stored with, in any case of its letters,
/// that value is found.
pub proof fn lemma_stored_found(
    headers: Seq<(Seq<char>, Seq<char>)>,
    key: Seq<char>,
    value: Seq<char>,
    asked: Seq<char>,
)
    requires
        lower(asked) == lower(key),
    ensures
        lookup(stored(headers, key, value), asked) == Some(value),
{
    let at = key_index_from(headers, key, 0);
    lemma_key_index_from(headers, key, 0);
    let after = stored(headers, key, value);
    assert forall|k: int| 0 <= k < at implies lower((#[trigger] after[k]).0) != lower(asked) by {
        assert(after[k] == headers[k]);
    }
    assert(after[at] == (key, value));
    lemma_key_index_is(after, asked, 0, at);
}

/// Storing a value under one key changes nothing under another.
pub proof fn lemma_stored_elsewhere(
    headers: Seq<(Seq<char>, Seq<char>)>,
    key: Seq<char>,
    value: Seq<char>,
    asked: Seq<char>,
)
    requires
        lower(asked) != lower(key),
    ensures
        lookup(stored(headers, key, value), asked) == lookup(headers, asked),
{
    let at = key_index_from(headers, key, 0);
    lemma_key_index_from(headers, key, 0);
    let found = key_index_from(headers, asked, 0);
    lemma_key_index_from(headers, asked, 0);
    let after = stored(headers, key, value);
    if found < headers.len() {
        assert(found != at);
        assert forall|k: int| 0 <= k < found implies lower((#[trigger] after[k]).0) != lower(
            asked,
        ) by {
            if k != at {
                assert(after[k] == headers[k]);
            }
        }
        assert(after[found] == headers[found]);
        lemma_key_index_is(after, asked, 0, found);
    } else {
        assert forall|k: int| 0 <= k < after.len() implies lower((#[trigger] after[k]).0) != lower(
            asked,
        ) by {
            if k != at && k < headers.len() {
                assert(after[k] == headers[k]);
            }
        }
        lemma_key_index_is(after, asked, 0, after.len() as int);
    }
}

/// After the headers among the parameters have been stored, a key holds
/// the value of the last header parameter that has it.
pub proof fn lemma_recorded_last_wins(
    headers: Seq<(Seq<char>, Seq<char>)>,
    params: Seq<ParameterView>,
    i: int,
)
    requires
        0 <= i < params.len(),
        params[i].kind == Separator::Colon,
        forall|j: int|
            i < j < params.len() && (#[trigger] params[j]).kind == Separator::Colon ==> lower(
                params[j].key,
            ) != lower(params[i].key),
    ensures
        lookup(recorded(headers, params), params[i].key) == Some(params[i].value),
    decreases params.len(),
{
    let before = recorded(headers, params.drop_last());
    let p = params.last();
    if i == params.len() - 1 {
        lemma_stored_found(before, p.key, p.value, p.key);
    } else {
        let front = params.drop_last();
        assert(front[i] == params[i]);
        assert forall|j: int|
            i < j < front.len() && (#[trigger] front[j]).kind == Separator::Colon implies lower(
            front[j].key,
        ) != lower(front[i].key) by {
            assert(front[j] == params[j]);
        }
        lemma_recorded_last_wins(headers, front, i);
        if p.kind == Separator::Colon {
            assert(params[params.len() - 1] == p);
            lemma_stored_elsewhere(before, p.key, p.value, params[i].key);
        }
    }
}

/// Parameters that are no headers leave the stored headers as they are.
pub proof fn lemma_recorded_without_headers(
    headers: Seq<(Seq<char>, Seq<char>)>,
    params: Seq<ParameterView>,
)
    requires
        forall|j: int| 0 <= j < params.len() ==> (#[trigger] params[j]).kind != Separator::Colon,
    ensures
        recorded(headers, params) == headers,
    decreases params.len(),
{
    if params.len() > 0 {
        let front = params.drop_last();
        assert forall|j: int| 0 <= j < front.len() implies (#[trigger] front[j]).kind
            != Separator::Colon by {
            assert(front[j] == params[j]);
        }
        lemma_recorded_without_headers(headers, front);
        assert(params[params.len() - 1].kind != Separator::Colon);
    }
}

/// Where a header with the key stands depends on the key's letters only,
/// not on their case.
pub proof fn lemma_key_index_case(
    headers: Seq<(Seq<char>, Seq<char>)>,
    key: Seq<char>,
    other: Seq<char>,
    from: int,
)
    requires
        lower(key) == lower(other),
    ensures
        key_index_from(headers, key, from) == key_index_from(headers, other, from),
    decreases headers.len() - from,
{
    if 0 <= from < headers.len() && lower(headers[from].0) != lower(key) {
        lemma_key_index_case(headers, key, other, from + 1);
    }
}

/// None of the headers that are carried over from the session has a key
/// that the request supplies.
pub proof fn lemma_carried_keys(
    kept: Seq<(Seq<char>, Seq<char>)>,
    supplied: Seq<(Seq<char>, Seq<char>)>,
    k: int,
)
    requires
        0 <= k < carried(kept, supplied).len(),
    ensures
        !has_key(supplied, carried(kept, supplied)[k].0),
    decreases kept.len(),
{
    if kept.len() > 0 {
        let before = carried(kept.drop_last(), supplied);
        if k < before.len() {
            lemma_carried_keys(kept.drop_last(), supplied, k);
        }
    }
}

/// A header that the request does not supply is carried over from the
/// session: under its key the carried headers hold what the session holds.
pub proof fn lemma_carried_holds(
    kept: Seq<(Seq<char>, Seq<char>)>,
    supplied: Seq<(Seq<char>, Seq<char>)>,
    key: Seq<char>,
)
    requires
        !has_key(supplied, key),
    ensures
        lookup(carried(kept, supplied), key) == lookup(kept, key),
    decreases kept.len(),
{
    lemma_key_index_from(kept, key, 0);
    lemma_key_index_from(carried(kept, supplied), key, 0);
    if kept.len() > 0 {
        let front = kept.drop_last();
        let last = kept.last();
        let before = carried(front, supplied);
        lemma_carried_holds(front, supplied, key);
        lemma_key_index_from(front, key, 0);
        lemma_key_index_from(before, key, 0);
        let at_front = key_index_from(front, key, 0);
        let at_before = key_index_from(before, key, 0);
        if at_front < front.len() {
            assert forall|k: int| 0 <= k < at_front implies lower((#[trigger] kept[k]).0) != lower(
                key,
            ) by {
                assert(kept[k] == front[k]);
            }
            assert(kept[at_front] == front[at_front]);
            lemma_key_index_is(kept, key, 0, at_front);
            let all = carried(kept, supplied);
            assert forall|k: int| 0 <= k < at_before implies lower((#[trigger] all[k]).0) != lower(
                key,
            ) by {
                assert(all[k] == before[k]);
            }
            assert(all[at_before] == before[at_before]);
            lemma_key_index_is(all, key, 0, at_before);
        } else {
            assert forall|k: int| 0 <= k < front.len() implies lower((#[trigger] kept[k]).0)
                != lower(key) by {
                assert(kept[k] == front[k]);
            }
            let all = carried(kept, supplied);
            if lower(last.0) == lower(key) {
                lemma_key_index_case(supplied, key, last.0, 0);
                assert(all == before.push(last));
                lemma_key_index_is(kept, key, 0, front.len() as int);
                assert forall|k: int| 0 <= k < before.len() implies lower((#[trigger] all[k]).0)
                    != lower(key) by {
                    assert(all[k] == before[k]);
                }
                lemma_key_index_is(all, key, 0, before.len() as int);
            } else {
                lemma_key_index_is(kept, key, 0, kept.len() as int);
                assert forall|k: int| 0 <= k < all.len() implies lower((#[trigger] all[k]).0)
                    != lower(key) by {
                    if k < before.len() {
                        assert(all[k] == before[k]);
                    }
                }
                lemma_key_index_is(all, key, 0, all.len() as int);
            }
        }
    }
}

/// Where the request supplies a header, the request that goes out holds
/// under its key what the request supplied, and nothing of what the session
/// held under that key.
pub proof fn lemma_supplied_header_wins(s: SessionView, r: RequestView, key: Seq<char>)
    requires
        has_key(r.headers, key),
    ensures
        !has_key(carried(s.headers, r.headers) + cookie_header(s.cookies, r.headers), key),
        lookup(merged(s, r).headers, key) == lookup(r.headers, key),
        key_index_from(merged(s, r).headers, key, 0) == carried(s.headers, r.headers).len()
            + cookie_header(s.cookies, r.headers).len() + key_index_from(r.headers, key, 0),
{
    let front = carried(s.headers, r.headers) + cookie_header(s.cookies, r.headers);
    let all = merged(s, r).headers;
    assert(all == front + r.headers);
    assert forall|k: int| 0 <= k < front.len() implies lower((#[trigger] front[k]).0) != lower(
        key,
    ) by {
        if lower(front[k].0) == lower(key) {
            lemma_key_index_case(r.headers, front[k].0, key, 0);
            if k < carried(s.headers, r.headers).len() {
                lemma_carried_keys(s.headers, r.headers, k);
            } else {
                assert(front[k].0 == "cookie"@);
            }
        }
    }
    lemma_key_index_is(front, key, 0, front.len() as int);
    let at = key_index_from(r.headers, key, 0);
    lemma_key_index_from(r.headers, key, 0);
    assert forall|k: int| 0 <= k < front.len() + at implies lower((#[trigger] all[k]).0) != lower(
        key,
    ) by {
        if k < front.len() {
            assert(all[k] == front[k]);
        } else {
            assert(all[k] == r.headers[k - front.len()]);
        }
    }
    assert(all[front.len() + at] == r.headers[at]);
    lemma_key_index_is(all, key, 0, front.len() + at);
}

/// The headers among the parameters, in order.
pub open spec fn header_pairs(params: Seq<ParameterView>) -> Seq<(Seq<char>, Seq<char>)>
    decreases params.len(),
{
    if params.len() == 0 {
        Seq::empty()
    } else if params[0].kind == Separator::Colon {
        seq![(params[0].key, params[0].value)] + header_pairs(params.skip(1))
    } else {
        header_pairs(params.skip(1))
    }
}

/// Where the parameters can be assembled, the headers of the assembly are
/// those it had, and behind them the headers among the parameters.
pub proof fn lemma_assembled_headers(
    a: AssemblyView,
    params: Seq<ParameterView>,
    files: Seq<Result<Seq<char>, std::io::ErrorKind>>,
)
    requires
        params.len() == files.len(),
    ensures
        match assembled(a, params, files) {
            Ok(b) => b.headers == a.headers + header_pairs(params),
            Err(_) => true,
        },
    decreases params.len(),
{
    if params.len() == 0 {
        assert(a.headers + header_pairs(params) =~= a.headers);
    } else {
        match stepped(a, params[0], files[0], json_outcome(params[0], files[0])) {
            Ok(next) => {
                lemma_assembled_headers(next, params.skip(1), files.skip(1));
                match assembled(a, params, files) {
                    Ok(b) => {
                        assert(b.headers =~= a.headers + header_pairs(params));
                    },
                    Err(_) => {},
                }
            },
            Err(_) => {},
        }
    }
}

/// A header among the parameters is among their headers.
pub proof fn lemma_header_pairs_has(params: Seq<ParameterView>, i: int)
    requires
        0 <= i < params.len(),
        params[i].kind == Separator::Colon,
    ensures
        has_key(header_pairs(params), params[i].key),
    decreases params.len(),
{
    let all = header_pairs(params);
    let key = params[i].key;
    let rest = header_pairs(params.skip(1));
    if i > 0 {
        assert(params.skip(1)[i - 1] == params[i]);
        lemma_header_pairs_has(params.skip(1), i - 1);
        lemma_key_index_from(rest, key, 0);
        let at = key_index_from(rest, key, 0);
        if params[0].kind == Separator::Colon {
            if lower(params[0].key) == lower(key) {
                lemma_key_index_is(all, key, 0, 0);
            } else {
                assert forall|k: int| 0 <= k < at + 1 implies lower((#[trigger] all[k]).0)
                    != lower(key) by {
                    if k > 0 {
                        assert(all[k] == rest[k - 1]);
                    }
                }
                assert(all[at + 1] == rest[at]);
                lemma_key_index_is(all, key, 0, at + 1);
            }
        }
    } else {
        lemma_key_index_is(all, key, 0, 0);
    }
}

/// A header that is given as a parameter goes out as it was given: under
/// its key the request that goes out holds what the parameters hold, with
/// or without a session, whatever the session holds under that key.
pub proof fn lemma_outgoing_header(
    session: Option<SessionView>,
    base: RequestView,
    params: Seq<ParameterView>,
    files: Seq<Result<Seq<char>, std::io::ErrorKind>>,
    a: AssemblyView,
    is_multipart: bool,
    is_form: bool,
    auth: Option<Seq<char>>,
    token: Option<Seq<char>>,
    i: int,
)
    requires
        params.len() == files.len(),
        base.headers.len() == 0,
        assembled(empty_assembly(is_multipart), params, files) == Ok::<AssemblyView, Error>(a),
        0 <= i < params.len(),
        params[i].kind == Separator::Colon,
    ensures
        lookup(outgoing(session, filled(base, a, is_form), auth, token).headers, params[i].key)
            == lookup(header_pairs(params), params[i].key),
        lookup(header_pairs(params), params[i].key) is Some,
{
    lemma_assembled_headers(empty_assembly(is_multipart), params, files);
    lemma_header_pairs_has(params, i);
    let request = filled(base, a, is_form);
    assert(request.headers =~= header_pairs(params));
    match session {
        Some(s) => {
            lemma_supplied_header_wins(s, request, params[i].key);
        },
        None => {},
    }
}

} // verus!

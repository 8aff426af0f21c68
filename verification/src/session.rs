//! A session: what is kept from one request to the next for one host under
//! one name. Headers are stored by key, ignoring the case of ASCII letters.

use vstd::prelude::*;
use vstd::string::*;
use crate::auth::{credentials, parse_auth};
use crate::param::{Parameter, ParameterView, Separator};
use crate::request::{pairs, param_views, RequestDescriptor, RequestView};
use crate::text::{chars_of, lower, push_char, same_ignoring_case};

verus! {

/// What is kept between requests.
#[derive(Debug, Clone, PartialEq, Eq)]
pub struct Session {
    /// The name that the user gave the session.
    pub name: String,
    /// The host that the session belongs to, in a form that is safe as a
    /// file name.
    pub host: String,
    /// The credentials for basic authentication, as they were given.
    pub auth: Option<String>,
    /// The token for bearer authentication.
    pub token: Option<String>,
    /// The request headers to send again.
    pub headers: Vec<(String, String)>,
    /// The cookies that the server set, by name.
    pub cookies: Vec<(String, String)>,
    /// The headers of the last response.
    pub response_headers: Vec<(String, String)>,
}

/// The mathematical value of a [`Session`].
pub struct SessionView {
    pub name: Seq<char>,
    pub host: Seq<char>,
    pub auth: Option<Seq<char>>,
    pub token: Option<Seq<char>>,
    pub headers: Seq<(Seq<char>, Seq<char>)>,
    pub cookies: Seq<(Seq<char>, Seq<char>)>,
    pub response_headers: Seq<(Seq<char>, Seq<char>)>,
}

/// The view of a string that may be missing.
pub open spec fn opt_view(s: Option<String>) -> Option<Seq<char>> {
    match s {
        Some(x) => Some(x@),
        None => None,
    }
}

impl View for Session {
    type V = SessionView;

    open spec fn view(&self) -> SessionView {
        SessionView {
            name: self.name@,
            host: self.host@,
            auth: opt_view(self.auth),
            token: opt_view(self.token),
            headers: pairs(self.headers@),
            cookies: pairs(self.cookies@),
            response_headers: pairs(self.response_headers@),
        }
    }
}

/// The index of the first header at or after `from` whose key is `key`,
/// ignoring the case of ASCII letters; the number of headers if there is
/// none.
pub open spec fn key_index_from(
    headers: Seq<(Seq<char>, Seq<char>)>,
    key: Seq<char>,
    from: int,
) -> int
    decreases headers.len() - from,
{
    if from < 0 || from >= headers.len() {
        headers.len() as int
    } else if lower(headers[from].0) == lower(key) {
        from
    } else {
        key_index_from(headers, key, from + 1)
    }
}

/// Whether one of the headers has the key `key`.
pub open spec fn has_key(headers: Seq<(Seq<char>, Seq<char>)>, key: Seq<char>) -> bool {
    0 <= key_index_from(headers, key, 0) < headers.len()
}

/// The value of the first header with the key `key`.
pub open spec fn lookup(headers: Seq<(Seq<char>, Seq<char>)>, key: Seq<char>) -> Option<
    Seq<char>,
> {
    if has_key(headers, key) {
        Some(headers[key_index_from(headers, key, 0)].1)
    } else {
        None
    }
}

/// The headers with `value` stored under `key`: in the place of the first
/// header that has the key, or at the end where none has it.
pub open spec fn stored(
    headers: Seq<(Seq<char>, Seq<char>)>,
    key: Seq<char>,
    value: Seq<char>,
) -> Seq<(Seq<char>, Seq<char>)> {
    if has_key(headers, key) {
        headers.update(key_index_from(headers, key, 0), (key, value))
    } else {
        headers.push((key, value))
    }
}

/// The headers after those among `params` have been stored, in order.
pub open spec fn recorded(
    headers: Seq<(Seq<char>, Seq<char>)>,
    params: Seq<ParameterView>,
) -> Seq<(Seq<char>, Seq<char>)>
    decreases params.len(),
{
    if params.len() == 0 {
        headers
    } else {
        let before = recorded(headers, params.drop_last());
        let p = params.last();
        if p.kind == Separator::Colon {
            stored(before, p.key, p.value)
        } else {
            before
        }
    }
}

/// The headers among `kept` whose key is not among `supplied`, in order.
pub open spec fn carried(
    kept: Seq<(Seq<char>, Seq<char>)>,
    supplied: Seq<(Seq<char>, Seq<char>)>,
) -> Seq<(Seq<char>, Seq<char>)>
    decreases kept.len(),
{
    if kept.len() == 0 {
        Seq::empty()
    } else {
        let before = carried(kept.drop_last(), supplied);
        if has_key(supplied, kept.last().0) {
            before
        } else {
            before.push(kept.last())
        }
    }
}

/// The cookies as one header value: `name=value`, joined by `; `.
pub open spec fn cookie_text(cookies: Seq<(Seq<char>, Seq<char>)>) -> Seq<char>
    decreases cookies.len(),
{
    if cookies.len() == 0 {
        Seq::empty()
    } else if cookies.len() == 1 {
        cookies[0].0 + "="@ + cookies[0].1
    } else {
        cookie_text(cookies.drop_last()) + "; "@ + cookies.last().0 + "="@ + cookies.last().1
    }
}

/// The cookie header to send: none where no cookie is kept, or where the
/// request supplies a cookie header of its own.
pub open spec fn cookie_header(
    cookies: Seq<(Seq<char>, Seq<char>)>,
    supplied: Seq<(Seq<char>, Seq<char>)>,
) -> Seq<(Seq<char>, Seq<char>)> {
    if cookies.len() == 0 || has_key(supplied, "cookie"@) {
        Seq::empty()
    } else {
        seq![("cookie"@, cookie_text(cookies))]
    }
}

/// The request with what the session holds added to it. What the request
/// supplies itself wins: a kept header is sent only where the request has
/// none with its key, and kept credentials or a kept token only where the
/// request has none. The kept headers come first, then the cookies, then
/// the request's own headers.
pub open spec fn merged(s: SessionView, r: RequestView) -> RequestView {
    RequestView {
        headers: carried(s.headers, r.headers) + cookie_header(s.cookies, r.headers) + r.headers,
        basic_auth: match r.basic_auth {
            Some(c) => Some(c),
            None => match s.auth {
                Some(a) => Some(credentials(a)),
                None => None,
            },
        },
        bearer: match r.bearer {
            Some(t) => Some(t),
            None => s.token,
        },
        ..r
    }
}

/// The session that holds nothing yet.
pub open spec fn fresh(name: Seq<char>, host: Seq<char>) -> SessionView {
    SessionView {
        name,
        host,
        auth: None,
        token: None,
        headers: Seq::empty(),
        cookies: Seq::empty(),
        response_headers: Seq::empty(),
    }
}

/// The index of the first header whose key is `key`, ignoring the case of
/// ASCII letters; the number of headers if there is none.
pub fn find_key(headers: &Vec<(String, String)>, key: &str) -> (i: usize)
    ensures
        i == key_index_from(pairs(headers@), key@, 0),
        i <= headers@.len(),
{
    let n: usize = headers.len();
    let mut i: usize = 0;
    while i < n
        invariant
            n == headers@.len(),
            i <= n,
            key_index_from(pairs(headers@), key@, 0) == key_index_from(
                pairs(headers@),
                key@,
                i as int,
            ),
        decreases n - i,
    {
        assert(pairs(headers@)[i as int].0 == headers@[i as int].0@);
        if same_ignoring_case(headers[i].0.as_str(), key) {
            return i;
        }
        i = i + 1;
    }
    i
}

/// Stores `value` under `key`: in the place of the first header that has
/// the key, or at the end where none has it.
pub fn store_header(headers: &mut Vec<(String, String)>, key: String, value: String)
    ensures
        pairs(final(headers)@) == stored(pairs(old(headers)@), key@, value@),
{
    let i = find_key(headers, key.as_str());
    if i < headers.len() {
        headers.set(i, (key, value));
        assert(pairs(headers@) =~= pairs(old(headers)@).update(i as int, (key@, value@)));
    } else {
        headers.push((key, value));
        assert(pairs(headers@) =~= pairs(old(headers)@).push((key@, value@)));
    }
}

/// The index of the first cookie at or after `from` whose name is `name`;
/// the number of cookies if there is none.
pub open spec fn name_index_from(
    cookies: Seq<(Seq<char>, Seq<char>)>,
    name: Seq<char>,
    from: int,
) -> int
    decreases cookies.len() - from,
{
    if from < 0 || from >= cookies.len() {
        cookies.len() as int
    } else if cookies[from].0 == name {
        from
    } else {
        name_index_from(cookies, name, from + 1)
    }
}

/// The cookies with `value` set for `name`: in the place of the cookie of
/// that name, or at the end where there is none.
pub open spec fn with_cookie(
    cookies: Seq<(Seq<char>, Seq<char>)>,
    name: Seq<char>,
    value: Seq<char>,
) -> Seq<(Seq<char>, Seq<char>)> {
    let i = name_index_from(cookies, name, 0);
    if 0 <= i < cookies.len() {
        cookies.update(i, (name, value))
    } else {
        cookies.push((name, value))
    }
}

/// The cookies after each of `set` has been set, in order.
pub open spec fn with_cookies(
    cookies: Seq<(Seq<char>, Seq<char>)>,
    set: Seq<(Seq<char>, Seq<char>)>,
) -> Seq<(Seq<char>, Seq<char>)>
    decreases set.len(),
{
    if set.len() == 0 {
        cookies
    } else {
        with_cookie(with_cookies(cookies, set.drop_last()), set.last().0, set.last().1)
    }
}

/// Sets the cookie `name` to `value`.
pub fn set_cookie(cookies: &mut Vec<(String, String)>, name: String, value: String)
    ensures
        pairs(final(cookies)@) == with_cookie(pairs(old(cookies)@), name@, value@),
{
    let n: usize = cookies.len();
    let mut i: usize = 0;
    while i < n
        invariant
            n == cookies@.len(),
            cookies@ == old(cookies)@,
            i <= n,
            name_index_from(pairs(cookies@), name@, 0) == name_index_from(
                pairs(cookies@),
                name@,
                i as int,
            ),
        decreases n - i,
    {
        assert(pairs(cookies@)[i as int].0 == cookies@[i as int].0@);
        if cookies[i].0 == name {
            cookies.set(i, (name, value));
            assert(pairs(cookies@) =~= pairs(old(cookies)@).update(i as int, (name@, value@)));
            return ;
        }
        i = i + 1;
    }
    cookies.push((name, value));
    assert(pairs(cookies@) =~= pairs(old(cookies)@).push((name@, value@)));
}

/// A copy of the pairs.
pub fn copy_pairs(v: &Vec<(String, String)>) -> (out: Vec<(String, String)>)
    ensures
        pairs(out@) == pairs(v@),
{
    let n: usize = v.len();
    let mut out: Vec<(String, String)> = Vec::new();
    let mut i: usize = 0;
    assert(pairs(out@) =~= pairs(v@).take(0));
    while i < n
        invariant
            n == v@.len(),
            i <= n,
            pairs(out@) == pairs(v@).take(i as int),
        decreases n - i,
    {
        let ghost before = out@;
        out.push((v[i].0.clone(), v[i].1.clone()));
        assert(pairs(out@) =~= pairs(before).push(pairs(v@)[i as int]));
        i = i + 1;
        assert(pairs(v@).take(i as int) =~= pairs(v@).take(i - 1).push(pairs(v@)[i - 1]));
    }
    assert(pairs(v@).take(n as int) =~= pairs(v@));
    out
}

/// The cookies as one header value: `name=value`, joined by `; `.
pub fn cookie_value(cookies: &Vec<(String, String)>) -> (text: String)
    ensures
        text@ == cookie_text(pairs(cookies@)),
{
    let n: usize = cookies.len();
    let mut text = String::new();
    let mut i: usize = 0;
    let ghost all = pairs(cookies@);
    assert(all.take(0) =~= Seq::empty());
    while i < n
        invariant
            n == cookies@.len(),
            all == pairs(cookies@),
            i <= n,
            text@ == cookie_text(all.take(i as int)),
        decreases n - i,
    {
        let ghost before = all.take(i as int);
        let ghost now = all.take(i + 1);
        assert(now.drop_last() =~= before);
        assert(now.last() == (cookies@[i as int].0@, cookies@[i as int].1@));
        if i > 0 {
            text.append("; ");
        } else {
            assert(now[0] == now.last());
            assert(text@ + cookies@[i as int].0@ =~= cookies@[i as int].0@);
        }
        text.append(cookies[i].0.as_str());
        text.append("=");
        text.append(cookies[i].1.as_str());
        i = i + 1;
    }
    assert(all.take(n as int) =~= all);
    text
}

impl Session {
    /// The session `name` for `host` that holds nothing yet.
    pub fn new(name: String, host: String) -> (s: Session)
        ensures
            s@ == fresh(name@, host@),
    {
        let s = Session {
            name,
            host,
            auth: None,
            token: None,
            headers: Vec::new(),
            cookies: Vec::new(),
            response_headers: Vec::new(),
        };
        assert(s@.headers =~= Seq::empty());
        assert(s@.cookies =~= Seq::empty());
        assert(s@.response_headers =~= Seq::empty());
        s
    }

    /// The session to work with: what was loaded, where something was
    /// loaded and it is the session `name` for `host`; else a session that
    /// holds nothing yet. The same name with another host is another
    /// session.
    pub fn get_or_create(loaded: Option<Session>, name: String, host: String) -> (s: Session)
        ensures
            s@.name == name@,
            s@.host == host@,
            match loaded {
                Some(l) => if l@.name == name@ && l@.host == host@ {
                    s == l
                } else {
                    s@ == fresh(name@, host@)
                },
                None => s@ == fresh(name@, host@),
            },
    {
        match loaded {
            Some(l) => {
                if l.name == name && l.host == host {
                    l
                } else {
                    Session::new(name, host)
                }
            },
            None => Session::new(name, host),
        }
    }

    /// Stores the headers among `parameters`, for the requests to come. A
    /// header stored before under the same key is replaced.
    pub fn update_with_parameters(&mut self, parameters: &Vec<Parameter>)
        ensures
            final(self)@ == (SessionView {
                headers: recorded(old(self)@.headers, param_views(parameters@)),
                ..old(self)@
            }),
    {
        let n: usize = parameters.len();
        let ghost views = param_views(parameters@);
        let mut i: usize = 0;
        assert(views.take(0) =~= Seq::empty());
        while i < n
            invariant
                n == parameters@.len(),
                views == param_views(parameters@),
                i <= n,
                self@ == (SessionView {
                    headers: recorded(old(self)@.headers, views.take(i as int)),
                    ..old(self)@
                }),
            decreases n - i,
        {
            proof {
                assert(views.take(i + 1).drop_last() =~= views.take(i as int));
                assert(views.take(i + 1).last() == parameters@[i as int]@);
            }
            match &parameters[i] {
                Parameter::Header { key, value } => {
                    store_header(&mut self.headers, key.clone(), value.clone());
                },
                _ => {},
            }
            i = i + 1;
        }
        assert(views.take(n as int) =~= views);
    }

    /// Replaces the kept credentials by `auth` and the kept token by
    /// `token`, each where one is given.
    pub fn update_auth(&mut self, auth: &Option<String>, token: &Option<String>)
        ensures
            final(self)@ == (SessionView {
                auth: if auth is Some {
                    opt_view(*auth)
                } else {
                    old(self)@.auth
                },
                token: if token is Some {
                    opt_view(*token)
                } else {
                    old(self)@.token
                },
                ..old(self)@
            }),
    {
        match auth {
            Some(a) => {
                self.auth = Some(a.clone());
            },
            None => {},
        }
        match token {
            Some(t) => {
                self.token = Some(t.clone());
            },
            None => {},
        }
    }

    /// Keeps the headers of a response, and sets the cookies that it set.
    pub fn update_with_response(
        &mut self,
        headers: &Vec<(String, String)>,
        cookies: &Vec<(String, String)>,
    )
        ensures
            final(self)@ == (SessionView {
                response_headers: pairs(headers@),
                cookies: with_cookies(old(self)@.cookies, pairs(cookies@)),
                ..old(self)@
            }),
    {
        self.response_headers = copy_pairs(headers);
        let n: usize = cookies.len();
        let ghost set = pairs(cookies@);
        let mut i: usize = 0;
        assert(set.take(0) =~= Seq::empty());
        while i < n
            invariant
                n == cookies@.len(),
                set == pairs(cookies@),
                i <= n,
                self@ == (SessionView {
                    response_headers: pairs(headers@),
                    cookies: with_cookies(old(self)@.cookies, set.take(i as int)),
                    ..old(self)@
                }),
            decreases n - i,
        {
            proof {
                assert(set.take(i + 1).drop_last() =~= set.take(i as int));
                assert(set.take(i + 1).last() == (cookies@[i as int].0@, cookies@[i as int].1@));
            }
            set_cookie(&mut self.cookies, cookies[i].0.clone(), cookies[i].1.clone());
            i = i + 1;
        }
        assert(set.take(n as int) =~= set);
    }

    /// Adds to `request` what the session holds: the kept headers, the
    /// cookies, the credentials and the token. What the request supplies
    /// itself wins.
    pub fn add_to_request(&self, request: RequestDescriptor) -> (r: RequestDescriptor)
        requires
            request.wf(),
        ensures
            r.wf(),
            r@ == merged(self@, request@),
    {
        let mut request = request;
        let ghost supplied = pairs(request.headers@);
        let ghost kept = pairs(self.headers@);
        let mut headers: Vec<(String, String)> = Vec::new();
        let n: usize = self.headers.len();
        let mut i: usize = 0;
        assert(kept.take(0) =~= Seq::empty());
        assert(pairs(headers@) =~= Seq::empty());
        while i < n
            invariant
                n == self.headers@.len(),
                kept == pairs(self.headers@),
                supplied == pairs(request.headers@),
                i <= n,
                pairs(headers@) == carried(kept.take(i as int), supplied),
            decreases n - i,
        {
            proof {
                assert(kept.take(i + 1).drop_last() =~= kept.take(i as int));
                assert(kept.take(i + 1).last() == (
                    self.headers@[i as int].0@,
                    self.headers@[i as int].1@,
                ));
            }
            let at = find_key(&request.headers, self.headers[i].0.as_str());
            if at >= request.headers.len() {
                let ghost before = headers@;
                headers.push((self.headers[i].0.clone(), self.headers[i].1.clone()));
                assert(pairs(headers@) =~= pairs(before).push(kept[i as int]));
            }
            i = i + 1;
        }
        assert(kept.take(n as int) =~= kept);
        if self.cookies.len() > 0 {
            let at = find_key(&request.headers, "cookie");
            if at >= request.headers.len() {
                let ghost before = headers@;
                headers.push((String::from_str("cookie"), cookie_value(&self.cookies)));
                assert(pairs(headers@) =~= pairs(before) + cookie_header(
                    pairs(self.cookies@),
                    supplied,
                ));
            } else {
                assert(pairs(headers@) =~= pairs(headers@) + cookie_header(
                    pairs(self.cookies@),
                    supplied,
                ));
            }
        } else {
            assert(pairs(headers@) =~= pairs(headers@) + cookie_header(
                pairs(self.cookies@),
                supplied,
            ));
        }
        let ghost front = headers@;
        let ghost own = request.headers@;
        headers.append(&mut request.headers);
        assert(pairs(headers@) =~= pairs(front) + pairs(own));
        request.headers = headers;
        if request.basic_auth.is_none() {
            match &self.auth {
                Some(a) => {
                    request.basic_auth = Some(parse_auth(a.as_str()));
                },
                None => {},
            }
        }
        if request.bearer.is_none() {
            match &self.token {
                Some(t) => {
                    request.bearer = Some(t.clone());
                },
                None => {},
            }
        }
        request
    }
}

/// Whether `c` may stand in a file name as it is: an ASCII letter or digit,
/// `_` or `-`.
pub open spec fn is_safe_char(c: char) -> bool {
    ('a' <= c && c <= 'z') || ('A' <= c && c <= 'Z') || ('0' <= c && c <= '9') || c == '_' || c
        == '-'
}

/// `s` with `_` in the place of each character that is not safe in a file
/// name.
pub open spec fn safe_pathname(s: Seq<char>) -> Seq<char> {
    s.map_values(
        |c: char|
            if is_safe_char(c) {
                c
            } else {
                '_'
            },
    )
}

/// Makes a file name of `s`: each character that is no ASCII letter or
/// digit, `_` or `-` is replaced by `_`.
pub fn make_safe_pathname(s: &str) -> (out: String)
    ensures
        out@ == safe_pathname(s@),
{
    let v = chars_of(s);
    let n: usize = v.len();
    let mut out = String::new();
    let mut i: usize = 0;
    while i < n
        invariant
            v@ == s@,
            n == v@.len(),
            i <= n,
            out@ == safe_pathname(s@).take(i as int),
        decreases n - i,
    {
        let c = v[i];
        let safe = ('a' <= c && c <= 'z') || ('A' <= c && c <= 'Z') || ('0' <= c && c <= '9') || c
            == '_' || c == '-';
        if safe {
            push_char(&mut out, c);
        } else {
            push_char(&mut out, '_');
        }
        i = i + 1;
        assert(out@ =~= safe_pathname(s@).take(i as int));
    }
    assert(safe_pathname(s@).take(n as int) =~= safe_pathname(s@));
    out
}

} // verus!

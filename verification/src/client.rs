//! From the options, the parameters and the session to the request that is
//! to be sent.

use vstd::prelude::*;
use crate::address::{parse, resolved};
use crate::app::{App, Method};
use crate::auth::{credentials, parse_auth};
use crate::errors::Error;
use crate::param::{Parameter, ParameterView, Separator};
use crate::request::{
    assembled, blank, body_of, empty_assembly, file_view, file_views, pairs, param_views,
    Assembly, AssemblyView, Body, BodyView, HttpMethod, RequestDescriptor, RequestView,
};
use crate::session::{merged, opt_view, recorded, with_cookies, Session, SessionView};

verus! {

/// Whether one of the parameters uploads a file.
pub open spec fn has_form_file(params: Seq<ParameterView>) -> bool {
    exists|i: int| 0 <= i < params.len() && (#[trigger] params[i]).kind == Separator::At
}

/// Whether one of the parameters uploads a file.
pub fn any_form_file(parameters: &Vec<Parameter>) -> (r: bool)
    ensures
        r == has_form_file(param_views(parameters@)),
{
    let n: usize = parameters.len();
    let mut i: usize = 0;
    while i < n
        invariant
            n == parameters@.len(),
            i <= n,
            forall|k: int|
                0 <= k < i ==> (#[trigger] param_views(parameters@)[k]).kind != Separator::At,
        decreases n - i,
    {
        assert(param_views(parameters@)[i as int] == parameters@[i as int]@);
        if parameters[i].is_form_file() {
            return true;
        }
        i = i + 1;
    }
    false
}

/// The request `r` with what the parameters assembled: their headers and
/// query parameters behind those of `r`, and their body, where they make
/// one, in the place of the body of `r`.
pub open spec fn filled(r: RequestView, a: AssemblyView, is_form: bool) -> RequestView {
    RequestView {
        headers: r.headers + a.headers,
        query: r.query + a.query,
        body: match body_of(a, is_form) {
            BodyView::Empty => r.body,
            body => body,
        },
        ..r
    }
}

/// Puts the parameters into the request, one after the other, and stops at
/// the first that fails. `files[i]` is what reading the file gave that
/// parameter `i` names; for a parameter that names no file it is not
/// looked at. With `is_multipart` the body is a multipart form, and data
/// fields become its text parts; without it a parameter that uploads a
/// file is an error.
pub fn handle_parameters(
    builder: RequestDescriptor,
    is_form: bool,
    is_multipart: bool,
    parameters: &Vec<Parameter>,
    files: &Vec<Result<String, std::io::ErrorKind>>,
) -> (r: Result<RequestDescriptor, Error>)
    requires
        builder.wf(),
        files@.len() == parameters@.len(),
    ensures
        match assembled(
            empty_assembly(is_multipart),
            param_views(parameters@),
            file_views(files@),
        ) {
            Ok(a) => r matches Ok(d) && d.wf() && d@ == filled(builder@, a, is_form),
            Err(e) => r == Err::<RequestDescriptor, Error>(e),
        },
{
    let n: usize = parameters.len();
    let ghost ps = param_views(parameters@);
    let ghost fs = file_views(files@);
    let mut assembly = Assembly::new(is_multipart);
    let mut i: usize = 0;
    assert(ps.skip(0) =~= ps);
    assert(fs.skip(0) =~= fs);
    while i < n
        invariant
            n == parameters@.len(),
            n == files@.len(),
            ps == param_views(parameters@),
            fs == file_views(files@),
            i <= n,
            assembly.wf(),
            assembled(empty_assembly(is_multipart), ps, fs) == assembled(
                assembly@,
                ps.skip(i as int),
                fs.skip(i as int),
            ),
        decreases n - i,
    {
        proof {
            assert(ps.skip(i as int)[0] == parameters@[i as int]@);
            assert(fs.skip(i as int)[0] == file_view(files@[i as int]));
            assert(ps.skip(i as int).skip(1) =~= ps.skip(i + 1));
            assert(fs.skip(i as int).skip(1) =~= fs.skip(i + 1));
        }
        match assembly.apply(&parameters[i], &files[i]) {
            Ok(()) => {},
            Err(e) => {
                return Err(e);
            },
        }
        i = i + 1;
    }
    let mut builder = builder;
    let ghost before = builder@;
    let ghost a = assembly@;
    let mut headers = assembly.headers;
    let mut query = assembly.query;
    let ghost own_headers = builder.headers@;
    let ghost own_query = builder.query@;
    let ghost new_headers = headers@;
    let ghost new_query = query@;
    builder.headers.append(&mut headers);
    builder.query.append(&mut query);
    assert(pairs(builder.headers@) =~= pairs(own_headers) + pairs(new_headers));
    assert(pairs(builder.query@) =~= pairs(own_query) + pairs(new_query));
    let rest = Assembly {
        headers: Vec::new(),
        query: Vec::new(),
        data: assembly.data,
        multipart: assembly.multipart,
    };
    let body = rest.into_body(is_form);
    assert(body@ == body_of(a, is_form));
    match body {
        Body::Empty => {},
        other => {
            builder.body = other;
        },
    }
    Ok(builder)
}

/// The request with the credentials and the token that were given on the
/// command line, each in the place of what the request held.
pub open spec fn with_auth(
    r: RequestView,
    auth: Option<Seq<char>>,
    token: Option<Seq<char>>,
) -> RequestView {
    RequestView {
        basic_auth: match auth {
            Some(a) => Some(credentials(a)),
            None => r.basic_auth,
        },
        bearer: match token {
            Some(t) => Some(t),
            None => r.bearer,
        },
        ..r
    }
}

/// Sets the credentials and the token that were given on the command line.
/// Where the credentials hold no colon, the password is left to be asked
/// for.
pub fn handle_auth(builder: RequestDescriptor, auth: &Option<String>, token: &Option<String>) -> (r:
    RequestDescriptor)
    requires
        builder.wf(),
    ensures
        r.wf(),
        r@ == with_auth(builder@, opt_view(*auth), opt_view(*token)),
{
    let mut builder = builder;
    if let Some(auth_string) = auth {
        builder.basic_auth = Some(parse_auth(auth_string.as_str()));
    }
    if let Some(bearer) = token {
        builder.bearer = Some(bearer.clone());
    }
    builder
}

/// The session after a request with these parameters and options, where
/// the session is to be updated.
pub open spec fn session_after(
    s: SessionView,
    params: Seq<ParameterView>,
    auth: Option<Seq<char>>,
    token: Option<Seq<char>>,
) -> SessionView {
    SessionView {
        headers: recorded(s.headers, params),
        auth: if auth is Some {
            auth
        } else {
            s.auth
        },
        token: if token is Some {
            token
        } else {
            s.token
        },
        ..s
    }
}

/// Adds to the request what the session holds, and, with `update_session`,
/// stores in the session the headers, credentials and token of this
/// request. Without a session the request stays as it is; without
/// `update_session` the session does.
pub fn handle_session(
    builder: RequestDescriptor,
    session: &mut Option<Session>,
    parameters: &Vec<Parameter>,
    update_session: bool,
    auth: &Option<String>,
    token: &Option<String>,
) -> (r: RequestDescriptor)
    requires
        builder.wf(),
    ensures
        r.wf(),
        match *old(session) {
            Some(s) => {
                &&& r@ == merged(s@, builder@)
                &&& *final(session) matches Some(t)
                &&& if update_session {
                    t@ == session_after(
                        s@,
                        param_views(parameters@),
                        opt_view(*auth),
                        opt_view(*token),
                    )
                } else {
                    t == s
                }
            },
            None => r == builder && *final(session) is None,
        },
{
    match session {
        Some(s) => {
            let builder = s.add_to_request(builder);
            if update_session {
                s.update_with_parameters(parameters);
                s.update_auth(auth, token);
            }
            builder
        },
        None => builder,
    }
}

/// The request that goes out: `base` with what the session holds, where
/// there is a session, and with the credentials and the token of the
/// command line, which win over those of the session.
pub open spec fn outgoing(
    session: Option<SessionView>,
    base: RequestView,
    auth: Option<Seq<char>>,
    token: Option<Seq<char>>,
) -> RequestView {
    match session {
        Some(s) => with_auth(merged(s, base), auth, token),
        None => with_auth(base, auth, token),
    }
}

/// The view of a session that may be missing.
pub open spec fn session_view(session: Option<Session>) -> Option<SessionView> {
    match session {
        Some(s) => Some(s@),
        None => None,
    }
}

/// What can be checked before any file is read: resolves the URL, and
/// refuses a parameter that uploads a file outside form mode.
pub fn preflight(app: &App, raw_url: &str, parameters: &Vec<Parameter>) -> (r: Result<
    String,
    Error,
>)
    ensures
        match resolved(app.secure, raw_url@) {
            None => r matches Err(e) && e is UrlParseError,
            Some(url) => if has_form_file(param_views(parameters@)) && !app.form {
                r == Err::<String, Error>(Error::NotFormButHasFormFile)
            } else {
                r matches Ok(u) && u@ == url
            },
        },
{
    let url = match parse(app.secure, raw_url) {
        Ok(url) => url,
        Err(e) => {
            return Err(e);
        },
    };
    if any_form_file(parameters) && !app.form {
        return Err(Error::NotFormButHasFormFile);
    }
    Ok(url)
}

/// Makes the request for `raw_url` with these parameters.
///
/// The steps, each of which ends the work where it fails: the URL is
/// resolved; a parameter that uploads a file is refused outside form mode,
/// before any parameter is looked at; the parameters are put into the
/// request; what the session holds is added, and, unless the session is
/// read-only, the session takes up this request's headers, credentials and
/// token; at last the credentials and token of the command line are set.
/// `files[i]` is what reading the file gave that parameter `i` names. Where
/// the work fails, the session stays as it was.
pub fn prepare(
    app: &App,
    method: HttpMethod,
    session: &mut Option<Session>,
    raw_url: &str,
    parameters: &Vec<Parameter>,
    files: &Vec<Result<String, std::io::ErrorKind>>,
) -> (r: Result<RequestDescriptor, Error>)
    requires
        files@.len() == parameters@.len(),
    ensures
        match resolved(app.secure, raw_url@) {
            None => (r matches Err(e) && e is UrlParseError) && *final(session) == *old(session),
            Some(url) => if has_form_file(param_views(parameters@)) && !app.form {
                r == Err::<RequestDescriptor, Error>(Error::NotFormButHasFormFile) && *final(session) == *old(session)
            } else {
                match assembled(
                    empty_assembly(has_form_file(param_views(parameters@))),
                    param_views(parameters@),
                    file_views(files@),
                ) {
                    Err(e) => r == Err::<RequestDescriptor, Error>(e) && *final(session) == *old(session),
                    Ok(a) => {
                        &&& r matches Ok(d)
                        &&& d.wf()
                        &&& d@ == outgoing(
                            session_view(*old(session)),
                            filled(blank(method, url), a, app.form),
                            opt_view(app.auth),
                            opt_view(app.token),
                        )
                        &&& match *old(session) {
                            Some(s) => *final(session) matches Some(t) && if app.read_only {
                                t == s
                            } else {
                                t@ == session_after(
                                    s@,
                                    param_views(parameters@),
                                    opt_view(app.auth),
                                    opt_view(app.token),
                                )
                            },
                            None => *final(session) is None,
                        }
                    },
                }
            },
        },
{
    let url = match preflight(app, raw_url, parameters) {
        Ok(url) => url,
        Err(e) => {
            return Err(e);
        },
    };
    let is_multipart = any_form_file(parameters);
    let builder = RequestDescriptor::new(method, url);
    let builder = match handle_parameters(builder, app.form, is_multipart, parameters, files) {
        Ok(b) => b,
        Err(e) => {
            return Err(e);
        },
    };
    let builder = handle_session(
        builder,
        session,
        parameters,
        !app.read_only,
        &app.auth,
        &app.token,
    );
    Ok(handle_auth(builder, &app.auth, &app.token))
}

/// Makes the request that a method subcommand asks for, as [`prepare`]
/// does, with the subcommand's method, URL and parameters.
pub fn prepare_method(
    app: &App,
    method: &Method,
    session: &mut Option<Session>,
    files: &Vec<Result<String, std::io::ErrorKind>>,
) -> (r: Result<RequestDescriptor, Error>)
    requires
        files@.len() == method.spec_data().parameters@.len(),
    ensures
        match resolved(app.secure, method.spec_data().url@) {
            None => (r matches Err(e) && e is UrlParseError) && *final(session) == *old(session),
            Some(url) => if has_form_file(param_views(method.spec_data().parameters@))
                && !app.form {
                r == Err::<RequestDescriptor, Error>(Error::NotFormButHasFormFile) && *final(session) == *old(session)
            } else {
                match assembled(
                    empty_assembly(has_form_file(param_views(method.spec_data().parameters@))),
                    param_views(method.spec_data().parameters@),
                    file_views(files@),
                ) {
                    Err(e) => r == Err::<RequestDescriptor, Error>(e) && *final(session) == *old(session),
                    Ok(a) => {
                        &&& r matches Ok(d)
                        &&& d.wf()
                        &&& d@ == outgoing(
                            session_view(*old(session)),
                            filled(blank(method.spec_http(), url), a, app.form),
                            opt_view(app.auth),
                            opt_view(app.token),
                        )
                        &&& match *old(session) {
                            Some(s) => *final(session) matches Some(t) && if app.read_only {
                                t == s
                            } else {
                                t@ == session_after(
                                    s@,
                                    param_views(method.spec_data().parameters@),
                                    opt_view(app.auth),
                                    opt_view(app.token),
                                )
                            },
                            None => *final(session) is None,
                        }
                    },
                }
            },
        },
{
    let method_data = method.data();
    prepare(
        app,
        HttpMethod::from(method),
        session,
        method_data.url.as_str(),
        &method_data.parameters,
        files,
    )
}

/// What is to be done with the session once the response is there: with a
/// session, and unless it is read-only, it takes up the response's headers
/// and cookies and is to be saved. Returns whether to save it.
pub fn after_response(
    read_only: bool,
    session: &mut Option<Session>,
    headers: &Vec<(String, String)>,
    cookies: &Vec<(String, String)>,
) -> (save: bool)
    ensures
        save == (!read_only && *old(session) is Some),
        match *old(session) {
            Some(s) => *final(session) matches Some(t) && if read_only {
                t == s
            } else {
                t@ == (SessionView {
                    response_headers: pairs(headers@),
                    cookies: with_cookies(s@.cookies, pairs(cookies@)),
                    ..s@
                })
            },
            None => *final(session) is None,
        },
{
    if !read_only {
        match session {
            Some(s) => {
                s.update_with_response(headers, cookies);
                return true;
            },
            None => {},
        }
    }
    false
}

} // verus!

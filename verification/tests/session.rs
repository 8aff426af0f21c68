use hurl::app::App;
use hurl::auth::Password;
use hurl::client::{after_response, handle_session, prepare};
use hurl::param::Parameter;
use hurl::request::{HttpMethod, RequestDescriptor};
use hurl::session::{cookie_value, find_key, make_safe_pathname, store_header, Session};

fn s(text: &str) -> String {
    text.to_string()
}

fn pair(a: &str, b: &str) -> (String, String) {
    (s(a), s(b))
}

fn header(key: &str, value: &str) -> Parameter {
    Parameter::Header { key: s(key), value: s(value) }
}

fn app(read_only: bool) -> App {
    App {
        quiet: false,
        verbose: 0,
        form: false,
        auth: None,
        token: None,
        session: Some(s("work")),
        session_dir: None,
        read_only,
        secure: false,
        config: None,
        cmd: None,
        url: None,
        parameters: Vec::new(),
    }
}

fn request() -> RequestDescriptor {
    RequestDescriptor::new(HttpMethod::Get, s("http://h/"))
}

#[test]
fn new_session_is_empty() {
    let session = Session::new(s("work"), s("example_com"));
    assert_eq!(session.name, "work");
    assert_eq!(session.host, "example_com");
    assert_eq!(session.auth, None);
    assert_eq!(session.token, None);
    assert!(session.headers.is_empty());
    assert!(session.cookies.is_empty());
    assert!(session.response_headers.is_empty());
}

#[test]
fn get_or_create_takes_the_loaded_session_of_the_same_name_and_host() {
    let mut loaded = Session::new(s("work"), s("h"));
    loaded.headers.push(pair("A", "1"));
    assert_eq!(Session::get_or_create(Some(loaded.clone()), s("work"), s("h")), loaded);
    assert_eq!(
        Session::get_or_create(Some(loaded.clone()), s("work"), s("other")),
        Session::new(s("work"), s("other"))
    );
    assert_eq!(
        Session::get_or_create(Some(loaded), s("play"), s("h")),
        Session::new(s("play"), s("h"))
    );
    assert_eq!(Session::get_or_create(None, s("work"), s("h")), Session::new(s("work"), s("h")));
}

#[test]
fn supplied_header_wins_over_stored_header() {
    let mut stored = Session::new(s("work"), s("h"));
    stored.headers.push(pair("X-Session", "old"));
    stored.headers.push(pair("X-Other", "kept"));
    let mut session = Some(stored);
    let ps = vec![header("X-Session", "new")];
    let files = vec![Ok(String::new())];
    let d = match prepare(&app(false), HttpMethod::Get, &mut session, "http://h/", &ps, &files) {
        Ok(d) => d,
        Err(e) => panic!("unexpected error: {}", e.message()),
    };
    assert_eq!(d.headers, vec![pair("X-Other", "kept"), pair("X-Session", "new")]);
    let after = session.unwrap();
    assert_eq!(after.headers, vec![pair("X-Session", "new"), pair("X-Other", "kept")]);
}

#[test]
fn read_only_session_is_used_but_not_changed() {
    let mut stored = Session::new(s("work"), s("h"));
    stored.headers.push(pair("X-Session", "old"));
    stored.headers.push(pair("X-Other", "kept"));
    let mut session = Some(stored.clone());
    let ps = vec![header("x-session", "new")];
    let files = vec![Ok(String::new())];
    let mut a = app(true);
    a.auth = Some(s("me:pw"));
    let d = match prepare(&a, HttpMethod::Get, &mut session, "http://h/", &ps, &files) {
        Ok(d) => d,
        Err(e) => panic!("unexpected error: {}", e.message()),
    };
    assert_eq!(d.headers, vec![pair("X-Other", "kept"), pair("x-session", "new")]);
    assert_eq!(session, Some(stored));
}

#[test]
fn update_with_parameters_stores_headers_only() {
    let mut session = Session::new(s("work"), s("h"));
    session.update_with_parameters(&vec![
        header("A", "1"),
        Parameter::Data { key: s("d"), value: s("v") },
        header("B", "2"),
        Parameter::Query { key: s("q"), value: s("v") },
        header("a", "3"),
    ]);
    assert_eq!(session.headers, vec![pair("a", "3"), pair("B", "2")]);
    let before = session.clone();
    session.update_with_parameters(&vec![Parameter::Data { key: s("A"), value: s("v") }]);
    assert_eq!(session, before);
}

#[test]
fn update_auth_overwrites_what_is_given() {
    let mut session = Session::new(s("work"), s("h"));
    session.update_auth(&Some(s("me:pw")), &None);
    assert_eq!(session.auth, Some(s("me:pw")));
    assert_eq!(session.token, None);
    session.update_auth(&None, &Some(s("tok")));
    assert_eq!(session.auth, Some(s("me:pw")));
    assert_eq!(session.token, Some(s("tok")));
    session.update_auth(&Some(s("you:")), &Some(s("tik")));
    assert_eq!(session.auth, Some(s("you:")));
    assert_eq!(session.token, Some(s("tik")));
    session.update_auth(&None, &None);
    assert_eq!(session.auth, Some(s("you:")));
    assert_eq!(session.token, Some(s("tik")));
}

#[test]
fn add_to_request_adds_headers_cookies_and_auth() {
    let mut session = Session::new(s("work"), s("h"));
    session.headers.push(pair("A", "1"));
    session.headers.push(pair("B", "2"));
    session.cookies.push(pair("sid", "42"));
    session.cookies.push(pair("lang", "en"));
    session.auth = Some(s("me:pw"));
    session.token = Some(s("tok"));
    let mut r = request();
    r.headers.push(pair("b", "own"));
    let d = session.add_to_request(r);
    assert_eq!(
        d.headers,
        vec![pair("A", "1"), pair("cookie", "sid=42; lang=en"), pair("b", "own")]
    );
    assert_eq!(d.basic_auth, Some((s("me"), Password::Given(s("pw")))));
    assert_eq!(d.bearer, Some(s("tok")));
}

#[test]
fn request_keeps_its_own_cookie_header_and_auth() {
    let mut session = Session::new(s("work"), s("h"));
    session.cookies.push(pair("sid", "42"));
    session.auth = Some(s("me:pw"));
    session.token = Some(s("tok"));
    let mut r = request();
    r.headers.push(pair("Cookie", "mine=1"));
    r.basic_auth = Some((s("you"), Password::Absent));
    r.bearer = Some(s("own"));
    let d = session.add_to_request(r.clone());
    assert_eq!(d, r);
}

#[test]
fn empty_session_changes_nothing() {
    let session = Session::new(s("work"), s("h"));
    let mut r = request();
    r.headers.push(pair("A", "1"));
    assert_eq!(session.add_to_request(r.clone()), r);
}

#[test]
fn command_line_auth_wins_over_session_auth_and_is_stored() {
    let mut stored = Session::new(s("work"), s("h"));
    stored.auth = Some(s("old:pw"));
    stored.token = Some(s("old-token"));
    let mut session = Some(stored);
    let mut a = app(false);
    a.auth = Some(s("new:secret"));
    let d = match prepare(&a, HttpMethod::Get, &mut session, "http://h/", &Vec::new(), &Vec::new())
    {
        Ok(d) => d,
        Err(e) => panic!("unexpected error: {}", e.message()),
    };
    assert_eq!(d.basic_auth, Some((s("new"), Password::Given(s("secret")))));
    assert_eq!(d.bearer, Some(s("old-token")));
    let after = session.unwrap();
    assert_eq!(after.auth, Some(s("new:secret")));
    assert_eq!(after.token, Some(s("old-token")));
}

#[test]
fn handle_session_without_session_is_the_identity() {
    let mut r = request();
    r.headers.push(pair("A", "1"));
    let mut session = None;
    let d = handle_session(r.clone(), &mut session, &vec![header("A", "1")], true, &None, &None);
    assert_eq!(d, r);
    assert!(session.is_none());
}

#[test]
fn session_takes_up_the_response() {
    let mut stored = Session::new(s("work"), s("h"));
    stored.cookies.push(pair("sid", "1"));
    stored.cookies.push(pair("lang", "en"));
    let headers = vec![pair("content-type", "text/plain")];
    let cookies = vec![pair("lang", "de"), pair("new", "x"), pair("new", "y")];
    let mut session = Some(stored.clone());
    assert!(after_response(false, &mut session, &headers, &cookies));
    let after = session.unwrap();
    assert_eq!(after.cookies, vec![pair("sid", "1"), pair("lang", "de"), pair("new", "y")]);
    assert_eq!(after.response_headers, headers);
    assert_eq!(after.headers, stored.headers);
    let mut session = Some(stored.clone());
    assert!(!after_response(true, &mut session, &headers, &cookies));
    assert_eq!(session, Some(stored));
    let mut session = None;
    assert!(!after_response(false, &mut session, &headers, &cookies));
    assert!(session.is_none());
}

#[test]
fn cookie_names_are_case_sensitive() {
    let mut session = Session::new(s("work"), s("h"));
    session.update_with_response(&Vec::new(), &vec![pair("a", "1"), pair("A", "2")]);
    assert_eq!(session.cookies, vec![pair("a", "1"), pair("A", "2")]);
}

#[test]
fn cookie_value_joins_the_cookies() {
    assert_eq!(cookie_value(&Vec::new()), "");
    assert_eq!(cookie_value(&vec![pair("a", "1")]), "a=1");
    assert_eq!(cookie_value(&vec![pair("a", "1"), pair("b", ""), pair("c", "3")]), "a=1; b=; c=3");
}

#[test]
fn header_keys_ignore_case() {
    let mut headers = vec![pair("Accept", "a"), pair("X-Token", "b")];
    assert_eq!(find_key(&headers, "x-token"), 1);
    assert_eq!(find_key(&headers, "ACCEPT"), 0);
    assert_eq!(find_key(&headers, "Accept2"), 2);
    store_header(&mut headers, s("x-TOKEN"), s("c"));
    store_header(&mut headers, s("New"), s("d"));
    assert_eq!(headers, vec![pair("Accept", "a"), pair("x-TOKEN", "c"), pair("New", "d")]);
}

#[test]
fn safe_pathname_replaces_what_is_not_safe() {
    assert_eq!(make_safe_pathname("https://example.com/foo"), "https___example_com_foo");
    assert_eq!(make_safe_pathname("Az09_-"), "Az09_-");
    assert_eq!(make_safe_pathname("a b.c:8080?é"), "a_b_c_8080__");
    assert_eq!(make_safe_pathname(""), "");
}

use hurl::app::App;
use hurl::client::preflight;
use hurl::errors::Error;
use hurl::param::Parameter;
use hurl::response::{join_lines, nice_key, response_head, with_dashes};

fn s(text: &str) -> String {
    text.to_string()
}

fn pair(a: &str, b: &str) -> (String, String) {
    (s(a), s(b))
}

#[test]
fn header_names_are_shown_in_title_case() {
    assert_eq!(nice_key("content-type"), "Content-Type");
    assert_eq!(nice_key("x-request-id"), "X-Request-Id");
    assert_eq!(nice_key("etag"), "Etag");
    assert_eq!(nice_key("ETag"), "E-Tag");
    assert_eq!(nice_key(""), "");
}

#[test]
fn dashes_replace_spaces() {
    assert_eq!(with_dashes("a b  c"), "a-b--c");
    assert_eq!(with_dashes("a-b"), "a-b");
    assert_eq!(with_dashes(" "), "-");
    assert_eq!(with_dashes(""), "");
}

#[test]
fn lines_are_joined_by_line_breaks() {
    assert_eq!(join_lines(&Vec::new()), "");
    assert_eq!(join_lines(&vec![s("a")]), "a");
    assert_eq!(join_lines(&vec![s("a"), s(""), s("b")]), "a\n\nb");
}

#[test]
fn head_of_a_response() {
    let headers = vec![
        pair("x-request-id", "1"),
        pair("content-type", "text/plain"),
        pair("date", "today"),
    ];
    assert_eq!(
        response_head("HTTP/1.1", 200, "OK", &headers, 12),
        "HTTP/1.1 200 OK\nContent-Length: 12\nContent-Type: text/plain\nDate: today\nX-Request-Id: 1"
    );
}

#[test]
fn head_without_headers() {
    assert_eq!(
        response_head("HTTP/2.0", 404, "Not Found", &Vec::new(), 0),
        "HTTP/2.0 404 Not Found\nContent-Length: 0"
    );
}

#[test]
fn equal_lines_are_both_kept() {
    let headers = vec![pair("set-cookie", "a=1"), pair("set-cookie", "a=1"), pair("age", "3")];
    assert_eq!(
        response_head("HTTP/1.1", 500, "Unknown", &headers, 7),
        "HTTP/1.1 500 Unknown\nAge: 3\nContent-Length: 7\nSet-Cookie: a=1\nSet-Cookie: a=1"
    );
}

#[test]
fn preflight_checks_url_and_form_mode() {
    let mut app = App {
        quiet: false,
        verbose: 0,
        form: false,
        auth: None,
        token: None,
        session: None,
        session_dir: None,
        read_only: false,
        secure: false,
        config: None,
        cmd: None,
        url: None,
        parameters: Vec::new(),
    };
    let upload = vec![Parameter::FormFile { key: s("f"), value: s("x.txt") }];
    assert!(upload[0].names_file());
    assert!(!Parameter::Data { key: s("f"), value: s("x.txt") }.names_file());
    assert!(Parameter::DataFile { key: s("f"), value: s("x.txt") }.names_file());
    assert!(Parameter::RawJsonDataFile { key: s("f"), value: s("x.txt") }.names_file());
    assert!(matches!(preflight(&app, "", &upload), Err(Error::UrlParseError(_))));
    assert!(matches!(preflight(&app, ":/x", &upload), Err(Error::NotFormButHasFormFile)));
    assert!(matches!(preflight(&app, ":/x", &Vec::new()), Ok(url) if url == "http://localhost/x"));
    app.form = true;
    assert!(matches!(preflight(&app, ":/x", &upload), Ok(url) if url == "http://localhost/x"));
}

use hurl::address::{candidates, parse};
use hurl::app::{default_method, host, App, Config, Method, MethodData};
use hurl::auth::{parse_auth, Password};
use hurl::errors::{Error, JsonCategory, TransportFailure};
use hurl::param::{Parameter, Separator};
use hurl::request::HttpMethod;
use hurl::text::{chars_of, decimal, same_ignoring_case, string_of, to_lower};

fn s(text: &str) -> String {
    text.to_string()
}

fn app() -> App {
    App {
        quiet: false,
        verbose: 0,
        form: false,
        auth: None,
        token: None,
        session: None,
        session_dir: None,
        read_only: false,
        secure: false,
        config: None,
        cmd: None,
        url: None,
        parameters: Vec::new(),
    }
}

fn url_of(secure: bool, text: &str) -> String {
    match parse(secure, text) {
        Ok(url) => url,
        Err(e) => panic!("unexpected error: {}", e.message()),
    }
}

#[test]
fn local_shorthand_with_path() {
    assert_eq!(candidates(false, ":/foo"), (s("http://localhost/foo"), None));
    assert_eq!(url_of(false, ":/foo"), "http://localhost/foo");
    assert_eq!(url_of(true, ":/foo"), "http://localhost/foo");
}

#[test]
fn local_shorthand_with_port() {
    assert_eq!(candidates(true, ":3000/x"), (s("http://localhost:3000/x"), None));
    assert_eq!(url_of(false, ":3000/x"), "http://localhost:3000/x");
    assert_eq!(candidates(false, ":"), (s("http://localhost:"), None));
    assert_eq!(url_of(false, ":"), "http://localhost/");
}

#[test]
fn address_without_scheme_gets_the_default_scheme() {
    assert_eq!(
        candidates(false, "example.com/foo"),
        (s("example.com/foo"), Some(s("http://example.com/foo")))
    );
    assert_eq!(
        candidates(true, "example.com/foo"),
        (s("example.com/foo"), Some(s("https://example.com/foo")))
    );
    assert_eq!(url_of(false, "example.com/foo"), "http://example.com/foo");
    assert_eq!(url_of(true, "example.com/foo"), "https://example.com/foo");
}

#[test]
fn address_with_scheme_is_taken_as_it_is() {
    assert_eq!(url_of(true, "http://example.com/a?b=c"), "http://example.com/a?b=c");
    assert_eq!(url_of(false, "https://example.com"), "https://example.com/");
}

#[test]
fn address_that_is_no_url_is_refused() {
    assert!(matches!(parse(false, ""), Err(Error::UrlParseError(_))));
    assert!(matches!(parse(false, ":99999999"), Err(Error::UrlParseError(_))));
    assert!(matches!(parse(true, "exa mple.com"), Err(Error::UrlParseError(_))));
}

#[test]
fn credentials_with_password() {
    assert_eq!(parse_auth("joe:secret"), (s("joe"), Password::Given(s("secret"))));
    assert_eq!(parse_auth("joe:se:cr:et"), (s("joe"), Password::Given(s("se:cr:et"))));
    assert_eq!(parse_auth(":secret"), (s(""), Password::Given(s("secret"))));
}

#[test]
fn credentials_without_password() {
    assert_eq!(parse_auth("joe:"), (s("joe"), Password::Absent));
    assert_eq!(parse_auth("joe:::"), (s("joe"), Password::Absent));
    assert_eq!(parse_auth(":"), (s(""), Password::Absent));
}

#[test]
fn leading_colons_of_the_password_are_dropped() {
    assert_eq!(parse_auth("joe:::pw:"), (s("joe"), Password::Given(s("pw:"))));
}

#[test]
fn credentials_without_colon_ask_for_the_password() {
    assert_eq!(parse_auth("joe"), (s("joe"), Password::Ask));
    assert_eq!(parse_auth(""), (s(""), Password::Ask));
}

#[test]
fn validate_wants_a_url_or_a_command() {
    let mut a = app();
    assert!(matches!(a.validate(), Err(Error::MissingUrlAndCommand)));
    a.url = Some(s("example.com"));
    assert!(a.validate().is_ok());
    a.url = None;
    a.cmd = Some(Method::GET(MethodData { url: s("example.com"), parameters: Vec::new() }));
    assert!(a.validate().is_ok());
}

#[test]
fn log_level_follows_verbosity() {
    let mut a = app();
    assert_eq!(a.log_level(), None);
    let expected = ["error", "warn", "info", "debug", "trace", "trace"];
    for (i, level) in expected.iter().enumerate() {
        a.verbose = (i + 1) as u8;
        assert_eq!(a.log_level(), Some(*level));
    }
    a.verbose = 255;
    assert_eq!(a.log_level(), Some("trace"));
    a.quiet = true;
    assert_eq!(a.log_level(), None);
}

#[test]
fn config_file_fills_what_the_command_line_left_open() {
    let config = Config {
        verbose: Some(3),
        form: Some(true),
        auth: Some(s("me:pw")),
        token: Some(s("tok")),
        secure: Some(true),
    };
    let mut a = app();
    a.process_config_file(Some(config.clone()));
    assert_eq!(a.verbose, 3);
    assert!(a.form);
    assert!(a.secure);
    assert_eq!(a.auth, Some(s("me:pw")));
    assert_eq!(a.token, Some(s("tok")));

    let mut a = app();
    a.verbose = 1;
    a.auth = Some(s("own"));
    a.token = Some(s("own-token"));
    a.process_config_file(Some(config));
    assert_eq!(a.verbose, 1);
    assert_eq!(a.auth, Some(s("own")));
    assert_eq!(a.token, Some(s("own-token")));

    let mut a = app();
    a.form = true;
    a.secure = true;
    a.process_config_file(Some(Config {
        verbose: None,
        form: Some(false),
        auth: None,
        token: None,
        secure: Some(false),
    }));
    assert!(a.form);
    assert!(a.secure);
    assert_eq!(a.verbose, 0);
    assert_eq!(a.auth, None);

    let mut a = app();
    a.process_config_file(None);
    assert_eq!(a.verbose, 0);
    assert!(!a.form);
    assert!(!a.secure);
    assert_eq!(a.auth, None);
    assert_eq!(a.token, None);
}

#[test]
fn host_is_the_safe_name_of_the_url() {
    let mut a = app();
    a.url = Some(s("https://example.com/foo"));
    a.cmd = Some(Method::GET(MethodData { url: s("other.org"), parameters: Vec::new() }));
    assert_eq!(host(&a), "https___example_com_foo");
    a.url = None;
    assert_eq!(host(&a), "other_org");
}

#[test]
fn method_data_and_http_method() {
    let data = || MethodData { url: s("u"), parameters: Vec::new() };
    let all = [
        (Method::HEAD(data()), HttpMethod::Head),
        (Method::GET(data()), HttpMethod::Get),
        (Method::PUT(data()), HttpMethod::Put),
        (Method::POST(data()), HttpMethod::Post),
        (Method::PATCH(data()), HttpMethod::Patch),
        (Method::DELETE(data()), HttpMethod::Delete),
    ];
    for (method, http) in all.iter() {
        assert_eq!(HttpMethod::from(method), *http);
        assert_eq!(method.data().url, "u");
    }
}

#[test]
fn default_method_is_post_with_data() {
    let header = Parameter::Header { key: s("a"), value: s("b") };
    let query = Parameter::Query { key: s("a"), value: s("b") };
    let data = Parameter::Data { key: s("a"), value: s("b") };
    assert_eq!(default_method(&Vec::new()), HttpMethod::Get);
    assert_eq!(default_method(&vec![header.clone(), query.clone()]), HttpMethod::Get);
    assert_eq!(default_method(&vec![header, query, data]), HttpMethod::Post);
}

#[test]
fn separators_by_text() {
    let all = [
        (":", Separator::Colon),
        ("=", Separator::Equal),
        ("@", Separator::At),
        (":=", Separator::ColonEqual),
        ("==", Separator::EqualEqual),
        ("=@", Separator::EqualAt),
        (":=@", Separator::Snail),
    ];
    for (text, sep) in all.iter() {
        assert_eq!(Separator::try_from(text), Ok(*sep));
        assert_eq!(sep.text(), *text);
        assert_eq!(sep.len(), text.len());
    }
    for text in ["", "a", "::", "=:", "@=", ":==", ":=@@", "=@:", " =", ":@"] {
        assert_eq!(Separator::try_from(text), Err(()));
    }
}

#[test]
fn parameter_from_parts() {
    assert_eq!(
        Parameter::new(Separator::Snail, s("k"), s("f")),
        Parameter::RawJsonDataFile { key: s("k"), value: s("f") }
    );
    let p = Parameter::new(Separator::At, s("k"), s("f"));
    assert_eq!(p.key(), "k");
    assert_eq!(p.value(), "f");
    assert!(p.is_form_file());
}

#[test]
fn transport_failures_in_order() {
    let f = |serialization, timeout, status| TransportFailure { serialization, timeout, status };
    assert!(matches!(Error::from(f(true, true, Some(500))), Error::ClientSerialization));
    assert!(matches!(Error::from(f(false, true, Some(500))), Error::ClientTimeout));
    assert!(matches!(Error::from(f(false, false, Some(500))), Error::ClientWithStatus(500)));
    assert!(matches!(Error::from(f(false, false, None)), Error::ClientOther));
}

#[test]
fn errors_from_their_causes() {
    assert!(matches!(Error::from(JsonCategory::Data), Error::SerdeJson(JsonCategory::Data)));
    assert!(matches!(
        Error::from(std::io::ErrorKind::NotFound),
        Error::IO(std::io::ErrorKind::NotFound)
    ));
    let url_error = reqwest::Url::parse("").unwrap_err();
    assert!(matches!(Error::from(url_error), Error::UrlParseError(e) if e == url_error));
}

#[test]
fn error_messages() {
    assert_eq!(
        Error::ParameterMissingSeparator(s("abc")).message(),
        "Missing separator when parsing parameter: abc"
    );
    assert_eq!(Error::MissingUrlAndCommand.message(), "Must specify a url or a command!");
    assert_eq!(
        Error::NotFormButHasFormFile.message(),
        "Cannot have a form file 'key@filename' unless --form option is set"
    );
    assert_eq!(Error::ClientSerialization.message(), "Serializing the request/response failed");
    assert_eq!(Error::ClientTimeout.message(), "Timeout during request");
    assert_eq!(Error::ClientWithStatus(404).message(), "Got status code: 404");
    assert_eq!(Error::ClientOther.message(), "Unknown client error");
    assert_eq!(Error::SerdeJson(JsonCategory::Syntax).message(), "JSON error: Syntax");
    assert_eq!(Error::SerdeJson(JsonCategory::Eof).message(), "JSON error: Eof");
    assert_eq!(Error::IO(std::io::ErrorKind::NotFound).message(), "IO Error: NotFound");
    assert_eq!(
        Error::UrlParseError(reqwest::Url::parse("").unwrap_err()).message(),
        "URL Parsing error: relative URL without a base"
    );
    assert_eq!(Error::SyntaxLoadError("JSON").message(), "Error loading syntax for JSON");
}

#[test]
fn decimal_digits() {
    assert_eq!(decimal(0), "0");
    assert_eq!(decimal(7), "7");
    assert_eq!(decimal(10), "10");
    assert_eq!(decimal(1234567890), "1234567890");
    assert_eq!(decimal(u64::MAX), "18446744073709551615");
}

#[test]
fn text_helpers() {
    assert_eq!(chars_of("aé="), vec!['a', 'é', '=']);
    assert_eq!(string_of(&vec!['a', 'é', '=', 'b'], 1, 3), "é=");
    assert_eq!(string_of(&vec!['a'], 1, 1), "");
    assert_eq!(to_lower('A'), 'a');
    assert_eq!(to_lower('Z'), 'z');
    assert_eq!(to_lower('a'), 'a');
    assert_eq!(to_lower('['), '[');
    assert_eq!(to_lower('@'), '@');
    assert_eq!(to_lower('É'), 'É');
    assert!(same_ignoring_case("Content-Type", "content-type"));
    assert!(!same_ignoring_case("Content-Type", "content_type"));
    assert!(!same_ignoring_case("a", "ab"));
    assert!(same_ignoring_case("", ""));
}

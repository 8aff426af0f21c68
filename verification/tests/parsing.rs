use hurl::errors::Error;
use hurl::param::{Parameter, Separator};
use hurl::parse::{parse_param, resolve};
use hurl::token::{gather_escape, Token};

fn text(s: &str) -> Token {
    Token::Text(s.to_string())
}

fn param(src: &str) -> Parameter {
    match parse_param(src) {
        Ok(p) => p,
        Err(_) => panic!("no separator found in {}", src),
    }
}

#[test]
fn tokens_of_plain_text() {
    assert_eq!(gather_escape("key=value"), vec![text("key=value")]);
}

#[test]
fn tokens_of_empty_text() {
    assert_eq!(gather_escape(""), Vec::<Token>::new());
}

#[test]
fn tokens_with_escape() {
    assert_eq!(
        gather_escape("key\\:name=value"),
        vec![text("key"), Token::Escape(':'), text("name=value")]
    );
}

#[test]
fn tokens_with_each_escapable_character() {
    assert_eq!(
        gather_escape("\\\\\\=\\@\\:"),
        vec![Token::Escape('\\'), Token::Escape('='), Token::Escape('@'), Token::Escape(':')]
    );
}

#[test]
fn backslash_before_other_character_is_literal() {
    assert_eq!(gather_escape("C:\\dir\\file"), vec![text("C:\\dir\\file")]);
}

#[test]
fn trailing_backslash_is_literal() {
    assert_eq!(gather_escape("abc\\"), vec![text("abc\\")]);
    assert_eq!(gather_escape("\\"), vec![text("\\")]);
}

#[test]
fn literal_pair_then_escape() {
    assert_eq!(gather_escape("\\a\\="), vec![text("\\a"), Token::Escape('=')]);
}

#[test]
fn contents_drop_the_backslash_of_each_escape() {
    let mut out = String::new();
    for t in gather_escape("a\\=b\\\\c\\xd\\:") {
        match t {
            Token::Text(s) => out.push_str(&s),
            Token::Escape(c) => out.push(c),
        }
    }
    assert_eq!(out, "a=b\\c\\xd:");
}

#[test]
fn non_ascii_text_is_kept() {
    assert_eq!(gather_escape("clé\\=ü"), vec![text("clé"), Token::Escape('='), text("ü")]);
    assert_eq!(
        param("clé=värde"),
        Parameter::Data { key: "clé".to_string(), value: "värde".to_string() }
    );
}

#[test]
fn header_parameter() {
    assert_eq!(
        param("X-API-TOKEN:abc123"),
        Parameter::Header { key: "X-API-TOKEN".to_string(), value: "abc123".to_string() }
    );
}

#[test]
fn data_parameter() {
    assert_eq!(
        param("count=3"),
        Parameter::Data { key: "count".to_string(), value: "3".to_string() }
    );
}

#[test]
fn query_parameter() {
    assert_eq!(
        param("count==3"),
        Parameter::Query { key: "count".to_string(), value: "3".to_string() }
    );
}

#[test]
fn form_file_parameter() {
    assert_eq!(
        param("foo@bar.txt"),
        Parameter::FormFile { key: "foo".to_string(), value: "bar.txt".to_string() }
    );
}

#[test]
fn raw_json_parameter() {
    assert_eq!(
        param("foo:=bar"),
        Parameter::RawJsonData { key: "foo".to_string(), value: "bar".to_string() }
    );
    assert_eq!(
        param("tags:=[\"a\",\"b\"]"),
        Parameter::RawJsonData { key: "tags".to_string(), value: "[\"a\",\"b\"]".to_string() }
    );
}

#[test]
fn data_file_parameter() {
    assert_eq!(
        param("foo=@bar.txt"),
        Parameter::DataFile { key: "foo".to_string(), value: "bar.txt".to_string() }
    );
}

#[test]
fn raw_json_file_parameter() {
    assert_eq!(
        param("foo:=@bar.json"),
        Parameter::RawJsonDataFile { key: "foo".to_string(), value: "bar.json".to_string() }
    );
}

#[test]
fn escaped_colon_is_no_separator() {
    assert_eq!(
        param("key\\:name=value"),
        Parameter::Data { key: "key:name".to_string(), value: "value".to_string() }
    );
}

#[test]
fn escapes_in_the_value_resolve_to_their_character() {
    assert_eq!(
        param("a=b\\=c\\@d\\\\e"),
        Parameter::Data { key: "a".to_string(), value: "b=c@d\\e".to_string() }
    );
}

#[test]
fn leftmost_separator_wins() {
    assert_eq!(
        param("a=b:c"),
        Parameter::Data { key: "a".to_string(), value: "b:c".to_string() }
    );
    assert_eq!(
        param("a:b=c"),
        Parameter::Header { key: "a".to_string(), value: "b=c".to_string() }
    );
    assert_eq!(
        param("a@b:=c"),
        Parameter::FormFile { key: "a".to_string(), value: "b:=c".to_string() }
    );
}

#[test]
fn longest_separator_wins_at_the_same_offset() {
    assert_eq!(
        param("a===b"),
        Parameter::Query { key: "a".to_string(), value: "=b".to_string() }
    );
    assert_eq!(
        param("a=@=b"),
        Parameter::DataFile { key: "a".to_string(), value: "=b".to_string() }
    );
    assert_eq!(
        param("a:=@@b"),
        Parameter::RawJsonDataFile { key: "a".to_string(), value: "@b".to_string() }
    );
    assert_eq!(
        param("a:@b"),
        Parameter::Header { key: "a".to_string(), value: "@b".to_string() }
    );
}

#[test]
fn separator_at_the_ends() {
    assert_eq!(param("=v"), Parameter::Data { key: String::new(), value: "v".to_string() });
    assert_eq!(param("k:"), Parameter::Header { key: "k".to_string(), value: String::new() });
    assert_eq!(param("k:="), Parameter::RawJsonData { key: "k".to_string(), value: String::new() });
}

#[test]
fn separator_behind_an_escape_token() {
    assert_eq!(
        param("a\\=b\\:c@d"),
        Parameter::FormFile { key: "a=b:c".to_string(), value: "d".to_string() }
    );
}

#[test]
fn missing_separator_is_refused() {
    match parse_param("novalue") {
        Err(Error::ParameterMissingSeparator(s)) => assert_eq!(s, "novalue"),
        _ => panic!("expected a missing separator"),
    }
    match parse_param("a\\=b") {
        Err(Error::ParameterMissingSeparator(s)) => assert_eq!(s, "a\\=b"),
        _ => panic!("expected a missing separator"),
    }
    assert!(matches!(parse_param(""), Err(Error::ParameterMissingSeparator(_))));
}

#[test]
fn resolve_names_token_offset_and_separator() {
    let tokens = gather_escape("ab\\:cd:=e");
    let split = resolve(&tokens).unwrap();
    assert_eq!(split.index, 2);
    assert_eq!(split.offset, 2);
    assert_eq!(split.separator, Separator::ColonEqual);
    assert!(resolve(&gather_escape("ab\\:cd")).is_none());
}

#[test]
fn kinds_of_parameter() {
    assert!(param("a@b").is_form_file());
    assert!(!param("a=b").is_form_file());
    assert!(!param("a:b").is_data());
    assert!(!param("a==b").is_data());
    assert!(param("a=b").is_data());
    assert!(param("a:=1").is_data());
    assert!(param("a@b").is_data());
    assert!(param("a=@b").is_data());
    assert!(param("a:=@b").is_data());
}

use connsaturator::text::{find_char, same_text, split_once};
use connsaturator::{AuthMethods, CustomHeaders};

#[test]
fn bearer_token_is_parsed() {
    match AuthMethods::parse_auth("bearer abc def").unwrap() {
        AuthMethods::Bearer(token) => assert_eq!(token, "abc def"),
        other => panic!("unexpected {:?}", other),
    }
}

#[test]
fn scheme_is_matched_in_any_case() {
    match AuthMethods::parse_auth("BeArEr t").unwrap() {
        AuthMethods::Bearer(token) => assert_eq!(token, "t"),
        other => panic!("unexpected {:?}", other),
    }
    match AuthMethods::parse_auth("APIKEY k").unwrap() {
        AuthMethods::APIKey { key } => assert_eq!(key, "k"),
        other => panic!("unexpected {:?}", other),
    }
    // The Kelvin sign lowers to the letter k.
    match AuthMethods::parse_auth("api\u{212A}ey k").unwrap() {
        AuthMethods::APIKey { key } => assert_eq!(key, "k"),
        other => panic!("unexpected {:?}", other),
    }
}

#[test]
fn from_scheme_matches_the_scheme_as_written() {
    assert!(AuthMethods::from_scheme("bearer", "t").is_ok());
    assert_eq!(
        AuthMethods::from_scheme("Bearer", "t").unwrap_err(),
        "Invalid token entry format"
    );
}

#[test]
fn oauth2_token_fills_every_value() {
    match AuthMethods::parse_auth("oauth2 tok").unwrap() {
        AuthMethods::OAuth2 { config } => {
            assert_eq!(config.client_id, "tok");
            assert_eq!(config.access_token, "tok");
            assert_eq!(config.refresh_token, "tok");
            assert_eq!(config.scope, "tok");
            assert_eq!(config.token_type, "tok");
        }
        other => panic!("unexpected {:?}", other),
    }
}

#[test]
fn basic_token_is_split_at_the_first_colon() {
    match AuthMethods::parse_auth("basic user:pa:ss").unwrap() {
        AuthMethods::Basic { username, password } => {
            assert_eq!(username, "user");
            assert_eq!(password, "pa:ss");
        }
        other => panic!("unexpected {:?}", other),
    }
    assert_eq!(
        AuthMethods::parse_auth("basic userpass").unwrap_err(),
        "Invalid basic token entry format"
    );
}

#[test]
fn malformed_auth_entries_are_rejected() {
    for entry in ["bearer", "", " token", "digest abc", "bear er"] {
        assert_eq!(AuthMethods::parse_auth(entry).unwrap_err(), "Invalid token entry format");
    }
    match AuthMethods::parse_auth("bearer ").unwrap() {
        AuthMethods::Bearer(token) => assert_eq!(token, ""),
        other => panic!("unexpected {:?}", other),
    }
}

#[test]
fn header_name_is_lowered_and_value_kept() {
    let header = CustomHeaders::parse_header("X-Custom-ID: Some Value:2").unwrap();
    assert_eq!(header.name, "x-custom-id");
    assert_eq!(header.value, " Some Value:2");
    let header = CustomHeaders::parse_header("Accept:").unwrap();
    assert_eq!(header.name, "accept");
    assert_eq!(header.value, "");
    let header = CustomHeaders::parse_header("x:caf\u{e9}\t").unwrap();
    assert_eq!(header.value, "caf\u{e9}\t");
}

#[test]
fn malformed_headers_are_rejected() {
    assert_eq!(CustomHeaders::parse_header("no colon").unwrap_err(), "Invalid header entry format");
    assert_eq!(CustomHeaders::parse_header(":value").unwrap_err(), "Invalid header name");
    assert_eq!(CustomHeaders::parse_header("bad name:v").unwrap_err(), "Invalid header name");
    assert_eq!(CustomHeaders::parse_header("n\u{e9}:v").unwrap_err(), "Invalid header name");
    assert_eq!(CustomHeaders::parse_header("a(b:v").unwrap_err(), "Invalid header name");
    assert_eq!(CustomHeaders::parse_header("name:a\nb").unwrap_err(), "Invalid header value");
    assert_eq!(CustomHeaders::parse_header("name:a\u{7f}").unwrap_err(), "Invalid header value");
    let long = "a".repeat(65536);
    assert_eq!(
        CustomHeaders::parse_header(&format!("{}:v", long)).unwrap_err(),
        "Invalid header name"
    );
    assert!(CustomHeaders::parse_header(&format!("{}:v", &long[1..])).is_ok());
}

#[test]
fn every_token_mark_is_a_name_character() {
    let header = CustomHeaders::parse_header("!#$%&'*+-.^_`|~09azAZ:v").unwrap();
    assert_eq!(header.name, "!#$%&'*+-.^_`|~09azaz");
}

#[test]
fn text_is_split_at_the_first_separator() {
    assert_eq!(find_char("a b c", ' '), Some(1));
    assert_eq!(find_char("abc", ' '), None);
    assert_eq!(find_char("\u{e9}\u{e9}:x", ':'), Some(2));
    assert_eq!(split_once("a b c", ' '), Some(("a".to_string(), "b c".to_string())));
    assert_eq!(split_once("\u{e9}\u{e9}:x", ':'), Some(("\u{e9}\u{e9}".to_string(), "x".to_string())));
    assert_eq!(split_once(":", ':'), Some((String::new(), String::new())));
    assert_eq!(split_once("", ':'), None);
    assert!(same_text("abc", "abc"));
    assert!(!same_text("abc", "abd"));
}

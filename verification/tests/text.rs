use securitydept_core::error::Error;
use securitydept_core::headers::header_text;
use securitydept_core::headers::visible_text;
use securitydept_core::text::chars_of;
use securitydept_core::text::decimal_string;
use securitydept_core::text::ends_with;
use securitydept_core::text::equals_ignore_ascii_case;
use securitydept_core::text::find_from;
use securitydept_core::text::is_blank;
use securitydept_core::text::join2;
use securitydept_core::text::join3;
use securitydept_core::text::replace;
use securitydept_core::text::split_lines;
use securitydept_core::text::starts_with;
use securitydept_core::text::string_of;
use securitydept_core::text::strip_prefix;
use securitydept_core::text::text_eq;
use securitydept_core::text::to_ascii_lower;
use securitydept_core::text::trim;
use securitydept_core::text::trim_end_matches;
use securitydept_core::text::trim_matches;
use securitydept_core::text::CharSet;

fn lines_of(s: &str) -> Vec<String> {
    split_lines(&chars_of(s)).iter().map(|l| string_of(l)).collect()
}

#[test]
fn characters_round_trip() {
    assert_eq!(chars_of("héllo"), vec!['h', 'é', 'l', 'l', 'o']);
    assert_eq!(string_of(&['a', 'ß', '漢']), "aß漢");
    assert_eq!(string_of(&chars_of("")), "");
    assert_eq!(string_of(&chars_of("a\u{1F600}b")), "a\u{1F600}b");
}

#[test]
fn trimming_agrees_with_the_standard_library() {
    for s in ["", " ", "  a b  ", "\t\r\n x\u{a0}\u{3000}", "\u{2003}y\u{85}", "no-space", "\u{200b}z "] {
        assert_eq!(trim(s), s.trim());
        assert_eq!(is_blank(s), s.trim().is_empty());
    }
    for s in ["", "\"", "\"\"a\"b\"\"", "a\"", "\"a", "\"\"\"\""] {
        assert_eq!(trim_matches(s, '"'), s.trim_matches('"'));
    }
    for s in ["", "/", "https://a//", "/a/b", "a/b/"] {
        assert_eq!(trim_end_matches(s, '/'), s.trim_end_matches('/'));
    }
    assert!(CharSet::Whitespace.contains(' '));
    assert!(CharSet::Whitespace.contains('\u{2028}'));
    assert!(!CharSet::Whitespace.contains('\u{200b}'));
    assert!(CharSet::Only('x').contains('x'));
    assert!(!CharSet::Only('x').contains('y'));
}

#[test]
fn prefixes_and_suffixes() {
    assert!(starts_with("Basic abc", "Basic "));
    assert!(!starts_with("Basic", "Basic "));
    assert!(starts_with("abc", ""));
    assert!(starts_with("", ""));
    assert!(!starts_with("", "a"));
    assert!(ends_with("a.ts", ".ts"));
    assert!(ends_with("a", ""));
    assert!(!ends_with("ts", ".ts"));
    assert!(!ends_with("a.tsx", ".ts"));
    assert_eq!(strip_prefix("Bearer x", "Bearer "), Some("x".to_string()));
    assert_eq!(strip_prefix("Bearer x", "bearer "), None);
    assert_eq!(strip_prefix("é=1", "é"), Some("=1".to_string()));
    assert_eq!(find_from(&chars_of("a:b:c"), 0, ':'), 1);
    assert_eq!(find_from(&chars_of("a:b:c"), 2, ':'), 3);
    assert_eq!(find_from(&chars_of("a:b:c"), 4, ':'), 5);
    assert_eq!(find_from(&chars_of(""), 0, ':'), 0);
}

#[test]
fn comparisons() {
    assert!(text_eq("abc", "abc"));
    assert!(!text_eq("abc", "abd"));
    assert!(!text_eq("abc", "ab"));
    assert!(text_eq("", ""));
    assert!(equals_ignore_ascii_case("AuTo", "auto"));
    assert!(equals_ignore_ascii_case("", ""));
    assert!(!equals_ignore_ascii_case("auto", "aut"));
    assert!(!equals_ignore_ascii_case("É", "é"));
    assert!(!equals_ignore_ascii_case("[", "{"));
    assert!(!equals_ignore_ascii_case("@", "`"));
    assert_eq!(to_ascii_lower('A'), 'a');
    assert_eq!(to_ascii_lower('Z'), 'z');
    assert_eq!(to_ascii_lower('a'), 'a');
    assert_eq!(to_ascii_lower('['), '[');
    assert_eq!(to_ascii_lower('@'), '@');
    assert_eq!(to_ascii_lower('É'), 'É');
}

#[test]
fn decimal_numerals() {
    assert_eq!(decimal_string(0), "0");
    assert_eq!(decimal_string(7), "7");
    assert_eq!(decimal_string(10), "10");
    assert_eq!(decimal_string(8080), "8080");
    assert_eq!(decimal_string(65535), "65535");
    assert_eq!(decimal_string(u64::MAX), "18446744073709551615");
}

#[test]
fn replacing_agrees_with_the_standard_library() {
    for (s, pat, to) in [
        ("aaa", "aa", "b"),
        ("abcabc", "bc", ""),
        ("abc", "abcd", "x"),
        ("", "a", "b"),
        ("a\\b'c", "\\", "\\\\"),
        ("x: string, y?: string", ": string", ""),
        ("ababab", "ab", "ba"),
        ("ééé", "é", "e"),
    ] {
        assert_eq!(replace(s, pat, to), s.replace(pat, to));
    }
    // an empty pattern occurs nowhere
    assert_eq!(replace("abc", "", "x"), "abc");
}

#[test]
fn lines_agree_with_the_standard_library() {
    for s in ["", "a", "a\n", "a\nb", "a\r\nb\r\n", "\n", "\n\n", "a\r", "a\rb\n", "\r\n", "a\n\nb", "a\r\r\nb"] {
        let expected: Vec<String> = s.lines().map(|l| l.to_string()).collect();
        assert_eq!(lines_of(s), expected);
    }
}

#[test]
fn joining() {
    assert_eq!(join2("a", "b"), "ab");
    assert_eq!(join2("", ""), "");
    assert_eq!(join3("https", "://", "host"), "https://host");
}

#[test]
fn header_values_that_are_text() {
    assert_eq!(visible_text(b"abc ~\t"), Some("abc ~\t".to_string()));
    assert_eq!(visible_text(b""), Some(String::new()));
    assert_eq!(visible_text(b"a\x7f"), None);
    assert_eq!(visible_text(b"a\x1f"), None);
    assert_eq!(visible_text(b"\xc3\xa9"), None);
    let mut headers = http::HeaderMap::new();
    headers.append("x-test", "first".parse().unwrap());
    headers.append("x-test", "second".parse().unwrap());
    assert_eq!(header_text(&headers, "x-test"), Some("first".to_string()));
    assert_eq!(header_text(&headers, "X-Test"), Some("first".to_string()));
    assert_eq!(header_text(&headers, "x-other"), None);
    assert_eq!(header_text(&headers, "not a name"), None);
    assert_eq!(header_text(&headers, ""), None);
}

#[test]
fn errors_have_their_text_and_status() {
    let cases: Vec<(Error, &str, u16)> = vec![
        (Error::ConfigRead { message: "m".to_string() }, "Failed to read config file: m", 500),
        (Error::ConfigParse { message: "m".to_string() }, "Failed to parse config: m", 500),
        (Error::ConfigLoad { message: "m".to_string() }, "Failed to load config: m", 500),
        (Error::DataRead { message: "m".to_string() }, "Failed to read data file: m", 500),
        (Error::DataWrite { message: "m".to_string() }, "Failed to write data file: m", 500),
        (Error::DataParse { message: "m".to_string() }, "Failed to parse data: m", 500),
        (Error::DataSerialize { message: "m".to_string() }, "Failed to serialize data: m", 500),
        (Error::EntryNotFound { id: "i".to_string() }, "Entry not found: i", 404),
        (Error::GroupNotFound { id: "i".to_string() }, "Group not found: i", 404),
        (Error::DuplicateEntryName { name: "n".to_string() }, "Duplicate entry name: n", 409),
        (Error::DuplicateGroupName { name: "n".to_string() }, "Duplicate group name: n", 409),
        (Error::OidcDiscovery { message: "m".to_string() }, "OIDC discovery error: m", 500),
        (Error::OidcTokenExchange { message: "m".to_string() }, "OIDC token exchange error: m", 500),
        (Error::OidcClaims { message: "m".to_string() }, "OIDC claims error: m", 500),
        (Error::ClaimsCheck { message: "m".to_string() }, "Claims check script error: m", 500),
        (Error::ClaimsCheckFailed { message: "m".to_string() }, "Claims check script failed: m", 403),
        (Error::PasswordHash { message: "m".to_string() }, "Password hashing error: m", 500),
        (Error::AuthFailed, "Authentication failed", 401),
        (Error::SessionNotFound, "Session not found", 401),
        (Error::SessionExpired, "Session expired", 401),
        (Error::InvalidConfig { message: "m".to_string() }, "Invalid configuration: m", 500),
    ];
    for (error, text, status) in cases {
        assert_eq!(error.message(), text);
        assert_eq!(error.status_code(), status);
        let redacted = matches!(error, Error::InvalidConfig { .. } | Error::ConfigLoad { .. });
        if redacted {
            assert_eq!(error.public_message(), "Configuration error");
        } else {
            assert_eq!(error.public_message(), text);
        }
    }
}

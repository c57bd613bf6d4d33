use http::HeaderMap;
use securitydept_core::base_url::format_fallback_host;
use securitydept_core::base_url::host_without_port;
use securitydept_core::base_url::infer_from_sources;
use securitydept_core::base_url::infer_protocol_from_host;
use securitydept_core::base_url::is_default_port;
use securitydept_core::base_url::is_loopback_host;
use securitydept_core::base_url::resolve_base_url;
use securitydept_core::base_url::try_forwarded;
use securitydept_core::config::ExternalBaseUrl;

fn make_fallback() -> (&'static str, u16) {
    ("0.0.0.0", 8080)
}

#[test]
fn fixed_config_ignores_headers() {
    let config = ExternalBaseUrl::Fixed("https://fixed.example.com".to_string());
    let headers = HeaderMap::new();
    let (host, port) = make_fallback();
    assert_eq!(
        resolve_base_url(&config, &headers, host, port),
        "https://fixed.example.com"
    );
}

#[test]
fn auto_with_forwarded_header() {
    let config = ExternalBaseUrl::Auto;
    let mut headers = HeaderMap::new();
    headers.insert(
        "forwarded",
        "for=192.0.2.60;proto=https;host=example.com"
            .parse()
            .unwrap(),
    );
    let (host, port) = make_fallback();
    assert_eq!(
        resolve_base_url(&config, &headers, host, port),
        "https://example.com"
    );
}

#[test]
fn auto_with_forwarded_header_custom_port() {
    let config = ExternalBaseUrl::Auto;
    let mut headers = HeaderMap::new();
    headers.insert(
        "forwarded",
        "proto=https;host=example.com:8443".parse().unwrap(),
    );
    let (host, port) = make_fallback();
    assert_eq!(
        resolve_base_url(&config, &headers, host, port),
        "https://example.com:8443"
    );
}

#[test]
fn auto_with_forwarded_header_no_proto() {
    let config = ExternalBaseUrl::Auto;
    let mut headers = HeaderMap::new();
    headers.insert("forwarded", "host=example.com".parse().unwrap());
    let (host, port) = make_fallback();
    // Default to https when proto is missing
    assert_eq!(
        resolve_base_url(&config, &headers, host, port),
        "https://example.com"
    );
}

#[test]
fn auto_with_x_forwarded_headers() {
    let config = ExternalBaseUrl::Auto;
    let mut headers = HeaderMap::new();
    headers.insert("x-forwarded-host", "proxy.example.com".parse().unwrap());
    headers.insert("x-forwarded-proto", "https".parse().unwrap());
    let (host, port) = make_fallback();
    assert_eq!(
        resolve_base_url(&config, &headers, host, port),
        "https://proxy.example.com"
    );
}

#[test]
fn auto_with_x_forwarded_host_only() {
    let config = ExternalBaseUrl::Auto;
    let mut headers = HeaderMap::new();
    headers.insert("x-forwarded-host", "proxy.example.com".parse().unwrap());
    let (host, port) = make_fallback();
    assert_eq!(
        resolve_base_url(&config, &headers, host, port),
        "https://proxy.example.com"
    );
}

#[test]
fn auto_with_host_header() {
    let config = ExternalBaseUrl::Auto;
    let mut headers = HeaderMap::new();
    headers.insert(http::header::HOST, "myhost.example.com".parse().unwrap());
    let (host, port) = make_fallback();
    assert_eq!(
        resolve_base_url(&config, &headers, host, port),
        "https://myhost.example.com"
    );
}

#[test]
fn auto_with_localhost_host_header() {
    let config = ExternalBaseUrl::Auto;
    let mut headers = HeaderMap::new();
    headers.insert(http::header::HOST, "localhost:3000".parse().unwrap());
    let (host, port) = make_fallback();
    assert_eq!(
        resolve_base_url(&config, &headers, host, port),
        "http://localhost:3000"
    );
}

#[test]
fn auto_fallback_to_bind_address() {
    let config = ExternalBaseUrl::Auto;
    let headers = HeaderMap::new();
    assert_eq!(
        resolve_base_url(&config, &headers, "0.0.0.0", 8080),
        "http://0.0.0.0:8080"
    );
}

#[test]
fn auto_fallback_default_port() {
    let config = ExternalBaseUrl::Auto;
    let headers = HeaderMap::new();
    assert_eq!(
        resolve_base_url(&config, &headers, "0.0.0.0", 80),
        "http://0.0.0.0"
    );
}

#[test]
fn forwarded_takes_priority_over_x_forwarded() {
    let config = ExternalBaseUrl::Auto;
    let mut headers = HeaderMap::new();
    headers.insert(
        "forwarded",
        "proto=https;host=rfc.example.com".parse().unwrap(),
    );
    headers.insert(
        "x-forwarded-host",
        "nonstandard.example.com".parse().unwrap(),
    );
    let (host, port) = make_fallback();
    assert_eq!(
        resolve_base_url(&config, &headers, host, port),
        "https://rfc.example.com"
    );
}

#[test]
fn x_forwarded_takes_priority_over_host() {
    let config = ExternalBaseUrl::Auto;
    let mut headers = HeaderMap::new();
    headers.insert("x-forwarded-host", "proxy.example.com".parse().unwrap());
    headers.insert("x-forwarded-proto", "https".parse().unwrap());
    headers.insert(http::header::HOST, "internal.example.com".parse().unwrap());
    let (host, port) = make_fallback();
    assert_eq!(
        resolve_base_url(&config, &headers, host, port),
        "https://proxy.example.com"
    );
}

#[test]
fn forwarded_with_quoted_values() {
    let config = ExternalBaseUrl::Auto;
    let mut headers = HeaderMap::new();
    headers.insert(
        "forwarded",
        "for=\"192.0.2.60\";proto=https;host=\"quoted.example.com\""
            .parse()
            .unwrap(),
    );
    let (host, port) = make_fallback();
    assert_eq!(
        resolve_base_url(&config, &headers, host, port),
        "https://quoted.example.com"
    );
}

#[test]
fn forwarded_chain_uses_first_entry() {
    let config = ExternalBaseUrl::Auto;
    let mut headers = HeaderMap::new();
    headers.insert(
        "forwarded",
        "proto=https;host=first.example.com, proto=http;host=second.example.com"
            .parse()
            .unwrap(),
    );
    let (host, port) = make_fallback();
    assert_eq!(
        resolve_base_url(&config, &headers, host, port),
        "https://first.example.com"
    );
}

#[test]
fn authority_used_when_host_absent_if_supported() {
    let name = match http::HeaderName::from_bytes(b":authority") {
        Ok(n) => n,
        Err(_) => return, // http crate does not accept :authority
    };
    let config = ExternalBaseUrl::Auto;
    let mut headers = HeaderMap::new();
    headers.insert(name, "h2.example.com".parse().unwrap());
    let (host, port) = make_fallback();
    assert_eq!(
        resolve_base_url(&config, &headers, host, port),
        "https://h2.example.com"
    );
}

#[test]
fn host_takes_priority_over_authority() {
    let config = ExternalBaseUrl::Auto;
    let mut headers = HeaderMap::new();
    headers.insert(http::header::HOST, "host.example.com".parse().unwrap());
    if let Ok(name) = http::HeaderName::from_bytes(b":authority") {
        headers.insert(name, "authority.example.com".parse().unwrap());
    }
    let (host, port) = make_fallback();
    assert_eq!(
        resolve_base_url(&config, &headers, host, port),
        "https://host.example.com"
    );
}

#[test]
fn fixed_url_loses_trailing_slashes() {
    let config = ExternalBaseUrl::Fixed("https://fixed.example.com//".to_string());
    let headers = HeaderMap::new();
    assert_eq!(
        resolve_base_url(&config, &headers, "0.0.0.0", 8080),
        "https://fixed.example.com"
    );
    assert_eq!(
        ExternalBaseUrl::from_config("https://a.example/"),
        ExternalBaseUrl::Fixed("https://a.example".to_string())
    );
    assert_eq!(ExternalBaseUrl::from_config("AUTO"), ExternalBaseUrl::Auto);
    assert_eq!(ExternalBaseUrl::from_config("auto"), ExternalBaseUrl::Auto);
    assert_eq!(
        ExternalBaseUrl::from_config("autos"),
        ExternalBaseUrl::Fixed("autos".to_string())
    );
}

#[test]
fn headers_are_trimmed_and_empty_ones_skipped() {
    let config = ExternalBaseUrl::Auto;
    let mut headers = HeaderMap::new();
    headers.insert("x-forwarded-host", "   ".parse().unwrap());
    headers.insert("x-forwarded-proto", " http ".parse().unwrap());
    headers.insert(http::header::HOST, " internal.example.com ".parse().unwrap());
    assert_eq!(
        resolve_base_url(&config, &headers, "0.0.0.0", 8080),
        "http://internal.example.com"
    );
}

#[test]
fn empty_forwarded_parameters_are_skipped() {
    let config = ExternalBaseUrl::Auto;
    let mut headers = HeaderMap::new();
    headers.insert("forwarded", "host=\"\";proto=".parse().unwrap());
    headers.insert(http::header::HOST, "localhost".parse().unwrap());
    assert_eq!(
        resolve_base_url(&config, &headers, "0.0.0.0", 8080),
        "http://localhost"
    );
}

#[test]
fn malformed_forwarded_header_is_ignored() {
    let config = ExternalBaseUrl::Auto;
    let mut headers = HeaderMap::new();
    headers.insert("forwarded", "nonsense".parse().unwrap());
    headers.insert(http::header::HOST, "example.org".parse().unwrap());
    assert_eq!(
        resolve_base_url(&config, &headers, "0.0.0.0", 8080),
        "https://example.org"
    );
    assert_eq!(try_forwarded(&Some("nonsense".to_string())), (None, None));
    assert_eq!(try_forwarded(&None), (None, None));
    assert_eq!(
        try_forwarded(&Some("host=a.example;proto=http".to_string())),
        (Some("a.example".to_string()), Some("http".to_string()))
    );
}

#[test]
fn header_value_that_is_not_text_is_ignored() {
    let config = ExternalBaseUrl::Auto;
    let mut headers = HeaderMap::new();
    headers.insert(
        http::header::HOST,
        http::HeaderValue::from_bytes(b"caf\xc3\xa9.example").unwrap(),
    );
    assert_eq!(
        resolve_base_url(&config, &headers, "127.0.0.1", 7021),
        "http://127.0.0.1:7021"
    );
}

#[test]
fn loopback_hosts_are_recognised() {
    assert!(is_loopback_host("localhost"));
    assert!(is_loopback_host("localhost:3000"));
    assert!(is_loopback_host("127.0.0.1"));
    assert!(is_loopback_host("127.0.0.1:8080"));
    assert!(is_loopback_host("::1"));
    assert!(is_loopback_host("[::1]"));
    assert!(is_loopback_host("[::1]:3000"));
    assert!(!is_loopback_host("example.com"));
    assert!(!is_loopback_host("localhost.example.com"));
    assert!(!is_loopback_host("10.0.0.1:80"));
    assert!(!is_loopback_host(""));
    assert_eq!(infer_protocol_from_host("localhost:1"), "http");
    assert_eq!(infer_protocol_from_host("example.com"), "https");
    assert_eq!(host_without_port("example.com:8443"), "example.com");
    assert_eq!(host_without_port("[2001:db8::1]:443"), "[2001:db8::1]");
    assert_eq!(host_without_port("2001:db8::1"), "2001:db8::1");
    assert_eq!(host_without_port("[broken"), "[broken");
}

#[test]
fn default_ports_and_fallback_host() {
    assert!(is_default_port("http", 80));
    assert!(is_default_port("https", 443));
    assert!(!is_default_port("http", 443));
    assert!(!is_default_port("https", 80));
    assert!(!is_default_port("ftp", 80));
    assert_eq!(format_fallback_host("0.0.0.0", 80), "0.0.0.0");
    assert_eq!(format_fallback_host("0.0.0.0", 443), "0.0.0.0:443");
    assert_eq!(format_fallback_host("h", 0), "h:0");
    assert_eq!(format_fallback_host("h", 65535), "h:65535");
    assert_eq!(format_fallback_host("h", 7021), "h:7021");
}

#[test]
fn sources_are_resolved_independently() {
    let forwarded = (None, Some("http".to_string()));
    let x_forwarded = (Some("x.example".to_string()), Some("https".to_string()));
    let host = (Some("h.example".to_string()), None);
    assert_eq!(
        infer_from_sources(&forwarded, &x_forwarded, &host, "0.0.0.0", 8080),
        "http://x.example"
    );
    let none = (None, None);
    assert_eq!(
        infer_from_sources(&none, &none, &none, "0.0.0.0", 8080),
        "http://0.0.0.0:8080"
    );
    let proto_only = (None, Some("https".to_string()));
    assert_eq!(
        infer_from_sources(&none, &proto_only, &none, "bind.example", 443),
        "https://bind.example:443"
    );
}

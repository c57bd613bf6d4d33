use securitydept_core::config::default_data_path;
use securitydept_core::config::default_external_base_url;
use securitydept_core::config::default_host;
use securitydept_core::config::default_id_token_signing_alg_values_supported;
use securitydept_core::config::default_port;
use securitydept_core::config::default_redirect_uri;
use securitydept_core::config::default_scopes;
use securitydept_core::config::oidc_disabled_by;
use securitydept_core::config::parse_scopes;
use securitydept_core::config::AppConfig;
use securitydept_core::config::DataConfig;
use securitydept_core::config::OidcConfig;
use securitydept_core::config::ServerConfig;
use securitydept_core::error::Error;

fn oidc() -> OidcConfig {
    OidcConfig {
        client_id: "client".to_string(),
        client_secret: None,
        redirect_uri: default_redirect_uri(),
        well_known_url: None,
        issuer_url: Some("https://idp.example".to_string()),
        authorization_endpoint: Some("https://idp.example/auth".to_string()),
        token_endpoint: Some("https://idp.example/token".to_string()),
        userinfo_endpoint: Some("https://idp.example/userinfo".to_string()),
        jwks_uri: Some("https://idp.example/jwks".to_string()),
        scopes: default_scopes(),
        id_token_signing_alg_values_supported: None,
        userinfo_signing_alg_values_supported: None,
        token_endpoint_auth_methods_supported: None,
        claims_check_script: None,
        pkce_enabled: false,
    }
}

fn app(oidc: Option<OidcConfig>) -> AppConfig {
    AppConfig {
        server: ServerConfig {
            host: default_host(),
            port: default_port(),
            webui_dir: None,
            external_base_url: default_external_base_url(),
        },
        oidc,
        data: DataConfig::default(),
    }
}

#[test]
fn defaults_have_their_values() {
    assert_eq!(default_host(), "0.0.0.0");
    assert_eq!(default_port(), 8080);
    assert_eq!(default_redirect_uri(), "/auth/callback");
    assert_eq!(default_scopes(), vec!["openid", "profile", "email"]);
    assert_eq!(default_external_base_url(), "auto");
    assert_eq!(default_data_path(), "./data/data.json");
    assert_eq!(DataConfig::default().path, "./data/data.json");
    assert_eq!(default_id_token_signing_alg_values_supported(), vec!["RS256"]);
}

#[test]
fn complete_configuration_is_valid() {
    assert_eq!(app(None).validate(), Ok(()));
    assert_eq!(app(Some(oidc())).validate(), Ok(()));
    let mut discovered = oidc();
    discovered.well_known_url = Some("https://idp.example/.well-known/openid-configuration".to_string());
    discovered.issuer_url = None;
    discovered.authorization_endpoint = None;
    discovered.token_endpoint = None;
    discovered.userinfo_endpoint = None;
    discovered.jwks_uri = None;
    assert_eq!(discovered.validate(), Ok(()));
}

#[test]
fn missing_issuer_is_reported_first() {
    let mut c = oidc();
    c.issuer_url = Some("   ".to_string());
    c.token_endpoint = None;
    assert_eq!(
        c.validate(),
        Err(Error::InvalidConfig { message: "oidc.issuer_url is required".to_string() })
    );
    c.issuer_url = None;
    assert_eq!(
        app(Some(c)).validate(),
        Err(Error::InvalidConfig { message: "oidc.issuer_url is required".to_string() })
    );
}

#[test]
fn missing_endpoints_are_listed_in_order() {
    let mut c = oidc();
    c.jwks_uri = None;
    c.authorization_endpoint = Some(String::new());
    c.userinfo_endpoint = Some(" \t".to_string());
    let err = c.validate().unwrap_err();
    assert_eq!(
        err,
        Error::InvalidConfig {
            message: "When well_known_url is not set, all of authorization_endpoint, token_endpoint, userinfo_endpoint and jwks_uri must be set; missing: authorization_endpoint, userinfo_endpoint, jwks_uri".to_string()
        }
    );
    assert_eq!(err.status_code(), 500);
    assert_eq!(err.public_message(), "Configuration error");

    let mut one = oidc();
    one.token_endpoint = None;
    assert_eq!(
        one.validate(),
        Err(Error::InvalidConfig {
            message: "When well_known_url is not set, all of authorization_endpoint, token_endpoint, userinfo_endpoint and jwks_uri must be set; missing: token_endpoint".to_string()
        })
    );
}

#[test]
fn oidc_enabled_switch() {
    assert!(oidc_disabled_by("false"));
    assert!(oidc_disabled_by("FALSE"));
    assert!(oidc_disabled_by("False"));
    assert!(oidc_disabled_by("0"));
    assert!(!oidc_disabled_by("true"));
    assert!(!oidc_disabled_by("1"));
    assert!(!oidc_disabled_by(""));
    assert!(!oidc_disabled_by("00"));
    assert!(!oidc_disabled_by("no"));

    let mut c = app(Some(oidc()));
    c.apply_oidc_enabled(None);
    assert!(c.oidc.is_some());
    c.apply_oidc_enabled(Some("true"));
    assert!(c.oidc.is_some());
    c.apply_oidc_enabled(Some("0"));
    assert!(c.oidc.is_none());
    assert_eq!(c.validate(), Ok(()));
}

#[test]
fn scopes_are_split_at_commas_and_white_space() {
    assert_eq!(parse_scopes("openid profile email"), vec!["openid", "profile", "email"]);
    assert_eq!(parse_scopes("openid,profile,email"), vec!["openid", "profile", "email"]);
    assert_eq!(parse_scopes(" openid, profile ,\temail\n"), vec!["openid", "profile", "email"]);
    assert_eq!(parse_scopes("one"), vec!["one"]);
    assert!(parse_scopes("").is_empty());
    assert!(parse_scopes(" , ,").is_empty());
    assert_eq!(parse_scopes("a,,b"), vec!["a", "b"]);
}

use securitydept_core::config::default_scopes;
use securitydept_core::config::OidcConfig;
use securitydept_core::error::Error;
use securitydept_core::login::begin_login;
use securitydept_core::login::clearing_cookie;
use securitydept_core::login::complete_login;
use securitydept_core::login::cookie;
use securitydept_core::login::dev_login;
use securitydept_core::login::get_session_id;
use securitydept_core::login::session_cookie;
use securitydept_core::login::take_pending;
use securitydept_core::login::SESSION_COOKIE_NAME;
use securitydept_core::oidc::build_metadata_manual;
use securitydept_core::oidc::OidcClient;
use securitydept_core::session::PendingOauthStore;
use securitydept_core::session::SessionManager;

fn client(redirect: &str) -> OidcClient {
    let c = OidcConfig {
        client_id: "client".to_string(),
        client_secret: None,
        redirect_uri: redirect.to_string(),
        well_known_url: None,
        issuer_url: Some("https://idp.example".to_string()),
        authorization_endpoint: Some("https://idp.example/auth".to_string()),
        token_endpoint: Some("https://idp.example/token".to_string()),
        userinfo_endpoint: Some("https://idp.example/userinfo".to_string()),
        jwks_uri: Some("https://idp.example/jwks".to_string()),
        scopes: default_scopes(),
        id_token_signing_alg_values_supported: None,
        userinfo_signing_alg_values_supported: None,
        token_endpoint_auth_methods_supported: None,
        claims_check_script: None,
        pkce_enabled: true,
    };
    let metadata = build_metadata_manual(&c).unwrap();
    OidcClient::from_metadata(&c, metadata)
}

fn query(url: &str, key: &str) -> Option<String> {
    let parsed = openidconnect::url::Url::parse(url).unwrap();
    parsed
        .query_pairs()
        .find(|(k, _)| k == key)
        .map(|(_, v)| v.to_string())
}

fn session_id(cookies: &str) -> Option<String> {
    let mut headers = http::HeaderMap::new();
    headers.insert("cookie", cookies.parse().unwrap());
    get_session_id(&headers)
}

#[test]
fn session_id_is_read_from_the_cookie_header() {
    assert_eq!(SESSION_COOKIE_NAME, "securitydept_session");
    assert_eq!(session_id("securitydept_session=abc"), Some("abc".to_string()));
    assert_eq!(
        session_id("theme=dark; securitydept_session=abc; lang=en"),
        Some("abc".to_string())
    );
    assert_eq!(
        session_id("theme=dark;securitydept_session=a=b ;x=y"),
        Some("a=b".to_string())
    );
    assert_eq!(
        session_id("securitydept_session=first; securitydept_session=second"),
        Some("first".to_string())
    );
    assert_eq!(session_id("securitydept_session="), Some(String::new()));
    assert_eq!(session_id("xsecuritydept_session=abc"), None);
    assert_eq!(session_id("securitydept_session"), None);
    assert_eq!(session_id("theme=dark"), None);
    assert_eq!(session_id(""), None);
    assert_eq!(session_id(";;"), None);
    assert_eq!(get_session_id(&http::HeaderMap::new()), None);
    assert_eq!(cookie("a=1; b=2", "b"), Some("2".to_string()));
    assert_eq!(cookie("a=1; b=2", "c"), None);
    assert_eq!(cookie("", "c"), None);
}

#[test]
fn cookies_carry_their_attributes() {
    assert_eq!(
        session_cookie("abc"),
        "securitydept_session=abc; Path=/; HttpOnly; SameSite=Lax; Max-Age=86400"
    );
    assert_eq!(
        clearing_cookie(),
        "securitydept_session=; Path=/; HttpOnly; Max-Age=0"
    );
}

#[test]
fn login_remembers_its_state_once() {
    let oidc = client("/auth/callback");
    let mut pending = PendingOauthStore::new();
    let url = begin_login(&oidc, &mut pending, "https://app.example").unwrap();
    assert_eq!(
        query(&url, "redirect_uri"),
        Some("https://app.example/auth/callback".to_string())
    );
    let state = query(&url, "state").unwrap();
    let nonce = query(&url, "nonce").unwrap();

    assert_eq!(take_pending(&mut pending, None), Err(Error::AuthFailed));
    assert_eq!(take_pending(&mut pending, Some("forged")), Err(Error::AuthFailed));
    let taken = take_pending(&mut pending, Some(&state)).unwrap();
    assert_eq!(taken.nonce, nonce);
    assert_eq!(taken.code_verifier.as_ref().map(|v| v.len()), Some(43));
    // the state cannot be used again
    let again = take_pending(&mut pending, Some(&state));
    assert_eq!(again, Err(Error::AuthFailed));
    assert_eq!(again.unwrap_err().status_code(), 401);
}

#[test]
fn login_that_cannot_start_remembers_nothing() {
    let oidc = client("/auth/callback");
    let mut pending = PendingOauthStore::new();
    assert!(matches!(
        begin_login(&oidc, &mut pending, "no-base"),
        Err(Error::OidcDiscovery { .. })
    ));
    assert_eq!(take_pending(&mut pending, Some("")), Err(Error::AuthFailed));
}

#[test]
fn admitted_login_creates_a_session() {
    let mut sessions = SessionManager::new(86400);
    let script = "export default function (claims) { return { success: true, display_name: \"Ada\" }; }";
    let id = complete_login(&mut sessions, Some(script), "{\"sub\":\"1\"}").unwrap();
    let session = sessions.get(&id).expect("session");
    assert_eq!(session.display_name, "Ada");
    assert_eq!(session.claims, "{\"sub\":\"1\"}");

    let rewriting = "export default function (claims) { return { success: true, claims: { role: 'admin' }, picture: 'p' }; }";
    let id = complete_login(&mut sessions, Some(rewriting), "{\"sub\":\"1\"}").unwrap();
    let session = sessions.get(&id).expect("session");
    assert_eq!(session.display_name, "Unknown");
    assert_eq!(session.picture, Some("p".to_string()));
    assert_eq!(session.claims, "{\"role\":\"admin\"}");

    let id = complete_login(&mut sessions, None, "{\"nickname\":\"nick\",\"picture\":\"n.png\"}").unwrap();
    let session = sessions.get(&id).expect("session");
    assert_eq!(session.display_name, "nick");
    assert_eq!(session.picture, Some("n.png".to_string()));
}

#[test]
fn denied_login_creates_no_session() {
    let mut sessions = SessionManager::new(86400);
    let script = "export default function (claims) { return { success: false, error: \"denied\" }; }";
    let err = complete_login(&mut sessions, Some(script), "{}").unwrap_err();
    assert_eq!(err, Error::ClaimsCheckFailed { message: "denied".to_string() });
    assert_eq!(err.status_code(), 403);
}

#[test]
fn dev_login_creates_a_dev_session() {
    let mut sessions = SessionManager::new(86400);
    let id = dev_login(&mut sessions);
    let session = sessions.get(&id).expect("session");
    assert_eq!(session.display_name, "dev");
    assert_eq!(session.claims, "{\"oidc_enabled\":false}");
    assert_eq!(session.picture, None);
}

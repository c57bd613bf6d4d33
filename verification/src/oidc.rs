//! The OpenID Connect client: the provider's metadata as the configuration
//! shapes it, the redirect target and the authorization request.

use crate::config::default_id_token_signing_alg_values_supported;
use crate::config::OidcConfig;
use crate::error::Error;
use crate::error::ErrorView;
use crate::models::clone_opt;
use crate::models::clone_strings;
use crate::text::join2;
use crate::text::join3;
use crate::text::starts_with;
use crate::text::strip_end;
use crate::text::trim_end_matches;
use crate::text::CharSet;
use openidconnect::AuthUrl;
use openidconnect::AuthenticationFlow;
use openidconnect::ClientId;
use openidconnect::CsrfToken;
use openidconnect::IssuerUrl;
use openidconnect::JsonWebKeySet;
use openidconnect::Nonce;
use openidconnect::PkceCodeChallenge;
use openidconnect::PkceCodeVerifier;
use openidconnect::RedirectUrl;
use openidconnect::Scope;
use vstd::prelude::*;
use vstd::utf8::encode_utf8;

verus! {

/// The text of the error with which a string is refused as an absolute URL;
/// none where it is one.
pub uninterp spec fn url_parse_error(text: Seq<char>) -> Option<Seq<char>>;

/// The authorization URL that an authorization-code request gives.
pub uninterp spec fn authorization_request(
    endpoint: Seq<char>,
    client_id: Seq<char>,
    redirect_uri: Seq<char>,
    scopes: Seq<Seq<char>>,
    state: Seq<char>,
    nonce: Seq<char>,
    code_verifier: Option<Seq<char>>,
) -> Seq<char>;

/// The text of the error with which `text` is refused as an absolute URL.
///
/// Trusted: `Url::parse` of the `url` crate that `openidconnect` hands on,
/// with the error written out. The URL types of `openidconnect` accept a
/// string exactly where `Url::parse` does.
#[verifier::external_body]
pub(crate) fn url_error(text: &str) -> (r: Option<String>)
    ensures
        r.deep_view() == url_parse_error(text@),
{
    match openidconnect::url::Url::parse(text) {
        Ok(_) => None,
        Err(e) => Some(e.to_string()),
    }
}

/// A fresh random `state` token.
///
/// Trusted: the secret of `CsrfToken::new_random`. Nothing is claimed of it.
#[verifier::external_body]
pub(crate) fn random_state() -> String {
    CsrfToken::new_random().secret().clone()
}

/// A fresh random nonce.
///
/// Trusted: the secret of `Nonce::new_random`. Nothing is claimed of it.
#[verifier::external_body]
pub(crate) fn random_nonce() -> String {
    Nonce::new_random().secret().clone()
}

/// A fresh random PKCE code verifier.
///
/// Trusted: the verifier of `PkceCodeChallenge::new_random_sha256`, which is
/// the Base64 of 32 random bytes and so within the 43 to 128 bytes that a
/// verifier must have.
#[verifier::external_body]
pub(crate) fn random_code_verifier() -> (r: String)
    ensures
        43 <= encode_utf8(r@).len() <= 128,
{
    PkceCodeChallenge::new_random_sha256().1.secret().clone()
}

/// The authorization URL of an authorization-code request.
///
/// Trusted: a `CoreClient` with the given client id, authorization endpoint
/// and redirect URI (its issuer and its empty key set play no part in the
/// URL); its `authorize_url` with the given state and nonce; the
/// SHA-256 challenge of the code verifier, where one is given; each scope
/// added in order; and the URL that `AuthorizationRequest::url` gives.
/// `AuthUrl::new` and `RedirectUrl::new` fail where the string is no
/// absolute URL, and `from_code_verifier_sha256` panics on a verifier
/// outside 43 to 128 bytes: the caller rules both out.
#[verifier::external_body]
pub(crate) fn authorization_url(
    endpoint: &str,
    client_id: &str,
    redirect_uri: &str,
    scopes: &Vec<String>,
    state: String,
    nonce: String,
    code_verifier: Option<String>,
) -> (r: String)
    requires
        url_parse_error(endpoint@) is None,
        url_parse_error(redirect_uri@) is None,
        code_verifier matches Some(v) ==> 43 <= encode_utf8(v@).len() <= 128,
    ensures
        r@ == authorization_request(
            endpoint@,
            client_id@,
            redirect_uri@,
            scopes.deep_view(),
            state@,
            nonce@,
            code_verifier.deep_view(),
        ),
{
    let auth = AuthUrl::new(endpoint.to_string()).unwrap();
    let issuer = IssuerUrl::from_url(auth.url().clone());
    let client = openidconnect::core::CoreClient::new(ClientId::new(client_id.to_string()), issuer, JsonWebKeySet::default())
        .set_auth_uri(auth).set_redirect_uri(RedirectUrl::new(redirect_uri.to_string()).unwrap());
    let flow = AuthenticationFlow::<openidconnect::core::CoreResponseType>::AuthorizationCode;
    let mut request = client.authorize_url(flow, move || CsrfToken::new(state), move || Nonce::new(nonce));
    if let Some(v) = code_verifier {
        request = request.set_pkce_challenge(PkceCodeChallenge::from_code_verifier_sha256(&PkceCodeVerifier::new(v)));
    }
    for scope in scopes {
        request = request.add_scope(Scope::new(scope.clone()));
    }
    request.url().0.to_string()
}

/// What a `ProviderMetadata` holds, as plain values.
pub struct ProviderMetadataView {
    pub issuer: Seq<char>,
    pub authorization_endpoint: Seq<char>,
    pub token_endpoint: Option<Seq<char>>,
    pub userinfo_endpoint: Option<Seq<char>>,
    pub jwks_uri: Seq<char>,
    pub response_types_supported: Seq<Seq<char>>,
    pub subject_types_supported: Seq<Seq<char>>,
    pub id_token_signing_alg_values_supported: Seq<Seq<char>>,
    pub userinfo_signing_alg_values_supported: Option<Seq<Seq<char>>>,
    pub token_endpoint_auth_methods_supported: Option<Seq<Seq<char>>>,
}

/// What the client needs to know of the provider.
#[derive(Debug, PartialEq, Eq)]
pub struct ProviderMetadata {
    pub issuer: String,
    pub authorization_endpoint: String,
    pub token_endpoint: Option<String>,
    pub userinfo_endpoint: Option<String>,
    pub jwks_uri: String,
    pub response_types_supported: Vec<String>,
    pub subject_types_supported: Vec<String>,
    pub id_token_signing_alg_values_supported: Vec<String>,
    pub userinfo_signing_alg_values_supported: Option<Vec<String>>,
    pub token_endpoint_auth_methods_supported: Option<Vec<String>>,
}

impl View for ProviderMetadata {
    type V = ProviderMetadataView;

    open spec fn view(&self) -> ProviderMetadataView {
        ProviderMetadataView {
            issuer: self.issuer@,
            authorization_endpoint: self.authorization_endpoint@,
            token_endpoint: self.token_endpoint.deep_view(),
            userinfo_endpoint: self.userinfo_endpoint.deep_view(),
            jwks_uri: self.jwks_uri@,
            response_types_supported: self.response_types_supported.deep_view(),
            subject_types_supported: self.subject_types_supported.deep_view(),
            id_token_signing_alg_values_supported: self.id_token_signing_alg_values_supported.deep_view(),
            userinfo_signing_alg_values_supported: self.userinfo_signing_alg_values_supported.deep_view(),
            token_endpoint_auth_methods_supported: self.token_endpoint_auth_methods_supported.deep_view(),
        }
    }
}

/// A copy of an optional list of strings.
pub fn clone_opt_strings(o: &Option<Vec<String>>) -> (r: Option<Vec<String>>)
    ensures
        r.deep_view() == o.deep_view(),
{
    match o {
        Some(v) => Some(clone_strings(v)),
        None => None,
    }
}

impl Clone for ProviderMetadata {
    fn clone(&self) -> (r: Self)
        ensures
            r@ == self@,
    {
        ProviderMetadata {
            issuer: self.issuer.clone(),
            authorization_endpoint: self.authorization_endpoint.clone(),
            token_endpoint: clone_opt(&self.token_endpoint),
            userinfo_endpoint: clone_opt(&self.userinfo_endpoint),
            jwks_uri: self.jwks_uri.clone(),
            response_types_supported: clone_strings(&self.response_types_supported),
            subject_types_supported: clone_strings(&self.subject_types_supported),
            id_token_signing_alg_values_supported: clone_strings(
                &self.id_token_signing_alg_values_supported,
            ),
            userinfo_signing_alg_values_supported: clone_opt_strings(
                &self.userinfo_signing_alg_values_supported,
            ),
            token_endpoint_auth_methods_supported: clone_opt_strings(
                &self.token_endpoint_auth_methods_supported,
            ),
        }
    }
}

/// The error with which the URL `value` of the setting `label` is refused,
/// if it is.
pub open spec fn url_setting_error(label: Seq<char>, value: Seq<char>) -> Option<ErrorView> {
    match url_parse_error(value) {
        Some(e) => Some(ErrorView::OidcDiscovery { message: "Invalid "@ + label + ": "@ + e }),
        None => None,
    }
}

/// The error with which an optional URL of the setting `label` is refused.
pub open spec fn optional_url_error(label: Seq<char>, value: Option<Seq<char>>) -> Option<
    ErrorView,
> {
    match value {
        Some(v) => url_setting_error(label, v),
        None => None,
    }
}

/// A value of the configuration, or the empty string where it is absent.
pub open spec fn or_empty(value: Option<Seq<char>>) -> Seq<char> {
    match value {
        Some(v) => v,
        None => Seq::empty(),
    }
}

/// The first of five errors that is there.
pub open spec fn first_error(
    a: Option<ErrorView>,
    b: Option<ErrorView>,
    c: Option<ErrorView>,
    d: Option<ErrorView>,
    e: Option<ErrorView>,
) -> Option<ErrorView> {
    if a is Some {
        a
    } else if b is Some {
        b
    } else if c is Some {
        c
    } else if d is Some {
        d
    } else {
        e
    }
}

impl OidcConfig {
    /// The error with which the overrides of a discovered document are
    /// refused: that of the first URL, in the order issuer, authorization,
    /// token, userinfo and JWKS, that is no absolute URL.
    pub open spec fn override_error(&self) -> Option<ErrorView> {
        first_error(
                optional_url_error("issuer_url"@, self.issuer_url.deep_view()),
                optional_url_error(
                    "authorization_endpoint"@,
                    self.authorization_endpoint.deep_view(),
                ),
                optional_url_error("token_endpoint"@, self.token_endpoint.deep_view()),
                optional_url_error("userinfo_endpoint"@, self.userinfo_endpoint.deep_view()),
                optional_url_error("jwks_uri"@, self.jwks_uri.deep_view()),
            )
    }

    /// The discovered metadata with every field that the configuration
    /// sets put in place of the discovered one.
    pub open spec fn overriding(&self, d: ProviderMetadataView) -> ProviderMetadataView {
        ProviderMetadataView {
            issuer: if self.issuer_url is Some {
                self.issuer_url->0@
            } else {
                d.issuer
            },
            authorization_endpoint: if self.authorization_endpoint is Some {
                self.authorization_endpoint->0@
            } else {
                d.authorization_endpoint
            },
            token_endpoint: if self.token_endpoint is Some {
                self.token_endpoint.deep_view()
            } else {
                d.token_endpoint
            },
            userinfo_endpoint: if self.userinfo_endpoint is Some {
                self.userinfo_endpoint.deep_view()
            } else {
                d.userinfo_endpoint
            },
            jwks_uri: if self.jwks_uri is Some {
                self.jwks_uri->0@
            } else {
                d.jwks_uri
            },
            response_types_supported: d.response_types_supported,
            subject_types_supported: d.subject_types_supported,
            id_token_signing_alg_values_supported: if self.id_token_signing_alg_values_supported is Some {
                self.id_token_signing_alg_values_supported->0.deep_view()
            } else {
                d.id_token_signing_alg_values_supported
            },
            userinfo_signing_alg_values_supported: if self.userinfo_signing_alg_values_supported is Some {
                self.userinfo_signing_alg_values_supported.deep_view()
            } else {
                d.userinfo_signing_alg_values_supported
            },
            token_endpoint_auth_methods_supported: if self.token_endpoint_auth_methods_supported is Some {
                self.token_endpoint_auth_methods_supported.deep_view()
            } else {
                d.token_endpoint_auth_methods_supported
            },
        }
    }

    /// The error with which a configuration without discovery is refused:
    /// that of the first URL, in the order issuer, authorization, JWKS,
    /// token and userinfo, that is no absolute URL. An absent URL counts as
    /// the empty string.
    pub open spec fn manual_error(&self) -> Option<ErrorView> {
        first_error(
                url_setting_error("issuer_url"@, or_empty(self.issuer_url.deep_view())),
                url_setting_error(
                    "authorization_endpoint"@,
                    or_empty(self.authorization_endpoint.deep_view()),
                ),
                url_setting_error("jwks_uri"@, or_empty(self.jwks_uri.deep_view())),
                url_setting_error("token_endpoint"@, or_empty(self.token_endpoint.deep_view())),
                url_setting_error(
                    "userinfo_endpoint"@,
                    or_empty(self.userinfo_endpoint.deep_view()),
                ),
            )
    }

    /// The metadata that a configuration without discovery describes: the
    /// response type is `code`, the subject type `public`, and the ID token
    /// is signed with `RS256` unless the configuration says else.
    pub open spec fn manual_metadata(&self) -> ProviderMetadataView {
        ProviderMetadataView {
            issuer: or_empty(self.issuer_url.deep_view()),
            authorization_endpoint: or_empty(self.authorization_endpoint.deep_view()),
            token_endpoint: Some(or_empty(self.token_endpoint.deep_view())),
            userinfo_endpoint: Some(or_empty(self.userinfo_endpoint.deep_view())),
            jwks_uri: or_empty(self.jwks_uri.deep_view()),
            response_types_supported: seq!["code"@],
            subject_types_supported: seq!["public"@],
            id_token_signing_alg_values_supported: if self.id_token_signing_alg_values_supported is Some {
                self.id_token_signing_alg_values_supported->0.deep_view()
            } else {
                seq!["RS256"@]
            },
            userinfo_signing_alg_values_supported: self.userinfo_signing_alg_values_supported.deep_view(),
            token_endpoint_auth_methods_supported: self.token_endpoint_auth_methods_supported.deep_view(),
        }
    }
}

/// Checks that the URL `value` of the setting `label` is an absolute URL.
pub fn check_url(label: &str, value: &str) -> (r: Result<(), Error>)
    ensures
        match r {
            Ok(_) => url_setting_error(label@, value@) is None,
            Err(e) => url_setting_error(label@, value@) == Some(e@),
        },
{
    match url_error(value) {
        Some(e) => {
            let head = join3("Invalid ", label, ": ");
            Err(Error::OidcDiscovery { message: join2(head.as_str(), e.as_str()) })
        },
        None => Ok(()),
    }
}

/// Checks an optional URL of the setting `label`.
pub fn check_optional_url(label: &str, value: &Option<String>) -> (r: Result<(), Error>)
    ensures
        match r {
            Ok(_) => optional_url_error(label@, value.deep_view()) is None,
            Err(e) => optional_url_error(label@, value.deep_view()) == Some(e@),
        },
{
    match value {
        Some(v) => check_url(label, v.as_str()),
        None => Ok(()),
    }
}

/// A copy of an optional string, or the empty string where it is absent.
fn text_or_empty(value: &Option<String>) -> (r: String)
    ensures
        r@ == or_empty(value.deep_view()),
{
    match value {
        Some(v) => v.clone(),
        None => String::new(),
    }
}

/// Puts every field that the configuration sets in place of the one that
/// discovery gave. Fails where a URL of the configuration is no absolute
/// URL.
pub fn merge_metadata(config: &OidcConfig, discovered: ProviderMetadata) -> (r: Result<
    ProviderMetadata,
    Error,
>)
    ensures
        match r {
            Ok(m) => config.override_error() is None && m@ == config.overriding(discovered@),
            Err(e) => config.override_error() == Some(e@),
        },
{
    let mut m = discovered;
    check_optional_url("issuer_url", &config.issuer_url)?;
    check_optional_url("authorization_endpoint", &config.authorization_endpoint)?;
    check_optional_url("token_endpoint", &config.token_endpoint)?;
    check_optional_url("userinfo_endpoint", &config.userinfo_endpoint)?;
    check_optional_url("jwks_uri", &config.jwks_uri)?;
    match &config.issuer_url {
        Some(u) => {
            m.issuer = u.clone();
        },
        None => {},
    }
    match &config.authorization_endpoint {
        Some(u) => {
            m.authorization_endpoint = u.clone();
        },
        None => {},
    }
    match &config.token_endpoint {
        Some(u) => {
            m.token_endpoint = Some(u.clone());
        },
        None => {},
    }
    match &config.userinfo_endpoint {
        Some(u) => {
            m.userinfo_endpoint = Some(u.clone());
        },
        None => {},
    }
    match &config.jwks_uri {
        Some(u) => {
            m.jwks_uri = u.clone();
        },
        None => {},
    }
    match &config.id_token_signing_alg_values_supported {
        Some(a) => {
            m.id_token_signing_alg_values_supported = clone_strings(a);
        },
        None => {},
    }
    match &config.userinfo_signing_alg_values_supported {
        Some(a) => {
            m.userinfo_signing_alg_values_supported = Some(clone_strings(a));
        },
        None => {},
    }
    match &config.token_endpoint_auth_methods_supported {
        Some(a) => {
            m.token_endpoint_auth_methods_supported = Some(clone_strings(a));
        },
        None => {},
    }
    Ok(m)
}

/// The metadata of a provider that is configured without discovery. Fails
/// where one of the five URLs is absent or no absolute URL.
pub fn build_metadata_manual(config: &OidcConfig) -> (r: Result<ProviderMetadata, Error>)
    ensures
        match r {
            Ok(m) => config.manual_error() is None && m@ == config.manual_metadata(),
            Err(e) => config.manual_error() == Some(e@),
        },
{
    let issuer = text_or_empty(&config.issuer_url);
    let authorization_endpoint = text_or_empty(&config.authorization_endpoint);
    let jwks_uri = text_or_empty(&config.jwks_uri);
    let token_endpoint = text_or_empty(&config.token_endpoint);
    let userinfo_endpoint = text_or_empty(&config.userinfo_endpoint);
    check_url("issuer_url", issuer.as_str())?;
    check_url("authorization_endpoint", authorization_endpoint.as_str())?;
    check_url("jwks_uri", jwks_uri.as_str())?;
    check_url("token_endpoint", token_endpoint.as_str())?;
    check_url("userinfo_endpoint", userinfo_endpoint.as_str())?;
    let algs = match &config.id_token_signing_alg_values_supported {
        Some(a) => clone_strings(a),
        None => default_id_token_signing_alg_values_supported(),
    };
    let mut response_types: Vec<String> = Vec::new();
    response_types.push(String::from_str("code"));
    assert(response_types.deep_view() =~= seq!["code"@]);
    let mut subject_types: Vec<String> = Vec::new();
    subject_types.push(String::from_str("public"));
    assert(subject_types.deep_view() =~= seq!["public"@]);
    Ok(
        ProviderMetadata {
            issuer,
            authorization_endpoint,
            token_endpoint: Some(token_endpoint),
            userinfo_endpoint: Some(userinfo_endpoint),
            jwks_uri,
            response_types_supported: response_types,
            subject_types_supported: subject_types,
            id_token_signing_alg_values_supported: algs,
            userinfo_signing_alg_values_supported: clone_opt_strings(
                &config.userinfo_signing_alg_values_supported,
            ),
            token_endpoint_auth_methods_supported: clone_opt_strings(
                &config.token_endpoint_auth_methods_supported,
            ),
        },
    )
}


/// The client of one provider: its metadata and what the configuration
/// says of the client itself.
#[derive(Debug, PartialEq, Eq)]
pub struct OidcClient {
    pub metadata: ProviderMetadata,
    pub client_id: String,
    pub client_secret: Option<String>,
    pub scopes: Vec<String>,
    /// The redirect URI as configured: absolute, or a path that starts with
    /// a slash.
    pub redirect_uri_template: String,
    pub pkce_enabled: bool,
}

/// The absolute redirect URI: the template where it starts with `http`,
/// else the external base URL, without slashes at its end, and the template
/// behind it.
pub open spec fn redirect_target(template: Seq<char>, base: Seq<char>) -> Seq<char> {
    if "http"@.is_prefix_of(template) {
        template
    } else {
        strip_end(base, CharSet::Only('/')) + template
    }
}

/// Whether a string can be a PKCE code verifier: it has 43 to 128 bytes.
pub open spec fn fits_verifier(v: Seq<char>) -> bool {
    43 <= encode_utf8(v).len() <= 128
}

impl OidcClient {
    /// The client that the configuration and the provider's metadata give.
    pub fn from_metadata(config: &OidcConfig, metadata: ProviderMetadata) -> (r: OidcClient)
        ensures
            r.metadata@ == metadata@,
            r.client_id@ == config.client_id@,
            r.client_secret.deep_view() == config.client_secret.deep_view(),
            r.scopes.deep_view() == config.scopes.deep_view(),
            r.redirect_uri_template@ == config.redirect_uri@,
            r.pkce_enabled == config.pkce_enabled,
    {
        OidcClient {
            metadata,
            client_id: config.client_id.clone(),
            client_secret: clone_opt(&config.client_secret),
            scopes: clone_strings(&config.scopes),
            redirect_uri_template: config.redirect_uri.clone(),
            pkce_enabled: config.pkce_enabled,
        }
    }

    /// The code verifier that a request carries: the one given, where PKCE
    /// is enabled, and none where it is not.
    pub open spec fn verifier_in_use(&self, code_verifier: Option<Seq<char>>) -> Option<Seq<char>> {
        if self.pkce_enabled {
            code_verifier
        } else {
            None
        }
    }

    /// What building the authorization URL gives: the URL of the request
    /// with the resolved redirect URI, the configured scopes and the given
    /// state, nonce and verifier; or the error with which the redirect URI,
    /// the authorization endpoint or the verifier is refused.
    pub open spec fn authorize_outcome(
        &self,
        base: Seq<char>,
        state: Seq<char>,
        nonce: Seq<char>,
        code_verifier: Option<Seq<char>>,
    ) -> Result<Seq<char>, ErrorView> {
        let redirect = redirect_target(self.redirect_uri_template@, base);
        let used = self.verifier_in_use(code_verifier);
        if url_parse_error(redirect) is Some {
            Err(
                ErrorView::OidcDiscovery {
                    message: "Invalid redirect URL: "@ + url_parse_error(redirect)->0,
                },
            )
        } else if url_parse_error(self.metadata@.authorization_endpoint) is Some {
            Err(
                ErrorView::OidcDiscovery {
                    message: "Invalid authorization_endpoint: "@ + url_parse_error(
                        self.metadata@.authorization_endpoint,
                    )->0,
                },
            )
        } else if used is Some && !fits_verifier(used->0) {
            Err(ErrorView::OidcDiscovery { message: "Invalid PKCE code verifier"@ })
        } else {
            Ok(
                authorization_request(
                    self.metadata@.authorization_endpoint,
                    self.client_id@,
                    redirect,
                    self.scopes.deep_view(),
                    state,
                    nonce,
                    used,
                ),
            )
        }
    }

    /// The absolute redirect URI for a request that came in under
    /// `external_base_url`.
    pub fn resolve_redirect_url(&self, external_base_url: &str) -> (r: String)
        ensures
            r@ == redirect_target(self.redirect_uri_template@, external_base_url@),
    {
        if starts_with(self.redirect_uri_template.as_str(), "http") {
            self.redirect_uri_template.clone()
        } else {
            let base = trim_end_matches(external_base_url, '/');
            join2(base.as_str(), self.redirect_uri_template.as_str())
        }
    }

    /// Builds the authorization URL with the given state, nonce and code
    /// verifier, and hands them back with it; the verifier only where PKCE
    /// is enabled.
    pub fn authorize_url_with(
        &self,
        external_base_url: &str,
        state: String,
        nonce: String,
        code_verifier: Option<String>,
    ) -> (r: Result<(String, String, String, Option<String>), Error>)
        ensures
            match r {
                Ok(t) => self.authorize_outcome(
                    external_base_url@,
                    state@,
                    nonce@,
                    code_verifier.deep_view(),
                ) == Ok::<Seq<char>, ErrorView>(t.0@) && t.1@ == state@ && t.2@ == nonce@
                    && t.3.deep_view() == self.verifier_in_use(code_verifier.deep_view()),
                Err(e) => self.authorize_outcome(
                    external_base_url@,
                    state@,
                    nonce@,
                    code_verifier.deep_view(),
                ) == Err::<Seq<char>, ErrorView>(e@),
            },
    {
        let redirect = self.resolve_redirect_url(external_base_url);
        match url_error(redirect.as_str()) {
            Some(e) => {
                return Err(
                    Error::OidcDiscovery { message: join2("Invalid redirect URL: ", e.as_str()) },
                );
            },
            None => {},
        }
        match url_error(self.metadata.authorization_endpoint.as_str()) {
            Some(e) => {
                return Err(
                    Error::OidcDiscovery {
                        message: join2("Invalid authorization_endpoint: ", e.as_str()),
                    },
                );
            },
            None => {},
        }
        let used: Option<String> = if self.pkce_enabled {
            code_verifier
        } else {
            None
        };
        match &used {
            Some(v) => {
                let n = v.as_str().as_bytes().len();
                if n < 43 || n > 128 {
                    return Err(
                        Error::OidcDiscovery {
                            message: String::from_str("Invalid PKCE code verifier"),
                        },
                    );
                }
            },
            None => {},
        }
        let kept = clone_opt(&used);
        let state_kept = state.clone();
        let nonce_kept = nonce.clone();
        let url = authorization_url(
            self.metadata.authorization_endpoint.as_str(),
            self.client_id.as_str(),
            redirect.as_str(),
            &self.scopes,
            state,
            nonce,
            used,
        );
        Ok((url, state_kept, nonce_kept, kept))
    }

    /// Builds the authorization URL to which a user is sent to log in, under
    /// a fresh random state and nonce and, where PKCE is enabled, a fresh
    /// code verifier. Hands back the URL, the state, the nonce and the
    /// verifier.
    pub fn authorize_url(&self, external_base_url: &str) -> (r: Result<
        (String, String, String, Option<String>),
        Error,
    >)
        ensures
            match r {
                Ok(t) => self.authorize_outcome(external_base_url@, t.1@, t.2@, t.3.deep_view())
                    == Ok::<Seq<char>, ErrorView>(t.0@) && (t.3 is Some) == self.pkce_enabled,
                Err(e) => exists|state: Seq<char>, nonce: Seq<char>, verifier: Option<Seq<char>>|
                    #[trigger] self.authorize_outcome(external_base_url@, state, nonce, verifier)
                        == Err::<Seq<char>, ErrorView>(e@),
            },
    {
        let state = random_state();
        let nonce = random_nonce();
        let verifier = if self.pkce_enabled {
            Some(random_code_verifier())
        } else {
            None
        };
        let ghost s = state@;
        let ghost n = nonce@;
        let ghost v = verifier.deep_view();
        let r = self.authorize_url_with(external_base_url, state, nonce, verifier);
        proof {
            if r is Err {
                assert(self.authorize_outcome(external_base_url@, s, n, v) == Err::<
                    Seq<char>,
                    ErrorView,
                >(r->Err_0@));
            }
        }
        r
    }
}

/// Under a base URL that ends in no slash, the redirect URI of a relative
/// template is the base URL and the template behind it, character for
/// character; and it is the same whenever the same base URL is given.
pub proof fn law_redirect_uri_is_base_and_template(template: Seq<char>, base: Seq<char>)
    requires
        !"http"@.is_prefix_of(template),
        base.len() == 0 || base.last() != '/',
    ensures
        redirect_target(template, base) == base + template,
{
}

} // verus!

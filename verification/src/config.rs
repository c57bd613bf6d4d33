//! The configuration: its defaults, the forms a value may take and the rules
//! that a loaded configuration must meet.

use crate::error::Error;
use crate::error::ErrorView;
use crate::text::chars_of;
use crate::text::copy_range;
use crate::text::eq_ignore_ascii_case;
use crate::text::equals_ignore_ascii_case;
use crate::text::is_blank;
use crate::text::is_whitespace;
use crate::text::push_str;
use crate::text::string_of;
use crate::text::strip;
use crate::text::strip_end;
use crate::text::text_eq;
use crate::text::trim_end_matches;
use crate::text::CharSet;
use vstd::prelude::*;

verus! {

/// The `[server]` section.
#[derive(Debug, PartialEq, Eq)]
pub struct ServerConfig {
    pub host: String,
    pub port: u16,
    /// The directory of the static web interface, if one is served.
    pub webui_dir: Option<String>,
    /// `"auto"`, or the absolute URL under which clients reach the server.
    pub external_base_url: String,
}

/// The `[data]` section.
#[derive(Debug, PartialEq, Eq)]
pub struct DataConfig {
    pub path: String,
}

/// The `[oidc]` section.
#[derive(Debug, PartialEq, Eq)]
pub struct OidcConfig {
    pub client_id: String,
    pub client_secret: Option<String>,
    pub redirect_uri: String,
    /// The URL of the discovery document. Without it, `issuer_url` and the
    /// four endpoints below must all be set.
    pub well_known_url: Option<String>,
    pub issuer_url: Option<String>,
    pub authorization_endpoint: Option<String>,
    pub token_endpoint: Option<String>,
    pub userinfo_endpoint: Option<String>,
    pub jwks_uri: Option<String>,
    pub scopes: Vec<String>,
    pub id_token_signing_alg_values_supported: Option<Vec<String>>,
    pub userinfo_signing_alg_values_supported: Option<Vec<String>>,
    pub token_endpoint_auth_methods_supported: Option<Vec<String>>,
    /// The path of the claims policy script, if there is one.
    pub claims_check_script: Option<String>,
    pub pkce_enabled: bool,
}

/// The whole configuration. Without an `[oidc]` section OIDC is disabled.
#[derive(Debug, PartialEq, Eq)]
pub struct AppConfig {
    pub server: ServerConfig,
    pub oidc: Option<OidcConfig>,
    pub data: DataConfig,
}

/// The parsed form of `external_base_url`.
#[derive(Debug, PartialEq, Eq)]
pub enum ExternalBaseUrl {
    /// Infer the URL from the headers of each request.
    Auto,
    /// Use this URL.
    Fixed(String),
}

/// What an `ExternalBaseUrl` holds, as plain values.
pub enum ExternalBaseUrlView {
    Auto,
    Fixed(Seq<char>),
}

impl View for ExternalBaseUrl {
    type V = ExternalBaseUrlView;

    open spec fn view(&self) -> ExternalBaseUrlView {
        match self {
            ExternalBaseUrl::Auto => ExternalBaseUrlView::Auto,
            ExternalBaseUrl::Fixed(url) => ExternalBaseUrlView::Fixed(url@),
        }
    }
}

impl Clone for ExternalBaseUrl {
    fn clone(&self) -> (r: Self)
        ensures
            r@ == self@,
    {
        match self {
            ExternalBaseUrl::Auto => ExternalBaseUrl::Auto,
            ExternalBaseUrl::Fixed(url) => ExternalBaseUrl::Fixed(url.clone()),
        }
    }
}

/// What a configuration value of `external_base_url` means: `auto`, in any
/// case of its letters, is `Auto`; anything else is that URL without the
/// slashes at its end.
pub open spec fn external_base_url_of(value: Seq<char>) -> ExternalBaseUrlView {
    if eq_ignore_ascii_case(value, "auto"@) {
        ExternalBaseUrlView::Auto
    } else {
        ExternalBaseUrlView::Fixed(strip_end(value, CharSet::Only('/')))
    }
}

impl ExternalBaseUrl {
    /// Parses a configuration value.
    pub fn from_config(value: &str) -> (r: ExternalBaseUrl)
        ensures
            r@ == external_base_url_of(value@),
    {
        if equals_ignore_ascii_case(value, "auto") {
            ExternalBaseUrl::Auto
        } else {
            ExternalBaseUrl::Fixed(trim_end_matches(value, '/'))
        }
    }
}

/// The default of `server.host`.
pub fn default_host() -> (r: String)
    ensures
        r@ == "0.0.0.0"@,
{
    String::from_str("0.0.0.0")
}

/// The default of `server.port`.
pub fn default_port() -> (r: u16)
    ensures
        r == 8080,
{
    8080
}

/// The default of `oidc.redirect_uri`.
pub fn default_redirect_uri() -> (r: String)
    ensures
        r@ == "/auth/callback"@,
{
    String::from_str("/auth/callback")
}

/// The default of `oidc.scopes`.
pub fn default_scopes() -> (r: Vec<String>)
    ensures
        r.deep_view() == seq!["openid"@, "profile"@, "email"@],
{
    let mut r: Vec<String> = Vec::new();
    r.push(String::from_str("openid"));
    r.push(String::from_str("profile"));
    r.push(String::from_str("email"));
    assert(r.deep_view() =~= seq!["openid"@, "profile"@, "email"@]);
    r
}

/// The default of `server.external_base_url`.
pub fn default_external_base_url() -> (r: String)
    ensures
        r@ == "auto"@,
{
    String::from_str("auto")
}

/// The default of `data.path`.
pub fn default_data_path() -> (r: String)
    ensures
        r@ == "./data/data.json"@,
{
    String::from_str("./data/data.json")
}

/// The default of `oidc.id_token_signing_alg_values_supported`.
pub fn default_id_token_signing_alg_values_supported() -> (r: Vec<String>)
    ensures
        r.deep_view() == seq!["RS256"@],
{
    let mut r: Vec<String> = Vec::new();
    r.push(String::from_str("RS256"));
    assert(r.deep_view() =~= seq!["RS256"@]);
    r
}

impl Default for DataConfig {
    fn default() -> (r: Self)
        ensures
            r.path@ == "./data/data.json"@,
    {
        DataConfig { path: default_data_path() }
    }
}

/// Whether a value of `OIDC_ENABLED` switches OIDC off: `false`, in any case
/// of its letters, or `0`.
pub open spec fn disables_oidc(value: Seq<char>) -> bool {
    eq_ignore_ascii_case(value, "false"@) || value == "0"@
}

/// Whether a value of `OIDC_ENABLED` switches OIDC off.
pub fn oidc_disabled_by(value: &str) -> (r: bool)
    ensures
        r == disables_oidc(value@),
{
    equals_ignore_ascii_case(value, "false") || text_eq(value, "0")
}

/// Whether a character parts two scopes: a comma or white space.
pub open spec fn parts_scopes(c: char) -> bool {
    c == ',' || is_whitespace(c)
}

/// The scopes that a string lists, parted by commas or white space; an
/// empty stretch between two separators is no scope.
pub open spec fn scopes_of(s: Seq<char>) -> Seq<Seq<char>>
    decreases s.len(),
{
    if s.len() == 0 {
        Seq::empty()
    } else {
        let before = scopes_of(s.drop_last());
        if parts_scopes(s.last()) {
            before
        } else if s.len() >= 2 && !parts_scopes(s[s.len() - 2]) {
            before.drop_last().push(before.last().push(s.last()))
        } else {
            before.push(seq![s.last()])
        }
    }
}

/// The scopes that a string lists.
pub fn parse_scopes(s: &str) -> (r: Vec<String>)
    ensures
        r.deep_view() == scopes_of(s@),
{
    let v = chars_of(s);
    let mut r: Vec<String> = Vec::new();
    let mut i: usize = 0;
    let mut start: usize = 0;
    assert(r.deep_view() =~= scopes_of(v@.take(0)));
    while i < v.len()
        invariant
            i <= v.len(),
            start <= i,
            v@ == s@,
            // `start` is where the scope that is being read began
            forall|j: int| start <= j < i ==> !parts_scopes(v@[j]),
            start > 0 ==> parts_scopes(v@[start - 1]),
            start == i ==> r.deep_view() == scopes_of(v@.take(i as int)),
            start < i ==> r.deep_view().push(v@.subrange(start as int, i as int)) == scopes_of(
                v@.take(i as int),
            ),
        decreases v.len() - i,
    {
        let c = v[i];
        let ghost next = v@.take(i + 1);
        assert(next.drop_last() == v@.take(i as int));
        assert(next.last() == c);
        if c == ',' || CharSet::Whitespace.contains(c) {
            if start < i {
                let word = copy_range(v.as_slice(), start, i);
                let ghost before = r.deep_view();
                r.push(string_of(word.as_slice()));
                assert(r.deep_view() =~= before.push(v@.subrange(start as int, i as int)));
            }
            start = i + 1;
        } else {
            proof {
                let before = scopes_of(v@.take(i as int));
                if start < i {
                    assert(next[next.len() - 2] == v@[i - 1]);
                    assert(before.drop_last() =~= r.deep_view());
                    assert(v@.subrange(start as int, i + 1) =~= v@.subrange(
                        start as int,
                        i as int,
                    ).push(c));
                } else {
                    if i > 0 {
                        assert(next[next.len() - 2] == v@[i - 1]);
                    }
                    assert(v@.subrange(start as int, i + 1) =~= seq![c]);
                }
            }
        }
        i += 1;
    }
    assert(v@.take(v.len() as int) == v@);
    if start < i {
        let word = copy_range(v.as_slice(), start, i);
        let ghost before = r.deep_view();
        r.push(string_of(word.as_slice()));
        assert(r.deep_view() =~= before.push(v@.subrange(start as int, i as int)));
    }
    r
}

/// Whether an optional value is absent or holds nothing but white space.
pub open spec fn is_missing(value: Option<Seq<char>>) -> bool {
    match value {
        None => true,
        Some(s) => strip(s, CharSet::Whitespace).len() == 0,
    }
}

/// What an `OidcConfig` holds of endpoints, as plain values.
pub struct EndpointsView {
    pub well_known_url: Option<Seq<char>>,
    pub issuer_url: Option<Seq<char>>,
    pub authorization_endpoint: Option<Seq<char>>,
    pub token_endpoint: Option<Seq<char>>,
    pub userinfo_endpoint: Option<Seq<char>>,
    pub jwks_uri: Option<Seq<char>>,
}

impl OidcConfig {
    /// The endpoints of the section.
    pub open spec fn endpoints(&self) -> EndpointsView {
        EndpointsView {
            well_known_url: self.well_known_url.deep_view(),
            issuer_url: self.issuer_url.deep_view(),
            authorization_endpoint: self.authorization_endpoint.deep_view(),
            token_endpoint: self.token_endpoint.deep_view(),
            userinfo_endpoint: self.userinfo_endpoint.deep_view(),
            jwks_uri: self.jwks_uri.deep_view(),
        }
    }
}

/// The names of the endpoints that are missing, in the order in which the
/// configuration lists them.
pub open spec fn missing_endpoints(e: EndpointsView) -> Seq<Seq<char>> {
    (if is_missing(e.authorization_endpoint) {
        seq!["authorization_endpoint"@]
    } else {
        Seq::empty()
    }) + (if is_missing(e.token_endpoint) {
        seq!["token_endpoint"@]
    } else {
        Seq::empty()
    }) + (if is_missing(e.userinfo_endpoint) {
        seq!["userinfo_endpoint"@]
    } else {
        Seq::empty()
    }) + (if is_missing(e.jwks_uri) {
        seq!["jwks_uri"@]
    } else {
        Seq::empty()
    })
}

/// The names of `names`, with a comma and a space between each two.
pub open spec fn comma_separated(names: Seq<Seq<char>>) -> Seq<char>
    decreases names.len(),
{
    if names.len() == 0 {
        Seq::empty()
    } else if names.len() == 1 {
        names[0]
    } else {
        comma_separated(names.drop_last()) + ", "@ + names.last()
    }
}

/// The error that a section without discovery is refused with, if it is:
/// the issuer is missing, or, failing that, one of the four endpoints is.
pub open spec fn endpoints_error(e: EndpointsView) -> Option<ErrorView> {
    if e.well_known_url is Some {
        None
    } else if is_missing(e.issuer_url) {
        Some(ErrorView::InvalidConfig { message: "oidc.issuer_url is required"@ })
    } else if missing_endpoints(e).len() > 0 {
        Some(
            ErrorView::InvalidConfig {
                message:
                    "When well_known_url is not set, all of authorization_endpoint, token_endpoint, userinfo_endpoint and jwks_uri must be set; missing: "@
                        + comma_separated(missing_endpoints(e)),
            },
        )
    } else {
        None
    }
}

/// Whether an optional value is absent or holds nothing but white space.
pub fn missing(value: &Option<String>) -> (r: bool)
    ensures
        r == is_missing(value.deep_view()),
{
    match value {
        None => true,
        Some(s) => is_blank(s.as_str()),
    }
}

/// Appends `name` to the list `out`, after a comma and a space unless it is
/// the first.
fn push_name(out: &mut Vec<char>, count: &mut usize, name: &str, Ghost(names): Ghost<Seq<Seq<char>>>)
    requires
        old(out)@ == comma_separated(names),
        *old(count) == names.len(),
        *old(count) < 4,
        name@.len() > 0,
    ensures
        final(out)@ == comma_separated(names.push(name@)),
        *final(count) == *old(count) + 1,
{
    let ghost after = names.push(name@);
    assert(after.drop_last() == names);
    if *count > 0 {
        push_str(out, ", ");
    } else {
        assert(names =~= Seq::empty());
        assert(out@ + name@ =~= name@);
    }
    push_str(out, name);
    *count = *count + 1;
}

impl OidcConfig {
    /// Checks the section: without a discovery URL, the issuer and all four
    /// endpoints must be set.
    pub fn validate(&self) -> (r: Result<(), Error>)
        ensures
            match r {
                Ok(_) => endpoints_error(self.endpoints()) is None,
                Err(e) => endpoints_error(self.endpoints()) == Some(e@),
            },
    {
        if self.well_known_url.is_some() {
            return Ok(());
        }
        if missing(&self.issuer_url) {
            return Err(
                Error::InvalidConfig { message: String::from_str("oidc.issuer_url is required") },
            );
        }
        let mut list: Vec<char> = Vec::new();
        let mut count: usize = 0;
        let ghost mut names: Seq<Seq<char>> = Seq::empty();
        proof {
            reveal_strlit("authorization_endpoint");
            reveal_strlit("token_endpoint");
            reveal_strlit("userinfo_endpoint");
            reveal_strlit("jwks_uri");
        }
        if missing(&self.authorization_endpoint) {
            push_name(&mut list, &mut count, "authorization_endpoint", Ghost(names));
            proof {
                names = names.push("authorization_endpoint"@);
            }
        }
        if missing(&self.token_endpoint) {
            push_name(&mut list, &mut count, "token_endpoint", Ghost(names));
            proof {
                names = names.push("token_endpoint"@);
            }
        }
        if missing(&self.userinfo_endpoint) {
            push_name(&mut list, &mut count, "userinfo_endpoint", Ghost(names));
            proof {
                names = names.push("userinfo_endpoint"@);
            }
        }
        if missing(&self.jwks_uri) {
            push_name(&mut list, &mut count, "jwks_uri", Ghost(names));
            proof {
                names = names.push("jwks_uri"@);
            }
        }
        assert(names =~= missing_endpoints(self.endpoints()));
        if count > 0 {
            let mut message: Vec<char> = Vec::new();
            push_str(
                &mut message,
                "When well_known_url is not set, all of authorization_endpoint, token_endpoint, userinfo_endpoint and jwks_uri must be set; missing: ",
            );
            let n = list.len();
            crate::text::push_range(&mut message, list.as_slice(), 0, n);
            assert(list@.subrange(0, n as int) == list@);
            return Err(Error::InvalidConfig { message: string_of(message.as_slice()) });
        }
        Ok(())
    }
}

impl AppConfig {
    /// Checks the configuration: the `[oidc]` section, where there is one.
    pub fn validate(&self) -> (r: Result<(), Error>)
        ensures
            match r {
                Ok(_) => self.oidc is Some ==> endpoints_error(self.oidc->0.endpoints()) is None,
                Err(e) => self.oidc is Some && endpoints_error(self.oidc->0.endpoints()) == Some(
                    e@,
                ),
            },
    {
        match &self.oidc {
            Some(oidc) => oidc.validate(),
            None => Ok(()),
        }
    }

    /// The configuration once the environment's `OIDC_ENABLED` is applied:
    /// without the `[oidc]` section where the value switches OIDC off.
    pub fn apply_oidc_enabled(&mut self, value: Option<&str>)
        ensures
            final(self).server == old(self).server,
            final(self).data == old(self).data,
            final(self).oidc == (if value is Some && disables_oidc(value->0@) {
                None
            } else {
                old(self).oidc
            }),
    {
        match value {
            Some(v) => {
                if oidc_disabled_by(v) {
                    self.oidc = None;
                }
            },
            None => {},
        }
    }
}

} // verus!

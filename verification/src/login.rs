//! The login flow: the cookie of a session, the start of a login at the
//! provider, and its completion when the provider calls back.

use crate::claims_engine::check_claims;
use crate::claims_engine::display_name_of;
use crate::claims_engine::interpreted;
use crate::claims_engine::result_view;
use crate::claims_engine::ClaimsCheckResultView;
use crate::claims_engine::ScriptOutcomeView;
use crate::error::Error;
use crate::error::ErrorView;
use crate::headers::header_text;
use crate::headers::header_text_of;
use crate::headers::header_values;
use crate::oidc::OidcClient;
use crate::session::PendingOauth;
use crate::session::PendingOauthStore;
use crate::session::PendingOauthView;
use crate::session::SessionManager;
use crate::text::chars_of;
use crate::text::copy_range;
use crate::text::find_from;
use crate::text::first_index;
use crate::text::has_at;
use crate::text::join2;
use crate::text::join3;
use crate::text::leading;
use crate::text::string_of;
use crate::text::strip;
use crate::text::trailing;
use crate::text::CharSet;
use vstd::prelude::*;

verus! {

/// The name of the cookie that carries the session id.
pub const SESSION_COOKIE_NAME: &'static str = "securitydept_session";

/// The value of the cookie `name` in a `Cookie` header: the header is cut at
/// its semicolons, each part is freed of white space at its ends, and the
/// first part that starts with the name and `=` gives what follows them.
pub open spec fn cookie_value(cookies: Seq<char>, name: Seq<char>) -> Option<Seq<char>>
    decreases cookies.len(),
{
    let i = first_index(cookies, ';');
    let part = strip(cookies.take(i), CharSet::Whitespace);
    let prefix = name + "="@;
    if prefix.is_prefix_of(part) {
        Some(part.skip(prefix.len() as int))
    } else if 0 <= i < cookies.len() {
        cookie_value(cookies.skip(i + 1), name)
    } else {
        None
    }
}

/// The value of the cookie `name` in a `Cookie` header.
pub fn cookie(cookies: &str, name: &str) -> (r: Option<String>)
    ensures
        r.deep_view() == cookie_value(cookies@, name@),
{
    let v = chars_of(cookies);
    let prefix = chars_of(join2(name, "=").as_str());
    let mut start: usize = 0;
    assert(v@.skip(0) == v@);
    loop
        invariant
            start <= v.len(),
            v@ == cookies@,
            prefix@ == name@ + "="@,
            cookie_value(cookies@, name@) == cookie_value(v@.skip(start as int), name@),
        decreases v.len() - start,
    {
        let ghost rest = v@.skip(start as int);
        let end = find_from(v.as_slice(), start, ';');
        assert(rest.take(end - start) == v@.subrange(start as int, end as int));
        let part = copy_range(v.as_slice(), start, end);
        let from = leading(part.as_slice(), CharSet::Whitespace);
        let to = trailing(part.as_slice(), from, CharSet::Whitespace);
        let trimmed = copy_range(part.as_slice(), from, to);
        assert(trimmed@.skip(0) == trimmed@);
        if has_at(trimmed.as_slice(), 0, prefix.as_slice()) {
            let value = copy_range(trimmed.as_slice(), prefix.len(), trimmed.len());
            assert(trimmed@.subrange(prefix@.len() as int, trimmed@.len() as int) == trimmed@.skip(
                prefix@.len() as int,
            ));
            return Some(string_of(value.as_slice()));
        }
        if end >= v.len() {
            return None;
        }
        assert(rest.skip(end - start + 1) == v@.skip(end + 1));
        start = end + 1;
    }
}

/// The id of the session that the `Cookie` header of a request names.
pub open spec fn session_id_of(values: Map<Seq<char>, Seq<u8>>) -> Option<Seq<char>> {
    match header_text_of(values, "cookie"@) {
        Some(cookies) => cookie_value(cookies, SESSION_COOKIE_NAME@),
        None => None,
    }
}

/// The id of the session that the `Cookie` header of a request names.
pub fn get_session_id(headers: &http::HeaderMap<http::HeaderValue>) -> (r: Option<String>)
    ensures
        r.deep_view() == session_id_of(header_values(*headers)),
{
    match header_text(headers, "cookie") {
        Some(cookies) => cookie(cookies.as_str(), SESSION_COOKIE_NAME),
        None => None,
    }
}

/// The `Set-Cookie` value that gives a browser the session `session_id` for
/// a day.
pub fn session_cookie(session_id: &str) -> (r: String)
    ensures
        r@ == SESSION_COOKIE_NAME@ + "="@ + session_id@
            + "; Path=/; HttpOnly; SameSite=Lax; Max-Age=86400"@,
{
    let head = join3(SESSION_COOKIE_NAME, "=", session_id);
    join2(head.as_str(), "; Path=/; HttpOnly; SameSite=Lax; Max-Age=86400")
}

/// The `Set-Cookie` value that takes the session away from a browser.
pub fn clearing_cookie() -> (r: String)
    ensures
        r@ == SESSION_COOKIE_NAME@ + "=; Path=/; HttpOnly; Max-Age=0"@,
{
    join2(SESSION_COOKIE_NAME, "=; Path=/; HttpOnly; Max-Age=0")
}

/// Starts a login: builds the authorization URL and remembers, under the
/// state of the request, its nonce and code verifier. Where the URL cannot
/// be built, nothing is remembered.
pub fn begin_login(oidc: &OidcClient, pending: &mut PendingOauthStore, external_base_url: &str) -> (r:
    Result<String, Error>)
    ensures
        match r {
            Ok(url) => exists|state: Seq<char>, nonce: Seq<char>, verifier: Option<Seq<char>>|
                #[trigger] oidc.authorize_outcome(external_base_url@, state, nonce, verifier)
                    == Ok::<Seq<char>, ErrorView>(url@) && final(pending)@ == old(pending)@.insert(
                    state,
                    PendingOauthView { nonce, code_verifier: verifier },
                ),
            Err(e) => final(pending)@ == old(pending)@ && exists|
                state: Seq<char>,
                nonce: Seq<char>,
                verifier: Option<Seq<char>>,
            |
                #[trigger] oidc.authorize_outcome(external_base_url@, state, nonce, verifier)
                    == Err::<Seq<char>, ErrorView>(e@),
        },
{
    match oidc.authorize_url(external_base_url) {
        Ok(t) => {
            let (url, state, nonce, verifier) = t;
            let ghost s = state@;
            let ghost n = nonce@;
            let ghost v = verifier.deep_view();
            pending.insert(state, nonce, verifier);
            assert(oidc.authorize_outcome(external_base_url@, s, n, v) == Ok::<
                Seq<char>,
                ErrorView,
            >(url@));
            Ok(url)
        },
        Err(e) => Err(e),
    }
}

/// Takes what was remembered of the login that a callback belongs to. A
/// callback without a state, or with one that is unknown or was used
/// before, fails with `AuthFailed`.
pub fn take_pending(pending: &mut PendingOauthStore, state: Option<&str>) -> (r: Result<
    PendingOauth,
    Error,
>)
    ensures
        match r {
            Ok(p) => state is Some && old(pending)@.contains_key(state->0@) && p@ == old(
                pending,
            )@[state->0@] && final(pending)@ == old(pending)@.remove(state->0@),
            Err(e) => e@ == ErrorView::AuthFailed && final(pending)@ == old(pending)@ && (
            state is Some ==> !old(pending)@.contains_key(state->0@)),
        },
{
    match state {
        Some(s) => match pending.take(s) {
            Some(p) => Ok(p),
            None => {
                assert(pending@ =~= old(pending)@);
                Err(Error::AuthFailed)
            },
        },
        None => Err(Error::AuthFailed),
    }
}

/// The name under which the session of an admitted login is shown.
pub open spec fn session_name(result: ClaimsCheckResultView) -> Seq<char> {
    match result.display_name {
        Some(n) => n,
        None => "Unknown"@,
    }
}

/// The claims that are kept with the session of an admitted login: those
/// that the policy hands back or, where it hands back none, those of the
/// provider.
pub open spec fn session_claims(result: ClaimsCheckResultView, claims: Seq<char>) -> Seq<char> {
    match result.claims {
        Some(c) => c,
        None => claims,
    }
}

/// Whether `result` is a decision that admits the login with the claims
/// `claims`: the default decision where there is no script, and what some
/// outcome of the script is worth where there is one.
pub open spec fn admits(has_script: bool, claims: Seq<char>, result: ClaimsCheckResultView) -> bool {
    result.success && if !has_script {
        result == crate::claims_engine::default_result(claims)
    } else {
        exists|outcome: ScriptOutcomeView|
            #[trigger] interpreted(outcome) == Ok::<ClaimsCheckResultView, ErrorView>(result)
    }
}

/// Stores the session of a login that the policy admitted with `result`,
/// under a fresh id, and hands back the id.
pub fn open_session(
    sessions: &mut SessionManager,
    result: crate::claims_engine::ClaimsCheckResult,
    claims: &str,
) -> (id: String)
    ensures
        final(sessions)@.contains_key(id@),
        final(sessions)@[id@].session_id == id@,
        final(sessions)@[id@].display_name == session_name(result@),
        final(sessions)@[id@].picture == result@.picture,
        final(sessions)@[id@].claims == session_claims(result@, claims@),
        final(sessions)@.remove(id@) == old(sessions)@.remove(id@),
        final(sessions).ttl() == old(sessions).ttl(),
{
    let name = display_name_of(&result);
    let kept = match result.claims {
        Some(c) => c,
        None => String::from_str(claims),
    };
    sessions.create(name, result.picture, kept)
}

/// Completes a login with the claims that the provider gave, as JSON text:
/// the claims policy decides, and where it admits the login, a session is
/// stored for it. Hands back the id of the session. Where the policy turns
/// the login down, or cannot run, no session is stored.
pub fn complete_login(sessions: &mut SessionManager, script: Option<&str>, claims: &str) -> (r:
    Result<String, Error>)
    ensures
        match r {
            Ok(id) => final(sessions)@.contains_key(id@) && final(sessions)@[id@].session_id == id@
                && final(sessions)@.remove(id@) == old(sessions)@.remove(id@) && exists|
                result: ClaimsCheckResultView,
            |
                #[trigger] admits(script is Some, claims@, result) && final(sessions)@[id@].display_name == session_name(result) && final(sessions)@[id@].picture == result.picture && final(sessions)@[id@].claims == session_claims(
                    result,
                    claims@,
                ),
            Err(e) => final(sessions)@ == old(sessions)@ && script is Some && exists|
                outcome: ScriptOutcomeView,
            |
                #[trigger] interpreted(outcome) == Err::<ClaimsCheckResultView, ErrorView>(e@),
        },
        final(sessions).ttl() == old(sessions).ttl(),
{
    let checked = check_claims(script, claims);
    let ghost view = result_view(checked);
    let result = match checked {
        Ok(v) => v,
        Err(e) => {
            proof {
                let outcome = choose|outcome: ScriptOutcomeView|
                    view == #[trigger] interpreted(outcome);
                assert(interpreted(outcome) == Err::<ClaimsCheckResultView, ErrorView>(e@));
            }
            return Err(e);
        },
    };
    let ghost decided = result@;
    proof {
        if script is Some {
            let outcome = choose|outcome: ScriptOutcomeView|
                view == #[trigger] interpreted(outcome);
            assert(interpreted(outcome) == Ok::<ClaimsCheckResultView, ErrorView>(decided));
        }
        assert(admits(script is Some, claims@, decided));
    }
    Ok(open_session(sessions, result, claims))
}

/// Stores the session of a developer for a server that runs without OIDC,
/// and hands back its id.
pub fn dev_login(sessions: &mut SessionManager) -> (id: String)
    ensures
        final(sessions)@.contains_key(id@),
        final(sessions)@[id@].display_name == "dev"@,
        final(sessions)@[id@].claims == "{\"oidc_enabled\":false}"@,
        final(sessions)@.remove(id@) == old(sessions)@.remove(id@),
{
    sessions.create(String::from_str("dev"), None, String::from_str("{\"oidc_enabled\":false}"))
}

} // verus!

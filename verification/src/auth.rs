//! Passwords, tokens and the validation of forwarded requests.

use crate::error::Error;
use crate::error::ErrorView;
use crate::headers::header_text;
use crate::headers::header_text_of;
use crate::headers::header_values;
use crate::models::AuthEntry;
use crate::models::AuthEntryKind;
use crate::models::AuthEntryView;
use crate::store::entry_views;
use crate::store::members;
use crate::store::DataFileView;
use crate::store::Store;
use crate::text::chars_of;
use crate::text::copy_range;
use crate::text::find_from;
use crate::text::split_once;
use crate::text::string_of;
use crate::text::strip_prefix;
use argon2::PasswordHasher;
use argon2::PasswordVerifier;
use base64::Engine;
use rand::Rng;
use sha2::Digest;
use vstd::prelude::*;
use vstd::utf8::decode_utf8;
use vstd::utf8::encode_utf8;
use vstd::utf8::valid_utf8;

verus! {

/// The SHA-256 digest of a sequence of bytes.
pub uninterp spec fn sha256_digest(data: Seq<u8>) -> Seq<u8>;

/// The Base64 encoding of a sequence of bytes, in the standard alphabet and
/// with padding.
pub uninterp spec fn base64_standard(data: Seq<u8>) -> Seq<char>;

/// The bytes that a Base64 text in the standard alphabet stands for; none
/// where the text is no such encoding.
pub uninterp spec fn base64_decoded(text: Seq<char>) -> Option<Seq<u8>>;

/// The Argon2id hash of a password under a salt, as a PHC string, or the
/// text of the error that hashing fails with.
pub uninterp spec fn argon2_phc(password: Seq<char>, salt: Seq<char>) -> Result<
    Seq<char>,
    Seq<char>,
>;

/// Whether a password verifies against a PHC string, or the text of the
/// error with which the string is refused.
pub uninterp spec fn argon2_verdict(password: Seq<char>, phc: Seq<char>) -> Result<bool, Seq<char>>;

/// The character of a hexadecimal digit, in lower case.
pub open spec fn hex_digit(n: int) -> char {
    seq!['0', '1', '2', '3', '4', '5', '6', '7', '8', '9', 'a', 'b', 'c', 'd', 'e', 'f'][n]
}

/// The bytes in hexadecimal: two digits for each, the high one first, in
/// lower case.
pub open spec fn hex_lower(data: Seq<u8>) -> Seq<char>
    decreases data.len(),
{
    if data.len() == 0 {
        Seq::empty()
    } else {
        hex_lower(data.drop_last()).push(hex_digit(data.last() as int / 16)).push(
            hex_digit(data.last() as int % 16),
        )
    }
}

/// The hash under which a token is stored: the SHA-256 digest of its UTF-8
/// bytes, in lower-case hexadecimal.
pub open spec fn token_hash(token: Seq<char>) -> Seq<char> {
    hex_lower(sha256_digest(encode_utf8(token)))
}

/// Whether a token is the one that was stored under `stored`: the hash
/// of the token is the stored text, character for character.
pub open spec fn token_matches(token: Seq<char>, stored: Seq<char>) -> bool {
    token_hash(token) == stored
}

/// Random bytes from the operating system.
///
/// Trusted: fills a vector of `n` bytes through `rand::Rng::fill` on
/// `rand::rngs::OsRng`. Only the length is claimed. `fill` panics where the
/// operating system has no random bytes to give.
#[verifier::external_body]
pub(crate) fn random_bytes(n: usize) -> (r: Vec<u8>)
    ensures
        r@.len() == n,
{
    let mut bytes = vec![0u8; n];
    rand::rngs::OsRng.fill(bytes.as_mut_slice());
    bytes
}

/// The Base64 encoding of `data`.
///
/// Trusted: this is `Engine::encode` of `base64`'s `STANDARD` engine.
#[verifier::external_body]
pub(crate) fn base64_encode(data: &[u8]) -> (r: String)
    ensures
        r@ == base64_standard(data@),
{
    base64::engine::general_purpose::STANDARD.encode(data)
}

/// The bytes that the Base64 text `text` stands for.
///
/// Trusted: this is `Engine::decode` of `base64`'s `STANDARD` engine, with
/// its error dropped.
#[verifier::external_body]
pub(crate) fn base64_decode(text: &str) -> (r: Option<Vec<u8>>)
    ensures
        match r {
            Some(v) => base64_decoded(text@) == Some(v@),
            None => base64_decoded(text@) is None,
        },
{
    base64::engine::general_purpose::STANDARD.decode(text).ok()
}

/// The SHA-256 digest of `data`.
///
/// Trusted: this is `Digest::digest` of `sha2::Sha256`. A SHA-256 digest has
/// 32 bytes.
#[verifier::external_body]
pub(crate) fn sha256(data: &[u8]) -> (r: Vec<u8>)
    ensures
        r@ == sha256_digest(data@),
        r@.len() == 32,
{
    sha2::Sha256::digest(data).to_vec()
}

/// The bytes in lower-case hexadecimal.
///
/// Trusted: this is `hex::encode`, which writes each byte as two digits of
/// `0123456789abcdef`, the high four bits first.
#[verifier::external_body]
pub(crate) fn hex_encode(data: &[u8]) -> (r: String)
    ensures
        r@ == hex_lower(data@),
{
    hex::encode(data)
}

/// The text that UTF-8 bytes stand for.
///
/// Trusted: this is `String::from_utf8`, which succeeds exactly on valid
/// UTF-8 and then holds the characters that the bytes encode.
#[verifier::external_body]
pub(crate) fn utf8_string(bytes: Vec<u8>) -> (r: Option<String>)
    ensures
        valid_utf8(bytes@) ==> r is Some && r->0@ == decode_utf8(bytes@),
        !valid_utf8(bytes@) ==> r is None,
{
    String::from_utf8(bytes).ok()
}

/// A fresh random salt for Argon2.
///
/// Trusted: the text of `SaltString::generate` on `rand::rngs::OsRng`.
/// Nothing is claimed of the result.
#[verifier::external_body]
pub(crate) fn fresh_salt() -> String {
    argon2::password_hash::SaltString::generate(&mut rand::rngs::OsRng).as_str().to_string()
}

/// The Argon2id hash of `password` under `salt`, as a PHC string.
///
/// Trusted: `SaltString::from_b64` on the salt, then
/// `PasswordHasher::hash_password` of `Argon2::default()`, the hash written
/// out as text; an error of either is handed out as its text. Claimed beyond
/// the name: the password verifies against the string that comes out, since
/// `verify_password` hashes the password again with the parameters and the
/// salt that the string carries, and compares.
#[verifier::external_body]
pub(crate) fn argon2_hash(password: &str, salt: &str) -> (r: Result<String, String>)
    ensures
        match r {
            Ok(phc) => argon2_phc(password@, salt@) == Ok::<Seq<char>, Seq<char>>(phc@)
                && argon2_verdict(password@, phc@) == Ok::<bool, Seq<char>>(true),
            Err(m) => argon2_phc(password@, salt@) == Err::<Seq<char>, Seq<char>>(m@),
        },
{
    let salt = match argon2::password_hash::SaltString::from_b64(salt) {
        Ok(s) => s,
        Err(e) => return Err(e.to_string()),
    };
    match argon2::Argon2::default().hash_password(password.as_bytes(), &salt) {
        Ok(hash) => Ok(hash.to_string()),
        Err(e) => Err(e.to_string()),
    }
}

/// Whether `password` verifies against the PHC string `phc`.
///
/// Trusted: `PasswordHash::new` on the string, whose error is handed out as
/// its text, then whether `PasswordVerifier::verify_password` of
/// `Argon2::default()` accepts the password.
#[verifier::external_body]
pub(crate) fn argon2_verify(password: &str, phc: &str) -> (r: Result<bool, String>)
    ensures
        match r {
            Ok(b) => argon2_verdict(password@, phc@) == Ok::<bool, Seq<char>>(b),
            Err(m) => argon2_verdict(password@, phc@) == Err::<bool, Seq<char>>(m@),
        },
{
    match argon2::PasswordHash::new(phc) {
        Ok(parsed) => Ok(
            argon2::Argon2::default().verify_password(password.as_bytes(), &parsed).is_ok(),
        ),
        Err(e) => Err(e.to_string()),
    }
}

/// Hashes `password` under the salt `salt`.
pub fn hash_password_with_salt(password: &str, salt: &str) -> (r: Result<String, Error>)
    ensures
        match r {
            Ok(phc) => argon2_phc(password@, salt@) == Ok::<Seq<char>, Seq<char>>(phc@)
                && argon2_verdict(password@, phc@) == Ok::<bool, Seq<char>>(true),
            Err(e) => argon2_phc(password@, salt@) is Err && e@ == (ErrorView::PasswordHash {
                message: argon2_phc(password@, salt@)->Err_0,
            }),
        },
{
    match argon2_hash(password, salt) {
        Ok(phc) => Ok(phc),
        Err(message) => Err(Error::PasswordHash { message }),
    }
}

/// Hashes `password` with Argon2id under a fresh random salt. The password
/// verifies against the hash that comes out.
pub fn hash_password(password: &str) -> (r: Result<String, Error>)
    ensures
        match r {
            Ok(phc) => argon2_verdict(password@, phc@) == Ok::<bool, Seq<char>>(true)
                && exists|salt: Seq<char>|
                #[trigger] argon2_phc(password@, salt) == Ok::<Seq<char>, Seq<char>>(phc@),
            Err(e) => exists|salt: Seq<char>|
                (#[trigger] argon2_phc(password@, salt)) is Err && e@
                    == (ErrorView::PasswordHash { message: argon2_phc(password@, salt)->Err_0 }),
        },
{
    let salt = fresh_salt();
    let r = hash_password_with_salt(password, salt.as_str());
    proof {
        if r is Ok {
            assert(argon2_phc(password@, salt@) == Ok::<Seq<char>, Seq<char>>(r->Ok_0@));
        } else {
            assert(argon2_phc(password@, salt@) is Err);
        }
    }
    r
}

/// Whether `password` verifies against the PHC string `hash`; an error where
/// the string is no PHC string.
pub fn verify_password(password: &str, hash: &str) -> (r: Result<bool, Error>)
    ensures
        match r {
            Ok(b) => argon2_verdict(password@, hash@) == Ok::<bool, Seq<char>>(b),
            Err(e) => argon2_verdict(password@, hash@) is Err && e@ == (ErrorView::PasswordHash {
                message: argon2_verdict(password@, hash@)->Err_0,
            }),
        },
{
    match argon2_verify(password, hash) {
        Ok(b) => Ok(b),
        Err(message) => Err(Error::PasswordHash { message }),
    }
}

/// The hash under which `token` is stored.
pub fn hash_token(token: &str) -> (r: String)
    ensures
        r@ == token_hash(token@),
{
    let digest = sha256(token.as_bytes());
    hex_encode(digest.as_slice())
}

/// Whether `token` is the token that was stored as `stored_hash`.
pub fn verify_token(token: &str, stored_hash: &str) -> (r: bool)
    ensures
        r == token_matches(token@, stored_hash@),
{
    let h = hash_token(token);
    crate::text::text_eq(h.as_str(), stored_hash)
}

/// The token that the random bytes `bytes` give, and its stored hash.
pub fn token_from_bytes(bytes: &[u8]) -> (r: (String, String))
    ensures
        r.0@ == base64_standard(bytes@),
        r.1@ == token_hash(r.0@),
{
    let token = base64_encode(bytes);
    let hash = hash_token(token.as_str());
    (token, hash)
}

/// A new token of 32 random bytes, in Base64, and the hash to store.
pub fn generate_token() -> (r: (String, String))
    ensures
        exists|bytes: Seq<u8>| bytes.len() == 32 && r.0@ == #[trigger] base64_standard(bytes),
        r.1@ == token_hash(r.0@),
{
    let bytes = random_bytes(32);
    token_from_bytes(bytes.as_slice())
}

/// The username and password that decoded credentials hold: what stands
/// before and after the first colon of the text that the bytes encode.
pub open spec fn credentials_of(bytes: Seq<u8>) -> Option<(Seq<char>, Seq<char>)> {
    if valid_utf8(bytes) {
        split_once(decode_utf8(bytes), ':')
    } else {
        None
    }
}

/// The username and password of a Basic `Authorization` header.
pub open spec fn basic_credentials(header: Seq<char>) -> Option<(Seq<char>, Seq<char>)> {
    if "Basic "@.is_prefix_of(header) {
        match base64_decoded(header.skip("Basic "@.len() as int)) {
            Some(bytes) => credentials_of(bytes),
            None => None,
        }
    } else {
        None
    }
}

/// The token of a Bearer `Authorization` header.
pub open spec fn bearer_token(header: Seq<char>) -> Option<Seq<char>> {
    if "Bearer "@.is_prefix_of(header) {
        Some(header.skip("Bearer "@.len() as int))
    } else {
        None
    }
}

/// The username and password that decoded credentials hold.
pub fn credentials_from_bytes(bytes: Vec<u8>) -> (r: Option<(String, String)>)
    ensures
        r.deep_view() == credentials_of(bytes@),
{
    match utf8_string(bytes) {
        Some(text) => {
            let v = chars_of(text.as_str());
            assert(v@.skip(0) == v@);
            let i = find_from(v.as_slice(), 0, ':');
            if i < v.len() {
                let user = copy_range(v.as_slice(), 0, i);
                let pass = copy_range(v.as_slice(), i + 1, v.len());
                assert(v@.subrange(0, i as int) == v@.take(i as int));
                assert(v@.subrange(i + 1, v.len() as int) == v@.skip(i + 1));
                Some((string_of(user.as_slice()), string_of(pass.as_slice())))
            } else {
                None
            }
        },
        None => None,
    }
}

/// The username and password of a Basic `Authorization` header: the header
/// is `Basic `, then the Base64 of `user:password`.
pub fn parse_basic_auth_header(header_value: &str) -> (r: Option<(String, String)>)
    ensures
        r.deep_view() == basic_credentials(header_value@),
{
    match strip_prefix(header_value, "Basic ") {
        Some(encoded) => match base64_decode(encoded.as_str()) {
            Some(bytes) => credentials_from_bytes(bytes),
            None => None,
        },
        None => None,
    }
}

/// The token of a Bearer `Authorization` header: what follows `Bearer `.
pub fn parse_bearer_auth_header(header_value: &str) -> (r: Option<String>)
    ensures
        r.deep_view() == bearer_token(header_value@),
{
    strip_prefix(header_value, "Bearer ")
}

/// Whether a basic entry is the one that `username` names.
pub open spec fn names_user(e: AuthEntryView, username: Seq<char>) -> bool {
    e.kind == AuthEntryKind::Basic && e.username == Some(username) && e.password_hash is Some
}

/// The outcome of checking a username and password against entries, in
/// order: the name of the first basic entry with that username whose hash
/// the password verifies against; nothing where there is none; the text of
/// the error where, before such an entry, one with that username holds a
/// hash that is no PHC string.
pub open spec fn basic_match(
    entries: Seq<AuthEntryView>,
    username: Seq<char>,
    password: Seq<char>,
) -> Result<Option<Seq<char>>, Seq<char>>
    decreases entries.len(),
{
    if entries.len() == 0 {
        Ok(None)
    } else if names_user(entries[0], username) {
        match argon2_verdict(password, entries[0].password_hash->0) {
            Ok(true) => Ok(Some(entries[0].name)),
            Ok(false) => basic_match(entries.drop_first(), username, password),
            Err(m) => Err(m),
        }
    } else {
        basic_match(entries.drop_first(), username, password)
    }
}

/// Whether a token entry stores the hash `hash`.
pub open spec fn stores_hash(e: AuthEntryView, hash: Seq<char>) -> bool {
    e.kind == AuthEntryKind::Token && e.token_hash == Some(hash)
}

/// The name of the first token entry that stores the hash of `token`.
pub open spec fn token_match(entries: Seq<AuthEntryView>, token: Seq<char>) -> Option<Seq<char>>
    decreases entries.len(),
{
    if entries.len() == 0 {
        None
    } else if stores_hash(entries[0], token_hash(token)) {
        Some(entries[0].name)
    } else {
        token_match(entries.drop_first(), token)
    }
}

/// Checks a username and password against `entries`: the name of the first
/// basic entry that they match.
pub fn check_basic_auth(entries: &[AuthEntry], username: &str, password: &str) -> (r: Result<
    Option<String>,
    Error,
>)
    ensures
        match r {
            Ok(name) => basic_match(entry_views(entries@), username@, password@) == Ok::<
                Option<Seq<char>>,
                Seq<char>,
            >(name.deep_view()),
            Err(e) => basic_match(entry_views(entries@), username@, password@) is Err && e@
                == (ErrorView::PasswordHash {
                message: basic_match(entry_views(entries@), username@, password@)->Err_0,
            }),
        },
{
    let user = String::from_str(username);
    let ghost all = entry_views(entries@);
    let mut i: usize = 0;
    assert(all.skip(0) == all);
    while i < entries.len()
        invariant
            i <= entries.len(),
            all == entry_views(entries@),
            user@ == username@,
            basic_match(all, username@, password@) == basic_match(
                all.skip(i as int),
                username@,
                password@,
            ),
        decreases entries.len() - i,
    {
        let e = &entries[i];
        let ghost rest = all.skip(i as int);
        assert(rest[0] == e@);
        assert(rest.drop_first() == all.skip(i + 1));
        let named = match (&e.kind, &e.username, &e.password_hash) {
            (AuthEntryKind::Basic, Some(u), Some(_)) => *u == user,
            _ => false,
        };
        assert(named == names_user(e@, username@));
        if named {
            match &e.password_hash {
                Some(hash) => {
                    match verify_password(password, hash.as_str()) {
                        Ok(true) => {
                            return Ok(Some(e.name.clone()));
                        },
                        Ok(false) => {},
                        Err(err) => {
                            return Err(err);
                        },
                    }
                },
                None => {},
            }
        }
        i += 1;
    }
    Ok(None)
}

/// Checks a bearer token against `entries`: the name of the first token
/// entry that stores its hash.
pub fn check_token_auth(entries: &[AuthEntry], token: &str) -> (r: Option<String>)
    ensures
        r.deep_view() == token_match(entry_views(entries@), token@),
{
    let hash = hash_token(token);
    let ghost all = entry_views(entries@);
    let mut i: usize = 0;
    assert(all.skip(0) == all);
    while i < entries.len()
        invariant
            i <= entries.len(),
            all == entry_views(entries@),
            hash@ == token_hash(token@),
            token_match(all, token@) == token_match(all.skip(i as int), token@),
        decreases entries.len() - i,
    {
        let e = &entries[i];
        let ghost rest = all.skip(i as int);
        assert(rest[0] == e@);
        assert(rest.drop_first() == all.skip(i + 1));
        let stored = match (&e.kind, &e.token_hash) {
            (AuthEntryKind::Token, Some(h)) => *h == hash,
            _ => false,
        };
        assert(stored == stores_hash(e@, token_hash(token@)));
        if stored {
            return Some(e.name.clone());
        }
        i += 1;
    }
    None
}


/// Why a forwarded request is turned down.
#[derive(Debug, Clone, Copy, PartialEq, Eq, Structural)]
pub enum Denial {
    /// No group has the name.
    UnknownGroup,
    /// The group has no entries.
    EmptyGroup,
    /// The request carries no `Authorization` header that is text.
    MissingCredentials,
    /// The credentials match no entry of the group.
    NoMatch,
}

/// What the validator decides of a forwarded request, as plain values.
pub enum ForwardAuthView {
    Admitted(Seq<char>),
    Denied(Denial),
}

/// What the validator decides of a forwarded request.
#[derive(Debug, PartialEq, Eq)]
pub enum ForwardAuth {
    /// The request is admitted, under the name of the entry that matched.
    Admitted(String),
    /// The request is turned down.
    Denied(Denial),
}

impl View for ForwardAuth {
    type V = ForwardAuthView;

    open spec fn view(&self) -> ForwardAuthView {
        match self {
            ForwardAuth::Admitted(name) => ForwardAuthView::Admitted(name@),
            ForwardAuth::Denied(why) => ForwardAuthView::Denied(*why),
        }
    }
}

/// The name under which Basic credentials in `header` are admitted by
/// `entries`, if they are. An entry whose hash is no PHC string admits
/// nobody.
pub open spec fn basic_admission(entries: Seq<AuthEntryView>, header: Seq<char>) -> Option<
    Seq<char>,
> {
    match basic_credentials(header) {
        Some((user, password)) => match basic_match(entries, user, password) {
            Ok(Some(name)) => Some(name),
            _ => None,
        },
        None => None,
    }
}

/// The name under which a Bearer token in `header` is admitted by
/// `entries`, if it is.
pub open spec fn bearer_admission(entries: Seq<AuthEntryView>, header: Seq<char>) -> Option<
    Seq<char>,
> {
    match bearer_token(header) {
        Some(token) => token_match(entries, token),
        None => None,
    }
}

/// What an `Authorization` header is worth against `entries`: Basic
/// credentials are tried first, then a Bearer token; the first entry that
/// matches gives its name.
pub open spec fn credentials_outcome(entries: Seq<AuthEntryView>, header: Seq<char>) -> ForwardAuthView {
    match basic_admission(entries, header) {
        Some(name) => ForwardAuthView::Admitted(name),
        None => match bearer_admission(entries, header) {
            Some(name) => ForwardAuthView::Admitted(name),
            None => ForwardAuthView::Denied(Denial::NoMatch),
        },
    }
}

/// What the validator decides: the group must exist and have entries, the
/// request must carry credentials, and the credentials must match an entry
/// of the group.
pub open spec fn forward_auth(
    d: DataFileView,
    group_name: Seq<char>,
    authorization: Option<Seq<char>>,
) -> ForwardAuthView {
    match d.group_named(group_name) {
        None => ForwardAuthView::Denied(Denial::UnknownGroup),
        Some(g) => if members(d.entries, g.id).len() == 0 {
            ForwardAuthView::Denied(Denial::EmptyGroup)
        } else {
            match authorization {
                None => ForwardAuthView::Denied(Denial::MissingCredentials),
                Some(header) => credentials_outcome(members(d.entries, g.id), header),
            }
        },
    }
}

/// Checks an `Authorization` header against `entries`.
pub fn check_credentials(entries: &[AuthEntry], header: &str) -> (r: ForwardAuth)
    ensures
        r@ == credentials_outcome(entry_views(entries@), header@),
{
    match parse_basic_auth_header(header) {
        Some((user, password)) => {
            match check_basic_auth(entries, user.as_str(), password.as_str()) {
                Ok(Some(name)) => {
                    return ForwardAuth::Admitted(name);
                },
                _ => {},
            }
        },
        None => {},
    }
    match parse_bearer_auth_header(header) {
        Some(token) => {
            match check_token_auth(entries, token.as_str()) {
                Some(name) => ForwardAuth::Admitted(name),
                None => ForwardAuth::Denied(Denial::NoMatch),
            }
        },
        None => ForwardAuth::Denied(Denial::NoMatch),
    }
}

/// Decides whether a request for the group `group_name` that carries the
/// `Authorization` header `authorization` is admitted.
pub fn authorize(store: &Store, group_name: &str, authorization: Option<&str>) -> (r: ForwardAuth)
    ensures
        r@ == forward_auth(
            store@,
            group_name@,
            match authorization {
                Some(h) => Some(h@),
                None => None,
            },
        ),
{
    let group = match store.find_group_by_name(group_name) {
        Some(g) => g,
        None => {
            return ForwardAuth::Denied(Denial::UnknownGroup);
        },
    };
    let entries = store.entries_by_group_id(group.id.as_str());
    if entries.len() == 0 {
        return ForwardAuth::Denied(Denial::EmptyGroup);
    }
    match authorization {
        Some(header) => check_credentials(entries.as_slice(), header),
        None => ForwardAuth::Denied(Denial::MissingCredentials),
    }
}

/// Decides whether a request with the headers `headers` is admitted to the
/// group `group`.
pub fn check_forward_auth(
    store: &Store,
    group: &str,
    headers: &http::HeaderMap<http::HeaderValue>,
) -> (r: ForwardAuth)
    ensures
        r@ == forward_auth(
            store@,
            group@,
            header_text_of(header_values(*headers), "authorization"@),
        ),
{
    let header = header_text(headers, "authorization");
    match &header {
        Some(h) => authorize(store, group, Some(h.as_str())),
        None => authorize(store, group, None),
    }
}

impl ForwardAuth {
    /// The HTTP status of the answer: 200 where the request is admitted, 401
    /// where it is not.
    pub fn status_code(&self) -> (r: u16)
        ensures
            r == (if self@ is Admitted {
                200u16
            } else {
                401u16
            }),
    {
        match self {
            ForwardAuth::Admitted(_) => 200,
            ForwardAuth::Denied(_) => 401,
        }
    }
}

/// The `WWW-Authenticate` challenge that goes with every 401.
pub fn challenge() -> (r: String)
    ensures
        r@ == "Basic realm=\"securitydept\", Bearer realm=\"securitydept\""@,
{
    String::from_str("Basic realm=\"securitydept\", Bearer realm=\"securitydept\"")
}

/// A hexadecimal text has two characters for each byte.
pub proof fn lemma_hex_lower_len(data: Seq<u8>)
    ensures
        hex_lower(data).len() == 2 * data.len(),
    decreases data.len(),
{
    if data.len() > 0 {
        lemma_hex_lower_len(data.drop_last());
    }
}

/// Two digits with the same character are the same digit.
pub proof fn lemma_hex_digit_injective(a: int, b: int)
    requires
        0 <= a < 16,
        0 <= b < 16,
        hex_digit(a) == hex_digit(b),
    ensures
        a == b,
{
}

/// Bytes with the same hexadecimal text are the same bytes.
pub proof fn lemma_hex_lower_injective(a: Seq<u8>, b: Seq<u8>)
    requires
        hex_lower(a) == hex_lower(b),
    ensures
        a == b,
    decreases a.len(),
{
    lemma_hex_lower_len(a);
    lemma_hex_lower_len(b);
    if a.len() == 0 {
        assert(a =~= b);
    } else {
        let x = hex_lower(a.drop_last());
        let y = hex_lower(b.drop_last());
        let ha = hex_lower(a);
        let hb = hex_lower(b);
        assert(ha[ha.len() - 1] == hex_digit(a.last() as int % 16));
        assert(hb[hb.len() - 1] == hex_digit(b.last() as int % 16));
        assert(ha[ha.len() - 2] == hex_digit(a.last() as int / 16));
        assert(hb[hb.len() - 2] == hex_digit(b.last() as int / 16));
        lemma_hex_digit_injective(a.last() as int % 16, b.last() as int % 16);
        lemma_hex_digit_injective(a.last() as int / 16, b.last() as int / 16);
        assert(a.last() == b.last());
        assert(x =~= ha.take(ha.len() - 2));
        assert(y =~= hb.take(hb.len() - 2));
        lemma_hex_lower_injective(a.drop_last(), b.drop_last());
        assert(a =~= a.drop_last().push(a.last()));
        assert(b =~= b.drop_last().push(b.last()));
    }
}

/// A token verifies against its own hash and against no other text; and a
/// token whose digest differs from that of another does not verify against
/// the hash of the other.
pub proof fn law_token_round_trip(token: Seq<char>, other_hash: Seq<char>, other_token: Seq<char>)
    ensures
        token_matches(token, token_hash(token)),
        other_hash != token_hash(token) ==> !token_matches(token, other_hash),
        sha256_digest(encode_utf8(other_token)) != sha256_digest(encode_utf8(token))
            ==> !token_matches(other_token, token_hash(token)),
{
    if token_hash(other_token) == token_hash(token) {
        lemma_hex_lower_injective(
            sha256_digest(encode_utf8(other_token)),
            sha256_digest(encode_utf8(token)),
        );
    }
}

} // verus!

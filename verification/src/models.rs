//! Entities of the credential store and of the login flow.

use vstd::prelude::*;

verus! {

/// A point in time: whole seconds since the Unix epoch in UTC, and the
/// nanoseconds into that second.
#[derive(Debug, Clone, Copy, PartialEq, Eq, Structural)]
pub struct Timestamp {
    pub secs: i64,
    pub nanos: u32,
}

impl Timestamp {
    /// Whether `self` is strictly later than `other`.
    pub open spec fn later_than(self, other: Timestamp) -> bool {
        self.secs > other.secs || (self.secs == other.secs && self.nanos > other.nanos)
    }

    /// `self` moved by `seconds`, held at the ends of the range of seconds.
    pub open spec fn shifted(self, seconds: i64) -> Timestamp {
        let sum = self.secs + seconds;
        Timestamp {
            secs: if sum > i64::MAX {
                i64::MAX
            } else if sum < i64::MIN {
                i64::MIN
            } else {
                sum as i64
            },
            nanos: self.nanos,
        }
    }

    /// Whether `self` is strictly later than `other`.
    pub fn is_after(&self, other: &Timestamp) -> (r: bool)
        ensures
            r == self.later_than(*other),
    {
        self.secs > other.secs || (self.secs == other.secs && self.nanos > other.nanos)
    }

    /// `self` moved by `seconds`, saturating at the ends of the range.
    pub fn plus_seconds(&self, seconds: i64) -> (r: Timestamp)
        ensures
            r == self.shifted(seconds),
    {
        let secs: i64 = if seconds >= 0 {
            if self.secs > i64::MAX - seconds {
                i64::MAX
            } else {
                self.secs + seconds
            }
        } else {
            if self.secs < i64::MIN - seconds {
                i64::MIN
            } else {
                self.secs + seconds
            }
        };
        Timestamp { secs, nanos: self.nanos }
    }
}

/// The kind of a credential record.
#[derive(Debug, Clone, Copy, PartialEq, Eq, Structural)]
pub enum AuthEntryKind {
    Basic,
    Token,
}

/// What an `AuthEntry` holds, as plain values.
pub struct AuthEntryView {
    pub id: Seq<char>,
    pub name: Seq<char>,
    pub kind: AuthEntryKind,
    pub username: Option<Seq<char>>,
    pub password_hash: Option<Seq<char>>,
    pub token_hash: Option<Seq<char>>,
    pub group_ids: Seq<Seq<char>>,
    pub created_at: Timestamp,
    pub updated_at: Timestamp,
}

/// A credential record: a username with a password hash, or a token hash.
#[derive(Debug, PartialEq, Eq)]
pub struct AuthEntry {
    pub id: String,
    pub name: String,
    pub kind: AuthEntryKind,
    /// The username of a basic entry.
    pub username: Option<String>,
    /// The Argon2 hash of the password of a basic entry.
    pub password_hash: Option<String>,
    /// The SHA-256 digest of the token of a token entry, in lower-case hex.
    pub token_hash: Option<String>,
    /// The ids of the groups that this entry belongs to.
    pub group_ids: Vec<String>,
    pub created_at: Timestamp,
    pub updated_at: Timestamp,
}

impl View for AuthEntry {
    type V = AuthEntryView;

    open spec fn view(&self) -> AuthEntryView {
        AuthEntryView {
            id: self.id@,
            name: self.name@,
            kind: self.kind,
            username: self.username.deep_view(),
            password_hash: self.password_hash.deep_view(),
            token_hash: self.token_hash.deep_view(),
            group_ids: self.group_ids.deep_view(),
            created_at: self.created_at,
            updated_at: self.updated_at,
        }
    }
}

impl AuthEntryView {
    /// Whether the fields that are set are those of the entry's kind: a
    /// username and a password hash for a basic entry, a token hash for a
    /// token entry, and nothing else.
    pub open spec fn consistent(self) -> bool {
        match self.kind {
            AuthEntryKind::Basic => self.username is Some && self.password_hash is Some
                && self.token_hash is None,
            AuthEntryKind::Token => self.username is None && self.password_hash is None
                && self.token_hash is Some,
        }
    }

    /// Whether the entry belongs to the group `gid`.
    pub open spec fn in_group(self, gid: Seq<char>) -> bool {
        self.group_ids.contains(gid)
    }
}

/// A copy of an optional string.
pub fn clone_opt(o: &Option<String>) -> (r: Option<String>)
    ensures
        r.deep_view() == o.deep_view(),
{
    match o {
        Some(s) => Some(s.clone()),
        None => None,
    }
}

/// A copy of a list of strings.
pub fn clone_strings(v: &Vec<String>) -> (r: Vec<String>)
    ensures
        r.deep_view() == v.deep_view(),
{
    let mut r: Vec<String> = Vec::new();
    let mut i: usize = 0;
    while i < v.len()
        invariant
            i <= v.len(),
            r.len() == i,
            forall|j: int| 0 <= j < i ==> r@[j]@ == v@[j]@,
        decreases v.len() - i,
    {
        r.push(v[i].clone());
        i += 1;
    }
    assert(r.deep_view() =~= v.deep_view());
    r
}

impl Clone for AuthEntry {
    fn clone(&self) -> (r: Self)
        ensures
            r@ == self@,
    {
        AuthEntry {
            id: self.id.clone(),
            name: self.name.clone(),
            kind: self.kind,
            username: clone_opt(&self.username),
            password_hash: clone_opt(&self.password_hash),
            token_hash: clone_opt(&self.token_hash),
            group_ids: clone_strings(&self.group_ids),
            created_at: self.created_at,
            updated_at: self.updated_at,
        }
    }
}

/// What a `Group` holds, as plain values.
pub struct GroupView {
    pub id: Seq<char>,
    pub name: Seq<char>,
}

/// A named bucket of entries.
#[derive(Debug, PartialEq, Eq)]
pub struct Group {
    pub id: String,
    pub name: String,
}

impl View for Group {
    type V = GroupView;

    open spec fn view(&self) -> GroupView {
        GroupView { id: self.id@, name: self.name@ }
    }
}

impl Clone for Group {
    fn clone(&self) -> (r: Self)
        ensures
            r@ == self@,
    {
        Group { id: self.id.clone(), name: self.name.clone() }
    }
}


/// The current time.
///
/// Trusted: reads the clock through `chrono::Utc::now` and hands out the
/// seconds and nanoseconds that `DateTime::timestamp` and
/// `DateTime::timestamp_subsec_nanos` give. Nothing is claimed of the result.
#[verifier::external_body]
pub(crate) fn now() -> Timestamp {
    let t = chrono::Utc::now();
    Timestamp { secs: t.timestamp(), nanos: t.timestamp_subsec_nanos() }
}

/// A fresh identifier.
///
/// Trusted: the hyphenated text of `uuid::Uuid::new_v4`, a random UUID.
/// Nothing is claimed of the result.
#[verifier::external_body]
pub(crate) fn fresh_id() -> String {
    uuid::Uuid::new_v4().to_string()
}

impl AuthEntry {
    /// The basic entry with the given id, made at `now`.
    pub fn basic(
        id: String,
        now: Timestamp,
        name: String,
        username: String,
        password_hash: String,
        group_ids: Vec<String>,
    ) -> (r: AuthEntry)
        ensures
            r@ == (AuthEntryView {
                id: id@,
                name: name@,
                kind: AuthEntryKind::Basic,
                username: Some(username@),
                password_hash: Some(password_hash@),
                token_hash: None,
                group_ids: group_ids.deep_view(),
                created_at: now,
                updated_at: now,
            }),
            r@.consistent(),
    {
        AuthEntry {
            id,
            name,
            kind: AuthEntryKind::Basic,
            username: Some(username),
            password_hash: Some(password_hash),
            token_hash: None,
            group_ids,
            created_at: now,
            updated_at: now,
        }
    }

    /// The token entry with the given id, made at `now`.
    pub fn token(
        id: String,
        now: Timestamp,
        name: String,
        token_hash: String,
        group_ids: Vec<String>,
    ) -> (r: AuthEntry)
        ensures
            r@ == (AuthEntryView {
                id: id@,
                name: name@,
                kind: AuthEntryKind::Token,
                username: None,
                password_hash: None,
                token_hash: Some(token_hash@),
                group_ids: group_ids.deep_view(),
                created_at: now,
                updated_at: now,
            }),
            r@.consistent(),
    {
        AuthEntry {
            id,
            name,
            kind: AuthEntryKind::Token,
            username: None,
            password_hash: None,
            token_hash: Some(token_hash),
            group_ids,
            created_at: now,
            updated_at: now,
        }
    }

    /// A new basic entry under a fresh id, made now.
    pub fn new_basic(
        name: String,
        username: String,
        password_hash: String,
        group_ids: Vec<String>,
    ) -> (r: AuthEntry)
        ensures
            r@.name == name@,
            r@.kind == AuthEntryKind::Basic,
            r@.username == Some(username@),
            r@.password_hash == Some(password_hash@),
            r@.token_hash is None,
            r@.group_ids == group_ids.deep_view(),
            r@.created_at == r@.updated_at,
            r@.consistent(),
    {
        let id = fresh_id();
        let at = now();
        AuthEntry::basic(id, at, name, username, password_hash, group_ids)
    }

    /// A new token entry under a fresh id, made now.
    pub fn new_token(name: String, token_hash: String, group_ids: Vec<String>) -> (r: AuthEntry)
        ensures
            r@.name == name@,
            r@.kind == AuthEntryKind::Token,
            r@.username is None,
            r@.password_hash is None,
            r@.token_hash == Some(token_hash@),
            r@.group_ids == group_ids.deep_view(),
            r@.created_at == r@.updated_at,
            r@.consistent(),
    {
        let id = fresh_id();
        let at = now();
        AuthEntry::token(id, at, name, token_hash, group_ids)
    }
}

impl Group {
    /// The group with the given id and name.
    pub fn with_id(id: String, name: String) -> (r: Group)
        ensures
            r@ == (GroupView { id: id@, name: name@ }),
    {
        Group { id, name }
    }

    /// A new group under a fresh id.
    pub fn new(name: String) -> (r: Group)
        ensures
            r@.name == name@,
    {
        Group::with_id(fresh_id(), name)
    }
}

} // verus!

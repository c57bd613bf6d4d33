//! What the administration interface asks of the store: the requests, and
//! what each one does.

use crate::auth::argon2_verdict;
use crate::auth::generate_token;
use crate::auth::hash_password;
use crate::auth::token_hash;
use crate::error::Error;
use crate::models::AuthEntry;
use crate::models::AuthEntryKind;
use crate::models::Group;
use crate::models::GroupView;
use crate::session::Session;
use crate::store::deduplicated;
use crate::store::entry_ids;
use crate::store::Store;
use crate::text::first_index;
use vstd::prelude::*;

verus! {

/// The request to create a basic entry.
#[derive(Debug, PartialEq, Eq)]
pub struct CreateBasicEntryRequest {
    pub name: String,
    pub username: String,
    pub password: String,
    pub group_ids: Vec<String>,
}

/// The request to create a token entry.
#[derive(Debug, PartialEq, Eq)]
pub struct CreateTokenEntryRequest {
    pub name: String,
    pub group_ids: Vec<String>,
}

/// The answer to the creation of a token entry: the entry, and the token in
/// plain text, which is shown this once and stored nowhere.
#[derive(Debug, PartialEq, Eq)]
pub struct CreateTokenEntryResponse {
    pub entry: AuthEntry,
    pub token: String,
}

/// The request to update an entry: each field that is given replaces the
/// old one.
#[derive(Debug, PartialEq, Eq)]
pub struct UpdateEntryRequest {
    pub name: Option<String>,
    pub username: Option<String>,
    pub password: Option<String>,
    pub group_ids: Option<Vec<String>>,
}

/// The request to create a group, with or without members.
#[derive(Debug, PartialEq, Eq)]
pub struct CreateGroupRequest {
    pub name: String,
    pub entry_ids: Option<Vec<String>>,
}

/// The request to update a group: a new name and, where given, a new list
/// of members.
#[derive(Debug, PartialEq, Eq)]
pub struct UpdateGroupRequest {
    pub name: String,
    pub entry_ids: Option<Vec<String>>,
}

/// What a logged-in user is told of the session.
#[derive(Debug, PartialEq, Eq)]
pub struct UserInfo {
    pub display_name: String,
    pub picture: Option<String>,
    /// The claims, as JSON text.
    pub claims: String,
}

/// Creates a basic entry: hashes the password and stores the entry under a
/// fresh id. The password verifies against the hash that is stored.
pub fn create_basic(store: &mut Store, req: CreateBasicEntryRequest) -> (r: Result<AuthEntry, Error>)
    ensures
        match r {
            Ok(e) => old(store)@.new_entry_error(req.name@, req.group_ids.deep_view()) is None
                && e@.name == req.name@ && e@.kind == AuthEntryKind::Basic && e@.username == Some(
                req.username@,
            ) && e@.password_hash is Some && argon2_verdict(req.password@, e@.password_hash->0)
                == Ok::<bool, Seq<char>>(true) && e@.token_hash is None && e@.group_ids
                == deduplicated(req.group_ids.deep_view()) && final(store)@ == old(store)@.with_entry(e@),
            Err(err) => final(store)@ == old(store)@ && (err@ is PasswordHash || old(store)@.new_entry_error(req.name@, req.group_ids.deep_view()) == Some(err@)),
        },
        old(store)@.wf() ==> final(store)@.wf(),
{
    let password_hash = hash_password(req.password.as_str())?;
    let entry = AuthEntry::new_basic(req.name, req.username, password_hash, req.group_ids);
    store.create_entry(entry)
}

/// Creates a token entry: draws a token, stores the entry with the token's
/// hash under a fresh id, and hands back the entry and the token.
pub fn create_token(store: &mut Store, req: CreateTokenEntryRequest) -> (r: Result<
    CreateTokenEntryResponse,
    Error,
>)
    ensures
        match r {
            Ok(created) => old(store)@.new_entry_error(req.name@, req.group_ids.deep_view()) is None
                && created.entry@.name == req.name@ && created.entry@.kind == AuthEntryKind::Token
                && created.entry@.token_hash == Some(token_hash(created.token@))
                && created.entry@.username is None && created.entry@.password_hash is None
                && created.entry@.group_ids == deduplicated(req.group_ids.deep_view()) && final(store)@ == old(store)@.with_entry(created.entry@),
            Err(err) => final(store)@ == old(store)@ && old(store)@.new_entry_error(
                req.name@,
                req.group_ids.deep_view(),
            ) == Some(err@),
        },
        old(store)@.wf() ==> final(store)@.wf(),
{
    let (token, hash) = generate_token();
    let entry = AuthEntry::new_token(req.name, hash, req.group_ids);
    match store.create_entry(entry) {
        Ok(stored) => Ok(CreateTokenEntryResponse { entry: stored, token }),
        Err(e) => Err(e),
    }
}

/// Updates the entry `id`: hashes the new password, where one is given, and
/// replaces each field that is given.
pub fn update(store: &mut Store, id: &str, req: UpdateEntryRequest) -> (r: Result<AuthEntry, Error>)
    ensures
        match r {
            Ok(e) => {
                let p = first_index(entry_ids(old(store)@.entries), id@);
                &&& old(store)@.update_entry_error(
                    id@,
                    req.name.deep_view(),
                    req.group_ids.deep_view(),
                ) is None
                &&& e@ == old(store)@.entries[p].updated(
                    req.name.deep_view(),
                    req.username.deep_view(),
                    e@.password_hash,
                    req.group_ids.deep_view(),
                    e@.updated_at,
                )
                &&& req.password matches Some(pw) ==> e@.password_hash is Some && argon2_verdict(
                    pw@,
                    e@.password_hash->0,
                ) == Ok::<bool, Seq<char>>(true)
                &&& req.password is None ==> e@.password_hash == old(store)@.entries[p].password_hash
                &&& final(store)@ == old(store)@.with_entry_at(p, e@)
            },
            Err(err) => final(store)@ == old(store)@ && (err@ is PasswordHash || old(store)@.update_entry_error(id@, req.name.deep_view(), req.group_ids.deep_view()) == Some(
                err@,
            )),
        },
        old(store)@.wf() ==> final(store)@.wf(),
{
    let password_hash = match &req.password {
        Some(pw) => Some(hash_password(pw.as_str())?),
        None => None,
    };
    store.update_entry(id, req.name, req.username, password_hash, req.group_ids)
}

/// Creates a group under a fresh id, with the members that the request
/// names.
pub fn create_group(store: &mut Store, req: CreateGroupRequest) -> (r: Result<Group, Error>)
    ensures
        match r {
            Ok(g) => g@.name == req.name@ && old(store)@.create_group_error(
                g@,
                req.entry_ids.deep_view(),
            ) is None && exists|now: crate::models::Timestamp|
                final(store)@ == old(store)@.with_group(g@, req.entry_ids.deep_view(), now),
            Err(err) => final(store)@ == old(store)@ && old(store)@.new_group_error(
                req.name@,
                req.entry_ids.deep_view(),
            ) == Some(err@),
        },
        old(store)@.wf() ==> final(store)@.wf(),
{
    let group = Group::new(req.name);
    store.create_group(group, req.entry_ids)
}

/// Updates the group `id` as the request says.
pub fn update_group(store: &mut Store, id: &str, req: UpdateGroupRequest) -> (r: Result<
    Group,
    Error,
>)
    ensures
        match r {
            Ok(g) => old(store)@.update_group_error(id@, req.name@, req.entry_ids.deep_view()) is None
                && g@ == (GroupView { id: id@, name: req.name@ }) && exists|
                now: crate::models::Timestamp,
            |
                final(store)@ == old(store)@.with_group_updated(
                    id@,
                    req.name@,
                    req.entry_ids.deep_view(),
                    now,
                ),
            Err(err) => old(store)@.update_group_error(id@, req.name@, req.entry_ids.deep_view())
                == Some(err@) && final(store)@ == old(store)@,
        },
        old(store)@.wf() ==> final(store)@.wf(),
{
    store.update_group(id, req.name, req.entry_ids)
}

/// What a logged-in user is told of the session.
pub fn user_info(session: Session) -> (r: UserInfo)
    ensures
        r.display_name@ == session@.display_name,
        r.picture.deep_view() == session@.picture,
        r.claims@ == session@.claims,
{
    UserInfo {
        display_name: session.display_name,
        picture: session.picture,
        claims: session.claims,
    }
}

} // verus!

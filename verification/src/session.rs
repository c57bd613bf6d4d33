//! Sessions of logged-in users, each valid until it expires.

use crate::models::clone_opt;
use crate::models::fresh_id;
use crate::models::now;
use crate::models::Timestamp;
use crate::table::Table;
use vstd::prelude::*;

verus! {

/// What a `Session` holds, as plain values.
pub struct SessionView {
    pub session_id: Seq<char>,
    pub display_name: Seq<char>,
    pub picture: Option<Seq<char>>,
    pub claims: Seq<char>,
    pub expires_at: Timestamp,
}

/// The session of a user who logged in.
#[derive(Debug, PartialEq, Eq)]
pub struct Session {
    pub session_id: String,
    pub display_name: String,
    pub picture: Option<String>,
    /// The claims that the identity provider gave, as JSON text.
    pub claims: String,
    pub expires_at: Timestamp,
}

impl View for Session {
    type V = SessionView;

    open spec fn view(&self) -> SessionView {
        SessionView {
            session_id: self.session_id@,
            display_name: self.display_name@,
            picture: self.picture.deep_view(),
            claims: self.claims@,
            expires_at: self.expires_at,
        }
    }
}

impl Clone for Session {
    fn clone(&self) -> (r: Self)
        ensures
            r@ == self@,
    {
        Session {
            session_id: self.session_id.clone(),
            display_name: self.display_name.clone(),
            picture: clone_opt(&self.picture),
            claims: self.claims.clone(),
            expires_at: self.expires_at,
        }
    }
}

/// The sessions that are valid at `now`: those that expire later.
pub open spec fn live_at(sessions: Map<Seq<char>, SessionView>, now: Timestamp) -> Map<
    Seq<char>,
    SessionView,
> {
    Map::new(
        |id: Seq<char>| sessions.contains_key(id) && sessions[id].expires_at.later_than(now),
        |id: Seq<char>| sessions[id],
    )
}

/// The sessions in memory, by id, and how long a new one lives.
pub struct SessionManager {
    sessions: Table<Session>,
    ttl_seconds: i64,
}

impl SessionManager {
    /// The sessions that the manager holds, expired or not, by id.
    pub closed spec fn view(&self) -> Map<Seq<char>, SessionView> {
        Map::new(
            |id: Seq<char>| self.sessions@.contains_key(id),
            |id: Seq<char>| self.sessions@[id]@,
        )
    }

    /// The seconds that a session lives.
    pub closed spec fn ttl(&self) -> i64 {
        self.ttl_seconds
    }

    /// A manager without sessions.
    pub fn new(ttl_seconds: i64) -> (r: Self)
        ensures
            r@ == Map::<Seq<char>, SessionView>::empty(),
            r.ttl() == ttl_seconds,
    {
        let r = SessionManager { sessions: Table::new(), ttl_seconds };
        assert(r@ =~= Map::<Seq<char>, SessionView>::empty());
        r
    }

    /// Stores a session under the id `session_id`, made at `now`: it expires
    /// when the manager's time to live has passed.
    pub fn create_at(
        &mut self,
        session_id: String,
        now: Timestamp,
        display_name: String,
        picture: Option<String>,
        claims: String,
    )
        ensures
            final(self)@ == old(self)@.insert(
                session_id@,
                SessionView {
                    session_id: session_id@,
                    display_name: display_name@,
                    picture: picture.deep_view(),
                    claims: claims@,
                    expires_at: now.shifted(old(self).ttl()),
                },
            ),
            final(self).ttl() == old(self).ttl(),
    {
        let session = Session {
            session_id: session_id.clone(),
            display_name,
            picture,
            claims,
            expires_at: now.plus_seconds(self.ttl_seconds),
        };
        let ghost v = session@;
        self.sessions.insert(session_id, session);
        assert(self@ =~= old(self)@.insert(session_id@, v));
    }

    /// Stores a new session under a fresh id, made now, and hands back the id.
    pub fn create(&mut self, display_name: String, picture: Option<String>, claims: String) -> (id:
        String)
        ensures
            final(self)@.contains_key(id@),
            final(self)@[id@].session_id == id@,
            final(self)@[id@].display_name == display_name@,
            final(self)@[id@].picture == picture.deep_view(),
            final(self)@[id@].claims == claims@,
            exists|now: Timestamp|
                final(self)@[id@].expires_at == #[trigger] now.shifted(old(self).ttl()),
            final(self)@.remove(id@) == old(self)@.remove(id@),
            final(self).ttl() == old(self).ttl(),
    {
        let id = fresh_id();
        let at = now();
        let ret = id.clone();
        self.create_at(id, at, display_name, picture, claims);
        assert(self@.remove(ret@) =~= old(self)@.remove(ret@));
        assert(self@[ret@].expires_at == at.shifted(old(self).ttl()));
        ret
    }

    /// The session `session_id`, if there is one that is valid at `now`.
    pub fn get_at(&self, session_id: &str, now: Timestamp) -> (r: Option<Session>)
        ensures
            match r {
                Some(s) => live_at(self@, now).contains_key(session_id@) && s@ == self@[session_id@],
                None => !live_at(self@, now).contains_key(session_id@),
            },
    {
        match self.sessions.get(session_id) {
            Some(s) => {
                if s.expires_at.is_after(&now) {
                    Some(s.clone())
                } else {
                    None
                }
            },
            None => None,
        }
    }

    /// The session `session_id`, if there is one that is valid now.
    pub fn get(&self, session_id: &str) -> (r: Option<Session>)
        ensures
            r matches Some(s) ==> self@.contains_key(session_id@) && s@ == self@[session_id@],
            exists|now: Timestamp|
                (r is Some) == #[trigger] live_at(self@, now).contains_key(session_id@),
    {
        let at = now();
        let r = self.get_at(session_id, at);
        assert((r is Some) == live_at(self@, at).contains_key(session_id@));
        r
    }

    /// Forgets the session `session_id`, valid or not.
    pub fn remove(&mut self, session_id: &str)
        ensures
            final(self)@ == old(self)@.remove(session_id@),
            final(self).ttl() == old(self).ttl(),
    {
        let _ = self.sessions.remove(session_id);
        assert(self@ =~= old(self)@.remove(session_id@));
    }

    /// Forgets every session that is not valid at `now`.
    pub fn cleanup_at(&mut self, now: Timestamp)
        ensures
            final(self)@ == live_at(old(self)@, now),
            final(self).ttl() == old(self).ttl(),
    {
        let keys = self.sessions.keys();
        let mut i: usize = 0;
        while i < keys.len()
            invariant
                i <= keys.len(),
                self.ttl() == old(self).ttl(),
                forall|k: Seq<char>| #[trigger]
                    keys.deep_view().contains(k) <==> old(self)@.contains_key(k),
                forall|k: Seq<char>| #[trigger]
                    self@.contains_key(k) ==> old(self)@.contains_key(k) && self@[k] == old(
                        self,
                    )@[k],
                forall|k: Seq<char>|
                    old(self)@.contains_key(k) && (#[trigger] old(self)@[k]).expires_at.later_than(
                        now,
                    ) ==> self@.contains_key(k),
                forall|j: int|
                    0 <= j < i && self@.contains_key(#[trigger] keys.deep_view()[j])
                        ==> self@[keys.deep_view()[j]].expires_at.later_than(now),
            decreases keys.len() - i,
        {
            let ghost before = self@;
            let expired = match self.sessions.get(keys[i].as_str()) {
                Some(s) => !s.expires_at.is_after(&now),
                None => false,
            };
            if expired {
                let _ = self.sessions.remove(keys[i].as_str());
                assert(self@ =~= before.remove(keys@[i as int]@));
            }
            i += 1;
        }
        proof {
            assert forall|k: Seq<char>| #[trigger]
                self@.contains_key(k) implies old(self)@[k].expires_at.later_than(now) by {
                assert(keys.deep_view().contains(k));
                let j = choose|j: int| 0 <= j < keys.len() && keys.deep_view()[j] == k;
                assert(self@.contains_key(keys.deep_view()[j]));
            }
            assert(self@ =~= live_at(old(self)@, now));
        }
    }

    /// Forgets every session that has expired by now.
    pub fn cleanup(&mut self)
        ensures
            exists|now: Timestamp| final(self)@ == #[trigger] live_at(old(self)@, now),
            final(self).ttl() == old(self).ttl(),
    {
        let at = now();
        self.cleanup_at(at);
        assert(self@ == live_at(old(self)@, at));
    }
}

/// What a `PendingOauth` holds, as plain values.
pub struct PendingOauthView {
    pub nonce: Seq<char>,
    pub code_verifier: Option<Seq<char>>,
}

/// What a login in progress must remember until the provider calls back.
#[derive(Debug, PartialEq, Eq)]
pub struct PendingOauth {
    pub nonce: String,
    /// The PKCE code verifier, where PKCE is in use.
    pub code_verifier: Option<String>,
}

impl View for PendingOauth {
    type V = PendingOauthView;

    open spec fn view(&self) -> PendingOauthView {
        PendingOauthView { nonce: self.nonce@, code_verifier: self.code_verifier.deep_view() }
    }
}

impl Clone for PendingOauth {
    fn clone(&self) -> (r: Self)
        ensures
            r@ == self@,
    {
        PendingOauth { nonce: self.nonce.clone(), code_verifier: clone_opt(&self.code_verifier) }
    }
}

/// The logins in progress, by their `state` token. Each can be taken once.
pub struct PendingOauthStore {
    inner: Table<PendingOauth>,
}

impl PendingOauthStore {
    /// The logins in progress, by state.
    pub closed spec fn view(&self) -> Map<Seq<char>, PendingOauthView> {
        Map::new(|s: Seq<char>| self.inner@.contains_key(s), |s: Seq<char>| self.inner@[s]@)
    }

    /// A store without logins in progress.
    pub fn new() -> (r: Self)
        ensures
            r@ == Map::<Seq<char>, PendingOauthView>::empty(),
    {
        let r = PendingOauthStore { inner: Table::new() };
        assert(r@ =~= Map::<Seq<char>, PendingOauthView>::empty());
        r
    }

    /// Remembers the nonce and the code verifier of the login `state`.
    pub fn insert(&mut self, state: String, nonce: String, code_verifier: Option<String>)
        ensures
            final(self)@ == old(self)@.insert(
                state@,
                PendingOauthView { nonce: nonce@, code_verifier: code_verifier.deep_view() },
            ),
    {
        let pending = PendingOauth { nonce, code_verifier };
        let ghost v = pending@;
        self.inner.insert(state, pending);
        assert(self@ =~= old(self)@.insert(state@, v));
    }

    /// Hands out what was remembered of the login `state`, and forgets it:
    /// a second call with the same state finds nothing.
    pub fn take(&mut self, state: &str) -> (r: Option<PendingOauth>)
        ensures
            match r {
                Some(p) => old(self)@.contains_key(state@) && old(self)@[state@] == p@,
                None => !old(self)@.contains_key(state@),
            },
            final(self)@ == old(self)@.remove(state@),
            !final(self)@.contains_key(state@),
    {
        let r = self.inner.remove(state);
        assert(self@ =~= old(self)@.remove(state@));
        r
    }
}

/// A state that was inserted is handed out by the next `take` of it, with
/// what was inserted, and by no `take` after that: the state is single-use.
pub proof fn law_state_is_single_use(
    table: Map<Seq<char>, PendingOauthView>,
    state: Seq<char>,
    pending: PendingOauthView,
)
    ensures
        table.insert(state, pending).contains_key(state),
        table.insert(state, pending)[state] == pending,
        !table.insert(state, pending).remove(state).contains_key(state),
        table.insert(state, pending).remove(state) == table.remove(state),
{
    assert(table.insert(state, pending).remove(state) =~= table.remove(state));
}

} // verus!

//! The two process-wide lookup tables of the session layer, backed by
//! hash maps of the `hashbrown` crate and seen by the proofs through
//! their mathematical contents.
//!
//! [`SessionStore`] binds an open, authenticated connection id to a
//! username; [`IdentityStore`] keeps the single-use reattachment tokens,
//! keyed by username.  Each operation below is a thin call into
//! `hashbrown` with a contract over the map contents.

use vstd::prelude::*;
use crate::text::str_eq;

verus! {

/// Connection-id → username bindings of the authenticated sessions.
#[verifier::external_body]
pub struct SessionStore {
    map: hashbrown::HashMap<i32, String>,
}

/// What a session store holds: the map from connection id to username.
pub uninterp spec fn sessions_of(s: SessionStore) -> Map<int, Seq<char>>;

impl SessionStore {
    /// Relies on `hashbrown::HashMap::new`: an empty map.
    #[verifier::external_body]
    pub fn new() -> (r: SessionStore)
        ensures
            sessions_of(r) =~= Map::empty(),
    {
        SessionStore { map: hashbrown::HashMap::new() }
    }

    /// Relies on `hashbrown::HashMap::insert`: binds `id` to `username`,
    /// replacing any earlier binding of `id`.
    #[verifier::external_body]
    pub fn insert(&mut self, id: i32, username: String)
        ensures
            sessions_of(*final(self)) == sessions_of(*old(self)).insert(id as int, username@),
    {
        self.map.insert(id, username);
    }

    /// Relies on `hashbrown::HashMap::remove`: drops the binding of `id`
    /// and hands back the username it held, if any.
    #[verifier::external_body]
    pub fn remove(&mut self, id: i32) -> (r: Option<String>)
        ensures
            sessions_of(*final(self)) == sessions_of(*old(self)).remove(id as int),
            match r {
                Some(u) => sessions_of(*old(self)).contains_key(id as int) && sessions_of(
                    *old(self),
                )[id as int] == u@,
                None => !sessions_of(*old(self)).contains_key(id as int),
            },
    {
        self.map.remove(&id)
    }

    /// Relies on `hashbrown::HashMap::get`: the username bound to `id`.
    #[verifier::external_body]
    pub fn get(&self, id: i32) -> (r: Option<&String>)
        ensures
            match r {
                Some(u) => sessions_of(*self).contains_key(id as int) && sessions_of(
                    *self,
                )[id as int] == u@,
                None => !sessions_of(*self).contains_key(id as int),
            },
    {
        self.map.get(&id)
    }

    /// Relies on `hashbrown::HashMap::iter`: some connection currently
    /// bound to `username`, if one exists.  Which one, when several are
    /// bound, follows the map's walk order and is not pinned.
    #[verifier::external_body]
    pub fn find_by_username(&self, username: &str) -> (r: Option<i32>)
        ensures
            match r {
                Some(id) => sessions_of(*self).contains_key(id as int) && sessions_of(
                    *self,
                )[id as int] == username@,
                None => forall|id: int|
                    sessions_of(*self).contains_key(id) ==> sessions_of(*self)[id] != username@,
            },
    {
        self.map.iter().find(|x| str_eq(x.1.as_str(), username)).map(|x| *x.0)
    }
}

/// Username → single-use reattachment token records.
#[verifier::external_body]
pub struct IdentityStore {
    map: hashbrown::HashMap<String, String>,
}

/// What an identity store holds: the map from username to token.
pub uninterp spec fn identities_of(s: IdentityStore) -> Map<Seq<char>, Seq<char>>;

impl IdentityStore {
    /// Relies on `hashbrown::HashMap::new`: an empty map.
    #[verifier::external_body]
    pub fn new() -> (r: IdentityStore)
        ensures
            identities_of(r) =~= Map::empty(),
    {
        IdentityStore { map: hashbrown::HashMap::new() }
    }

    /// Relies on `hashbrown::HashMap::insert`: records `token` for
    /// `username`, replacing any earlier record of that username.
    #[verifier::external_body]
    pub fn insert(&mut self, username: String, token: String)
        ensures
            identities_of(*final(self)) == identities_of(*old(self)).insert(username@, token@),
    {
        self.map.insert(username, token);
    }

    /// Relies on `hashbrown::HashMap::remove`: drops the record of
    /// `username`, if any.
    #[verifier::external_body]
    pub fn remove(&mut self, username: &str) -> (r: Option<String>)
        ensures
            identities_of(*final(self)) == identities_of(*old(self)).remove(username@),
            match r {
                Some(t) => identities_of(*old(self)).contains_key(username@) && identities_of(
                    *old(self),
                )[username@] == t@,
                None => !identities_of(*old(self)).contains_key(username@),
            },
    {
        self.map.remove(username)
    }

    /// Relies on `hashbrown::HashMap::get`: the token recorded for
    /// `username`.
    #[verifier::external_body]
    pub fn get(&self, username: &str) -> (r: Option<&String>)
        ensures
            match r {
                Some(t) => identities_of(*self).contains_key(username@) && identities_of(
                    *self,
                )[username@] == t@,
                None => !identities_of(*self).contains_key(username@),
            },
    {
        self.map.get(username)
    }

    /// Relies on `hashbrown::HashMap::iter`: the username of some record
    /// whose token equals `token`, if one exists.  Which one, when
    /// several records share a token, follows the map's walk order and
    /// is not pinned.
    #[verifier::external_body]
    pub fn find_by_token(&self, token: &str) -> (r: Option<String>)
        ensures
            match r {
                Some(u) => identities_of(*self).contains_key(u@) && identities_of(*self)[u@]
                    == token@,
                None => forall|u: Seq<char>|
                    identities_of(*self).contains_key(u) ==> identities_of(*self)[u] != token@,
            },
    {
        self.map.iter().find(|x| str_eq(x.1.as_str(), token)).map(|x| x.0.clone())
    }
}

} // verus!

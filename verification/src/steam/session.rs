//! A connection to Steam: the session and the depot keys it has learned.
use std::collections::HashMap;
use vstd::prelude::*;

use crate::steam::auth::{session_for, AuthMethod, AuthSession, SteamAuth};

verus! {

broadcast use vstd::std_specs::hash::group_hash_axioms;

/// Why a depot key could not be had.
#[derive(Debug, Clone, PartialEq, Eq)]
pub enum SessionError {
    /// No key is known for the depot.
    DepotKeyNotAvailable(u32),
}

/// A connection to Steam.
pub struct SteamSession {
    auth: SteamAuth,
    session: Option<AuthSession>,
    connected: bool,
    depot_keys: HashMap<u32, Vec<u8>>,
}

impl SteamSession {
    /// The sign-in the session uses.
    pub closed spec fn sign_in(&self) -> SteamAuth {
        self.auth
    }

    /// The session that signing in gave, if any.
    pub closed spec fn current(&self) -> Option<AuthSession> {
        self.session
    }

    /// Whether the connection is up.
    pub closed spec fn up(&self) -> bool {
        self.connected
    }

    /// The depot keys learned, by depot.
    pub closed spec fn keys(&self) -> Map<u32, Seq<u8>> {
        self.depot_keys@.map_values(|v: Vec<u8>| v@)
    }

    /// A connection that is down, with no session and no keys, signing in
    /// with nothing stored.
    pub fn new() -> (s: Self)
        ensures
            s.current() is None,
            !s.up(),
            s.keys() == Map::<u32, Seq<u8>>::empty(),
            s.sign_in().stored().username is None,
            s.sign_in().stored().password is None,
            s.sign_in().stored().token is None,
    {
        let s = SteamSession {
            auth: SteamAuth::new(),
            session: None,
            connected: false,
            depot_keys: HashMap::new(),
        };
        assert(s.keys() =~= Map::<u32, Seq<u8>>::empty());
        s
    }

    /// A connection that is down, with no session and no keys, signing in
    /// with `auth`.
    pub fn new_with_auth(auth: SteamAuth) -> (s: Self)
        ensures
            s.current() is None,
            !s.up(),
            s.keys() == Map::<u32, Seq<u8>>::empty(),
            s.sign_in() == auth,
    {
        let s = SteamSession { auth, session: None, connected: false, depot_keys: HashMap::new() };
        assert(s.keys() =~= Map::<u32, Seq<u8>>::empty());
        s
    }

    /// Signs in by `method` and brings the connection up.
    pub fn connect(&mut self, method: AuthMethod)
        ensures
            final(self).current() == Some(session_for(method)),
            final(self).up(),
            final(self).keys() == old(self).keys(),
            final(self).sign_in() == old(self).sign_in(),
    {
        let s = self.auth.authenticate(method);
        self.session = Some(s);
        self.connected = true;
    }

    /// Signs in anonymously and brings the connection up.
    pub fn connect_anonymous(&mut self)
        ensures
            final(self).current() == Some(AuthSession::Anonymous),
            final(self).up(),
            final(self).keys() == old(self).keys(),
            final(self).sign_in() == old(self).sign_in(),
    {
        self.connect(AuthMethod::Anonymous)
    }

    /// Takes the connection down and forgets the session and every key.
    pub fn disconnect(&mut self)
        ensures
            final(self).current() is None,
            !final(self).up(),
            final(self).keys() == Map::<u32, Seq<u8>>::empty(),
            final(self).sign_in() == old(self).sign_in(),
    {
        self.session = None;
        self.connected = false;
        self.depot_keys.clear();
        assert(self.keys() =~= Map::<u32, Seq<u8>>::empty());
    }

    /// Whether the connection is up.
    pub fn is_connected(&self) -> (b: bool)
        ensures
            b == self.up(),
    {
        self.connected
    }

    /// Whether there is a session of a signed-in user.
    pub fn is_authenticated(&self) -> (b: bool)
        ensures
            b == (self.current() matches Some(s) && s is Authenticated),
    {
        match &self.session {
            Some(s) => s.is_authenticated(),
            None => false,
        }
    }

    /// The session, if any.
    pub fn get_session(&self) -> (s: Option<&AuthSession>)
        ensures
            match self.current() {
                Some(c) => s matches Some(x) && *x == c,
                None => s is None,
            },
    {
        match &self.session {
            Some(s) => Some(s),
            None => None,
        }
    }

    /// The key of a depot, if it has been learned.
    pub fn request_depot_key(&mut self, depot_id: u32) -> (r: Result<Vec<u8>, SessionError>)
        ensures
            *final(self) == *old(self),
            old(self).keys().contains_key(depot_id) ==> (r matches Ok(k) && k@ == old(
                self,
            ).keys()[depot_id]),
            !old(self).keys().contains_key(depot_id) ==> r == Err::<Vec<u8>, SessionError>(
                SessionError::DepotKeyNotAvailable(depot_id),
            ),
    {
        match self.depot_keys.get(&depot_id) {
            Some(key) => {
                let mut copy: Vec<u8> = Vec::new();
                let mut i: usize = 0;
                while i < key.len()
                    invariant
                        i <= key.len(),
                        copy@ == key@.take(i as int),
                    decreases key.len() - i,
                {
                    copy.push(key[i]);
                    i = i + 1;
                    assert(copy@ =~= key@.take(i as int));
                }
                assert(key@.take(key.len() as int) =~= key@);
                Ok(copy)
            },
            None => Err(SessionError::DepotKeyNotAvailable(depot_id)),
        }
    }

    /// Learns the key of a depot, replacing any earlier one.
    pub fn add_depot_key(&mut self, depot_id: u32, key: Vec<u8>)
        ensures
            final(self).keys() == old(self).keys().insert(depot_id, key@),
            final(self).current() == old(self).current(),
            final(self).up() == old(self).up(),
            final(self).sign_in() == old(self).sign_in(),
    {
        let ghost k = key@;
        self.depot_keys.insert(depot_id, key);
        assert(self.keys() =~= old(self).keys().insert(depot_id, k));
    }

    /// Whether the key of a depot has been learned.
    pub fn has_depot_key(&self, depot_id: u32) -> (b: bool)
        ensures
            b == self.keys().contains_key(depot_id),
    {
        self.depot_keys.contains_key(&depot_id)
    }

    /// Processes pending events; there are none, so nothing changes.
    pub fn tick(&mut self)
        ensures
            *final(self) == *old(self),
    {
    }
}

impl Default for SteamSession {
    /// A connection that is down, with no session and no keys, signing in
    /// with nothing stored.
    fn default() -> (s: Self)
        ensures
            s.current() is None,
            !s.up(),
            s.keys() == Map::<u32, Seq<u8>>::empty(),
            s.sign_in().stored().username is None,
            s.sign_in().stored().password is None,
            s.sign_in().stored().token is None,
    {
        Self::new()
    }
}

/// Signing in gives a session of a signed-in user exactly for a password or
/// a token.
pub proof fn law_sign_in_outcome(method: AuthMethod)
    ensures
        (session_for(method) is Authenticated) <==> (method is Credentials || method is Token),
        method is Anonymous ==> session_for(method) is Anonymous,
        method is QrCode ==> session_for(method) is QrPending,
{
}

/// A key learned for a depot is the one requested for it afterwards; the
/// keys of the other depots stay as they were.
pub proof fn law_key_after_add(keys: Map<u32, Seq<u8>>, depot_id: u32, key: Seq<u8>, other: u32)
    ensures
        keys.insert(depot_id, key).contains_key(depot_id),
        keys.insert(depot_id, key)[depot_id] == key,
        other != depot_id ==> (keys.insert(depot_id, key).contains_key(other)
            == keys.contains_key(other)),
        other != depot_id && keys.contains_key(other) ==> keys.insert(depot_id, key)[other]
            == keys[other],
{
}

} // verus!

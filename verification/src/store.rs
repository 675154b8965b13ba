//! The session store: the registered identities by username, and the
//! outstanding challenges, each bound to the username it was issued to.

use vstd::prelude::*;
use vstd::hash_map::StringHashMap;
use crate::natural::Natural;

verus! {

/// What the server holds of one registered user.
#[derive(Debug)]
pub struct UserInfo {
    pub user_name: String,
    pub y1: Natural,
    pub y2: Natural,
    pub r1: Natural,
    pub r2: Natural,
    pub c: Natural,
    pub s: Natural,
    pub session_id: String,
}

/// An identity as plain values.
pub struct Identity {
    pub user_name: Seq<char>,
    pub y1: nat,
    pub y2: nat,
    pub r1: nat,
    pub r2: nat,
    pub c: nat,
    pub s: nat,
    pub session_id: Seq<char>,
}

impl View for UserInfo {
    type V = Identity;

    open spec fn view(&self) -> Identity {
        Identity {
            user_name: self.user_name@,
            y1: self.y1@,
            y2: self.y2@,
            r1: self.r1@,
            r2: self.r2@,
            c: self.c@,
            s: self.s@,
            session_id: self.session_id@,
        }
    }
}

impl Clone for UserInfo {
    fn clone(&self) -> (r: Self)
        ensures
            r@ == self@,
    {
        UserInfo {
            user_name: self.user_name.clone(),
            y1: self.y1.clone(),
            y2: self.y2.clone(),
            r1: self.r1.clone(),
            r2: self.r2.clone(),
            c: self.c.clone(),
            s: self.s.clone(),
            session_id: self.session_id.clone(),
        }
    }
}

impl Default for UserInfo {
    /// An identity without a name, with every number zero.
    fn default() -> (r: UserInfo)
        ensures
            r@ == fresh_identity(Seq::empty(), 0, 0),
    {
        UserInfo::new(String::new(), Natural::from_u32(0), Natural::from_u32(0))
    }
}

impl UserInfo {
    /// The identity that a registration creates: the two commitments, and
    /// nothing yet of any challenge.
    pub fn new(user_name: String, y1: Natural, y2: Natural) -> (r: UserInfo)
        ensures
            r@ == fresh_identity(user_name@, y1@, y2@),
    {
        UserInfo {
            user_name,
            y1,
            y2,
            r1: Natural::from_u32(0),
            r2: Natural::from_u32(0),
            c: Natural::from_u32(0),
            s: Natural::from_u32(0),
            session_id: String::new(),
        }
    }
}

/// The identity that a registration creates.
pub open spec fn fresh_identity(user_name: Seq<char>, y1: nat, y2: nat) -> Identity {
    Identity { user_name, y1, y2, r1: 0, r2: 0, c: 0, s: 0, session_id: Seq::empty() }
}

/// The two tables of the server. Identities are never removed, so a
/// challenge on record always belongs to a registered identity.
pub struct SessionStore {
    user_info: StringHashMap<UserInfo>,
    auth_to_user: StringHashMap<String>,
}

impl SessionStore {
    /// The registered identities, by username.
    pub closed spec fn identities(&self) -> Map<Seq<char>, Identity> {
        self.user_info@.map_values(|u: UserInfo| u@)
    }

    /// The username that each challenge on record was issued to.
    pub closed spec fn sessions(&self) -> Map<Seq<char>, Seq<char>> {
        self.auth_to_user@.map_values(|s: String| s@)
    }

    /// The invariant of the store: every identity is stored under its own
    /// name, and every challenge belongs to a registered identity.
    pub closed spec fn wf(&self) -> bool {
        &&& forall|u: Seq<char>| #[trigger]
            self.user_info@.contains_key(u) ==> self.user_info@[u].user_name@ == u
        &&& forall|a: Seq<char>| #[trigger]
            self.auth_to_user@.contains_key(a) ==> self.user_info@.contains_key(self.auth_to_user@[a]@)
    }

    /// What the invariant says of the two tables.
    pub proof fn lemma_consistent(&self)
        requires
            self.wf(),
        ensures
            forall|u: Seq<char>| #[trigger]
                self.identities().contains_key(u) ==> self.identities()[u].user_name == u,
            forall|a: Seq<char>| #[trigger]
                self.sessions().contains_key(a) ==> self.identities().contains_key(self.sessions()[a]),
    {
    }

    /// A store with nothing in it.
    pub fn new() -> (r: SessionStore)
        ensures
            r.wf(),
            r.identities() == Map::<Seq<char>, Identity>::empty(),
            r.sessions() == Map::<Seq<char>, Seq<char>>::empty(),
    {
        let r = SessionStore { user_info: StringHashMap::new(), auth_to_user: StringHashMap::new() };
        assert(r.identities() =~= Map::<Seq<char>, Identity>::empty());
        assert(r.sessions() =~= Map::<Seq<char>, Seq<char>>::empty());
        r
    }

    /// A copy of the identity registered under `username`, if there is one.
    pub fn identity(&self, username: &str) -> (r: Option<UserInfo>)
        ensures
            r is Some == self.identities().contains_key(username@),
            r is Some ==> r->Some_0@ == self.identities()[username@],
    {
        match self.user_info.get(username) {
            None => None,
            Some(info) => Some(info.clone()),
        }
    }

    /// Stores `info` under its own name, in place of what was there.
    pub fn put_identity(&mut self, info: UserInfo)
        requires
            old(self).wf(),
        ensures
            final(self).wf(),
            final(self).identities() == old(self).identities().insert(info@.user_name, info@),
            final(self).sessions() == old(self).sessions(),
    {
        let key = info.user_name.clone();
        self.user_info.insert(key, info);
        assert(final(self).identities() =~= old(self).identities().insert(info@.user_name, info@));
    }

    /// The username that the challenge `auth_id` was issued to, if it is on
    /// record.
    pub fn session_user(&self, auth_id: &str) -> (r: Option<String>)
        ensures
            r is Some == self.sessions().contains_key(auth_id@),
            r is Some ==> r->Some_0@ == self.sessions()[auth_id@],
    {
        match self.auth_to_user.get(auth_id) {
            None => None,
            Some(name) => Some(name.clone()),
        }
    }

    /// Binds the challenge `auth_id` to `username`, in place of an earlier
    /// binding of the same identifier. Without an identity of that name
    /// nothing is recorded and the answer is `false`.
    pub fn put_session(&mut self, auth_id: String, username: &str) -> (r: bool)
        requires
            old(self).wf(),
        ensures
            final(self).wf(),
            final(self).identities() == old(self).identities(),
            r == old(self).identities().contains_key(username@),
            r ==> final(self).sessions() == old(self).sessions().insert(auth_id@, username@),
            !r ==> final(self).sessions() == old(self).sessions(),
    {
        if !self.user_info.contains_key(username) {
            return false;
        }
        self.auth_to_user.insert(auth_id, username.to_owned());
        assert(final(self).sessions() =~= old(self).sessions().insert(auth_id@, username@));
        true
    }

    /// How many challenges are on record.
    pub fn session_count(&self) -> (r: usize)
        ensures
            r == self.sessions().len(),
    {
        assert(self.sessions().dom() =~= self.auth_to_user@.dom());
        self.auth_to_user.len()
    }

    /// How many identities are registered.
    pub fn user_count(&self) -> (r: usize)
        ensures
            r == self.identities().len(),
    {
        assert(self.identities().dom() =~= self.user_info@.dom());
        self.user_info.len()
    }
}

} // verus!

//! The server's side of the protocol: registration, the issue of a
//! challenge, and the check of the response, over a session store.

use vstd::prelude::*;
use crate::constants::{generator_hex, hex_value, modulus_hex, order_hex, trapdoor_hex};
use crate::foreign::is_alphanumeric;
use crate::natural::{be_value, Natural};
use crate::store::{fresh_identity, Identity, SessionStore, UserInfo};
use crate::zkp::{mod_exp, proof_holds, ZKP};

verus! {

/// The length of the identifiers handed out for challenges and sessions.
pub const IDENTIFIER_LENGTH: usize = 12;

/// Why a request was refused.
#[derive(Debug, Clone, Copy, PartialEq, Eq, Structural)]
pub enum AuthError {
    /// A field does not encode a number in the range expected of it.
    InvalidInput,
    /// No identity is registered under the username.
    NotFound,
    /// The challenge is unknown or the proof does not hold.
    Unauthenticated,
}

impl AuthError {
    /// Whether the error is reported to the caller as a failed
    /// authentication, without saying which step failed.
    pub fn is_authentication_failure(&self) -> (r: bool)
        ensures
            r == (*self == AuthError::NotFound || *self == AuthError::Unauthenticated),
    {
        match self {
            AuthError::InvalidInput => false,
            AuthError::NotFound => true,
            AuthError::Unauthenticated => true,
        }
    }
}

/// The identities after a challenge `c` was issued to `user_name` for the
/// commitments `r1` and `r2`: they replace what an earlier round left.
pub open spec fn with_challenge(
    identities: Map<Seq<char>, Identity>,
    user_name: Seq<char>,
    r1: nat,
    r2: nat,
    c: nat,
) -> Map<Seq<char>, Identity> {
    identities.insert(user_name, Identity { r1, r2, c, ..identities[user_name] })
}

/// The identities after `user_name` answered with `s`.
pub open spec fn with_response(identities: Map<Seq<char>, Identity>, user_name: Seq<char>, s: nat) -> Map<
    Seq<char>,
    Identity,
> {
    identities.insert(user_name, Identity { s, ..identities[user_name] })
}

/// Whether the verifier's check holds of what an identity stores.
pub open spec fn identity_proves(group: ZKP, identity: Identity) -> bool {
    proof_holds(
        group.alpha@,
        group.beta@,
        group.p@,
        identity.r1,
        identity.r2,
        identity.y1,
        identity.y2,
        identity.c,
        identity.s,
    )
}

/// Whether `s` is an identifier as the server hands them out.
pub open spec fn is_identifier(s: Seq<char>) -> bool {
    s.len() == IDENTIFIER_LENGTH && forall|i: int| 0 <= i < s.len() ==> is_alphanumeric(#[trigger] s[i])
}

/// The number that `bytes` encode, where it is below `limit`.
pub fn decode_below(bytes: &[u8], limit: &Natural) -> (r: Result<Natural, AuthError>)
    ensures
        be_value(bytes@) < limit@ ==> r is Ok && r->Ok_0@ == be_value(bytes@),
        be_value(bytes@) >= limit@ ==> r == Err::<Natural, AuthError>(AuthError::InvalidInput),
{
    let v = Natural::from_bytes_be(bytes);
    if v.at_least(limit) {
        Err(AuthError::InvalidInput)
    } else {
        Ok(v)
    }
}

/// The server's state: the group that proofs are checked in, and the store.
pub struct AuthImpl {
    zkp: ZKP,
    store: SessionStore,
}

impl AuthImpl {
    /// The invariant of the state: the group is usable and the store is
    /// consistent.
    pub closed spec fn wf(&self) -> bool {
        self.zkp.usable() && self.store.wf()
    }

    /// The group that proofs are checked in.
    pub closed spec fn params(&self) -> ZKP {
        self.zkp
    }

    /// The registered identities, by username.
    pub closed spec fn identities(&self) -> Map<Seq<char>, Identity> {
        self.store.identities()
    }

    /// The username that each challenge on record was issued to.
    pub closed spec fn sessions(&self) -> Map<Seq<char>, Seq<char>> {
        self.store.sessions()
    }

    /// The group is usable, every identity is stored under its own name,
    /// and every challenge belongs to a registered identity.
    pub proof fn lemma_consistent(&self)
        requires
            self.wf(),
        ensures
            self.params().usable(),
            forall|u: Seq<char>| #[trigger]
                self.identities().contains_key(u) ==> self.identities()[u].user_name == u,
            forall|a: Seq<char>| #[trigger]
                self.sessions().contains_key(a) ==> self.identities().contains_key(self.sessions()[a]),
    {
        self.store.lemma_consistent();
    }

    /// A server for the group `zkp`, with nobody registered.
    pub fn new(zkp: ZKP) -> (r: AuthImpl)
        requires
            zkp.usable(),
        ensures
            r.wf(),
            r.params() == zkp,
            r.identities() == Map::<Seq<char>, Identity>::empty(),
            r.sessions() == Map::<Seq<char>, Seq<char>>::empty(),
    {
        AuthImpl { zkp, store: SessionStore::new() }
    }

    /// A server for the group `zkp` over the store `store`.
    pub fn with_store(zkp: ZKP, store: SessionStore) -> (r: AuthImpl)
        requires
            zkp.usable(),
            store.wf(),
        ensures
            r.wf(),
            r.params() == zkp,
            r.identities() == store.identities(),
            r.sessions() == store.sessions(),
    {
        AuthImpl { zkp, store }
    }

    /// Stores the commitments `y1` and `y2` under `username`. An identity
    /// that was there before is replaced.
    pub fn register(&mut self, username: String, y1: Natural, y2: Natural)
        requires
            old(self).wf(),
        ensures
            final(self).wf(),
            final(self).identities() == old(self).identities().insert(
                username@,
                fresh_identity(username@, y1@, y2@),
            ),
            final(self).sessions() == old(self).sessions(),
            final(self).params() == old(self).params(),
    {
        let info = UserInfo::new(username, y1, y2);
        self.store.put_identity(info);
    }

    /// Issues the challenge `c` under the identifier `auth_id` to `username`,
    /// for the prover's commitments `r1` and `r2`. For an unknown username
    /// nothing changes.
    pub fn issue_challenge(
        &mut self,
        username: &str,
        r1: Natural,
        r2: Natural,
        c: Natural,
        auth_id: String,
    ) -> (r: Result<(String, Natural), AuthError>)
        requires
            old(self).wf(),
        ensures
            final(self).wf(),
            final(self).params() == old(self).params(),
            !old(self).identities().contains_key(username@) ==> {
                &&& r == Err::<(String, Natural), AuthError>(AuthError::NotFound)
                &&& final(self).identities() == old(self).identities()
                &&& final(self).sessions() == old(self).sessions()
            },
            old(self).identities().contains_key(username@) ==> {
                &&& r is Ok
                &&& r->Ok_0.0@ == auth_id@
                &&& r->Ok_0.1@ == c@
                &&& final(self).identities() == with_challenge(
                    old(self).identities(),
                    username@,
                    r1@,
                    r2@,
                    c@,
                )
                &&& final(self).sessions() == old(self).sessions().insert(auth_id@, username@)
            },
    {
        proof {
            self.store.lemma_consistent();
        }
        let mut info = match self.store.identity(username) {
            None => {
                return Err(AuthError::NotFound);
            },
            Some(info) => info,
        };
        info.c = c.clone();
        info.r1 = r1;
        info.r2 = r2;
        self.store.put_identity(info);
        self.store.put_session(auth_id.clone(), username);
        Ok((auth_id, c))
    }

    /// Draws a challenge below `q` and a fresh identifier, and issues them to
    /// `username` for the prover's commitments `r1` and `r2`.
    pub fn create_authentication_challenge(&mut self, username: &str, r1: Natural, r2: Natural) -> (r: Result<
        (String, Natural),
        AuthError,
    >)
        requires
            old(self).wf(),
        ensures
            final(self).wf(),
            final(self).params() == old(self).params(),
            !old(self).identities().contains_key(username@) ==> {
                &&& r == Err::<(String, Natural), AuthError>(AuthError::NotFound)
                &&& final(self).identities() == old(self).identities()
                &&& final(self).sessions() == old(self).sessions()
            },
            old(self).identities().contains_key(username@) ==> {
                &&& r is Ok
                &&& is_identifier(r->Ok_0.0@)
                &&& r->Ok_0.1@ < old(self).params().q@
                &&& final(self).identities() == with_challenge(
                    old(self).identities(),
                    username@,
                    r1@,
                    r2@,
                    r->Ok_0.1@,
                )
                &&& final(self).sessions() == old(self).sessions().insert(r->Ok_0.0@, username@)
            },
    {
        let c = ZKP::generate_random_below(&self.zkp.q);
        let auth_id = ZKP::generate_random_string(IDENTIFIER_LENGTH);
        self.issue_challenge(username, r1, r2, c, auth_id)
    }

    /// Stores the response `s` for the challenge `auth_id` and checks the
    /// proof. For an unknown challenge nothing is read or changed.
    pub fn check_response(&mut self, auth_id: &str, s: Natural) -> (r: Result<(), AuthError>)
        requires
            old(self).wf(),
        ensures
            final(self).wf(),
            final(self).params() == old(self).params(),
            final(self).sessions() == old(self).sessions(),
            !old(self).sessions().contains_key(auth_id@) ==> {
                &&& r == Err::<(), AuthError>(AuthError::Unauthenticated)
                &&& final(self).identities() == old(self).identities()
            },
            old(self).sessions().contains_key(auth_id@) ==> {
                let user = old(self).sessions()[auth_id@];
                &&& old(self).identities().contains_key(user)
                &&& final(self).identities() == with_response(old(self).identities(), user, s@)
                &&& r == if identity_proves(old(self).params(), final(self).identities()[user]) {
                    Ok::<(), AuthError>(())
                } else {
                    Err::<(), AuthError>(AuthError::Unauthenticated)
                }
            },
    {
        proof {
            self.store.lemma_consistent();
        }
        let user = match self.store.session_user(auth_id) {
            None => {
                return Err(AuthError::Unauthenticated);
            },
            Some(name) => name,
        };
        let mut info = match self.store.identity(user.as_str()) {
            None => {
                return Err(AuthError::Unauthenticated);
            },
            Some(info) => info,
        };
        info.s = s;
        let ok = self.zkp.verify(&info.r1, &info.r2, &info.y1, &info.y2, &info.c, &info.s);
        self.store.put_identity(info);
        if ok {
            Ok(())
        } else {
            Err(AuthError::Unauthenticated)
        }
    }

    /// Checks the response `s` to the challenge `auth_id` and, where the
    /// proof holds, hands out a fresh session identifier.
    pub fn verify_authentication(&mut self, auth_id: &str, s: Natural) -> (r: Result<String, AuthError>)
        requires
            old(self).wf(),
        ensures
            final(self).wf(),
            final(self).params() == old(self).params(),
            final(self).sessions() == old(self).sessions(),
            !old(self).sessions().contains_key(auth_id@) ==> {
                &&& r == Err::<String, AuthError>(AuthError::Unauthenticated)
                &&& final(self).identities() == old(self).identities()
            },
            old(self).sessions().contains_key(auth_id@) ==> {
                let user = old(self).sessions()[auth_id@];
                &&& old(self).identities().contains_key(user)
                &&& final(self).identities() == with_response(old(self).identities(), user, s@)
                &&& identity_proves(old(self).params(), final(self).identities()[user]) ==> r is Ok
                    && is_identifier(r->Ok_0@)
                &&& !identity_proves(old(self).params(), final(self).identities()[user]) ==> r == Err::<
                    String,
                    AuthError,
                >(AuthError::Unauthenticated)
            },
    {
        match self.check_response(auth_id, s) {
            Ok(()) => Ok(ZKP::generate_random_string(IDENTIFIER_LENGTH)),
            Err(e) => Err(e),
        }
    }

    /// The group that proofs are checked in.
    pub fn group(&self) -> (r: &ZKP)
        ensures
            *r == self.params(),
    {
        &self.zkp
    }

    /// The store behind the server.
    pub fn store(&self) -> (r: &SessionStore)
        ensures
            r.identities() == self.identities(),
            r.sessions() == self.sessions(),
            self.wf() ==> r.wf(),
    {
        &self.store
    }

    /// How many challenges are on record.
    pub fn session_count(&self) -> (r: usize)
        ensures
            r == self.sessions().len(),
    {
        self.store.session_count()
    }

    /// How many identities are registered.
    pub fn user_count(&self) -> (r: usize)
        ensures
            r == self.identities().len(),
    {
        self.store.user_count()
    }

    /// A copy of the identity registered under `username`, if there is one.
    pub fn identity(&self, username: &str) -> (r: Option<UserInfo>)
        ensures
            r is Some == self.identities().contains_key(username@),
            r is Some ==> r->Some_0@ == self.identities()[username@],
    {
        self.store.identity(username)
    }

    /// The username that the challenge `auth_id` was issued to, if it is on
    /// record.
    pub fn session_user(&self, auth_id: &str) -> (r: Option<String>)
        ensures
            r is Some == self.sessions().contains_key(auth_id@),
            r is Some ==> r->Some_0@ == self.sessions()[auth_id@],
    {
        self.store.session_user(auth_id)
    }
}

impl Default for AuthImpl {
    /// A server for the fixed group, with nobody registered.
    fn default() -> (r: AuthImpl)
        ensures
            r.wf(),
            r.params().alpha@ == hex_value(generator_hex()),
            r.params().beta@ == mod_exp(
                hex_value(generator_hex()),
                hex_value(trapdoor_hex()),
                hex_value(modulus_hex()),
            ),
            r.params().p@ == hex_value(modulus_hex()),
            r.params().q@ == hex_value(order_hex()),
            r.identities() == Map::<Seq<char>, Identity>::empty(),
            r.sessions() == Map::<Seq<char>, Seq<char>>::empty(),
    {
        let (alpha, beta, p, q) = ZKP::get_constants();
        AuthImpl::new(ZKP { q, p, alpha, beta })
    }
}

} // verus!

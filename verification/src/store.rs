//! The two stores of the service: the registered users, and the proofs in
//! flight.

use crate::credentials::Credentials;
use crate::credentials::CredentialsView;
use crate::credentials::Session;
use crate::credentials::SessionView;
use crate::credentials::User;
use crate::error::AuthError;
use crate::natural::BigNat;
use crate::token::fresh_uuid;
use std::collections::HashMap;
use vstd::prelude::*;

verus! {

/// The map from name to public key that a list of users stands for; of two
/// users with one name the later one counts.
pub open spec fn users_map(users: Seq<User>) -> Map<Seq<char>, CredentialsView>
    decreases users.len(),
{
    if users.len() == 0 {
        Map::empty()
    } else {
        users_map(users.drop_last()).insert(users.last().name@, users.last().y@)
    }
}

/// Whether no name occurs twice in the list.
pub open spec fn names_distinct(users: Seq<User>) -> bool {
    forall|i: int, j: int| 0 <= i < j < users.len() ==> users[i].name@ != users[j].name@
}

/// Whether the user at place `i` of the list has the name `name`.
pub open spec fn named_at(users: Seq<User>, i: int, name: Seq<char>) -> bool {
    0 <= i < users.len() && users[i].name@ == name
}

/// The map of a list of users holds exactly the names of the list, and where
/// no name occurs twice, each with the public key that stands beside it.
pub proof fn lemma_users_map(users: Seq<User>)
    ensures
        forall|name: Seq<char>|
            users_map(users).contains_key(name) <==> exists|i: int|
                #[trigger] named_at(users, i, name),
        names_distinct(users) ==> forall|i: int, name: Seq<char>|
            #[trigger] named_at(users, i, name) ==> users_map(users)[name] == users[i].y@,
    decreases users.len(),
{
    if users.len() > 0 {
        let front = users.drop_last();
        let last = users.len() - 1;
        lemma_users_map(front);
        assert(users_map(users) == users_map(front).insert(users[last].name@, users[last].y@));
        assert forall|name: Seq<char>|
            users_map(users).contains_key(name) <==> exists|i: int|
                #[trigger] named_at(users, i, name) by {
            if users_map(users).contains_key(name) {
                if name == users.last().name@ {
                    assert(named_at(users, last, name));
                } else {
                    let i = choose|i: int| #[trigger] named_at(front, i, name);
                    assert(named_at(users, i, name));
                }
            }
            if exists|i: int| #[trigger] named_at(users, i, name) {
                let i = choose|i: int| #[trigger] named_at(users, i, name);
                if i < front.len() {
                    assert(named_at(front, i, name));
                }
            }
        }
        if names_distinct(users) {
            assert(names_distinct(front)) by {
                assert forall|i: int, j: int| 0 <= i < j < front.len() implies front[i].name@
                    != front[j].name@ by {
                    assert(users[i].name@ != users[j].name@);
                }
            }
            assert forall|i: int, name: Seq<char>| #[trigger]
                named_at(users, i, name) implies users_map(users)[name] == users[i].y@ by {
                if i < front.len() {
                    assert(named_at(front, i, name));
                    assert(users[i].name@ != users[last].name@);
                }
            }
        }
    }
}

/// The registered users, each name once. Its view is the map from name to
/// public key.
#[derive(Debug)]
pub struct CredentialStore {
    users: Vec<User>,
}

impl View for CredentialStore {
    type V = Map<Seq<char>, CredentialsView>;

    closed spec fn view(&self) -> Map<Seq<char>, CredentialsView> {
        users_map(self.users@)
    }
}

impl CredentialStore {
    #[verifier::type_invariant]
    spec fn each_name_once(&self) -> bool {
        names_distinct(self.users@)
    }

    /// A store without users.
    pub fn new() -> (r: CredentialStore)
        ensures
            r@ == Map::<Seq<char>, CredentialsView>::empty(),
    {
        CredentialStore { users: Vec::new() }
    }

    /// The place of the user `name` in the list, if the name is registered.
    fn position(&self, name: &str) -> (r: Option<usize>)
        ensures
            r is Some <==> self@.contains_key(name@),
            r matches Some(i) ==> i < self.users@.len() && self.users@[i as int].name@ == name@
                && self.users@[i as int].y@ == self@[name@],
    {
        proof {
            use_type_invariant(self);
            lemma_users_map(self.users@);
        }
        let wanted = name.to_owned();
        let mut i: usize = 0;
        while i < self.users.len()
            invariant
                i <= self.users@.len(),
                wanted@ == name@,
                forall|j: int| 0 <= j < i ==> !named_at(self.users@, j, name@),
            decreases self.users@.len() - i,
        {
            if self.users[i].name == wanted {
                proof {
                    use_type_invariant(self);
                    lemma_users_map(self.users@);
                    assert(named_at(self.users@, i as int, name@));
                }
                return Some(i);
            }
            i += 1;
        }
        None
    }

    /// Whether the user `name` is registered.
    pub fn contains(&self, name: &str) -> (r: bool)
        ensures
            r == self@.contains_key(name@),
    {
        self.position(name).is_some()
    }

    /// The public key of the user `name`; `NotFound` where the name is not
    /// registered.
    pub fn lookup(&self, name: &str) -> (r: Result<&Credentials, AuthError>)
        ensures
            r is Ok <==> self@.contains_key(name@),
            r matches Ok(y) ==> y@ == self@[name@],
            r matches Err(e) ==> e == AuthError::NotFound,
    {
        match self.position(name) {
            Some(i) => Ok(&self.users[i].y),
            None => Err(AuthError::NotFound),
        }
    }

    /// Registers the user `name` with the public key `y`; `AlreadyExists`
    /// where the name is registered, and then nothing changes.
    pub fn insert(&mut self, name: &str, y: Credentials) -> (r: Result<(), AuthError>)
        ensures
            r is Ok <==> !old(self)@.contains_key(name@),
            r is Ok ==> final(self)@ == old(self)@.insert(name@, y@),
            r matches Err(e) ==> e == AuthError::AlreadyExists && final(self)@ == old(self)@,
    {
        proof {
            use_type_invariant(&*self);
            lemma_users_map(self.users@);
        }
        if self.contains(name) {
            return Err(AuthError::AlreadyExists);
        }
        let ghost before = self.users@;
        let mut users = Vec::new();
        std::mem::swap(&mut users, &mut self.users);
        let user = User { name: name.to_owned(), y };
        users.push(user);
        proof {
            assert(users@.drop_last() =~= before);
            assert(names_distinct(users@)) by {
                assert forall|i: int, j: int| 0 <= i < j < users@.len() implies users@[i].name@
                    != users@[j].name@ by {
                    assert(users@[i] == before[i]);
                    if j < before.len() {
                        assert(users@[j] == before[j]);
                    } else {
                        assert(!named_at(before, i, name@));
                    }
                }
            }
        }
        self.users = users;
        Ok(())
    }
}

/// The map that a table of sessions stands for.
pub open spec fn sessions_map(sessions: Map<u128, Session>) -> Map<u128, SessionView> {
    Map::new(|token: u128| sessions.contains_key(token), |token: u128| sessions[token]@)
}

/// The proofs in flight, by token. Its view is the map from token to session.
#[derive(Debug)]
pub struct SessionStore {
    sessions: HashMap<u128, Session>,
}

impl View for SessionStore {
    type V = Map<u128, SessionView>;

    closed spec fn view(&self) -> Map<u128, SessionView> {
        sessions_map(self.sessions@)
    }
}

impl SessionStore {
    /// A store without sessions.
    pub fn new() -> (r: SessionStore)
        ensures
            r@ == Map::<u128, SessionView>::empty(),
    {
        let r = SessionStore { sessions: HashMap::new() };
        assert(r@ =~= Map::<u128, SessionView>::empty());
        r
    }

    /// Opens a session under `token` for the user `user`, with the commitment
    /// `r` and the challenge `c`; `Internal` where the token is in use, and
    /// then nothing changes.
    pub fn create_with(&mut self, token: u128, user: &str, r: Credentials, c: BigNat) -> (done:
        Result<(), AuthError>)
        ensures
            done is Ok <==> !old(self)@.contains_key(token),
            done is Ok ==> final(self)@ == old(self)@.insert(
                token,
                SessionView { id: None, user: user@, r: r@, c: c@ },
            ),
            done matches Err(e) ==> e == AuthError::Internal && final(self)@ == old(self)@,
    {
        if self.sessions.contains_key(&token) {
            return Err(AuthError::Internal);
        }
        let session = Session { id: None, user: user.to_owned(), r, c };
        self.sessions.insert(token, session);
        assert(self@ =~= old(self)@.insert(token, session@));
        Ok(())
    }

    /// Opens a session under a freshly drawn token and returns the token;
    /// `Internal` where the drawn token is in use, which it cannot be while
    /// the store is empty, and then nothing changes.
    pub fn create(&mut self, user: &str, r: Credentials, c: BigNat) -> (done: Result<
        u128,
        AuthError,
    >)
        ensures
            (forall|t: u128| !old(self)@.contains_key(t)) ==> done is Ok,
            done matches Ok(token) ==> !old(self)@.contains_key(token) && final(self)@ == old(
                self,
            )@.insert(token, SessionView { id: None, user: user@, r: r@, c: c@ }),
            done matches Err(e) ==> e == AuthError::Internal && final(self)@ == old(self)@,
    {
        let token = fresh_uuid();
        match self.create_with(token, user, r, c) {
            Ok(()) => Ok(token),
            Err(e) => Err(e),
        }
    }

    /// The session under `token`; `NotFound` where there is none.
    pub fn lookup(&self, token: u128) -> (r: Result<&Session, AuthError>)
        ensures
            r is Ok <==> self@.contains_key(token),
            r matches Ok(session) ==> session@ == self@[token],
            r matches Err(e) ==> e == AuthError::NotFound,
    {
        match self.sessions.get(&token) {
            Some(session) => Ok(session),
            None => Err(AuthError::NotFound),
        }
    }

    /// Attaches the session identifier `session_id` to the session under
    /// `token` and leaves the rest of it as it is; `NotFound` where there is
    /// no such session, and then nothing changes.
    pub fn mark_verified(&mut self, token: u128, session_id: u128) -> (r: Result<(), AuthError>)
        ensures
            r is Ok <==> old(self)@.contains_key(token),
            r is Ok ==> final(self)@ == old(self)@.insert(
                token,
                SessionView { id: Some(session_id), ..old(self)@[token] },
            ),
            r matches Err(e) ==> e == AuthError::NotFound && final(self)@ == old(self)@,
    {
        match self.sessions.remove(&token) {
            Some(session) => {
                let marked = Session {
                    id: Some(session_id),
                    user: session.user,
                    r: session.r,
                    c: session.c,
                };
                self.sessions.insert(token, marked);
                assert(self@ =~= old(self)@.insert(
                    token,
                    SessionView { id: Some(session_id), ..old(self)@[token] },
                ));
                Ok(())
            },
            None => {
                assert(self@ =~= old(self)@);
                Err(AuthError::NotFound)
            },
        }
    }
}

} // verus!

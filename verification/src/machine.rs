//! The state machine of the authentication service, as mathematics: its
//! state, the three transitions, and what holds of them.

use crate::credentials::CredentialsView;
use crate::credentials::SessionView;
use crate::curve::curve_order;
use crate::discrete_log::GroupParameters;
use crate::elliptic::CurveParameters;
use crate::error::AuthError;
use vstd::prelude::*;

verus! {

/// What the service holds: the public key of each registered user, and each
/// proof in flight under its token.
pub ghost struct ServiceState {
    pub users: Map<Seq<char>, CredentialsView>,
    pub sessions: Map<u128, SessionView>,
}

impl ServiceState {
    /// The state of a service that has seen no request.
    pub open spec fn empty() -> ServiceState {
        ServiceState { users: Map::empty(), sessions: Map::empty() }
    }

    /// Whether every session is for a registered user.
    pub open spec fn consistent(self) -> bool {
        forall|token: u128| #[trigger]
            self.sessions.contains_key(token) ==> self.users.contains_key(
                self.sessions[token].user,
            )
    }

    /// Register: the user `name` gets the public key `y`, unless the name is
    /// taken.
    pub open spec fn register(self, name: Seq<char>, y: CredentialsView) -> (
        ServiceState,
        Result<(), AuthError>,
    ) {
        if self.users.contains_key(name) {
            (self, Err(AuthError::AlreadyExists))
        } else {
            (ServiceState { users: self.users.insert(name, y), ..self }, Ok(()))
        }
    }

    /// CreateChallenge: a session for the user `name` opens under `token`,
    /// with the commitment `r` and the challenge `c`, unless the user is
    /// unknown or the token is in use.
    pub open spec fn create_challenge(
        self,
        name: Seq<char>,
        r: CredentialsView,
        token: u128,
        c: nat,
    ) -> (ServiceState, Result<(), AuthError>) {
        if !self.users.contains_key(name) {
            (self, Err(AuthError::NotFound))
        } else if self.sessions.contains_key(token) {
            (self, Err(AuthError::Internal))
        } else {
            (
                ServiceState {
                    sessions: self.sessions.insert(
                        token,
                        SessionView { id: None, user: name, r, c },
                    ),
                    ..self
                },
                Ok(()),
            )
        }
    }

    /// What the discrete-log equations say of the answer `s` to the session
    /// under `token`.
    pub open spec fn exp_verdict(self, params: GroupParameters, token: u128, s: nat) -> Result<
        (),
        AuthError,
    > {
        if !self.sessions.contains_key(token) {
            Err(AuthError::NotFound)
        } else {
            let session = self.sessions[token];
            match (self.users[session.user], session.r) {
                (CredentialsView::Exp(y1, y2), CredentialsView::Exp(r1, r2)) => {
                    if params.accepts(y1, y2, r1, r2, session.c, s) {
                        Ok(())
                    } else {
                        Err(AuthError::Unauthenticated)
                    }
                },
                _ => Err(AuthError::ProtocolMismatch),
            }
        }
    }

    /// What the curve equations say of the answer `s` to the session under
    /// `token`; `s` is absent where the request's bytes were no scalar.
    pub open spec fn k256_verdict(
        self,
        params: CurveParameters,
        token: u128,
        s: Option<nat>,
    ) -> Result<(), AuthError> {
        if s is None {
            Err(AuthError::Unauthenticated)
        } else if !self.sessions.contains_key(token) {
            Err(AuthError::NotFound)
        } else {
            let session = self.sessions[token];
            match (self.users[session.user], session.r) {
                (CredentialsView::K256(y1, y2), CredentialsView::K256(r1, r2)) => {
                    if session.c >= curve_order() {
                        Err(AuthError::ProtocolMismatch)
                    } else if params.accepts(y1, y2, r1, r2, session.c, s->0) {
                        Ok(())
                    } else {
                        Err(AuthError::Unauthenticated)
                    }
                },
                _ => Err(AuthError::ProtocolMismatch),
            }
        }
    }

    /// VerifyAnswer, once the equations have spoken: an accepted session gets the
    /// identifier `session_id`; a refusal changes nothing.
    pub open spec fn conclude(
        self,
        token: u128,
        verdict: Result<(), AuthError>,
        session_id: u128,
    ) -> (ServiceState, Result<u128, AuthError>) {
        match verdict {
            Ok(()) => (
                ServiceState {
                    sessions: self.sessions.insert(
                        token,
                        SessionView { id: Some(session_id), ..self.sessions[token] },
                    ),
                    ..self
                },
                Ok(session_id),
            ),
            Err(e) => (self, Err(e)),
        }
    }

    /// VerifyAnswer in the discrete-log variant.
    pub open spec fn verify_exp(
        self,
        params: GroupParameters,
        token: u128,
        s: nat,
        session_id: u128,
    ) -> (ServiceState, Result<u128, AuthError>) {
        self.conclude(token, self.exp_verdict(params, token, s), session_id)
    }

    /// VerifyAnswer in the curve variant.
    pub open spec fn verify_k256(
        self,
        params: CurveParameters,
        token: u128,
        s: Option<nat>,
        session_id: u128,
    ) -> (ServiceState, Result<u128, AuthError>) {
        self.conclude(token, self.k256_verdict(params, token, s), session_id)
    }
}

impl ServiceState {
    /// Whether `after` keeps all that `self` holds: every user with the same
    /// public key, and every session with the same user, commitment and
    /// challenge. Only the session identifier of a session may differ.
    pub open spec fn kept_by(self, after: ServiceState) -> bool {
        &&& forall|name: Seq<char>| #[trigger]
            self.users.contains_key(name) ==> after.users.contains_key(name) && after.users[name]
                == self.users[name]
        &&& forall|token: u128| #[trigger]
            self.sessions.contains_key(token) ==> {
                &&& after.sessions.contains_key(token)
                &&& after.sessions[token].user == self.sessions[token].user
                &&& after.sessions[token].r == self.sessions[token].r
                &&& after.sessions[token].c == self.sessions[token].c
            }
    }

    /// Whether the user of `entry` is registered with the public key of
    /// `entry`.
    pub open spec fn holds_user(self, entry: (Seq<char>, CredentialsView)) -> bool {
        self.users.contains_key(entry.0) && self.users[entry.0] == entry.1
    }

    /// The state after the registrations `entries`, made one after the other.
    pub open spec fn register_all(self, entries: Seq<(Seq<char>, CredentialsView)>) -> ServiceState
        decreases entries.len(),
    {
        if entries.len() == 0 {
            self
        } else {
            self.register_all(entries.drop_last()).register(entries.last().0, entries.last().1).0
        }
    }

    /// The state after sessions were opened for the requests `requests`, one
    /// after the other; each request holds the user, the commitment, the
    /// token drawn for it and the challenge drawn for it.
    pub open spec fn create_all(
        self,
        requests: Seq<(Seq<char>, CredentialsView, u128, nat)>,
    ) -> ServiceState
        decreases requests.len(),
    {
        if requests.len() == 0 {
            self
        } else {
            let last = requests.last();
            self.create_all(requests.drop_last()).create_challenge(last.0, last.1, last.2, last.3).0
        }
    }
}

/// Uniqueness: a second Register under a name, whatever public key it
/// brings, is refused with `AlreadyExists` and changes nothing; the name
/// keeps the public key of the first.
pub proof fn lemma_second_registration_refused(
    state: ServiceState,
    name: Seq<char>,
    first: CredentialsView,
    second: CredentialsView,
)
    ensures
        ({
            let once = state.register(name, first);
            let twice = once.0.register(name, second);
            &&& twice.1 == Err::<(), AuthError>(AuthError::AlreadyExists)
            &&& twice.0 == once.0
            &&& once.1 is Ok ==> twice.0.users[name] == first
            &&& once.1 is Err ==> twice.0.users[name] == state.users[name]
        }),
{
}

/// CreateChallenge for a user that was never registered is refused with
/// `NotFound` and changes nothing.
pub proof fn lemma_unknown_user_not_found(
    state: ServiceState,
    name: Seq<char>,
    r: CredentialsView,
    token: u128,
    c: nat,
)
    requires
        !state.users.contains_key(name),
    ensures
        state.create_challenge(name, r, token, c) == (
            state,
            Err::<(), AuthError>(AuthError::NotFound),
        ),
{
}

/// VerifyAnswer for a token that was never issued is refused with `NotFound`
/// and changes nothing; in the curve variant, where the answer is a scalar at
/// all.
pub proof fn lemma_unknown_token_not_found(
    state: ServiceState,
    group: GroupParameters,
    curve: CurveParameters,
    token: u128,
    s: nat,
    session_id: u128,
)
    requires
        !state.sessions.contains_key(token),
    ensures
        state.verify_exp(group, token, s, session_id) == (
            state,
            Err::<u128, AuthError>(AuthError::NotFound),
        ),
        state.verify_k256(curve, token, Some(s), session_id) == (
            state,
            Err::<u128, AuthError>(AuthError::NotFound),
        ),
{
}

/// Variant isolation: a session whose commitment, or whose user's public
/// key, is of the other variant is never accepted, whatever the answer, and
/// the refusal changes nothing.
pub proof fn lemma_variants_do_not_mix(
    state: ServiceState,
    group: GroupParameters,
    curve: CurveParameters,
    token: u128,
    s: nat,
    answer: Option<nat>,
    session_id: u128,
)
    requires
        state.sessions.contains_key(token),
    ensures
        ({
            let session = state.sessions[token];
            let y = state.users[session.user];
            let mismatch = Err::<u128, AuthError>(AuthError::ProtocolMismatch);
            let by_curve = state.verify_k256(curve, token, answer, session_id);
            &&& (session.r is K256 || y is K256) ==> state.verify_exp(group, token, s, session_id)
                == (state, mismatch)
            &&& (session.r is Exp || y is Exp) ==> {
                &&& by_curve.0 == state
                &&& by_curve.1 is Err
                &&& answer is Some ==> by_curve.1 == mismatch
            }
        }),
{
}

/// Register keeps every user and every session, and keeps the state
/// consistent.
pub proof fn lemma_register_keeps(state: ServiceState, name: Seq<char>, y: CredentialsView)
    ensures
        state.kept_by(state.register(name, y).0),
        state.consistent() ==> state.register(name, y).0.consistent(),
{
    let after = state.register(name, y).0;
    if state.consistent() {
        assert forall|token: u128| #[trigger]
            after.sessions.contains_key(token) implies after.users.contains_key(
            after.sessions[token].user,
        ) by {
            assert(state.sessions.contains_key(token));
        }
    }
}

/// CreateChallenge keeps every user and every session, keeps the state
/// consistent, and opens its session under a token that was free.
pub proof fn lemma_create_challenge_keeps(
    state: ServiceState,
    name: Seq<char>,
    r: CredentialsView,
    token: u128,
    c: nat,
)
    ensures
        state.kept_by(state.create_challenge(name, r, token, c).0),
        state.consistent() ==> state.create_challenge(name, r, token, c).0.consistent(),
        state.create_challenge(name, r, token, c).1 is Ok ==> {
            &&& !state.sessions.contains_key(token)
            &&& state.create_challenge(name, r, token, c).0.sessions[token] == SessionView {
                id: None,
                user: name,
                r,
                c,
            }
        },
{
    let after = state.create_challenge(name, r, token, c).0;
    if state.consistent() {
        assert forall|t: u128| #[trigger]
            after.sessions.contains_key(t) implies after.users.contains_key(
            after.sessions[t].user,
        ) by {
            if t != token {
                assert(state.sessions.contains_key(t));
            }
        }
    }
}

/// VerifyAnswer keeps every user and every session but for the session
/// identifier, and keeps the state consistent: the commitment and the
/// challenge of a session never change.
pub proof fn lemma_conclude_keeps(
    state: ServiceState,
    token: u128,
    verdict: Result<(), AuthError>,
    session_id: u128,
)
    requires
        verdict is Ok ==> state.sessions.contains_key(token),
    ensures
        state.kept_by(state.conclude(token, verdict, session_id).0),
        state.consistent() ==> state.conclude(token, verdict, session_id).0.consistent(),
        state.conclude(token, verdict, session_id).1 is Ok <==> verdict is Ok,
{
    let after = state.conclude(token, verdict, session_id).0;
    if state.consistent() {
        assert forall|t: u128| #[trigger]
            after.sessions.contains_key(t) implies after.users.contains_key(
            after.sessions[t].user,
        ) by {
            assert(state.sessions.contains_key(t));
        }
    }
}

/// Registrations under names that are new and differ from one another all
/// succeed, and afterwards each name has the public key it was registered
/// with.
pub proof fn lemma_distinct_registrations_succeed(
    state: ServiceState,
    entries: Seq<(Seq<char>, CredentialsView)>,
)
    requires
        forall|i: int|
            0 <= i < entries.len() ==> !state.users.contains_key(#[trigger] entries[i].0),
        forall|i: int, j: int|
            0 <= i < j < entries.len() ==> #[trigger] entries[i].0 != #[trigger] entries[j].0,
    ensures
        forall|i: int|
            0 <= i < entries.len() ==> #[trigger] state.register_all(entries.take(i)).register(
                entries[i].0,
                entries[i].1,
            ).1 is Ok,
        forall|i: int|
            0 <= i < entries.len() ==> state.register_all(entries).holds_user(
                #[trigger] entries[i],
            ),
        forall|name: Seq<char>|
            state.register_all(entries).users.contains_key(name) ==> state.users.contains_key(name)
                || exists|i: int| 0 <= i < entries.len() && #[trigger] entries[i].0 == name,
        state.kept_by(state.register_all(entries)),
    decreases entries.len(),
{
    if entries.len() > 0 {
        let front = entries.drop_last();
        let last = entries.len() - 1;
        let before = state.register_all(front);
        lemma_distinct_registrations_succeed(state, front);
        assert(entries.take(last) =~= front);
        assert(!before.users.contains_key(entries[last].0)) by {
            if before.users.contains_key(entries[last].0) {
                let i = choose|i: int|
                    0 <= i < front.len() && #[trigger] front[i].0 == entries[last].0;
                assert(entries[i].0 != entries[last].0);
            }
        }
        assert forall|i: int| 0 <= i < entries.len() implies #[trigger] state.register_all(
            entries.take(i),
        ).register(entries[i].0, entries[i].1).1 is Ok by {
            if i < last {
                assert(entries.take(i) =~= front.take(i));
                assert(front[i] == entries[i]);
            }
        }
        let after = state.register_all(entries);
        assert(after == before.register(entries[last].0, entries[last].1).0);
        assert forall|i: int| 0 <= i < entries.len() implies after.holds_user(
            #[trigger] entries[i],
        ) by {
            if i < last {
                assert(front[i] == entries[i]);
                assert(entries[i].0 != entries[last].0);
                assert(before.holds_user(front[i]));
            }
        }
        assert forall|name: Seq<char>|
            after.users.contains_key(name) implies state.users.contains_key(name) || exists|i: int|
            0 <= i < entries.len() && #[trigger] entries[i].0 == name by {
            if name == entries[last].0 {
            } else if !state.users.contains_key(name) {
                let i = choose|i: int| 0 <= i < front.len() && #[trigger] front[i].0 == name;
                assert(entries[i].0 == name);
            }
        }
        lemma_register_keeps(before, entries[last].0, entries[last].1);
    } else {
        assert(entries.take(0) =~= entries);
    }
}

/// Sessions that were opened one after the other, each with success, have
/// tokens that differ from one another, and each session is still there
/// afterwards under its token.
pub proof fn lemma_issued_tokens_differ(
    state: ServiceState,
    requests: Seq<(Seq<char>, CredentialsView, u128, nat)>,
)
    requires
        forall|i: int|
            0 <= i < requests.len() ==> #[trigger] state.create_all(
                requests.take(i),
            ).create_challenge(requests[i].0, requests[i].1, requests[i].2, requests[i].3).1 is Ok,
    ensures
        forall|i: int, j: int|
            0 <= i < j < requests.len() ==> #[trigger] requests[i].2 != #[trigger] requests[j].2,
        forall|i: int|
            0 <= i < requests.len() ==> state.create_all(requests).sessions.contains_key(
                #[trigger] requests[i].2,
            ),
        state.kept_by(state.create_all(requests)),
    decreases requests.len(),
{
    if requests.len() > 0 {
        let front = requests.drop_last();
        let last = requests.len() - 1;
        let before = state.create_all(front);
        assert(requests.take(last) =~= front);
        assert forall|i: int| 0 <= i < front.len() implies #[trigger] state.create_all(
            front.take(i),
        ).create_challenge(front[i].0, front[i].1, front[i].2, front[i].3).1 is Ok by {
            assert(requests.take(i) =~= front.take(i));
            assert(front[i] == requests[i]);
            assert(state.create_all(requests.take(i)).create_challenge(
                requests[i].0,
                requests[i].1,
                requests[i].2,
                requests[i].3,
            ).1 is Ok);
        }
        lemma_issued_tokens_differ(state, front);
        assert(before.create_challenge(
            requests[last].0,
            requests[last].1,
            requests[last].2,
            requests[last].3,
        ).1 is Ok);
        lemma_create_challenge_keeps(
            before,
            requests[last].0,
            requests[last].1,
            requests[last].2,
            requests[last].3,
        );
        assert forall|i: int, j: int| 0 <= i < j < requests.len() implies #[trigger] requests[i].2
            != #[trigger] requests[j].2 by {
            assert(front[i] == requests[i]);
            if j < last {
                assert(front[j] == requests[j]);
            } else {
                assert(before.sessions.contains_key(front[i].2));
            }
        }
        let after = state.create_all(requests);
        assert forall|i: int| 0 <= i < requests.len() implies after.sessions.contains_key(
            #[trigger] requests[i].2,
        ) by {
            if i < last {
                assert(front[i] == requests[i]);
                assert(before.sessions.contains_key(front[i].2));
            }
        }
    }
}

/// An honest prover is let in: with valid parameters, where the user's
/// public key is that of the secret exponent `x`, and the session holds the
/// commitment of the nonce `k` and the challenge `c`, the answer computed
/// from `x`, `k` and `c` is accepted and the session gets its identifier.
pub proof fn lemma_honest_prover_is_let_in(
    state: ServiceState,
    group: GroupParameters,
    token: u128,
    x: nat,
    k: nat,
    session_id: u128,
)
    requires
        group.valid(),
        state.sessions.contains_key(token),
        state.users[state.sessions[token].user] == CredentialsView::Exp(
            group.powers(x).0,
            group.powers(x).1,
        ),
        state.sessions[token].r == CredentialsView::Exp(group.powers(k).0, group.powers(k).1),
    ensures
        state.verify_exp(
            group,
            token,
            group.response(x, k, state.sessions[token].c),
            session_id,
        ).1 == Ok::<u128, AuthError>(session_id),
        state.verify_exp(
            group,
            token,
            group.response(x, k, state.sessions[token].c),
            session_id,
        ).0.sessions[token].id == Some(session_id),
{
    crate::discrete_log::lemma_honest_answer_accepted(group, x, k, state.sessions[token].c);
}

} // verus!

//! The authentication service: the three requests of each variant of the
//! protocol, run against the two stores.

use crate::credentials::Credentials;
use crate::credentials::CredentialsView;
use crate::credentials::Session;
use crate::curve::compressed;
use crate::curve::curve_order;
use crate::curve::decompresses;
use crate::curve::CurvePoint;
use crate::curve::CurveScalar;
use crate::discrete_log::ChaumPedersen;
use crate::discrete_log::GroupParameters;
use crate::elliptic::ChaumPedersenK256;
use crate::elliptic::CurveParameters;
use crate::error::AuthError;
use crate::machine::ServiceState;
use crate::natural::be_nat;
use crate::natural::is_minimal;
use crate::natural::BigNat;
use crate::store::CredentialStore;
use crate::store::SessionStore;
use crate::token::fresh_uuid;
use crate::token::uuid_from_str;
use crate::token::uuid_parse;
use crate::token::uuid_text;
use crate::token::uuid_to_string;
use vstd::pervasive::unreached;
use vstd::prelude::*;
use vstd::slice::slice_to_vec;

verus! {

/// A point of the curve as a request carries it: the x-coordinate and the
/// parity of y.
#[derive(Debug)]
pub struct WirePoint {
    pub x: Vec<u8>,
    pub is_y_odd: bool,
}

impl Clone for WirePoint {
    fn clone(&self) -> (r: WirePoint)
        ensures
            r.x@ == self.x@,
            r.is_y_odd == self.is_y_odd,
    {
        WirePoint { x: self.x.clone(), is_y_odd: self.is_y_odd }
    }
}

impl WirePoint {
    /// The point `point` as a request carries it. But for the point at
    /// infinity, which no request can carry, the result decodes to `point`
    /// again.
    pub fn from_point(point: &CurvePoint) -> (r: WirePoint)
        ensures
            r.x@ == point@.subrange(1, 33),
            r.is_y_odd == (point@[0] == 3),
            point@[0] != 0 ==> point_decodes(r) && compressed(r.x@, r.is_y_odd) == point@,
    {
        let x = point.x();
        let r = WirePoint { x: slice_to_vec(x.as_slice()), is_y_odd: point.y_is_odd() };
        proof {
            if point@[0] != 0 {
                assert(point@ != crate::curve::infinity_encoding());
                assert(compressed(r.x@, r.is_y_odd) =~= point@);
            }
        }
        r
    }
}

/// Whether the carried point stands for a point of the curve.
pub open spec fn point_decodes(point: WirePoint) -> bool {
    point.x@.len() == 32 && decompresses(point.x@, point.is_y_odd)
}

/// The pair of points that a request carries: `MissingArgument` where one is
/// absent, `InvalidArgument` where one stands for no point of the curve.
pub open spec fn decode_points(a: Option<WirePoint>, b: Option<WirePoint>) -> Result<
    CredentialsView,
    AuthError,
> {
    match (a, b) {
        (Some(a), Some(b)) => {
            if point_decodes(a) && point_decodes(b) {
                Ok(
                    CredentialsView::K256(
                        compressed(a.x@, a.is_y_odd),
                        compressed(b.x@, b.is_y_odd),
                    ),
                )
            } else {
                Err(AuthError::InvalidArgument)
            }
        },
        _ => Err(AuthError::MissingArgument),
    }
}

/// The scalar that the bytes of a request write, if they write one: 32 bytes
/// whose number is below the group order.
pub open spec fn decode_scalar(bytes: Seq<u8>) -> Option<nat> {
    if bytes.len() == 32 && be_nat(bytes) < curve_order() {
        Some(be_nat(bytes))
    } else {
        None
    }
}

/// Decodes the pair of points that a request carries.
pub fn decode_point_pair(a: &Option<WirePoint>, b: &Option<WirePoint>) -> (r: Result<
    Credentials,
    AuthError,
>)
    ensures
        match r {
            Ok(pair) => decode_points(*a, *b) == Ok::<CredentialsView, AuthError>(pair@),
            Err(e) => decode_points(*a, *b) == Err::<CredentialsView, AuthError>(e),
        },
{
    match (a, b) {
        (Some(a), Some(b)) => {
            let first = CurvePoint::decompress(a.x.as_slice(), a.is_y_odd);
            let second = CurvePoint::decompress(b.x.as_slice(), b.is_y_odd);
            match (first, second) {
                (Some(p), Some(q)) => Ok(Credentials::K256(p, q)),
                _ => Err(AuthError::InvalidArgument),
            }
        },
        _ => Err(AuthError::MissingArgument),
    }
}

/// Whether the reply `reply` to CreateChallenge and the state `after` are what
/// the transition `step` asks for, with the token `token` and the challenge
/// bytes `c_bytes`.
pub open spec fn challenge_reply_fits(
    step: (ServiceState, Result<(), AuthError>),
    after: ServiceState,
    reply: Result<(String, Vec<u8>), AuthError>,
    token: u128,
    c_bytes: Seq<u8>,
) -> bool {
    &&& after == step.0
    &&& match reply {
        Ok(sent) => {
            &&& step.1 is Ok
            &&& sent.0@ == uuid_text(token)
            &&& uuid_parse(sent.0@) == Some(token)
            &&& sent.1@ == c_bytes
        },
        Err(e) => step.1 == Err::<(), AuthError>(e),
    }
}

/// Whether the reply `reply` to VerifyAnswer and the state `after` are what the
/// transition `step` asks for.
pub open spec fn answer_reply_fits(
    step: (ServiceState, Result<u128, AuthError>),
    after: ServiceState,
    reply: Result<String, AuthError>,
) -> bool {
    &&& after == step.0
    &&& match reply {
        Ok(text) => step.1 matches Ok(session_id) && text@ == uuid_text(session_id) && uuid_parse(
            text@,
        ) == Some(session_id),
        Err(e) => step.1 == Err::<u128, AuthError>(e),
    }
}

/// The authentication service. Its view is the state of its two stores.
#[derive(Debug)]
pub struct API {
    users: CredentialStore,
    sessions: SessionStore,
    protocol: ChaumPedersen,
    protocol_k256: ChaumPedersenK256,
}

impl View for API {
    type V = ServiceState;

    closed spec fn view(&self) -> ServiceState {
        ServiceState { users: self.users@, sessions: self.sessions@ }
    }
}

impl API {
    /// The group of the discrete-log variant.
    pub closed spec fn parameters(&self) -> GroupParameters {
        self.protocol@
    }

    /// The generators of the curve variant.
    pub closed spec fn curve_parameters(&self) -> CurveParameters {
        self.protocol_k256@
    }

    /// Whether the service is in order: every session is for a registered
    /// user, and the two moduli of the group are positive.
    pub open spec fn wf(&self) -> bool {
        &&& self@.consistent()
        &&& self.parameters().p > 0
        &&& self.parameters().q > 0
    }

    /// Whether the two services run the same two engines.
    pub open spec fn same_engines(&self, other: &API) -> bool {
        &&& self.parameters() == other.parameters()
        &&& self.curve_parameters() == other.curve_parameters()
    }

    /// A service without users and sessions that runs the two engines.
    pub fn new(protocol: ChaumPedersen, protocol_k256: ChaumPedersenK256) -> (r: API)
        requires
            protocol@.p > 0,
            protocol@.q > 0,
        ensures
            r.wf(),
            r@ == ServiceState::empty(),
            r.parameters() == protocol@,
            r.curve_parameters() == protocol_k256@,
    {
        API {
            users: CredentialStore::new(),
            sessions: SessionStore::new(),
            protocol,
            protocol_k256,
        }
    }

    /// Whether the user `name` is registered.
    pub fn is_registered(&self, name: &str) -> (r: bool)
        ensures
            r == self@.users.contains_key(name@),
    {
        self.users.contains(name)
    }

    /// The public key of the user `name`; `NotFound` where the name is not
    /// registered.
    pub fn public_key(&self, name: &str) -> (r: Result<Credentials, AuthError>)
        ensures
            r is Ok <==> self@.users.contains_key(name@),
            r matches Ok(y) ==> y@ == self@.users[name@],
            r matches Err(e) ==> e == AuthError::NotFound,
    {
        match self.users.lookup(name) {
            Ok(y) => Ok(y.clone()),
            Err(e) => Err(e),
        }
    }

    /// The session under `token`; `NotFound` where there is none.
    pub fn session(&self, token: u128) -> (r: Result<Session, AuthError>)
        ensures
            r is Ok <==> self@.sessions.contains_key(token),
            r matches Ok(session) ==> session@ == self@.sessions[token],
            r matches Err(e) ==> e == AuthError::NotFound,
    {
        match self.sessions.lookup(token) {
            Ok(session) => Ok(session.clone()),
            Err(e) => Err(e),
        }
    }

    /// Stores the public key `y` for the user `name`, unless the name is
    /// taken.
    fn enroll(&mut self, name: &str, y: Credentials) -> (r: Result<(), AuthError>)
        requires
            old(self).wf(),
        ensures
            final(self).wf(),
            final(self).same_engines(old(self)),
            (final(self)@, r) == old(self)@.register(name@, y@),
    {
        let r = self.users.insert(name, y);
        assert(r is Ok ==> r->Ok_0 == ());
        r
    }

    /// Register in the discrete-log variant: stores the numbers that `y1` and
    /// `y2` write as the public key of `user`; `AlreadyExists` where the name
    /// is taken.
    pub fn register(&mut self, user: &str, y1: &[u8], y2: &[u8]) -> (r: Result<(), AuthError>)
        requires
            old(self).wf(),
        ensures
            final(self).wf(),
            final(self).same_engines(old(self)),
            (final(self)@, r) == old(self)@.register(
                user@,
                CredentialsView::Exp(be_nat(y1@), be_nat(y2@)),
            ),
    {
        let y = Credentials::Exp(BigNat::from_bytes_be(y1), BigNat::from_bytes_be(y2));
        self.enroll(user, y)
    }

    /// Register in the curve variant: stores the points `y1` and `y2` as the
    /// public key of `user`. A missing or undecodable point is refused before
    /// the name is looked at.
    pub fn k256_register(
        &mut self,
        user: &str,
        y1: &Option<WirePoint>,
        y2: &Option<WirePoint>,
    ) -> (r: Result<(), AuthError>)
        requires
            old(self).wf(),
        ensures
            final(self).wf(),
            final(self).same_engines(old(self)),
            match decode_points(*y1, *y2) {
                Ok(y) => (final(self)@, r) == old(self)@.register(user@, y),
                Err(e) => final(self)@ == old(self)@ && r == Err::<(), AuthError>(e),
            },
    {
        match decode_point_pair(y1, y2) {
            Ok(y) => self.enroll(user, y),
            Err(e) => Err(e),
        }
    }

    /// Opens a session for `user` under `token` and returns the token's text
    /// with `c_bytes`.
    fn open_session(
        &mut self,
        user: &str,
        r: Credentials,
        token: u128,
        c: BigNat,
        c_bytes: Vec<u8>,
    ) -> (reply: Result<(String, Vec<u8>), AuthError>)
        requires
            old(self).wf(),
        ensures
            final(self).wf(),
            final(self).same_engines(old(self)),
            challenge_reply_fits(
                old(self)@.create_challenge(user@, r@, token, c@),
                final(self)@,
                reply,
                token,
                c_bytes@,
            ),
    {
        if !self.users.contains(user) {
            return Err(AuthError::NotFound);
        }
        match self.sessions.create_with(token, user, r, c) {
            Ok(()) => {
                assert(self@.consistent()) by {
                    assert forall|t: u128| #[trigger]
                        self@.sessions.contains_key(t) implies self@.users.contains_key(
                        self@.sessions[t].user,
                    ) by {
                        if t != token {
                            assert(old(self)@.sessions.contains_key(t));
                        }
                    }
                }
                Ok((uuid_to_string(token), c_bytes))
            },
            Err(e) => Err(e),
        }
    }

    /// CreateChallenge in the discrete-log variant, with the two draws handed
    /// in: the session opens under `token` with the challenge `c`. The reply
    /// holds the token's text and the shortest big-endian writing of the
    /// challenge.
    pub fn create_authentication_challenge_with(
        &mut self,
        user: &str,
        r1: &[u8],
        r2: &[u8],
        token: u128,
        c: BigNat,
    ) -> (reply: Result<(String, Vec<u8>), AuthError>)
        requires
            old(self).wf(),
        ensures
            final(self).wf(),
            final(self).same_engines(old(self)),
            ({
                let step = old(self)@.create_challenge(
                    user@,
                    CredentialsView::Exp(be_nat(r1@), be_nat(r2@)),
                    token,
                    c@,
                );
                &&& final(self)@ == step.0
                &&& match reply {
                    Ok(sent) => {
                        &&& step.1 is Ok
                        &&& sent.0@ == uuid_text(token)
                        &&& uuid_parse(sent.0@) == Some(token)
                        &&& be_nat(sent.1@) == c@
                        &&& is_minimal(sent.1@)
                    },
                    Err(e) => step.1 == Err::<(), AuthError>(e),
                }
            }),
    {
        let c_bytes = c.to_bytes_be();
        let r = Credentials::Exp(BigNat::from_bytes_be(r1), BigNat::from_bytes_be(r2));
        self.open_session(user, r, token, c, c_bytes)
    }

    /// CreateChallenge in the discrete-log variant: `NotFound` where `user`
    /// is unknown; else a session opens under a freshly drawn token with a
    /// freshly drawn challenge below `q`, and the reply holds the token's
    /// text and the challenge's bytes. `Internal` where the drawn token is in
    /// use, which it cannot be while there is no session. A refusal changes
    /// nothing.
    pub fn create_authentication_challenge(&mut self, user: &str, r1: &[u8], r2: &[u8]) -> (reply:
        Result<(String, Vec<u8>), AuthError>)
        requires
            old(self).wf(),
        ensures
            final(self).wf(),
            final(self).same_engines(old(self)),
            old(self)@.users.contains_key(user@) && (forall|t: u128|
                !old(self)@.sessions.contains_key(t)) ==> reply is Ok,
            match reply {
                Ok(sent) => {
                    &&& uuid_parse(sent.0@) matches Some(token)
                    &&& sent.0@ == uuid_text(token)
                    &&& be_nat(sent.1@) < old(self).parameters().q
                    &&& is_minimal(sent.1@)
                    &&& old(self)@.create_challenge(
                        user@,
                        CredentialsView::Exp(be_nat(r1@), be_nat(r2@)),
                        token,
                        be_nat(sent.1@),
                    ) == (final(self)@, Ok::<(), AuthError>(()))
                },
                Err(e) => {
                    &&& final(self)@ == old(self)@
                    &&& e == AuthError::NotFound || e == AuthError::Internal
                    &&& e == AuthError::NotFound <==> !old(self)@.users.contains_key(user@)
                },
            },
    {
        if !self.users.contains(user) {
            return Err(AuthError::NotFound);
        }
        let c = self.protocol.challenge();
        self.create_authentication_challenge_with(user, r1, r2, fresh_uuid(), c)
    }

    /// Opens a session of the curve variant for `user` under `token`, with
    /// the commitment `r` and the challenge `c`.
    fn k256_open_session(
        &mut self,
        user: &str,
        r: Credentials,
        token: u128,
        c: CurveScalar,
    ) -> (reply: Result<(String, Vec<u8>), AuthError>)
        requires
            old(self).wf(),
        ensures
            final(self).wf(),
            final(self).same_engines(old(self)),
            final(self)@ == old(self)@.create_challenge(user@, r@, token, c@).0,
            match reply {
                Ok(sent) => {
                    &&& old(self)@.create_challenge(user@, r@, token, c@).1 is Ok
                    &&& sent.0@ == uuid_text(token)
                    &&& uuid_parse(sent.0@) == Some(token)
                    &&& sent.1@.len() == 32
                    &&& be_nat(sent.1@) == c@
                },
                Err(e) => old(self)@.create_challenge(user@, r@, token, c@).1 == Err::<
                    (),
                    AuthError,
                >(e),
            },
    {
        let repr = c.to_repr();
        let c_bytes = slice_to_vec(repr.as_slice());
        self.open_session(user, r, token, BigNat::from_bytes_be(repr.as_slice()), c_bytes)
    }

    /// CreateChallenge in the curve variant, with the two draws handed in:
    /// the session opens under `token` with the challenge `c`. The reply
    /// holds the token's text and the challenge's 32 bytes. A missing or
    /// undecodable point is refused before the name is looked at.
    pub fn k256_create_authentication_challenge_with(
        &mut self,
        user: &str,
        r1: &Option<WirePoint>,
        r2: &Option<WirePoint>,
        token: u128,
        c: CurveScalar,
    ) -> (reply: Result<(String, Vec<u8>), AuthError>)
        requires
            old(self).wf(),
        ensures
            final(self).wf(),
            final(self).same_engines(old(self)),
            match decode_points(*r1, *r2) {
                Ok(r) => {
                    let step = old(self)@.create_challenge(user@, r, token, c@);
                    &&& final(self)@ == step.0
                    &&& match reply {
                        Ok(sent) => {
                            &&& step.1 is Ok
                            &&& sent.0@ == uuid_text(token)
                            &&& uuid_parse(sent.0@) == Some(token)
                            &&& sent.1@.len() == 32
                            &&& be_nat(sent.1@) == c@
                        },
                        Err(e) => step.1 == Err::<(), AuthError>(e),
                    }
                },
                Err(e) => {
                    &&& final(self)@ == old(self)@
                    &&& reply == Err::<(String, Vec<u8>), AuthError>(e)
                },
            },
    {
        match decode_point_pair(r1, r2) {
            Ok(r) => self.k256_open_session(user, r, token, c),
            Err(e) => Err(e),
        }
    }

    /// CreateChallenge in the curve variant: a missing or undecodable point
    /// is refused first, then an unknown `user` with `NotFound`; else a
    /// session opens under a freshly drawn token with a challenge freshly
    /// drawn from the whole scalar field, and the reply holds the token's
    /// text and the challenge's 32 bytes. `Internal` where the drawn token is
    /// in use, which it cannot be while there is no session. A refusal
    /// changes nothing.
    pub fn k256_create_authentication_challenge(
        &mut self,
        user: &str,
        r1: &Option<WirePoint>,
        r2: &Option<WirePoint>,
    ) -> (reply: Result<(String, Vec<u8>), AuthError>)
        requires
            old(self).wf(),
        ensures
            final(self).wf(),
            final(self).same_engines(old(self)),
            decode_points(*r1, *r2) is Ok && old(self)@.users.contains_key(user@) && (forall|
                t: u128,
            | !old(self)@.sessions.contains_key(t)) ==> reply is Ok,
            match reply {
                Ok(sent) => {
                    &&& decode_points(*r1, *r2) matches Ok(r)
                    &&& uuid_parse(sent.0@) matches Some(token)
                    &&& sent.0@ == uuid_text(token)
                    &&& sent.1@.len() == 32
                    &&& be_nat(sent.1@) < curve_order()
                    &&& old(self)@.create_challenge(user@, r, token, be_nat(sent.1@)) == (
                        final(self)@,
                        Ok::<(), AuthError>(()),
                    )
                },
                Err(e) => {
                    &&& final(self)@ == old(self)@
                    &&& match decode_points(*r1, *r2) {
                        Ok(r) => {
                            &&& e == AuthError::NotFound || e == AuthError::Internal
                            &&& e == AuthError::NotFound <==> !old(self)@.users.contains_key(user@)
                        },
                        Err(refusal) => e == refusal,
                    }
                },
            },
    {
        match decode_point_pair(r1, r2) {
            Ok(r) => {
                if !self.users.contains(user) {
                    return Err(AuthError::NotFound);
                }
                let c = self.protocol_k256.challenge();
                self.k256_open_session(user, r, fresh_uuid(), c)
            },
            Err(e) => Err(e),
        }
    }

    /// What the discrete-log equations say of the answer `s` to the session
    /// under `token`.
    fn exp_judge(&self, token: u128, s: &BigNat) -> (verdict: Result<(), AuthError>)
        requires
            self.wf(),
        ensures
            verdict == self@.exp_verdict(self.parameters(), token, s@),
    {
        let session = match self.sessions.lookup(token) {
            Ok(session) => session,
            Err(e) => {
                return Err(e);
            },
        };
        let y = match self.users.lookup(session.user.as_str()) {
            Ok(y) => y,
            Err(_) => unreached(),
        };
        match (y, &session.r) {
            (Credentials::Exp(y1, y2), Credentials::Exp(r1, r2)) => {
                if self.protocol.verify(y1, y2, r1, r2, &session.c, s) {
                    Ok(())
                } else {
                    Err(AuthError::Unauthenticated)
                }
            },
            _ => Err(AuthError::ProtocolMismatch),
        }
    }

    /// What the curve equations say of the answer that the bytes `s` write to
    /// the session under `token`.
    fn k256_judge(&self, token: u128, s: &[u8]) -> (verdict: Result<(), AuthError>)
        requires
            self.wf(),
        ensures
            verdict == self@.k256_verdict(self.curve_parameters(), token, decode_scalar(s@)),
    {
        let s = match CurveScalar::from_repr(s) {
            Some(s) => s,
            None => {
                return Err(AuthError::Unauthenticated);
            },
        };
        let session = match self.sessions.lookup(token) {
            Ok(session) => session,
            Err(e) => {
                return Err(e);
            },
        };
        let y = match self.users.lookup(session.user.as_str()) {
            Ok(y) => y,
            Err(_) => unreached(),
        };
        match (y, &session.r, CurveScalar::from_natural(&session.c)) {
            (Credentials::K256(y1, y2), Credentials::K256(r1, r2), Some(c)) => {
                if self.protocol_k256.verify(y1, y2, r1, r2, &c, &s) {
                    Ok(())
                } else {
                    Err(AuthError::Unauthenticated)
                }
            },
            _ => Err(AuthError::ProtocolMismatch),
        }
    }

    /// Ends VerifyAnswer: marks the session under `token` with `session_id`
    /// where the verdict accepts, and changes nothing where it refused.
    fn conclude(&mut self, token: u128, verdict: Result<(), AuthError>, session_id: u128) -> (reply:
        Result<String, AuthError>)
        requires
            old(self).wf(),
            verdict is Ok ==> old(self)@.sessions.contains_key(token),
        ensures
            final(self).wf(),
            final(self).same_engines(old(self)),
            answer_reply_fits(
                old(self)@.conclude(token, verdict, session_id),
                final(self)@,
                reply,
            ),
    {
        match verdict {
            Ok(()) => {
                match self.sessions.mark_verified(token, session_id) {
                    Ok(()) => {
                        assert(self@.consistent()) by {
                            assert forall|t: u128| #[trigger]
                                self@.sessions.contains_key(t) implies self@.users.contains_key(
                                self@.sessions[t].user,
                            ) by {
                                assert(old(self)@.sessions.contains_key(t));
                            }
                        }
                        Ok(uuid_to_string(session_id))
                    },
                    Err(_) => unreached(),
                }
            },
            Err(e) => Err(e),
        }
    }

    /// VerifyAnswer in the discrete-log variant, with the parsed token and
    /// the draw handed in: `NotFound` where no session is under `token`,
    /// `ProtocolMismatch` where the session or its user's key is of the curve
    /// variant, `Unauthenticated` where the number that `s` writes does not
    /// fit; else the session is marked with `session_id`, whose text is
    /// returned. A refusal changes nothing.
    pub fn verify_authentication_with(&mut self, token: u128, s: &[u8], session_id: u128) -> (reply:
        Result<String, AuthError>)
        requires
            old(self).wf(),
        ensures
            final(self).wf(),
            final(self).same_engines(old(self)),
            answer_reply_fits(
                old(self)@.verify_exp(old(self).parameters(), token, be_nat(s@), session_id),
                final(self)@,
                reply,
            ),
    {
        let verdict = self.exp_judge(token, &BigNat::from_bytes_be(s));
        self.conclude(token, verdict, session_id)
    }

    /// VerifyAnswer in the discrete-log variant, for a token text that is the
    /// text of an identifier: as `verify_authentication_with`, with a freshly
    /// drawn session identifier.
    pub fn verify_authentication(&mut self, auth_id: &str, s: &[u8]) -> (reply: Result<
        String,
        AuthError,
    >)
        requires
            old(self).wf(),
            uuid_parse(auth_id@) is Some,
        ensures
            final(self).wf(),
            final(self).same_engines(old(self)),
            match reply {
                Ok(text) => uuid_parse(text@) matches Some(session_id) && answer_reply_fits(
                    old(self)@.verify_exp(
                        old(self).parameters(),
                        uuid_parse(auth_id@)->0,
                        be_nat(s@),
                        session_id,
                    ),
                    final(self)@,
                    reply,
                ),
                Err(e) => final(self)@ == old(self)@ && old(self)@.exp_verdict(
                    old(self).parameters(),
                    uuid_parse(auth_id@)->0,
                    be_nat(s@),
                ) == Err::<(), AuthError>(e),
            },
    {
        match uuid_from_str(auth_id) {
            Some(token) => self.verify_authentication_with(token, s, fresh_uuid()),
            None => unreached(),
        }
    }

    /// VerifyAnswer in the discrete-log variant, for any token text: nothing
    /// is returned and nothing changes where `auth_id` is not the text of an
    /// identifier; else as `verify_authentication`.
    pub fn try_verify_authentication(&mut self, auth_id: &str, s: &[u8]) -> (reply: Option<
        Result<String, AuthError>,
    >)
        requires
            old(self).wf(),
        ensures
            final(self).wf(),
            final(self).same_engines(old(self)),
            reply is None <==> uuid_parse(auth_id@) is None,
            match reply {
                None => final(self)@ == old(self)@,
                Some(Ok(text)) => uuid_parse(text@) matches Some(session_id) && answer_reply_fits(
                    old(self)@.verify_exp(
                        old(self).parameters(),
                        uuid_parse(auth_id@)->0,
                        be_nat(s@),
                        session_id,
                    ),
                    final(self)@,
                    Ok::<String, AuthError>(text),
                ),
                Some(Err(e)) => final(self)@ == old(self)@ && old(self)@.exp_verdict(
                    old(self).parameters(),
                    uuid_parse(auth_id@)->0,
                    be_nat(s@),
                ) == Err::<(), AuthError>(e),
            },
    {
        if uuid_from_str(auth_id).is_some() {
            Some(self.verify_authentication(auth_id, s))
        } else {
            None
        }
    }

    /// VerifyAnswer in the curve variant, with the parsed token and the draw
    /// handed in: `Unauthenticated` where `s` writes no scalar, then
    /// `NotFound` where no session is under `token`, `ProtocolMismatch` where
    /// the session or its user's key is of the discrete-log variant,
    /// `Unauthenticated` where the scalar does not fit; else the session is
    /// marked with `session_id`, whose text is returned. A refusal changes
    /// nothing.
    pub fn k256_verify_authentication_with(
        &mut self,
        token: u128,
        s: &[u8],
        session_id: u128,
    ) -> (reply: Result<String, AuthError>)
        requires
            old(self).wf(),
        ensures
            final(self).wf(),
            final(self).same_engines(old(self)),
            answer_reply_fits(
                old(self)@.verify_k256(
                    old(self).curve_parameters(),
                    token,
                    decode_scalar(s@),
                    session_id,
                ),
                final(self)@,
                reply,
            ),
    {
        let verdict = self.k256_judge(token, s);
        self.conclude(token, verdict, session_id)
    }

    /// VerifyAnswer in the curve variant, for a token text: bytes `s` that
    /// write no scalar are refused with `Unauthenticated` before the token is
    /// read; else the token text must be the text of an identifier, and the
    /// call is `k256_verify_authentication_with` with a freshly drawn session
    /// identifier.
    pub fn k256_verify_authentication(&mut self, auth_id: &str, s: &[u8]) -> (reply: Result<
        String,
        AuthError,
    >)
        requires
            old(self).wf(),
            decode_scalar(s@) is Some ==> uuid_parse(auth_id@) is Some,
        ensures
            final(self).wf(),
            final(self).same_engines(old(self)),
            decode_scalar(s@) is None ==> reply == Err::<String, AuthError>(
                AuthError::Unauthenticated,
            ),
            match reply {
                Ok(text) => uuid_parse(text@) matches Some(session_id) && answer_reply_fits(
                    old(self)@.verify_k256(
                        old(self).curve_parameters(),
                        uuid_parse(auth_id@)->0,
                        decode_scalar(s@),
                        session_id,
                    ),
                    final(self)@,
                    reply,
                ),
                Err(e) => final(self)@ == old(self)@ && old(self)@.k256_verdict(
                    old(self).curve_parameters(),
                    uuid_parse(auth_id@)->0,
                    decode_scalar(s@),
                ) == Err::<(), AuthError>(e),
            },
    {
        if CurveScalar::from_repr(s).is_none() {
            return Err(AuthError::Unauthenticated);
        }
        match uuid_from_str(auth_id) {
            Some(token) => self.k256_verify_authentication_with(token, s, fresh_uuid()),
            None => unreached(),
        }
    }

    /// VerifyAnswer in the curve variant, for any token text: nothing is
    /// returned and nothing changes where `s` writes a scalar and `auth_id`
    /// is not the text of an identifier; else as
    /// `k256_verify_authentication`.
    pub fn try_k256_verify_authentication(&mut self, auth_id: &str, s: &[u8]) -> (reply: Option<
        Result<String, AuthError>,
    >)
        requires
            old(self).wf(),
        ensures
            final(self).wf(),
            final(self).same_engines(old(self)),
            reply is None <==> decode_scalar(s@) is Some && uuid_parse(auth_id@) is None,
            decode_scalar(s@) is None ==> reply == Some(
                Err::<String, AuthError>(AuthError::Unauthenticated),
            ),
            match reply {
                None => final(self)@ == old(self)@,
                Some(Ok(text)) => uuid_parse(text@) matches Some(session_id) && answer_reply_fits(
                    old(self)@.verify_k256(
                        old(self).curve_parameters(),
                        uuid_parse(auth_id@)->0,
                        decode_scalar(s@),
                        session_id,
                    ),
                    final(self)@,
                    Ok::<String, AuthError>(text),
                ),
                Some(Err(e)) => final(self)@ == old(self)@ && old(self)@.k256_verdict(
                    old(self).curve_parameters(),
                    uuid_parse(auth_id@)->0,
                    decode_scalar(s@),
                ) == Err::<(), AuthError>(e),
            },
    {
        if CurveScalar::from_repr(s).is_some() && uuid_from_str(auth_id).is_none() {
            None
        } else {
            Some(self.k256_verify_authentication(auth_id, s))
        }
    }
}

} // verus!

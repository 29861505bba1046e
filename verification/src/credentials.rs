//! What the service keeps of a user and of a proof in flight.

use crate::curve::CurvePoint;
use crate::natural::BigNat;
use vstd::prelude::*;

verus! {

/// A pair of group elements of one of the two variants of the protocol: a
/// user's public key, or the commitment of one proof.
#[derive(Debug)]
pub enum Credentials {
    /// Two numbers modulo the prime of the discrete-log variant.
    Exp(BigNat, BigNat),
    /// Two points of the curve variant.
    K256(CurvePoint, CurvePoint),
}

/// The values that a pair of group elements holds.
pub ghost enum CredentialsView {
    Exp(nat, nat),
    K256(Seq<u8>, Seq<u8>),
}

impl View for Credentials {
    type V = CredentialsView;

    open spec fn view(&self) -> CredentialsView {
        match self {
            Credentials::Exp(a, b) => CredentialsView::Exp(a@, b@),
            Credentials::K256(a, b) => CredentialsView::K256(a@, b@),
        }
    }
}

impl Clone for Credentials {
    fn clone(&self) -> (r: Credentials)
        ensures
            r@ == self@,
    {
        match self {
            Credentials::Exp(a, b) => Credentials::Exp(a.clone(), b.clone()),
            Credentials::K256(a, b) => Credentials::K256(*a, *b),
        }
    }
}

/// A registered user: the name and the public key.
#[derive(Debug)]
pub struct User {
    pub name: String,
    pub y: Credentials,
}

/// A proof in flight: the user it is for, the prover's commitment, the
/// challenge that was handed out, and the session identifier once the proof
/// has been accepted.
#[derive(Debug)]
pub struct Session {
    pub id: Option<u128>,
    pub user: String,
    pub r: Credentials,
    pub c: BigNat,
}

/// The values that a proof in flight holds.
pub ghost struct SessionView {
    pub id: Option<u128>,
    pub user: Seq<char>,
    pub r: CredentialsView,
    pub c: nat,
}

impl View for Session {
    type V = SessionView;

    open spec fn view(&self) -> SessionView {
        SessionView { id: self.id, user: self.user@, r: self.r@, c: self.c@ }
    }
}

impl Clone for Session {
    fn clone(&self) -> (r: Session)
        ensures
            r@ == self@,
    {
        Session { id: self.id, user: self.user.clone(), r: self.r.clone(), c: self.c.clone() }
    }
}

} // verus!

//! The Chaum-Pedersen protocol over the secp256k1 curve.

use crate::curve::curve_add;
use crate::curve::curve_mul;
use crate::curve::curve_order;
use crate::curve::generator_encoding;
use crate::curve::CurvePoint;
use crate::curve::CurveScalar;
use crate::digest::hash_password;
use crate::digest::password_exponent;
use crate::entropy::random_u64;
use vstd::prelude::*;

verus! {

/// The two generators of the curve variant, as point encodings: the base
/// point `g` and a second point `h`.
pub ghost struct CurveParameters {
    pub g: Seq<u8>,
    pub h: Seq<u8>,
}

impl CurveParameters {
    /// The parameters whose second generator is the base point taken
    /// `h_offset` times.
    pub open spec fn with_offset(h_offset: u64) -> CurveParameters {
        CurveParameters {
            g: generator_encoding(),
            h: curve_mul(generator_encoding(), h_offset as nat),
        }
    }

    /// The pair `(e * g, e * h)`: the public key of the secret scalar `e`,
    /// and likewise the commitment of the nonce `e`.
    pub open spec fn multiples(self, e: nat) -> (Seq<u8>, Seq<u8>) {
        (curve_mul(self.g, e), curve_mul(self.h, e))
    }

    /// Whether the answer `s` to the challenge `c` fits the public key
    /// `(y1, y2)` and the commitment `(r1, r2)`.
    pub open spec fn accepts(
        self,
        y1: Seq<u8>,
        y2: Seq<u8>,
        r1: Seq<u8>,
        r2: Seq<u8>,
        c: nat,
        s: nat,
    ) -> bool {
        &&& r1 == curve_add(curve_mul(self.g, s), curve_mul(y1, c))
        &&& r2 == curve_add(curve_mul(self.h, s), curve_mul(y2, c))
    }
}

/// The prover's answer to the challenge `c`, from the secret scalar `x` and
/// the nonce `k`: `k - c * x` in the scalar field.
pub open spec fn scalar_response(x: nat, k: nat, c: nat) -> nat {
    ((k + curve_order() - (c * x) % curve_order()) % (curve_order() as int)) as nat
}

/// Whether the multiples of `point` behave as the multiples of a point in a
/// group of the curve's order do: the sum of two multiples is the multiple by
/// the sum of the scalars, and a multiple of a multiple is the multiple by
/// their product, both in the scalar field.
pub open spec fn multiples_obey_group_law(point: Seq<u8>) -> bool {
    &&& forall|a: nat, b: nat|
        #![trigger curve_add(curve_mul(point, a), curve_mul(point, b))]
        curve_add(curve_mul(point, a), curve_mul(point, b)) == curve_mul(
            point,
            (a + b) % curve_order(),
        )
    &&& forall|a: nat, b: nat|
        #![trigger curve_mul(curve_mul(point, a), b)]
        curve_mul(curve_mul(point, a), b) == curve_mul(point, (a * b) % curve_order())
}

/// The share of completeness that is the engine's own: if the multiples of
/// both generators obey the group law, the answer that an honest prover
/// computes from its secret scalar `x`, a nonce `k` of the scalar field and
/// any challenge `c` is accepted against the public key of `x` and the
/// commitment of `k`. That the curve's points do obey the group law is not
/// shown here.
pub proof fn lemma_honest_answer_accepted_under_group_law(
    params: CurveParameters,
    x: nat,
    k: nat,
    c: nat,
)
    requires
        multiples_obey_group_law(params.g),
        multiples_obey_group_law(params.h),
        k < curve_order(),
    ensures
        params.accepts(
            params.multiples(x).0,
            params.multiples(x).1,
            params.multiples(k).0,
            params.multiples(k).1,
            c,
            scalar_response(x, k, c),
        ),
{
    let n = curve_order() as int;
    let s = scalar_response(x, k, c);
    let m = (c * x) % curve_order();
    assert(x * c == c * x) by (nonlinear_arith);
    assert((s + m) % curve_order() == k) by {
        vstd::arithmetic::div_mod::lemma_mod_bound((c * x) as int, n);
        vstd::arithmetic::div_mod::lemma_add_mod_noop(k + n - m, m as int, n);
        vstd::arithmetic::div_mod::lemma_small_mod(m, curve_order());
        vstd::arithmetic::div_mod::lemma_mod_multiples_vanish(1, k as int, n);
        vstd::arithmetic::div_mod::lemma_small_mod(k, curve_order());
    }
    assert(curve_mul(curve_mul(params.g, x), c) == curve_mul(params.g, m));
    assert(curve_mul(curve_mul(params.h, x), c) == curve_mul(params.h, m));
    assert(curve_add(curve_mul(params.g, s), curve_mul(params.g, m)) == curve_mul(params.g, k));
    assert(curve_add(curve_mul(params.h, s), curve_mul(params.h, m)) == curve_mul(params.h, k));
}

/// Whether different scalars give different multiples of `point`.
pub open spec fn multiples_differ(point: Seq<u8>) -> bool {
    forall|a: nat, b: nat|
        #![trigger curve_mul(point, a), curve_mul(point, b)]
        a < curve_order() && b < curve_order() && curve_mul(point, a) == curve_mul(point, b) ==> a
            == b
}

/// The share of soundness that is the engine's own: if the multiples of the
/// first generator obey the group law and differ for different scalars, then
/// against a public key whose first point is a multiple of that generator, as
/// every registered key is, an accepted answer `s` makes every other scalar
/// a refused answer. That the curve's points do behave so is not shown here.
pub proof fn lemma_other_answer_refused_under_group_law(
    params: CurveParameters,
    x: nat,
    y2: Seq<u8>,
    r1: Seq<u8>,
    r2: Seq<u8>,
    c: nat,
    s: nat,
    other: nat,
)
    requires
        multiples_obey_group_law(params.g),
        multiples_differ(params.g),
        s < curve_order(),
        other < curve_order(),
        s != other,
        params.accepts(curve_mul(params.g, x), y2, r1, r2, c, s),
    ensures
        !params.accepts(curve_mul(params.g, x), y2, r1, r2, c, other),
{
    let n = curve_order();
    let m = (x * c) % n;
    let key = curve_mul(curve_mul(params.g, x), c);
    assert(key == curve_mul(params.g, m));
    assert(m < n) by {
        vstd::arithmetic::div_mod::lemma_mod_bound((x * c) as int, n as int);
    }
    let with_s = (s + m) % n;
    let with_other = (other + m) % n;
    assert(curve_add(curve_mul(params.g, s), curve_mul(params.g, m)) == curve_mul(
        params.g,
        with_s,
    ));
    assert(curve_add(curve_mul(params.g, other), curve_mul(params.g, m)) == curve_mul(
        params.g,
        with_other,
    ));
    assert(with_s != with_other);
    if params.accepts(curve_mul(params.g, x), y2, r1, r2, c, other) {
        assert(curve_mul(params.g, with_s) == curve_mul(params.g, with_other));
    }
}

/// The protocol engine of the curve variant.
#[derive(Clone, Copy, Debug)]
pub struct ChaumPedersenK256 {
    g: CurvePoint,
    h: CurvePoint,
}

impl View for ChaumPedersenK256 {
    type V = CurveParameters;

    closed spec fn view(&self) -> CurveParameters {
        CurveParameters { g: self.g@, h: self.h@ }
    }
}

impl ChaumPedersenK256 {
    /// An engine whose second generator is the base point taken `h_offset`
    /// times.
    pub fn new(h_offset: u64) -> (r: ChaumPedersenK256)
        ensures
            r@ == CurveParameters::with_offset(h_offset),
    {
        let g = CurvePoint::generator();
        let h = g.mul(&CurveScalar::from_u64(h_offset));
        ChaumPedersenK256 { g, h }
    }

    /// The public key of the secret scalar `x`.
    pub fn derive_public_key(&self, x: &CurveScalar) -> (y: (CurvePoint, CurvePoint))
        ensures
            (y.0@, y.1@) == self@.multiples(x@),
    {
        (self.g.mul(x), self.h.mul(x))
    }

    /// The public key that belongs to `password`.
    pub fn register(&self, password: &str) -> (y: (CurvePoint, CurvePoint))
        ensures
            (y.0@, y.1@) == self@.multiples(password_exponent(password@) as nat),
    {
        let x = CurveScalar::from_u64(hash_password(password));
        self.derive_public_key(&x)
    }

    /// The commitment of the nonce `k`, with the nonce itself in front.
    pub fn commit_with(&self, k: u64) -> (r: (CurveScalar, CurvePoint, CurvePoint))
        ensures
            r.0@ == k,
            (r.1@, r.2@) == self@.multiples(k as nat),
    {
        let k = CurveScalar::from_u64(k);
        let (r1, r2) = self.derive_public_key(&k);
        (k, r1, r2)
    }

    /// Draws a fresh 64-bit nonce and returns it with its commitment.
    pub fn commit(&self) -> (r: (CurveScalar, CurvePoint, CurvePoint))
        ensures
            r.0@ < curve_order(),
            (r.1@, r.2@) == self@.multiples(r.0@),
    {
        self.commit_with(random_u64())
    }

    /// Draws a fresh challenge from the whole scalar field.
    pub fn challenge(&self) -> (c: CurveScalar)
        ensures
            c@ < curve_order(),
    {
        CurveScalar::random()
    }

    /// The answer to the challenge `c` for the secret scalar `x` and the
    /// nonce `k`.
    pub fn solve_with(&self, x: &CurveScalar, k: &CurveScalar, c: &CurveScalar) -> (s:
        CurveScalar)
        ensures
            s@ == scalar_response(x@, k@, c@),
    {
        k.sub(&c.mul(x))
    }

    /// The answer to the challenge `c` for `password` and the nonce `k`.
    pub fn solve(&self, password: &str, k: &CurveScalar, c: &CurveScalar) -> (s: CurveScalar)
        ensures
            s@ == scalar_response(password_exponent(password@) as nat, k@, c@),
    {
        let x = CurveScalar::from_u64(hash_password(password));
        self.solve_with(&x, k, c)
    }

    /// Tells whether the answer `s` to the challenge `c` fits the public key
    /// `(y1, y2)` and the commitment `(r1, r2)`: both equations must hold.
    pub fn verify(
        &self,
        y1: &CurvePoint,
        y2: &CurvePoint,
        r1: &CurvePoint,
        r2: &CurvePoint,
        c: &CurveScalar,
        s: &CurveScalar,
    ) -> (ok: bool)
        ensures
            ok == self@.accepts(y1@, y2@, r1@, r2@, c@, s@),
    {
        let left = self.g.mul(s).add(&y1.mul(c));
        let right = self.h.mul(s).add(&y2.mul(c));
        *r1 == left && *r2 == right
    }
}

} // verus!

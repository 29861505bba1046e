//! The Chaum-Pedersen protocol over a subgroup of the integers modulo a prime.

use crate::digest::hash_password;
use crate::digest::password_exponent;
use crate::entropy::random_bytes;
use crate::entropy::random_u64;
use crate::natural::be_nat;
use crate::natural::mod_pow;
use crate::natural::BigNat;
use vstd::arithmetic::div_mod::lemma_fundamental_div_mod;
use vstd::arithmetic::div_mod::lemma_mod_bound;
use vstd::arithmetic::div_mod::lemma_mod_multiples_vanish;
use vstd::arithmetic::div_mod::lemma_mul_mod_noop_general;
use vstd::arithmetic::div_mod::lemma_small_mod;
use vstd::arithmetic::power::lemma1_pow;
use vstd::arithmetic::power::lemma_pow_adds;
use vstd::arithmetic::power::lemma_pow_mod_noop;
use vstd::arithmetic::power::lemma_pow_multiplies;
use vstd::arithmetic::power::pow;
use vstd::prelude::*;

verus! {

/// The numbers that fix a group: the modulus `p`, the order `q` of the
/// subgroup, and two generators `g` and `h` of that subgroup.
pub ghost struct GroupParameters {
    pub p: nat,
    pub q: nat,
    pub g: nat,
    pub h: nat,
}

impl GroupParameters {
    /// Whether the parameters describe a subgroup of order `q`: both
    /// generators raised to `q` give one.
    pub open spec fn valid(self) -> bool {
        &&& self.p > 1
        &&& self.q > 0
        &&& mod_pow(self.g, self.q, self.p) == 1
        &&& mod_pow(self.h, self.q, self.p) == 1
    }

    /// The pair `(g^e mod p, h^e mod p)`: the public key of the secret
    /// exponent `e`, and likewise the commitment of the nonce `e`.
    pub open spec fn powers(self, e: nat) -> (nat, nat) {
        (mod_pow(self.g, e, self.p), mod_pow(self.h, e, self.p))
    }

    /// The prover's answer to the challenge `c`, from the secret exponent `x`
    /// and the nonce `k`: `k - (c * x mod q)`, with `q` added first where `k`
    /// is below `q`, so that the difference is never negative.
    pub open spec fn response(self, x: nat, k: nat, c: nat) -> nat {
        if k >= self.q {
            (k - (c * x) % self.q) as nat
        } else {
            (self.q + k - (c * x) % self.q) as nat
        }
    }

    /// Whether the answer `s` to the challenge `c` fits the public key
    /// `(y1, y2)` and the commitment `(r1, r2)`.
    pub open spec fn accepts(self, y1: nat, y2: nat, r1: nat, r2: nat, c: nat, s: nat) -> bool {
        &&& r1 == (mod_pow(self.g, s, self.p) * mod_pow(y1, c, self.p)) % self.p
        &&& r2 == (mod_pow(self.h, s, self.p) * mod_pow(y2, c, self.p)) % self.p
    }
}

/// Raising to a multiple of the order changes nothing: where `b^q` is one
/// modulo `p`, `b^(e + t*q)` equals `b^e` modulo `p`.
pub proof fn lemma_exponent_period(b: nat, p: nat, q: nat, e: nat, t: nat)
    requires
        p > 1,
        mod_pow(b, q, p) == 1,
    ensures
        mod_pow(b, e + t * q, p) == mod_pow(b, e, p),
{
    let bi = b as int;
    let pi = p as int;
    let whole = pow(pow(bi, q), t);
    assert(pow(bi, q * t) == whole) by {
        lemma_pow_multiplies(bi, q, t);
    }
    assert(q * t == t * q) by (nonlinear_arith);
    assert(whole % pi == 1) by {
        lemma_pow_mod_noop(pow(bi, q), t, pi);
        lemma1_pow(t);
        lemma_small_mod(1, p);
    }
    assert(pow(bi, e + t * q) == pow(bi, e) * whole) by {
        lemma_pow_adds(bi, e, t * q);
    }
    assert((pow(bi, e) * whole) % pi == pow(bi, e) % pi) by {
        lemma_mul_mod_noop_general(pow(bi, e), whole, pi);
        assert(pow(bi, e) * 1 == pow(bi, e));
    }
}

/// One of the two equations of the verification, for one generator `b` of order
/// `q`: the answer computed from `x`, `k` and `c` fits `b^x` and `b^k`.
pub proof fn lemma_response_fits(b: nat, params: GroupParameters, x: nat, k: nat, c: nat)
    requires
        params.p > 1,
        params.q > 0,
        mod_pow(b, params.q, params.p) == 1,
    ensures
        mod_pow(b, k, params.p) == (mod_pow(b, params.response(x, k, c), params.p) * mod_pow(
            mod_pow(b, x, params.p),
            c,
            params.p,
        )) % params.p,
{
    let bi = b as int;
    let pi = params.p as int;
    let q = params.q;
    let s = params.response(x, k, c);
    let cx = c * x;
    let t: nat = if k >= q {
        cx / q
    } else {
        cx / q + 1
    };
    assert(cx == q * (cx / q) + cx % q && cx % q < q && 0 <= cx / q) by {
        lemma_fundamental_div_mod(cx as int, q as int);
        lemma_mod_bound(cx as int, q as int);
        vstd::arithmetic::div_mod::lemma_div_pos_is_pos(cx as int, q as int);
    }
    assert(s + x * c == k + t * q) by {
        assert(x * c == cx) by (nonlinear_arith)
            requires
                cx == c * x,
        ;
        assert(t * q == q * (cx / q) + (if k >= q {
            0
        } else {
            q as int
        })) by (nonlinear_arith)
            requires
                t == (if k >= q {
                    cx / q
                } else {
                    cx / q + 1
                }),
        ;
    }
    assert(mod_pow(mod_pow(b, x, params.p), c, params.p) == pow(bi, x * c) % pi) by {
        lemma_pow_mod_noop(pow(bi, x), c, pi);
        lemma_pow_multiplies(bi, x, c);
    }
    assert((mod_pow(b, s, params.p) * (pow(bi, x * c) % pi)) % pi == pow(bi, s + x * c) % pi) by {
        lemma_mul_mod_noop_general(pow(bi, s), pow(bi, x * c), pi);
        lemma_pow_adds(bi, s, x * c);
    }
    lemma_exponent_period(b, params.p, q, k, t);
}

/// Completeness: with valid parameters, the answer that an honest prover
/// computes from its secret exponent `x`, any nonce `k` and any challenge `c`
/// is accepted against the public key of `x` and the commitment of `k`.
pub proof fn lemma_honest_answer_accepted(params: GroupParameters, x: nat, k: nat, c: nat)
    requires
        params.valid(),
    ensures
        params.accepts(
            params.powers(x).0,
            params.powers(x).1,
            params.powers(k).0,
            params.powers(k).1,
            c,
            params.response(x, k, c),
        ),
{
    lemma_response_fits(params.g, params, x, k, c);
    lemma_response_fits(params.h, params, x, k, c);
}

/// Whichever branch computes it, the answer is congruent to `k - c * x`
/// modulo `q`, for nonces below `q` as for nonces above it.
pub proof fn lemma_response_congruent(params: GroupParameters, x: nat, k: nat, c: nat)
    requires
        params.q > 0,
    ensures
        params.response(x, k, c) as int % (params.q as int) == (k - c * x) % (params.q as int),
{
    let q = params.q as int;
    let cx = (c * x) as int;
    let s = params.response(x, k, c) as int;
    let t: int = if k >= params.q {
        cx / q
    } else {
        cx / q + 1
    };
    assert(cx == q * (cx / q) + cx % q && cx % q < q) by {
        lemma_fundamental_div_mod(cx, q);
        lemma_mod_bound(cx, q);
    }
    assert(s == q * t + (k - cx)) by (nonlinear_arith)
        requires
            s == (if k >= params.q {
                k - cx % q
            } else {
                q + k - cx % q
            }),
            cx == q * (cx / q) + cx % q,
            t == (if k >= params.q {
                cx / q
            } else {
                cx / q + 1
            }),
    ;
    lemma_mod_multiples_vanish(t, k - cx, q);
}

/// With valid parameters the public key depends on the secret exponent only
/// through its remainder by `q`: the exponent may be taken in `[0, q)`.
pub proof fn lemma_public_key_of_reduced_exponent(params: GroupParameters, x: nat)
    requires
        params.valid(),
    ensures
        params.powers(x) == params.powers(x % params.q),
        x % params.q < params.q,
{
    let q = params.q;
    assert(x == q * (x / q) + x % q && x % q < q && 0 <= x / q) by {
        lemma_fundamental_div_mod(x as int, q as int);
        lemma_mod_bound(x as int, q as int);
        vstd::arithmetic::div_mod::lemma_div_pos_is_pos(x as int, q as int);
    }
    let t = x / q;
    assert(x % q + t * q == x) by (nonlinear_arith)
        requires
            x == q * t + x % q,
    ;
    lemma_exponent_period(params.g, params.p, q, x % q, t);
    lemma_exponent_period(params.h, params.p, q, x % q, t);
}

/// Where the answer `s` is accepted, the answer `s + d` is refused, unless
/// multiplying `r1` by `g^d` leaves it as it is modulo `p`.
pub proof fn lemma_shifted_answer_refused(
    params: GroupParameters,
    y1: nat,
    y2: nat,
    r1: nat,
    r2: nat,
    c: nat,
    s: nat,
    d: nat,
)
    requires
        params.p > 0,
        params.accepts(y1, y2, r1, r2, c, s),
        (mod_pow(params.g, d, params.p) * r1) % params.p != r1,
    ensures
        !params.accepts(y1, y2, r1, r2, c, s + d),
{
    let g = params.g as int;
    let p = params.p as int;
    let key = mod_pow(y1, c, params.p) as int;
    let power = pow(g, s);
    let shift = pow(g, d);
    assert(pow(g, s + d) == shift * power) by {
        lemma_pow_adds(g, d, s);
    }
    assert(((shift * power) % p * key) % p == (shift * power * key) % p) by {
        lemma_mul_mod_noop_general(shift * power, key, p);
    }
    assert(shift * power * key == shift * (power * key)) by (nonlinear_arith);
    assert((shift * (power * key)) % p == ((shift % p) * ((power * key) % p)) % p) by {
        lemma_mul_mod_noop_general(shift, power * key, p);
    }
    assert((power * key) % p == ((power % p) * key) % p) by {
        lemma_mul_mod_noop_general(power, key, p);
    }
}

/// Whether `p` is a prime number.
pub open spec fn is_prime(p: nat) -> bool {
    p > 1 && forall|d: nat| 1 < d < p ==> #[trigger] (p % d) != 0
}

/// A prime divides no product of two positive numbers below it.
pub proof fn lemma_prime_divides_no_product(p: nat, a: nat, b: nat)
    requires
        is_prime(p),
        0 < a < p,
        0 < b < p,
    ensures
        (a * b) % p != 0,
    decreases a,
{
    if (a * b) % p == 0 {
        if a == 1 {
            assert(a * b == b) by (nonlinear_arith)
                requires
                    a == 1,
            ;
            lemma_small_mod(b, p);
        } else {
            let r = p % a;
            let t = p / a;
            let m = (a * b) / p;
            assert(p % a != 0);
            assert(p == a * t + r && r < a) by {
                lemma_fundamental_div_mod(p as int, a as int);
                lemma_mod_bound(p as int, a as int);
            }
            assert(a * b == p * m) by {
                lemma_fundamental_div_mod((a * b) as int, p as int);
            }
            assert(r * b == p * (b - t * m)) by (nonlinear_arith)
                requires
                    p == a * t + r,
                    a * b == p * m,
            ;
            assert((r * b) % p == 0) by {
                vstd::arithmetic::div_mod::lemma_mod_multiples_basic(b - t * m, p as int);
                assert(p * (b - t * m) == (b - t * m) * p) by (nonlinear_arith);
            }
            lemma_prime_divides_no_product(p, r, b);
        }
    }
}

/// Soundness against a shifted answer: modulo a prime `p`, where `g^d` is not
/// one modulo `p` and the commitment's first number is not zero, an accepted
/// answer `s` makes `s + d` a refused one. With `d = 1` that is the next
/// number, for every generator that is not one modulo `p`.
pub proof fn lemma_shifted_answer_refused_modulo_prime(
    params: GroupParameters,
    y1: nat,
    y2: nat,
    r1: nat,
    r2: nat,
    c: nat,
    s: nat,
    d: nat,
)
    requires
        is_prime(params.p),
        mod_pow(params.g, d, params.p) != 1,
        r1 != 0,
        params.accepts(y1, y2, r1, r2, c, s),
    ensures
        !params.accepts(y1, y2, r1, r2, c, s + d),
{
    let p = params.p;
    let g = mod_pow(params.g, d, p);
    assert(r1 < p) by {
        lemma_mod_bound((mod_pow(params.g, s, p) * mod_pow(y1, c, p)) as int, p as int);
    }
    assert(g < p) by {
        lemma_mod_bound(pow(params.g as int, d), p as int);
    }
    if (g * r1) % p == r1 {
        if g == 0 {
            assert(g * r1 == 0) by (nonlinear_arith)
                requires
                    g == 0,
            ;
            lemma_small_mod(0, p);
        } else {
            let a = (g - 1) as nat;
            lemma_prime_divides_no_product(p, a, r1);
            assert(g * r1 == a * r1 + r1) by (nonlinear_arith)
                requires
                    g == a + 1,
            ;
            let t = (g * r1) / p;
            assert(g * r1 == p * t + r1) by {
                lemma_fundamental_div_mod((g * r1) as int, p as int);
            }
            assert((a * r1) % p == 0) by {
                vstd::arithmetic::div_mod::lemma_mod_multiples_basic(t as int, p as int);
                assert(p * t == t * p) by (nonlinear_arith);
            }
        }
    }
    lemma_shifted_answer_refused(params, y1, y2, r1, r2, c, s, d);
}

/// The protocol engine of the prime-field variant.
#[derive(Debug)]
pub struct ChaumPedersen {
    p: BigNat,
    q: BigNat,
    g: BigNat,
    h: BigNat,
}

impl View for ChaumPedersen {
    type V = GroupParameters;

    closed spec fn view(&self) -> GroupParameters {
        GroupParameters { p: self.p@, q: self.q@, g: self.g@, h: self.h@ }
    }
}

impl Clone for ChaumPedersen {
    fn clone(&self) -> (r: ChaumPedersen)
        ensures
            r@ == self@,
    {
        ChaumPedersen {
            p: self.p.clone(),
            q: self.q.clone(),
            g: self.g.clone(),
            h: self.h.clone(),
        }
    }
}

impl ChaumPedersen {
    /// An engine for the group with modulus `p`, subgroup order `q` and
    /// generators `g` and `h`.
    pub fn new(p: BigNat, q: BigNat, g: BigNat, h: BigNat) -> (r: ChaumPedersen)
        ensures
            r@ == (GroupParameters { p: p@, q: q@, g: g@, h: h@ }),
    {
        ChaumPedersen { p, q, g, h }
    }

    /// Whether the modulus `p` and the order `q` are both positive, as every
    /// computation of the engine needs one of them to be.
    pub fn has_positive_moduli(&self) -> (ok: bool)
        ensures
            ok == (self@.p > 0 && self@.q > 0),
    {
        let zero = BigNat::from_u64(0);
        !(self.p == zero) && !(self.q == zero)
    }

    /// The public key of the secret exponent `x`.
    pub fn derive_public_key(&self, x: &BigNat) -> (y: (BigNat, BigNat))
        requires
            self@.p > 0,
        ensures
            (y.0@, y.1@) == self@.powers(x@),
    {
        (self.g.modpow(x, &self.p), self.h.modpow(x, &self.p))
    }

    /// The public key that belongs to `password`.
    pub fn register(&self, password: &str) -> (y: (BigNat, BigNat))
        requires
            self@.p > 0,
        ensures
            (y.0@, y.1@) == self@.powers(password_exponent(password@) as nat),
    {
        let x = BigNat::from_u64(hash_password(password));
        self.derive_public_key(&x)
    }

    /// The commitment of the nonce `k`, with the nonce itself in front.
    pub fn commit_with(&self, k: u64) -> (r: (BigNat, BigNat, BigNat))
        requires
            self@.p > 0,
        ensures
            r.0@ == k,
            (r.1@, r.2@) == self@.powers(k as nat),
    {
        let k = BigNat::from_u64(k);
        let (r1, r2) = self.derive_public_key(&k);
        (k, r1, r2)
    }

    /// Draws a fresh 64-bit nonce and returns it with its commitment.
    pub fn commit(&self) -> (r: (BigNat, BigNat, BigNat))
        requires
            self@.p > 0,
        ensures
            (r.1@, r.2@) == self@.powers(r.0@),
    {
        self.commit_with(random_u64())
    }

    /// The challenge that the drawn bytes `draw` give: the remainder by `q`
    /// of the number that they write.
    pub fn challenge_from(&self, draw: &[u8]) -> (c: BigNat)
        requires
            self@.q > 0,
        ensures
            c@ == be_nat(draw@) % self@.q,
    {
        BigNat::from_bytes_be(draw).rem(&self.q)
    }

    /// Draws a fresh challenge below `q`: the remainder by `q` of a draw
    /// that is eight bytes longer than `q`, so that every number below `q`
    /// can come out, and all of them alike but for a share of `2^-64`.
    pub fn challenge(&self) -> (c: BigNat)
        requires
            self@.q > 0,
        ensures
            c@ < self@.q,
    {
        let width = self.q.to_bytes_be().len();
        let count = if width <= usize::MAX - 8 {
            width + 8
        } else {
            width
        };
        let draw = random_bytes(count);
        let c = self.challenge_from(draw.as_slice());
        proof {
            lemma_mod_bound(be_nat(draw@) as int, self@.q as int);
        }
        c
    }

    /// The answer to the challenge `c` for the secret exponent `x` and the
    /// nonce `k`.
    pub fn solve_with(&self, x: &BigNat, k: &BigNat, c: &BigNat) -> (s: BigNat)
        requires
            self@.q > 0,
        ensures
            s@ == self@.response(x@, k@, c@),
    {
        let reduced = c.mul(x).rem(&self.q);
        proof {
            lemma_mod_bound((c@ * x@) as int, self@.q as int);
        }
        if k.at_least(&self.q) {
            k.sub(&reduced)
        } else {
            self.q.add(k).sub(&reduced)
        }
    }

    /// The answer to the challenge `c` for `password` and the nonce `k`.
    pub fn solve(&self, password: &str, k: &BigNat, c: &BigNat) -> (s: BigNat)
        requires
            self@.q > 0,
        ensures
            s@ == self@.response(password_exponent(password@) as nat, k@, c@),
    {
        let x = BigNat::from_u64(hash_password(password));
        self.solve_with(&x, k, c)
    }

    /// Tells whether the answer `s` to the challenge `c` fits the public key
    /// `(y1, y2)` and the commitment `(r1, r2)`: both equations must hold.
    pub fn verify(
        &self,
        y1: &BigNat,
        y2: &BigNat,
        r1: &BigNat,
        r2: &BigNat,
        c: &BigNat,
        s: &BigNat,
    ) -> (ok: bool)
        requires
            self@.p > 0,
        ensures
            ok == self@.accepts(y1@, y2@, r1@, r2@, c@, s@),
    {
        let left = self.g.modpow(s, &self.p).mul(&y1.modpow(c, &self.p)).rem(&self.p);
        let right = self.h.modpow(s, &self.p).mul(&y2.modpow(c, &self.p)).rem(&self.p);
        *r1 == left && *r2 == right
    }
}

} // verus!

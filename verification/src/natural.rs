//! Arbitrary-size natural numbers, held as big-endian bytes and computed with
//! `num_bigint`.

use num_bigint::BigUint;
use std::cmp::Ordering;
use vstd::arithmetic::power::pow;
use vstd::prelude::*;
use vstd::slice::slice_to_vec;
use vstd::std_specs::cmp::PartialEqSpecImpl;
use vstd::std_specs::cmp::PartialOrdSpecImpl;

verus! {

/// The number that `bytes` writes in base 256, most significant byte first.
pub open spec fn be_nat(bytes: Seq<u8>) -> nat
    decreases bytes.len(),
{
    if bytes.len() == 0 {
        0
    } else {
        be_nat(bytes.drop_last()) * 256 + bytes.last() as nat
    }
}

/// Whether `bytes` is the shortest big-endian writing of its number: at least
/// one byte, and no leading zero byte except for the number zero itself.
pub open spec fn is_minimal(bytes: Seq<u8>) -> bool {
    bytes.len() >= 1 && (bytes.len() == 1 || bytes[0] != 0)
}

/// `base` to the power `exponent`, reduced modulo `modulus`.
pub open spec fn mod_pow(base: nat, exponent: nat, modulus: nat) -> nat {
    (pow(base as int, exponent) % (modulus as int)) as nat
}

/// Two byte strings of one length that write the same number are the same.
pub proof fn lemma_be_nat_injective(a: Seq<u8>, b: Seq<u8>)
    requires
        a.len() == b.len(),
    ensures
        be_nat(a) == be_nat(b) <==> a == b,
    decreases a.len(),
{
    if a.len() == 0 {
        assert(a =~= b);
    } else {
        lemma_be_nat_injective(a.drop_last(), b.drop_last());
        if be_nat(a) == be_nat(b) {
            assert(a.drop_last() == b.drop_last() && a.last() == b.last());
            assert(a =~= a.drop_last().push(a.last()));
            assert(b =~= b.drop_last().push(b.last()));
        }
    }
}

/// 256 to the power `n`.
pub open spec fn pow256(n: nat) -> nat
    decreases n,
{
    if n == 0 {
        1
    } else {
        256 * pow256((n - 1) as nat)
    }
}

/// Zero bytes in front change nothing: `count` of them before `bytes` write
/// the number that `bytes` writes.
pub proof fn lemma_be_nat_leading_zeros(count: nat, bytes: Seq<u8>)
    ensures
        be_nat(Seq::new(count, |i: int| 0u8) + bytes) == be_nat(bytes),
    decreases bytes.len(), count,
{
    let zeros = Seq::new(count, |i: int| 0u8);
    if bytes.len() > 0 {
        lemma_be_nat_leading_zeros(count, bytes.drop_last());
        assert((zeros + bytes).drop_last() =~= zeros + bytes.drop_last());
    } else if count > 0 {
        let fewer = Seq::new((count - 1) as nat, |i: int| 0u8);
        lemma_be_nat_leading_zeros((count - 1) as nat, bytes);
        assert((zeros + bytes).drop_last() =~= fewer + bytes);
    } else {
        assert(zeros + bytes =~= bytes);
    }
}

/// A byte string writes at least its first byte times 256 to the number of
/// bytes behind it.
pub proof fn lemma_be_nat_lower_bound(bytes: Seq<u8>)
    requires
        bytes.len() >= 1,
    ensures
        be_nat(bytes) >= bytes[0] * pow256((bytes.len() - 1) as nat),
    decreases bytes.len(),
{
    if bytes.len() == 1 {
        assert(bytes.drop_last().len() == 0);
        assert(be_nat(bytes.drop_last()) == 0);
        assert(bytes[0] * pow256(0) == bytes[0]) by (nonlinear_arith)
            requires
                pow256(0) == 1,
        ;
    } else {
        let front = bytes.drop_last();
        lemma_be_nat_lower_bound(front);
        let first = bytes[0] as nat;
        let below = pow256((front.len() - 1) as nat);
        assert(front[0] == bytes[0]);
        assert(pow256((bytes.len() - 1) as nat) == 256 * below);
        assert(first * (256 * below) == (first * below) * 256) by (nonlinear_arith);
    }
}

/// 256 to the power 32, the least number that 32 bytes cannot write.
pub open spec fn two_to_256() -> nat {
    0x1_00000000_00000000_00000000_00000000_00000000_00000000_00000000_00000000nat
}

/// A byte string of more than 32 bytes whose first byte is not zero writes a
/// number of at least 256 to the power 32.
pub proof fn lemma_long_is_large(bytes: Seq<u8>)
    requires
        bytes.len() > 32,
        bytes[0] != 0,
    ensures
        be_nat(bytes) >= two_to_256(),
    decreases bytes.len(),
{
    if bytes.len() == 33 {
        lemma_be_nat_lower_bound(bytes);
        assert(pow256(32) == two_to_256()) by {
            reveal_with_fuel(pow256, 33);
        }
        assert(bytes[0] * pow256(32) >= pow256(32)) by (nonlinear_arith)
            requires
                bytes[0] >= 1,
        ;
    } else {
        lemma_long_is_large(bytes.drop_last());
    }
}

/// Whether the two byte strings are the same.
pub fn bytes_equal(a: &[u8], b: &[u8]) -> (r: bool)
    ensures
        r == (a@ == b@),
{
    if a.len() != b.len() {
        return false;
    }
    let mut i: usize = 0;
    while i < a.len()
        invariant
            i <= a@.len(),
            a@.len() == b@.len(),
            forall|j: int| 0 <= j < i ==> a@[j] == b@[j],
        decreases a@.len() - i,
    {
        if a[i] != b[i] {
            return false;
        }
        i += 1;
    }
    assert(a@ =~= b@);
    true
}

/// A natural number of any size. Its view is the number itself. It holds the
/// number's bytes in big-endian order; every computation reads them with
/// `BigUint::from_bytes_be` and writes its result with `BigUint::to_bytes_be`.
#[derive(Debug)]
pub struct BigNat {
    bytes: Vec<u8>,
}

impl View for BigNat {
    type V = nat;

    closed spec fn view(&self) -> nat {
        be_nat(self.bytes@)
    }
}

/// `BigUint::from` for a `u64`: the result is the number `value`.
#[verifier::external_body]
fn big_from_u64(value: u64) -> (r: BigNat)
    ensures
        r@ == value,
{
    BigNat { bytes: BigUint::from(value).to_bytes_be() }
}

/// `BigUint::to_bytes_be`: the shortest big-endian writing of the number, which
/// for zero is the single byte 0.
#[verifier::external_body]
fn big_to_bytes_be(n: &BigNat) -> (r: Vec<u8>)
    ensures
        be_nat(r@) == n@,
        is_minimal(r@),
{
    BigUint::from_bytes_be(&n.bytes).to_bytes_be()
}

/// `BigUint::modpow`: `base` to the power `exponent`, modulo `modulus`. The
/// outside function panics on a zero modulus, which `requires` leaves out.
#[verifier::external_body]
fn big_modpow(base: &BigNat, exponent: &BigNat, modulus: &BigNat) -> (r: BigNat)
    requires
        modulus@ != 0,
    ensures
        r@ == mod_pow(base@, exponent@, modulus@),
{
    let b = BigUint::from_bytes_be(&base.bytes);
    let e = BigUint::from_bytes_be(&exponent.bytes);
    let m = BigUint::from_bytes_be(&modulus.bytes);
    BigNat { bytes: b.modpow(&e, &m).to_bytes_be() }
}

/// `BigUint`'s `*`: the product.
#[verifier::external_body]
fn big_mul(a: &BigNat, b: &BigNat) -> (r: BigNat)
    ensures
        r@ == a@ * b@,
{
    let x = BigUint::from_bytes_be(&a.bytes);
    let y = BigUint::from_bytes_be(&b.bytes);
    BigNat { bytes: (x * y).to_bytes_be() }
}

/// `BigUint`'s `%`: the remainder of `a` by `modulus`. The outside operator
/// panics on a zero divisor, which `requires` leaves out.
#[verifier::external_body]
fn big_rem(a: &BigNat, modulus: &BigNat) -> (r: BigNat)
    requires
        modulus@ != 0,
    ensures
        r@ == a@ % modulus@,
{
    let x = BigUint::from_bytes_be(&a.bytes);
    let m = BigUint::from_bytes_be(&modulus.bytes);
    BigNat { bytes: (x % m).to_bytes_be() }
}

/// `BigUint`'s `+`: the sum.
#[verifier::external_body]
fn big_add(a: &BigNat, b: &BigNat) -> (r: BigNat)
    ensures
        r@ == a@ + b@,
{
    let x = BigUint::from_bytes_be(&a.bytes);
    let y = BigUint::from_bytes_be(&b.bytes);
    BigNat { bytes: (x + y).to_bytes_be() }
}

/// `BigUint`'s `-`: the difference. The outside operator panics where the
/// result would be negative, which `requires` leaves out.
#[verifier::external_body]
fn big_sub(a: &BigNat, b: &BigNat) -> (r: BigNat)
    requires
        a@ >= b@,
    ensures
        r@ == a@ - b@,
{
    let x = BigUint::from_bytes_be(&a.bytes);
    let y = BigUint::from_bytes_be(&b.bytes);
    BigNat { bytes: (x - y).to_bytes_be() }
}

/// `BigUint`'s `>=`: whether `a` is at least `b`.
#[verifier::external_body]
fn big_ge(a: &BigNat, b: &BigNat) -> (r: bool)
    ensures
        r == (a@ >= b@),
{
    BigUint::from_bytes_be(&a.bytes) >= BigUint::from_bytes_be(&b.bytes)
}

/// `BigUint`'s `==`: whether the two numbers are the same.
#[verifier::external_body]
fn big_eq(a: &BigNat, b: &BigNat) -> (r: bool)
    ensures
        r == (a@ == b@),
{
    BigUint::from_bytes_be(&a.bytes) == BigUint::from_bytes_be(&b.bytes)
}

impl BigNat {
    /// The number `value`.
    pub fn from_u64(value: u64) -> (r: BigNat)
        ensures
            r@ == value,
    {
        big_from_u64(value)
    }

    /// The number that `bytes` writes in big-endian order; the empty string
    /// writes zero, and leading zero bytes change nothing.
    pub fn from_bytes_be(bytes: &[u8]) -> (r: BigNat)
        ensures
            r@ == be_nat(bytes@),
    {
        BigNat { bytes: slice_to_vec(bytes) }
    }

    /// The shortest big-endian writing of the number.
    pub fn to_bytes_be(&self) -> (r: Vec<u8>)
        ensures
            be_nat(r@) == self@,
            is_minimal(r@),
    {
        big_to_bytes_be(self)
    }

    /// The number to the power `exponent`, modulo `modulus`.
    pub fn modpow(&self, exponent: &BigNat, modulus: &BigNat) -> (r: BigNat)
        requires
            modulus@ != 0,
        ensures
            r@ == mod_pow(self@, exponent@, modulus@),
    {
        big_modpow(self, exponent, modulus)
    }

    /// The product of the two numbers.
    pub fn mul(&self, other: &BigNat) -> (r: BigNat)
        ensures
            r@ == self@ * other@,
    {
        big_mul(self, other)
    }

    /// The remainder of the number by `modulus`.
    pub fn rem(&self, modulus: &BigNat) -> (r: BigNat)
        requires
            modulus@ != 0,
        ensures
            r@ == self@ % modulus@,
    {
        big_rem(self, modulus)
    }

    /// The sum of the two numbers.
    pub fn add(&self, other: &BigNat) -> (r: BigNat)
        ensures
            r@ == self@ + other@,
    {
        big_add(self, other)
    }

    /// The number less `other`, which must not be the greater one.
    pub fn sub(&self, other: &BigNat) -> (r: BigNat)
        requires
            self@ >= other@,
        ensures
            r@ == self@ - other@,
    {
        big_sub(self, other)
    }

    /// Whether the number is at least `other`.
    pub fn at_least(&self, other: &BigNat) -> (r: bool)
        ensures
            r == (self@ >= other@),
    {
        big_ge(self, other)
    }
}

impl Clone for BigNat {
    fn clone(&self) -> (r: BigNat)
        ensures
            r@ == self@,
    {
        BigNat { bytes: self.bytes.clone() }
    }
}

impl PartialEq for BigNat {
    fn eq(&self, other: &BigNat) -> (r: bool) {
        big_eq(self, other)
    }
}

impl Eq for BigNat {}

impl PartialEqSpecImpl for BigNat {
    open spec fn obeys_eq_spec() -> bool {
        true
    }

    open spec fn eq_spec(&self, other: &BigNat) -> bool {
        self@ == other@
    }
}

impl PartialOrd for BigNat {
    fn partial_cmp(&self, other: &BigNat) -> (r: Option<Ordering>) {
        if !big_ge(self, other) {
            Some(Ordering::Less)
        } else if big_ge(other, self) {
            Some(Ordering::Equal)
        } else {
            Some(Ordering::Greater)
        }
    }
}

impl PartialOrdSpecImpl for BigNat {
    open spec fn obeys_partial_cmp_spec() -> bool {
        true
    }

    open spec fn partial_cmp_spec(&self, other: &BigNat) -> Option<Ordering> {
        if self@ < other@ {
            Some(Ordering::Less)
        } else if self@ == other@ {
            Some(Ordering::Equal)
        } else {
            Some(Ordering::Greater)
        }
    }
}

} // verus!

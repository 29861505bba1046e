//! Scalars and points of the secp256k1 curve, held as their standard byte
//! encodings and computed with `k256`.

use crate::natural::be_nat;
use crate::natural::lemma_be_nat_leading_zeros;
use crate::natural::lemma_long_is_large;
use crate::natural::BigNat;
use k256::elliptic_curve::group::GroupEncoding;
use k256::elliptic_curve::point::DecompressPoint;
use k256::elliptic_curve::subtle::Choice;
use k256::elliptic_curve::PrimeField;
use k256::AffinePoint;
use k256::Scalar;
use vstd::prelude::*;
use vstd::std_specs::cmp::PartialEqSpecImpl;

verus! {

/// The order of the curve's group, which is the modulus of its scalars.
pub open spec fn curve_order() -> nat {
    0xFFFFFFFF_FFFFFFFF_FFFFFFFF_FFFFFFFE_BAAEDCE6_AF48A03B_BFD25E8C_D0364141nat
}

/// The encoding of the curve's base point.
pub open spec fn generator_encoding() -> Seq<u8> {
    seq![
        0x02u8, 0x79, 0xbe, 0x66, 0x7e, 0xf9, 0xdc, 0xbb, 0xac, 0x55, 0xa0, 0x62, 0x95, 0xce, 0x87,
        0x0b, 0x07, 0x02, 0x9b, 0xfc, 0xdb, 0x2d, 0xce, 0x28, 0xd9, 0x59, 0xf2, 0x81, 0x5b, 0x16,
        0xf8, 0x17, 0x98,
    ]
}

/// The compressed encoding of the point with the x-coordinate `x` whose
/// y-coordinate is odd or even as `y_is_odd` says: a tag byte, 3 or 2, and
/// then `x`.
pub open spec fn compressed(x: Seq<u8>, y_is_odd: bool) -> Seq<u8> {
    seq![if y_is_odd { 3u8 } else { 2u8 }] + x
}

/// Whether the curve has a point with the x-coordinate that the 32 bytes `x`
/// write and with a y-coordinate of the given parity.
pub uninterp spec fn decompresses(x: Seq<u8>, y_is_odd: bool) -> bool;

/// The encoding of the point at infinity: 33 zero bytes.
pub open spec fn infinity_encoding() -> Seq<u8> {
    Seq::new(33, |i: int| 0u8)
}

/// Whether the bytes `encoding` stand for a point of the curve: they are the
/// encoding of the point at infinity, or the compressed encoding of a point
/// that the curve has.
pub open spec fn is_curve_point(encoding: Seq<u8>) -> bool {
    &&& encoding.len() == 33
    &&& encoding == infinity_encoding() || ((encoding[0] == 2 || encoding[0] == 3)
        && decompresses(encoding.subrange(1, 33), encoding[0] == 3))
}

/// The encoding of the point `point` taken `scalar` times.
pub uninterp spec fn curve_mul(point: Seq<u8>, scalar: nat) -> Seq<u8>;

/// The encoding of the sum of the points `a` and `b`.
pub uninterp spec fn curve_add(a: Seq<u8>, b: Seq<u8>) -> Seq<u8>;

/// A scalar of the curve: a number below the group order. Its view is that
/// number.
#[derive(Clone, Copy, Debug)]
pub struct CurveScalar {
    bytes: [u8; 32],
}

impl View for CurveScalar {
    type V = nat;

    closed spec fn view(&self) -> nat {
        be_nat(self.bytes@)
    }
}

impl CurveScalar {
    #[verifier::type_invariant]
    spec fn in_field(&self) -> bool {
        be_nat(self.bytes@) < curve_order()
    }
}

/// A point of the curve. Its view is the point's 33-byte encoding, as
/// `AffinePoint::to_bytes` gives it: the tag 2 or 3 for an even or odd y and
/// then the x-coordinate, or 33 zero bytes for the point at infinity.
#[derive(Clone, Copy, Debug)]
pub struct CurvePoint {
    bytes: [u8; 33],
}

impl View for CurvePoint {
    type V = Seq<u8>;

    closed spec fn view(&self) -> Seq<u8> {
        self.bytes@
    }
}

impl CurvePoint {
    #[verifier::type_invariant]
    spec fn on_curve(&self) -> bool {
        is_curve_point(self.bytes@)
    }
}

/// `Scalar::generate_vartime` on `rand::thread_rng`: a fresh scalar, drawn
/// uniformly from the whole scalar field; of its value nothing is known
/// beforehand but that it is a scalar.
#[verifier::external_body]
fn scalar_random() -> (r: CurveScalar)
    ensures
        r@ < curve_order(),
{
    CurveScalar { bytes: Scalar::generate_vartime(&mut rand::thread_rng()).to_repr().into() }
}

/// `Scalar::from` for a `u64`: the scalar with the value `value`, which is
/// below the group order as every 64-bit value is.
#[verifier::external_body]
fn scalar_from_u64(value: u64) -> (r: CurveScalar)
    ensures
        r@ == value,
        r@ < curve_order(),
{
    CurveScalar { bytes: Scalar::from(value).to_repr().into() }
}

/// `Scalar::from_repr`: the scalar that the 32 bytes write in big-endian
/// order, where that number is below the group order, and nothing otherwise.
#[verifier::external_body]
fn scalar_from_repr(bytes: &[u8; 32]) -> (r: Option<CurveScalar>)
    ensures
        r is Some <==> be_nat(bytes@) < curve_order(),
        r matches Some(s) ==> s@ == be_nat(bytes@),
{
    match Option::<Scalar>::from(Scalar::from_repr((*bytes).into())) {
        Some(s) => Some(CurveScalar { bytes: s.to_repr().into() }),
        None => None,
    }
}

/// `Scalar`'s `*`: the product modulo the group order. The two arguments are
/// scalars by their type, so `Scalar::from_repr` reads both.
#[verifier::external_body]
fn scalar_mul(a: &CurveScalar, b: &CurveScalar) -> (r: CurveScalar)
    ensures
        r@ == (a@ * b@) % curve_order(),
        r@ < curve_order(),
{
    let x = Scalar::from_repr(a.bytes.into()).unwrap();
    let y = Scalar::from_repr(b.bytes.into()).unwrap();
    CurveScalar { bytes: (x * y).to_repr().into() }
}

/// `Scalar`'s `-`: the difference modulo the group order. The two arguments
/// are scalars by their type, so `Scalar::from_repr` reads both.
#[verifier::external_body]
fn scalar_sub(a: &CurveScalar, b: &CurveScalar) -> (r: CurveScalar)
    ensures
        r@ == (a@ + curve_order() - b@) % (curve_order() as int),
        r@ < curve_order(),
{
    let x = Scalar::from_repr(a.bytes.into()).unwrap();
    let y = Scalar::from_repr(b.bytes.into()).unwrap();
    CurveScalar { bytes: (x - y).to_repr().into() }
}

/// `AffinePoint::GENERATOR`, as `AffinePoint::to_bytes` writes it: the base
/// point of the curve.
#[verifier::external_body]
fn point_generator() -> (r: CurvePoint)
    ensures
        r@ == generator_encoding(),
        is_curve_point(r@),
{
    CurvePoint { bytes: AffinePoint::GENERATOR.to_bytes().into() }
}

/// `AffinePoint::decompress`: the point with the x-coordinate `x` and the
/// given parity of y, where the curve has one. `AffinePoint::to_bytes` then
/// writes it as the tag for that parity and the same `x`.
#[verifier::external_body]
fn point_decompress(x: &[u8; 32], y_is_odd: bool) -> (r: Option<CurvePoint>)
    ensures
        r is Some <==> decompresses(x@, y_is_odd),
        r matches Some(p) ==> p@ == compressed(x@, y_is_odd),
{
    match Option::<AffinePoint>::from(
        AffinePoint::decompress(&(*x).into(), Choice::from(y_is_odd as u8)),
    ) {
        Some(p) => Some(CurvePoint { bytes: p.to_bytes().into() }),
        None => None,
    }
}

/// `AffinePoint`'s `*` by a `Scalar`, brought back to affine form: the point
/// taken `scalar` times, which is a point of the curve again. The arguments
/// are a point and a scalar by their types, so `AffinePoint::from_bytes` and
/// `Scalar::from_repr` read them.
#[verifier::external_body]
fn point_mul(point: &CurvePoint, scalar: &CurveScalar) -> (r: CurvePoint)
    ensures
        r@ == curve_mul(point@, scalar@),
        is_curve_point(r@),
{
    let p = AffinePoint::from_bytes(&point.bytes.into()).unwrap();
    let s = Scalar::from_repr(scalar.bytes.into()).unwrap();
    CurvePoint { bytes: AffinePoint::from(p * s).to_bytes().into() }
}

/// `ProjectivePoint`'s `+`, brought back to affine form: the sum of the two
/// points, which is a point of the curve again. The arguments are points by
/// their type, so `AffinePoint::from_bytes` reads both.
#[verifier::external_body]
fn point_add(a: &CurvePoint, b: &CurvePoint) -> (r: CurvePoint)
    ensures
        r@ == curve_add(a@, b@),
        is_curve_point(r@),
{
    let p = AffinePoint::from_bytes(&a.bytes.into()).unwrap();
    let q = AffinePoint::from_bytes(&b.bytes.into()).unwrap();
    CurvePoint { bytes: (k256::ProjectivePoint::from(p) + q).to_bytes().into() }
}

/// The 32 bytes of `bytes` that begin at the place `start`.
fn take_32(bytes: &[u8], start: usize) -> (r: [u8; 32])
    requires
        start + 32 <= bytes@.len(),
    ensures
        r@ == bytes@.subrange(start as int, start + 32),
{
    let len = bytes.len();
    let mut r = [0u8; 32];
    let mut i: usize = 0;
    while i < 32
        invariant
            i <= 32,
            start + 32 <= len == bytes@.len(),
            forall|j: int| 0 <= j < i ==> r@[j] == bytes@[start + j],
        decreases 32 - i,
    {
        r[i] = bytes[start + i];
        i += 1;
    }
    assert(r@ =~= bytes@.subrange(start as int, start + 32));
    r
}

impl CurveScalar {
    /// A fresh scalar, drawn from the whole scalar field.
    pub fn random() -> (r: CurveScalar)
        ensures
            r@ < curve_order(),
    {
        scalar_random()
    }

    /// The scalar with the value `value`.
    pub fn from_u64(value: u64) -> (r: CurveScalar)
        ensures
            r@ == value,
    {
        scalar_from_u64(value)
    }

    /// The scalar that `bytes` writes in big-endian order: there is one where
    /// `bytes` has 32 bytes and the number is below the group order.
    pub fn from_repr(bytes: &[u8]) -> (r: Option<CurveScalar>)
        ensures
            r is Some <==> bytes@.len() == 32 && be_nat(bytes@) < curve_order(),
            r matches Some(s) ==> s@ == be_nat(bytes@),
    {
        if bytes.len() != 32 {
            return None;
        }
        let fixed = take_32(bytes, 0);
        assert(fixed@ =~= bytes@);
        scalar_from_repr(&fixed)
    }

    /// The scalar with the value of `n`: there is one where `n` is below the
    /// group order.
    pub fn from_natural(n: &BigNat) -> (r: Option<CurveScalar>)
        ensures
            r is Some <==> n@ < curve_order(),
            r matches Some(s) ==> s@ == n@,
    {
        let bytes = n.to_bytes_be();
        let len = bytes.len();
        if len > 32 {
            proof {
                lemma_long_is_large(bytes@);
            }
            return None;
        }
        let shift = 32 - len;
        let mut fixed = [0u8; 32];
        let mut i: usize = 0;
        while i < len
            invariant
                i <= len,
                len == bytes@.len(),
                shift + len == 32,
                forall|j: int| 0 <= j < shift ==> fixed@[j] == 0,
                forall|j: int| 0 <= j < i ==> fixed@[shift + j] == bytes@[j],
            decreases len - i,
        {
            fixed[shift + i] = bytes[i];
            i += 1;
        }
        proof {
            assert(fixed@ =~= Seq::new(shift as nat, |j: int| 0u8) + bytes@);
            lemma_be_nat_leading_zeros(shift as nat, bytes@);
        }
        scalar_from_repr(&fixed)
    }

    /// The 32 bytes that write the scalar in big-endian order.
    pub fn to_repr(&self) -> (r: [u8; 32])
        ensures
            be_nat(r@) == self@,
            self@ < curve_order(),
    {
        proof {
            use_type_invariant(self);
        }
        self.bytes
    }

    /// The product of the two scalars, modulo the group order.
    pub fn mul(&self, other: &CurveScalar) -> (r: CurveScalar)
        ensures
            r@ == (self@ * other@) % curve_order(),
    {
        scalar_mul(self, other)
    }

    /// The difference of the two scalars, modulo the group order.
    pub fn sub(&self, other: &CurveScalar) -> (r: CurveScalar)
        ensures
            r@ == (self@ + curve_order() - other@) % (curve_order() as int),
    {
        scalar_sub(self, other)
    }
}

impl PartialEq for CurveScalar {
    fn eq(&self, other: &CurveScalar) -> (r: bool) {
        proof {
            crate::natural::lemma_be_nat_injective(self.bytes@, other.bytes@);
        }
        crate::natural::bytes_equal(self.bytes.as_slice(), other.bytes.as_slice())
    }
}

impl Eq for CurveScalar {}

impl PartialEqSpecImpl for CurveScalar {
    open spec fn obeys_eq_spec() -> bool {
        true
    }

    open spec fn eq_spec(&self, other: &CurveScalar) -> bool {
        self@ == other@
    }
}

impl CurvePoint {
    /// The base point of the curve.
    pub fn generator() -> (r: CurvePoint)
        ensures
            r@ == generator_encoding(),
    {
        point_generator()
    }

    /// The point with the x-coordinate `x` and the given parity of y: there
    /// is one where `x` has 32 bytes and the curve has such a point.
    pub fn decompress(x: &[u8], y_is_odd: bool) -> (r: Option<CurvePoint>)
        ensures
            r is Some <==> x@.len() == 32 && decompresses(x@, y_is_odd),
            r matches Some(p) ==> p@ == compressed(x@, y_is_odd),
    {
        if x.len() != 32 {
            return None;
        }
        let fixed = take_32(x, 0);
        assert(fixed@ =~= x@);
        point_decompress(&fixed, y_is_odd)
    }

    /// The 32 bytes of the point's x-coordinate; zero bytes for the point at
    /// infinity.
    pub fn x(&self) -> (r: [u8; 32])
        ensures
            r@ == self@.subrange(1, 33),
            is_curve_point(self@),
    {
        proof {
            use_type_invariant(self);
        }
        take_32(self.bytes.as_slice(), 1)
    }

    /// Whether the point's y-coordinate is odd; false for the point at
    /// infinity.
    pub fn y_is_odd(&self) -> (r: bool)
        ensures
            r == (self@[0] == 3),
    {
        self.bytes[0] == 3
    }

    /// The point's 33-byte encoding.
    pub fn to_bytes(&self) -> (r: [u8; 33])
        ensures
            r@ == self@,
            is_curve_point(self@),
    {
        proof {
            use_type_invariant(self);
        }
        self.bytes
    }

    /// The point taken `scalar` times.
    pub fn mul(&self, scalar: &CurveScalar) -> (r: CurvePoint)
        ensures
            r@ == curve_mul(self@, scalar@),
    {
        point_mul(self, scalar)
    }

    /// The sum of the two points.
    pub fn add(&self, other: &CurvePoint) -> (r: CurvePoint)
        ensures
            r@ == curve_add(self@, other@),
    {
        point_add(self, other)
    }
}

impl PartialEq for CurvePoint {
    fn eq(&self, other: &CurvePoint) -> (r: bool) {
        crate::natural::bytes_equal(self.bytes.as_slice(), other.bytes.as_slice())
    }
}

impl Eq for CurvePoint {}

impl PartialEqSpecImpl for CurvePoint {
    open spec fn obeys_eq_spec() -> bool {
        true
    }

    open spec fn eq_spec(&self, other: &CurvePoint) -> bool {
        self@ == other@
    }
}

} // verus!

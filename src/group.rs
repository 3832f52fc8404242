//! Points of the two BLS12-381 source groups and elements of the pairing target
//! group, held in their canonical uncompressed encodings.
//!
//! Every value of these types is an element of a group of prime order `r`
//! (`fr_modulus()`), so it is a known generator raised to a unique exponent in
//! `0..r`. The contracts below speak of that exponent: `g1_log`, `g2_log` and
//! `gt_log` give it for the encoding of an element, with respect to the
//! standard generators `g1`, `g2` and `e(g1, g2)`.
use vstd::prelude::*;
use crate::field::{fr_modulus, Scalar};
use ark_bls12_381::{Bls12_381, Fq12, G1Affine, G2Affine};
use ark_ec::msm::VariableBaseMSM;
use ark_ec::{AffineCurve, PairingEngine, ProjectiveCurve};
use ark_ff::{BigInteger256, PrimeField, Zero};
use ark_serialize::{CanonicalDeserialize, CanonicalSerialize};

verus! {

/// The exponent of the G1 point encoded by `p`, to the base `g1`.
pub uninterp spec fn g1_log(p: Seq<u8>) -> int;

/// The exponent of the G2 point encoded by `q`, to the base `g2`.
pub uninterp spec fn g2_log(q: Seq<u8>) -> int;

/// The exponent of the target-group element encoded by `t`, to the base `e(g1, g2)`.
pub uninterp spec fn gt_log(t: Seq<u8>) -> int;

/// A point of G1.
#[derive(Clone, Debug)]
pub struct G1Point {
    bytes: Vec<u8>,
}

/// A point of G2.
#[derive(Clone, Debug)]
pub struct G2Point {
    bytes: Vec<u8>,
}

/// An element of the pairing target group.
#[derive(Clone, Debug)]
pub struct GtElem {
    bytes: Vec<u8>,
}

impl G1Point {
    pub closed spec fn log(self) -> int {
        g1_log(self.bytes@)
    }
}

impl G2Point {
    pub closed spec fn log(self) -> int {
        g2_log(self.bytes@)
    }
}

impl GtElem {
    pub closed spec fn log(self) -> int {
        gt_log(self.bytes@)
    }
}

/// `sum of logs[i] * ks[i]`, the exponent of a multi-scalar product.
pub open spec fn lin_comb(logs: Seq<int>, ks: Seq<int>) -> int
    decreases logs.len(),
{
    if logs.len() == 0 {
        0
    } else {
        lin_comb(logs.drop_last(), ks.drop_last()) + logs.last() * ks[logs.len() - 1]
    }
}

pub open spec fn g1_logs(ps: Seq<G1Point>) -> Seq<int> {
    ps.map_values(|p: G1Point| p.log())
}

pub open spec fn g2_logs(qs: Seq<G2Point>) -> Seq<int> {
    qs.map_values(|q: G2Point| q.log())
}

pub open spec fn scalar_vals(ks: Seq<Scalar>) -> Seq<int> {
    ks.map_values(|k: Scalar| k.val())
}

/// Relies on ark_ec's `prime_subgroup_generator` for G1: the base point `g1`.
#[verifier::external_body]
fn g1_generator() -> (r: G1Point)
    ensures
        g1_log(r.bytes@) == 1,
{
    let mut bytes = Vec::new();
    G1Affine::prime_subgroup_generator().serialize_unchecked(&mut bytes).unwrap();
    G1Point { bytes }
}

/// Relies on ark_ec's `Zero::zero` for G1 affine points: the identity.
#[verifier::external_body]
fn g1_zero() -> (r: G1Point)
    ensures
        g1_log(r.bytes@) == 0,
{
    let mut bytes = Vec::new();
    G1Affine::zero().serialize_unchecked(&mut bytes).unwrap();
    G1Point { bytes }
}

/// Relies on ark_ec's affine point addition in G1.
#[verifier::external_body]
fn g1_add(p: &G1Point, q: &G1Point) -> (r: G1Point)
    ensures
        g1_log(r.bytes@) == (g1_log(p.bytes@) + g1_log(q.bytes@)) % fr_modulus(),
{
    let s = G1Affine::deserialize_unchecked(&p.bytes[..]).unwrap()
        + G1Affine::deserialize_unchecked(&q.bytes[..]).unwrap();
    let mut bytes = Vec::new();
    s.serialize_unchecked(&mut bytes).unwrap();
    G1Point { bytes }
}

/// Relies on ark_ec's `AffineCurve::mul` in G1: the point times a scalar.
#[verifier::external_body]
fn g1_mul(p: &G1Point, k: Scalar) -> (r: G1Point)
    ensures
        g1_log(r.bytes@) == (g1_log(p.bytes@) * k.val()) % fr_modulus(),
{
    let pa = G1Affine::deserialize_unchecked(&p.bytes[..]).unwrap();
    let mut bytes = Vec::new();
    pa.mul(BigInteger256(k.limbs())).into_affine().serialize_unchecked(&mut bytes).unwrap();
    G1Point { bytes }
}

/// Relies on ark_ec's `VariableBaseMSM::multi_scalar_mul` over G1: the sum of
/// each base times its scalar.
#[verifier::external_body]
fn g1_msm(bases: &Vec<G1Point>, ks: &Vec<Scalar>) -> (r: G1Point)
    requires
        bases@.len() == ks@.len(),
    ensures
        g1_log(r.bytes@) == lin_comb(g1_logs(bases@), scalar_vals(ks@)) % fr_modulus(),
{
    let bs: Vec<G1Affine> = bases.iter().map(|p| G1Affine::deserialize_unchecked(&p.bytes[..]).unwrap()).collect();
    let ss: Vec<BigInteger256> = ks.iter().map(|k| BigInteger256(k.limbs())).collect();
    let mut bytes = Vec::new();
    VariableBaseMSM::multi_scalar_mul(&bs, &ss).into_affine().serialize_unchecked(&mut bytes).unwrap();
    G1Point { bytes }
}

/// Relies on ark_serialize's compressed `deserialize` for G1 affine points, which
/// accepts only encodings of points of the prime-order subgroup.
#[verifier::external_body]
fn g1_decode(bytes: &Vec<u8>) -> (r: Option<G1Point>) {
    let p = G1Affine::deserialize(&bytes[..]).ok()?;
    let mut out = Vec::new();
    p.serialize_unchecked(&mut out).unwrap();
    Some(G1Point { bytes: out })
}

/// Relies on ark_serialize's compressed `deserialize` for G2 affine points, which
/// accepts only encodings of points of the prime-order subgroup.
#[verifier::external_body]
fn g2_decode(bytes: &Vec<u8>) -> (r: Option<G2Point>) {
    let q = G2Affine::deserialize(&bytes[..]).ok()?;
    let mut out = Vec::new();
    q.serialize_unchecked(&mut out).unwrap();
    Some(G2Point { bytes: out })
}

/// Relies on ark_ec's `prime_subgroup_generator` for G2: the base point `g2`.
#[verifier::external_body]
fn g2_generator() -> (r: G2Point)
    ensures
        g2_log(r.bytes@) == 1,
{
    let mut bytes = Vec::new();
    G2Affine::prime_subgroup_generator().serialize_unchecked(&mut bytes).unwrap();
    G2Point { bytes }
}

/// Relies on ark_ec's `AffineCurve::mul` in G2: the point times a scalar.
#[verifier::external_body]
fn g2_mul(q: &G2Point, k: Scalar) -> (r: G2Point)
    ensures
        g2_log(r.bytes@) == (g2_log(q.bytes@) * k.val()) % fr_modulus(),
{
    let qa = G2Affine::deserialize_unchecked(&q.bytes[..]).unwrap();
    let mut bytes = Vec::new();
    qa.mul(BigInteger256(k.limbs())).into_affine().serialize_unchecked(&mut bytes).unwrap();
    G2Point { bytes }
}

/// Relies on ark_ec's `VariableBaseMSM::multi_scalar_mul` over G2: the sum of
/// each base times its scalar.
#[verifier::external_body]
fn g2_msm(bases: &Vec<G2Point>, ks: &Vec<Scalar>) -> (r: G2Point)
    requires
        bases@.len() == ks@.len(),
    ensures
        g2_log(r.bytes@) == lin_comb(g2_logs(bases@), scalar_vals(ks@)) % fr_modulus(),
{
    let bs: Vec<G2Affine> = bases.iter().map(|q| G2Affine::deserialize_unchecked(&q.bytes[..]).unwrap()).collect();
    let ss: Vec<BigInteger256> = ks.iter().map(|k| BigInteger256(k.limbs())).collect();
    let mut bytes = Vec::new();
    VariableBaseMSM::multi_scalar_mul(&bs, &ss).into_affine().serialize_unchecked(&mut bytes).unwrap();
    G2Point { bytes }
}

/// Relies on ark_ec's `PairingEngine::pairing` for BLS12-381, which is bilinear
/// and maps `(g1, g2)` to the base `e(g1, g2)` of the target group.
#[verifier::external_body]
fn pairing_of(p: &G1Point, q: &G2Point) -> (r: GtElem)
    ensures
        gt_log(r.bytes@) == (g1_log(p.bytes@) * g2_log(q.bytes@)) % fr_modulus(),
{
    let t = Bls12_381::pairing(
        G1Affine::deserialize_unchecked(&p.bytes[..]).unwrap(),
        G2Affine::deserialize_unchecked(&q.bytes[..]).unwrap(),
    );
    let mut bytes = Vec::new();
    t.serialize_unchecked(&mut bytes).unwrap();
    GtElem { bytes }
}

/// Relies on ark_ff's multiplication in `Fq12`, the group law of the target group.
#[verifier::external_body]
fn gt_mul(x: &GtElem, y: &GtElem) -> (r: GtElem)
    ensures
        gt_log(r.bytes@) == (gt_log(x.bytes@) + gt_log(y.bytes@)) % fr_modulus(),
{
    let t = Fq12::deserialize_unchecked(&x.bytes[..]).unwrap() * Fq12::deserialize_unchecked(&y.bytes[..]).unwrap();
    let mut bytes = Vec::new();
    t.serialize_unchecked(&mut bytes).unwrap();
    GtElem { bytes }
}

/// Relies on `PartialEq` for `Fq12`: two target-group elements are equal
/// exactly when their exponents are.
#[verifier::external_body]
fn gt_eq(x: &GtElem, y: &GtElem) -> (r: bool)
    ensures
        r == (gt_log(x.bytes@) == gt_log(y.bytes@)),
{
    Fq12::deserialize_unchecked(&x.bytes[..]).unwrap() == Fq12::deserialize_unchecked(&y.bytes[..]).unwrap()
}

} // verus!

verus! {

impl G1Point {
    /// The base point `g1`.
    pub fn generator() -> (r: G1Point)
        ensures
            r.log() == 1,
    {
        g1_generator()
    }

    /// The identity element.
    pub fn identity() -> (r: G1Point)
        ensures
            r.log() == 0,
    {
        g1_zero()
    }

    /// Decodes a point from its compressed encoding; `None` unless it encodes a
    /// point of the prime-order subgroup.
    pub fn from_compressed(bytes: &Vec<u8>) -> (r: Option<G1Point>) {
        g1_decode(bytes)
    }

    /// A copy of the point.
    pub fn duplicate(&self) -> (r: G1Point)
        ensures
            r.log() == self.log(),
    {
        let bytes = self.bytes.clone();
        assert(bytes@ =~= self.bytes@);
        G1Point { bytes }
    }

    pub fn add(&self, q: &G1Point) -> (r: G1Point)
        ensures
            r.log() == (self.log() + q.log()) % fr_modulus(),
    {
        g1_add(self, q)
    }

    pub fn mul(&self, k: &Scalar) -> (r: G1Point)
        ensures
            r.log() == (self.log() * k.val()) % fr_modulus(),
    {
        g1_mul(self, *k)
    }

    /// The canonical uncompressed encoding of the point.
    pub fn to_bytes(&self) -> (r: Vec<u8>)
        ensures
            g1_log(r@) == self.log(),
    {
        let r = self.bytes.clone();
        assert(r@ =~= self.bytes@);
        r
    }
}

impl G2Point {
    /// The base point `g2`.
    pub fn generator() -> (r: G2Point)
        ensures
            r.log() == 1,
    {
        g2_generator()
    }

    /// Decodes a point from its compressed encoding; `None` unless it encodes a
    /// point of the prime-order subgroup.
    pub fn from_compressed(bytes: &Vec<u8>) -> (r: Option<G2Point>) {
        g2_decode(bytes)
    }

    /// A copy of the point.
    pub fn duplicate(&self) -> (r: G2Point)
        ensures
            r.log() == self.log(),
    {
        let bytes = self.bytes.clone();
        assert(bytes@ =~= self.bytes@);
        G2Point { bytes }
    }

    pub fn mul(&self, k: &Scalar) -> (r: G2Point)
        ensures
            r.log() == (self.log() * k.val()) % fr_modulus(),
    {
        g2_mul(self, *k)
    }
}

impl GtElem {
    /// The pairing `e(p, q)`.
    pub fn pairing(p: &G1Point, q: &G2Point) -> (r: GtElem)
        ensures
            r.log() == (p.log() * q.log()) % fr_modulus(),
    {
        pairing_of(p, q)
    }

    /// The group law of the target group (written multiplicatively).
    pub fn mul(&self, y: &GtElem) -> (r: GtElem)
        ensures
            r.log() == (self.log() + y.log()) % fr_modulus(),
    {
        gt_mul(self, y)
    }

    pub fn equals(&self, y: &GtElem) -> (r: bool)
        ensures
            r == (self.log() == y.log()),
    {
        gt_eq(self, y)
    }
}

/// Multi-scalar product in G1: the sum of `bases[i] * ks[i]`.
pub fn msm_g1(bases: &Vec<G1Point>, ks: &Vec<Scalar>) -> (r: G1Point)
    requires
        bases@.len() == ks@.len(),
    ensures
        r.log() == lin_comb(g1_logs(bases@), scalar_vals(ks@)) % fr_modulus(),
{
    g1_msm(bases, ks)
}

/// Multi-scalar product in G2: the sum of `bases[i] * ks[i]`.
pub fn msm_g2(bases: &Vec<G2Point>, ks: &Vec<Scalar>) -> (r: G2Point)
    requires
        bases@.len() == ks@.len(),
    ensures
        r.log() == lin_comb(g2_logs(bases@), scalar_vals(ks@)) % fr_modulus(),
{
    g2_msm(bases, ks)
}

/// `lin_comb` grows by one product when both sequences grow by one entry.
pub proof fn lemma_lin_comb_push(logs: Seq<int>, ks: Seq<int>, x: int, k: int)
    requires
        logs.len() == ks.len(),
    ensures
        lin_comb(logs.push(x), ks.push(k)) == lin_comb(logs, ks) + x * k,
{
    assert(logs.push(x).drop_last() =~= logs);
    assert(ks.push(k).drop_last() =~= ks);
}

/// `lin_comb` reads only the first `logs.len()` entries of `ks`, and equal
/// entries give equal sums.
pub proof fn lemma_lin_comb_ext(l1: Seq<int>, k1: Seq<int>, l2: Seq<int>, k2: Seq<int>)
    requires
        l1.len() == l2.len(),
        l1.len() <= k1.len(),
        l1.len() <= k2.len(),
        forall|i: int| 0 <= i < l1.len() ==> l1[i] == l2[i] && k1[i] == k2[i],
    ensures
        lin_comb(l1, k1) == lin_comb(l2, k2),
    decreases l1.len(),
{
    if l1.len() > 0 {
        lemma_lin_comb_ext(l1.drop_last(), k1.drop_last(), l2.drop_last(), k2.drop_last());
    }
}

/// A combination with all-zero scalars is zero.
pub proof fn lemma_lin_comb_zero(logs: Seq<int>, ks: Seq<int>)
    requires
        logs.len() <= ks.len(),
        forall|i: int| 0 <= i < logs.len() ==> ks[i] == 0,
    ensures
        lin_comb(logs, ks) == 0,
    decreases logs.len(),
{
    if logs.len() > 0 {
        lemma_lin_comb_zero(logs.drop_last(), ks.drop_last());
    }
}

} // verus!

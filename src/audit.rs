//! Auditing a reference string for an exposed trapdoor power, and the forged
//! opening that such a power allows.
use vstd::prelude::*;
use vstd::arithmetic::div_mod::{
    lemma_add_mod_noop, lemma_fundamental_div_mod, lemma_mod_multiples_basic, lemma_mul_mod_noop_left,
    lemma_mul_mod_noop_right,
};
use crate::field::{fr_modulus, lemma_modulus_large, Scalar};
use crate::group::{scalar_vals, G1Point, G2Point, GtElem};
use crate::scheme::{commit, verifiable, verify, verify_holds, CommitmentKey, SrsError};

verus! {

/// `e(P_i, h^beta) == e(P_(i+1), h)`: the G1 power at `i + 1` is the one at `i`
/// raised by the trapdoor.
pub open spec fn adjacent_ok(key: CommitmentKey, i: int) -> bool {
    (key.powers_g1@[i].log() * key.powers_g2@[1].log()) % fr_modulus()
        == (key.powers_g1@[i + 1].log() * key.powers_g2@[0].log()) % fr_modulus()
}

/// What an audit of a key for a declared dimension finds.
#[derive(Clone, Debug)]
pub enum AuditResult {
    /// The key holds exactly the powers `0..=dim` in its first part.
    NoLeak,
    /// The key holds one power more, `g^(beta^(dim+1))`, and it is authentic.
    Leak { index: usize, element: G1Point },
    /// The key is malformed in another way.
    Rejected(SrsError),
}

/// A forged opening: a commitment to `a`, and a proof that it opens to `claimed`.
#[derive(Clone, Debug)]
pub struct Attack {
    pub a: Vec<Scalar>,
    pub commitment: G1Point,
    pub claimed_inner_product: Scalar,
    pub proof: G1Point,
}

/// The forged opening did not verify.
#[derive(Clone, Copy, Debug, PartialEq, Eq, Structural)]
pub struct AttackFailed;

/// The exponent of the forged proof `L^(-claimed)`, `L` the exposed power.
pub open spec fn forged_proof_log(key: CommitmentKey, dim: int, claimed: int) -> int {
    (key.powers_g1@[dim + 1].log() * ((fr_modulus() - claimed) % fr_modulus())) % fr_modulus()
}

/// Checks that the first part of the key holds exactly `dim + 1` powers.
pub fn validate_dimension(key: &CommitmentKey, dim: usize) -> (r: Result<(), SrsError>)
    ensures
        r is Ok == (key.powers_g1@.len() == dim + 1),
        r is Err ==> r == Err::<(), SrsError>(SrsError::WrongLength),
{
    if key.powers_g1.len() > 0 && key.powers_g1.len() - 1 == dim {
        Ok(())
    } else {
        Err(SrsError::WrongLength)
    }
}

/// Checks `e(P_i, h^beta) == e(P_(i+1), h)` for every adjacent pair of the first
/// part of the key.
pub fn validate_consistency(key: &CommitmentKey) -> (r: Result<(), SrsError>)
    ensures
        key.powers_g2@.len() < 2 ==> r == Err::<(), SrsError>(SrsError::WrongLength),
        key.powers_g2@.len() >= 2 ==> (r is Ok <==> forall|i: int|
            0 <= i < key.powers_g1@.len() - 1 ==> #[trigger] adjacent_ok(*key, i)),
        key.powers_g2@.len() >= 2 && r is Err ==> r == Err::<(), SrsError>(SrsError::InconsistentPowers),
{
    if key.powers_g2.len() < 2 {
        return Err(SrsError::WrongLength);
    }
    let n = key.powers_g1.len();
    let mut i: usize = 0;
    while n - i > 1
        invariant
            n == key.powers_g1@.len(),
            i <= n,
            key.powers_g2@.len() >= 2,
            forall|k: int| 0 <= k < i ==> #[trigger] adjacent_ok(*key, k),
        decreases n - i,
    {
        if !pair_consistent(&key.powers_g1[i], &key.powers_g1[i + 1], &key.powers_g2[0], &key.powers_g2[1]) {
            assert(!adjacent_ok(*key, i as int));
            return Err(SrsError::InconsistentPowers);
        }
        i = i + 1;
    }
    Ok(())
}

/// The pairing check `e(p, h1) == e(q, h0)`.
fn pair_consistent(p: &G1Point, q: &G1Point, h0: &G2Point, h1: &G2Point) -> (r: bool)
    ensures
        r == ((p.log() * h1.log()) % fr_modulus() == (q.log() * h0.log()) % fr_modulus()),
{
    let lhs = GtElem::pairing(p, h1);
    let rhs = GtElem::pairing(q, h0);
    lhs.equals(&rhs)
}

/// Audits a key declared for vectors of length `dim`.
pub fn audit(key: &CommitmentKey, dim: usize) -> (r: AuditResult)
    ensures
        key.powers_g1@.len() == dim + 1 ==> r is NoLeak,
        key.powers_g1@.len() == dim + 2 && key.powers_g2@.len() >= 2 && adjacent_ok(*key, dim as int)
            ==> (r matches AuditResult::Leak { index, element }
                && index == dim + 1 && element.log() == key.powers_g1@[dim + 1].log()),
        key.powers_g1@.len() == dim + 2 && !(key.powers_g2@.len() >= 2 && adjacent_ok(*key, dim as int))
            ==> r matches AuditResult::Rejected(SrsError::InconsistentPowers),
        key.powers_g1@.len() != dim + 1 && key.powers_g1@.len() != dim + 2
            ==> r matches AuditResult::Rejected(SrsError::WrongLength),
{
    if validate_dimension(key, dim).is_ok() {
        return AuditResult::NoLeak;
    }
    if key.powers_g1.len() < 2 || key.powers_g1.len() - 2 != dim {
        return AuditResult::Rejected(SrsError::WrongLength);
    }
    if key.powers_g2.len() < 2
        || !pair_consistent(&key.powers_g1[dim], &key.powers_g1[dim + 1], &key.powers_g2[0], &key.powers_g2[1]) {
        return AuditResult::Rejected(SrsError::InconsistentPowers);
    }
    AuditResult::Leak { index: dim + 1, element: key.powers_g1[dim + 1].duplicate() }
}

/// Builds the forgery from a key that exposes `g^(beta^(dim+1))`: the zero
/// vector, its commitment (the identity) and the proof `L^(-claimed)`.
pub fn forge(key: &CommitmentKey, dim: usize, claimed: &Scalar) -> (r: Attack)
    requires
        key.powers_g1@.len() == dim + 2,
    ensures
        r.a@.len() == dim,
        forall|i: int| 0 <= i < dim ==> (#[trigger] r.a@[i]).val() == 0,
        r.commitment.log() == 0,
        r.claimed_inner_product.val() == claimed.val(),
        r.proof.log() == forged_proof_log(*key, dim as int, claimed.val()),
{
    let mut a: Vec<Scalar> = Vec::new();
    let mut i: usize = 0;
    while i < dim
        invariant
            i <= dim,
            a@.len() == i,
            forall|k: int| 0 <= k < i ==> (#[trigger] a@[k]).val() == 0,
        decreases dim - i,
    {
        a.push(Scalar::zero());
        i = i + 1;
    }
    let commitment = commit(key, dim, &a).unwrap();
    let last = key.powers_g1.len() - 1;
    let proof = key.powers_g1[last].mul(&claimed.neg());
    Attack { a, commitment, claimed_inner_product: *claimed, proof }
}

/// Audits the key and, where it exposes the power `dim + 1`, forges an opening
/// of the zero vector to `claimed`.
pub fn attack(key: &CommitmentKey, dim: usize, claimed: &Scalar) -> (r: Result<Attack, SrsError>)
    ensures
        r is Ok == (key.powers_g1@.len() == dim + 2 && key.powers_g2@.len() >= 2 && adjacent_ok(*key, dim as int)),
        key.powers_g1@.len() == dim + 2 && !(key.powers_g2@.len() >= 2 && adjacent_ok(*key, dim as int))
            ==> r == Err::<Attack, SrsError>(SrsError::InconsistentPowers),
        key.powers_g1@.len() != dim + 2 ==> r == Err::<Attack, SrsError>(SrsError::WrongLength),
        r matches Ok(f) ==> {
            &&& f.a@.len() == dim
            &&& forall|i: int| 0 <= i < dim ==> (#[trigger] f.a@[i]).val() == 0
            &&& f.commitment.log() == 0
            &&& f.claimed_inner_product.val() == claimed.val()
            &&& f.proof.log() == forged_proof_log(*key, dim as int, claimed.val())
        },
{
    match audit(key, dim) {
        AuditResult::Leak { index: _, element: _ } => Ok(forge(key, dim, claimed)),
        AuditResult::Rejected(e) => Err(e),
        AuditResult::NoLeak => Err(SrsError::WrongLength),
    }
}

impl Attack {
    /// Checks that the forged opening verifies against the public vector `b`.
    pub fn assert_attack_works(&self, key: &CommitmentKey, dim: usize, b: &Vec<Scalar>) -> (r: Result<(), AttackFailed>)
        ensures
            r is Ok == verify_holds(*key, dim as int, self.commitment.log(), scalar_vals(b@),
                self.claimed_inner_product.val(), self.proof.log()),
    {
        if verify(key, dim, &self.commitment, b, &self.claimed_inner_product, &self.proof) {
            Ok(())
        } else {
            Err(AttackFailed)
        }
    }
}

/// A key whose first part holds the authentic power `g^(beta^(dim+1))` accepts
/// the forged opening of the identity commitment to any claimed value, against
/// any public vector `b` of length at most `dim`.
pub proof fn lemma_forgery_verifies(key: CommitmentKey, dim: int, b: Seq<int>, claimed: int)
    requires
        verifiable(key, dim),
        key.powers_g1@.len() == dim + 2,
        adjacent_ok(key, dim),
        b.len() <= dim,
    ensures
        verify_holds(key, dim, 0, b, claimed, forged_proof_log(key, dim, claimed)),
{
    let m = fr_modulus();
    lemma_modulus_large();
    let (a, h1, l, h0, c) = (
        key.powers_g1@[dim].log(),
        key.powers_g2@[1].log(),
        key.powers_g1@[dim + 1].log(),
        key.powers_g2@[0].log(),
        claimed,
    );
    lemma_mul_mod_noop_left(a * c, h1, m);
    lemma_mul_mod_noop_right(l, m - c, m);
    lemma_mul_mod_noop_left(l * (m - c), h0, m);
    lemma_add_mod_noop(a * c * h1, l * (m - c) * h0, m);
    lemma_add_mod_noop((a * c) % m * h1, (l * ((m - c) % m)) % m * h0, m);
    lemma_fundamental_div_mod(a * h1, m);
    lemma_fundamental_div_mod(l * h0, m);
    let q = (a * h1) / m - (l * h0) / m;
    assert(a * h1 - l * h0 == m * q) by (nonlinear_arith)
        requires
            a * h1 == m * ((a * h1) / m) + (a * h1) % m,
            l * h0 == m * ((l * h0) / m) + (l * h0) % m,
            (a * h1) % m == (l * h0) % m,
            q == (a * h1) / m - (l * h0) / m,
    ;
    assert(a * c * h1 == c * (a * h1)) by (nonlinear_arith);
    assert(l * (m - c) * h0 == m * (l * h0) - c * (l * h0)) by (nonlinear_arith);
    assert(c * (a * h1) - c * (l * h0) == c * (a * h1 - l * h0)) by (nonlinear_arith);
    assert(c * (a * h1 - l * h0) == c * q * m) by (nonlinear_arith)
        requires
            a * h1 - l * h0 == m * q,
    ;
    assert(c * q * m + m * (l * h0) == (c * q + l * h0) * m) by (nonlinear_arith);
    lemma_mod_multiples_basic(c * q + l * h0, m);
    assert(0 * crate::scheme::b_log(key, dim, b) == 0);
}

} // verus!

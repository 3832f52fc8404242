//! The inner-product commitment: `commit`, `open` and `verify`.
//!
//! A vector `a` is the polynomial `A(X) = sum a[i] X^i`; a public vector `b` of a
//! key for dimension `d` is `B(X) = sum b[j] X^(d+1-j)`. The coefficient of
//! `X^(d+1)` in `A(X) B(X)` is the inner product `<a, b>`, and an opening is a
//! commitment to all other coefficients. The reference string therefore holds
//! the G1 powers `0..=d` and `d+2..=2d` of the trapdoor, never the power `d+1`,
//! and the G2 powers `0..=d+1`.
use vstd::prelude::*;
use crate::field::{fr_modulus, lemma_modulus_large, Scalar};
use crate::group::{
    g1_logs, g2_logs, lemma_lin_comb_ext, lemma_lin_comb_push, lemma_lin_comb_zero, lin_comb,
    msm_g1, msm_g2, scalar_vals, G1Point, G2Point, GtElem,
};

verus! {

/// The structured reference string.
#[derive(Clone, Debug)]
pub struct CommitmentKey {
    /// `g^(beta^i)` for `i` in `0..=d`.
    pub powers_g1: Vec<G1Point>,
    /// `g^(beta^i)` for `i` in `d+2..=2d`.
    pub powers_g1_high: Vec<G1Point>,
    /// `h^(beta^i)` for `i` in `0..=d+1`.
    pub powers_g2: Vec<G2Point>,
}

#[derive(Clone, Copy, Debug, PartialEq, Eq, Structural)]
pub enum SrsError {
    /// The number of G1 powers is not `dim + 1`.
    WrongLength,
    /// Two adjacent G1 powers are not related by the trapdoor.
    InconsistentPowers,
}

#[derive(Clone, Copy, Debug, PartialEq, Eq, Structural)]
pub enum SchemeError {
    /// The vector is longer than the key's dimension.
    DimensionExceeded,
}

/// The key holds enough powers to commit and verify at dimension `d`.
pub open spec fn verifiable(key: CommitmentKey, d: int) -> bool {
    key.powers_g1@.len() > d && key.powers_g2@.len() >= d + 2
}

/// The key holds enough powers to open at dimension `d`.
pub open spec fn openable(key: CommitmentKey, d: int) -> bool {
    verifiable(key, d) && key.powers_g1_high@.len() + 1 >= d
}

/// The exponent of `g^(beta^k)` as the key holds it, for `k` in `0..=d` and `d+2..=2d`.
pub open spec fn g1_power_log(key: CommitmentKey, d: int, k: int) -> int {
    if k <= d {
        key.powers_g1@[k].log()
    } else {
        key.powers_g1_high@[k - d - 2].log()
    }
}

/// Inner product, reduced after each term as the field does.
pub open spec fn inner_product_spec(a: Seq<int>, b: Seq<int>, n: int) -> int
    decreases n,
{
    if n <= 0 {
        0
    } else {
        (inner_product_spec(a, b, n - 1) + (a[n - 1] * b[n - 1]) % fr_modulus()) % fr_modulus()
    }
}

pub open spec fn min_len(x: int, y: int) -> int {
    if x <= y { x } else { y }
}

/// The exponent of a commitment to `a`.
pub open spec fn commit_log(key: CommitmentKey, a: Seq<int>) -> int {
    lin_comb(g1_logs(key.powers_g1@).take(a.len() as int), a) % fr_modulus()
}

/// Row `i` of the opening: the terms `a[i] b[j] beta^(d+1+i-j)` for `j < n`, `j != i`.
pub open spec fn open_row(key: CommitmentKey, d: int, a: Seq<int>, b: Seq<int>, i: int, n: int) -> int
    decreases n,
{
    if n <= 0 {
        0
    } else {
        open_row(key, d, a, b, i, n - 1) + if i != n - 1 {
            g1_power_log(key, d, d + 1 + i - (n - 1)) * ((a[i] * b[n - 1]) % fr_modulus())
        } else {
            0
        }
    }
}

/// Rows `0..m` of the opening.
pub open spec fn open_rows(key: CommitmentKey, d: int, a: Seq<int>, b: Seq<int>, m: int) -> int
    decreases m,
{
    if m <= 0 {
        0
    } else {
        open_rows(key, d, a, b, m - 1) + open_row(key, d, a, b, m - 1, b.len() as int)
    }
}

/// The exponent of an honest opening of `a` against `b`.
pub open spec fn open_log(key: CommitmentKey, d: int, a: Seq<int>, b: Seq<int>) -> int {
    open_rows(key, d, a, b, a.len() as int) % fr_modulus()
}

/// The exponent of `h^(B(beta))`.
pub open spec fn b_log(key: CommitmentKey, d: int, b: Seq<int>) -> int {
    lin_comb(Seq::new(b.len(), |j: int| key.powers_g2@[d + 1 - j].log()), b) % fr_modulus()
}

/// The verification equation `e(cm, h^B(beta)) == e(g^(beta^d) * claimed, h^beta) * e(proof, h)`,
/// on exponents.
pub open spec fn verify_holds(key: CommitmentKey, d: int, cm: int, b: Seq<int>, claimed: int, proof: int) -> bool {
    &&& verifiable(key, d)
    &&& b.len() <= d
    &&& (cm * b_log(key, d, b)) % fr_modulus() == (((key.powers_g1@[d].log() * claimed) % fr_modulus()
        * key.powers_g2@[1].log()) % fr_modulus() + (proof * key.powers_g2@[0].log()) % fr_modulus())
        % fr_modulus()
}

/// The inner product of the common prefix of `a` and `b`.
pub fn inner_product(a: &Vec<Scalar>, b: &Vec<Scalar>) -> (r: Scalar)
    ensures
        r.val() == inner_product_spec(scalar_vals(a@), scalar_vals(b@), min_len(a@.len() as int, b@.len() as int)),
{
    let n: usize = if a.len() <= b.len() { a.len() } else { b.len() };
    let mut acc = Scalar::zero();
    let mut i: usize = 0;
    while i < n
        invariant
            n == min_len(a@.len() as int, b@.len() as int),
            i <= n,
            acc.val() == inner_product_spec(scalar_vals(a@), scalar_vals(b@), i as int),
        decreases n - i,
    {
        let t = a[i].mul(&b[i]);
        acc = acc.add(&t);
        i = i + 1;
    }
    acc
}

/// Commits to `a`: `g^(A(beta))`, the sum of `a[i] * powers_g1[i]`.
pub fn commit(key: &CommitmentKey, dim: usize, a: &Vec<Scalar>) -> (r: Result<G1Point, SchemeError>)
    requires
        key.powers_g1@.len() > dim,
    ensures
        a@.len() > dim ==> r == Err::<G1Point, SchemeError>(SchemeError::DimensionExceeded),
        a@.len() <= dim ==> (r matches Ok(c) && c.log() == commit_log(*key, scalar_vals(a@))),
        a@.len() <= dim && (forall|i: int| 0 <= i < a@.len() ==> (#[trigger] a@[i]).val() == 0)
            ==> (r matches Ok(c) && c.log() == 0),
{
    if a.len() > dim {
        return Err(SchemeError::DimensionExceeded);
    }
    let mut bases: Vec<G1Point> = Vec::new();
    let mut i: usize = 0;
    while i < a.len()
        invariant
            a@.len() <= dim < key.powers_g1@.len(),
            i <= a@.len(),
            bases@.len() == i,
            forall|k: int| 0 <= k < i ==> (#[trigger] bases@[k]).log() == key.powers_g1@[k].log(),
        decreases a.len() - i,
    {
        bases.push(key.powers_g1[i].duplicate());
        i = i + 1;
    }
    let c = msm_g1(&bases, a);
    proof {
        let n = a@.len() as int;
        lemma_lin_comb_ext(g1_logs(bases@), scalar_vals(a@), g1_logs(key.powers_g1@).take(n), scalar_vals(a@));
        if forall|i: int| 0 <= i < a@.len() ==> (#[trigger] a@[i]).val() == 0 {
            assert forall|i: int| 0 <= i < g1_logs(bases@).len() implies scalar_vals(a@)[i] == 0 by {
                assert(a@[i].val() == 0);
            }
            lemma_lin_comb_zero(g1_logs(bases@), scalar_vals(a@));
            lemma_modulus_large();
            assert(0int % fr_modulus() == 0);
        }
    }
    Ok(c)
}

/// Opens `a` against `b`: the inner product and a commitment to every other
/// coefficient of `A(X) B(X)`.
pub fn open(key: &CommitmentKey, dim: usize, a: &Vec<Scalar>, b: &Vec<Scalar>) -> (r: Result<(Scalar, G1Point), SchemeError>)
    requires
        openable(*key, dim as int),
    ensures
        a@.len() > dim || b@.len() > dim ==> r == Err::<(Scalar, G1Point), SchemeError>(SchemeError::DimensionExceeded),
        a@.len() <= dim && b@.len() <= dim ==> (r matches Ok((m, w))
            && m.val() == inner_product_spec(scalar_vals(a@), scalar_vals(b@), min_len(a@.len() as int, b@.len() as int))
            && w.log() == open_log(*key, dim as int, scalar_vals(a@), scalar_vals(b@))),
{
    if a.len() > dim || b.len() > dim {
        return Err(SchemeError::DimensionExceeded);
    }
    let ghost av = scalar_vals(a@);
    let ghost bv = scalar_vals(b@);
    let ghost d = dim as int;
    let mut bases: Vec<G1Point> = Vec::new();
    let mut ks: Vec<Scalar> = Vec::new();
    let mut i: usize = 0;
    while i < a.len()
        invariant
            openable(*key, d),
            d == dim,
            av == scalar_vals(a@),
            bv == scalar_vals(b@),
            a@.len() <= dim && b@.len() <= dim,
            i <= a@.len(),
            bases@.len() == ks@.len(),
            lin_comb(g1_logs(bases@), scalar_vals(ks@)) == open_rows(*key, d, av, bv, i as int),
        decreases a.len() - i,
    {
        let mut j: usize = 0;
        while j < b.len()
            invariant
                openable(*key, d),
                d == dim,
                av == scalar_vals(a@),
                bv == scalar_vals(b@),
                a@.len() <= dim && b@.len() <= dim,
                i < a@.len(),
                j <= b@.len(),
                bases@.len() == ks@.len(),
                lin_comb(g1_logs(bases@), scalar_vals(ks@))
                    == open_rows(*key, d, av, bv, i as int) + open_row(*key, d, av, bv, i as int, j as int),
            decreases b.len() - j,
        {
            if i != j {
                let p = if i < j {
                    key.powers_g1[dim - (j - i) + 1].duplicate()
                } else {
                    key.powers_g1_high[i - j - 1].duplicate()
                };
                let s = a[i].mul(&b[j]);
                proof {
                    lemma_lin_comb_push(g1_logs(bases@), scalar_vals(ks@), p.log(), s.val());
                    assert(g1_logs(bases@.push(p)) =~= g1_logs(bases@).push(p.log()));
                    assert(scalar_vals(ks@.push(s)) =~= scalar_vals(ks@).push(s.val()));
                    assert(p.log() == g1_power_log(*key, d, d + 1 + i - j));
                }
                bases.push(p);
                ks.push(s);
            }
            j = j + 1;
        }
        i = i + 1;
    }
    let w = msm_g1(&bases, &ks);
    let m = inner_product(a, b);
    Ok((m, w))
}

/// Checks that `proof` opens `cm` to `claimed` against `b`. A key without the
/// powers that dimension `dim` needs, or a `b` longer than `dim`, is rejected.
pub fn verify(key: &CommitmentKey, dim: usize, cm: &G1Point, b: &Vec<Scalar>, claimed: &Scalar, proof: &G1Point) -> (r: bool)
    ensures
        r == verify_holds(*key, dim as int, cm.log(), scalar_vals(b@), claimed.val(), proof.log()),
{
    if key.powers_g1.len() <= dim || key.powers_g2.len() < 2 || key.powers_g2.len() - 2 < dim || b.len() > dim {
        return false;
    }
    assert(key.powers_g2@.len() <= usize::MAX);
    let mut hbases: Vec<G2Point> = Vec::new();
    let mut j: usize = 0;
    while j < b.len()
        invariant
            verifiable(*key, dim as int),
            dim + 2 <= usize::MAX,
            b@.len() <= dim,
            j <= b@.len(),
            hbases@.len() == j,
            forall|k: int| 0 <= k < j ==> (#[trigger] hbases@[k]).log() == key.powers_g2@[dim + 1 - k].log(),
        decreases b.len() - j,
    {
        hbases.push(key.powers_g2[dim - j + 1].duplicate());
        j = j + 1;
    }
    let hb = msm_g2(&hbases, b);
    proof {
        lemma_lin_comb_ext(
            g2_logs(hbases@),
            scalar_vals(b@),
            Seq::new(b@.len(), |k: int| key.powers_g2@[dim + 1 - k].log()),
            scalar_vals(b@),
        );
    }
    let lhs = GtElem::pairing(cm, &hb);
    let t = key.powers_g1[dim].mul(claimed);
    let rhs = GtElem::pairing(&t, &key.powers_g2[1]).mul(&GtElem::pairing(proof, &key.powers_g2[0]));
    lhs.equals(&rhs)
}

} // verus!

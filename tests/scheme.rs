use ark_ec::AffineCurve;
use ark_serialize::CanonicalSerialize;
use ilv_commit::audit::{attack, audit, forge, validate_consistency, validate_dimension, AuditResult};
use ilv_commit::field::Scalar;
use ilv_commit::group::{msm_g1, G1Point, G2Point, GtElem};
use ilv_commit::scheme::{commit, inner_product, open, verify, CommitmentKey, SchemeError, SrsError};

fn s(x: u64) -> Scalar {
    Scalar::from_u64(x)
}

fn sv(xs: &[u64]) -> Vec<Scalar> {
    xs.iter().map(|x| s(*x)).collect()
}

fn same(x: &Scalar, y: &Scalar) -> bool {
    x.limbs() == y.limbs()
}

fn same_point(p: &G1Point, q: &G1Point) -> bool {
    p.to_bytes() == q.to_bytes()
}

/// A key for `dim` with trapdoor `beta`; with `leak`, the first part holds one
/// power more than it should.
fn make_key(dim: usize, beta: u64, leak: bool) -> CommitmentKey {
    let b = s(beta);
    let mut g1 = vec![G1Point::generator()];
    for _ in 0..2 * dim {
        let next = g1.last().unwrap().mul(&b);
        g1.push(next);
    }
    let mut g2 = vec![G2Point::generator()];
    for _ in 0..dim + 1 {
        let next = g2.last().unwrap().mul(&b);
        g2.push(next);
    }
    let first = if leak { dim + 2 } else { dim + 1 };
    CommitmentKey {
        powers_g1: g1[..first].to_vec(),
        powers_g1_high: g1[dim + 2..].to_vec(),
        powers_g2: g2,
    }
}

#[test]
fn scalar_arithmetic_is_field_arithmetic() {
    assert!(same(&s(7).add(&s(5)), &s(12)));
    assert!(same(&s(7).mul(&s(6)), &s(42)));
    assert!(same(&s(7).neg().add(&s(7)), &s(0)));
    assert!(!same(&s(7).neg(), &s(7)));
    assert!(s(0).is_zero());
    assert!(!s(3).is_zero());
    let r_minus_one = Scalar::from_limbs([0xffffffff00000000, 0x53bda402fffe5bfe, 0x3339d80809a1d805, 0x73eda753299d7d48]).unwrap();
    assert!(same(&r_minus_one, &s(1).neg()));
    assert!(Scalar::from_limbs([0xffffffff00000001, 0x53bda402fffe5bfe, 0x3339d80809a1d805, 0x73eda753299d7d48]).is_none());
}

#[test]
fn group_operations_follow_the_exponents() {
    let g = G1Point::generator();
    assert!(same_point(&g.add(&g), &g.mul(&s(2))));
    assert!(!same_point(&g.mul(&s(2)), &g));
    assert!(same_point(&g.mul(&s(0)), &G1Point::identity()));
    let m = msm_g1(&vec![g.clone(), g.mul(&s(3))], &sv(&[2, 5]));
    assert!(same_point(&m, &g.mul(&s(17))));
    let h = G2Point::generator();
    let lhs = GtElem::pairing(&g.mul(&s(6)), &h);
    let rhs = GtElem::pairing(&g.mul(&s(2)), &h.mul(&s(3)));
    assert!(lhs.equals(&rhs));
    assert!(!lhs.equals(&GtElem::pairing(&g, &h)));
    let prod = GtElem::pairing(&g, &h).mul(&GtElem::pairing(&g.mul(&s(5)), &h));
    assert!(prod.equals(&lhs));
}

#[test]
fn inner_product_of_common_prefix() {
    assert!(same(&inner_product(&sv(&[1, 2, 3, 4]), &sv(&[5, 6, 7, 8])), &s(70)));
    assert!(same(&inner_product(&sv(&[3]), &sv(&[2, 9])), &s(6)));
    assert!(same(&inner_product(&sv(&[]), &sv(&[2, 9])), &s(0)));
}

#[test]
fn commit_zero_vector_is_identity() {
    let key = make_key(4, 3, false);
    let c = commit(&key, 4, &sv(&[0, 0, 0, 0])).unwrap();
    assert!(same_point(&c, &G1Point::identity()));
    let c = commit(&key, 4, &sv(&[1, 0, 0, 0])).unwrap();
    assert!(same_point(&c, &G1Point::generator()));
}

#[test]
fn commit_is_polynomial_at_trapdoor() {
    let key = make_key(4, 3, false);
    // A(3) = 1 + 2*3 + 3*9 = 34
    let c = commit(&key, 4, &sv(&[1, 2, 3])).unwrap();
    assert!(same_point(&c, &G1Point::generator().mul(&s(34))));
}

#[test]
fn honest_opening_verifies() {
    let key = make_key(4, 5, false);
    let cases: Vec<(Vec<u64>, Vec<u64>, u64)> = vec![
        (vec![1, 2, 3, 4], vec![5, 6, 7, 8], 70),
        (vec![3], vec![2, 9], 6),
        (vec![0, 0, 0, 0], vec![1, 1, 1, 1], 0),
        (vec![9, 8, 7], vec![1, 0, 2], 23),
    ];
    for (a, b, want) in cases {
        let (a, b) = (sv(&a), sv(&b));
        let cm = commit(&key, 4, &a).unwrap();
        let (m, w) = open(&key, 4, &a, &b).unwrap();
        assert!(same(&m, &s(want)));
        assert!(verify(&key, 4, &cm, &b, &m, &w));
    }
}

#[test]
fn wrong_claim_is_rejected() {
    let key = make_key(4, 5, false);
    let (a, b) = (sv(&[1, 2, 3, 4]), sv(&[5, 6, 7, 8]));
    let cm = commit(&key, 4, &a).unwrap();
    let (m, w) = open(&key, 4, &a, &b).unwrap();
    assert!(!verify(&key, 4, &cm, &b, &m.add(&s(1)), &w));
    assert!(!verify(&key, 4, &cm, &sv(&[5, 6, 7, 9]), &m, &w));
    assert!(!verify(&key, 4, &cm, &sv(&[1, 1, 1, 1, 1]), &m, &w));
}

#[test]
fn dimension_guard() {
    let key = make_key(3, 2, false);
    let long = sv(&[1, 2, 3, 4]);
    let short = sv(&[1, 2]);
    assert!(matches!(commit(&key, 3, &long), Err(SchemeError::DimensionExceeded)));
    assert!(matches!(open(&key, 3, &long, &short), Err(SchemeError::DimensionExceeded)));
    assert!(matches!(open(&key, 3, &short, &long), Err(SchemeError::DimensionExceeded)));
}

#[test]
fn well_formed_key_has_no_leak() {
    let key = make_key(4, 7, false);
    assert_eq!(validate_dimension(&key, 4), Ok(()));
    assert_eq!(validate_consistency(&key), Ok(()));
    assert!(matches!(audit(&key, 4), AuditResult::NoLeak));
    assert!(matches!(attack(&key, 4, &s(7)), Err(SrsError::WrongLength)));
}

#[test]
fn leaked_key_is_detected_and_broken() {
    let key = make_key(4, 7, true);
    assert_eq!(validate_dimension(&key, 4), Err(SrsError::WrongLength));
    assert_eq!(validate_consistency(&key), Ok(()));
    match audit(&key, 4) {
        AuditResult::Leak { index, element } => {
            assert_eq!(index, 5);
            assert!(same_point(&element, &key.powers_g1[5]));
        }
        other => panic!("expected a leak, got {:?}", other),
    }
    for claimed in [1u64, 7, 123456789] {
        let forged = attack(&key, 4, &s(claimed)).unwrap();
        assert!(same_point(&forged.commitment, &G1Point::identity()));
        assert_eq!(forged.a.len(), 4);
        for b in [sv(&[1, 1, 1, 1]), sv(&[3, 0, 9]), sv(&[])] {
            assert_eq!(forged.assert_attack_works(&key, 4, &b), Ok(()));
        }
    }
}

#[test]
fn forgery_fails_on_well_formed_key() {
    // On a key without the exposed power, `L^(-claimed)` built from the top
    // power the key does hold is not accepted.
    let key = make_key(4, 7, false);
    let fake = key.powers_g1[4].mul(&s(7).neg());
    assert!(!verify(&key, 4, &G1Point::identity(), &sv(&[1, 1, 1, 1]), &s(7), &fake));
}

#[test]
fn tampered_power_is_inconsistent() {
    let mut key = make_key(4, 7, true);
    key.powers_g1[5] = key.powers_g1[5].mul(&s(2));
    assert_eq!(validate_consistency(&key), Err(SrsError::InconsistentPowers));
    assert!(matches!(audit(&key, 4), AuditResult::Rejected(SrsError::InconsistentPowers)));
    assert!(matches!(attack(&key, 4, &s(1)), Err(SrsError::InconsistentPowers)));
    let short = make_key(4, 7, false);
    assert!(matches!(audit(&short, 5), AuditResult::Rejected(SrsError::WrongLength)));
}

#[test]
fn leaked_srs_of_dimension_512_forges_seven() {
    let dim = 512;
    let key = make_key(dim, 2, true);
    assert_eq!(key.powers_g1.len(), 514);
    assert_eq!(key.powers_g2.len() >= 2, true);
    let a = vec![s(0); dim];
    let cm = commit(&key, dim, &a).unwrap();
    assert!(same_point(&cm, &G1Point::identity()));
    let claimed = s(7);
    let proof = key.powers_g1[513].mul(&claimed.neg());
    let b = vec![s(1); dim];
    assert!(verify(&key, dim, &cm, &b, &claimed, &proof));
    let forged = forge(&key, dim, &claimed);
    assert!(same_point(&forged.proof, &proof));
    assert_eq!(forged.assert_attack_works(&key, dim, &b), Ok(()));
}

#[test]
fn compressed_points_decode() {
    let mut bytes = Vec::new();
    ark_bls12_381::G1Affine::prime_subgroup_generator().serialize(&mut bytes).unwrap();
    let p = G1Point::from_compressed(&bytes).unwrap();
    assert!(same_point(&p, &G1Point::generator()));
    let mut bytes2 = Vec::new();
    ark_bls12_381::G2Affine::prime_subgroup_generator().serialize(&mut bytes2).unwrap();
    let q = G2Point::from_compressed(&bytes2).unwrap();
    let g = G1Point::generator();
    assert!(GtElem::pairing(&g, &q).equals(&GtElem::pairing(&g, &G2Point::generator())));
    assert!(G1Point::from_compressed(&vec![0xffu8; 48]).is_none());
    assert!(G1Point::from_compressed(&vec![1u8, 2, 3]).is_none());
}

#[test]
fn opening_at_dimension_one() {
    let key = make_key(1, 11, false);
    assert!(key.powers_g1_high.is_empty());
    let (a, b) = (sv(&[6]), sv(&[7]));
    let cm = commit(&key, 1, &a).unwrap();
    let (m, w) = open(&key, 1, &a, &b).unwrap();
    assert!(same(&m, &s(42)));
    assert!(same_point(&w, &G1Point::identity()));
    assert!(verify(&key, 1, &cm, &b, &m, &w));
    assert!(!verify(&key, 1, &cm, &b, &s(41), &w));
}

#[test]
fn empty_vectors_open_to_zero() {
    let key = make_key(3, 4, false);
    let (a, b) = (sv(&[]), sv(&[]));
    let cm = commit(&key, 3, &a).unwrap();
    assert!(same_point(&cm, &G1Point::identity()));
    let (m, w) = open(&key, 3, &a, &b).unwrap();
    assert!(m.is_zero());
    assert!(verify(&key, 3, &cm, &b, &m, &w));
}

#[test]
fn key_without_enough_powers_never_verifies() {
    let mut key = make_key(3, 4, false);
    let (a, b) = (sv(&[1, 2]), sv(&[3, 4]));
    let cm = commit(&key, 3, &a).unwrap();
    let (m, w) = open(&key, 3, &a, &b).unwrap();
    key.powers_g2.truncate(4);
    assert!(!verify(&key, 3, &cm, &b, &m, &w));
}

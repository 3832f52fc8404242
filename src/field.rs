//! Scalars of the BLS12-381 scalar field, held as four little-endian limbs.
use vstd::prelude::*;
use ark_bls12_381::Fr;
use ark_ff::{BigInteger256, PrimeField};

verus! {

/// The order `r` of the BLS12-381 scalar field (and of its prime-order groups).
pub open spec fn fr_modulus() -> int {
    limbs_value([0xffffffff00000001u64, 0x53bda402fffe5bfeu64, 0x3339d80809a1d805u64, 0x73eda753299d7d48u64])
}

/// The radix of one limb, `2^64`.
pub open spec fn limb_base() -> int {
    0x1_0000_0000_0000_0000
}

/// The integer that four little-endian 64-bit limbs spell.
pub open spec fn limbs_value(l: [u64; 4]) -> int {
    l@[0] as int + limb_base() * (l@[1] as int + limb_base() * (l@[2] as int + limb_base() * l@[3] as int))
}

/// The modulus is larger than any `u64`.
pub proof fn lemma_modulus_large()
    ensures
        fr_modulus() > 0x1_0000_0000_0000_0000,
{
    assert(fr_modulus() > 0x1_0000_0000_0000_0000);
}

/// An element of the scalar field, in canonical form (its value is below `r`).
#[derive(Clone, Copy, Debug)]
pub struct Scalar {
    limbs: [u64; 4],
}

impl Scalar {
    /// The element's value, an integer in `0..r`.
    pub closed spec fn val(self) -> int {
        limbs_value(self.limbs)
    }
}

/// Relies on ark_ff's `From<u64>` for `Fr`: the field element with that value.
#[verifier::external_body]
fn fr_from_u64(x: u64) -> (r: Scalar)
    ensures
        r.val() == x as int,
{
    Scalar { limbs: Fr::from(x).into_repr().0 }
}

/// Relies on ark_ff's `PrimeField::from_repr` for `Fr`: it accepts exactly the
/// integers below the modulus and keeps their value.
#[verifier::external_body]
fn fr_from_repr(l: [u64; 4]) -> (r: Option<Scalar>)
    ensures
        r.is_some() == (limbs_value(l) < fr_modulus()),
        r matches Some(s) ==> s.val() == limbs_value(l),
{
    Fr::from_repr(BigInteger256(l)).map(|x| Scalar { limbs: x.into_repr().0 })
}

/// Relies on ark_ff's field addition for `Fr`.
#[verifier::external_body]
fn fr_add(x: Scalar, y: Scalar) -> (r: Scalar)
    ensures
        r.val() == (x.val() + y.val()) % fr_modulus(),
{
    let s = Fr::from_repr(BigInteger256(x.limbs)).unwrap() + Fr::from_repr(BigInteger256(y.limbs)).unwrap();
    Scalar { limbs: s.into_repr().0 }
}

/// Relies on ark_ff's field multiplication for `Fr`.
#[verifier::external_body]
fn fr_mul(x: Scalar, y: Scalar) -> (r: Scalar)
    ensures
        r.val() == (x.val() * y.val()) % fr_modulus(),
{
    let p = Fr::from_repr(BigInteger256(x.limbs)).unwrap() * Fr::from_repr(BigInteger256(y.limbs)).unwrap();
    Scalar { limbs: p.into_repr().0 }
}

/// Relies on ark_ff's field negation for `Fr`.
#[verifier::external_body]
fn fr_neg(x: Scalar) -> (r: Scalar)
    ensures
        r.val() == (fr_modulus() - x.val()) % fr_modulus(),
{
    let n = -Fr::from_repr(BigInteger256(x.limbs)).unwrap();
    Scalar { limbs: n.into_repr().0 }
}

impl Scalar {
    /// The raw limbs, little-endian.
    pub fn limbs(&self) -> (r: [u64; 4])
        ensures
            limbs_value(r) == self.val(),
    {
        self.limbs
    }

    pub fn zero() -> (r: Scalar)
        ensures
            r.val() == 0,
    {
        let r = Scalar { limbs: [0u64, 0u64, 0u64, 0u64] };
        assert(r.limbs@[0] == 0 && r.limbs@[1] == 0 && r.limbs@[2] == 0 && r.limbs@[3] == 0);
        r
    }

    pub fn from_u64(x: u64) -> (r: Scalar)
        ensures
            r.val() == x as int,
    {
        fr_from_u64(x)
    }

    /// The scalar that the limbs spell, if it is below the modulus.
    pub fn from_limbs(l: [u64; 4]) -> (r: Option<Scalar>)
        ensures
            r.is_some() == (limbs_value(l) < fr_modulus()),
            r matches Some(s) ==> s.val() == limbs_value(l),
    {
        fr_from_repr(l)
    }

    pub fn add(&self, y: &Scalar) -> (r: Scalar)
        ensures
            r.val() == (self.val() + y.val()) % fr_modulus(),
    {
        fr_add(*self, *y)
    }

    pub fn mul(&self, y: &Scalar) -> (r: Scalar)
        ensures
            r.val() == (self.val() * y.val()) % fr_modulus(),
    {
        fr_mul(*self, *y)
    }

    pub fn neg(&self) -> (r: Scalar)
        ensures
            r.val() == (fr_modulus() - self.val()) % fr_modulus(),
    {
        fr_neg(*self)
    }

    pub fn is_zero(&self) -> (r: bool)
        ensures
            r == (self.val() == 0),
    {
        let l = self.limbs;
        proof {
            let (a1, a2, a3) = (l@[1] as int, l@[2] as int, l@[3] as int);
            let b = limb_base();
            assert(a1 >= 0 && a2 >= 0 && a3 >= 0 && b > 0 ==> (b * (a1 + b * (a2 + b * a3)) == 0
                <==> a1 == 0 && a2 == 0 && a3 == 0)) by (nonlinear_arith);
        }
        l[0] == 0 && l[1] == 0 && l[2] == 0 && l[3] == 0
    }
}

} // verus!

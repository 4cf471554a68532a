//! Elements of the BLS12-381 scalar field, modelled as integers below the
//! field's prime modulus. The arithmetic itself is done by the `bls12_381`
//! and `ff` crates.
use vstd::prelude::*;
use vstd::arithmetic::div_mod::{
    lemma_mul_mod_noop_left, lemma_mul_mod_noop_right, lemma_small_mod,
};
use vstd::arithmetic::mul::{lemma_mul_is_associative, lemma_mul_is_commutative};
use bls12_381::Scalar;
use ff::Field;

verus! {

/// The order of the scalar field of BLS12-381.
pub open spec fn modulus() -> nat {
    0x73eda753299d7d483339d80809a1d80553bda402fffe5bfeffffffff00000001nat
}

/// The integer whose little-endian base-256 digits are `b`.
pub open spec fn le_value(b: Seq<u8>) -> nat
    decreases b.len(),
{
    if b.len() == 0 {
        0
    } else {
        b[0] as nat + 256 * le_value(b.subrange(1, b.len() as int))
    }
}

/// Product in the field.
pub open spec fn mul_mod(a: nat, b: nat) -> nat {
    (a * b) % modulus()
}

/// `a` raised to the power `k` in the field.
pub open spec fn pow_mod(a: nat, k: nat) -> nat
    decreases k,
{
    if k == 0 {
        1
    } else {
        mul_mod(a, pow_mod(a, (k - 1) as nat))
    }
}

/// `b` is a multiplicative inverse of `a` in the field.
pub open spec fn inverts(a: nat, b: nat) -> bool {
    mul_mod(a, b) == 1
}

/// `a` has a multiplicative inverse in the field.
pub open spec fn is_unit(a: nat) -> bool {
    exists|b: nat| b < modulus() && #[trigger] inverts(a, b)
}

/// The multiplicative inverse of a unit `a`.
pub open spec fn inverse(a: nat) -> nat {
    choose|b: nat| b < modulus() && #[trigger] inverts(a, b)
}

/// A canonical field element: below the modulus, and invertible unless zero.
pub open spec fn valid_elem(a: nat) -> bool {
    a < modulus() && (a != 0 ==> is_unit(a))
}

/// The product of two integers lies below the modulus.
pub proof fn lemma_mul_mod_bound(a: nat, b: nat)
    ensures
        mul_mod(a, b) < modulus(),
{
}

/// Multiplication in the field is commutative.
pub proof fn lemma_mul_mod_comm(a: nat, b: nat)
    ensures
        mul_mod(a, b) == mul_mod(b, a),
{
    lemma_mul_is_commutative(a as int, b as int);
}

/// Multiplication in the field is associative.
pub proof fn lemma_mul_mod_assoc(a: nat, b: nat, c: nat)
    ensures
        mul_mod(mul_mod(a, b), c) == mul_mod(a, mul_mod(b, c)),
{
    let m = modulus() as int;
    lemma_mul_mod_noop_left((a * b) as int, c as int, m);
    lemma_mul_is_associative(a as int, b as int, c as int);
    lemma_mul_mod_noop_right(a as int, (b * c) as int, m);
}

/// One is the identity of multiplication on canonical elements.
pub proof fn lemma_mul_mod_one(a: nat)
    requires
        a < modulus(),
    ensures
        mul_mod(a, 1) == a,
        mul_mod(1, a) == a,
{
    lemma_small_mod(a, modulus());
}

/// Zero times anything is zero.
pub proof fn lemma_mul_mod_zero(a: nat)
    ensures
        mul_mod(0, a) == 0,
        mul_mod(a, 0) == 0,
{
}

/// Powers of one are one.
pub proof fn lemma_pow_mod_of_one(k: nat)
    ensures
        pow_mod(1, k) == 1,
    decreases k,
{
    if k > 0 {
        lemma_pow_mod_of_one((k - 1) as nat);
        lemma_mul_mod_one(1);
    }
}

/// Exponents add: `e^i * e^j == e^(i + j)`.
pub proof fn lemma_pow_mod_add(e: nat, i: nat, j: nat)
    ensures
        mul_mod(pow_mod(e, i), pow_mod(e, j)) == pow_mod(e, i + j),
    decreases i,
{
    if i == 0 {
        lemma_mul_mod_one(pow_mod(e, j));
    } else {
        let i1 = (i - 1) as nat;
        lemma_pow_mod_add(e, i1, j);
        lemma_mul_mod_assoc(e, pow_mod(e, i1), pow_mod(e, j));
        assert((i1 + j + 1) as nat == i + j);
    }
}

/// Powers distribute over products: `a^k * b^k == (a * b)^k`.
pub proof fn lemma_pow_mod_distrib(a: nat, b: nat, k: nat)
    ensures
        mul_mod(pow_mod(a, k), pow_mod(b, k)) == pow_mod(mul_mod(a, b), k),
    decreases k,
{
    if k == 0 {
        lemma_mul_mod_one(1);
    } else {
        let k1 = (k - 1) as nat;
        let pa = pow_mod(a, k1);
        let pb = pow_mod(b, k1);
        lemma_pow_mod_distrib(a, b, k1);
        // (a * pa) * (b * pb) == (a * b) * (pa * pb)
        lemma_mul_mod_assoc(a, pa, mul_mod(b, pb));
        lemma_mul_mod_assoc(pa, b, pb);
        lemma_mul_mod_comm(pa, b);
        lemma_mul_mod_assoc(b, pa, pb);
        lemma_mul_mod_assoc(a, b, mul_mod(pa, pb));
    }
}

/// The chosen inverse of a unit is canonical and inverts it.
pub proof fn lemma_inverse(a: nat)
    requires
        is_unit(a),
    ensures
        inverse(a) < modulus(),
        inverts(a, inverse(a)),
{
}

/// A unit has one canonical inverse.
pub proof fn lemma_inverse_unique(a: nat, b: nat)
    requires
        is_unit(a),
        b < modulus(),
        inverts(a, b),
    ensures
        b == inverse(a),
{
    let c = inverse(a);
    // b == b * (a * c) == (b * a) * c == c
    lemma_mul_mod_one(b);
    lemma_mul_mod_assoc(b, a, c);
    lemma_mul_mod_comm(b, a);
    lemma_mul_mod_one(c);
}

/// Zero is not a unit.
pub proof fn lemma_zero_not_unit()
    ensures
        !is_unit(0),
{
    if is_unit(0) {
        lemma_mul_mod_zero(inverse(0));
    }
}

/// The product of two valid elements is valid, and it is zero exactly when
/// a factor is.
pub proof fn lemma_mul_valid(a: nat, b: nat)
    requires
        valid_elem(a),
        valid_elem(b),
    ensures
        valid_elem(mul_mod(a, b)),
        mul_mod(a, b) == 0 <==> (a == 0 || b == 0),
{
    lemma_mul_mod_zero(a);
    lemma_mul_mod_zero(b);
    if a != 0 && b != 0 {
        let ia = inverse(a);
        let ib = inverse(b);
        let p = mul_mod(a, b);
        // (a * b) * (ib * ia) == a * ((b * ib) * ia) == a * ia == 1
        lemma_mul_mod_assoc(a, b, mul_mod(ib, ia));
        lemma_mul_mod_assoc(b, ib, ia);
        lemma_mul_mod_one(ia);
        lemma_mul_mod_bound(ib, ia);
        assert(inverts(p, mul_mod(ib, ia)));
        lemma_zero_not_unit();
    }
}

/// The powers of a valid element are valid.
pub proof fn lemma_pow_valid(a: nat, k: nat)
    requires
        valid_elem(a),
    ensures
        valid_elem(pow_mod(a, k)),
    decreases k,
{
    if k == 0 {
        lemma_mul_mod_one(1);
        assert(inverts(1, 1));
    } else {
        lemma_pow_valid(a, (k - 1) as nat);
        lemma_mul_valid(a, pow_mod(a, (k - 1) as nat));
    }
}

/// The inverse of a nonzero valid element is a nonzero valid element whose
/// inverse is the element itself.
pub proof fn lemma_inverse_valid(a: nat)
    requires
        valid_elem(a),
        a != 0,
    ensures
        valid_elem(inverse(a)),
        inverse(a) != 0,
        inverse(inverse(a)) == a,
{
    let i = inverse(a);
    lemma_mul_mod_comm(a, i);
    assert(inverts(i, a));
    lemma_mul_mod_zero(a);
    lemma_inverse_unique(i, a);
}

/// The inverse of a product is the product of the inverses.
pub proof fn lemma_inverse_mul(a: nat, b: nat)
    requires
        valid_elem(a),
        valid_elem(b),
        a != 0,
        b != 0,
    ensures
        inverse(mul_mod(a, b)) == mul_mod(inverse(a), inverse(b)),
{
    let ia = inverse(a);
    let ib = inverse(b);
    lemma_mul_valid(a, b);
    lemma_mul_mod_assoc(a, b, mul_mod(ib, ia));
    lemma_mul_mod_assoc(b, ib, ia);
    lemma_mul_mod_one(ia);
    lemma_mul_mod_comm(ib, ia);
    lemma_mul_mod_bound(ia, ib);
    lemma_inverse_unique(mul_mod(a, b), mul_mod(ia, ib));
}

/// The inverse of a power is the power of the inverse.
pub proof fn lemma_inverse_pow(a: nat, k: nat)
    requires
        valid_elem(a),
        a != 0,
    ensures
        inverse(pow_mod(a, k)) == pow_mod(inverse(a), k),
        pow_mod(a, k) != 0,
{
    let i = inverse(a);
    lemma_pow_valid(a, k);
    lemma_pow_mod_distrib(a, i, k);
    lemma_pow_mod_of_one(k);
    if pow_mod(a, k) == 0 {
        lemma_mul_mod_zero(pow_mod(i, k));
    }
    lemma_inverse_unique(pow_mod(a, k), pow_mod(i, k));
}

/// An element of the scalar field, held as its canonical little-endian bytes.
#[derive(Clone, Copy, Debug, PartialEq, Eq)]
pub struct Fe {
    bytes: [u8; 32],
}

impl View for Fe {
    type V = nat;

    closed spec fn view(&self) -> nat {
        le_value(self.bytes@)
    }
}

impl Fe {
    /// Every element made by this module is canonical; a nonzero one has an
    /// inverse, which the field's inversion has shown.
    pub open spec fn wf(&self) -> bool {
        valid_elem(self@)
    }

    /// The field element `n`.
    pub fn from_u64(n: u64) -> (r: Fe)
        ensures
            r@ == n as nat,
            r.wf(),
    {
        let r = scalar_from_u64(n);
        // The field's inversion shows that a nonzero element is a unit.
        let inv = scalar_invert(&r);
        proof {
            if let Some(i) = inv {
                assert(inverts(r@, i@));
            }
        }
        r
    }

    /// The multiplicative identity.
    pub fn one() -> (r: Fe)
        ensures
            r@ == 1,
            r.wf(),
    {
        let r = scalar_one();
        proof {
            lemma_mul_mod_one(1);
            assert(inverts(1, 1));
        }
        r
    }

    /// The product `self * other`.
    pub fn mul(&self, other: &Fe) -> (r: Fe)
        requires
            self.wf(),
            other.wf(),
        ensures
            r@ == mul_mod(self@, other@),
            r.wf(),
    {
        proof {
            lemma_mul_valid(self@, other@);
        }
        scalar_mul(self, other)
    }

    /// The power `self^k`.
    pub fn pow(&self, k: u64) -> (r: Fe)
        requires
            self.wf(),
        ensures
            r@ == pow_mod(self@, k as nat),
            r.wf(),
    {
        proof {
            lemma_pow_valid(self@, k as nat);
        }
        scalar_pow(self, k)
    }

    /// The multiplicative inverse, or `None` for zero.
    pub fn invert(&self) -> (r: Option<Fe>)
        requires
            self.wf(),
        ensures
            r is Some <==> self@ != 0,
            r matches Some(i) ==> i@ == inverse(self@) && i.wf(),
    {
        let r = scalar_invert(self);
        proof {
            if let Some(i) = r {
                lemma_inverse_unique(self@, i@);
                lemma_inverse_valid(self@);
            }
        }
        r
    }
}

/// Relies on `Scalar::from(u64)`, which maps `n` to the field element `n`,
/// and on `Scalar::to_bytes`, which gives its canonical little-endian bytes.
#[verifier::external_body]
fn scalar_from_u64(n: u64) -> (r: Fe)
    ensures
        r@ == n as nat,
{
    Fe { bytes: Scalar::from(n).to_bytes() }
}

/// Relies on `ff::Field::one` for `Scalar`: the multiplicative identity.
#[verifier::external_body]
fn scalar_one() -> (r: Fe)
    ensures
        r@ == 1,
{
    Fe { bytes: <Scalar as Field>::one().to_bytes() }
}

/// Relies on `Scalar`'s `*`: the product modulo the field's order.
/// `Scalar::from_bytes` accepts canonical bytes, which `wf` guarantees.
#[verifier::external_body]
fn scalar_mul(a: &Fe, b: &Fe) -> (r: Fe)
    requires
        a@ < modulus(),
        b@ < modulus(),
    ensures
        r@ == mul_mod(a@, b@),
{
    let x = Scalar::from_bytes(&a.bytes).unwrap();
    let y = Scalar::from_bytes(&b.bytes).unwrap();
    Fe { bytes: (x * y).to_bytes() }
}

/// Relies on `ff::Field::pow_vartime` for `Scalar`: `a` raised to the
/// little-endian exponent `[k]`, that is to `k`.
#[verifier::external_body]
fn scalar_pow(a: &Fe, k: u64) -> (r: Fe)
    requires
        a@ < modulus(),
    ensures
        r@ == pow_mod(a@, k as nat),
{
    let x = Scalar::from_bytes(&a.bytes).unwrap();
    Fe { bytes: Field::pow_vartime(&x, [k]).to_bytes() }
}

/// Relies on `ff::Field::invert` for `Scalar`: the multiplicative inverse,
/// failing exactly when the element is zero.
#[verifier::external_body]
fn scalar_invert(a: &Fe) -> (r: Option<Fe>)
    requires
        a@ < modulus(),
    ensures
        r is Some <==> a@ != 0,
        r matches Some(i) ==> i@ < modulus() && inverts(a@, i@),
{
    let x = Scalar::from_bytes(&a.bytes).unwrap();
    let i: Option<Scalar> = Field::invert(&x).into();
    i.map(|s| Fe { bytes: s.to_bytes() })
}

} // verus!

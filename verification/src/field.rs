//! Elements of the Pallas base field.
//!
//! A [`Felt`] holds the canonical little-endian byte representation of a field
//! element; its view is the integer in `0..modulus()` that the bytes encode.
//! The arithmetic itself is done by `pasta_curves::Fp`.
//!
//! What is taken on trust of `pasta_curves` stands in the private functions
//! named `fp_...`, one for each function of `Fp` that is called. Each reads
//! its arguments with `ff::PrimeField::from_repr` and hands its result back
//! through `ff::PrimeField::to_repr`, which on `Fp` is the little-endian
//! encoding of the element's representative below the modulus.

use pasta_curves::arithmetic::FieldExt;
use pasta_curves::group::ff::PrimeField;
use pasta_curves::Fp;
use vstd::prelude::*;

verus! {

/// The order of the field,
/// `0x40000000000000000000000000000000224698fc094cf91b992d30ed00000001`.
pub open spec fn modulus() -> nat {
    0x40000000000000000000000000000000224698fc094cf91b992d30ed00000001nat
}

/// The inverse of two in the field, `(modulus() + 1) / 2`.
pub open spec fn two_inv() -> nat {
    0x2000000000000000000000000000000011234c7e04a67c8dcc96987680000001nat
}

/// The integer that a little-endian byte string encodes.
pub open spec fn le_value(bytes: Seq<u8>) -> nat
    decreases bytes.len(),
{
    if bytes.len() == 0 {
        0
    } else {
        bytes[0] as nat + 256 * le_value(bytes.skip(1))
    }
}

/// The integer that four little-endian 64-bit limbs encode.
pub open spec fn limbs_value(limbs: Seq<u64>) -> nat
    decreases limbs.len(),
{
    if limbs.len() == 0 {
        0
    } else {
        limbs[0] as nat + 0x1_0000_0000_0000_0000 * limbs_value(limbs.skip(1))
    }
}

/// Sum in the field.
pub open spec fn fadd(a: nat, b: nat) -> nat {
    (a + b) % modulus()
}

/// Difference in the field.
pub open spec fn fsub(a: nat, b: nat) -> nat {
    ((a - b) % (modulus() as int)) as nat
}

/// Product in the field.
pub open spec fn fmul(a: nat, b: nat) -> nat {
    (a * b) % modulus()
}

/// An element of the field.
#[derive(Clone, Copy, Debug, PartialEq, Eq)]
pub struct Felt {
    repr: [u8; 32],
}

impl View for Felt {
    type V = nat;

    closed spec fn view(&self) -> nat {
        le_value(self.repr@)
    }
}

/// `pasta_curves::Fp::from(u64)`: the field element of an integer below 2^64,
/// which is below the modulus and so stands for itself.
#[verifier::external_body]
fn fp_from_u64(v: u64) -> (r: Felt)
    ensures
        r@ == v,
        r@ < modulus(),
{
    Felt { repr: Fp::from(v).to_repr() }
}

/// `pasta_curves::Fp::from_raw`: the field element congruent to the 256-bit
/// integer given by four little-endian limbs.
#[verifier::external_body]
fn fp_from_raw(limbs: [u64; 4]) -> (r: Felt)
    ensures
        r@ == limbs_value(limbs@) % modulus(),
{
    Felt { repr: Fp::from_raw(limbs).to_repr() }
}

/// `ff::PrimeField::from_repr` on `pasta_curves::Fp`: accepts exactly the
/// little-endian encodings of integers below the modulus.
#[verifier::external_body]
fn fp_from_repr(bytes: [u8; 32]) -> (r: Option<Felt>)
    ensures
        match r {
            Some(x) => x@ == le_value(bytes@) && le_value(bytes@) < modulus(),
            None => le_value(bytes@) >= modulus(),
        },
{
    Option::<Fp>::from(Fp::from_repr(bytes)).map(|x: Fp| Felt { repr: x.to_repr() })
}

/// `+` on `pasta_curves::Fp`: addition modulo the field order. The arguments
/// must be canonical, or reading them fails.
#[verifier::external_body]
fn fp_add(a: &Felt, b: &Felt) -> (r: Felt)
    requires
        a@ < modulus(),
        b@ < modulus(),
    ensures
        r@ == fadd(a@, b@),
{
    Felt { repr: (Fp::from_repr(a.repr).unwrap() + Fp::from_repr(b.repr).unwrap()).to_repr() }
}

/// `-` on `pasta_curves::Fp`: subtraction modulo the field order. The
/// arguments must be canonical, or reading them fails.
#[verifier::external_body]
fn fp_sub(a: &Felt, b: &Felt) -> (r: Felt)
    requires
        a@ < modulus(),
        b@ < modulus(),
    ensures
        r@ == fsub(a@, b@),
{
    Felt { repr: (Fp::from_repr(a.repr).unwrap() - Fp::from_repr(b.repr).unwrap()).to_repr() }
}

/// `*` on `pasta_curves::Fp`: multiplication modulo the field order. The
/// arguments must be canonical, or reading them fails.
#[verifier::external_body]
fn fp_mul(a: &Felt, b: &Felt) -> (r: Felt)
    requires
        a@ < modulus(),
        b@ < modulus(),
    ensures
        r@ == fmul(a@, b@),
{
    Felt { repr: (Fp::from_repr(a.repr).unwrap() * Fp::from_repr(b.repr).unwrap()).to_repr() }
}

/// `ff::PrimeField::is_even` on `pasta_curves::Fp`: whether the canonical
/// representative is an even integer. The argument must be canonical, or
/// reading it fails.
#[verifier::external_body]
fn fp_is_even(a: &Felt) -> (r: bool)
    requires
        a@ < modulus(),
    ensures
        r == (a@ % 2 == 0),
{
    Fp::from_repr(a.repr).unwrap().is_even().into()
}

/// `FieldExt::TWO_INV` of `pasta_curves::Fp`: the inverse of two.
#[verifier::external_body]
fn fp_two_inv() -> (r: Felt)
    ensures
        r@ == two_inv(),
        r@ < modulus(),
{
    Felt { repr: <Fp as FieldExt>::TWO_INV.to_repr() }
}

/// `==` on `pasta_curves::Fp`: whether two elements are the same. The
/// arguments must be canonical, or reading them fails.
#[verifier::external_body]
fn fp_eq(a: &Felt, b: &Felt) -> (r: bool)
    requires
        a@ < modulus(),
        b@ < modulus(),
    ensures
        r == (a@ == b@),
{
    Fp::from_repr(a.repr).unwrap() == Fp::from_repr(b.repr).unwrap()
}

impl Felt {
    #[verifier::type_invariant]
    spec fn canonical(self) -> bool {
        le_value(self.repr@) < modulus()
    }

    /// Shows that the element's integer is below the modulus.
    pub fn bounded(&self)
        ensures
            self@ < modulus(),
    {
        proof {
            use_type_invariant(self);
        }
    }

    /// The additive identity.
    pub fn zero() -> (r: Felt)
        ensures
            r@ == 0,
    {
        fp_from_u64(0)
    }

    /// The multiplicative identity.
    pub fn one() -> (r: Felt)
        ensures
            r@ == 1,
    {
        fp_from_u64(1)
    }

    /// The inverse of two.
    pub fn two_inv() -> (r: Felt)
        ensures
            r@ == two_inv(),
    {
        fp_two_inv()
    }

    /// The element that stands for `v`.
    pub fn from_u64(v: u64) -> (r: Felt)
        ensures
            r@ == v,
    {
        fp_from_u64(v)
    }

    /// The element congruent to the integer with the little-endian limbs
    /// `limbs`.
    pub fn from_raw(limbs: [u64; 4]) -> (r: Felt)
        ensures
            r@ == limbs_value(limbs@) % modulus(),
    {
        fp_from_raw(limbs)
    }

    /// The element with the canonical little-endian encoding `bytes`, or
    /// `None` if `bytes` encodes an integer that is not below the modulus.
    pub fn from_repr(bytes: [u8; 32]) -> (r: Option<Felt>)
        ensures
            r is Some <==> le_value(bytes@) < modulus(),
            r matches Some(x) ==> x@ == le_value(bytes@),
    {
        fp_from_repr(bytes)
    }

    /// The canonical little-endian encoding of the element.
    pub fn to_repr(&self) -> (r: [u8; 32])
        ensures
            le_value(r@) == self@,
    {
        self.repr
    }

    /// `self + rhs`.
    pub fn add(&self, rhs: &Felt) -> (r: Felt)
        ensures
            r@ == fadd(self@, rhs@),
    {
        proof {
            use_type_invariant(self);
            use_type_invariant(rhs);
        }
        fp_add(self, rhs)
    }

    /// `self - rhs`.
    pub fn sub(&self, rhs: &Felt) -> (r: Felt)
        ensures
            r@ == fsub(self@, rhs@),
    {
        proof {
            use_type_invariant(self);
            use_type_invariant(rhs);
        }
        fp_sub(self, rhs)
    }

    /// `self * rhs`.
    pub fn mul(&self, rhs: &Felt) -> (r: Felt)
        ensures
            r@ == fmul(self@, rhs@),
    {
        proof {
            use_type_invariant(self);
            use_type_invariant(rhs);
        }
        fp_mul(self, rhs)
    }

    /// `-self`.
    pub fn neg(&self) -> (r: Felt)
        ensures
            r@ == fneg(self@),
    {
        proof {
            use_type_invariant(self);
        }
        fp_sub(&fp_from_u64(0), self)
    }

    /// Whether the element's integer is even.
    pub fn is_even(&self) -> (r: bool)
        ensures
            r == (self@ % 2 == 0),
    {
        proof {
            use_type_invariant(self);
        }
        fp_is_even(self)
    }

    /// Whether the element is zero.
    pub fn is_zero(&self) -> (r: bool)
        ensures
            r == (self@ == 0),
    {
        proof {
            use_type_invariant(self);
        }
        fp_eq(self, &fp_from_u64(0))
    }

    /// Whether the two elements are the same.
    pub fn equals(&self, rhs: &Felt) -> (r: bool)
        ensures
            r == (self@ == rhs@),
    {
        proof {
            use_type_invariant(self);
            use_type_invariant(rhs);
        }
        fp_eq(self, rhs)
    }

    /// Half of the element in the field: the element times the inverse of
    /// two, which for an even element is half of its integer.
    pub fn halve(&self) -> (r: Felt)
        ensures
            r@ == fmul(self@, two_inv()),
            self@ % 2 == 0 ==> r@ == self@ / 2,
    {
        proof {
            use_type_invariant(self);
            if self@ % 2 == 0 {
                lemma_halve(self@);
            }
        }
        fp_mul(self, &fp_two_inv())
    }

    /// Half of the element's integer, rounded down: `self / 2` in the field
    /// for an even element, `(self - 1) / 2` for an odd one.
    pub fn shift_right(&self) -> (r: Felt)
        ensures
            r@ == self@ / 2,
    {
        proof {
            use_type_invariant(self);
        }
        if fp_is_even(self) {
            self.halve()
        } else {
            let less = fp_sub(self, &fp_from_u64(1));
            proof {
                lemma_fsub(self@, 1);
            }
            less.halve()
        }
    }
}

/// Negation in the field.
pub open spec fn fneg(a: nat) -> nat {
    fsub(0, a)
}

/// The fifth power in the field, multiplied out from the left.
pub open spec fn fpow5(a: nat) -> nat {
    fmul(fmul(fmul(fmul(a, a), a), a), a)
}

/// Multiplying an even element by the inverse of two halves its integer.
pub proof fn lemma_halve(v: nat)
    requires
        v < modulus(),
        v % 2 == 0,
    ensures
        fmul(v, two_inv()) == v / 2,
{
    let k = v / 2;
    assert(v == 2 * k);
    assert(v * two_inv() == modulus() * k + k) by {
        assert(2 * two_inv() == modulus() + 1);
        assert(v * two_inv() == k * (2 * two_inv())) by (nonlinear_arith)
            requires
                v == 2 * k,
        ;
        assert(k * (modulus() + 1) == modulus() * k + k) by (nonlinear_arith);
    }
    vstd::arithmetic::div_mod::lemma_mod_multiples_vanish(k as int, k as int, modulus() as int);
    vstd::arithmetic::div_mod::lemma_small_mod(k, modulus());
}

/// Twice the inverse of two is one.
pub proof fn lemma_two_inv()
    ensures
        two_inv() == (modulus() + 1) / 2,
        fmul(2, two_inv()) == 1,
{
    assert(2 * two_inv() == modulus() * 1 + 1);
    vstd::arithmetic::div_mod::lemma_mod_multiples_vanish(1, 1, modulus() as int);
    vstd::arithmetic::div_mod::lemma_small_mod(1, modulus());
}

/// Sums and products of integers that stay below the modulus are the
/// integers' own.
pub proof fn lemma_small(a: nat, b: nat)
    ensures
        a + b < modulus() ==> fadd(a, b) == a + b,
        a * b < modulus() ==> fmul(a, b) == a * b,
        fneg(0) == 0,
{
    if a + b < modulus() {
        vstd::arithmetic::div_mod::lemma_small_mod(a + b, modulus());
    }
    if a * b < modulus() {
        vstd::arithmetic::div_mod::lemma_small_mod(a * b, modulus());
    }
    lemma_fsub(0, 0);
}

/// An element minus itself is zero.
pub proof fn lemma_cancel(a: nat)
    requires
        a < modulus(),
    ensures
        fadd(a, fneg(a)) == 0,
{
    lemma_fsub(0, a);
    if a > 0 {
        assert(a + (0 + modulus() - a) == modulus() * 1 + 0);
        vstd::arithmetic::div_mod::lemma_mod_multiples_vanish(1, 0, modulus() as int);
    } else {
        vstd::arithmetic::div_mod::lemma_small_mod(0, modulus());
    }
}

/// Subtraction in the field, on integers below the modulus.
pub proof fn lemma_fsub(a: nat, b: nat)
    requires
        a < modulus(),
        b < modulus(),
    ensures
        fsub(a, b) == if a >= b {
            a - b
        } else {
            a + modulus() - b
        },
{
    if a >= b {
        vstd::arithmetic::div_mod::lemma_small_mod((a - b) as nat, modulus());
    } else {
        let r = a + modulus() - b;
        assert(a - b == modulus() * -1 + r);
        vstd::arithmetic::div_mod::lemma_mod_multiples_vanish(-1, r, modulus() as int);
        vstd::arithmetic::div_mod::lemma_small_mod(r as nat, modulus());
    }
}

} // verus!

//! Field elements against known values and against `pasta_curves` itself.

use pasta_curves::group::ff::PrimeField;
use pasta_curves::Fp;
use zk_circuits::field::Felt;

const MODULUS_LIMBS: [u64; 4] =
    [0x992d30ed00000001, 0x224698fc094cf91b, 0x0000000000000000, 0x4000000000000000];

fn bytes_of(low: u64) -> [u8; 32] {
    let mut bytes = [0u8; 32];
    bytes[0..8].copy_from_slice(&low.to_le_bytes());
    bytes
}

#[test]
fn from_u64_gives_the_canonical_bytes() {
    assert_eq!(Felt::from_u64(0).to_repr(), [0u8; 32]);
    assert_eq!(Felt::from_u64(1).to_repr(), bytes_of(1));
    assert_eq!(Felt::from_u64(0x0102030405060708).to_repr(), bytes_of(0x0102030405060708));
    assert_eq!(Felt::zero(), Felt::from_u64(0));
    assert_eq!(Felt::one(), Felt::from_u64(1));
}

#[test]
fn from_raw_reduces_modulo_the_field_order() {
    assert_eq!(Felt::from_raw([7, 0, 0, 0]), Felt::from_u64(7));
    assert_eq!(Felt::from_raw(MODULUS_LIMBS), Felt::zero());
    let mut above = MODULUS_LIMBS;
    above[0] += 5;
    assert_eq!(Felt::from_raw(above), Felt::from_u64(5));
    let all_ones = Felt::from_raw([u64::MAX; 4]);
    assert_eq!(all_ones.to_repr(), Fp::from_raw([u64::MAX; 4]).to_repr());
    assert_ne!(all_ones.to_repr(), [0xffu8; 32]);
}

#[test]
fn from_repr_accepts_exactly_the_canonical_encodings() {
    assert_eq!(Felt::from_repr(bytes_of(9)), Some(Felt::from_u64(9)));
    let mut modulus = [0u8; 32];
    for (i, limb) in MODULUS_LIMBS.iter().enumerate() {
        modulus[8 * i..8 * i + 8].copy_from_slice(&limb.to_le_bytes());
    }
    assert_eq!(Felt::from_repr(modulus), None);
    assert_eq!(Felt::from_repr([0xffu8; 32]), None);
    let mut below = modulus;
    below[0] -= 1;
    let largest = Felt::from_repr(below).unwrap();
    assert_eq!(largest.to_repr(), below);
    assert_eq!(largest.add(&Felt::one()), Felt::zero());
}

#[test]
fn addition_subtraction_and_multiplication() {
    let two = Felt::from_u64(2);
    let three = Felt::from_u64(3);
    let five = Felt::from_u64(5);
    assert_eq!(two.add(&three), five);
    assert_eq!(five.sub(&three), two);
    assert_eq!(Felt::from_u64(6).mul(&Felt::from_u64(7)), Felt::from_u64(42));
    // 3 - 5 wraps to p - 2
    let wrapped = three.sub(&five);
    let mut expected = MODULUS_LIMBS;
    expected[0] -= 2;
    assert_eq!(wrapped, Felt::from_raw(expected));
    assert_eq!(wrapped.add(&two), Felt::zero());
    assert_eq!(five.neg().add(&five), Felt::zero());
    assert_eq!(Felt::zero().neg(), Felt::zero());
    // (2^64 - 1)^2 needs more than one limb
    let big = Felt::from_u64(u64::MAX);
    assert_eq!(big.mul(&big), Felt::from_raw([1, u64::MAX - 1, 0, 0]));
}

#[test]
fn arithmetic_agrees_with_pasta_curves() {
    let a = [0x1234_5678_9abc_def0, 0x0fed_cba9_8765_4321, 0xdead_beef_0bad_f00d, 0x3abc];
    let b = [0xffff_ffff_0000_0001, 0x8000_0000_0000_0000, 0x7, 0x3fff_ffff_ffff_ffff];
    let (x, y) = (Felt::from_raw(a), Felt::from_raw(b));
    let (fx, fy) = (Fp::from_raw(a), Fp::from_raw(b));
    assert_eq!(x.add(&y).to_repr(), (fx + fy).to_repr());
    assert_eq!(x.sub(&y).to_repr(), (fx - fy).to_repr());
    assert_eq!(x.mul(&y).to_repr(), (fx * fy).to_repr());
    assert_eq!(x.neg().to_repr(), (-fx).to_repr());
    assert_eq!(x.is_even(), bool::from(fx.is_even()));
}

#[test]
fn parity_and_halving() {
    assert!(Felt::from_u64(4).is_even());
    assert!(!Felt::from_u64(5).is_even());
    assert!(Felt::zero().is_even());
    let mut largest = MODULUS_LIMBS;
    largest[0] -= 1;
    assert!(Felt::from_raw(largest).is_even());
    assert_eq!(Felt::from_u64(8).halve(), Felt::from_u64(4));
    // (7 + p) / 2
    assert_eq!(Felt::from_u64(7).halve(), Felt::two_inv().add(&Felt::from_u64(3)));
    assert_eq!(Felt::from_u64(7).halve().add(&Felt::from_u64(7).halve()), Felt::from_u64(7));
    assert_eq!(Felt::from_u64(8).shift_right(), Felt::from_u64(4));
    assert_eq!(Felt::from_u64(7).shift_right(), Felt::from_u64(3));
    assert_eq!(Felt::from_u64(1).shift_right(), Felt::zero());
    assert_eq!(Felt::zero().shift_right(), Felt::zero());
}

#[test]
fn two_inv_is_the_inverse_of_two() {
    let half = Felt::two_inv();
    assert_eq!(half.mul(&Felt::from_u64(2)), Felt::one());
    assert_eq!(
        half,
        Felt::from_raw([
            0xcc96987680000001,
            0x11234c7e04a67c8d,
            0x0000000000000000,
            0x2000000000000000,
        ])
    );
    assert_eq!(Felt::from_u64(10).mul(&half), Felt::from_u64(5));
}

#[test]
fn equality_and_zero() {
    assert!(Felt::from_u64(3).equals(&Felt::from_u64(3)));
    assert!(!Felt::from_u64(3).equals(&Felt::from_u64(4)));
    assert!(Felt::zero().is_zero());
    assert!(!Felt::one().is_zero());
    assert!(Felt::from_raw(MODULUS_LIMBS).is_zero());
}

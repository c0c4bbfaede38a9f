//! MiMC5: the reference computation, the two circuits and the engine under
//! them.

use pasta_curves::group::ff::PrimeField;
use pasta_curves::Fp;
use zk_circuits::circuit::{Cell, Layouter, Op};
use zk_circuits::dev::verify;
use zk_circuits::error::Error;
use zk_circuits::field::Felt;
use zk_circuits::mimc_hash::pallas_round_constants::{
    round_constants, MIMC_HASH_PALLAS_ROUND_CONSTANTS, NUM_ROUNDS,
};
use zk_circuits::mimc_pallas::mimc::{MiMC5Chip, MiMC5Circuit, MiMC5Config};
use zk_circuits::mimc_pallas::mimc_hash::{MiMC5HashChip, MiMC5HashCircuit, MiMC5HashConfig};
use zk_circuits::mimc_pallas::primitives::{mimc5_encrypt, mimc5_hash, pow_5};
use zk_circuits::plonk::{
    Column, ColumnKind, ConstraintSystem, Expression, Rotation, Selector,
};

fn to_fp(x: &Felt) -> Fp {
    Fp::from_repr(x.to_repr()).unwrap()
}

/// The cipher on `pasta_curves::Fp` alone.
fn cipher_on_fp(message: Fp, key: Fp, constants: &[Fp]) -> Fp {
    let mut state = message;
    for c in constants {
        let v = state + key + c;
        state = v * v * v * v * v;
    }
    state + key
}

/// The hash on `pasta_curves::Fp` alone.
fn hash_on_fp(message: Fp, constants: &[Fp]) -> Fp {
    let mut state = message;
    for c in constants {
        let v = state + c;
        state = v * v * v * v * v;
    }
    state
}

fn fp_constants() -> Vec<Fp> {
    MIMC_HASH_PALLAS_ROUND_CONSTANTS.iter().map(|limbs| Fp::from_raw(*limbs)).collect()
}

#[test]
fn round_constants_are_the_table() {
    let constants = round_constants();
    assert_eq!(NUM_ROUNDS, 110);
    assert_eq!(constants.len(), 110);
    assert_eq!(constants[0], Felt::zero());
    assert_eq!(
        MIMC_HASH_PALLAS_ROUND_CONSTANTS[1],
        [0x8421_f605_c70a_98e5, 0x979c_7383_ee6b_0cc8, 0x492f_4d05_f39a_1b93, 0x0ef7_5897_3a8c_abb7]
    );
    assert_eq!(
        MIMC_HASH_PALLAS_ROUND_CONSTANTS[109],
        [0xde3f_c09b_a0cc_e08b, 0x56b3_d1eb_67b3_fec1, 0xf733_74e7_6034_5ac9, 0x25cc_5e57_424f_0a04]
    );
    for (c, f) in constants.iter().zip(fp_constants()) {
        assert_eq!(c.to_repr(), f.to_repr());
    }
}

#[test]
fn fifth_power_and_single_rounds() {
    assert_eq!(pow_5(&Felt::from_u64(2)), Felt::from_u64(32));
    assert_eq!(pow_5(&Felt::from_u64(10)), Felt::from_u64(100_000));
    let constants = vec![Felt::from_u64(3)];
    // (1 + 2 + 3)^5 + 2
    assert_eq!(
        mimc5_encrypt(Felt::from_u64(1), Felt::from_u64(2), &constants),
        Felt::from_u64(7778)
    );
    // (1 + 3)^5
    assert_eq!(mimc5_hash(Felt::from_u64(1), &constants), Felt::from_u64(1024));
    // no round: the cipher adds the key, the hash does nothing
    assert_eq!(mimc5_encrypt(Felt::from_u64(5), Felt::from_u64(4), &vec![]), Felt::from_u64(9));
    assert_eq!(mimc5_hash(Felt::from_u64(5), &vec![]), Felt::from_u64(5));
    // ((1 + 3)^5 + 1)^5
    let two = vec![Felt::from_u64(3), Felt::from_u64(1)];
    assert_eq!(mimc5_hash(Felt::from_u64(1), &two), pow_5(&Felt::from_u64(1025)));
}

#[test]
fn reference_agrees_with_pasta_curves() {
    let constants = round_constants();
    let fps = fp_constants();
    for (m, k) in [(0u64, 0u64), (1, 0), (0, 1), (7, 123_456_789), (u64::MAX, u64::MAX)] {
        let cipher = mimc5_encrypt(Felt::from_u64(m), Felt::from_u64(k), &constants);
        assert_eq!(cipher.to_repr(), cipher_on_fp(Fp::from(m), Fp::from(k), &fps).to_repr());
        let hash = mimc5_hash(Felt::from_u64(m), &constants);
        assert_eq!(hash.to_repr(), hash_on_fp(Fp::from(m), &fps).to_repr());
    }
}

#[test]
fn cipher_circuit_assigns_the_reference_output() {
    let constants = round_constants();
    let msg = Felt::from_u64(0);
    let key = Felt::from_u64(0);
    let output = mimc5_encrypt(msg, key, &constants);
    let mut system = ConstraintSystem::new();
    let config = MiMC5Circuit::configure(&mut system);
    let mut witness = Layouter::new(&system, vec![vec![msg, output]]).unwrap();
    let chip = MiMC5Chip::construct(config);
    let (first, last) = chip.assign(&mut witness, msg, key, &constants, NUM_ROUNDS).unwrap();
    assert_eq!(first.cell(), Cell { column: config.state, row: 0 });
    assert_eq!(first.value(), msg);
    assert_eq!(last.cell(), Cell { column: config.state, row: 111 });
    assert_eq!(last.value(), output);
    assert_eq!(last.value().to_repr(), cipher_on_fp(Fp::from(0), Fp::from(0), &fp_constants()).to_repr());
    assert_eq!(witness.cell(config.state, 111), Some(output));
    assert_eq!(witness.ops().len(), 3 + 4 * 110 + 1);
    chip.expose_public(&mut witness, first, 0).unwrap();
    chip.expose_public(&mut witness, last, 1).unwrap();
    assert_eq!(verify(&system, &witness), Ok(()));
}

#[test]
fn cipher_circuit_records_each_step_in_order() {
    let constants = vec![Felt::from_u64(3), Felt::from_u64(1)];
    let msg = Felt::from_u64(1);
    let key = Felt::from_u64(2);
    let mut system = ConstraintSystem::new();
    let config = MiMC5Circuit::configure(&mut system);
    let mut witness = Layouter::new(&system, vec![vec![msg]]).unwrap();
    let chip = MiMC5Chip::construct(config);
    chip.assign(&mut witness, msg, key, &constants, 2).unwrap();
    let put = |column, row, value: Felt| Op::Assign { cell: Cell { column, row }, value };
    let x1 = Felt::from_u64(7776);
    let x2 = pow_5(&Felt::from_u64(7776 + 2 + 1));
    let expected = vec![
        Op::EnableSelector { selector: config.s_post_rounds, row: 3 },
        Op::AssignFromInstance {
            cell: Cell { column: config.state, row: 0 },
            instance: Cell { column: config.instance, row: 0 },
        },
        put(config.key_column, 0, key),
        Op::EnableSelector { selector: config.s_in_rounds, row: 1 },
        put(config.round_constants, 0, constants[0]),
        put(config.key_column, 1, key),
        put(config.state, 1, x1),
        Op::EnableSelector { selector: config.s_in_rounds, row: 2 },
        put(config.round_constants, 1, constants[1]),
        put(config.key_column, 2, key),
        put(config.state, 2, x2),
        put(config.state, 3, x2.add(&key)),
    ];
    assert_eq!(witness.ops(), &expected);
}

#[test]
fn cipher_circuit_is_satisfied_by_message_and_output_only() {
    let constants = round_constants();
    let msg = Felt::from_u64(7);
    let key = Felt::from_u64(123_456_789);
    let output = mimc5_encrypt(msg, key, &constants);
    let circuit = MiMC5Circuit {
        message: msg,
        key,
        num_rounds: NUM_ROUNDS,
        round_constants: constants,
    };
    let (system, witness) = circuit.build(vec![msg, output]).unwrap();
    assert_eq!(verify(&system, &witness), Ok(()));
    let (system, witness) = circuit.build(vec![msg, output.add(&Felt::one())]).unwrap();
    assert_eq!(verify(&system, &witness), Err(Error::WitnessInconsistency));
    let (system, witness) = circuit.build(vec![msg.add(&Felt::one()), output]).unwrap();
    assert_eq!(verify(&system, &witness), Err(Error::WitnessInconsistency));
    let (system, witness) = circuit.build(vec![msg]).unwrap();
    assert_eq!(verify(&system, &witness), Err(Error::WitnessInconsistency));
}

#[test]
fn hash_circuit_assigns_the_reference_output() {
    let constants = round_constants();
    let msg = Felt::from_u64(0);
    let output = mimc5_hash(msg, &constants);
    assert_eq!(output.to_repr(), hash_on_fp(Fp::from(0), &fp_constants()).to_repr());
    let mut system = ConstraintSystem::new();
    let config = MiMC5HashCircuit::configure(&mut system);
    let mut witness = Layouter::new(&system, vec![vec![msg, output]]).unwrap();
    let chip = MiMC5HashChip::construct(config);
    let (first, last) = chip.assign(&mut witness, msg, &constants, NUM_ROUNDS).unwrap();
    assert_eq!(first.cell(), Cell { column: config.state, row: 0 });
    assert_eq!(last.cell(), Cell { column: config.state, row: 110 });
    assert_eq!(last.value(), output);
    assert_eq!(witness.ops().len(), 1 + 3 * 110);
    chip.expose_public(&mut witness, first, 0).unwrap();
    chip.expose_public(&mut witness, last, 1).unwrap();
    assert_eq!(verify(&system, &witness), Ok(()));

    // with a key that is not zero the cipher gives something else
    let cipher = mimc5_encrypt(msg, Felt::from_u64(1), &constants);
    assert_ne!(cipher, output);
}

#[test]
fn hash_circuit_records_each_step_in_order() {
    let constants = vec![Felt::from_u64(3)];
    let msg = Felt::from_u64(1);
    let circuit = MiMC5HashCircuit { message: msg, num_rounds: 1, round_constants: constants };
    let (system, witness) = circuit.build(vec![msg, Felt::from_u64(1024)]).unwrap();
    let mut again = ConstraintSystem::new();
    let config = MiMC5HashCircuit::configure(&mut again);
    let expected = vec![
        Op::AssignFromInstance {
            cell: Cell { column: config.state, row: 0 },
            instance: Cell { column: config.instance, row: 0 },
        },
        Op::EnableSelector { selector: config.s_in_rounds, row: 1 },
        Op::Assign { cell: Cell { column: config.round_constants, row: 0 }, value: Felt::from_u64(3) },
        Op::Assign { cell: Cell { column: config.state, row: 1 }, value: Felt::from_u64(1024) },
        Op::ConstrainInstance {
            cell: Cell { column: config.state, row: 0 },
            instance: Cell { column: config.instance, row: 0 },
        },
        Op::ConstrainInstance {
            cell: Cell { column: config.state, row: 1 },
            instance: Cell { column: config.instance, row: 1 },
        },
    ];
    assert_eq!(witness.ops(), &expected);
    assert_eq!(verify(&system, &witness), Ok(()));
}

#[test]
fn hash_is_the_cipher_under_the_zero_key() {
    let constants = round_constants();
    for m in [0u64, 1, 2, 99, u64::MAX] {
        let msg = Felt::from_u64(m);
        assert_eq!(mimc5_hash(msg, &constants), mimc5_encrypt(msg, Felt::zero(), &constants));
    }
    let few = vec![Felt::from_u64(11), Felt::from_u64(12), Felt::from_u64(13)];
    assert_eq!(
        mimc5_hash(Felt::from_u64(5), &few),
        mimc5_encrypt(Felt::from_u64(5), Felt::zero(), &few)
    );
}

#[test]
fn hash_circuit_without_rounds_passes_the_message_on() {
    let msg = Felt::from_u64(5);
    let mut system = ConstraintSystem::new();
    let config = MiMC5HashCircuit::configure(&mut system);
    let mut witness = Layouter::new(&system, vec![vec![Felt::from_u64(6)]]).unwrap();
    let chip = MiMC5HashChip::construct(config);
    let (first, last) = chip.assign(&mut witness, msg, &vec![], 0).unwrap();
    assert_eq!(first, last);
    assert_eq!(last.value(), Felt::from_u64(6));
    assert_eq!(last.cell(), Cell { column: config.state, row: 0 });
}

#[test]
fn rounds_must_match_the_constants() {
    let constants = round_constants();
    let circuit = MiMC5Circuit {
        message: Felt::zero(),
        key: Felt::zero(),
        num_rounds: 109,
        round_constants: constants.clone(),
    };
    assert_eq!(circuit.build(vec![]).err(), Some(Error::RoundConstantLengthMismatch));
    let circuit = MiMC5Circuit {
        message: Felt::zero(),
        key: Felt::zero(),
        num_rounds: 111,
        round_constants: constants.clone(),
    };
    assert_eq!(circuit.build(vec![]).err(), Some(Error::RoundConstantLengthMismatch));
    let circuit =
        MiMC5HashCircuit { message: Felt::zero(), num_rounds: 1, round_constants: vec![] };
    assert_eq!(circuit.build(vec![]).err(), Some(Error::RoundConstantLengthMismatch));

    let mut system = ConstraintSystem::new();
    let config = MiMC5Circuit::configure(&mut system);
    let mut witness = Layouter::new(&system, vec![vec![]]).unwrap();
    let chip = MiMC5Chip::construct(config);
    let r = chip.assign(&mut witness, Felt::zero(), Felt::zero(), &constants, 3);
    assert_eq!(r, Err(Error::RoundConstantLengthMismatch));
    assert!(witness.ops().is_empty());
}

#[test]
fn mimc_chips_need_their_configuration() {
    let mut system = ConstraintSystem::new();
    let config = MiMC5Circuit::configure(&mut system);
    let mut other = ConstraintSystem::new();
    other.advice_column();
    let mut witness = Layouter::new(&other, vec![]).unwrap();
    let chip = MiMC5Chip::construct(config);
    let r = chip.assign(&mut witness, Felt::zero(), Felt::zero(), &vec![], 0);
    assert_eq!(r, Err(Error::Configuration));

    let mut system = ConstraintSystem::new();
    let config = MiMC5HashCircuit::configure(&mut system);
    let chip = MiMC5HashChip::construct(config);
    let r = chip.assign(&mut witness, Felt::zero(), &vec![], 0);
    assert_eq!(r, Err(Error::Configuration));
    assert!(witness.ops().is_empty());
}

#[test]
fn mimc_configure_checks_its_columns() {
    let mut system = ConstraintSystem::new();
    let instance = system.instance_column();
    let state = system.advice_column();
    let key = system.advice_column();
    let rc = system.fixed_column();
    assert_eq!(
        MiMC5Chip::configure(&mut system, instance, state, key, state),
        Err(Error::Configuration)
    );
    assert_eq!(
        MiMC5Chip::configure(&mut system, state, state, key, rc),
        Err(Error::Configuration)
    );
    assert_eq!(
        MiMC5HashChip::configure(&mut system, instance, rc, rc),
        Err(Error::Configuration)
    );
    assert_eq!(system.num_selectors(), 0);
    assert!(system.gates().is_empty());

    let config = MiMC5Chip::configure(&mut system, instance, state, key, rc).unwrap();
    assert_eq!(
        config,
        MiMC5Config {
            instance,
            state,
            key_column: key,
            round_constants: rc,
            s_in_rounds: Selector { index: 0 },
            s_post_rounds: Selector { index: 1 },
        }
    );
    assert_eq!(system.equality(), &vec![instance, state, key]);
    assert_eq!(system.constants(), &vec![rc]);
    assert_eq!(system.gates().len(), 2);
    assert_eq!(system.gates()[0].name, "MiMC5 rounds");
    assert_eq!(system.gates()[0].polys.len(), 2);
    assert_eq!(system.gates()[1].name, "post rounds key addition");
    assert_eq!(system.gates()[1].selector, config.s_post_rounds);

    let config = MiMC5HashChip::configure(&mut system, instance, state, rc).unwrap();
    assert_eq!(
        config,
        MiMC5HashConfig { instance, state, round_constants: rc, s_in_rounds: Selector { index: 2 } }
    );
    assert_eq!(system.gates().len(), 3);
    assert_eq!(system.gates()[2].name, "MiMC5 hash rounds");
    // the key must stay the same from one row to the next
    let prev_key = Expression::query(key, Rotation::prev());
    let cur_key = Expression::query(key, Rotation::cur());
    assert_eq!(system.gates()[0].polys[1], prev_key.minus(cur_key));
}

#[test]
fn exposing_needs_columns_enabled_for_equality() {
    let mut system = ConstraintSystem::new();
    let config = MiMC5Circuit::configure(&mut system);
    let mut witness = Layouter::new(&system, vec![vec![]]).unwrap();
    let chip = MiMC5Chip::construct(config);
    let spare = Column { kind: ColumnKind::Advice, index: 7 };
    let cell = zk_circuits::circuit::AssignedCell {
        cell: Cell { column: spare, row: 0 },
        value: Felt::zero(),
    };
    assert_eq!(chip.expose_public(&mut witness, cell, 0), Err(Error::Configuration));
    assert!(witness.ops().is_empty());
}

#[test]
fn constraint_system_refuses_what_was_not_declared() {
    let mut system = ConstraintSystem::new();
    let a = system.advice_column();
    let f = system.fixed_column();
    let s = system.selector();
    assert_eq!(a, Column { kind: ColumnKind::Advice, index: 0 });
    assert_eq!(f, Column { kind: ColumnKind::Fixed, index: 0 });
    assert_eq!(system.instance_column(), Column { kind: ColumnKind::Instance, index: 0 });
    assert_eq!(system.advice_column(), Column { kind: ColumnKind::Advice, index: 1 });
    assert_eq!((system.num_advice(), system.num_fixed(), system.num_instance()), (2, 1, 1));

    let unknown = Column { kind: ColumnKind::Advice, index: 2 };
    assert_eq!(system.enable_equality(unknown), Err(Error::Configuration));
    assert_eq!(system.enable_constant(a), Err(Error::Configuration));
    assert_eq!(system.enable_equality(a), Ok(()));
    assert_eq!(system.enable_constant(f), Ok(()));
    assert!(system.has_column(a) && !system.has_column(unknown));

    let q = || Expression::query(a, Rotation::cur());
    assert_eq!(system.create_gate("empty", s, vec![]), Err(Error::Configuration));
    assert_eq!(
        system.create_gate("no selector", Selector { index: 1 }, vec![q()]),
        Err(Error::Configuration)
    );
    assert_eq!(
        system.create_gate("no column", s, vec![q(), q().plus(Expression::query(unknown, Rotation::next()))]),
        Err(Error::Configuration)
    );
    assert!(system.gates().is_empty());
    assert_eq!(system.create_gate("zero", s, vec![q()]), Ok(()));
    assert_eq!(system.gates().len(), 1);
    assert_eq!(system.gates()[0].polys[0], q());
    assert_eq!(q().duplicate(), q());
}

#[test]
fn expressions_evaluate_over_the_witness() {
    let mut system = ConstraintSystem::new();
    let a = system.advice_column();
    let f = system.fixed_column();
    let i = system.instance_column();
    let s = system.selector();
    system.enable_equality(a).unwrap();
    system.enable_equality(i).unwrap();
    // a[row] * f[row - 1] - a[row + 1] = 0
    let poly = Expression::query(a, Rotation::cur())
        .times(Expression::query(f, Rotation::prev()))
        .minus(Expression::query(a, Rotation::next()));
    system.create_gate("product", s, vec![poly.duplicate()]).unwrap();

    let mut witness = Layouter::new(&system, vec![vec![Felt::from_u64(6)]]).unwrap();
    assert_eq!(Layouter::new(&system, vec![]).err(), Some(Error::Configuration));
    witness.assign_fixed(f, 0, Felt::from_u64(5)).unwrap();
    witness.assign_advice_from_instance(i, 0, a, 1).unwrap();
    witness.assign_advice(a, 2, Felt::from_u64(30)).unwrap();
    s.enable(&mut witness, 1).unwrap();
    assert_eq!(witness.cell(a, 1), Some(Felt::from_u64(6)));
    assert_eq!(witness.cell(i, 0), Some(Felt::from_u64(6)));
    assert_eq!(witness.cell(i, 1), Some(Felt::zero()));
    assert_eq!(witness.cell(a, 0), None);
    assert_eq!(poly.evaluate(&witness, 1), Some(Felt::zero()));
    assert_eq!(poly.evaluate(&witness, 0), None);
    assert_eq!(poly.evaluate(&witness, 2), None);
    let sum = Expression::constant(Felt::from_u64(4)).plus(Expression::query(a, Rotation::cur()).neg());
    assert_eq!(sum.evaluate(&witness, 2), Some(Felt::from_u64(26).neg()));
    assert!(system.gates()[0].holds(&witness, 1));
    assert_eq!(verify(&system, &witness), Ok(()));

    // the last write wins
    witness.assign_advice(a, 2, Felt::from_u64(31)).unwrap();
    assert_eq!(witness.cell(a, 2), Some(Felt::from_u64(31)));
    assert_eq!(poly.evaluate(&witness, 1), Some(Felt::one().neg()));
    assert_eq!(verify(&system, &witness), Err(Error::WitnessInconsistency));

    // a selector on a row whose cells hold nothing
    let mut witness = Layouter::new(&system, vec![vec![]]).unwrap();
    s.enable(&mut witness, 0).unwrap();
    assert_eq!(verify(&system, &witness), Err(Error::WitnessInconsistency));

    // what the witness refuses
    assert_eq!(witness.assign_advice(f, 0, Felt::zero()).err(), Some(Error::Configuration));
    assert_eq!(witness.assign_fixed(a, 0, Felt::zero()).err(), Some(Error::Configuration));
    assert_eq!(Selector { index: 1 }.enable(&mut witness, 0), Err(Error::Configuration));
    assert_eq!(witness.assign_advice_from_instance(i, 0, f, 0).err(), Some(Error::Configuration));
    assert_eq!(
        witness.constrain_instance(Cell { column: a, row: 0 }, a, 0),
        Err(Error::Configuration)
    );
    assert_eq!(witness.ops().len(), 1);
}

#[test]
fn mimc_circuits_without_witnesses_keep_their_shape() {
    let circuit = MiMC5Circuit {
        message: Felt::one(),
        key: Felt::one(),
        num_rounds: NUM_ROUNDS,
        round_constants: round_constants(),
    };
    let blank = circuit.without_witnesses();
    assert_eq!((blank.message, blank.key, blank.num_rounds), (Felt::zero(), Felt::zero(), 110));
    assert_eq!(blank.round_constants, round_constants());
    let (_, witness) = blank.build(vec![]).unwrap();
    assert_eq!(witness.ops().len(), 3 + 4 * 110 + 1 + 2);
    let circuit = MiMC5HashCircuit {
        message: Felt::one(),
        num_rounds: NUM_ROUNDS,
        round_constants: round_constants(),
    };
    let blank = circuit.without_witnesses();
    assert_eq!((blank.message, blank.num_rounds), (Felt::zero(), 110));
    assert_eq!(blank.round_constants, round_constants());
    let (_, witness) = blank.build(vec![]).unwrap();
    assert_eq!(witness.ops().len(), 1 + 3 * 110 + 2);
}

#[test]
fn hash_chip_and_keyed_cipher_chip_assign_different_outputs() {
    let constants = round_constants();
    let zero = Felt::zero();

    let mut system = ConstraintSystem::new();
    let config = MiMC5HashCircuit::configure(&mut system);
    let mut witness = Layouter::new(&system, vec![vec![zero]]).unwrap();
    let chip = MiMC5HashChip::construct(config);
    let (_, hash) = chip.assign(&mut witness, zero, &constants, NUM_ROUNDS).unwrap();

    let mut system = ConstraintSystem::new();
    let config = MiMC5Circuit::configure(&mut system);
    let mut witness = Layouter::new(&system, vec![vec![zero]]).unwrap();
    let chip = MiMC5Chip::construct(config);
    let (_, keyed) = chip.assign(&mut witness, zero, Felt::one(), &constants, NUM_ROUNDS).unwrap();
    let mut witness = Layouter::new(&system, vec![vec![zero]]).unwrap();
    let (_, unkeyed) = chip.assign(&mut witness, zero, zero, &constants, NUM_ROUNDS).unwrap();

    assert_ne!(hash.value(), keyed.value());
    assert_eq!(hash.value(), unkeyed.value());
    // the two outputs, worked out by hand on whole numbers
    assert_eq!(
        hash.value(),
        Felt::from_raw([
            0xb1a77371c7bd3f05,
            0xe2fb00cd83fd7453,
            0xbc7f9c42ca11472a,
            0x37e2f49f745b6bf7,
        ])
    );
    assert_eq!(
        keyed.value(),
        Felt::from_raw([
            0xe42392ad0a392e42,
            0x325641d227e4072d,
            0x015d86d5978ee0c7,
            0x2c0ddad9947427f6,
        ])
    );
    assert_eq!(hash.value().to_repr(), hash_on_fp(Fp::from(0), &fp_constants()).to_repr());
    assert_eq!(
        keyed.value().to_repr(),
        cipher_on_fp(Fp::from(0), Fp::from(1), &fp_constants()).to_repr()
    );
}

#[test]
fn the_test_for_bits_passes_zero_and_one_only() {
    let mut system = ConstraintSystem::new();
    let a = system.advice_column();
    let s = system.selector();
    // bit * (1 - bit)
    let bit = || Expression::query(a, Rotation::cur());
    let poly = bit().times(Expression::constant(Felt::one()).minus(bit()));
    system.create_gate("bit", s, vec![poly.duplicate()]).unwrap();
    let largest = Felt::zero().sub(&Felt::one());
    let others = [
        Felt::from_u64(2),
        Felt::from_u64(3),
        Felt::from_u64(u64::MAX),
        Felt::two_inv(),
        largest,
        Felt::from_raw([0, 0, 1, 0]),
        Felt::from_raw([0x992d30ed00000002, 0x224698fc094cf91b, 0, 0x2000000000000000]),
    ];
    for (value, passes) in [(Felt::zero(), true), (Felt::one(), true)]
        .into_iter()
        .chain(others.into_iter().map(|v| (v, false)))
    {
        let mut witness = Layouter::new(&system, vec![]).unwrap();
        witness.assign_advice(a, 0, value).unwrap();
        s.enable(&mut witness, 0).unwrap();
        assert_eq!(poly.evaluate(&witness, 0).unwrap().is_zero(), passes);
        assert_eq!(verify(&system, &witness).is_ok(), passes);
    }
}

#[test]
fn linked_cells_must_hold_the_same_value() {
    let mut system = ConstraintSystem::new();
    let a = system.advice_column();
    let b = system.advice_column();
    let c = system.advice_column();
    system.enable_equality(a).unwrap();
    system.enable_equality(b).unwrap();
    let at = |column, row| Cell { column, row };

    let mut witness = Layouter::new(&system, vec![]).unwrap();
    witness.assign_advice(a, 0, Felt::from_u64(9)).unwrap();
    witness.assign_advice(b, 2, Felt::from_u64(9)).unwrap();
    assert_eq!(witness.constrain_equal(at(a, 0), at(b, 2)), Ok(()));
    assert_eq!(
        witness.ops().last(),
        Some(&Op::ConstrainEqual { left: at(a, 0), right: at(b, 2) })
    );
    assert_eq!(verify(&system, &witness), Ok(()));
    witness.assign_advice(b, 2, Felt::from_u64(8)).unwrap();
    assert_eq!(verify(&system, &witness), Err(Error::WitnessInconsistency));

    // cells that hold nothing are not equal
    let mut witness = Layouter::new(&system, vec![]).unwrap();
    assert_eq!(witness.constrain_equal(at(a, 0), at(b, 0)), Ok(()));
    assert_eq!(verify(&system, &witness), Err(Error::WitnessInconsistency));

    // a column that was not enabled for equality cannot be linked
    let mut witness = Layouter::new(&system, vec![]).unwrap();
    assert_eq!(witness.constrain_equal(at(a, 0), at(c, 0)), Err(Error::Configuration));
    assert_eq!(witness.constrain_equal(at(c, 0), at(a, 0)), Err(Error::Configuration));
    assert!(witness.ops().is_empty());
}

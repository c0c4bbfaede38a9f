//! The two Collatz circuits: what they lay out, when they refuse, and what
//! the witness check says of the result.

use zk_circuits::circuit::{Cell, Layouter, Op};
use zk_circuits::collatz::collatz::{CollatzChip, CollatzCircuit, CollatzConfig, WIDTH};
use zk_circuits::collatz::collatz_one_column::{
    CollatzChip as OneColumnChip, CollatzConfig as OneColumnConfig, MyCircuit,
};
use zk_circuits::dev::verify;
use zk_circuits::error::Error;
use zk_circuits::field::Felt;
use zk_circuits::plonk::{Column, ColumnKind, ConstraintSystem, Selector};

fn small(x: Felt) -> u64 {
    let bytes = x.to_repr();
    assert!(bytes[8..].iter().all(|b| *b == 0));
    u64::from_le_bytes(bytes[0..8].try_into().unwrap())
}

fn columns(config: &CollatzConfig) -> [Column; 6] {
    [
        config.advice0,
        config.advice1,
        config.advice2,
        config.advice3,
        config.advice4,
        config.advice5,
    ]
}

/// The number spelled by the six cells of `row`, and the cells themselves.
fn row_number(witness: &Layouter, config: &CollatzConfig, row: usize) -> (u64, Vec<u64>) {
    let bits: Vec<u64> =
        columns(config).iter().map(|c| small(witness.cell(*c, row).unwrap())).collect();
    (bits.iter().fold(0, |acc, b| 2 * acc + b), bits)
}

fn collatz(initial: u64, rows: usize) -> Vec<u64> {
    let mut values = vec![initial];
    while values.len() < rows {
        let v = *values.last().unwrap();
        values.push(if v % 2 == 0 { v / 2 } else { 3 * v + 1 });
    }
    values
}

#[test]
fn collatz6_lays_out_the_sequence_from_52() {
    let circuit = CollatzCircuit { initial_value: Felt::from_u64(52), nrows: 12 };
    let (system, witness) = circuit.build().unwrap();
    let mut system_again = ConstraintSystem::new();
    let config = CollatzCircuit::configure(&mut system_again);

    let expected = [52, 26, 13, 40, 20, 10, 5, 16, 8, 4, 2, 1];
    for (row, value) in expected.iter().enumerate() {
        let (number, bits) = row_number(&witness, &config, row);
        assert_eq!(number, *value);
        assert!(bits.iter().all(|b| *b == 0 || *b == 1));
    }
    assert_eq!(row_number(&witness, &config, 0).1, vec![1, 1, 0, 1, 0, 0]);
    assert_eq!(row_number(&witness, &config, 11).1, vec![0, 0, 0, 0, 0, 1]);
    assert_eq!(witness.cell(config.advice0, 12), None);
    assert_eq!(verify(&system, &witness), Ok(()));
}

#[test]
fn collatz6_records_each_row_in_order() {
    let circuit = CollatzCircuit { initial_value: Felt::from_u64(2), nrows: 2 };
    let (_, witness) = circuit.build().unwrap();
    let mut system = ConstraintSystem::new();
    let config = CollatzCircuit::configure(&mut system);
    let bit = |column, row, value| Op::Assign {
        cell: Cell { column, row },
        value: Felt::from_u64(value),
    };
    let expected = vec![
        Op::EnableSelector { selector: config.s_all_rows, row: 0 },
        Op::EnableSelector { selector: config.s_non_last_row, row: 0 },
        bit(config.advice5, 0, 0),
        bit(config.advice4, 0, 1),
        bit(config.advice3, 0, 0),
        bit(config.advice2, 0, 0),
        bit(config.advice1, 0, 0),
        bit(config.advice0, 0, 0),
        Op::EnableSelector { selector: config.s_all_rows, row: 1 },
        Op::EnableSelector { selector: config.s_last_row, row: 1 },
        bit(config.advice5, 1, 1),
        bit(config.advice4, 1, 0),
        bit(config.advice3, 1, 0),
        bit(config.advice2, 1, 0),
        bit(config.advice1, 1, 0),
        bit(config.advice0, 1, 0),
    ];
    assert_eq!(witness.ops(), &expected);
    assert_eq!(WIDTH, 6);
}

#[test]
fn collatz6_follows_the_rule_for_every_start_that_fits() {
    for initial in 1u64..64 {
        let full = collatz(initial, 200);
        let reach = full.iter().position(|v| *v == 1).unwrap() + 1;
        let fits = full[..reach].iter().all(|v| *v < 64);
        let circuit = CollatzCircuit { initial_value: Felt::from_u64(initial), nrows: reach };
        match circuit.build() {
            Ok((system, witness)) => {
                assert!(fits);
                let mut again = ConstraintSystem::new();
                let config = CollatzCircuit::configure(&mut again);
                for row in 0..reach {
                    let (number, bits) = row_number(&witness, &config, row);
                    assert_eq!(number, full[row]);
                    assert!(bits.iter().all(|b| *b == 0 || *b == 1));
                    if row + 1 < reach {
                        let next = row_number(&witness, &config, row + 1).0;
                        assert_eq!(next, if number % 2 == 0 { number / 2 } else { 3 * number + 1 });
                    }
                }
                assert_eq!(row_number(&witness, &config, reach - 1).0, 1);
                assert_eq!(verify(&system, &witness), Ok(()));
            }
            Err(e) => {
                assert!(!fits);
                assert_eq!(e, Error::WitnessInconsistency);
            }
        }
    }
}

#[test]
fn collatz6_refuses_too_few_rows() {
    for nrows in 0..12 {
        let circuit = CollatzCircuit { initial_value: Felt::from_u64(52), nrows };
        assert_eq!(circuit.build().err(), Some(Error::InsufficientRows));
    }
    let circuit = CollatzCircuit { initial_value: Felt::from_u64(52), nrows: 13 };
    assert_eq!(circuit.build().err(), Some(Error::InsufficientRows));
    // 1, 4, 2, 1: the sequence stands at one again three rows later
    let circuit = CollatzCircuit { initial_value: Felt::from_u64(52), nrows: 15 };
    let (system, witness) = circuit.build().unwrap();
    assert_eq!(verify(&system, &witness), Ok(()));
}

#[test]
fn collatz6_reports_too_few_rows_before_too_wide_values() {
    // 27, 82, 41, 124, 62: the rows are too few, and 82 is too wide
    let circuit = CollatzCircuit { initial_value: Felt::from_u64(27), nrows: 5 };
    assert_eq!(circuit.build().err(), Some(Error::InsufficientRows));
    // the start itself is too wide, and the rows are too few
    for nrows in [0, 1, 3, 25, 27] {
        let circuit = CollatzCircuit { initial_value: Felt::from_u64(100), nrows };
        assert_eq!(circuit.build().err(), Some(Error::InsufficientRows));
    }
    let circuit = CollatzCircuit { initial_value: Felt::from_u64(64), nrows: 6 };
    assert_eq!(circuit.build().err(), Some(Error::InsufficientRows));
    let circuit = CollatzCircuit { initial_value: Felt::from_u64(27), nrows: 111 };
    assert_eq!(circuit.build().err(), Some(Error::InsufficientRows));

    let mut system = ConstraintSystem::new();
    let config = CollatzCircuit::configure(&mut system);
    let mut witness = Layouter::new(&system, vec![]).unwrap();
    let chip = CollatzChip::construct(config);
    assert_eq!(chip.assign(&mut witness, Felt::from_u64(27), 5), Err(Error::InsufficientRows));
    assert!(witness.ops().is_empty());
    assert_eq!(
        chip.assign(&mut witness, Felt::from_u64(27), 112),
        Err(Error::WitnessInconsistency)
    );
    assert!(witness.ops().is_empty());
}

#[test]
fn collatz6_refuses_values_wider_than_a_row() {
    let circuit = CollatzCircuit { initial_value: Felt::from_u64(100), nrows: 26 };
    assert_eq!(circuit.build().err(), Some(Error::WitnessInconsistency));
    // 27 -> 82
    let circuit = CollatzCircuit { initial_value: Felt::from_u64(27), nrows: 112 };
    assert_eq!(circuit.build().err(), Some(Error::WitnessInconsistency));
    let circuit = CollatzCircuit { initial_value: Felt::from_u64(64), nrows: 7 };
    assert_eq!(circuit.build().err(), Some(Error::WitnessInconsistency));
    let circuit = CollatzCircuit { initial_value: Felt::from_u64(32), nrows: 6 };
    assert!(circuit.build().is_ok());
}

#[test]
fn collatz6_failure_leaves_the_witness_untouched() {
    let mut system = ConstraintSystem::new();
    let config = CollatzCircuit::configure(&mut system);
    let mut witness = Layouter::new(&system, vec![]).unwrap();
    let chip = CollatzChip::construct(config);
    assert_eq!(chip.assign(&mut witness, Felt::from_u64(52), 5), Err(Error::InsufficientRows));
    assert!(witness.ops().is_empty());
    assert_eq!(chip.assign(&mut witness, Felt::from_u64(8), 4), Ok(()));
    assert_eq!(witness.ops().len(), 4 * 8);
}

#[test]
fn collatz6_configure_checks_its_columns() {
    let mut system = ConstraintSystem::new();
    let a: Vec<Column> = (0..6).map(|_| system.advice_column()).collect();
    let fixed = system.fixed_column();
    let unknown = Column { kind: ColumnKind::Advice, index: 6 };
    let r = CollatzChip::configure(&mut system, a[0], a[1], a[2], a[3], a[4], fixed);
    assert_eq!(r, Err(Error::Configuration));
    let r = CollatzChip::configure(&mut system, a[0], a[1], unknown, a[3], a[4], a[5]);
    assert_eq!(r, Err(Error::Configuration));
    assert_eq!(system.num_selectors(), 0);
    assert!(system.gates().is_empty());
    assert!(system.equality().is_empty());

    let config = CollatzChip::configure(&mut system, a[0], a[1], a[2], a[3], a[4], a[5]).unwrap();
    assert_eq!(config.s_all_rows, Selector { index: 0 });
    assert_eq!(config.s_last_row, Selector { index: 1 });
    assert_eq!(config.s_non_last_row, Selector { index: 2 });
    assert_eq!(system.num_selectors(), 3);
    assert_eq!(system.equality(), &a);
    let gates = system.gates();
    assert_eq!(gates.len(), 3);
    assert_eq!(gates[0].name, "advice columns are bits");
    assert_eq!(gates[0].polys.len(), 6);
    assert_eq!(gates[1].name, "last advice row equals a 1");
    assert_eq!(gates[1].polys.len(), 6);
    assert_eq!(gates[2].name, "Collatz sequence rule");
    assert_eq!(gates[2].polys.len(), 1);
    assert_eq!(gates[2].selector, config.s_non_last_row);
}

#[test]
fn collatz6_assign_needs_its_configuration() {
    let mut system = ConstraintSystem::new();
    let config = CollatzCircuit::configure(&mut system);
    let empty = ConstraintSystem::new();
    let mut witness = Layouter::new(&empty, vec![]).unwrap();
    let chip = CollatzChip::construct(config);
    assert_eq!(chip.assign(&mut witness, Felt::from_u64(1), 1), Err(Error::Configuration));
    assert!(witness.ops().is_empty());
}

#[test]
fn a_cell_that_is_no_bit_fails_the_check() {
    let circuit = CollatzCircuit { initial_value: Felt::from_u64(52), nrows: 12 };
    let (system, mut witness) = circuit.build().unwrap();
    let mut again = ConstraintSystem::new();
    let config = CollatzCircuit::configure(&mut again);
    assert_eq!(verify(&system, &witness), Ok(()));
    witness.assign_advice(config.advice0, 3, Felt::from_u64(2)).unwrap();
    assert_eq!(verify(&system, &witness), Err(Error::WitnessInconsistency));
}

#[test]
fn a_row_off_the_sequence_fails_the_check() {
    let circuit = CollatzCircuit { initial_value: Felt::from_u64(52), nrows: 12 };
    let (system, mut witness) = circuit.build().unwrap();
    let mut again = ConstraintSystem::new();
    let config = CollatzCircuit::configure(&mut again);
    // row 5 spells 10; make it 11, still six bits
    witness.assign_advice(config.advice5, 5, Felt::one()).unwrap();
    assert_eq!(verify(&system, &witness), Err(Error::WitnessInconsistency));
}

#[test]
fn one_column_reaches_one_from_100_in_26_rows() {
    let circuit = MyCircuit { initial_value: Felt::from_u64(100), nrows: 26 };
    let public_input = vec![Felt::from_u64(100), Felt::from_u64(1)];
    let (system, witness) = circuit.build(public_input).unwrap();
    let mut again = ConstraintSystem::new();
    let config: OneColumnConfig = MyCircuit::configure(&mut again);
    let expected = collatz(100, 26);
    assert_eq!(*expected.last().unwrap(), 1);
    for (row, value) in expected.iter().enumerate() {
        assert_eq!(small(witness.cell(config.element, row).unwrap()), *value);
        let flag = small(witness.cell(config.is_even, row).unwrap());
        assert_eq!(flag, if value % 2 == 0 { 1 } else { 0 });
    }
    assert_eq!(witness.cell(config.element, 26), None);
    assert_eq!(verify(&system, &witness), Ok(()));
}

#[test]
fn one_column_returns_the_last_cell() {
    let mut system = ConstraintSystem::new();
    let config = MyCircuit::configure(&mut system);
    let public_input = vec![Felt::from_u64(8), Felt::from_u64(1)];
    let mut witness = Layouter::new(&system, vec![public_input]).unwrap();
    let chip = OneColumnChip::construct(config);
    let last = chip.assign(&mut witness, Felt::from_u64(8), 4).unwrap();
    assert_eq!(last.cell(), Cell { column: config.element, row: 3 });
    assert_eq!(last.value(), Felt::one());
    let flag = |row, value| Op::Assign {
        cell: Cell { column: config.is_even, row },
        value: Felt::from_u64(value),
    };
    let element = |row, value| Op::Assign {
        cell: Cell { column: config.element, row },
        value: Felt::from_u64(value),
    };
    let on = |row| Op::EnableSelector { selector: config.selector, row };
    let expected = vec![
        on(0),
        flag(0, 1),
        Op::AssignFromInstance {
            cell: Cell { column: config.element, row: 0 },
            instance: Cell { column: config.instance, row: 0 },
        },
        on(1),
        element(1, 4),
        flag(1, 1),
        on(2),
        element(2, 2),
        flag(2, 1),
        element(3, 1),
        flag(3, 0),
    ];
    assert_eq!(witness.ops(), &expected);
    chip.expose_public(&mut witness, last, 1).unwrap();
    assert_eq!(
        witness.ops().last(),
        Some(&Op::ConstrainInstance {
            cell: Cell { column: config.element, row: 3 },
            instance: Cell { column: config.instance, row: 1 },
        })
    );
    assert_eq!(verify(&system, &witness), Ok(()));
}

#[test]
fn one_column_takes_values_of_any_width() {
    // 27 climbs to 9232 and reaches one after 111 steps
    let circuit = MyCircuit { initial_value: Felt::from_u64(27), nrows: 112 };
    let public_input = vec![Felt::from_u64(27), Felt::from_u64(1)];
    let (system, witness) = circuit.build(public_input).unwrap();
    let mut again = ConstraintSystem::new();
    let config = MyCircuit::configure(&mut again);
    let expected = collatz(27, 112);
    assert_eq!(expected.iter().max(), Some(&9232));
    for (row, value) in expected.iter().enumerate() {
        assert_eq!(small(witness.cell(config.element, row).unwrap()), *value);
    }
    assert_eq!(verify(&system, &witness), Ok(()));
}

#[test]
fn one_column_refuses_rows_that_do_not_end_at_one() {
    let public_input = vec![Felt::from_u64(100), Felt::from_u64(1)];
    for nrows in [0, 1, 2, 10, 25, 27] {
        let circuit = MyCircuit { initial_value: Felt::from_u64(100), nrows };
        assert_eq!(circuit.build(public_input.clone()).err(), Some(Error::InsufficientRows));
    }
    let circuit = MyCircuit { initial_value: Felt::from_u64(1), nrows: 1 };
    let (system, witness) = circuit.build(vec![Felt::one(), Felt::one()]).unwrap();
    assert_eq!(witness.ops().len(), 3);
    assert_eq!(verify(&system, &witness), Ok(()));
}

#[test]
fn one_column_check_rejects_other_public_inputs() {
    let circuit = MyCircuit { initial_value: Felt::from_u64(100), nrows: 26 };
    let wrong_end = vec![Felt::from_u64(100), Felt::from_u64(2)];
    let (system, witness) = circuit.build(wrong_end).unwrap();
    assert_eq!(verify(&system, &witness), Err(Error::WitnessInconsistency));
    let wrong_start = vec![Felt::from_u64(99), Felt::from_u64(1)];
    let (system, witness) = circuit.build(wrong_start).unwrap();
    assert_eq!(verify(&system, &witness), Err(Error::WitnessInconsistency));
    let (system, witness) = circuit.build(vec![]).unwrap();
    assert_eq!(verify(&system, &witness), Err(Error::WitnessInconsistency));
}

#[test]
fn one_column_configure_checks_its_columns() {
    let mut system = ConstraintSystem::new();
    let element = system.advice_column();
    let is_even = system.advice_column();
    let instance = system.instance_column();
    assert_eq!(
        OneColumnChip::configure(&mut system, element, instance, instance),
        Err(Error::Configuration)
    );
    assert_eq!(
        OneColumnChip::configure(
            &mut system,
            element,
            is_even,
            Column { kind: ColumnKind::Instance, index: 1 }
        ),
        Err(Error::Configuration)
    );
    assert_eq!(system.num_selectors(), 0);
    let config = OneColumnChip::configure(&mut system, element, is_even, instance).unwrap();
    assert_eq!(config, OneColumnConfig { element, is_even, selector: Selector { index: 0 }, instance });
    assert_eq!(system.equality(), &vec![element, is_even, instance]);
    assert_eq!(system.gates().len(), 1);
    assert_eq!(system.gates()[0].name, "collatz sequence rules");
}

#[test]
fn circuits_without_witnesses_keep_their_shape() {
    for (nrows, start) in [(1, 1), (2, 2), (3, 4), (12, 4), (13, 1), (26, 2)] {
        let circuit = CollatzCircuit { initial_value: Felt::from_u64(52), nrows };
        let blank = circuit.without_witnesses();
        assert_eq!(blank.nrows, nrows);
        assert_eq!(blank.initial_value, Felt::from_u64(start));
        let (system, witness) = blank.build().unwrap();
        assert_eq!(witness.ops().len(), 8 * nrows);
        assert_eq!(verify(&system, &witness), Ok(()));

        let circuit = MyCircuit { initial_value: Felt::from_u64(100), nrows };
        let blank = circuit.without_witnesses();
        assert_eq!(blank.nrows, nrows);
        assert_eq!(blank.initial_value, Felt::from_u64(start));
        let (system, witness) = blank.build(vec![Felt::from_u64(start), Felt::one()]).unwrap();
        assert_eq!(verify(&system, &witness), Ok(()));
    }
    // the same selectors on the same rows, the same cells filled
    let circuit = CollatzCircuit { initial_value: Felt::from_u64(52), nrows: 12 };
    let (_, real) = circuit.build().unwrap();
    let (_, blank) = circuit.without_witnesses().build().unwrap();
    let shape = |op: &Op| match *op {
        Op::Assign { cell, .. } => Op::Assign { cell, value: Felt::zero() },
        other => other,
    };
    let real: Vec<Op> = real.ops().iter().map(shape).collect();
    let blank: Vec<Op> = blank.ops().iter().map(shape).collect();
    assert_eq!(real, blank);

    let circuit = CollatzCircuit { initial_value: Felt::from_u64(52), nrows: 0 };
    assert_eq!(circuit.without_witnesses().build().err(), Some(Error::InsufficientRows));
}

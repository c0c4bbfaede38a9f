//! The circuits checked by halo2's `MockProver`: the constraint system and
//! the witness that the library builds are handed to halo2 as they are.

use halo2_proofs::circuit::{Cell as H2Cell, Layouter as H2Layouter, SimpleFloorPlanner, Value};
use halo2_proofs::dev::MockProver;
use halo2_proofs::pasta::group::ff::PrimeField;
use halo2_proofs::pasta::{EqAffine, Fp};
use halo2_proofs::plonk::{
    keygen_vk, Advice, Circuit, Column as H2Column, ConstraintSystem as H2System,
    Error as H2Error, Expression as H2Expression, Fixed, Instance, Selector as H2Selector,
    VirtualCells,
};
use halo2_proofs::poly::commitment::Params;
use halo2_proofs::poly::Rotation as H2Rotation;
use zk_circuits::circuit::{Cell, Layouter, Op};
use zk_circuits::collatz::collatz::{CollatzCircuit, CollatzConfig};
use zk_circuits::collatz::collatz_one_column::{CollatzConfig as OneColumnConfig, MyCircuit};
use zk_circuits::dev::verify;
use zk_circuits::field::Felt;
use zk_circuits::mimc_hash::pallas_round_constants::{round_constants, NUM_ROUNDS};
use zk_circuits::mimc_pallas::mimc::{MiMC5Circuit, MiMC5Config};
use zk_circuits::mimc_pallas::mimc_hash::{MiMC5HashCircuit, MiMC5HashConfig};
use zk_circuits::mimc_pallas::primitives::{mimc5_encrypt, mimc5_hash};
use zk_circuits::plonk::{Column, ColumnKind, ConstraintSystem, Expression, Rotation};

fn to_fp(x: &Felt) -> Fp {
    Fp::from_repr(x.to_repr()).unwrap()
}

fn to_felt(x: &Fp) -> Felt {
    Felt::from_repr(x.to_repr()).unwrap()
}

/// The halo2 columns and selectors that stand for the library's, by index.
#[derive(Clone, Debug)]
struct Handles {
    advice: Vec<H2Column<Advice>>,
    fixed: Vec<H2Column<Fixed>>,
    instance: Vec<H2Column<Instance>>,
    selectors: Vec<H2Selector>,
}

fn lower(e: &Expression, cells: &mut VirtualCells<'_, Fp>, h: &Handles) -> H2Expression<Fp> {
    match e {
        Expression::Constant(c) => H2Expression::Constant(to_fp(c)),
        Expression::Query(column, at) => {
            let at = match at {
                Rotation::Prev => H2Rotation::prev(),
                Rotation::Cur => H2Rotation::cur(),
                Rotation::Next => H2Rotation::next(),
            };
            match column.kind {
                ColumnKind::Advice => cells.query_advice(h.advice[column.index], at),
                ColumnKind::Fixed => cells.query_fixed(h.fixed[column.index], at),
                ColumnKind::Instance => cells.query_instance(h.instance[column.index], at),
            }
        }
        Expression::Negated(a) => -lower(a, cells, h),
        Expression::Sum(a, b) => lower(a, cells, h) + lower(b, cells, h),
        Expression::Product(a, b) => lower(a, cells, h) * lower(b, cells, h),
    }
}

fn export(system: &ConstraintSystem, meta: &mut H2System<Fp>) -> Handles {
    let h = Handles {
        advice: (0..system.num_advice()).map(|_| meta.advice_column()).collect(),
        fixed: (0..system.num_fixed()).map(|_| meta.fixed_column()).collect(),
        instance: (0..system.num_instance()).map(|_| meta.instance_column()).collect(),
        selectors: (0..system.num_selectors()).map(|_| meta.selector()).collect(),
    };
    for column in system.equality() {
        match column.kind {
            ColumnKind::Advice => meta.enable_equality(h.advice[column.index]),
            ColumnKind::Fixed => meta.enable_equality(h.fixed[column.index]),
            ColumnKind::Instance => meta.enable_equality(h.instance[column.index]),
        }
    }
    for column in system.constants() {
        meta.enable_constant(h.fixed[column.index]);
    }
    for gate in system.gates() {
        meta.create_gate(gate.name, |cells| {
            let s = cells.query_selector(h.selectors[gate.selector.index]);
            gate.polys.iter().map(|poly| s.clone() * lower(poly, cells, &h)).collect::<Vec<_>>()
        });
    }
    h
}

fn replay(
    witness: &Layouter,
    h: &Handles,
    mut layouter: impl H2Layouter<Fp>,
) -> Result<(), H2Error> {
    let bindings = layouter.assign_region(
        || "witness",
        |mut region| {
            let mut placed: Vec<(Cell, H2Cell)> = Vec::new();
            let mut bindings: Vec<(H2Cell, H2Column<Instance>, usize)> = Vec::new();
            for op in witness.ops() {
                match *op {
                    Op::EnableSelector { selector, row } => {
                        h.selectors[selector.index].enable(&mut region, row)?;
                    }
                    Op::Assign { cell, value } => match cell.column.kind {
                        ColumnKind::Advice => {
                            let assigned = region.assign_advice(
                                || "advice",
                                h.advice[cell.column.index],
                                cell.row,
                                || Value::known(to_fp(&value)),
                            )?;
                            placed.push((cell, assigned.cell()));
                        }
                        ColumnKind::Fixed => {
                            region.assign_fixed(
                                || "fixed",
                                h.fixed[cell.column.index],
                                cell.row,
                                || Value::known(to_fp(&value)),
                            )?;
                        }
                        ColumnKind::Instance => return Err(H2Error::Synthesis),
                    },
                    Op::AssignFromInstance { cell, instance } => {
                        let assigned = region.assign_advice_from_instance(
                            || "from instance",
                            h.instance[instance.column.index],
                            instance.row,
                            h.advice[cell.column.index],
                            cell.row,
                        )?;
                        placed.push((cell, assigned.cell()));
                    }
                    Op::ConstrainInstance { cell, instance } => {
                        let found = placed.iter().rev().find(|(at, _)| *at == cell);
                        match found {
                            Some((_, there)) => bindings.push((
                                *there,
                                h.instance[instance.column.index],
                                instance.row,
                            )),
                            None => return Err(H2Error::Synthesis),
                        }
                    }
                    Op::ConstrainEqual { left, right } => {
                        let a = placed.iter().rev().find(|(at, _)| *at == left);
                        let b = placed.iter().rev().find(|(at, _)| *at == right);
                        match (a, b) {
                            (Some((_, a)), Some((_, b))) => region.constrain_equal(*a, *b)?,
                            _ => return Err(H2Error::Synthesis),
                        }
                    }
                }
            }
            Ok(bindings)
        },
    )?;
    for (cell, column, row) in bindings {
        layouter.constrain_instance(cell, column, row)?;
    }
    Ok(())
}

fn new_witness(system: &ConstraintSystem, instance: &[Vec<Fp>]) -> Result<Layouter, H2Error> {
    let instance = instance.iter().map(|column| column.iter().map(to_felt).collect()).collect();
    Layouter::new(system, instance).map_err(|_| H2Error::InvalidInstances)
}

#[derive(Clone)]
struct CollatzProof {
    circuit: CollatzCircuit,
    instance: Vec<Vec<Fp>>,
}

impl Circuit<Fp> for CollatzProof {
    type Config = (CollatzConfig, Handles);
    type FloorPlanner = SimpleFloorPlanner;

    fn without_witnesses(&self) -> Self {
        CollatzProof { circuit: self.circuit.without_witnesses(), instance: self.instance.clone() }
    }

    fn configure(meta: &mut H2System<Fp>) -> Self::Config {
        let mut system = ConstraintSystem::new();
        let config = CollatzCircuit::configure(&mut system);
        (config, export(&system, meta))
    }

    fn synthesize(
        &self,
        config: Self::Config,
        layouter: impl H2Layouter<Fp>,
    ) -> Result<(), H2Error> {
        let mut system = ConstraintSystem::new();
        CollatzCircuit::configure(&mut system);
        let mut witness = new_witness(&system, &self.instance)?;
        self.circuit.synthesize(config.0, &mut witness).map_err(|_| H2Error::Synthesis)?;
        replay(&witness, &config.1, layouter)
    }
}

#[derive(Clone)]
struct OneColumnProof {
    circuit: MyCircuit,
    instance: Vec<Vec<Fp>>,
}

impl Circuit<Fp> for OneColumnProof {
    type Config = (OneColumnConfig, Handles);
    type FloorPlanner = SimpleFloorPlanner;

    fn without_witnesses(&self) -> Self {
        OneColumnProof {
            circuit: self.circuit.without_witnesses(),
            instance: self.instance.clone(),
        }
    }

    fn configure(meta: &mut H2System<Fp>) -> Self::Config {
        let mut system = ConstraintSystem::new();
        let config = MyCircuit::configure(&mut system);
        (config, export(&system, meta))
    }

    fn synthesize(
        &self,
        config: Self::Config,
        layouter: impl H2Layouter<Fp>,
    ) -> Result<(), H2Error> {
        let mut system = ConstraintSystem::new();
        MyCircuit::configure(&mut system);
        let mut witness = new_witness(&system, &self.instance)?;
        self.circuit.synthesize(config.0, &mut witness).map_err(|_| H2Error::Synthesis)?;
        replay(&witness, &config.1, layouter)
    }
}

#[derive(Clone)]
struct CipherProof {
    circuit: MiMC5Circuit,
    instance: Vec<Vec<Fp>>,
}

impl Circuit<Fp> for CipherProof {
    type Config = (MiMC5Config, Handles);
    type FloorPlanner = SimpleFloorPlanner;

    fn without_witnesses(&self) -> Self {
        CipherProof { circuit: self.circuit.without_witnesses(), instance: self.instance.clone() }
    }

    fn configure(meta: &mut H2System<Fp>) -> Self::Config {
        let mut system = ConstraintSystem::new();
        let config = MiMC5Circuit::configure(&mut system);
        (config, export(&system, meta))
    }

    fn synthesize(
        &self,
        config: Self::Config,
        layouter: impl H2Layouter<Fp>,
    ) -> Result<(), H2Error> {
        let mut system = ConstraintSystem::new();
        MiMC5Circuit::configure(&mut system);
        let mut witness = new_witness(&system, &self.instance)?;
        self.circuit.synthesize(config.0, &mut witness).map_err(|_| H2Error::Synthesis)?;
        replay(&witness, &config.1, layouter)
    }
}

#[derive(Clone)]
struct HashProof {
    circuit: MiMC5HashCircuit,
    instance: Vec<Vec<Fp>>,
}

impl Circuit<Fp> for HashProof {
    type Config = (MiMC5HashConfig, Handles);
    type FloorPlanner = SimpleFloorPlanner;

    fn without_witnesses(&self) -> Self {
        HashProof { circuit: self.circuit.without_witnesses(), instance: self.instance.clone() }
    }

    fn configure(meta: &mut H2System<Fp>) -> Self::Config {
        let mut system = ConstraintSystem::new();
        let config = MiMC5HashCircuit::configure(&mut system);
        (config, export(&system, meta))
    }

    fn synthesize(
        &self,
        config: Self::Config,
        layouter: impl H2Layouter<Fp>,
    ) -> Result<(), H2Error> {
        let mut system = ConstraintSystem::new();
        MiMC5HashCircuit::configure(&mut system);
        let mut witness = new_witness(&system, &self.instance)?;
        self.circuit.synthesize(config.0, &mut witness).map_err(|_| H2Error::Synthesis)?;
        replay(&witness, &config.1, layouter)
    }
}

#[test]
fn test_collatz6() {
    let k = 16;

    let circuit = CollatzProof {
        circuit: CollatzCircuit { initial_value: Felt::from_u64(52), nrows: 12 },
        instance: vec![],
    };

    let prover = MockProver::run(k, &circuit, vec![]).unwrap();
    prover.assert_satisfied();
}

#[test]
fn test_collatz_one_column() {
    let k = 16;

    let initial_value = Fp::from(100);
    let final_value = Fp::from(1);
    let nrows = 26;

    let public_input = vec![initial_value, final_value];

    let circuit = OneColumnProof {
        circuit: MyCircuit { initial_value: to_felt(&initial_value), nrows },
        instance: vec![public_input.clone()],
    };

    let prover = MockProver::run(k, &circuit, vec![public_input.clone()]).unwrap();
    prover.assert_satisfied();
    for i in (0..k).rev() {
        println!("Hello {:?}", i);
    }
}

#[test]
fn test_mimc5_cipher() {
    let k = 7;

    let msg = Fp::from(0);
    let key = Fp::from(0);
    let constants = round_constants();
    let output = to_fp(&mimc5_encrypt(to_felt(&msg), to_felt(&key), &constants));

    let public_input = vec![msg, output];

    let circuit = CipherProof {
        circuit: MiMC5Circuit {
            message: to_felt(&msg),
            key: to_felt(&key),
            round_constants: constants,
            num_rounds: NUM_ROUNDS,
        },
        instance: vec![public_input.clone()],
    };

    let prover = MockProver::run(k, &circuit, vec![public_input.clone()]).unwrap();
    prover.assert_satisfied();
}

#[test]
fn test_mimc5_hash() {
    let k = 7;

    let msg = Fp::from(0);
    let constants = round_constants();
    let output = to_fp(&mimc5_hash(to_felt(&msg), &constants));

    let public_input = vec![msg, output];

    let circuit = HashProof {
        circuit: MiMC5HashCircuit {
            message: to_felt(&msg),
            round_constants: constants,
            num_rounds: NUM_ROUNDS,
        },
        instance: vec![public_input.clone()],
    };

    let prover = MockProver::run(k, &circuit, vec![public_input.clone()]).unwrap();
    prover.assert_satisfied();
}

/// The reference computation, written out on `pasta_curves::Fp` alone.
fn reference_cipher(message: Fp, key: Fp, constants: &[Fp]) -> Fp {
    let mut state = message;
    for c in constants {
        let v = state + key + c;
        state = v * v * v * v * v;
    }
    state + key
}

#[test]
fn mimc5_cipher_with_a_key_is_accepted_by_the_backend() {
    let msg = Fp::from(7);
    let key = Fp::from(123_456_789);
    let constants = round_constants();
    let fp_constants: Vec<Fp> = constants.iter().map(to_fp).collect();
    let output = reference_cipher(msg, key, &fp_constants);
    assert_eq!(to_fp(&mimc5_encrypt(to_felt(&msg), to_felt(&key), &constants)), output);

    let public_input = vec![msg, output];
    let circuit = CipherProof {
        circuit: MiMC5Circuit {
            message: to_felt(&msg),
            key: to_felt(&key),
            round_constants: constants,
            num_rounds: NUM_ROUNDS,
        },
        instance: vec![public_input.clone()],
    };
    let prover = MockProver::run(7, &circuit, vec![public_input]).unwrap();
    assert_eq!(prover.verify(), Ok(()));
}

#[test]
fn backend_rejects_a_wrong_cipher_output() {
    let msg = Fp::from(0);
    let key = Fp::from(5);
    let constants = round_constants();
    let output = to_fp(&mimc5_encrypt(to_felt(&msg), to_felt(&key), &constants));
    let public_input = vec![msg, output + Fp::from(1)];
    let circuit = CipherProof {
        circuit: MiMC5Circuit {
            message: to_felt(&msg),
            key: to_felt(&key),
            round_constants: constants,
            num_rounds: NUM_ROUNDS,
        },
        instance: vec![public_input.clone()],
    };
    let prover = MockProver::run(7, &circuit, vec![public_input]).unwrap();
    assert!(prover.verify().is_err());
}

#[test]
fn backend_rejects_a_wrong_message() {
    let msg = Fp::from(3);
    let constants = round_constants();
    let output = to_fp(&mimc5_hash(to_felt(&msg), &constants));
    let public_input = vec![Fp::from(4), output];
    let circuit = HashProof {
        circuit: MiMC5HashCircuit {
            message: to_felt(&msg),
            round_constants: constants,
            num_rounds: NUM_ROUNDS,
        },
        instance: vec![public_input.clone()],
    };
    let prover = MockProver::run(7, &circuit, vec![public_input]).unwrap();
    assert!(prover.verify().is_err());
}

#[test]
fn backend_rejects_a_wrong_collatz_end() {
    let public_input = vec![Fp::from(100), Fp::from(2)];
    let circuit = OneColumnProof {
        circuit: MyCircuit { initial_value: Felt::from_u64(100), nrows: 26 },
        instance: vec![public_input.clone()],
    };
    let prover = MockProver::run(16, &circuit, vec![public_input]).unwrap();
    assert!(prover.verify().is_err());
}

#[test]
fn backend_and_library_agree_on_each_circuit() {
    // Collatz, six bits per row.
    let mut system = ConstraintSystem::new();
    let config = CollatzCircuit::configure(&mut system);
    let mut witness = Layouter::new(&system, vec![]).unwrap();
    let circuit = CollatzCircuit { initial_value: Felt::from_u64(52), nrows: 12 };
    circuit.synthesize(config, &mut witness).unwrap();
    assert_eq!(verify(&system, &witness), Ok(()));

    // MiMC5 cipher with a wrong output: both say no.
    let constants = round_constants();
    let msg = Felt::from_u64(1);
    let key = Felt::from_u64(2);
    let wrong = vec![vec![msg, Felt::from_u64(9)]];
    let mut system = ConstraintSystem::new();
    let config = MiMC5Circuit::configure(&mut system);
    let mut witness = Layouter::new(&system, wrong.clone()).unwrap();
    let circuit = MiMC5Circuit {
        message: msg,
        key,
        round_constants: constants,
        num_rounds: NUM_ROUNDS,
    };
    circuit.synthesize(config, &mut witness).unwrap();
    assert!(verify(&system, &witness).is_err());
    let instance: Vec<Vec<Fp>> = vec![wrong[0].iter().map(to_fp).collect()];
    let proof = CipherProof { circuit, instance: instance.clone() };
    let prover = MockProver::run(7, &proof, instance).unwrap();
    assert!(prover.verify().is_err());
}

/// Two advice cells bound to be equal, the first holding five.
#[derive(Clone)]
struct LinkProof {
    second: u64,
}

fn link_system() -> (ConstraintSystem, Column, Column) {
    let mut system = ConstraintSystem::new();
    let a = system.advice_column();
    let b = system.advice_column();
    system.enable_equality(a).unwrap();
    system.enable_equality(b).unwrap();
    (system, a, b)
}

fn link_witness(second: u64) -> (ConstraintSystem, Layouter) {
    let (system, a, b) = link_system();
    let mut witness = Layouter::new(&system, vec![]).unwrap();
    let left = witness.assign_advice(a, 0, Felt::from_u64(5)).unwrap();
    let right = witness.assign_advice(b, 3, Felt::from_u64(second)).unwrap();
    witness.constrain_equal(left.cell(), right.cell()).unwrap();
    (system, witness)
}

impl Circuit<Fp> for LinkProof {
    type Config = Handles;
    type FloorPlanner = SimpleFloorPlanner;

    fn without_witnesses(&self) -> Self {
        self.clone()
    }

    fn configure(meta: &mut H2System<Fp>) -> Self::Config {
        export(&link_system().0, meta)
    }

    fn synthesize(
        &self,
        config: Self::Config,
        layouter: impl H2Layouter<Fp>,
    ) -> Result<(), H2Error> {
        replay(&link_witness(self.second).1, &config, layouter)
    }
}

#[test]
fn backend_and_library_agree_on_linked_cells() {
    for (second, equal) in [(5, true), (6, false)] {
        let (system, witness) = link_witness(second);
        assert_eq!(verify(&system, &witness).is_ok(), equal);
        let prover = MockProver::run(4, &LinkProof { second }, vec![]).unwrap();
        assert_eq!(prover.verify().is_ok(), equal);
    }
}

/// The verifying key of `circuit`, written out.
fn key_of<C: Circuit<Fp>>(k: u32, circuit: &C) -> String {
    let params: Params<EqAffine> = Params::new(k);
    format!("{:?}", keygen_vk(&params, circuit).unwrap().pinned())
}

#[test]
fn keys_can_be_generated_without_witnesses() {
    let collatz = CollatzProof {
        circuit: CollatzCircuit { initial_value: Felt::from_u64(52), nrows: 12 },
        instance: vec![],
    };
    assert_eq!(key_of(5, &collatz), key_of(5, &collatz.without_witnesses()));
    let shorter = CollatzProof {
        circuit: CollatzCircuit { initial_value: Felt::from_u64(8), nrows: 4 },
        instance: vec![],
    };
    assert_ne!(key_of(5, &collatz), key_of(5, &shorter));

    let one_column = OneColumnProof {
        circuit: MyCircuit { initial_value: Felt::from_u64(100), nrows: 26 },
        instance: vec![vec![Fp::from(100), Fp::from(1)]],
    };
    assert_eq!(key_of(6, &one_column), key_of(6, &one_column.without_witnesses()));

    let cipher = CipherProof {
        circuit: MiMC5Circuit {
            message: Felt::from_u64(7),
            key: Felt::from_u64(9),
            round_constants: round_constants(),
            num_rounds: NUM_ROUNDS,
        },
        instance: vec![vec![]],
    };
    assert_eq!(key_of(7, &cipher), key_of(7, &cipher.without_witnesses()));

    let hash = HashProof {
        circuit: MiMC5HashCircuit {
            message: Felt::from_u64(7),
            round_constants: round_constants(),
            num_rounds: NUM_ROUNDS,
        },
        instance: vec![vec![]],
    };
    assert_eq!(key_of(7, &hash), key_of(7, &hash.without_witnesses()));
}

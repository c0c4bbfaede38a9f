//! The MiMC5 hash as a circuit: the rounds of the cipher with no key.
//!
//! ```text
//! instance      | state                    | round_constants   | selector
//! message       | x0 = message             |     c0            |
//! message hash  | x1 = (x0+c0)^5           |     c1            | s_in_rounds
//!               | x2 = (x1+c1)^5           |     c2            | s_in_rounds
//!               |      :                   |     :             |     :
//!               | xN = (x(N-1)+c(N-1))^5   |                   | s_in_rounds
//! ```

use crate::circuit::{AssignedCell, Cell, Layouter, LayouterView, OpView, values_of};
use crate::dev::satisfied;
use crate::mimc_pallas::mimc_hash_proofs::{
    lemma_satisfied_binds_output, lemma_witness_satisfies,
};
use crate::error::Error;
use crate::field::Felt;
use crate::mimc_pallas::mimc::{pow_5_expr, pow_5_poly};
use crate::mimc_pallas::primitives::{hash_output, hash_state, pow_5};
use crate::plonk::{
    Column, ColumnKind, ConstraintSystem, ConstraintSystemView, Expression, GateView, Poly,
    Rotation, Selector, lemma_polys_push, polys_of,
};
use vstd::prelude::*;

verus! {

/// The columns and the selector of the circuit.
#[derive(Clone, Copy, Debug, PartialEq, Eq)]
pub struct MiMC5HashConfig {
    pub instance: Column,
    pub state: Column,
    pub round_constants: Column,
    pub s_in_rounds: Selector,
}

/// One round: the state equals the fifth power of the sum of the previous
/// state and the previous row's constant.
pub open spec fn round_poly(config: MiMC5HashConfig) -> Poly {
    let prev_state = Poly::query(config.state, Rotation::Prev);
    let rc = Poly::query(config.round_constants, Rotation::Prev);
    let current_state = Poly::query(config.state, Rotation::Cur);
    current_state.minus(pow_5_poly(prev_state.plus(rc)))
}

/// The one gate of the circuit.
pub open spec fn hash_gates(config: MiMC5HashConfig) -> Seq<GateView> {
    seq![
        GateView {
            name: "MiMC5 hash rounds"@,
            selector: config.s_in_rounds,
            polys: seq![round_poly(config)],
        },
    ]
}

/// Whether the three columns are declared in `system`, each of its kind.
pub open spec fn columns_fit(
    system: ConstraintSystemView,
    instance: Column,
    state: Column,
    round_constants: Column,
) -> bool {
    &&& instance.kind == ColumnKind::Instance && system.has_column(instance)
    &&& state.kind == ColumnKind::Advice && system.has_column(state)
    &&& round_constants.kind == ColumnKind::Fixed && system.has_column(round_constants)
}

/// Whether the witness has the selector and every column of `config`, each
/// column of its kind, and can bind the state to the public inputs.
pub open spec fn config_fits(layouter: LayouterView, config: MiMC5HashConfig) -> bool {
    &&& config.s_in_rounds.index < layouter.num_selectors
    &&& layouter.can_bind(config.state, config.instance)
    &&& config.round_constants.kind == ColumnKind::Fixed && layouter.has_column(
        config.round_constants,
    )
}

/// Why [`MiMC5HashChip::assign`] fails, if it does.
pub open spec fn assign_failure(
    layouter: LayouterView,
    config: MiMC5HashConfig,
    constants: nat,
    num_rounds: nat,
) -> Option<Error> {
    if !config_fits(layouter, config) {
        Some(Error::Configuration)
    } else if num_rounds != constants {
        Some(Error::RoundConstantLengthMismatch)
    } else {
        None
    }
}

/// The step before the rounds: the message copied from the first public
/// input.
pub open spec fn head_ops(config: MiMC5HashConfig) -> Seq<OpView> {
    seq![
        OpView::AssignFromInstance {
            cell: Cell { column: config.state, row: 0 },
            instance: Cell { column: config.instance, row: 0 },
        },
    ]
}

/// The steps of round `i`, counted from one: the selector, the constant on
/// the row above and the new state.
pub open spec fn round_ops(config: MiMC5HashConfig, message: nat, constants: Seq<nat>, i: nat)
    -> Seq<OpView> {
    seq![
        OpView::EnableSelector { selector: config.s_in_rounds, row: i },
        OpView::Assign {
            cell: Cell { column: config.round_constants, row: (i - 1) as usize },
            value: constants[i - 1],
        },
        OpView::Assign {
            cell: Cell { column: config.state, row: i as usize },
            value: hash_state(message, constants, i),
        },
    ]
}

/// The steps of the first `rounds` rounds.
pub open spec fn rounds_ops(
    config: MiMC5HashConfig,
    message: nat,
    constants: Seq<nat>,
    rounds: nat,
) -> Seq<OpView>
    decreases rounds,
{
    if rounds == 0 {
        Seq::empty()
    } else {
        rounds_ops(config, message, constants, (rounds - 1) as nat) + round_ops(
            config,
            message,
            constants,
            rounds,
        )
    }
}

/// Every step of the assignment, in order.
pub open spec fn hash_ops(config: MiMC5HashConfig, message: nat, constants: Seq<nat>) -> Seq<
    OpView,
> {
    head_ops(config) + rounds_ops(config, message, constants, constants.len())
}

/// The chip that lays out and constrains the hash.
#[derive(Clone, Copy, Debug)]
pub struct MiMC5HashChip {
    config: MiMC5HashConfig,
}

impl MiMC5HashChip {
    /// The configuration that the chip works with.
    pub closed spec fn config(self) -> MiMC5HashConfig {
        self.config
    }

    /// A chip that works with `config`.
    pub fn construct(config: MiMC5HashConfig) -> (r: MiMC5HashChip)
        ensures
            r.config() == config,
    {
        MiMC5HashChip { config }
    }

    /// Declares the selector, enables equality on the instance and state
    /// columns, marks the constants column as such, and adds its gate. Fails
    /// with [`Error::Configuration`], and changes nothing, unless the three
    /// columns are declared, each of its kind.
    pub fn configure(
        meta: &mut ConstraintSystem,
        instance: Column,
        state: Column,
        round_constants: Column,
    ) -> (r: Result<MiMC5HashConfig, Error>)
        requires
            old(meta)@.num_selectors + 1 <= usize::MAX,
        ensures
            r is Ok <==> columns_fit(old(meta)@, instance, state, round_constants),
            r matches Err(e) ==> e == Error::Configuration && final(meta)@ == old(meta)@,
            r matches Ok(config) ==> {
                &&& config == (MiMC5HashConfig {
                    instance,
                    state,
                    round_constants,
                    s_in_rounds: Selector { index: old(meta)@.num_selectors as usize },
                })
                &&& final(meta)@ == (ConstraintSystemView {
                    num_selectors: old(meta)@.num_selectors + 1,
                    equality: old(meta)@.equality + seq![instance, state],
                    constants: old(meta)@.constants.push(round_constants),
                    gates: old(meta)@.gates + hash_gates(config),
                    ..old(meta)@
                })
            },
    {
        let kinds = match (instance.kind, state.kind, round_constants.kind) {
            (ColumnKind::Instance, ColumnKind::Advice, ColumnKind::Fixed) => true,
            _ => false,
        };
        if !kinds || !meta.has_column(instance) || !meta.has_column(state) || !meta.has_column(
            round_constants,
        ) {
            return Err(Error::Configuration);
        }
        let s_in_rounds = meta.selector();

        let enabled = meta.enable_equality(instance);
        assert(enabled is Ok);
        let enabled = meta.enable_equality(state);
        assert(enabled is Ok);
        let enabled = meta.enable_constant(round_constants);
        assert(enabled is Ok);

        let config = MiMC5HashConfig { instance, state, round_constants, s_in_rounds };

        let prev_state = Expression::query(state, Rotation::prev());
        let rc = Expression::query(round_constants, Rotation::prev());
        let current_state = Expression::query(state, Rotation::cur());
        let round = current_state.minus(pow_5_expr(prev_state.plus(rc)));
        assert(round@ == round_poly(config));
        let mut constraints: Vec<Expression> = Vec::new();
        proof {
            assert(polys_of(constraints@) =~= Seq::<Poly>::empty());
            lemma_polys_push(constraints@, round);
            assert(Seq::<Poly>::empty().push(round@) =~= seq![round_poly(config)]);
            reveal_with_fuel(Poly::columns_within, 12);
        }
        constraints.push(round);
        let created = meta.create_gate("MiMC5 hash rounds", s_in_rounds, constraints);
        assert(created is Ok);

        assert(meta@.gates =~= old(meta)@.gates + hash_gates(config));
        assert(meta@.equality =~= old(meta)@.equality + seq![instance, state]);
        Ok(config)
    }

    /// Whether the witness has the selector and every column of the chip.
    fn fits_layouter(&self, layouter: &Layouter) -> (r: bool)
        ensures
            r == config_fits(layouter@, self.config()),
    {
        let config = &self.config;
        layouter.has_selector(config.s_in_rounds) && layouter.can_bind(
            config.state,
            config.instance,
        ) && layouter.has_fixed(config.round_constants)
    }

    /// Lays out the hash of `initial_value`: the message, copied from the
    /// first public input, on row 0, and one row per round. Returns the cells
    /// of the message and of the last state, which are the same cell when
    /// there is no round.
    ///
    /// Nothing is recorded unless the witness has the chip's selector and
    /// columns and `num_rounds` is the number of `round_constants`.
    pub fn assign(
        &self,
        layouter: &mut Layouter,
        initial_value: Felt,
        round_constants: &Vec<Felt>,
        num_rounds: usize,
    ) -> (r: Result<(AssignedCell, AssignedCell), Error>)
        ensures
            r is Ok <==> assign_failure(
                old(layouter)@,
                self.config(),
                round_constants@.len(),
                num_rounds as nat,
            ) is None,
            r matches Err(e) ==> Some(e) == assign_failure(
                old(layouter)@,
                self.config(),
                round_constants@.len(),
                num_rounds as nat,
            ) && final(layouter)@ == old(layouter)@,
            r matches Ok(cells) ==> {
                &&& final(layouter)@ == old(layouter)@.with_ops(
                    hash_ops(self.config(), initial_value@, values_of(round_constants@)),
                )
                &&& cells.0.cell == (Cell { column: self.config().state, row: 0 })
                &&& cells.0.value@ == old(layouter)@.public_input(self.config().instance, 0)
                &&& cells.1.cell == (Cell { column: self.config().state, row: num_rounds })
                &&& cells.1.value@ == if num_rounds == 0 {
                    old(layouter)@.public_input(self.config().instance, 0)
                } else {
                    hash_output(initial_value@, values_of(round_constants@))
                }
            },
    {
        if !self.fits_layouter(layouter) {
            return Err(Error::Configuration);
        }
        if num_rounds != round_constants.len() {
            return Err(Error::RoundConstantLengthMismatch);
        }
        let ghost config = self.config();
        let ghost start = layouter@;
        let ghost constants = values_of(round_constants@);
        let ghost head = head_ops(config);

        let assigned = layouter.assign_advice_from_instance(
            self.config.instance,
            0,
            self.config.state,
            0,
        );
        assert(assigned is Ok);
        let msg_cell = assigned.unwrap();
        assert(layouter@ == start.with_ops(head + rounds_ops(config, initial_value@, constants, 0)))
            by {
            assert(start.ops.push(head[0]) =~= start.ops + (head + Seq::<OpView>::empty()));
        }

        let mut current_state = initial_value;
        let mut state_cell = msg_cell;
        let mut done: usize = 0;
        while done < num_rounds
            invariant
                done <= num_rounds,
                num_rounds == round_constants.len(),
                config == self.config(),
                config_fits(start, config),
                constants == values_of(round_constants@),
                head == head_ops(config),
                current_state@ == hash_state(initial_value@, constants, done as nat),
                state_cell.cell == (Cell { column: config.state, row: done }),
                state_cell.value@ == if done == 0 {
                    start.public_input(config.instance, 0)
                } else {
                    current_state@
                },
                layouter@ == start.with_ops(
                    head + rounds_ops(config, initial_value@, constants, done as nat),
                ),
            decreases num_rounds - done,
        {
            let i = done + 1;
            let ghost before = layouter@;
            let ghost steps = round_ops(config, initial_value@, constants, i as nat);
            let enabled = self.config.s_in_rounds.enable(layouter, i);
            assert(enabled is Ok);
            let assigned = layouter.assign_fixed(
                self.config.round_constants,
                i - 1,
                round_constants[i - 1],  // i starts at 1
            );
            assert(assigned is Ok);

            current_state = pow_5(&current_state.add(&round_constants[i - 1]));

            let assigned = layouter.assign_advice(self.config.state, i, current_state);
            assert(assigned is Ok);
            state_cell = assigned.unwrap();
            assert(layouter@ == start.with_ops(
                head + rounds_ops(config, initial_value@, constants, i as nat),
            )) by {
                assert(before.ops.push(steps[0]).push(steps[1]).push(steps[2]) =~= before.ops
                    + steps);
                assert((start.ops + (head + rounds_ops(
                    config,
                    initial_value@,
                    constants,
                    (i - 1) as nat,
                ))) + steps =~= start.ops + (head + (rounds_ops(
                    config,
                    initial_value@,
                    constants,
                    (i - 1) as nat,
                ) + steps)));
            }
            done = i;
        }

        Ok((msg_cell, state_cell))
    }

    /// Binds `cell` to the public input at `row` of the instance column.
    /// Fails with [`Error::Configuration`], and records nothing, unless the
    /// witness can bind the cell's column to the instance column.
    pub fn expose_public(&self, layouter: &mut Layouter, cell: AssignedCell, row: usize) -> (r:
        Result<(), Error>)
        ensures
            r is Ok <==> old(layouter)@.can_bind(cell.cell.column, self.config().instance),
            r matches Err(e) ==> e == Error::Configuration && final(layouter)@ == old(layouter)@,
            r is Ok ==> final(layouter)@ == old(layouter)@.with_op(
                OpView::ConstrainInstance {
                    cell: cell.cell,
                    instance: Cell { column: self.config().instance, row },
                },
            ),
    {
        layouter.constrain_instance(cell.cell(), self.config.instance, row)
    }
}

/// The circuit: the three columns and the chip on them, with the message
/// bound to the first public input and the hash to the second.
#[derive(Clone, Debug)]
pub struct MiMC5HashCircuit {
    pub message: Felt,
    pub num_rounds: usize,
    pub round_constants: Vec<Felt>,
}

/// The configuration that [`MiMC5HashCircuit::configure`] gives on a system
/// with these numbers of columns and selectors.
pub open spec fn circuit_config(advice: nat, fixed: nat, instance: nat, selectors: nat)
    -> MiMC5HashConfig {
    MiMC5HashConfig {
        instance: Column { kind: ColumnKind::Instance, index: instance as usize },
        state: Column { kind: ColumnKind::Advice, index: advice as usize },
        round_constants: Column { kind: ColumnKind::Fixed, index: fixed as usize },
        s_in_rounds: Selector { index: selectors as usize },
    }
}

/// The two bindings that end the synthesis: the message to the first public
/// input, the hash to the second.
pub open spec fn binding_ops(config: MiMC5HashConfig, num_rounds: nat) -> Seq<OpView> {
    seq![
        OpView::ConstrainInstance {
            cell: Cell { column: config.state, row: 0 },
            instance: Cell { column: config.instance, row: 0 },
        },
        OpView::ConstrainInstance {
            cell: Cell { column: config.state, row: num_rounds as usize },
            instance: Cell { column: config.instance, row: 1 },
        },
    ]
}

/// Every step of the circuit's synthesis: those of the chip, then the two
/// bindings.
pub open spec fn circuit_ops(config: MiMC5HashConfig, message: nat, constants: Seq<nat>) -> Seq<
    OpView,
> {
    hash_ops(config, message, constants) + binding_ops(config, constants.len())
}

impl MiMC5HashCircuit {
    /// A circuit of the same shape that holds nothing of this one's witness:
    /// the same rounds and round constants, which belong to the circuit,
    /// with zero for the message.
    pub fn without_witnesses(&self) -> (r: MiMC5HashCircuit)
        ensures
            r.message@ == 0,
            r.num_rounds == self.num_rounds,
            r.round_constants@ == self.round_constants@,
    {
        MiMC5HashCircuit {
            message: Felt::zero(),
            num_rounds: self.num_rounds,
            round_constants: self.round_constants.clone(),
        }
    }

    /// Declares the columns and configures the chip on them.
    pub fn configure(meta: &mut ConstraintSystem) -> (config: MiMC5HashConfig)
        requires
            old(meta)@.num_advice + 1 <= usize::MAX,
            old(meta)@.num_fixed + 1 <= usize::MAX,
            old(meta)@.num_instance + 1 <= usize::MAX,
            old(meta)@.num_selectors + 1 <= usize::MAX,
        ensures
            config == circuit_config(
                old(meta)@.num_advice,
                old(meta)@.num_fixed,
                old(meta)@.num_instance,
                old(meta)@.num_selectors,
            ),
            final(meta)@ == (ConstraintSystemView {
                num_advice: old(meta)@.num_advice + 1,
                num_fixed: old(meta)@.num_fixed + 1,
                num_instance: old(meta)@.num_instance + 1,
                num_selectors: old(meta)@.num_selectors + 1,
                equality: old(meta)@.equality + seq![config.instance, config.state],
                constants: old(meta)@.constants.push(config.round_constants),
                gates: old(meta)@.gates + hash_gates(config),
            }),
    {
        let instance = meta.instance_column();
        let state = meta.advice_column();
        let round_constants = meta.fixed_column();
        let configured = MiMC5HashChip::configure(meta, instance, state, round_constants);
        configured.unwrap()
    }

    /// Builds the circuit from nothing: its constraint system and, laid out
    /// in an empty witness with the public inputs `public_inputs`, its hash.
    /// Fails where the number of rounds is not the number of round
    /// constants.
    ///
    /// What is built satisfies the system if the public inputs are the
    /// message and the hash, and only if the second public input is what the
    /// last row holds: the hash, or the first public input itself when there
    /// is no round.
    pub fn build(&self, public_inputs: Vec<Felt>) -> (r: Result<
        (ConstraintSystem, Layouter),
        Error,
    >)
        ensures
            r is Ok <==> self.num_rounds == self.round_constants@.len(),
            r matches Err(e) ==> e == Error::RoundConstantLengthMismatch,
            r matches Ok(built) ==> {
                let config = circuit_config(0, 0, 0, 0);
                let constants = values_of(self.round_constants@);
                let first = built.1@.public_input(config.instance, 0);
                let second = built.1@.public_input(config.instance, 1);
                &&& built.0@ == (ConstraintSystemView {
                    num_advice: 1,
                    num_fixed: 1,
                    num_instance: 1,
                    num_selectors: 1,
                    equality: seq![config.instance, config.state],
                    constants: seq![config.round_constants],
                    gates: hash_gates(config),
                })
                &&& built.1@.instance == seq![values_of(public_inputs@)]
                &&& built.1@.ops == circuit_ops(config, self.message@, constants)
                &&& first == self.message@ && second == hash_output(self.message@, constants)
                    ==> satisfied(built.0@, built.1@)
                &&& satisfied(built.0@, built.1@) ==> second == if self.num_rounds == 0 {
                    first
                } else {
                    hash_output(self.message@, constants)
                }
            },
    {
        let mut system = ConstraintSystem::new();
        let config = Self::configure(&mut system);
        assert(system@.equality =~= seq![config.instance, config.state]);
        assert(system@.constants =~= seq![config.round_constants]);
        assert(system@.gates =~= hash_gates(config));
        let mut instance: Vec<Vec<Felt>> = Vec::new();
        instance.push(public_inputs);
        let created = Layouter::new(&system, instance);
        let mut witness = created.unwrap();
        assert(witness@.instance =~= seq![values_of(public_inputs@)]);
        proof {
            assert(system@.equality[0] == config.instance);
            assert(system@.equality[1] == config.state);
            assert(config_fits(witness@, config));
        }
        self.message.bounded();
        self.synthesize(config, &mut witness)?;
        proof {
            let constants = values_of(self.round_constants@);
            let steps = circuit_ops(config, self.message@, constants);
            assert(Seq::<OpView>::empty() + steps =~= steps);
            if witness@.public_input(config.instance, 0) == self.message@
                && witness@.public_input(config.instance, 1) == hash_output(
                self.message@,
                constants,
            ) {
                lemma_witness_satisfies(system@, witness@, config, self.message@, constants);
            }
            if satisfied(system@, witness@) {
                lemma_satisfied_binds_output(system@, witness@, config, self.message@, constants);
            }
        }
        Ok((system, witness))
    }

    /// Lays out the circuit's hash with a chip for `config` and binds the
    /// message and the hash to the public inputs.
    pub fn synthesize(&self, config: MiMC5HashConfig, layouter: &mut Layouter) -> (r: Result<
        (),
        Error,
    >)
        ensures
            r is Ok <==> assign_failure(
                old(layouter)@,
                config,
                self.round_constants@.len(),
                self.num_rounds as nat,
            ) is None,
            r matches Err(e) ==> Some(e) == assign_failure(
                old(layouter)@,
                config,
                self.round_constants@.len(),
                self.num_rounds as nat,
            ) && final(layouter)@ == old(layouter)@,
            r is Ok ==> final(layouter)@ == old(layouter)@.with_ops(
                circuit_ops(config, self.message@, values_of(self.round_constants@)),
            ),
    {
        let chip = MiMC5HashChip::construct(config);

        let (msg, msg_hash) = chip.assign(
            layouter,
            self.message,
            &self.round_constants,
            self.num_rounds,
        )?;

        let exposed = chip.expose_public(layouter, msg, 0);
        assert(exposed is Ok);
        let exposed = chip.expose_public(layouter, msg_hash, 1);
        assert(exposed is Ok);
        assert(layouter@ == old(layouter)@.with_ops(
            circuit_ops(config, self.message@, values_of(self.round_constants@)),
        )) by {
            let constants = values_of(self.round_constants@);
            let steps = hash_ops(config, self.message@, constants);
            let bindings = binding_ops(config, constants.len());
            assert((old(layouter)@.ops + steps).push(bindings[0]).push(bindings[1]) =~= old(
                layouter,
            )@.ops + (steps + bindings));
        }

        Ok(())
    }
}

} // verus!

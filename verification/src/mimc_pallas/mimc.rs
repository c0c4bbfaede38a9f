//! The MiMC5 cipher as a circuit.
//!
//! ```text
//! instance      | state                    | key_column   | round_constants   | selector
//! message       | x0 = message             |  key         |     c0            |
//! final_output  | x1 = (x0+key+c0)^5       |  key         |     c1            | s_in_rounds
//!               | x2 = (x1+key+c1)^5       |  key         |     c2            | s_in_rounds
//!               |      :                   |  :           |     :             |     :
//!               | xN = (x(N-1)+key+c(N-1))^5 |  key       |                   | s_in_rounds
//!               | xN + key                 |              |                   | s_post_rounds
//! ```

use crate::circuit::{AssignedCell, Cell, Layouter, LayouterView, OpView, values_of};
use crate::dev::satisfied;
use crate::mimc_pallas::mimc_proofs::{lemma_satisfied_binds_output, lemma_witness_satisfies};
use crate::error::Error;
use crate::field::Felt;
use crate::mimc_pallas::primitives::{cipher_output, cipher_state, pow_5};
use crate::plonk::{
    Column, ColumnKind, ConstraintSystem, ConstraintSystemView, Expression, GateView, Poly,
    Rotation, Selector, lemma_polys_push, polys_of,
};
use vstd::prelude::*;

verus! {

/// The columns and selectors of the circuit.
#[derive(Clone, Copy, Debug, PartialEq, Eq)]
pub struct MiMC5Config {
    pub instance: Column,
    pub state: Column,
    pub key_column: Column,
    pub round_constants: Column,
    pub s_in_rounds: Selector,
    pub s_post_rounds: Selector,
}

/// `v * v * v * v * v`.
pub open spec fn pow_5_poly(v: Poly) -> Poly {
    v.times(v).times(v).times(v).times(v)
}

/// The fifth power of `v`, multiplied out from the left.
pub fn pow_5_expr(v: Expression) -> (r: Expression)
    ensures
        r@ == pow_5_poly(v@),
{
    v.duplicate().times(v.duplicate()).times(v.duplicate()).times(v.duplicate()).times(v)
}

/// One round: the state equals the fifth power of the sum of the previous
/// state, the key and the previous row's constant.
pub open spec fn round_poly(config: MiMC5Config) -> Poly {
    let prev_state = Poly::query(config.state, Rotation::Prev);
    let key = Poly::query(config.key_column, Rotation::Cur);
    let rc = Poly::query(config.round_constants, Rotation::Prev);
    let current_state = Poly::query(config.state, Rotation::Cur);
    current_state.minus(pow_5_poly(prev_state.plus(key).plus(rc)))
}

/// The key is the same as on the previous row.
pub open spec fn key_poly(config: MiMC5Config) -> Poly {
    Poly::query(config.key_column, Rotation::Prev).minus(
        Poly::query(config.key_column, Rotation::Cur),
    )
}

/// After the rounds: the state equals the previous state plus the previous
/// row's key.
pub open spec fn post_poly(config: MiMC5Config) -> Poly {
    let prev_state = Poly::query(config.state, Rotation::Prev);
    let key = Poly::query(config.key_column, Rotation::Prev);
    let current_state = Poly::query(config.state, Rotation::Cur);
    current_state.minus(prev_state.plus(key))
}

/// The two gates of the circuit.
pub open spec fn mimc5_gates(config: MiMC5Config) -> Seq<GateView> {
    seq![
        GateView {
            name: "MiMC5 rounds"@,
            selector: config.s_in_rounds,
            polys: seq![round_poly(config), key_poly(config)],
        },
        GateView {
            name: "post rounds key addition"@,
            selector: config.s_post_rounds,
            polys: seq![post_poly(config)],
        },
    ]
}

/// Whether the four columns are declared in `system`, each of its kind.
pub open spec fn columns_fit(
    system: ConstraintSystemView,
    instance: Column,
    state: Column,
    key_column: Column,
    round_constants: Column,
) -> bool {
    &&& instance.kind == ColumnKind::Instance && system.has_column(instance)
    &&& state.kind == ColumnKind::Advice && system.has_column(state)
    &&& key_column.kind == ColumnKind::Advice && system.has_column(key_column)
    &&& round_constants.kind == ColumnKind::Fixed && system.has_column(round_constants)
}

/// Whether the witness has every selector and column of `config`, each
/// column of its kind, and can bind the state to the public inputs.
pub open spec fn config_fits(layouter: LayouterView, config: MiMC5Config) -> bool {
    &&& config.s_in_rounds.index < layouter.num_selectors
    &&& config.s_post_rounds.index < layouter.num_selectors
    &&& layouter.can_bind(config.state, config.instance)
    &&& config.key_column.kind == ColumnKind::Advice && layouter.has_column(config.key_column)
    &&& config.round_constants.kind == ColumnKind::Fixed && layouter.has_column(
        config.round_constants,
    )
}

/// Why [`MiMC5Chip::assign`] fails, if it does.
pub open spec fn assign_failure(
    layouter: LayouterView,
    config: MiMC5Config,
    constants: nat,
    num_rounds: nat,
) -> Option<Error> {
    if !config_fits(layouter, config) {
        Some(Error::Configuration)
    } else if num_rounds != constants {
        Some(Error::RoundConstantLengthMismatch)
    } else if num_rounds + 1 > usize::MAX {
        Some(Error::InsufficientRows)
    } else {
        None
    }
}

/// The steps before the rounds: the selector of the last row, the message
/// copied from the first public input, and the key on row 0.
pub open spec fn head_ops(config: MiMC5Config, key: nat, num_rounds: nat) -> Seq<OpView> {
    seq![
        OpView::EnableSelector { selector: config.s_post_rounds, row: num_rounds + 1 },
        OpView::AssignFromInstance {
            cell: Cell { column: config.state, row: 0 },
            instance: Cell { column: config.instance, row: 0 },
        },
        OpView::Assign { cell: Cell { column: config.key_column, row: 0 }, value: key },
    ]
}

/// The steps of round `i`, counted from one: the selector, the constant on
/// the row above, the key and the new state.
pub open spec fn round_ops(
    config: MiMC5Config,
    message: nat,
    key: nat,
    constants: Seq<nat>,
    i: nat,
) -> Seq<OpView> {
    seq![
        OpView::EnableSelector { selector: config.s_in_rounds, row: i },
        OpView::Assign {
            cell: Cell { column: config.round_constants, row: (i - 1) as usize },
            value: constants[i - 1],
        },
        OpView::Assign { cell: Cell { column: config.key_column, row: i as usize }, value: key },
        OpView::Assign {
            cell: Cell { column: config.state, row: i as usize },
            value: cipher_state(message, key, constants, i),
        },
    ]
}

/// The steps of the first `rounds` rounds.
pub open spec fn rounds_ops(
    config: MiMC5Config,
    message: nat,
    key: nat,
    constants: Seq<nat>,
    rounds: nat,
) -> Seq<OpView>
    decreases rounds,
{
    if rounds == 0 {
        Seq::empty()
    } else {
        rounds_ops(config, message, key, constants, (rounds - 1) as nat) + round_ops(
            config,
            message,
            key,
            constants,
            rounds,
        )
    }
}

/// The step after the rounds: the output on the last row.
pub open spec fn tail_ops(config: MiMC5Config, message: nat, key: nat, constants: Seq<nat>) -> Seq<
    OpView,
> {
    seq![
        OpView::Assign {
            cell: Cell { column: config.state, row: (constants.len() + 1) as usize },
            value: cipher_output(message, key, constants),
        },
    ]
}

/// Every step of the assignment, in order.
pub open spec fn cipher_ops(config: MiMC5Config, message: nat, key: nat, constants: Seq<nat>)
    -> Seq<OpView> {
    head_ops(config, key, constants.len()) + rounds_ops(
        config,
        message,
        key,
        constants,
        constants.len(),
    ) + tail_ops(config, message, key, constants)
}

/// The chip that lays out and constrains the cipher.
#[derive(Clone, Copy, Debug)]
pub struct MiMC5Chip {
    config: MiMC5Config,
}

impl MiMC5Chip {
    /// The configuration that the chip works with.
    pub closed spec fn config(self) -> MiMC5Config {
        self.config
    }

    /// A chip that works with `config`.
    pub fn construct(config: MiMC5Config) -> (r: MiMC5Chip)
        ensures
            r.config() == config,
    {
        MiMC5Chip { config }
    }

    /// Declares the two selectors, enables equality on the instance, state
    /// and key columns, marks the constants column as such, and adds the two
    /// gates. Fails with [`Error::Configuration`], and changes nothing,
    /// unless the four columns are declared, each of its kind.
    pub fn configure(
        meta: &mut ConstraintSystem,
        instance: Column,
        state: Column,
        key_column: Column,
        round_constants: Column,
    ) -> (r: Result<MiMC5Config, Error>)
        requires
            old(meta)@.num_selectors + 2 <= usize::MAX,
        ensures
            r is Ok <==> columns_fit(old(meta)@, instance, state, key_column, round_constants),
            r matches Err(e) ==> e == Error::Configuration && final(meta)@ == old(meta)@,
            r matches Ok(config) ==> {
                &&& config == (MiMC5Config {
                    instance,
                    state,
                    key_column,
                    round_constants,
                    s_in_rounds: Selector { index: old(meta)@.num_selectors as usize },
                    s_post_rounds: Selector { index: (old(meta)@.num_selectors + 1) as usize },
                })
                &&& final(meta)@ == (ConstraintSystemView {
                    num_selectors: old(meta)@.num_selectors + 2,
                    equality: old(meta)@.equality + seq![instance, state, key_column],
                    constants: old(meta)@.constants.push(round_constants),
                    gates: old(meta)@.gates + mimc5_gates(config),
                    ..old(meta)@
                })
            },
    {
        let kinds = match (instance.kind, state.kind, key_column.kind, round_constants.kind) {
            (
                ColumnKind::Instance,
                ColumnKind::Advice,
                ColumnKind::Advice,
                ColumnKind::Fixed,
            ) => true,
            _ => false,
        };
        if !kinds || !meta.has_column(instance) || !meta.has_column(state) || !meta.has_column(
            key_column,
        ) || !meta.has_column(round_constants) {
            return Err(Error::Configuration);
        }
        let s_in_rounds = meta.selector();
        let s_post_rounds = meta.selector();

        let enabled = meta.enable_equality(instance);
        assert(enabled is Ok);
        let enabled = meta.enable_equality(state);
        assert(enabled is Ok);
        let enabled = meta.enable_equality(key_column);
        assert(enabled is Ok);
        let enabled = meta.enable_constant(round_constants);
        assert(enabled is Ok);

        let config = MiMC5Config {
            instance,
            state,
            key_column,
            round_constants,
            s_in_rounds,
            s_post_rounds,
        };

        let prev_state = Expression::query(state, Rotation::prev());
        let key = Expression::query(key_column, Rotation::cur());
        let prev_key = Expression::query(key_column, Rotation::prev());
        let rc = Expression::query(round_constants, Rotation::prev());
        let current_state = Expression::query(state, Rotation::cur());
        let round = current_state.minus(pow_5_expr(prev_state.plus(key.duplicate()).plus(rc)));
        // Ensure that the keys remain the same from one row to the next
        let same_key = prev_key.minus(key);
        assert(round@ == round_poly(config));
        assert(same_key@ == key_poly(config));
        let mut constraints: Vec<Expression> = Vec::new();
        proof {
            assert(polys_of(constraints@) =~= Seq::<Poly>::empty());
            lemma_polys_push(constraints@, round);
            lemma_polys_push(constraints@.push(round), same_key);
            assert(Seq::<Poly>::empty().push(round@).push(same_key@) =~= seq![
                round_poly(config),
                key_poly(config),
            ]);
        }
        constraints.push(round);
        constraints.push(same_key);
        proof {
            reveal_with_fuel(Poly::columns_within, 12);
        }
        let created = meta.create_gate("MiMC5 rounds", s_in_rounds, constraints);
        assert(created is Ok);

        let prev_state = Expression::query(state, Rotation::prev());
        // Using the key from the previous row
        let key = Expression::query(key_column, Rotation::prev());
        let current_state = Expression::query(state, Rotation::cur());
        let post = current_state.minus(prev_state.plus(key));
        assert(post@ == post_poly(config));
        let mut constraints: Vec<Expression> = Vec::new();
        proof {
            assert(polys_of(constraints@) =~= Seq::<Poly>::empty());
            lemma_polys_push(constraints@, post);
            assert(Seq::<Poly>::empty().push(post@) =~= seq![post_poly(config)]);
        }
        constraints.push(post);
        let created = meta.create_gate("post rounds key addition", s_post_rounds, constraints);
        assert(created is Ok);

        assert(meta@.gates =~= old(meta)@.gates + mimc5_gates(config));
        assert(meta@.equality =~= old(meta)@.equality + seq![instance, state, key_column]);
        Ok(config)
    }

    /// Whether the witness has every selector and column of the chip.
    fn fits_layouter(&self, layouter: &Layouter) -> (r: bool)
        ensures
            r == config_fits(layouter@, self.config()),
    {
        let config = &self.config;
        layouter.has_selector(config.s_in_rounds) && layouter.has_selector(config.s_post_rounds)
            && layouter.can_bind(config.state, config.instance) && layouter.has_advice(
            config.key_column,
        ) && layouter.has_fixed(config.round_constants)
    }

    /// Lays out the encryption of `message` under `key`: the message, copied
    /// from the first public input, on row 0; one row per round; and the
    /// output on the row after the last round. Returns the cells of the
    /// message and of the output.
    ///
    /// The state and key columns may coincide; a later step then overwrites an
    /// earlier one, and the column no longer holds the states.
    ///
    /// Nothing is recorded unless the witness has the chip's selectors and
    /// columns and `num_rounds` is the number of `round_constants`.
    pub fn assign(
        &self,
        layouter: &mut Layouter,
        message: Felt,
        key: Felt,
        round_constants: &Vec<Felt>,
        num_rounds: usize,
    ) -> (r: Result<(AssignedCell, AssignedCell), Error>)
        ensures
            r is Ok <==> assign_failure(
                old(layouter)@,
                self.config(),
                round_constants@.len(),
                num_rounds as nat,
            ) is None,
            r matches Err(e) ==> Some(e) == assign_failure(
                old(layouter)@,
                self.config(),
                round_constants@.len(),
                num_rounds as nat,
            ) && final(layouter)@ == old(layouter)@,
            r matches Ok(cells) ==> {
                &&& final(layouter)@ == old(layouter)@.with_ops(
                    cipher_ops(self.config(), message@, key@, values_of(round_constants@)),
                )
                &&& cells.0.cell == (Cell { column: self.config().state, row: 0 })
                &&& cells.0.value@ == old(layouter)@.public_input(self.config().instance, 0)
                &&& cells.1.cell == (Cell {
                    column: self.config().state,
                    row: (num_rounds + 1) as usize,
                })
                &&& cells.1.value@ == cipher_output(message@, key@, values_of(round_constants@))
            },
    {
        if !self.fits_layouter(layouter) {
            return Err(Error::Configuration);
        }
        if num_rounds != round_constants.len() {
            return Err(Error::RoundConstantLengthMismatch);
        }
        if num_rounds == usize::MAX {
            return Err(Error::InsufficientRows);
        }
        let ghost config = self.config();
        let ghost start = layouter@;
        let ghost constants = values_of(round_constants@);
        let ghost head = head_ops(config, key@, num_rounds as nat);

        let enabled = self.config.s_post_rounds.enable(layouter, num_rounds + 1);
        assert(enabled is Ok);

        let assigned = layouter.assign_advice_from_instance(
            self.config.instance,
            0,
            self.config.state,
            0,
        );
        assert(assigned is Ok);
        let msg_cell = assigned.unwrap();

        let assigned = layouter.assign_advice(self.config.key_column, 0, key);
        assert(assigned is Ok);
        assert(layouter@ == start.with_ops(
            head + rounds_ops(config, message@, key@, constants, 0),
        )) by {
            assert(start.ops.push(head[0]).push(head[1]).push(head[2]) =~= start.ops + (head
                + Seq::<OpView>::empty()));
        }

        let mut current_state = message;
        let mut i: usize = 1;
        while i <= num_rounds
            invariant
                1 <= i <= num_rounds + 1,
                num_rounds == round_constants.len(),
                num_rounds < usize::MAX,
                config == self.config(),
                config_fits(start, config),
                constants == values_of(round_constants@),
                head == head_ops(config, key@, num_rounds as nat),
                current_state@ == cipher_state(message@, key@, constants, (i - 1) as nat),
                layouter@ == start.with_ops(
                    head + rounds_ops(config, message@, key@, constants, (i - 1) as nat),
                ),
            decreases num_rounds + 1 - i,
        {
            let ghost before = layouter@;
            let ghost steps = round_ops(config, message@, key@, constants, i as nat);
            let enabled = self.config.s_in_rounds.enable(layouter, i);
            assert(enabled is Ok);
            let assigned = layouter.assign_fixed(
                self.config.round_constants,
                i - 1,
                round_constants[i - 1],  // i starts at 1
            );
            assert(assigned is Ok);

            let assigned = layouter.assign_advice(self.config.key_column, i, key);
            assert(assigned is Ok);

            current_state = pow_5(&current_state.add(&key).add(&round_constants[i - 1]));
            let assigned = layouter.assign_advice(self.config.state, i, current_state);
            assert(assigned is Ok);
            assert(layouter@ == start.with_ops(
                head + rounds_ops(config, message@, key@, constants, i as nat),
            )) by {
                assert(before.ops.push(steps[0]).push(steps[1]).push(steps[2]).push(steps[3])
                    =~= before.ops + steps);
                assert((start.ops + (head + rounds_ops(
                    config,
                    message@,
                    key@,
                    constants,
                    (i - 1) as nat,
                ))) + steps =~= start.ops + (head + (rounds_ops(
                    config,
                    message@,
                    key@,
                    constants,
                    (i - 1) as nat,
                ) + steps)));
            }
            i += 1;
        }

        current_state = current_state.add(&key);
        let ghost before = layouter@;
        let assigned = layouter.assign_advice(self.config.state, num_rounds + 1, current_state);
        assert(assigned is Ok);
        let final_state = assigned.unwrap();
        assert(layouter@ == start.with_ops(cipher_ops(config, message@, key@, constants))) by {
            let tail = tail_ops(config, message@, key@, constants);
            let rounds = rounds_ops(config, message@, key@, constants, num_rounds as nat);
            assert((start.ops + (head + rounds)).push(tail[0]) =~= start.ops + (head + rounds
                + tail));
        }
        Ok((msg_cell, final_state))
    }

    /// Binds `cell` to the public input at `row` of the instance column.
    /// Fails with [`Error::Configuration`], and records nothing, unless the
    /// witness can bind the cell's column to the instance column.
    pub fn expose_public(&self, layouter: &mut Layouter, cell: AssignedCell, row: usize) -> (r:
        Result<(), Error>)
        ensures
            r is Ok <==> old(layouter)@.can_bind(cell.cell.column, self.config().instance),
            r matches Err(e) ==> e == Error::Configuration && final(layouter)@ == old(layouter)@,
            r is Ok ==> final(layouter)@ == old(layouter)@.with_op(
                OpView::ConstrainInstance {
                    cell: cell.cell,
                    instance: Cell { column: self.config().instance, row },
                },
            ),
    {
        layouter.constrain_instance(cell.cell(), self.config.instance, row)
    }
}

/// The circuit: the four columns and the chip on them, with the message
/// bound to the first public input and the output to the second.
#[derive(Clone, Debug)]
pub struct MiMC5Circuit {
    pub message: Felt,
    pub key: Felt,
    pub num_rounds: usize,
    pub round_constants: Vec<Felt>,
}

/// The configuration that [`MiMC5Circuit::configure`] gives on a system with
/// these numbers of columns and selectors.
pub open spec fn circuit_config(advice: nat, fixed: nat, instance: nat, selectors: nat)
    -> MiMC5Config {
    MiMC5Config {
        instance: Column { kind: ColumnKind::Instance, index: instance as usize },
        state: Column { kind: ColumnKind::Advice, index: advice as usize },
        key_column: Column { kind: ColumnKind::Advice, index: (advice + 1) as usize },
        round_constants: Column { kind: ColumnKind::Fixed, index: fixed as usize },
        s_in_rounds: Selector { index: selectors as usize },
        s_post_rounds: Selector { index: (selectors + 1) as usize },
    }
}

/// The two bindings that end the synthesis: the message to the first public
/// input, the output to the second.
pub open spec fn binding_ops(config: MiMC5Config, num_rounds: nat) -> Seq<OpView> {
    seq![
        OpView::ConstrainInstance {
            cell: Cell { column: config.state, row: 0 },
            instance: Cell { column: config.instance, row: 0 },
        },
        OpView::ConstrainInstance {
            cell: Cell { column: config.state, row: (num_rounds + 1) as usize },
            instance: Cell { column: config.instance, row: 1 },
        },
    ]
}

/// Every step of the circuit's synthesis: those of the chip, then the two
/// bindings.
pub open spec fn circuit_ops(config: MiMC5Config, message: nat, key: nat, constants: Seq<nat>)
    -> Seq<OpView> {
    cipher_ops(config, message, key, constants) + binding_ops(config, constants.len())
}

impl MiMC5Circuit {
    /// A circuit of the same shape that holds nothing of this one's witness:
    /// the same rounds and round constants, which belong to the circuit,
    /// with zero for the message and for the key.
    pub fn without_witnesses(&self) -> (r: MiMC5Circuit)
        ensures
            r.message@ == 0,
            r.key@ == 0,
            r.num_rounds == self.num_rounds,
            r.round_constants@ == self.round_constants@,
    {
        MiMC5Circuit {
            message: Felt::zero(),
            key: Felt::zero(),
            num_rounds: self.num_rounds,
            round_constants: self.round_constants.clone(),
        }
    }

    /// Declares the columns and configures the chip on them.
    pub fn configure(meta: &mut ConstraintSystem) -> (config: MiMC5Config)
        requires
            old(meta)@.num_advice + 2 <= usize::MAX,
            old(meta)@.num_fixed + 1 <= usize::MAX,
            old(meta)@.num_instance + 1 <= usize::MAX,
            old(meta)@.num_selectors + 2 <= usize::MAX,
        ensures
            config == circuit_config(
                old(meta)@.num_advice,
                old(meta)@.num_fixed,
                old(meta)@.num_instance,
                old(meta)@.num_selectors,
            ),
            final(meta)@ == (ConstraintSystemView {
                num_advice: old(meta)@.num_advice + 2,
                num_fixed: old(meta)@.num_fixed + 1,
                num_instance: old(meta)@.num_instance + 1,
                num_selectors: old(meta)@.num_selectors + 2,
                equality: old(meta)@.equality + seq![
                    config.instance,
                    config.state,
                    config.key_column,
                ],
                constants: old(meta)@.constants.push(config.round_constants),
                gates: old(meta)@.gates + mimc5_gates(config),
            }),
    {
        let instance = meta.instance_column();
        let state = meta.advice_column();
        let key_column = meta.advice_column();
        let round_constants = meta.fixed_column();
        let configured = MiMC5Chip::configure(meta, instance, state, key_column, round_constants);
        configured.unwrap()
    }

    /// Builds the circuit from nothing: its constraint system and, laid out
    /// in an empty witness with the public inputs `public_inputs`, its
    /// encryption. Fails where the number of rounds is not the number of
    /// round constants.
    ///
    /// What is built satisfies the system if the public inputs are the
    /// message and the cipher's output, and only if the second public input
    /// is that output.
    pub fn build(&self, public_inputs: Vec<Felt>) -> (r: Result<
        (ConstraintSystem, Layouter),
        Error,
    >)
        ensures
            r is Ok <==> self.num_rounds == self.round_constants@.len() && self.num_rounds
                < usize::MAX,
            r matches Err(e) ==> e == if self.num_rounds != self.round_constants@.len() {
                Error::RoundConstantLengthMismatch
            } else {
                Error::InsufficientRows
            },
            r matches Ok(built) ==> {
                let config = circuit_config(0, 0, 0, 0);
                let constants = values_of(self.round_constants@);
                let first = built.1@.public_input(config.instance, 0);
                let second = built.1@.public_input(config.instance, 1);
                &&& built.0@ == (ConstraintSystemView {
                    num_advice: 2,
                    num_fixed: 1,
                    num_instance: 1,
                    num_selectors: 2,
                    equality: seq![config.instance, config.state, config.key_column],
                    constants: seq![config.round_constants],
                    gates: mimc5_gates(config),
                })
                &&& built.1@.instance == seq![values_of(public_inputs@)]
                &&& built.1@.ops == circuit_ops(config, self.message@, self.key@, constants)
                &&& first == self.message@ && second == cipher_output(
                    self.message@,
                    self.key@,
                    constants,
                ) ==> satisfied(built.0@, built.1@)
                &&& satisfied(built.0@, built.1@) ==> second == cipher_output(
                    self.message@,
                    self.key@,
                    constants,
                )
            },
    {
        let mut system = ConstraintSystem::new();
        let config = Self::configure(&mut system);
        assert(system@.equality =~= seq![config.instance, config.state, config.key_column]);
        assert(system@.constants =~= seq![config.round_constants]);
        assert(system@.gates =~= mimc5_gates(config));
        let mut instance: Vec<Vec<Felt>> = Vec::new();
        instance.push(public_inputs);
        let created = Layouter::new(&system, instance);
        let mut witness = created.unwrap();
        assert(witness@.instance =~= seq![values_of(public_inputs@)]);
        proof {
            assert(system@.equality[0] == config.instance);
            assert(system@.equality[1] == config.state);
            assert(config_fits(witness@, config));
        }
        self.message.bounded();
        self.key.bounded();
        self.synthesize(config, &mut witness)?;
        proof {
            let constants = values_of(self.round_constants@);
            let steps = circuit_ops(config, self.message@, self.key@, constants);
            assert(Seq::<OpView>::empty() + steps =~= steps);
            if witness@.public_input(config.instance, 0) == self.message@
                && witness@.public_input(config.instance, 1) == cipher_output(
                self.message@,
                self.key@,
                constants,
            ) {
                lemma_witness_satisfies(
                    system@,
                    witness@,
                    config,
                    self.message@,
                    self.key@,
                    constants,
                );
            }
            if satisfied(system@, witness@) {
                lemma_satisfied_binds_output(
                    system@,
                    witness@,
                    config,
                    self.message@,
                    self.key@,
                    constants,
                );
            }
        }
        Ok((system, witness))
    }

    /// Lays out the circuit's encryption with a chip for `config` and binds
    /// the message and the output to the public inputs.
    pub fn synthesize(&self, config: MiMC5Config, layouter: &mut Layouter) -> (r: Result<
        (),
        Error,
    >)
        ensures
            r is Ok <==> assign_failure(
                old(layouter)@,
                config,
                self.round_constants@.len(),
                self.num_rounds as nat,
            ) is None,
            r matches Err(e) ==> Some(e) == assign_failure(
                old(layouter)@,
                config,
                self.round_constants@.len(),
                self.num_rounds as nat,
            ) && final(layouter)@ == old(layouter)@,
            r is Ok ==> final(layouter)@ == old(layouter)@.with_ops(
                circuit_ops(config, self.message@, self.key@, values_of(self.round_constants@)),
            ),
    {
        let chip = MiMC5Chip::construct(config);

        let (msg, final_output) = chip.assign(
            layouter,
            self.message,
            self.key,
            &self.round_constants,
            self.num_rounds,
        )?;

        let exposed = chip.expose_public(layouter, msg, 0);
        assert(exposed is Ok);
        let exposed = chip.expose_public(layouter, final_output, 1);
        assert(exposed is Ok);
        assert(layouter@ == old(layouter)@.with_ops(
            circuit_ops(config, self.message@, self.key@, values_of(self.round_constants@)),
        )) by {
            let constants = values_of(self.round_constants@);
            let steps = cipher_ops(config, self.message@, self.key@, constants);
            let bindings = binding_ops(config, constants.len());
            assert((old(layouter)@.ops + steps).push(bindings[0]).push(bindings[1]) =~= old(
                layouter,
            )@.ops + (steps + bindings));
        }

        Ok(())
    }
}

} // verus!

//! The Collatz sequence laid out one value per row.
//!
//! Row `r` holds the `r`-th value of the sequence in one advice cell and, in
//! a second cell, a flag that is one when the value is even. The first value
//! is copied from the first public input, and the last can be bound to the
//! second. One gate ties each row but the last to its successor.

use crate::circuit::{AssignedCell, Cell, Layouter, LayouterView, OpView, values_of};
use crate::collatz::collatz_one_column_proofs::{
    lemma_satisfied_binds_first, lemma_satisfied_binds_last, lemma_single_row,
    lemma_witness_satisfies,
};
use crate::dev::satisfied;
use crate::collatz::collatz::{
    collatz_value, lemma_standing_start, next_value, standing_start, standing_value,
};
use crate::error::Error;
use crate::field::Felt;
use crate::plonk::{
    Column, ColumnKind, ConstraintSystem, ConstraintSystemView, Expression, GateView, Poly,
    Rotation, Selector, lemma_polys_push, polys_of,
};
use vstd::prelude::*;

verus! {

/// The columns and the selector of the circuit.
#[derive(Clone, Copy, Debug, PartialEq, Eq)]
pub struct CollatzConfig {
    pub element: Column,
    pub is_even: Column,
    pub selector: Selector,
    pub instance: Column,
}

/// The Collatz rule between a row and the next, as one polynomial:
/// `even * (cur - 2 * next) + (1 - even) * ((3 * cur + 1) - next)`.
pub open spec fn sequence_rule_poly(config: CollatzConfig) -> Poly {
    let curr_el = Poly::query(config.element, Rotation::Cur);
    let next_el = Poly::query(config.element, Rotation::Next);
    let even_flag = Poly::query(config.is_even, Rotation::Cur);
    let next_el_if_odd = Poly::constant(3).times(curr_el).plus(Poly::constant(1));
    even_flag.times(curr_el.minus(Poly::constant(2).times(next_el))).plus(
        Poly::constant(1).minus(even_flag).times(next_el_if_odd.minus(next_el)),
    )
}

/// The one gate of the circuit.
pub open spec fn collatz_gates(config: CollatzConfig) -> Seq<GateView> {
    seq![
        GateView {
            name: "collatz sequence rules"@,
            selector: config.selector,
            polys: seq![sequence_rule_poly(config)],
        },
    ]
}

/// Whether the three columns are declared in `system`, each of its kind.
pub open spec fn columns_fit(
    system: ConstraintSystemView,
    element: Column,
    is_even: Column,
    instance: Column,
) -> bool {
    &&& element.kind == ColumnKind::Advice && system.has_column(element)
    &&& is_even.kind == ColumnKind::Advice && system.has_column(is_even)
    &&& instance.kind == ColumnKind::Instance && system.has_column(instance)
}

/// Whether the witness has the selector and every column of `config`, each
/// column of its kind, and can bind the values to the public inputs.
pub open spec fn config_fits(layouter: LayouterView, config: CollatzConfig) -> bool {
    &&& config.selector.index < layouter.num_selectors
    &&& layouter.can_bind(config.element, config.instance)
    &&& config.is_even.kind == ColumnKind::Advice && layouter.has_column(config.is_even)
}

/// Why [`CollatzChip::assign`] fails, if it does: the witness lacks a part of
/// the configuration, or the last row would not hold the number one.
pub open spec fn assign_failure(
    layouter: LayouterView,
    config: CollatzConfig,
    initial: nat,
    nrows: nat,
) -> Option<Error> {
    if !config_fits(layouter, config) {
        Some(Error::Configuration)
    } else if nrows == 0 || collatz_value(initial, (nrows - 1) as nat) != 1 {
        Some(Error::InsufficientRows)
    } else {
        None
    }
}

/// One for an even `v`, zero for an odd one.
pub open spec fn even_flag(v: nat) -> nat {
    if v % 2 == 0 {
        1
    } else {
        0
    }
}

/// The selector on `row`, unless it is the last of `nrows` rows.
pub open spec fn selector_ops(config: CollatzConfig, nrows: nat, row: nat) -> Seq<OpView> {
    if row + 1 < nrows {
        seq![OpView::EnableSelector { selector: config.selector, row }]
    } else {
        Seq::empty()
    }
}

/// The steps of row 0: the selector, the flag of the initial value, and the
/// value itself, copied from the first public input.
pub open spec fn head_ops(config: CollatzConfig, initial: nat, nrows: nat) -> Seq<OpView> {
    selector_ops(config, nrows, 0) + seq![
        OpView::Assign {
            cell: Cell { column: config.is_even, row: 0 },
            value: even_flag(initial),
        },
        OpView::AssignFromInstance {
            cell: Cell { column: config.element, row: 0 },
            instance: Cell { column: config.instance, row: 0 },
        },
    ]
}

/// The steps of a later row: the selector, the value and its flag.
pub open spec fn row_ops(config: CollatzConfig, nrows: nat, row: nat, value: nat) -> Seq<OpView> {
    selector_ops(config, nrows, row) + seq![
        OpView::Assign { cell: Cell { column: config.element, row: row as usize }, value },
        OpView::Assign {
            cell: Cell { column: config.is_even, row: row as usize },
            value: even_flag(value),
        },
    ]
}

/// The steps of the rows from 1 up to, and without, `rows`.
pub open spec fn rows_ops(config: CollatzConfig, initial: nat, nrows: nat, rows: nat) -> Seq<
    OpView,
>
    decreases rows,
{
    if rows <= 1 {
        Seq::empty()
    } else {
        rows_ops(config, initial, nrows, (rows - 1) as nat) + row_ops(
            config,
            nrows,
            (rows - 1) as nat,
            collatz_value(initial, (rows - 1) as nat),
        )
    }
}

/// Every step of the assignment, in order.
pub open spec fn collatz_ops(config: CollatzConfig, initial: nat, nrows: nat) -> Seq<OpView> {
    head_ops(config, initial, nrows) + rows_ops(config, initial, nrows, nrows)
}

/// One for an even `value`, zero for an odd one.
fn flag_of(value: &Felt) -> (r: Felt)
    ensures
        r@ == even_flag(value@),
{
    if value.is_even() {
        Felt::one()
    } else {
        Felt::zero()
    }
}

/// The value on the last of `nrows` rows.
fn last_value(initial: &Felt, nrows: usize) -> (r: Felt)
    requires
        nrows > 0,
    ensures
        r@ == collatz_value(initial@, (nrows - 1) as nat),
{
    let mut current = *initial;
    let mut row: usize = 0;
    while row < nrows - 1
        invariant
            row <= nrows - 1,
            current@ == collatz_value(initial@, row as nat),
        decreases nrows - 1 - row,
    {
        current = next_value(&current);
        row += 1;
    }
    current
}

/// The chip that lays out and constrains the sequence.
#[derive(Clone, Copy, Debug)]
pub struct CollatzChip {
    config: CollatzConfig,
}

impl CollatzChip {
    /// The configuration that the chip works with.
    pub closed spec fn config(self) -> CollatzConfig {
        self.config
    }

    /// A chip that works with `config`.
    pub fn construct(config: CollatzConfig) -> (r: CollatzChip)
        ensures
            r.config() == config,
    {
        CollatzChip { config }
    }

    /// Declares the selector, enables equality on the three columns and adds
    /// its gate. Fails with [`Error::Configuration`], and changes nothing,
    /// unless the three columns are declared, each of its kind.
    pub fn configure(
        meta: &mut ConstraintSystem,
        element: Column,
        is_even: Column,
        instance: Column,
    ) -> (r: Result<CollatzConfig, Error>)
        requires
            old(meta)@.num_selectors + 1 <= usize::MAX,
        ensures
            r is Ok <==> columns_fit(old(meta)@, element, is_even, instance),
            r matches Err(e) ==> e == Error::Configuration && final(meta)@ == old(meta)@,
            r matches Ok(config) ==> {
                &&& config == (CollatzConfig {
                    element,
                    is_even,
                    selector: Selector { index: old(meta)@.num_selectors as usize },
                    instance,
                })
                &&& final(meta)@ == (ConstraintSystemView {
                    num_selectors: old(meta)@.num_selectors + 1,
                    equality: old(meta)@.equality + seq![element, is_even, instance],
                    gates: old(meta)@.gates + collatz_gates(config),
                    ..old(meta)@
                })
            },
    {
        let kinds = match (element.kind, is_even.kind, instance.kind) {
            (ColumnKind::Advice, ColumnKind::Advice, ColumnKind::Instance) => true,
            _ => false,
        };
        if !kinds || !meta.has_column(element) || !meta.has_column(is_even) || !meta.has_column(
            instance,
        ) {
            return Err(Error::Configuration);
        }
        let selector = meta.selector();

        let enabled = meta.enable_equality(element);
        assert(enabled is Ok);
        let enabled = meta.enable_equality(is_even);
        assert(enabled is Ok);
        let enabled = meta.enable_equality(instance);
        assert(enabled is Ok);

        let config = CollatzConfig { element, is_even, selector, instance };

        let curr_el = Expression::query(element, Rotation::cur());
        let next_el = Expression::query(element, Rotation::next());
        let even_flag = Expression::query(is_even, Rotation::cur());
        let one = Expression::constant(Felt::one());
        let two = Expression::constant(Felt::from_u64(2));
        let three = Expression::constant(Felt::from_u64(3));

        let next_el_if_odd = three.times(curr_el.duplicate()).plus(one.duplicate());

        let rule = even_flag.duplicate().times(curr_el.minus(two.times(next_el.duplicate()))).plus(
            one.minus(even_flag).times(next_el_if_odd.minus(next_el)),
        );
        assert(rule@ == sequence_rule_poly(config));
        let mut constraints: Vec<Expression> = Vec::new();
        proof {
            assert(polys_of(constraints@) =~= Seq::<Poly>::empty());
            lemma_polys_push(constraints@, rule);
            assert(Seq::<Poly>::empty().push(rule@) =~= seq![sequence_rule_poly(config)]);
            reveal_with_fuel(Poly::columns_within, 12);
        }
        constraints.push(rule);
        let created = meta.create_gate("collatz sequence rules", selector, constraints);
        assert(created is Ok);

        assert(meta@.gates =~= old(meta)@.gates + collatz_gates(config));
        assert(meta@.equality =~= old(meta)@.equality + seq![element, is_even, instance]);
        Ok(config)
    }

    /// Whether the witness has the selector and every column of the chip.
    fn fits_layouter(&self, layouter: &Layouter) -> (r: bool)
        ensures
            r == config_fits(layouter@, self.config()),
    {
        let config = &self.config;
        layouter.has_selector(config.selector) && layouter.can_bind(
            config.element,
            config.instance,
        ) && layouter.has_advice(config.is_even)
    }

    /// Lays out the sequence that starts at `initial_value` on `nrows` rows,
    /// the first value copied from the first public input, and returns the
    /// cell of the last value.
    ///
    /// The two advice columns may coincide; the flags then overwrite the
    /// values.
    ///
    /// Nothing is recorded unless the witness has the chip's selector and
    /// columns and the last row holds the number one.
    pub fn assign(&self, layouter: &mut Layouter, initial_value: Felt, nrows: usize) -> (r: Result<
        AssignedCell,
        Error,
    >)
        ensures
            r is Ok <==> assign_failure(old(layouter)@, self.config(), initial_value@, nrows as nat)
                is None,
            r matches Err(e) ==> Some(e) == assign_failure(
                old(layouter)@,
                self.config(),
                initial_value@,
                nrows as nat,
            ) && final(layouter)@ == old(layouter)@,
            r matches Ok(last) ==> {
                &&& final(layouter)@ == old(layouter)@.with_ops(
                    collatz_ops(self.config(), initial_value@, nrows as nat),
                )
                &&& last.cell == (Cell { column: self.config().element, row: (nrows - 1) as usize })
                &&& last.value@ == if nrows == 1 {
                    old(layouter)@.public_input(self.config().instance, 0)
                } else {
                    1
                }
            },
    {
        if !self.fits_layouter(layouter) {
            return Err(Error::Configuration);
        }
        if nrows == 0 || !last_value(&initial_value, nrows).equals(&Felt::one()) {
            return Err(Error::InsufficientRows);
        }
        let ghost config = self.config();
        let ghost start = layouter@;
        let ghost initial = initial_value@;
        let ghost head = head_ops(config, initial, nrows as nat);

        if 0 < nrows - 1 {
            let enabled = self.config.selector.enable(layouter, 0);
            assert(enabled is Ok);
        }
        let ghost switched = layouter@;
        assert(switched == start.with_ops(selector_ops(config, nrows as nat, 0))) by {
            let steps = selector_ops(config, nrows as nat, 0);
            if 0 < nrows - 1 {
                assert(start.ops.push(steps[0]) =~= start.ops + steps);
            } else {
                assert(start.ops =~= start.ops + steps);
            }
        }
        let is_even_flag = flag_of(&initial_value);

        let assigned = layouter.assign_advice(self.config.is_even, 0, is_even_flag);
        assert(assigned is Ok);

        let assigned = layouter.assign_advice_from_instance(
            self.config.instance,
            0,
            self.config.element,
            0,
        );
        assert(assigned is Ok);
        let mut a_cell = assigned.unwrap();
        assert(layouter@ == start.with_ops(head + rows_ops(config, initial, nrows as nat, 1))) by {
            let steps = selector_ops(config, nrows as nat, 0);
            assert((start.ops + steps).push(head[steps.len() as int]).push(
                head[steps.len() as int + 1],
            ) =~= start.ops + (head + Seq::<OpView>::empty()));
        }

        let mut prev_value = initial_value;
        let mut current_value;
        let mut row: usize = 1;
        while row < nrows
            invariant
                1 <= row <= nrows,
                config == self.config(),
                config_fits(start, config),
                initial == initial_value@,
                head == head_ops(config, initial, nrows as nat),
                prev_value@ == collatz_value(initial, (row - 1) as nat),
                a_cell.cell == (Cell { column: config.element, row: (row - 1) as usize }),
                a_cell.value@ == if row == 1 {
                    start.public_input(config.instance, 0)
                } else {
                    prev_value@
                },
                layouter@ == start.with_ops(
                    head + rows_ops(config, initial, nrows as nat, row as nat),
                ),
            decreases nrows - row,
        {
            let ghost before = layouter@;
            let ghost marks = selector_ops(config, nrows as nat, row as nat);
            if row < nrows - 1 {
                let enabled = self.config.selector.enable(layouter, row);
                assert(enabled is Ok);
            }
            let ghost switched = layouter@;
            assert(switched == before.with_ops(marks)) by {
                if row < nrows - 1 {
                    assert(before.ops.push(marks[0]) =~= before.ops + marks);
                } else {
                    assert(before.ops =~= before.ops + marks);
                }
            }

            current_value = next_value(&prev_value);
            let ghost steps = row_ops(config, nrows as nat, row as nat, current_value@);

            let assigned = layouter.assign_advice(self.config.element, row, current_value);
            assert(assigned is Ok);
            let c_cell = assigned.unwrap();

            let is_even_flag = flag_of(&current_value);

            let assigned = layouter.assign_advice(self.config.is_even, row, is_even_flag);
            assert(assigned is Ok);
            prev_value = current_value;
            a_cell = c_cell;
            assert(layouter@ == start.with_ops(
                head + rows_ops(config, initial, nrows as nat, (row + 1) as nat),
            )) by {
                assert((before.ops + marks).push(steps[marks.len() as int]).push(
                    steps[marks.len() as int + 1],
                ) =~= before.ops + steps);
                assert((start.ops + (head + rows_ops(config, initial, nrows as nat, row as nat)))
                    + steps =~= start.ops + (head + (rows_ops(
                    config,
                    initial,
                    nrows as nat,
                    row as nat,
                ) + steps)));
            }
            row += 1;
        }

        Ok(a_cell)
    }

    /// Binds `cell` to the public input at `row` of the instance column.
    /// Fails with [`Error::Configuration`], and records nothing, unless the
    /// witness can bind the cell's column to the instance column.
    pub fn expose_public(&self, layouter: &mut Layouter, cell: AssignedCell, row: usize) -> (r:
        Result<(), Error>)
        ensures
            r is Ok <==> old(layouter)@.can_bind(cell.cell.column, self.config().instance),
            r matches Err(e) ==> e == Error::Configuration && final(layouter)@ == old(layouter)@,
            r is Ok ==> final(layouter)@ == old(layouter)@.with_op(
                OpView::ConstrainInstance {
                    cell: cell.cell,
                    instance: Cell { column: self.config().instance, row },
                },
            ),
    {
        layouter.constrain_instance(cell.cell(), self.config.instance, row)
    }
}

/// The circuit: two advice columns, one instance column and the chip on
/// them, with the last value bound to the second public input.
#[derive(Clone, Copy, Debug)]
pub struct MyCircuit {
    pub initial_value: Felt,
    pub nrows: usize,
}

/// The configuration that [`MyCircuit::configure`] gives on a system with
/// `advice` advice columns, `instance` instance columns and `selectors`
/// selectors.
pub open spec fn circuit_config(advice: nat, instance: nat, selectors: nat) -> CollatzConfig {
    CollatzConfig {
        element: Column { kind: ColumnKind::Advice, index: advice as usize },
        is_even: Column { kind: ColumnKind::Advice, index: (advice + 1) as usize },
        selector: Selector { index: selectors as usize },
        instance: Column { kind: ColumnKind::Instance, index: instance as usize },
    }
}

/// Every step of the circuit's synthesis: those of the chip, then the
/// binding of the last value to the second public input.
pub open spec fn circuit_ops(config: CollatzConfig, initial: nat, nrows: nat) -> Seq<OpView> {
    collatz_ops(config, initial, nrows).push(
        OpView::ConstrainInstance {
            cell: Cell { column: config.element, row: (nrows - 1) as usize },
            instance: Cell { column: config.instance, row: 1 },
        },
    )
}

impl MyCircuit {
    /// A circuit of the same shape that holds nothing of this one's witness:
    /// the same number of rows, laid out from the standing start of that
    /// many rows. It turns the same selectors on and fills the same cells,
    /// so it can stand in where only the shape matters.
    pub fn without_witnesses(&self) -> (r: MyCircuit)
        ensures
            r.nrows == self.nrows,
            r.initial_value@ == standing_start(self.nrows as nat),
            self.nrows > 0 ==> collatz_value(r.initial_value@, (r.nrows - 1) as nat) == 1,
    {
        proof {
            if self.nrows > 0 {
                lemma_standing_start(self.nrows as nat);
            }
        }
        MyCircuit { initial_value: standing_value(self.nrows), nrows: self.nrows }
    }

    /// Declares the columns and configures the chip on them.
    pub fn configure(meta: &mut ConstraintSystem) -> (config: CollatzConfig)
        requires
            old(meta)@.num_advice + 2 <= usize::MAX,
            old(meta)@.num_instance + 1 <= usize::MAX,
            old(meta)@.num_selectors + 1 <= usize::MAX,
        ensures
            config == circuit_config(
                old(meta)@.num_advice,
                old(meta)@.num_instance,
                old(meta)@.num_selectors,
            ),
            final(meta)@ == (ConstraintSystemView {
                num_advice: old(meta)@.num_advice + 2,
                num_instance: old(meta)@.num_instance + 1,
                num_selectors: old(meta)@.num_selectors + 1,
                equality: old(meta)@.equality + seq![
                    config.element,
                    config.is_even,
                    config.instance,
                ],
                gates: old(meta)@.gates + collatz_gates(config),
                ..old(meta)@
            }),
    {
        let element = meta.advice_column();
        let is_even = meta.advice_column();
        let instance = meta.instance_column();
        let configured = CollatzChip::configure(meta, element, is_even, instance);
        configured.unwrap()
    }

    /// Builds the circuit from nothing: its constraint system and, laid out
    /// in an empty witness with the public inputs `public_inputs`, its
    /// sequence. Fails where the sequence does not end at one.
    ///
    /// What is built satisfies the system exactly when the public inputs
    /// are the initial value and one; on a single row, where no gate is on,
    /// exactly when the two public inputs are the same.
    pub fn build(&self, public_inputs: Vec<Felt>) -> (r: Result<
        (ConstraintSystem, Layouter),
        Error,
    >)
        ensures
            r is Ok <==> self.nrows > 0 && collatz_value(
                self.initial_value@,
                (self.nrows - 1) as nat,
            ) == 1,
            r matches Err(e) ==> e == Error::InsufficientRows,
            r matches Ok(built) ==> {
                let config = circuit_config(0, 0, 0);
                let first = built.1@.public_input(config.instance, 0);
                let second = built.1@.public_input(config.instance, 1);
                &&& built.0@ == (ConstraintSystemView {
                    num_advice: 2,
                    num_instance: 1,
                    num_selectors: 1,
                    equality: seq![config.element, config.is_even, config.instance],
                    gates: collatz_gates(config),
                    ..ConstraintSystemView::empty()
                })
                &&& built.1@.instance == seq![values_of(public_inputs@)]
                &&& built.1@.ops == circuit_ops(config, self.initial_value@, self.nrows as nat)
                &&& satisfied(built.0@, built.1@) <==> if self.nrows == 1 {
                    second == first
                } else {
                    first == self.initial_value@ && second == 1
                }
            },
    {
        let mut system = ConstraintSystem::new();
        let config = Self::configure(&mut system);
        assert(system@.equality =~= seq![config.element, config.is_even, config.instance]);
        assert(system@.gates =~= collatz_gates(config));
        if public_inputs.len() > 0 {
            public_inputs[0].bounded();
        }
        let mut instance: Vec<Vec<Felt>> = Vec::new();
        instance.push(public_inputs);
        let created = Layouter::new(&system, instance);
        let mut witness = created.unwrap();
        assert(witness@.instance =~= seq![values_of(public_inputs@)]);
        proof {
            assert(system@.equality[0] == config.element);
            assert(system@.equality[2] == config.instance);
            assert(config_fits(witness@, config));
        }
        self.initial_value.bounded();
        self.synthesize(config, &mut witness)?;
        proof {
            let initial = self.initial_value@;
            let nrows = self.nrows as nat;
            let steps = circuit_ops(config, initial, nrows);
            assert(Seq::<OpView>::empty() + steps =~= steps);
            if nrows == 1 {
                lemma_single_row(system@, witness@, config, initial);
            } else {
                if witness@.public_input(config.instance, 0) == initial && witness@.public_input(
                    config.instance,
                    1,
                ) == 1 {
                    lemma_witness_satisfies(system@, witness@, config, initial, nrows);
                }
                if satisfied(system@, witness@) {
                    lemma_satisfied_binds_last(system@, witness@, config, initial, nrows);
                    lemma_satisfied_binds_first(system@, witness@, config, initial, nrows);
                }
            }
        }
        Ok((system, witness))
    }

    /// Lays out the circuit's sequence with a chip for `config` and binds the
    /// last value to the second public input.
    pub fn synthesize(&self, config: CollatzConfig, layouter: &mut Layouter) -> (r: Result<
        (),
        Error,
    >)
        ensures
            r is Ok <==> assign_failure(
                old(layouter)@,
                config,
                self.initial_value@,
                self.nrows as nat,
            ) is None,
            r matches Err(e) ==> Some(e) == assign_failure(
                old(layouter)@,
                config,
                self.initial_value@,
                self.nrows as nat,
            ) && final(layouter)@ == old(layouter)@,
            r is Ok ==> final(layouter)@ == old(layouter)@.with_ops(
                circuit_ops(config, self.initial_value@, self.nrows as nat),
            ),
    {
        let chip = CollatzChip::construct(config);

        let out_cell = chip.assign(layouter, self.initial_value, self.nrows)?;

        let exposed = chip.expose_public(layouter, out_cell, 1);
        assert(exposed is Ok);
        assert(layouter@ == old(layouter)@.with_ops(
            circuit_ops(config, self.initial_value@, self.nrows as nat),
        )) by {
            let steps = collatz_ops(config, self.initial_value@, self.nrows as nat);
            assert((old(layouter)@.ops + steps).push(
                circuit_ops(config, self.initial_value@, self.nrows as nat).last(),
            ) =~= old(layouter)@.ops + circuit_ops(
                config,
                self.initial_value@,
                self.nrows as nat,
            ));
        }

        Ok(())
    }
}

} // verus!

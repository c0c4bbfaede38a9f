//! The Collatz sequence laid out row by row as six bits per value.
//!
//! Row `r` holds the `r`-th value of the sequence in six advice cells, the
//! most significant bit in the first column. Three gates constrain the rows:
//! every cell is a bit, the last row is the number one, and each row but the
//! last is followed by its Collatz successor.

use crate::circuit::{Cell, Layouter, LayouterView, OpView};
use crate::collatz::collatz_proofs::lemma_witness_satisfies;
use crate::dev::satisfied;
use crate::error::Error;
use crate::field::{Felt, fadd, fmul, lemma_small};
use crate::plonk::{
    Column, ColumnKind, ConstraintSystem, ConstraintSystemView, Expression, GateView, Poly,
    Rotation, Selector, lemma_polys_push, polys_of,
};
use vstd::prelude::*;

verus! {

/// The number of bits, and of advice columns, that hold one value.
pub const WIDTH: usize = 6;

/// The columns and selectors of the circuit.
#[derive(Clone, Copy, Debug, PartialEq, Eq)]
pub struct CollatzConfig {
    pub advice0: Column,
    pub advice1: Column,
    pub advice2: Column,
    pub advice3: Column,
    pub advice4: Column,
    pub advice5: Column,
    pub s_all_rows: Selector,
    pub s_last_row: Selector,
    pub s_non_last_row: Selector,
}

impl CollatzConfig {
    /// The advice columns, from the most significant bit to the least.
    pub open spec fn columns(self) -> Seq<Column> {
        seq![self.advice0, self.advice1, self.advice2, self.advice3, self.advice4, self.advice5]
    }
}

/// `bit * (1 - bit)` for the cell of `column` on the constrained row.
pub open spec fn boolean_poly(column: Column) -> Poly {
    Poly::query(column, Rotation::Cur).times(
        Poly::constant(1).minus(Poly::query(column, Rotation::Cur)),
    )
}

/// One polynomial per column, which vanishes exactly when the cell is 0 or 1.
pub open spec fn boolean_polys(columns: Seq<Column>) -> Seq<Poly> {
    Seq::new(columns.len(), |i: int| boolean_poly(columns[i]))
}

/// The polynomials that force a row to spell the number one: every cell but
/// the last is zero, and the last is one.
pub open spec fn unit_row_polys(columns: Seq<Column>) -> Seq<Poly> {
    Seq::new(
        columns.len(),
        |i: int|
            if i < columns.len() - 1 {
                Poly::query(columns[i], Rotation::Cur)
            } else {
                Poly::constant(1).minus(Poly::query(columns[i], Rotation::Cur))
            },
    )
}

/// The weight of the `j`-th bit from the right, as the product
/// `1 * 2 * ... * 2` that the sequence rule is built from.
pub open spec fn weight_poly(j: nat) -> Poly
    decreases j,
{
    if j == 0 {
        Poly::constant(1)
    } else {
        weight_poly((j - 1) as nat).times(Poly::constant(2))
    }
}

/// The number spelled by the `j` rightmost cells of the row `at`, as a
/// polynomial: `0 + bit * 1 + bit * 2 + ...`, from the last column leftwards.
pub open spec fn row_value_poly(columns: Seq<Column>, at: Rotation, j: nat) -> Poly
    decreases j,
{
    if j == 0 {
        Poly::constant(0)
    } else {
        row_value_poly(columns, at, (j - 1) as nat).plus(
            Poly::query(columns[columns.len() - j], at).times(weight_poly((j - 1) as nat)),
        )
    }
}

/// The Collatz rule between a row and the next, as one polynomial:
/// `lsb * ((3 * cur + 1) - next) + (1 - lsb) * (cur - 2 * next)`.
///
/// `lsb` is the last cell of the row, the lowest bit of its value. It is one
/// for an odd value, which leaves only `(3 * cur + 1) - next`, and zero for
/// an even one, which leaves only `cur - 2 * next`.
pub open spec fn sequence_rule_poly(columns: Seq<Column>) -> Poly {
    let lsb = Poly::query(columns[columns.len() - 1], Rotation::Cur);
    let cur = row_value_poly(columns, Rotation::Cur, columns.len());
    let next = row_value_poly(columns, Rotation::Next, columns.len());
    let next_if_odd = Poly::constant(3).times(cur).plus(Poly::constant(1));
    lsb.times(next_if_odd.minus(next)).plus(
        Poly::constant(1).minus(lsb).times(cur.minus(Poly::constant(2).times(next))),
    )
}

/// The three gates of the circuit.
pub open spec fn collatz_gates(config: CollatzConfig) -> Seq<GateView> {
    seq![
        GateView {
            name: "advice columns are bits"@,
            selector: config.s_all_rows,
            polys: boolean_polys(config.columns()),
        },
        GateView {
            name: "last advice row equals a 1"@,
            selector: config.s_last_row,
            polys: unit_row_polys(config.columns()),
        },
        GateView {
            name: "Collatz sequence rule"@,
            selector: config.s_non_last_row,
            polys: seq![sequence_rule_poly(config.columns())],
        },
    ]
}

/// Whether `column` is a declared advice column of `system`.
pub open spec fn is_advice_of(system: ConstraintSystemView, column: Column) -> bool {
    column.kind == ColumnKind::Advice && column.index < system.num_advice
}

/// Whether all of `columns` are declared advice columns of `system`.
pub open spec fn all_advice_of(system: ConstraintSystemView, columns: Seq<Column>) -> bool {
    forall|i: int| 0 <= i < columns.len() ==> is_advice_of(system, #[trigger] columns[i])
}

/// The successor of `v` in the Collatz iteration, computed in the field: half
/// of an even `v`, and `3 * v + 1` for an odd one.
pub open spec fn collatz_next(v: nat) -> nat {
    if v % 2 == 0 {
        v / 2
    } else {
        fadd(fmul(3, v), 1)
    }
}

/// The value on row `row` of the sequence that starts at `initial`.
pub open spec fn collatz_value(initial: nat, row: nat) -> nat
    decreases row,
{
    if row == 0 {
        initial
    } else {
        collatz_next(collatz_value(initial, (row - 1) as nat))
    }
}

/// A start from which the sequence stays on the cycle 4, 2, 1 and stands at
/// one on the last of `nrows` rows.
pub open spec fn standing_start(nrows: nat) -> nat {
    if nrows % 3 == 1 {
        1
    } else if nrows % 3 == 2 {
        2
    } else {
        4
    }
}

/// The value `row` steps after `start` on the cycle 4, 2, 1.
pub open spec fn cycle_value(start: nat, row: nat) -> nat {
    let at = (if start == 4 {
        0nat
    } else if start == 2 {
        1nat
    } else {
        2nat
    } + row) % 3;
    if at == 0 {
        4
    } else if at == 1 {
        2
    } else {
        1
    }
}

/// From 4, 2 or 1 the sequence runs round the cycle 4, 2, 1.
pub proof fn lemma_cycle(start: nat, row: nat)
    requires
        start == 1 || start == 2 || start == 4,
    ensures
        collatz_value(start, row) == cycle_value(start, row),
    decreases row,
{
    if row > 0 {
        lemma_cycle(start, (row - 1) as nat);
        assert(fadd(fmul(3, 1), 1) == 4) by {
            lemma_small(3, 1);
            lemma_small(3, 1);
        }
    }
}

/// From its standing start the sequence can be laid out on `nrows` rows:
/// every value fits a row and the last row holds the number one.
pub proof fn lemma_standing_start(nrows: nat)
    requires
        nrows > 0,
    ensures
        collatz_value(standing_start(nrows), (nrows - 1) as nat) == 1,
        sequence_failure(standing_start(nrows), nrows) is None,
{
    let start = standing_start(nrows);
    lemma_cycle(start, (nrows - 1) as nat);
    assert forall|r: nat| r < nrows implies fits_width(#[trigger] collatz_value(start, r)) by {
        lemma_cycle(start, r);
    }
}

/// `v` with its `j` lowest binary digits dropped.
pub open spec fn shifted(v: nat, j: nat) -> nat
    decreases j,
{
    if j == 0 {
        v
    } else {
        shifted(v, (j - 1) as nat) / 2
    }
}

/// The `j`-th binary digit of `v`, counted from the lowest.
pub open spec fn bit(v: nat, j: nat) -> nat {
    shifted(v, j) % 2
}

/// Whether `v` can be spelled in [`WIDTH`] bits.
pub open spec fn fits_width(v: nat) -> bool {
    v < 64
}

/// Whether one of the first `rows` values of the sequence is too wide for a row.
pub open spec fn overflows_within(initial: nat, rows: nat) -> bool {
    exists|r: nat| r < rows && !fits_width(#[trigger] collatz_value(initial, r))
}

/// Why the sequence from `initial` cannot be laid out on `nrows` rows, if it
/// cannot. The rows are too few where there is none or the last one does not
/// hold the number one. Where the last row does hold one, the witness would
/// still be inconsistent if a value on the way is too wide for a row.
pub open spec fn sequence_failure(initial: nat, nrows: nat) -> Option<Error> {
    if nrows == 0 || collatz_value(initial, (nrows - 1) as nat) != 1 {
        Some(Error::InsufficientRows)
    } else if overflows_within(initial, nrows) {
        Some(Error::WitnessInconsistency)
    } else {
        None
    }
}

/// A value is too wide within one more row exactly when one was before, or
/// the value on that row is.
pub proof fn lemma_overflows_one_more(initial: nat, rows: nat)
    ensures
        overflows_within(initial, rows + 1) <==> overflows_within(initial, rows) || !fits_width(
            collatz_value(initial, rows),
        ),
{
    if overflows_within(initial, rows + 1) {
        let r = choose|r: nat| r < rows + 1 && !fits_width(#[trigger] collatz_value(initial, r));
        if r < rows {
            assert(overflows_within(initial, rows));
        }
    }
    if overflows_within(initial, rows) {
        let r = choose|r: nat| r < rows && !fits_width(#[trigger] collatz_value(initial, r));
        assert(r < rows + 1 && !fits_width(collatz_value(initial, r)));
    }
    if !fits_width(collatz_value(initial, rows)) {
        assert(rows < rows + 1 && !fits_width(collatz_value(initial, rows)));
    }
}

/// Whether the witness has every selector and column of `config`, the
/// columns as advice columns.
pub open spec fn config_fits(layouter: LayouterView, config: CollatzConfig) -> bool {
    &&& config.s_all_rows.index < layouter.num_selectors
    &&& config.s_last_row.index < layouter.num_selectors
    &&& config.s_non_last_row.index < layouter.num_selectors
    &&& forall|i: int|
        0 <= i < 6 ==> (#[trigger] config.columns()[i]).kind == ColumnKind::Advice
            && layouter.has_column(config.columns()[i])
}

/// Why [`CollatzChip::assign`] fails, if it does.
pub open spec fn assign_failure(
    layouter: LayouterView,
    config: CollatzConfig,
    initial: nat,
    nrows: nat,
) -> Option<Error> {
    if !config_fits(layouter, config) {
        Some(Error::Configuration)
    } else {
        sequence_failure(initial, nrows)
    }
}

/// The steps that fill row `row` with `value`: the selector for all rows,
/// the selector for the last row or for the others, then the six bits from
/// the lowest, which goes to the last column, to the highest.
pub open spec fn row_ops(config: CollatzConfig, nrows: nat, row: nat, value: nat) -> Seq<OpView> {
    seq![
        OpView::EnableSelector { selector: config.s_all_rows, row },
        OpView::EnableSelector {
            selector: if row + 1 < nrows {
                config.s_non_last_row
            } else {
                config.s_last_row
            },
            row,
        },
        OpView::Assign {
            cell: Cell { column: config.advice5, row: row as usize },
            value: bit(value, 0),
        },
        OpView::Assign {
            cell: Cell { column: config.advice4, row: row as usize },
            value: bit(value, 1),
        },
        OpView::Assign {
            cell: Cell { column: config.advice3, row: row as usize },
            value: bit(value, 2),
        },
        OpView::Assign {
            cell: Cell { column: config.advice2, row: row as usize },
            value: bit(value, 3),
        },
        OpView::Assign {
            cell: Cell { column: config.advice1, row: row as usize },
            value: bit(value, 4),
        },
        OpView::Assign {
            cell: Cell { column: config.advice0, row: row as usize },
            value: bit(value, 5),
        },
    ]
}

/// The steps that fill the first `rows` rows of a table of `nrows` rows with
/// the sequence from `initial`.
pub open spec fn collatz_ops(config: CollatzConfig, initial: nat, nrows: nat, rows: nat) -> Seq<
    OpView,
>
    decreases rows,
{
    if rows == 0 {
        Seq::empty()
    } else {
        collatz_ops(config, initial, nrows, (rows - 1) as nat) + row_ops(
            config,
            nrows,
            (rows - 1) as nat,
            collatz_value(initial, (rows - 1) as nat),
        )
    }
}

/// The successor of `current` in the sequence.
pub fn next_value(current: &Felt) -> (r: Felt)
    ensures
        r@ == collatz_next(current@),
{
    if current.is_even() {
        current.halve()
    } else {
        Felt::from_u64(3).mul(current).add(&Felt::one())
    }
}

/// The standing start of `nrows` rows.
pub fn standing_value(nrows: usize) -> (r: Felt)
    ensures
        r@ == standing_start(nrows as nat),
{
    if nrows % 3 == 1 {
        Felt::one()
    } else if nrows % 3 == 2 {
        Felt::from_u64(2)
    } else {
        Felt::from_u64(4)
    }
}

/// Whether `value` can be spelled in [`WIDTH`] bits.
fn fits(value: &Felt) -> (r: bool)
    ensures
        r == fits_width(value@),
{
    let mut rest = *value;
    let mut j: usize = 0;
    while j < WIDTH
        invariant
            j <= WIDTH,
            rest@ == shifted(value@, j as nat),
        decreases WIDTH - j,
    {
        rest = rest.shift_right();
        j += 1;
    }
    proof {
        lemma_shifted_six(value@);
    }
    rest.is_zero()
}

/// Dropping six binary digits divides by 64.
proof fn lemma_shifted_six(v: nat)
    ensures
        shifted(v, 6) == v / 64,
{
    reveal_with_fuel(shifted, 7);
}

/// Why the sequence from `initial` cannot be laid out on `nrows` rows, if it
/// cannot.
fn check_sequence(initial: &Felt, nrows: usize) -> (r: Option<Error>)
    ensures
        r == sequence_failure(initial@, nrows as nat),
{
    if nrows == 0 {
        return Some(Error::InsufficientRows);
    }
    let mut current = *initial;
    let mut wide = !fits(&current);
    proof {
        lemma_overflows_one_more(initial@, 0);
    }
    let mut row: usize = 0;
    while row < nrows - 1
        invariant
            row <= nrows - 1,
            current@ == collatz_value(initial@, row as nat),
            wide == overflows_within(initial@, (row + 1) as nat),
        decreases nrows - 1 - row,
    {
        current = next_value(&current);
        row += 1;
        proof {
            lemma_overflows_one_more(initial@, row as nat);
        }
        if !fits(&current) {
            wide = true;
        }
    }
    if !current.equals(&Felt::one()) {
        return Some(Error::InsufficientRows);
    }
    if wide {
        return Some(Error::WitnessInconsistency);
    }
    None
}

/// The polynomial for the number spelled by the row `at`.
fn row_value(columns: &[Column; 6], at: Rotation) -> (r: Expression)
    ensures
        r@ == row_value_poly(columns@, at, WIDTH as nat),
{
    let mut value = Expression::constant(Felt::zero());
    let mut coeff = Expression::constant(Felt::one());
    let mut j: usize = 0;
    while j < WIDTH
        invariant
            j <= WIDTH,
            value@ == row_value_poly(columns@, at, j as nat),
            coeff@ == weight_poly(j as nat),
        decreases WIDTH - j,
    {
        let bit = Expression::query(columns[WIDTH - 1 - j], at);
        value = value.plus(bit.times(coeff.duplicate()));
        coeff = coeff.times(Expression::constant(Felt::from_u64(2)));
        j += 1;
    }
    value
}

/// The chip that lays out and constrains the sequence.
#[derive(Clone, Copy, Debug)]
pub struct CollatzChip {
    config: CollatzConfig,
}

impl CollatzChip {
    /// The configuration that the chip works with.
    pub closed spec fn config(self) -> CollatzConfig {
        self.config
    }

    /// A chip that works with `config`.
    pub fn construct(config: CollatzConfig) -> (r: CollatzChip)
        ensures
            r.config() == config,
    {
        CollatzChip { config }
    }

    /// Declares the three selectors, enables equality on the six advice
    /// columns and adds the three gates. Fails with
    /// [`Error::Configuration`], and changes nothing, unless all six are
    /// declared advice columns of `meta`.
    pub fn configure(
        meta: &mut ConstraintSystem,
        advice0: Column,
        advice1: Column,
        advice2: Column,
        advice3: Column,
        advice4: Column,
        advice5: Column,
    ) -> (r: Result<CollatzConfig, Error>)
        requires
            old(meta)@.num_selectors + 3 <= usize::MAX,
        ensures
            r is Ok <==> all_advice_of(
                old(meta)@,
                seq![advice0, advice1, advice2, advice3, advice4, advice5],
            ),
            r is Err ==> r == Err::<CollatzConfig, Error>(Error::Configuration) && final(meta)@
                == old(meta)@,
            r matches Ok(config) ==> {
                &&& config.columns() == seq![advice0, advice1, advice2, advice3, advice4, advice5]
                &&& config.s_all_rows.index == old(meta)@.num_selectors
                &&& config.s_last_row.index == old(meta)@.num_selectors + 1
                &&& config.s_non_last_row.index == old(meta)@.num_selectors + 2
                &&& final(meta)@ == (ConstraintSystemView {
                    num_selectors: old(meta)@.num_selectors + 3,
                    equality: old(meta)@.equality + config.columns(),
                    gates: old(meta)@.gates + collatz_gates(config),
                    ..old(meta)@
                })
            },
    {
        let advice_cols = [advice0, advice1, advice2, advice3, advice4, advice5];
        let ghost columns = seq![advice0, advice1, advice2, advice3, advice4, advice5];
        assert(advice_cols@ =~= columns);
        assert(columns =~= seq![advice0, advice1, advice2, advice3, advice4, advice5]);
        let mut i: usize = 0;
        while i < WIDTH
            invariant
                i <= WIDTH,
                advice_cols@ == columns,
                columns == seq![advice0, advice1, advice2, advice3, advice4, advice5],
                *meta == *old(meta),
                forall|k: int| 0 <= k < i ==> is_advice_of(meta@, #[trigger] columns[k]),
            decreases WIDTH - i,
        {
            let column = advice_cols[i];
            let advice = match column.kind {
                ColumnKind::Advice => true,
                _ => false,
            };
            if !advice || column.index >= meta.num_advice() {
                assert(!is_advice_of(old(meta)@, columns[i as int]));
                assert(!all_advice_of(old(meta)@, columns));
                return Err(Error::Configuration);
            }
            i += 1;
        }

        let s_all_rows = meta.selector();
        let s_last_row = meta.selector();
        let s_non_last_row = meta.selector();

        let mut i: usize = 0;
        while i < WIDTH
            invariant
                i <= WIDTH,
                advice_cols@ == columns,
                forall|k: int| 0 <= k < 6 ==> is_advice_of(old(meta)@, #[trigger] columns[k]),
                meta@ == (ConstraintSystemView {
                    num_selectors: old(meta)@.num_selectors + 3,
                    equality: old(meta)@.equality + columns.take(i as int),
                    ..old(meta)@
                }),
            decreases WIDTH - i,
        {
            assert(is_advice_of(old(meta)@, columns[i as int]));
            let enabled = meta.enable_equality(advice_cols[i]);
            assert(enabled is Ok);
            assert(columns.take(i as int).push(columns[i as int]) =~= columns.take(i + 1));
            assert((old(meta)@.equality + columns.take(i as int)).push(columns[i as int])
                =~= old(meta)@.equality + columns.take(i + 1));
            i += 1;
        }
        assert(columns.take(6) =~= columns);

        // Constrain all the advice columns to be bits
        let mut constraints: Vec<Expression> = Vec::new();
        let mut i: usize = 0;
        while i < WIDTH
            invariant
                i <= WIDTH,
                advice_cols@ == columns,
                polys_of(constraints@) =~= boolean_polys(columns).take(i as int),
            decreases WIDTH - i,
        {
            let bit = Expression::query(advice_cols[i], Rotation::cur());
            // bit * (1 - bit) = 0
            let constraint = bit.duplicate().times(Expression::constant(Felt::one()).minus(bit));
            proof {
                lemma_polys_push(constraints@, constraint);
                assert(boolean_polys(columns).take(i as int).push(boolean_poly(columns[i as int]))
                    =~= boolean_polys(columns).take(i + 1));
            }
            constraints.push(constraint);
            i += 1;
        }
        assert(boolean_polys(columns).take(6) =~= boolean_polys(columns));
        let ghost before = meta@;
        assert forall|k: int| 0 <= k < 6 implies (#[trigger] boolean_polys(columns)[k])
            .columns_within(before.num_advice, before.num_fixed, before.num_instance) by {
            assert(is_advice_of(old(meta)@, columns[k]));
            reveal_with_fuel(Poly::columns_within, 5);
        }
        let created = meta.create_gate("advice columns are bits", s_all_rows, constraints);
        assert(created is Ok);

        // Constrain the last advice row to be equal to 1 (the end of the Collatz sequence)
        let mut constraints: Vec<Expression> = Vec::new();
        let mut i: usize = 0;
        while i < WIDTH - 1
            invariant
                i <= WIDTH - 1,
                advice_cols@ == columns,
                polys_of(constraints@) =~= unit_row_polys(columns).take(i as int),
            decreases WIDTH - 1 - i,
        {
            // bit = 0
            let constraint = Expression::query(advice_cols[i], Rotation::cur());
            proof {
                lemma_polys_push(constraints@, constraint);
                assert(unit_row_polys(columns).take(i as int).push(constraint@)
                    =~= unit_row_polys(columns).take(i + 1));
            }
            constraints.push(constraint);
            i += 1;
        }
        let bit = Expression::query(advice_cols[WIDTH - 1], Rotation::cur());
        // 1 - bit = 0
        let constraint = Expression::constant(Felt::one()).minus(bit);
        proof {
            lemma_polys_push(constraints@, constraint);
            assert(unit_row_polys(columns).take(5).push(constraint@) =~= unit_row_polys(columns));
        }
        constraints.push(constraint);
        assert forall|k: int| 0 <= k < 6 implies (#[trigger] unit_row_polys(columns)[k])
            .columns_within(before.num_advice, before.num_fixed, before.num_instance) by {
            assert(is_advice_of(old(meta)@, columns[k]));
            reveal_with_fuel(Poly::columns_within, 5);
        }
        let created = meta.create_gate("last advice row equals a 1", s_last_row, constraints);
        assert(created is Ok);

        // For all rows except the last row, constrain the value stored in advice bits
        // to follow the Collatz sequence rules
        // If previous element n is even, current element is n/2
        // If previous element n is odd, current element is 3*n+1
        let lsb = Expression::query(advice_cols[WIDTH - 1], Rotation::cur());
        let one = Expression::constant(Felt::one());
        let two = Expression::constant(Felt::from_u64(2));
        let three = Expression::constant(Felt::from_u64(3));
        let current_element = row_value(&advice_cols, Rotation::cur());
        let next_element = row_value(&advice_cols, Rotation::next());
        let next_element_if_odd = three.times(current_element.duplicate()).plus(one.duplicate());
        let rule = lsb.duplicate().times(next_element_if_odd.minus(next_element.duplicate())).plus(
            one.minus(lsb).times(current_element.minus(two.times(next_element))),
        );
        assert(rule@ == sequence_rule_poly(columns));
        let mut constraints: Vec<Expression> = Vec::new();
        proof {
            lemma_polys_push(constraints@, rule);
            assert(polys_of(constraints@) =~= Seq::<Poly>::empty());
            assert(Seq::<Poly>::empty().push(rule@) =~= seq![sequence_rule_poly(columns)]);
        }
        constraints.push(rule);
        proof {
            lemma_rule_columns(columns, before.num_advice, before.num_fixed, before.num_instance);
        }
        let created = meta.create_gate("Collatz sequence rule", s_non_last_row, constraints);
        assert(created is Ok);

        let config = CollatzConfig {
            advice0,
            advice1,
            advice2,
            advice3,
            advice4,
            advice5,
            s_all_rows,
            s_last_row,
            s_non_last_row,
        };
        assert(config.columns() =~= columns);
        assert(meta@.gates =~= old(meta)@.gates + collatz_gates(config));
        Ok(config)
    }

    /// Whether the witness has every selector and column of the chip.
    fn fits_layouter(&self, layouter: &Layouter) -> (r: bool)
        ensures
            r == config_fits(layouter@, self.config()),
    {
        let config = &self.config;
        let r = layouter.has_selector(config.s_all_rows) && layouter.has_selector(
            config.s_last_row,
        ) && layouter.has_selector(config.s_non_last_row) && layouter.has_advice(config.advice0)
            && layouter.has_advice(config.advice1) && layouter.has_advice(config.advice2)
            && layouter.has_advice(config.advice3) && layouter.has_advice(config.advice4)
            && layouter.has_advice(config.advice5);
        proof {
            let columns = self.config().columns();
            if r {
                assert forall|i: int| 0 <= i < 6 implies (#[trigger] columns[i]).kind
                    == ColumnKind::Advice && layouter@.has_column(columns[i]) by {}
            } else if config_fits(layouter@, self.config()) {
                assert(layouter@.has_column(columns[0]));
                assert(layouter@.has_column(columns[1]));
                assert(layouter@.has_column(columns[2]));
                assert(layouter@.has_column(columns[3]));
                assert(layouter@.has_column(columns[4]));
                assert(layouter@.has_column(columns[5]));
            }
        }
        r
    }

    /// Lays out the sequence that starts at `initial_value` on `nrows` rows:
    /// row by row the selectors, then the six bits of the row's value.
    ///
    /// Columns of the configuration may coincide; a later step then
    /// overwrites an earlier one, and the rows no longer spell the sequence.
    ///
    /// Nothing is recorded unless the whole sequence can be. The witness must
    /// have the chip's selectors and columns, or the chip fails with
    /// [`Error::Configuration`]. The last row must hold the number one, or
    /// the rows are too few and it fails with [`Error::InsufficientRows`],
    /// whatever the values on the way. And where the last row holds one,
    /// every value must fit a row, or it fails with
    /// [`Error::WitnessInconsistency`].
    pub fn assign(&self, layouter: &mut Layouter, initial_value: Felt, nrows: usize) -> (r: Result<
        (),
        Error,
    >)
        ensures
            r is Ok <==> assign_failure(old(layouter)@, self.config(), initial_value@, nrows as nat)
                is None,
            r matches Err(e) ==> Some(e) == assign_failure(
                old(layouter)@,
                self.config(),
                initial_value@,
                nrows as nat,
            ) && final(layouter)@ == old(layouter)@,
            r is Ok ==> final(layouter)@ == old(layouter)@.with_ops(
                collatz_ops(self.config(), initial_value@, nrows as nat, nrows as nat),
            ),
    {
        if !self.fits_layouter(layouter) {
            return Err(Error::Configuration);
        }
        match check_sequence(&initial_value, nrows) {
            Some(e) => {
                return Err(e);
            },
            None => {},
        }
        let ghost config = self.config();
        let ghost start = layouter@;
        let ghost initial = initial_value@;
        let mut current_value = initial_value;
        let mut next_value;
        assert(start.with_ops(collatz_ops(config, initial, nrows as nat, 0)) =~= start) by {
            assert(start.ops + Seq::<OpView>::empty() =~= start.ops);
        }

        let mut row: usize = 0;
        while row < nrows
            invariant
                row <= nrows,
                config == self.config(),
                config_fits(start, config),
                initial == initial_value@,
                current_value@ == collatz_value(initial, row as nat),
                layouter@ == start.with_ops(collatz_ops(config, initial, nrows as nat, row as nat)),
            decreases nrows - row,
        {
            let ghost value = current_value@;
            let ghost before = layouter@;
            let ghost steps = row_ops(config, nrows as nat, row as nat, value);
            assert(config.columns()[0] == config.advice0 && layouter@.has_column(
                config.columns()[0],
            ));
            assert(config.columns()[1] == config.advice1 && layouter@.has_column(
                config.columns()[1],
            ));
            assert(config.columns()[2] == config.advice2 && layouter@.has_column(
                config.columns()[2],
            ));
            assert(config.columns()[3] == config.advice3 && layouter@.has_column(
                config.columns()[3],
            ));
            assert(config.columns()[4] == config.advice4 && layouter@.has_column(
                config.columns()[4],
            ));
            assert(config.columns()[5] == config.advice5 && layouter@.has_column(
                config.columns()[5],
            ));

            let enabled = self.config.s_all_rows.enable(layouter, row);
            assert(enabled is Ok);
            if row < nrows - 1 {
                let enabled = self.config.s_non_last_row.enable(layouter, row);
                assert(enabled is Ok);
            }
            if row == nrows - 1 {
                let enabled = self.config.s_last_row.enable(layouter, row);
                assert(enabled is Ok);
            }
            assert(layouter@ == before.with_ops(steps.take(2))) by {
                assert(before.ops.push(steps[0]).push(steps[1]) =~= before.ops + steps.take(2));
            }

            next_value = self::next_value(&current_value);

            let advice_cols = [
                self.config.advice0,
                self.config.advice1,
                self.config.advice2,
                self.config.advice3,
                self.config.advice4,
                self.config.advice5,
            ];
            let mut j: usize = 0;
            while j < WIDTH
                invariant
                    j <= WIDTH,
                    row < nrows,
                    config == self.config(),
                    advice_cols@ == config.columns(),
                    steps == row_ops(config, nrows as nat, row as nat, value),
                    current_value@ == shifted(value, j as nat),
                    layouter@ == before.with_ops(steps.take(2 + j)),
                    forall|i: int|
                        0 <= i < 6 ==> (#[trigger] config.columns()[i]).kind == ColumnKind::Advice
                            && before.has_column(config.columns()[i]),
                decreases WIDTH - j,
            {
                let i = WIDTH - 1 - j;
                let bit;
                if current_value.is_even() {
                    bit = Felt::zero();
                } else {
                    bit = Felt::one();
                }
                current_value = current_value.shift_right();
                assert(config.columns()[i as int].kind == ColumnKind::Advice && before.has_column(
                    config.columns()[i as int],
                ));
                let assigned = layouter.assign_advice(advice_cols[i], row, bit);
                assert(assigned is Ok);
                assert(layouter@ == before.with_ops(steps.take(2 + j + 1))) by {
                    assert(steps[2 + j] == (OpView::Assign {
                        cell: Cell { column: advice_cols[i as int], row },
                        value: bit@,
                    }));
                    assert((before.ops + steps.take(2 + j)).push(steps[2 + j]) =~= before.ops
                        + steps.take(2 + j + 1));
                }
                j += 1;
            }
            current_value = next_value;
            assert(layouter@ == start.with_ops(
                collatz_ops(config, initial, nrows as nat, (row + 1) as nat),
            )) by {
                assert(steps.take(8) =~= steps);
                assert((start.ops + collatz_ops(config, initial, nrows as nat, row as nat)) + steps
                    =~= start.ops + (collatz_ops(config, initial, nrows as nat, row as nat)
                    + steps));
            }
            row += 1;
        }
        Ok(())
    }
}

/// The circuit: six advice columns and the chip on them.
#[derive(Clone, Copy, Debug)]
pub struct CollatzCircuit {
    pub initial_value: Felt,
    pub nrows: usize,
}

/// The configuration that [`CollatzCircuit::configure`] gives on a system
/// with `advice` advice columns and `selectors` selectors.
pub open spec fn circuit_config(advice: nat, selectors: nat) -> CollatzConfig {
    CollatzConfig {
        advice0: Column { kind: ColumnKind::Advice, index: advice as usize },
        advice1: Column { kind: ColumnKind::Advice, index: (advice + 1) as usize },
        advice2: Column { kind: ColumnKind::Advice, index: (advice + 2) as usize },
        advice3: Column { kind: ColumnKind::Advice, index: (advice + 3) as usize },
        advice4: Column { kind: ColumnKind::Advice, index: (advice + 4) as usize },
        advice5: Column { kind: ColumnKind::Advice, index: (advice + 5) as usize },
        s_all_rows: Selector { index: selectors as usize },
        s_last_row: Selector { index: (selectors + 1) as usize },
        s_non_last_row: Selector { index: (selectors + 2) as usize },
    }
}

impl CollatzCircuit {
    /// A circuit of the same shape that holds nothing of this one's witness:
    /// the same number of rows, laid out from the standing start of that
    /// many rows. It turns the same selectors on and fills the same cells,
    /// so it can stand in where only the shape matters.
    pub fn without_witnesses(&self) -> (r: CollatzCircuit)
        ensures
            r.nrows == self.nrows,
            r.initial_value@ == standing_start(self.nrows as nat),
            self.nrows > 0 ==> sequence_failure(r.initial_value@, r.nrows as nat) is None,
    {
        proof {
            if self.nrows > 0 {
                lemma_standing_start(self.nrows as nat);
            }
        }
        CollatzCircuit { initial_value: standing_value(self.nrows), nrows: self.nrows }
    }

    /// Declares six advice columns and configures the chip on them.
    pub fn configure(meta: &mut ConstraintSystem) -> (config: CollatzConfig)
        requires
            old(meta)@.num_advice + 6 <= usize::MAX,
            old(meta)@.num_selectors + 3 <= usize::MAX,
        ensures
            config == circuit_config(old(meta)@.num_advice, old(meta)@.num_selectors),
            final(meta)@ == (ConstraintSystemView {
                num_advice: old(meta)@.num_advice + 6,
                num_selectors: old(meta)@.num_selectors + 3,
                equality: old(meta)@.equality + config.columns(),
                gates: old(meta)@.gates + collatz_gates(config),
                ..old(meta)@
            }),
    {
        let advice0 = meta.advice_column();
        let advice1 = meta.advice_column();
        let advice2 = meta.advice_column();
        let advice3 = meta.advice_column();
        let advice4 = meta.advice_column();
        let advice5 = meta.advice_column();
        assert(all_advice_of(meta@, seq![advice0, advice1, advice2, advice3, advice4, advice5]));
        let configured = CollatzChip::configure(
            meta,
            advice0,
            advice1,
            advice2,
            advice3,
            advice4,
            advice5,
        );
        configured.unwrap()
    }

    /// Builds the circuit from nothing: its constraint system and, laid out
    /// in an empty witness, its sequence. Fails where the sequence cannot be
    /// laid out. What is built satisfies the three gates.
    pub fn build(&self) -> (r: Result<(ConstraintSystem, Layouter), Error>)
        ensures
            r is Ok <==> sequence_failure(self.initial_value@, self.nrows as nat) is None,
            r matches Err(e) ==> Some(e) == sequence_failure(
                self.initial_value@,
                self.nrows as nat,
            ),
            r matches Ok(built) ==> {
                &&& built.0@ == (ConstraintSystemView {
                    num_advice: 6,
                    num_selectors: 3,
                    equality: circuit_config(0, 0).columns(),
                    gates: collatz_gates(circuit_config(0, 0)),
                    ..ConstraintSystemView::empty()
                })
                &&& built.1@.instance == Seq::<Seq<nat>>::empty()
                &&& built.1@.ops == collatz_ops(
                    circuit_config(0, 0),
                    self.initial_value@,
                    self.nrows as nat,
                    self.nrows as nat,
                )
                &&& satisfied(built.0@, built.1@)
            },
    {
        let mut system = ConstraintSystem::new();
        let config = Self::configure(&mut system);
        assert(system@.equality =~= config.columns());
        assert(system@.gates =~= collatz_gates(config));
        let created = Layouter::new(&system, Vec::new());
        let mut witness = created.unwrap();
        assert(witness@.instance =~= Seq::<Seq<nat>>::empty());
        proof {
            let columns = config.columns();
            assert(columns[0] == config.advice0 && columns[1] == config.advice1 && columns[2]
                == config.advice2 && columns[3] == config.advice3 && columns[4] == config.advice4
                && columns[5] == config.advice5);
            assert(config_fits(witness@, config));
        }
        self.synthesize(config, &mut witness)?;
        proof {
            let steps = collatz_ops(
                config,
                self.initial_value@,
                self.nrows as nat,
                self.nrows as nat,
            );
            assert(Seq::<OpView>::empty() + steps =~= steps);
            lemma_witness_satisfies(
                system@,
                witness@,
                config,
                self.initial_value@,
                self.nrows as nat,
            );
        }
        Ok((system, witness))
    }

    /// Lays out the circuit's sequence with a chip for `config`.
    pub fn synthesize(&self, config: CollatzConfig, layouter: &mut Layouter) -> (r: Result<
        (),
        Error,
    >)
        ensures
            r is Ok <==> assign_failure(
                old(layouter)@,
                config,
                self.initial_value@,
                self.nrows as nat,
            ) is None,
            r matches Err(e) ==> Some(e) == assign_failure(
                old(layouter)@,
                config,
                self.initial_value@,
                self.nrows as nat,
            ) && final(layouter)@ == old(layouter)@,
            r is Ok ==> final(layouter)@ == old(layouter)@.with_ops(
                collatz_ops(config, self.initial_value@, self.nrows as nat, self.nrows as nat),
            ),
    {
        let chip = CollatzChip::construct(config);
        chip.assign(layouter, self.initial_value, self.nrows)?;

        Ok(())
    }
}

/// The weights query no column.
proof fn lemma_weight_columns(j: nat, advice: nat, fixed: nat, instance: nat)
    ensures
        weight_poly(j).columns_within(advice, fixed, instance),
    decreases j,
{
    reveal_with_fuel(Poly::columns_within, 2);
    if j > 0 {
        lemma_weight_columns((j - 1) as nat, advice, fixed, instance);
    }
}

/// A row's value queries only the row's columns.
proof fn lemma_row_value_columns(
    columns: Seq<Column>,
    at: Rotation,
    j: nat,
    advice: nat,
    fixed: nat,
    instance: nat,
)
    requires
        j <= columns.len(),
        forall|k: int|
            0 <= k < columns.len() ==> Poly::query(#[trigger] columns[k], at).columns_within(
                advice,
                fixed,
                instance,
            ),
    ensures
        row_value_poly(columns, at, j).columns_within(advice, fixed, instance),
    decreases j,
{
    reveal_with_fuel(Poly::columns_within, 3);
    if j > 0 {
        lemma_row_value_columns(columns, at, (j - 1) as nat, advice, fixed, instance);
        lemma_weight_columns((j - 1) as nat, advice, fixed, instance);
        assert(Poly::query(columns[columns.len() - j], at).columns_within(
            advice,
            fixed,
            instance,
        ));
    }
}

/// The sequence rule queries only the row's columns.
proof fn lemma_rule_columns(columns: Seq<Column>, advice: nat, fixed: nat, instance: nat)
    requires
        columns.len() > 0,
        forall|k: int|
            0 <= k < columns.len() ==> (#[trigger] columns[k]).kind == ColumnKind::Advice
                && columns[k].index < advice,
    ensures
        sequence_rule_poly(columns).columns_within(advice, fixed, instance),
{
    lemma_row_value_columns(columns, Rotation::Cur, columns.len(), advice, fixed, instance);
    lemma_row_value_columns(columns, Rotation::Next, columns.len(), advice, fixed, instance);
    let lsb = Poly::query(columns[columns.len() - 1], Rotation::Cur);
    assert(lsb.columns_within(advice, fixed, instance));
    reveal_with_fuel(Poly::columns_within, 6);
}

} // verus!

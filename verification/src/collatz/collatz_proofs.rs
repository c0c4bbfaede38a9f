//! What the six-bit witness holds, cell by cell; that its rows spell the
//! Collatz sequence down to one; and that it satisfies the three gates.

use crate::circuit::{
    LayouterView, OpView, lemma_written_append, lemma_written_last, lemma_written_nowhere,
    written,
};
use crate::collatz::collatz::{
    CollatzConfig, bit, boolean_poly, boolean_polys, collatz_gates, collatz_next, collatz_ops,
    collatz_value, fits_width, overflows_within, row_ops, row_value_poly, sequence_failure,
    sequence_rule_poly, shifted, unit_row_polys, weight_poly,
};
use crate::dev::{
    gate_holds, lemma_eval_minus, lemma_eval_plus, lemma_eval_times, op_holds, satisfied,
    selector_holds,
};
use crate::field::{fadd, fmul, fneg, lemma_cancel, lemma_fsub, lemma_small, modulus};
use crate::plonk::{Column, ColumnKind, ConstraintSystemView, Poly, Rotation};
use vstd::prelude::*;

verus! {

/// Whether the six columns of `config` are advice columns that differ from
/// each other, and its three selectors differ from each other.
pub open spec fn distinct(config: CollatzConfig) -> bool {
    &&& config.advice0.kind == ColumnKind::Advice
    &&& config.advice1.kind == ColumnKind::Advice
    &&& config.advice2.kind == ColumnKind::Advice
    &&& config.advice3.kind == ColumnKind::Advice
    &&& config.advice4.kind == ColumnKind::Advice
    &&& config.advice5.kind == ColumnKind::Advice
    &&& config.advice0 != config.advice1
    &&& config.advice0 != config.advice2
    &&& config.advice0 != config.advice3
    &&& config.advice0 != config.advice4
    &&& config.advice0 != config.advice5
    &&& config.advice1 != config.advice2
    &&& config.advice1 != config.advice3
    &&& config.advice1 != config.advice4
    &&& config.advice1 != config.advice5
    &&& config.advice2 != config.advice3
    &&& config.advice2 != config.advice4
    &&& config.advice2 != config.advice5
    &&& config.advice3 != config.advice4
    &&& config.advice3 != config.advice5
    &&& config.advice4 != config.advice5
    &&& config.s_all_rows != config.s_last_row
    &&& config.s_all_rows != config.s_non_last_row
    &&& config.s_last_row != config.s_non_last_row
}

/// The integer Collatz step: half of an even number, three times an odd one
/// plus one.
pub open spec fn collatz_step(v: nat) -> nat {
    if v % 2 == 0 {
        v / 2
    } else {
        3 * v + 1
    }
}

/// The weight of the `j`-th binary digit: two to the `j`.
pub open spec fn weight(j: nat) -> nat
    decreases j,
{
    if j == 0 {
        1
    } else {
        2 * weight((j - 1) as nat)
    }
}

/// The number spelled by the `j` lowest binary digits of `v`.
pub open spec fn low_value(v: nat, j: nat) -> nat
    decreases j,
{
    if j == 0 {
        0
    } else {
        low_value(v, (j - 1) as nat) + bit(v, (j - 1) as nat) * weight((j - 1) as nat)
    }
}

/// Six binary digits spell every number below 64.
pub proof fn lemma_six_bits_spell(v: nat)
    requires
        fits_width(v),
    ensures
        low_value(v, 6) == v,
{
    let s1 = shifted(v, 1);
    let s2 = shifted(v, 2);
    let s3 = shifted(v, 3);
    let s4 = shifted(v, 4);
    let s5 = shifted(v, 5);
    let s6 = shifted(v, 6);
    assert(shifted(v, 0) == v);
    assert(s1 == v / 2 && s2 == s1 / 2 && s3 == s2 / 2 && s4 == s3 / 2 && s5 == s4 / 2 && s6 == s5
        / 2) by {
        reveal_with_fuel(shifted, 2);
    }
    assert(s6 == 0);
    assert(v == bit(v, 0) + 2 * s1);
    assert(s1 == bit(v, 1) + 2 * s2);
    assert(s2 == bit(v, 2) + 2 * s3);
    assert(s3 == bit(v, 3) + 2 * s4);
    assert(s4 == bit(v, 4) + 2 * s5);
    assert(s5 == bit(v, 5) + 2 * s6);
    lemma_weights();
    assert(low_value(v, 0) == 0);
    assert(low_value(v, 1) == bit(v, 0));
    assert(low_value(v, 2) == low_value(v, 1) + bit(v, 1) * 2);
    assert(low_value(v, 3) == low_value(v, 2) + bit(v, 2) * 4);
    assert(low_value(v, 4) == low_value(v, 3) + bit(v, 3) * 8);
    assert(low_value(v, 5) == low_value(v, 4) + bit(v, 4) * 16);
    assert(low_value(v, 6) == low_value(v, 5) + bit(v, 5) * 32);
}

/// The first weights.
pub proof fn lemma_weights()
    ensures
        weight(0) == 1,
        weight(1) == 2,
        weight(2) == 4,
        weight(3) == 8,
        weight(4) == 16,
        weight(5) == 32,
        weight(6) == 64,
{
    reveal_with_fuel(weight, 8);
}

/// No weight up to the sixth is above 64.
pub proof fn lemma_weight_bound(j: nat)
    requires
        j <= 6,
    ensures
        weight(j) <= 64,
{
    lemma_weights();
    if j == 0 {
    } else if j == 1 {
    } else if j == 2 {
    } else if j == 3 {
    } else if j == 4 {
    } else if j == 5 {
    } else {
        assert(j == 6);
    }
}

/// The binary digits of the number one.
pub proof fn lemma_bits_of_one(j: nat)
    requires
        j < 6,
    ensures
        bit(1, j) == if j == 0 {
            1nat
        } else {
            0nat
        },
{
    reveal_with_fuel(shifted, 7);
}

/// On a value that fits a row, the field's step is the integer step.
pub proof fn lemma_step_is_integer(v: nat)
    requires
        fits_width(v),
    ensures
        collatz_next(v) == collatz_step(v),
{
    if v % 2 != 0 {
        lemma_small(3, v);
        lemma_small(3 * v, 1);
    }
}

/// What the steps of one row leave in the `i`-th column: on that row the
/// binary digit of weight `2^(5 - i)` of the row's value.
pub proof fn lemma_row_cells(
    config: CollatzConfig,
    nrows: nat,
    last: nat,
    value: nat,
    instance: Seq<Seq<nat>>,
    i: int,
    row: int,
)
    requires
        distinct(config),
        last <= usize::MAX,
        0 <= i < 6,
    ensures
        written(row_ops(config, nrows, last, value), instance, config.columns()[i], row) == if row
            == last {
            Some(bit(value, (5 - i) as nat))
        } else {
            None
        },
{
    let steps = row_ops(config, nrows, last, value);
    let column = config.columns()[i];
    if row != last {
        lemma_written_nowhere(steps, instance, column, row);
    } else if i == 0 {
        lemma_written_last(steps, instance, column, row, 7);
    } else if i == 1 {
        lemma_written_last(steps, instance, column, row, 6);
    } else if i == 2 {
        lemma_written_last(steps, instance, column, row, 5);
    } else if i == 3 {
        lemma_written_last(steps, instance, column, row, 4);
    } else if i == 4 {
        lemma_written_last(steps, instance, column, row, 3);
    } else {
        lemma_written_last(steps, instance, column, row, 2);
    }
}

/// What the steps of the first `rows` rows leave in the `i`-th column: on
/// each such row the binary digit of weight `2^(5 - i)` of the row's value.
pub proof fn lemma_rows_cells(
    config: CollatzConfig,
    initial: nat,
    nrows: nat,
    rows: nat,
    instance: Seq<Seq<nat>>,
    i: int,
    row: int,
)
    requires
        distinct(config),
        rows <= usize::MAX + 1,
        0 <= i < 6,
    ensures
        written(collatz_ops(config, initial, nrows, rows), instance, config.columns()[i], row)
            == if 0 <= row < rows {
            Some(bit(collatz_value(initial, row as nat), (5 - i) as nat))
        } else {
            None
        },
    decreases rows,
{
    if rows > 0 {
        let last = (rows - 1) as nat;
        let before = collatz_ops(config, initial, nrows, last);
        let value = collatz_value(initial, last);
        let steps = row_ops(config, nrows, last, value);
        lemma_rows_cells(config, initial, nrows, last, instance, i, row);
        lemma_written_append(before, steps, instance, config.columns()[i], row);
        lemma_row_cells(config, nrows, last, value, instance, i, row);
    }
}

/// After the chip has laid out the sequence, whatever the witness held
/// before, the `i`-th cell of every row holds a binary digit of the row's
/// value, which is zero or one.
pub proof fn lemma_cells_are_bits(
    start: LayouterView,
    config: CollatzConfig,
    initial: nat,
    nrows: nat,
    i: int,
    row: int,
)
    requires
        distinct(config),
        nrows <= usize::MAX + 1,
        0 <= i < 6,
        0 <= row < nrows,
    ensures
        start.with_ops(collatz_ops(config, initial, nrows, nrows)).cell(config.columns()[i], row)
            == Some(bit(collatz_value(initial, row as nat), (5 - i) as nat)),
        bit(collatz_value(initial, row as nat), (5 - i) as nat) == 0 || bit(
            collatz_value(initial, row as nat),
            (5 - i) as nat,
        ) == 1,
{
    let steps = collatz_ops(config, initial, nrows, nrows);
    lemma_rows_cells(config, initial, nrows, nrows, start.instance, i, row);
    lemma_written_append(start.ops, steps, start.instance, config.columns()[i], row);
}

/// The number that the six cells of `row` spell, the first column the most
/// significant; zero where a cell holds nothing.
pub open spec fn row_number(witness: LayouterView, config: CollatzConfig, row: int) -> nat {
    cell_or_zero(witness, config.advice0, row) * 32 + cell_or_zero(witness, config.advice1, row)
        * 16 + cell_or_zero(witness, config.advice2, row) * 8 + cell_or_zero(
        witness,
        config.advice3,
        row,
    ) * 4 + cell_or_zero(witness, config.advice4, row) * 2 + cell_or_zero(
        witness,
        config.advice5,
        row,
    )
}

/// The value of a cell, or zero if it holds nothing.
pub open spec fn cell_or_zero(witness: LayouterView, column: Column, row: int) -> nat {
    match witness.cell(column, row) {
        Some(value) => value,
        None => 0,
    }
}

/// Where the chip lays out a sequence, the rows spell the Collatz sequence
/// from the initial value: every row spells its value, every row but the
/// last is followed by the half of an even value or by three times an odd
/// one plus one, and the last row spells the number one.
pub proof fn lemma_rows_follow_collatz(
    start: LayouterView,
    config: CollatzConfig,
    initial: nat,
    nrows: nat,
    row: int,
)
    requires
        distinct(config),
        nrows <= usize::MAX + 1,
        sequence_failure(initial, nrows) is None,
        0 <= row < nrows,
    ensures
        ({
            let witness = start.with_ops(collatz_ops(config, initial, nrows, nrows));
            &&& row_number(witness, config, row) == collatz_value(initial, row as nat)
            &&& row + 1 < nrows ==> row_number(witness, config, row + 1) == collatz_step(
                row_number(witness, config, row),
            )
            &&& row_number(witness, config, nrows - 1) == 1
        }),
{
    lemma_row_spells(start, config, initial, nrows, row);
    lemma_row_spells(start, config, initial, nrows, nrows - 1);
    if row + 1 < nrows {
        lemma_row_spells(start, config, initial, nrows, row + 1);
        assert(fits_width(collatz_value(initial, row as nat)));
        lemma_step_is_integer(collatz_value(initial, row as nat));
        assert(collatz_value(initial, (row + 1) as nat) == collatz_next(
            collatz_value(initial, row as nat),
        ));
    }
}

/// Every row spells its value.
proof fn lemma_row_spells(
    start: LayouterView,
    config: CollatzConfig,
    initial: nat,
    nrows: nat,
    row: int,
)
    requires
        distinct(config),
        nrows <= usize::MAX + 1,
        !overflows_within(initial, nrows),
        0 <= row < nrows,
    ensures
        row_number(
            start.with_ops(collatz_ops(config, initial, nrows, nrows)),
            config,
            row,
        ) == collatz_value(initial, row as nat),
{
    let value = collatz_value(initial, row as nat);
    assert(fits_width(collatz_value(initial, row as nat)));
    lemma_cells_are_bits(start, config, initial, nrows, 0, row);
    lemma_cells_are_bits(start, config, initial, nrows, 1, row);
    lemma_cells_are_bits(start, config, initial, nrows, 2, row);
    lemma_cells_are_bits(start, config, initial, nrows, 3, row);
    lemma_cells_are_bits(start, config, initial, nrows, 4, row);
    lemma_cells_are_bits(start, config, initial, nrows, 5, row);
    assert(config.columns()[0] == config.advice0);
    assert(config.columns()[1] == config.advice1);
    assert(config.columns()[2] == config.advice2);
    assert(config.columns()[3] == config.advice3);
    assert(config.columns()[4] == config.advice4);
    assert(config.columns()[5] == config.advice5);
    lemma_six_bits_spell(value);
    reveal_with_fuel(weight, 7);
    reveal_with_fuel(low_value, 7);
}

/// The weights of the sequence rule take the values of the weights.
pub proof fn lemma_weight_eval(j: nat, witness: LayouterView, row: int)
    requires
        j <= 6,
    ensures
        weight_poly(j).eval(witness, row) == Some(weight(j)),
    decreases j,
{
    if j > 0 {
        lemma_weight_bound((j - 1) as nat);
        lemma_weight_eval((j - 1) as nat, witness, row);
        lemma_eval_times(weight_poly((j - 1) as nat), Poly::constant(2), witness, row);
        lemma_small(weight((j - 1) as nat), 2);
    }
}

/// The number spelled by the `j` lowest digits is below their weight.
pub proof fn lemma_low_value_bound(v: nat, j: nat)
    requires
        j <= 6,
    ensures
        low_value(v, j) < weight(j),
    decreases j,
{
    if j > 0 {
        lemma_low_value_bound(v, (j - 1) as nat);
        let b = bit(v, (j - 1) as nat);
        let w = weight((j - 1) as nat);
        assert(b * w <= w) by (nonlinear_arith)
            requires
                b <= 1,
        ;
    }
}

/// Over cells that hold the binary digits of `v`, the polynomial of a row's
/// value takes the number spelled by the digits reached so far.
pub proof fn lemma_row_value_eval(
    columns: Seq<Column>,
    at: Rotation,
    j: nat,
    witness: LayouterView,
    row: int,
    v: nat,
)
    requires
        columns.len() == 6,
        j <= 6,
        forall|i: int|
            0 <= i < 6 ==> witness.cell(#[trigger] columns[i], row + at.offset()) == Some(
                bit(v, (5 - i) as nat),
            ),
    ensures
        row_value_poly(columns, at, j).eval(witness, row) == Some(low_value(v, j)),
    decreases j,
{
    if j > 0 {
        let before = (j - 1) as nat;
        lemma_row_value_eval(columns, at, before, witness, row, v);
        lemma_weight_eval(before, witness, row);
        lemma_weight_bound(before);
        lemma_low_value_bound(v, before);
        let digit = Poly::query(columns[6 - j], at);
        let b = bit(v, before);
        let w = weight(before);
        assert(digit.eval(witness, row) == Some(b));
        lemma_eval_times(digit, weight_poly(before), witness, row);
        assert(b * w <= w) by (nonlinear_arith)
            requires
                b <= 1,
        ;
        lemma_small(b, w);
        lemma_eval_plus(
            row_value_poly(columns, at, before),
            digit.times(weight_poly(before)),
            witness,
            row,
        );
        lemma_small(low_value(v, before), b * w);
    }
}

/// A cell that holds zero or one passes the test for bits.
pub proof fn lemma_boolean_holds(witness: LayouterView, column: Column, row: int, b: nat)
    requires
        witness.cell(column, row) == Some(b),
        b == 0 || b == 1,
    ensures
        boolean_poly(column).eval(witness, row) == Some(0nat),
{
    let q = Poly::query(column, Rotation::Cur);
    let one = Poly::constant(1);
    assert(q.eval(witness, row) == Some(b));
    assert(one.eval(witness, row) == Some(1nat));
    lemma_eval_minus(one, q, witness, row);
    lemma_eval_times(q, one.minus(q), witness, row);
    lemma_small(1, 0);
    lemma_cancel(1);
    assert(fmul(b, fadd(1, fneg(b))) == 0) by {
        if b == 0 {
            assert(0 * fadd(1, fneg(b)) == 0);
        } else {
            assert(1 * 0 == 0);
        }
    }
}

/// Whether `b` is within reach of the proof that the test for bits tells
/// bits from other values: its product with its predecessor, or that of its
/// negative with its successor, stays below the modulus.
pub open spec fn within_reach(b: nat) -> bool {
    b < modulus() && (b == 0 || b * (b - 1) < modulus() || (modulus() - b) * (modulus() - b + 1)
        < modulus())
}

/// Every value below two to the 127, and every value less than that below
/// the modulus, is within reach.
pub proof fn lemma_within_reach(b: nat)
    requires
        b < modulus(),
        b < 0x8000_0000_0000_0000_0000_0000_0000_0000 || modulus() - b
            < 0x7fff_ffff_ffff_ffff_ffff_ffff_ffff_ffff,
    ensures
        within_reach(b),
{
    let k: int = 0x8000_0000_0000_0000_0000_0000_0000_0000;
    assert(k * k < modulus());
    if b >= 1 && b < k {
        assert(b * (b - 1) < k * k) by (nonlinear_arith)
            requires
                1 <= b < k,
        ;
    } else if b >= 1 {
        let c = modulus() - b;
        assert(c * (c + 1) < k * k) by (nonlinear_arith)
            requires
                1 <= c < k - 1,
        ;
    }
}

/// The value of the test for bits on `b`: `b * (1 - b)` in the field.
pub open spec fn bit_test(b: nat) -> nat {
    fmul(b, fadd(1, fneg(b)))
}

/// Among the values within reach, the test for bits vanishes on zero and one
/// only.
pub proof fn lemma_bit_test(b: nat)
    requires
        within_reach(b),
    ensures
        bit_test(b) == 0 <==> b == 0 || b == 1,
{
    let p = modulus() as int;
    lemma_small(1, 0);
    lemma_cancel(1);
    if b == 0 {
        assert(0 * fadd(1, fneg(b)) == 0);
    } else if b == 1 {
        assert(1 * 0 == 0);
    } else {
        lemma_fsub(0, b);
        let c = p - b;
        assert(fneg(b) == c);
        if b * (b - 1) < modulus() {
            let m = b * (b - 1);
            assert(m > 0) by (nonlinear_arith)
                requires
                    b >= 2,
                    m == b * (b - 1),
            ;
            vstd::arithmetic::div_mod::lemma_small_mod((1 + c) as nat, modulus());
            assert(fadd(1, fneg(b)) == 1 + c);
            assert(b * (1 + c) == p * (b - 1) + (p - m)) by (nonlinear_arith)
                requires
                    c == p - b,
                    m == b * (b - 1),
            ;
            vstd::arithmetic::div_mod::lemma_mod_multiples_vanish(b - 1, p - m, p);
            vstd::arithmetic::div_mod::lemma_small_mod((p - m) as nat, modulus());
        } else {
            let m = c * (c + 1);
            assert(1 + c <= m) by (nonlinear_arith)
                requires
                    c >= 1,
                    m == c * (c + 1),
            ;
            vstd::arithmetic::div_mod::lemma_small_mod((1 + c) as nat, modulus());
            assert(fadd(1, fneg(b)) == 1 + c);
            assert(b * (1 + c) == p * c + (p - m)) by (nonlinear_arith)
                requires
                    c == p - b,
                    m == c * (c + 1),
            ;
            vstd::arithmetic::div_mod::lemma_mod_multiples_vanish(c, p - m, p);
            vstd::arithmetic::div_mod::lemma_small_mod((p - m) as nat, modulus());
        }
    }
}

/// On a cell that holds a value within reach, the polynomial of the bits
/// gate vanishes exactly when the value is zero or one. For the values out
/// of reach this needs the modulus to be prime, which is not proved here.
pub proof fn lemma_boolean_only_on_bits(
    witness: LayouterView,
    column: Column,
    row: int,
    b: nat,
)
    requires
        witness.cell(column, row) == Some(b),
        within_reach(b),
    ensures
        boolean_poly(column).eval(witness, row) == Some(0nat) <==> b == 0 || b == 1,
{
    let q = Poly::query(column, Rotation::Cur);
    let one = Poly::constant(1);
    assert(q.eval(witness, row) == Some(b));
    assert(one.eval(witness, row) == Some(1nat));
    lemma_eval_minus(one, q, witness, row);
    lemma_eval_times(q, one.minus(q), witness, row);
    lemma_bit_test(b);
}

/// The sequence rule holds between a row that spells `v` and a next row that
/// spells the successor of `v`, where both fit a row.
pub proof fn lemma_rule_holds(witness: LayouterView, config: CollatzConfig, row: int, v: nat)
    requires
        fits_width(v),
        fits_width(collatz_next(v)),
        forall|i: int|
            0 <= i < 6 ==> witness.cell(#[trigger] config.columns()[i], row) == Some(
                bit(v, (5 - i) as nat),
            ),
        forall|i: int|
            0 <= i < 6 ==> witness.cell(#[trigger] config.columns()[i], row + 1) == Some(
                bit(collatz_next(v), (5 - i) as nat),
            ),
    ensures
        sequence_rule_poly(config.columns()).eval(witness, row) == Some(0nat),
{
    let columns = config.columns();
    let next = collatz_next(v);
    let low = bit(v, 0);
    lemma_row_value_eval(columns, Rotation::Cur, 6, witness, row, v);
    lemma_row_value_eval(columns, Rotation::Next, 6, witness, row, next);
    lemma_six_bits_spell(v);
    lemma_six_bits_spell(next);
    let lsb = Poly::query(columns[columns.len() - 1], Rotation::Cur);
    let cur = row_value_poly(columns, Rotation::Cur, columns.len());
    let nxt = row_value_poly(columns, Rotation::Next, columns.len());
    let one = Poly::constant(1);
    let two = Poly::constant(2);
    let three = Poly::constant(3);
    assert(witness.cell(columns[5], row) == Some(low));
    assert(lsb.eval(witness, row) == Some(low));
    assert(cur.eval(witness, row) == Some(v));
    assert(nxt.eval(witness, row) == Some(next));
    assert(one.eval(witness, row) == Some(1nat));
    assert(two.eval(witness, row) == Some(2nat));
    assert(three.eval(witness, row) == Some(3nat));

    // lsb * ((3 * cur + 1) - next)
    let tripled = three.times(cur);
    lemma_eval_times(three, cur, witness, row);
    let next_if_odd = tripled.plus(one);
    lemma_eval_plus(tripled, one, witness, row);
    let growing = next_if_odd.minus(nxt);
    lemma_eval_minus(next_if_odd, nxt, witness, row);
    let left = lsb.times(growing);
    lemma_eval_times(lsb, growing, witness, row);

    // (1 - lsb) * (cur - 2 * next)
    let doubled = two.times(nxt);
    lemma_eval_times(two, nxt, witness, row);
    let halving = cur.minus(doubled);
    lemma_eval_minus(cur, doubled, witness, row);
    let even = one.minus(lsb);
    lemma_eval_minus(one, lsb, witness, row);
    let right = even.times(halving);
    lemma_eval_times(even, halving, witness, row);

    lemma_eval_plus(left, right, witness, row);
    assert(sequence_rule_poly(columns) == left.plus(right));

    let growing_value = fadd(fadd(fmul(3, v), 1), fneg(next));
    let halving_value = fadd(v, fneg(fmul(2, next)));
    assert(left.eval(witness, row) == Some(fmul(low, growing_value)));
    assert(right.eval(witness, row) == Some(fmul(fadd(1, fneg(low)), halving_value)));
    assert(low == v % 2) by {
        reveal_with_fuel(shifted, 1);
    }
    lemma_small(0, 0);
    lemma_small(1, 0);
    lemma_cancel(1);
    if v % 2 == 0 {
        assert(2 * next == v);
        lemma_small(2, next);
        lemma_cancel(v);
        assert(halving_value == 0);
        assert(0 * growing_value == 0);
        assert(fmul(low, growing_value) == 0);
        assert(fadd(1, fneg(low)) == 1);
        assert(fmul(fadd(1, fneg(low)), halving_value) == 0);
    } else {
        lemma_cancel(next);
        assert(growing_value == 0);
        assert(fmul(low, growing_value) == 0);
        assert(fadd(1, fneg(low)) == 0);
        assert(0 * halving_value == 0);
        assert(fmul(fadd(1, fneg(low)), halving_value) == 0);
    }
}

/// Whether `op` is one of the steps that fill the first `rows` of `nrows`
/// rows: a value written, or one of the three selectors turned on at a row
/// where it belongs.
pub open spec fn is_row_step(op: OpView, config: CollatzConfig, nrows: nat, rows: nat) -> bool {
    match op {
        OpView::Assign { .. } => true,
        OpView::EnableSelector { selector, row } => row < rows && (selector == config.s_all_rows
            || (selector == config.s_non_last_row && row + 1 < nrows) || (selector
            == config.s_last_row && row + 1 >= nrows)),
        _ => false,
    }
}

/// The steps of the rows are of those forms.
pub proof fn lemma_row_steps(config: CollatzConfig, initial: nat, nrows: nat, rows: nat, k: int)
    requires
        0 <= k < collatz_ops(config, initial, nrows, rows).len(),
    ensures
        is_row_step(collatz_ops(config, initial, nrows, rows)[k], config, nrows, rows),
    decreases rows,
{
    if rows > 0 {
        let before = collatz_ops(config, initial, nrows, (rows - 1) as nat);
        if k < before.len() {
            lemma_row_steps(config, initial, nrows, (rows - 1) as nat, k);
        }
    }
}

/// The witness that the chip lays out into an empty witness satisfies the
/// three gates.
pub proof fn lemma_witness_satisfies(
    system: ConstraintSystemView,
    witness: LayouterView,
    config: CollatzConfig,
    initial: nat,
    nrows: nat,
)
    requires
        distinct(config),
        nrows <= usize::MAX,
        sequence_failure(initial, nrows) is None,
        system.gates == collatz_gates(config),
        witness.ops == collatz_ops(config, initial, nrows, nrows),
    ensures
        satisfied(system, witness),
{
    let columns = config.columns();
    let empty = LayouterView { ops: Seq::empty(), ..witness };
    assert(witness == empty.with_ops(collatz_ops(config, initial, nrows, nrows))) by {
        assert(Seq::<OpView>::empty() + witness.ops =~= witness.ops);
    }
    assert forall|r: int, i: int| 0 <= r < nrows && 0 <= i < 6 implies witness.cell(
        #[trigger] columns[i],
        r,
    ) == Some(#[trigger] bit(collatz_value(initial, r as nat), (5 - i) as nat)) by {
        lemma_cells_are_bits(empty, config, initial, nrows, i, r);
    }
    assert forall|k: int| 0 <= k < witness.ops.len() implies op_holds(
        system,
        witness,
        #[trigger] witness.ops[k],
    ) by {
        let op = witness.ops[k];
        lemma_row_steps(config, initial, nrows, nrows, k);
        if op is EnableSelector {
            let row = op->EnableSelector_row;
            let selector = op->EnableSelector_selector;
            let v = collatz_value(initial, row);
            assert(fits_width(collatz_value(initial, row)));
            if selector == config.s_all_rows {
                assert forall|i: int| 0 <= i < 6 implies (#[trigger] boolean_polys(columns)[i])
                    .eval(witness, row as int) == Some(0nat) by {
                    lemma_cells_are_bits(empty, config, initial, nrows, i, row as int);
                    lemma_boolean_holds(witness, columns[i], row as int, bit(v, (5 - i) as nat));
                }
                assert(gate_holds(system.gates[0], witness, row as int));
            } else if selector == config.s_last_row {
                assert(v == 1);
                assert forall|i: int| 0 <= i < 6 implies (#[trigger] unit_row_polys(columns)[i])
                    .eval(witness, row as int) == Some(0nat) by {
                    lemma_bits_of_one((5 - i) as nat);
                    let q = Poly::query(columns[i], Rotation::Cur);
                    assert(q.eval(witness, row as int) == Some(bit(v, (5 - i) as nat)));
                    if i == 5 {
                        lemma_eval_minus(Poly::constant(1), q, witness, row as int);
                        lemma_cancel(1);
                    }
                }
                assert(gate_holds(system.gates[1], witness, row as int));
            } else {
                assert(fits_width(collatz_value(initial, (row + 1) as nat)));
                assert(collatz_value(initial, (row + 1) as nat) == collatz_next(v));
                lemma_rule_holds(witness, config, row as int, v);
                assert(gate_holds(system.gates[2], witness, row as int));
            }
            assert(selector_holds(system, witness, selector, row as int));
        }
    }
}

} // verus!

//! What the one-column witness holds, cell by cell, and that it satisfies
//! the sequence rule.

use crate::circuit::{
    LayouterView, OpView, lemma_written_append, lemma_written_last, lemma_written_nowhere,
    written,
};
use crate::collatz::collatz::{collatz_next, collatz_value};
use crate::collatz::collatz_one_column::{
    CollatzConfig, circuit_ops, collatz_gates, even_flag, head_ops, row_ops, rows_ops,
    selector_ops, sequence_rule_poly,
};
use crate::dev::{
    lemma_eval_minus, lemma_eval_plus, lemma_eval_times, op_holds, satisfied, selector_holds,
};
use crate::field::{fadd, fmul, fneg, lemma_cancel, lemma_fsub, lemma_small, modulus};
use crate::plonk::{ColumnKind, ConstraintSystemView, Poly, Rotation};
use vstd::prelude::*;

verus! {

/// Whether the columns of `config` are of their kinds and differ from each
/// other.
pub open spec fn distinct(config: CollatzConfig) -> bool {
    &&& config.instance.kind == ColumnKind::Instance
    &&& config.element.kind == ColumnKind::Advice
    &&& config.is_even.kind == ColumnKind::Advice
    &&& config.element != config.is_even
}

/// Every value of the sequence is a field element.
pub proof fn lemma_value_in_field(initial: nat, row: nat)
    requires
        initial < modulus(),
    ensures
        collatz_value(initial, row) < modulus(),
    decreases row,
{
    if row > 0 {
        lemma_value_in_field(initial, (row - 1) as nat);
    }
}

/// What the steps of the rows from 1 up to `rows` leave in the two columns:
/// on each such row the value and its flag.
pub proof fn lemma_rows_cells(
    config: CollatzConfig,
    initial: nat,
    nrows: nat,
    rows: nat,
    instance: Seq<Seq<nat>>,
    row: int,
)
    requires
        distinct(config),
        rows <= usize::MAX + 1,
    ensures
        written(rows_ops(config, initial, nrows, rows), instance, config.element, row) == if 1
            <= row < rows {
            Some(collatz_value(initial, row as nat))
        } else {
            None
        },
        written(rows_ops(config, initial, nrows, rows), instance, config.is_even, row) == if 1
            <= row < rows {
            Some(even_flag(collatz_value(initial, row as nat)))
        } else {
            None
        },
    decreases rows,
{
    if rows > 1 {
        let last = (rows - 1) as nat;
        let before = rows_ops(config, initial, nrows, last);
        let steps = row_ops(config, nrows, last, collatz_value(initial, last));
        let marks = selector_ops(config, nrows, last);
        lemma_rows_cells(config, initial, nrows, last, instance, row);
        lemma_written_append(before, steps, instance, config.element, row);
        lemma_written_append(before, steps, instance, config.is_even, row);
        if row == last {
            lemma_written_last(steps, instance, config.element, row, marks.len() as int);
            lemma_written_last(steps, instance, config.is_even, row, marks.len() as int + 1);
        } else {
            lemma_written_nowhere(steps, instance, config.element, row);
            lemma_written_nowhere(steps, instance, config.is_even, row);
        }
    }
}

/// What the table holds once the circuit is synthesized into an empty
/// witness: the first public input and then the sequence in one column, the
/// flags in the other.
pub proof fn lemma_cells(
    witness: LayouterView,
    config: CollatzConfig,
    initial: nat,
    nrows: nat,
    row: int,
)
    requires
        distinct(config),
        1 <= nrows <= usize::MAX,
        witness.ops == circuit_ops(config, initial, nrows),
        0 <= row <= usize::MAX,
    ensures
        witness.cell(config.element, row) == if row == 0 {
            Some(witness.public_input(config.instance, 0))
        } else if row < nrows {
            Some(collatz_value(initial, row as nat))
        } else {
            None
        },
        witness.cell(config.is_even, row) == if row < nrows {
            Some(even_flag(collatz_value(initial, row as nat)))
        } else {
            None
        },
{
    let head = head_ops(config, initial, nrows);
    let rows = rows_ops(config, initial, nrows, nrows);
    let marks = selector_ops(config, nrows, 0);
    let instance = witness.instance;
    let binding = seq![circuit_ops(config, initial, nrows).last()];
    assert(witness.ops =~= (head + rows) + binding);
    lemma_rows_cells(config, initial, nrows, nrows, instance, row);

    lemma_written_nowhere(binding, instance, config.element, row);
    lemma_written_append(head + rows, binding, instance, config.element, row);
    lemma_written_append(head, rows, instance, config.element, row);
    lemma_written_nowhere(binding, instance, config.is_even, row);
    lemma_written_append(head + rows, binding, instance, config.is_even, row);
    lemma_written_append(head, rows, instance, config.is_even, row);
    if row == 0 {
        lemma_written_last(head, instance, config.element, row, marks.len() as int + 1);
        lemma_written_last(head, instance, config.is_even, row, marks.len() as int);
    } else {
        lemma_written_nowhere(head, instance, config.element, row);
        lemma_written_nowhere(head, instance, config.is_even, row);
    }
}

/// Whether `op` is one of the steps that fill the rows: a value written, or
/// the selector turned on at a row that has a successor.
pub open spec fn is_row_step(op: OpView, config: CollatzConfig, nrows: nat) -> bool {
    match op {
        OpView::Assign { .. } => true,
        OpView::EnableSelector { selector, row } => selector == config.selector && row + 1
            < nrows,
        _ => false,
    }
}

/// The steps of the rows after the first are of those two forms.
pub proof fn lemma_row_steps(config: CollatzConfig, initial: nat, nrows: nat, rows: nat, k: int)
    requires
        0 <= k < rows_ops(config, initial, nrows, rows).len(),
    ensures
        is_row_step(rows_ops(config, initial, nrows, rows)[k], config, nrows),
    decreases rows,
{
    if rows > 1 {
        let before = rows_ops(config, initial, nrows, (rows - 1) as nat);
        if k < before.len() {
            lemma_row_steps(config, initial, nrows, (rows - 1) as nat, k);
        }
    }
}

/// The value of the sequence rule over a row that holds `cur` with the flag
/// `flag` and is followed by `next`.
pub open spec fn rule_value(cur: nat, next: nat, flag: nat) -> nat {
    fadd(
        fmul(flag, fadd(cur, fneg(fmul(2, next)))),
        fmul(fadd(1, fneg(flag)), fadd(fadd(fmul(3, cur), 1), fneg(next))),
    )
}

/// The sequence rule takes that value.
pub proof fn lemma_rule_eval(
    witness: LayouterView,
    config: CollatzConfig,
    row: int,
    cur: nat,
    next: nat,
    flag: nat,
)
    requires
        witness.cell(config.element, row) == Some(cur),
        witness.cell(config.element, row + 1) == Some(next),
        witness.cell(config.is_even, row) == Some(flag),
    ensures
        sequence_rule_poly(config).eval(witness, row) == Some(rule_value(cur, next, flag)),
{
    let curr_el = Poly::query(config.element, Rotation::Cur);
    let next_el = Poly::query(config.element, Rotation::Next);
    let even = Poly::query(config.is_even, Rotation::Cur);
    let one = Poly::constant(1);
    let two = Poly::constant(2);
    let three = Poly::constant(3);
    assert(curr_el.eval(witness, row) == Some(cur));
    assert(next_el.eval(witness, row) == Some(next));
    assert(even.eval(witness, row) == Some(flag));
    assert(one.eval(witness, row) == Some(1nat));
    assert(two.eval(witness, row) == Some(2nat));
    assert(three.eval(witness, row) == Some(3nat));

    // flag * (cur - 2 * next)
    let doubled = two.times(next_el);
    lemma_eval_times(two, next_el, witness, row);
    let halving = curr_el.minus(doubled);
    lemma_eval_minus(curr_el, doubled, witness, row);
    let left = even.times(halving);
    lemma_eval_times(even, halving, witness, row);

    // (1 - flag) * ((3 * cur + 1) - next)
    let tripled = three.times(curr_el);
    lemma_eval_times(three, curr_el, witness, row);
    let next_if_odd = tripled.plus(one);
    lemma_eval_plus(tripled, one, witness, row);
    let growing = next_if_odd.minus(next_el);
    lemma_eval_minus(next_if_odd, next_el, witness, row);
    let odd = one.minus(even);
    lemma_eval_minus(one, even, witness, row);
    let right = odd.times(growing);
    lemma_eval_times(odd, growing, witness, row);

    lemma_eval_plus(left, right, witness, row);
    assert(sequence_rule_poly(config) == left.plus(right));
}

/// Two field elements whose difference is zero are the same.
pub proof fn lemma_difference_zero(a: nat, b: nat)
    requires
        a < modulus(),
        b < modulus(),
    ensures
        fadd(a, fneg(b)) == 0 <==> a == b,
{
    lemma_fsub(0, b);
    if a == b {
        lemma_cancel(a);
    } else if b == 0 {
        vstd::arithmetic::div_mod::lemma_small_mod(a, modulus());
    } else {
        let sum = a + modulus() - b;
        if a > b {
            assert(sum == modulus() * 1 + (a - b));
            vstd::arithmetic::div_mod::lemma_mod_multiples_vanish(1, a - b, modulus() as int);
            vstd::arithmetic::div_mod::lemma_small_mod((a - b) as nat, modulus());
        } else {
            vstd::arithmetic::div_mod::lemma_small_mod(sum as nat, modulus());
        }
    }
}

/// Three times a number plus one, in the field, tells numbers apart.
pub proof fn lemma_tripling_is_injective(a: nat, b: nat)
    requires
        a < modulus(),
        b < modulus(),
        fadd(fmul(3, a), 1) == fadd(fmul(3, b), 1),
    ensures
        a == b,
{
    let p = modulus() as int;
    let x: int = (3 * a + 1) as int;
    let y: int = (3 * b + 1) as int;
    vstd::arithmetic::div_mod::lemma_add_mod_noop((3 * a) as int, 1, p);
    vstd::arithmetic::div_mod::lemma_add_mod_noop((3 * b) as int, 1, p);
    vstd::arithmetic::div_mod::lemma_small_mod(1, modulus());
    assert(x % p == y % p);
    vstd::arithmetic::div_mod::lemma_fundamental_div_mod(x, p);
    vstd::arithmetic::div_mod::lemma_fundamental_div_mod(y, p);
    let k = x / p - y / p;
    assert(x - y == p * k) by (nonlinear_arith)
        requires
            x == p * (x / p) + x % p,
            y == p * (y / p) + y % p,
            x % p == y % p,
            k == x / p - y / p,
    ;
    assert(-3 < k < 3) by (nonlinear_arith)
        requires
            x - y == p * k,
            -3 * p < x - y < 3 * p,
            p > 0,
    ;
    assert(p % 3 == 1);
    assert(3 * (a - b) == p * k);
    if k == 1 || k == -1 {
        assert((3 * (a - b)) % 3 == 0);
    } else if k == 2 || k == -2 {
        assert((3 * (a - b)) % 3 == 0);
    }
}

/// Over a row that holds `cur`, with the flag and the successor of `value`,
/// the sequence rule vanishes exactly when `cur` is `value`.
pub proof fn lemma_rule_tells_values_apart(cur: nat, value: nat)
    requires
        cur < modulus(),
        value < modulus(),
    ensures
        rule_value(cur, collatz_next(value), even_flag(value)) == 0 <==> cur == value,
{
    let next = collatz_next(value);
    let flag = even_flag(value);
    let halving = fadd(cur, fneg(fmul(2, next)));
    let growing = fadd(fadd(fmul(3, cur), 1), fneg(next));
    lemma_small(0, 0);
    lemma_small(1, 0);
    lemma_cancel(1);
    if value % 2 == 0 {
        assert(2 * next == value);
        lemma_small(2, next);
        lemma_difference_zero(cur, value);
        assert(1 * halving == halving);
        lemma_small(1, halving);
        assert(fmul(flag, halving) == halving);
        assert(0 * growing == 0);
        assert(fmul(fadd(1, fneg(flag)), growing) == 0);
        lemma_small(halving, 0);
    } else {
        assert(0 * halving == 0);
        assert(fmul(flag, halving) == 0);
        assert(fadd(1, fneg(flag)) == 1);
        assert(1 * growing == growing);
        lemma_small(1, growing);
        lemma_small(0, growing);
        lemma_difference_zero(fadd(fmul(3, cur), 1), next);
        if fadd(fmul(3, cur), 1) == next {
            lemma_tripling_is_injective(cur, value);
        }
    }
}

/// The sequence rule holds between a value and its successor, with the
/// value's own flag.
pub proof fn lemma_rule_holds(witness: LayouterView, config: CollatzConfig, row: int, value: nat)
    requires
        value < modulus(),
        witness.cell(config.element, row) == Some(value),
        witness.cell(config.element, row + 1) == Some(collatz_next(value)),
        witness.cell(config.is_even, row) == Some(even_flag(value)),
    ensures
        sequence_rule_poly(config).eval(witness, row) == Some(0nat),
{
    lemma_rule_eval(witness, config, row, value, collatz_next(value), even_flag(value));
    lemma_rule_tells_values_apart(value, value);
}

/// The witness of the circuit satisfies its gate and bindings whenever the
/// sequence ends at one and the public inputs are the initial value and one.
pub proof fn lemma_witness_satisfies(
    system: ConstraintSystemView,
    witness: LayouterView,
    config: CollatzConfig,
    initial: nat,
    nrows: nat,
)
    requires
        distinct(config),
        initial < modulus(),
        1 <= nrows <= usize::MAX,
        collatz_value(initial, (nrows - 1) as nat) == 1,
        system.gates == collatz_gates(config),
        witness.ops == circuit_ops(config, initial, nrows),
        witness.public_input(config.instance, 0) == initial,
        witness.public_input(config.instance, 1) == 1,
    ensures
        satisfied(system, witness),
{
    let head = head_ops(config, initial, nrows);
    let rows = rows_ops(config, initial, nrows, nrows);
    let marks = selector_ops(config, nrows, 0);
    let binding = circuit_ops(config, initial, nrows).last();
    assert(witness.ops =~= (head + rows).push(binding));
    lemma_cells(witness, config, initial, nrows, 0);
    lemma_cells(witness, config, initial, nrows, nrows - 1);
    assert forall|k: int| 0 <= k < witness.ops.len() implies op_holds(
        system,
        witness,
        #[trigger] witness.ops[k],
    ) by {
        let op = witness.ops[k];
        if k < head.len() + rows.len() {
            if k < head.len() {
                assert(op == head[k]);
                if k < marks.len() {
                    assert(op == marks[k]);
                }
            } else {
                assert(op == rows[k - head.len()]);
                lemma_row_steps(config, initial, nrows, nrows, k - head.len());
            }
            if op is EnableSelector {
                let row = op->EnableSelector_row;
                assert(op->EnableSelector_selector == config.selector && row + 1 < nrows);
                let value = collatz_value(initial, row);
                lemma_value_in_field(initial, row);
                lemma_cells(witness, config, initial, nrows, row as int);
                lemma_cells(witness, config, initial, nrows, row as int + 1);
                assert(collatz_value(initial, row + 1) == collatz_next(value));
                lemma_rule_holds(witness, config, row as int, value);
                assert(selector_holds(system, witness, config.selector, row as int));
            }
        } else {
            assert(op == binding);
        }
    }
}

/// Whatever the public inputs are, a witness of the circuit that satisfies
/// its system has, as its second public input, the value of the last row:
/// the last value of the sequence, or the first public input itself when
/// there is one row only.
pub proof fn lemma_satisfied_binds_last(
    system: ConstraintSystemView,
    witness: LayouterView,
    config: CollatzConfig,
    initial: nat,
    nrows: nat,
)
    requires
        distinct(config),
        1 <= nrows <= usize::MAX,
        witness.ops == circuit_ops(config, initial, nrows),
        satisfied(system, witness),
    ensures
        witness.cell(config.element, 0) == Some(witness.public_input(config.instance, 0)),
        witness.public_input(config.instance, 1) == if nrows == 1 {
            witness.public_input(config.instance, 0)
        } else {
            collatz_value(initial, (nrows - 1) as nat)
        },
{
    lemma_cells(witness, config, initial, nrows, 0);
    lemma_cells(witness, config, initial, nrows, nrows - 1);
    let last = witness.ops.len() - 1;
    assert(witness.ops[last] == circuit_ops(config, initial, nrows).last());
    assert(op_holds(system, witness, witness.ops[last]));
}

/// A witness of the circuit, on two rows or more, that satisfies its system
/// has the initial value as its first public input.
pub proof fn lemma_satisfied_binds_first(
    system: ConstraintSystemView,
    witness: LayouterView,
    config: CollatzConfig,
    initial: nat,
    nrows: nat,
)
    requires
        distinct(config),
        initial < modulus(),
        witness.public_input(config.instance, 0) < modulus(),
        2 <= nrows <= usize::MAX,
        system.gates == collatz_gates(config),
        witness.ops == circuit_ops(config, initial, nrows),
        satisfied(system, witness),
    ensures
        witness.public_input(config.instance, 0) == initial,
{
    let first = witness.public_input(config.instance, 0);
    lemma_cells(witness, config, initial, nrows, 0);
    lemma_cells(witness, config, initial, nrows, 1);
    assert(collatz_value(initial, 0) == initial);
    assert(collatz_value(initial, 1) == collatz_next(initial)) by {
        reveal_with_fuel(collatz_value, 2);
    }
    let marks = selector_ops(config, nrows, 0);
    assert(witness.ops[0] == marks[0]);
    assert(op_holds(system, witness, witness.ops[0]));
    assert(system.gates[0].selector == config.selector);
    assert(system.gates[0].polys[0] == sequence_rule_poly(config));
    assert(sequence_rule_poly(config).eval(witness, 0) == Some(0nat));
    lemma_rule_eval(witness, config, 0, first, collatz_next(initial), even_flag(initial));
    lemma_rule_tells_values_apart(first, initial);
}

/// On one row no gate is on: the witness of the circuit satisfies its
/// system exactly when the two public inputs are the same.
pub proof fn lemma_single_row(
    system: ConstraintSystemView,
    witness: LayouterView,
    config: CollatzConfig,
    initial: nat,
)
    requires
        distinct(config),
        witness.ops == circuit_ops(config, initial, 1),
    ensures
        satisfied(system, witness) <==> witness.public_input(config.instance, 1)
            == witness.public_input(config.instance, 0),
{
    lemma_cells(witness, config, initial, 1, 0);
    assert(rows_ops(config, initial, 1, 1) =~= Seq::<OpView>::empty());
    assert(selector_ops(config, 1, 0) =~= Seq::<OpView>::empty());
    let steps = circuit_ops(config, initial, 1);
    assert(steps.len() == 3);
    if witness.public_input(config.instance, 1) == witness.public_input(config.instance, 0) {
        assert forall|k: int| 0 <= k < witness.ops.len() implies op_holds(
            system,
            witness,
            #[trigger] witness.ops[k],
        ) by {
            if k == 0 {
            } else if k == 1 {
            } else {
                assert(k == 2);
            }
        }
    }
    if satisfied(system, witness) {
        assert(op_holds(system, witness, witness.ops[2]));
    }
}

} // verus!

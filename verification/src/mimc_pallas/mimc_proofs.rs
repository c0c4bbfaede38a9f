//! What the cipher's witness holds, cell by cell, and that it satisfies the
//! cipher's gates.

use crate::circuit::{
    LayouterView, OpView, lemma_written_append, lemma_written_last, lemma_written_nowhere,
    written,
};
use crate::dev::{
    lemma_eval_minus, lemma_eval_plus, lemma_eval_times, op_holds, satisfied, selector_holds,
};
use crate::field::{fpow5, lemma_cancel, modulus};
use crate::mimc_pallas::mimc::{
    MiMC5Config, binding_ops, circuit_ops, head_ops, key_poly, mimc5_gates, post_poly,
    pow_5_poly, round_ops, round_poly, rounds_ops, tail_ops,
};
use crate::mimc_pallas::primitives::{cipher_output, cipher_state};
use crate::plonk::{ColumnKind, ConstraintSystemView, Poly, Rotation};
use vstd::prelude::*;

verus! {

/// Whether the columns of `config` are of their kinds and differ from each
/// other, and so do its selectors.
pub open spec fn distinct(config: MiMC5Config) -> bool {
    &&& config.instance.kind == ColumnKind::Instance
    &&& config.state.kind == ColumnKind::Advice
    &&& config.key_column.kind == ColumnKind::Advice
    &&& config.round_constants.kind == ColumnKind::Fixed
    &&& config.state != config.key_column
    &&& config.s_in_rounds != config.s_post_rounds
}

/// The state is a field element after every round.
pub proof fn lemma_state_in_field(message: nat, key: nat, constants: Seq<nat>, rounds: nat)
    requires
        message < modulus(),
    ensures
        cipher_state(message, key, constants, rounds) < modulus(),
{
}

/// What the steps of the first `rounds` rounds leave in the state column:
/// the state after round `row` on each row from 1 to `rounds`.
pub proof fn lemma_rounds_state(
    config: MiMC5Config,
    message: nat,
    key: nat,
    constants: Seq<nat>,
    rounds: nat,
    instance: Seq<Seq<nat>>,
    row: int,
)
    requires
        distinct(config),
        rounds <= usize::MAX,
    ensures
        written(rounds_ops(config, message, key, constants, rounds), instance, config.state, row)
            == if 1 <= row <= rounds {
            Some(cipher_state(message, key, constants, row as nat))
        } else {
            None
        },
    decreases rounds,
{
    if rounds > 0 {
        let before = rounds_ops(config, message, key, constants, (rounds - 1) as nat);
        let steps = round_ops(config, message, key, constants, rounds);
        lemma_rounds_state(config, message, key, constants, (rounds - 1) as nat, instance, row);
        lemma_written_append(before, steps, instance, config.state, row);
        if row == rounds {
            lemma_written_last(steps, instance, config.state, row, 3);
        } else {
            lemma_written_nowhere(steps, instance, config.state, row);
        }
    }
}

/// What the steps of the first `rounds` rounds leave in the key column: the
/// key on each row from 1 to `rounds`.
pub proof fn lemma_rounds_key(
    config: MiMC5Config,
    message: nat,
    key: nat,
    constants: Seq<nat>,
    rounds: nat,
    instance: Seq<Seq<nat>>,
    row: int,
)
    requires
        distinct(config),
        rounds <= usize::MAX,
    ensures
        written(
            rounds_ops(config, message, key, constants, rounds),
            instance,
            config.key_column,
            row,
        ) == if 1 <= row <= rounds {
            Some(key)
        } else {
            None
        },
    decreases rounds,
{
    if rounds > 0 {
        let before = rounds_ops(config, message, key, constants, (rounds - 1) as nat);
        let steps = round_ops(config, message, key, constants, rounds);
        lemma_rounds_key(config, message, key, constants, (rounds - 1) as nat, instance, row);
        lemma_written_append(before, steps, instance, config.key_column, row);
        if row == rounds {
            lemma_written_last(steps, instance, config.key_column, row, 2);
        } else {
            lemma_written_nowhere(steps, instance, config.key_column, row);
        }
    }
}

/// What the steps of the first `rounds` rounds leave in the constants
/// column: the constant of round `row + 1` on each row below `rounds`.
pub proof fn lemma_rounds_constants(
    config: MiMC5Config,
    message: nat,
    key: nat,
    constants: Seq<nat>,
    rounds: nat,
    instance: Seq<Seq<nat>>,
    row: int,
)
    requires
        distinct(config),
        rounds <= usize::MAX,
    ensures
        written(
            rounds_ops(config, message, key, constants, rounds),
            instance,
            config.round_constants,
            row,
        ) == if 0 <= row < rounds {
            Some(constants[row])
        } else {
            None
        },
    decreases rounds,
{
    if rounds > 0 {
        let before = rounds_ops(config, message, key, constants, (rounds - 1) as nat);
        let steps = round_ops(config, message, key, constants, rounds);
        lemma_rounds_constants(config, message, key, constants, (rounds - 1) as nat, instance, row);
        lemma_written_append(before, steps, instance, config.round_constants, row);
        if row == rounds - 1 {
            lemma_written_last(steps, instance, config.round_constants, row, 1);
        } else {
            lemma_written_nowhere(steps, instance, config.round_constants, row);
        }
    }
}

/// The value of the state column on `row` after the cipher's assignment.
pub open spec fn state_cell(
    witness: LayouterView,
    config: MiMC5Config,
    message: nat,
    key: nat,
    constants: Seq<nat>,
    row: int,
) -> Option<nat> {
    if row == 0 {
        Some(witness.public_input(config.instance, 0))
    } else if 1 <= row <= constants.len() {
        Some(cipher_state(message, key, constants, row as nat))
    } else if row == constants.len() + 1 {
        Some(cipher_output(message, key, constants))
    } else {
        None
    }
}

/// What the table holds once the circuit is synthesized into an empty
/// witness: the public message, the states and the output in the state
/// column, the key beside every state but the output, and each constant on
/// the row above its round.
pub proof fn lemma_cells(
    witness: LayouterView,
    config: MiMC5Config,
    message: nat,
    key: nat,
    constants: Seq<nat>,
    row: int,
)
    requires
        distinct(config),
        constants.len() + 1 <= usize::MAX,
        witness.ops == circuit_ops(config, message, key, constants),
        0 <= row <= usize::MAX,
    ensures
        witness.cell(config.state, row) == state_cell(
            witness,
            config,
            message,
            key,
            constants,
            row,
        ),
        witness.cell(config.key_column, row) == if row <= constants.len() {
            Some(key)
        } else {
            None
        },
        witness.cell(config.round_constants, row) == if row < constants.len() {
            Some(constants[row])
        } else {
            None
        },
{
    let n = constants.len();
    let head = head_ops(config, key, n);
    let rounds = rounds_ops(config, message, key, constants, n);
    let tail = tail_ops(config, message, key, constants);
    let bindings = binding_ops(config, n);
    let instance = witness.instance;
    assert(witness.ops == ((head + rounds) + tail) + bindings);

    lemma_rounds_state(config, message, key, constants, n, instance, row);
    lemma_rounds_key(config, message, key, constants, n, instance, row);
    lemma_rounds_constants(config, message, key, constants, n, instance, row);

    // the state column
    lemma_written_nowhere(bindings, instance, config.state, row);
    lemma_written_append((head + rounds) + tail, bindings, instance, config.state, row);
    lemma_written_append(head + rounds, tail, instance, config.state, row);
    lemma_written_append(head, rounds, instance, config.state, row);
    if row == n + 1 {
        lemma_written_last(tail, instance, config.state, row, 0);
    } else {
        lemma_written_nowhere(tail, instance, config.state, row);
    }
    if row == 0 {
        lemma_written_last(head, instance, config.state, row, 1);
    } else {
        lemma_written_nowhere(head, instance, config.state, row);
    }

    // the key column
    lemma_written_nowhere(bindings, instance, config.key_column, row);
    lemma_written_append((head + rounds) + tail, bindings, instance, config.key_column, row);
    lemma_written_nowhere(tail, instance, config.key_column, row);
    lemma_written_append(head + rounds, tail, instance, config.key_column, row);
    lemma_written_append(head, rounds, instance, config.key_column, row);
    if row == 0 {
        lemma_written_last(head, instance, config.key_column, row, 2);
    } else {
        lemma_written_nowhere(head, instance, config.key_column, row);
    }

    // the constants column
    lemma_written_nowhere(bindings, instance, config.round_constants, row);
    lemma_written_append((head + rounds) + tail, bindings, instance, config.round_constants, row);
    lemma_written_nowhere(tail, instance, config.round_constants, row);
    lemma_written_append(head + rounds, tail, instance, config.round_constants, row);
    lemma_written_append(head, rounds, instance, config.round_constants, row);
    lemma_written_nowhere(head, instance, config.round_constants, row);
}

/// Whether `op` is one of the steps of the first `rounds` rounds: a value
/// written, or the rounds' selector turned on at one of their rows.
pub open spec fn is_round_step(op: OpView, config: MiMC5Config, rounds: nat) -> bool {
    match op {
        OpView::Assign { .. } => true,
        OpView::EnableSelector { selector, row } => selector == config.s_in_rounds && 1 <= row
            <= rounds,
        _ => false,
    }
}

/// The steps of the rounds are of those two forms.
pub proof fn lemma_round_steps(
    config: MiMC5Config,
    message: nat,
    key: nat,
    constants: Seq<nat>,
    rounds: nat,
    k: int,
)
    requires
        0 <= k < rounds_ops(config, message, key, constants, rounds).len(),
    ensures
        is_round_step(rounds_ops(config, message, key, constants, rounds)[k], config, rounds),
    decreases rounds,
{
    if rounds > 0 {
        let before = rounds_ops(config, message, key, constants, (rounds - 1) as nat);
        if k < before.len() {
            lemma_round_steps(config, message, key, constants, (rounds - 1) as nat, k);
        }
    }
}

/// The rounds' gate holds on the row of every round.
pub proof fn lemma_round_gate_holds(
    witness: LayouterView,
    config: MiMC5Config,
    message: nat,
    key: nat,
    constants: Seq<nat>,
    row: int,
)
    requires
        distinct(config),
        message < modulus(),
        key < modulus(),
        constants.len() + 1 <= usize::MAX,
        witness.ops == circuit_ops(config, message, key, constants),
        witness.public_input(config.instance, 0) == message,
        1 <= row <= constants.len(),
    ensures
        round_poly(config).eval(witness, row) == Some(0nat),
        key_poly(config).eval(witness, row) == Some(0nat),
{
    lemma_cells(witness, config, message, key, constants, row);
    lemma_cells(witness, config, message, key, constants, row - 1);
    lemma_state_in_field(message, key, constants, row as nat);
    assert(cipher_state(message, key, constants, 0) == message);
    let state = cipher_state(message, key, constants, row as nat);
    let before = cipher_state(message, key, constants, (row - 1) as nat);
    let prev_state = Poly::query(config.state, Rotation::Prev);
    let cur_key = Poly::query(config.key_column, Rotation::Cur);
    let prev_key = Poly::query(config.key_column, Rotation::Prev);
    let rc = Poly::query(config.round_constants, Rotation::Prev);
    let current_state = Poly::query(config.state, Rotation::Cur);
    assert(prev_state.eval(witness, row) == Some(before));
    assert(cur_key.eval(witness, row) == Some(key));
    assert(prev_key.eval(witness, row) == Some(key));
    assert(rc.eval(witness, row) == Some(constants[row - 1]));
    assert(current_state.eval(witness, row) == Some(state));
    let v = prev_state.plus(cur_key).plus(rc);
    lemma_eval_plus(prev_state, cur_key, witness, row);
    lemma_eval_plus(prev_state.plus(cur_key), rc, witness, row);
    lemma_pow_5_eval(v, witness, row);
    assert(pow_5_poly(v).eval(witness, row) == Some(state));
    lemma_eval_minus(current_state, pow_5_poly(v), witness, row);
    lemma_cancel(state);
    lemma_eval_minus(prev_key, cur_key, witness, row);
    lemma_cancel(key);
}

/// The value of a fifth power is the fifth power of the value.
pub proof fn lemma_pow_5_eval(v: Poly, witness: LayouterView, row: int)
    ensures
        pow_5_poly(v).eval(witness, row) == match v.eval(witness, row) {
            Some(x) => Some(fpow5(x)),
            None => None,
        },
{
    lemma_eval_times(v, v, witness, row);
    lemma_eval_times(v.times(v), v, witness, row);
    lemma_eval_times(v.times(v).times(v), v, witness, row);
    lemma_eval_times(v.times(v).times(v).times(v), v, witness, row);
}

/// The post-rounds gate holds on the row of the output.
pub proof fn lemma_post_gate_holds(
    witness: LayouterView,
    config: MiMC5Config,
    message: nat,
    key: nat,
    constants: Seq<nat>,
)
    requires
        distinct(config),
        message < modulus(),
        constants.len() + 1 <= usize::MAX,
        witness.ops == circuit_ops(config, message, key, constants),
        witness.public_input(config.instance, 0) == message,
    ensures
        post_poly(config).eval(witness, (constants.len() + 1) as int) == Some(0nat),
{
    let n = constants.len();
    let output = cipher_output(message, key, constants);
    let last = cipher_state(message, key, constants, n);
    let row: int = (n + 1) as int;
    lemma_cells(witness, config, message, key, constants, (n + 1) as int);
    lemma_cells(witness, config, message, key, constants, n as int);
    lemma_cancel(output);
    assert(cipher_state(message, key, constants, 0) == message);
    let prev_state = Poly::query(config.state, crate::plonk::Rotation::Prev);
    let prev_key = Poly::query(config.key_column, crate::plonk::Rotation::Prev);
    let current_state = Poly::query(config.state, crate::plonk::Rotation::Cur);
    assert(prev_state.eval(witness, row) == Some(last));
    assert(prev_key.eval(witness, row) == Some(key));
    assert(current_state.eval(witness, row) == Some(output));
    lemma_eval_plus(prev_state, prev_key, witness, row);
    lemma_eval_minus(current_state, prev_state.plus(prev_key), witness, row);
}

/// The witness of the circuit satisfies its gates and bindings whenever the
/// public inputs are the message and the cipher's output.
pub proof fn lemma_witness_satisfies(
    system: ConstraintSystemView,
    witness: LayouterView,
    config: MiMC5Config,
    message: nat,
    key: nat,
    constants: Seq<nat>,
)
    requires
        distinct(config),
        message < modulus(),
        key < modulus(),
        constants.len() + 1 <= usize::MAX,
        system.gates == mimc5_gates(config),
        witness.ops == circuit_ops(config, message, key, constants),
        witness.public_input(config.instance, 0) == message,
        witness.public_input(config.instance, 1) == cipher_output(message, key, constants),
    ensures
        satisfied(system, witness),
{
    let n = constants.len();
    let head = head_ops(config, key, n);
    let rounds = rounds_ops(config, message, key, constants, n);
    let tail = tail_ops(config, message, key, constants);
    let bindings = binding_ops(config, n);
    assert(witness.ops == ((head + rounds) + tail) + bindings);
    lemma_cells(witness, config, message, key, constants, 0);
    lemma_cells(witness, config, message, key, constants, (n + 1) as int);
    lemma_post_gate_holds(witness, config, message, key, constants);
    assert forall|k: int| 0 <= k < witness.ops.len() implies op_holds(
        system,
        witness,
        #[trigger] witness.ops[k],
    ) by {
        let op = witness.ops[k];
        if k < head.len() {
            assert(op == head[k]);
            if k == 0 {
                assert(selector_holds(system, witness, config.s_post_rounds, (n + 1) as int));
            }
        } else if k < head.len() + rounds.len() {
            assert(op == rounds[k - head.len()]);
            lemma_round_steps(config, message, key, constants, n, k - head.len());
            if op is EnableSelector {
                let row = op->EnableSelector_row;
                lemma_round_gate_holds(witness, config, message, key, constants, row as int);
                assert(selector_holds(system, witness, config.s_in_rounds, row as int));
            }
        } else if k < head.len() + rounds.len() + tail.len() {
            assert(op == tail[k - head.len() - rounds.len()]);
        } else {
            assert(op == bindings[k - head.len() - rounds.len() - tail.len()]);
        }
    }
}

/// Whatever the public inputs are, a witness of the circuit that satisfies
/// its system has the cipher's output as its second public input: the cell
/// bound to that input holds the output.
pub proof fn lemma_satisfied_binds_output(
    system: ConstraintSystemView,
    witness: LayouterView,
    config: MiMC5Config,
    message: nat,
    key: nat,
    constants: Seq<nat>,
)
    requires
        distinct(config),
        constants.len() + 1 <= usize::MAX,
        witness.ops == circuit_ops(config, message, key, constants),
        satisfied(system, witness),
    ensures
        witness.cell(config.state, 0) == Some(witness.public_input(config.instance, 0)),
        witness.cell(config.state, (constants.len() + 1) as int) == Some(
            cipher_output(message, key, constants),
        ),
        witness.public_input(config.instance, 1) == cipher_output(message, key, constants),
{
    let n = constants.len();
    lemma_cells(witness, config, message, key, constants, 0);
    lemma_cells(witness, config, message, key, constants, (n + 1) as int);
    let last = witness.ops.len() - 1;
    assert(witness.ops[last] == binding_ops(config, n)[1]);
    assert(op_holds(system, witness, witness.ops[last]));
}

} // verus!

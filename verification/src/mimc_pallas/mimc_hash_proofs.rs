//! What the hash's witness holds, cell by cell, and that it satisfies the
//! hash's gate.

use crate::circuit::{
    LayouterView, OpView, lemma_written_append, lemma_written_last, lemma_written_nowhere,
    written,
};
use crate::dev::{lemma_eval_minus, lemma_eval_plus, op_holds, satisfied, selector_holds};
use crate::field::{lemma_cancel, modulus};
use crate::mimc_pallas::mimc::pow_5_poly;
use crate::mimc_pallas::mimc_hash::{
    MiMC5HashConfig, binding_ops, circuit_ops, hash_gates, head_ops, round_ops, round_poly,
    rounds_ops,
};
use crate::mimc_pallas::mimc_proofs::lemma_pow_5_eval;
use crate::mimc_pallas::primitives::{hash_output, hash_state};
use crate::plonk::{ColumnKind, ConstraintSystemView, Poly, Rotation};
use vstd::prelude::*;

verus! {

/// Whether the columns of `config` are of their kinds.
pub open spec fn distinct(config: MiMC5HashConfig) -> bool {
    &&& config.instance.kind == ColumnKind::Instance
    &&& config.state.kind == ColumnKind::Advice
    &&& config.round_constants.kind == ColumnKind::Fixed
}

/// The state is a field element after every round.
pub proof fn lemma_state_in_field(message: nat, constants: Seq<nat>, rounds: nat)
    requires
        message < modulus(),
    ensures
        hash_state(message, constants, rounds) < modulus(),
{
}

/// What the steps of the first `rounds` rounds leave in the state column:
/// the state after round `row` on each row from 1 to `rounds`.
pub proof fn lemma_rounds_state(
    config: MiMC5HashConfig,
    message: nat,
    constants: Seq<nat>,
    rounds: nat,
    instance: Seq<Seq<nat>>,
    row: int,
)
    requires
        distinct(config),
        rounds <= usize::MAX,
    ensures
        written(rounds_ops(config, message, constants, rounds), instance, config.state, row)
            == if 1 <= row <= rounds {
            Some(hash_state(message, constants, row as nat))
        } else {
            None
        },
    decreases rounds,
{
    if rounds > 0 {
        let before = rounds_ops(config, message, constants, (rounds - 1) as nat);
        let steps = round_ops(config, message, constants, rounds);
        lemma_rounds_state(config, message, constants, (rounds - 1) as nat, instance, row);
        lemma_written_append(before, steps, instance, config.state, row);
        if row == rounds {
            lemma_written_last(steps, instance, config.state, row, 2);
        } else {
            lemma_written_nowhere(steps, instance, config.state, row);
        }
    }
}

/// What the steps of the first `rounds` rounds leave in the constants
/// column: the constant of round `row + 1` on each row below `rounds`.
pub proof fn lemma_rounds_constants(
    config: MiMC5HashConfig,
    message: nat,
    constants: Seq<nat>,
    rounds: nat,
    instance: Seq<Seq<nat>>,
    row: int,
)
    requires
        distinct(config),
        rounds <= usize::MAX,
    ensures
        written(
            rounds_ops(config, message, constants, rounds),
            instance,
            config.round_constants,
            row,
        ) == if 0 <= row < rounds {
            Some(constants[row])
        } else {
            None
        },
    decreases rounds,
{
    if rounds > 0 {
        let before = rounds_ops(config, message, constants, (rounds - 1) as nat);
        let steps = round_ops(config, message, constants, rounds);
        lemma_rounds_constants(config, message, constants, (rounds - 1) as nat, instance, row);
        lemma_written_append(before, steps, instance, config.round_constants, row);
        if row == rounds - 1 {
            lemma_written_last(steps, instance, config.round_constants, row, 1);
        } else {
            lemma_written_nowhere(steps, instance, config.round_constants, row);
        }
    }
}

/// What the table holds once the circuit is synthesized into an empty
/// witness: the public message and the states in the state column, and each
/// constant on the row above its round.
pub proof fn lemma_cells(
    witness: LayouterView,
    config: MiMC5HashConfig,
    message: nat,
    constants: Seq<nat>,
    row: int,
)
    requires
        distinct(config),
        constants.len() <= usize::MAX,
        witness.ops == circuit_ops(config, message, constants),
        0 <= row <= usize::MAX,
    ensures
        witness.cell(config.state, row) == if row == 0 {
            Some(witness.public_input(config.instance, 0))
        } else if row <= constants.len() {
            Some(hash_state(message, constants, row as nat))
        } else {
            None
        },
        witness.cell(config.round_constants, row) == if row < constants.len() {
            Some(constants[row])
        } else {
            None
        },
{
    let n = constants.len();
    let head = head_ops(config);
    let rounds = rounds_ops(config, message, constants, n);
    let bindings = binding_ops(config, n);
    let instance = witness.instance;
    assert(witness.ops == (head + rounds) + bindings);

    lemma_rounds_state(config, message, constants, n, instance, row);
    lemma_rounds_constants(config, message, constants, n, instance, row);

    lemma_written_nowhere(bindings, instance, config.state, row);
    lemma_written_append(head + rounds, bindings, instance, config.state, row);
    lemma_written_append(head, rounds, instance, config.state, row);
    if row == 0 {
        lemma_written_last(head, instance, config.state, row, 0);
    } else {
        lemma_written_nowhere(head, instance, config.state, row);
    }

    lemma_written_nowhere(bindings, instance, config.round_constants, row);
    lemma_written_append(head + rounds, bindings, instance, config.round_constants, row);
    lemma_written_append(head, rounds, instance, config.round_constants, row);
    lemma_written_nowhere(head, instance, config.round_constants, row);
}

/// Whether `op` is one of the steps of the first `rounds` rounds: a value
/// written, or the selector turned on at one of their rows.
pub open spec fn is_round_step(op: OpView, config: MiMC5HashConfig, rounds: nat) -> bool {
    match op {
        OpView::Assign { .. } => true,
        OpView::EnableSelector { selector, row } => selector == config.s_in_rounds && 1 <= row
            <= rounds,
        _ => false,
    }
}

/// The steps of the rounds are of those two forms.
pub proof fn lemma_round_steps(
    config: MiMC5HashConfig,
    message: nat,
    constants: Seq<nat>,
    rounds: nat,
    k: int,
)
    requires
        0 <= k < rounds_ops(config, message, constants, rounds).len(),
    ensures
        is_round_step(rounds_ops(config, message, constants, rounds)[k], config, rounds),
    decreases rounds,
{
    if rounds > 0 {
        let before = rounds_ops(config, message, constants, (rounds - 1) as nat);
        if k < before.len() {
            lemma_round_steps(config, message, constants, (rounds - 1) as nat, k);
        }
    }
}

/// Its gate holds on the row of every round.
pub proof fn lemma_round_gate_holds(
    witness: LayouterView,
    config: MiMC5HashConfig,
    message: nat,
    constants: Seq<nat>,
    row: int,
)
    requires
        distinct(config),
        message < modulus(),
        constants.len() <= usize::MAX,
        witness.ops == circuit_ops(config, message, constants),
        witness.public_input(config.instance, 0) == message,
        1 <= row <= constants.len(),
    ensures
        round_poly(config).eval(witness, row) == Some(0nat),
{
    lemma_cells(witness, config, message, constants, row);
    lemma_cells(witness, config, message, constants, row - 1);
    lemma_state_in_field(message, constants, row as nat);
    assert(hash_state(message, constants, 0) == message);
    let state = hash_state(message, constants, row as nat);
    let before = hash_state(message, constants, (row - 1) as nat);
    let prev_state = Poly::query(config.state, Rotation::Prev);
    let rc = Poly::query(config.round_constants, Rotation::Prev);
    let current_state = Poly::query(config.state, Rotation::Cur);
    assert(prev_state.eval(witness, row) == Some(before));
    assert(rc.eval(witness, row) == Some(constants[row - 1]));
    assert(current_state.eval(witness, row) == Some(state));
    let v = prev_state.plus(rc);
    lemma_eval_plus(prev_state, rc, witness, row);
    lemma_pow_5_eval(v, witness, row);
    assert(pow_5_poly(v).eval(witness, row) == Some(state));
    lemma_eval_minus(current_state, pow_5_poly(v), witness, row);
    lemma_cancel(state);
}

/// The value that the cell bound to the second public input holds: the
/// hash, or the first public input itself when there is no round.
pub open spec fn bound_output(
    witness: LayouterView,
    config: MiMC5HashConfig,
    message: nat,
    constants: Seq<nat>,
) -> nat {
    if constants.len() == 0 {
        witness.public_input(config.instance, 0)
    } else {
        hash_output(message, constants)
    }
}

/// The witness of the circuit satisfies its gate and bindings whenever the
/// public inputs are the message and the hash.
pub proof fn lemma_witness_satisfies(
    system: ConstraintSystemView,
    witness: LayouterView,
    config: MiMC5HashConfig,
    message: nat,
    constants: Seq<nat>,
)
    requires
        distinct(config),
        message < modulus(),
        constants.len() <= usize::MAX,
        system.gates == hash_gates(config),
        witness.ops == circuit_ops(config, message, constants),
        witness.public_input(config.instance, 0) == message,
        witness.public_input(config.instance, 1) == hash_output(message, constants),
    ensures
        satisfied(system, witness),
{
    let n = constants.len();
    let head = head_ops(config);
    let rounds = rounds_ops(config, message, constants, n);
    let bindings = binding_ops(config, n);
    assert(witness.ops == (head + rounds) + bindings);
    lemma_cells(witness, config, message, constants, 0);
    lemma_cells(witness, config, message, constants, n as int);
    assert forall|k: int| 0 <= k < witness.ops.len() implies op_holds(
        system,
        witness,
        #[trigger] witness.ops[k],
    ) by {
        let op = witness.ops[k];
        if k < head.len() {
            assert(op == head[k]);
        } else if k < head.len() + rounds.len() {
            assert(op == rounds[k - head.len()]);
            lemma_round_steps(config, message, constants, n, k - head.len());
            if op is EnableSelector {
                let row = op->EnableSelector_row;
                lemma_round_gate_holds(witness, config, message, constants, row as int);
                assert(selector_holds(system, witness, config.s_in_rounds, row as int));
            }
        } else {
            assert(op == bindings[k - head.len() - rounds.len()]);
        }
    }
}

/// Whatever the public inputs are, a witness of the circuit that satisfies
/// its system has the hash as its second public input: the cell bound to
/// that input holds the hash.
pub proof fn lemma_satisfied_binds_output(
    system: ConstraintSystemView,
    witness: LayouterView,
    config: MiMC5HashConfig,
    message: nat,
    constants: Seq<nat>,
)
    requires
        distinct(config),
        constants.len() <= usize::MAX,
        witness.ops == circuit_ops(config, message, constants),
        satisfied(system, witness),
    ensures
        witness.cell(config.state, 0) == Some(witness.public_input(config.instance, 0)),
        witness.cell(config.state, constants.len() as int) == Some(
            bound_output(witness, config, message, constants),
        ),
        witness.public_input(config.instance, 1) == bound_output(
            witness,
            config,
            message,
            constants,
        ),
{
    let n = constants.len();
    lemma_cells(witness, config, message, constants, 0);
    lemma_cells(witness, config, message, constants, n as int);
    let last = witness.ops.len() - 1;
    assert(witness.ops[last] == binding_ops(config, n)[1]);
    assert(op_holds(system, witness, witness.ops[last]));
}

} // verus!

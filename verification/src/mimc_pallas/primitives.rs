//! MiMC5 computed directly in the field.
//!
//! One round maps the state `x` to `(x + key + c)^5`, with `c` the round's
//! constant. The cipher adds the key once more after the last round; the hash
//! has no key at all.

use crate::circuit::values_of;
use crate::field::{Felt, fadd, fpow5, modulus};
use vstd::prelude::*;

verus! {

/// The cipher's state after the first `rounds` rounds.
pub open spec fn cipher_state(message: nat, key: nat, constants: Seq<nat>, rounds: nat) -> nat
    decreases rounds,
{
    if rounds == 0 {
        message
    } else {
        fpow5(
            fadd(
                fadd(cipher_state(message, key, constants, (rounds - 1) as nat), key),
                constants[rounds - 1],
            ),
        )
    }
}

/// The cipher's output: the state after every round, plus the key.
pub open spec fn cipher_output(message: nat, key: nat, constants: Seq<nat>) -> nat {
    fadd(cipher_state(message, key, constants, constants.len()), key)
}

/// The hash's state after the first `rounds` rounds.
pub open spec fn hash_state(message: nat, constants: Seq<nat>, rounds: nat) -> nat
    decreases rounds,
{
    if rounds == 0 {
        message
    } else {
        fpow5(fadd(hash_state(message, constants, (rounds - 1) as nat), constants[rounds - 1]))
    }
}

/// The hash's output: the state after every round.
pub open spec fn hash_output(message: nat, constants: Seq<nat>) -> nat {
    hash_state(message, constants, constants.len())
}

/// The fifth power of `v`.
pub fn pow_5(v: &Felt) -> (r: Felt)
    ensures
        r@ == fpow5(v@),
{
    v.mul(v).mul(v).mul(v).mul(v)
}

/// Encrypts `message` under `key`, with one round per constant.
pub fn mimc5_encrypt(message: Felt, key: Felt, constants: &Vec<Felt>) -> (r: Felt)
    ensures
        r@ == cipher_output(message@, key@, values_of(constants@)),
{
    let mut state = message;
    let mut i: usize = 0;
    while i < constants.len()
        invariant
            i <= constants.len(),
            state@ == cipher_state(message@, key@, values_of(constants@), i as nat),
        decreases constants.len() - i,
    {
        state = pow_5(&state.add(&key).add(&constants[i]));
        i += 1;
    }
    state.add(&key)
}

/// Hashes `message`, with one round per constant.
pub fn mimc5_hash(message: Felt, constants: &Vec<Felt>) -> (r: Felt)
    ensures
        r@ == hash_output(message@, values_of(constants@)),
{
    let mut state = message;
    let mut i: usize = 0;
    while i < constants.len()
        invariant
            i <= constants.len(),
            state@ == hash_state(message@, values_of(constants@), i as nat),
        decreases constants.len() - i,
    {
        state = pow_5(&state.add(&constants[i]));
        i += 1;
    }
    state
}

/// The hash is the rounds of the cipher under the zero key: with the key
/// fixed to zero no round depends on a key, and without the last addition
/// nothing else does.
pub proof fn lemma_hash_is_unkeyed_cipher(message: nat, constants: Seq<nat>, rounds: nat)
    requires
        message < modulus(),
    ensures
        hash_state(message, constants, rounds) == cipher_state(message, 0, constants, rounds),
        hash_state(message, constants, rounds) < modulus(),
    decreases rounds,
{
    if rounds > 0 {
        lemma_hash_is_unkeyed_cipher(message, constants, (rounds - 1) as nat);
        let previous = hash_state(message, constants, (rounds - 1) as nat);
        vstd::arithmetic::div_mod::lemma_small_mod(previous, modulus());
        assert(fadd(previous, 0) == previous);
    }
}

/// Under the zero key the cipher and the hash give the same output.
pub proof fn lemma_cipher_with_zero_key_is_hash(message: nat, constants: Seq<nat>)
    requires
        message < modulus(),
    ensures
        cipher_output(message, 0, constants) == hash_output(message, constants),
{
    lemma_hash_is_unkeyed_cipher(message, constants, constants.len());
    vstd::arithmetic::div_mod::lemma_small_mod(
        hash_state(message, constants, constants.len()),
        modulus(),
    );
}

} // verus!

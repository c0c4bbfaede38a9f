//! Checking a witness against a constraint system, cell by cell: what the
//! proving backend will check, stated and decided here first.

use crate::circuit::{Cell, Layouter, LayouterView, Op, OpView, value_of};
use crate::error::Error;
use crate::field::{Felt, fadd, fmul, fneg};
use crate::plonk::{
    ConstraintSystem, ConstraintSystemView, Expression, Gate, GateView, Poly, Rotation, Selector,
};
use vstd::prelude::*;

verus! {

impl Poly {
    /// The value of the polynomial on `row` of `witness`, or `None` if it
    /// queries a cell that holds nothing.
    pub open spec fn eval(self, witness: LayouterView, row: int) -> Option<nat>
        decreases self,
    {
        match self {
            Poly::Constant(c) => Some(c),
            Poly::Query(column, at) => witness.cell(column, row + at.offset()),
            Poly::Negated(a) => match a.eval(witness, row) {
                Some(x) => Some(fneg(x)),
                None => None,
            },
            Poly::Sum(a, b) => match (a.eval(witness, row), b.eval(witness, row)) {
                (Some(x), Some(y)) => Some(fadd(x, y)),
                _ => None,
            },
            Poly::Product(a, b) => match (a.eval(witness, row), b.eval(witness, row)) {
                (Some(x), Some(y)) => Some(fmul(x, y)),
                _ => None,
            },
        }
    }
}

/// The value of a sum is the sum of the values.
pub proof fn lemma_eval_plus(a: Poly, b: Poly, witness: LayouterView, row: int)
    ensures
        a.plus(b).eval(witness, row) == match (a.eval(witness, row), b.eval(witness, row)) {
            (Some(x), Some(y)) => Some(fadd(x, y)),
            _ => None,
        },
{
}

/// The value of a difference is the first value plus the negated second.
pub proof fn lemma_eval_minus(a: Poly, b: Poly, witness: LayouterView, row: int)
    ensures
        a.minus(b).eval(witness, row) == match (a.eval(witness, row), b.eval(witness, row)) {
            (Some(x), Some(y)) => Some(fadd(x, fneg(y))),
            _ => None,
        },
{
    reveal_with_fuel(Poly::eval, 2);
}

/// The value of a product is the product of the values.
pub proof fn lemma_eval_times(a: Poly, b: Poly, witness: LayouterView, row: int)
    ensures
        a.times(b).eval(witness, row) == match (a.eval(witness, row), b.eval(witness, row)) {
            (Some(x), Some(y)) => Some(fmul(x, y)),
            _ => None,
        },
{
}

/// Whether every polynomial of `gate` is defined and zero on `row`.
pub open spec fn gate_holds(gate: GateView, witness: LayouterView, row: int) -> bool {
    forall|i: int|
        0 <= i < gate.polys.len() ==> (#[trigger] gate.polys[i]).eval(witness, row) == Some(0nat)
}

/// Whether every gate bound to `selector` holds on `row`.
pub open spec fn selector_holds(
    system: ConstraintSystemView,
    witness: LayouterView,
    selector: Selector,
    row: int,
) -> bool {
    forall|g: int|
        0 <= g < system.gates.len() && (#[trigger] system.gates[g]).selector == selector
            ==> gate_holds(system.gates[g], witness, row)
}

/// Whether the advice cell `cell` holds the public input at `instance`.
pub open spec fn binding_holds(witness: LayouterView, cell: Cell, instance: Cell) -> bool {
    witness.cell(cell.column, cell.row as int) == Some(
        witness.public_input(instance.column, instance.row as int),
    )
}

/// Whether the two cells hold the same value.
pub open spec fn link_holds(witness: LayouterView, left: Cell, right: Cell) -> bool {
    &&& witness.cell(left.column, left.row as int) is Some
    &&& witness.cell(left.column, left.row as int) == witness.cell(right.column, right.row as int)
}

/// Whether what `op` asks of the finished witness holds: for a selector
/// turned on, its gates on that row; for a binding of two cells, or of a
/// cell and a public input, the equality.
pub open spec fn op_holds(system: ConstraintSystemView, witness: LayouterView, op: OpView) -> bool {
    match op {
        OpView::EnableSelector { selector, row } => selector_holds(
            system,
            witness,
            selector,
            row as int,
        ),
        OpView::Assign { .. } => true,
        OpView::AssignFromInstance { cell, instance } => binding_holds(witness, cell, instance),
        OpView::ConstrainInstance { cell, instance } => binding_holds(witness, cell, instance),
        OpView::ConstrainEqual { left, right } => link_holds(witness, left, right),
    }
}

/// Whether the witness satisfies the system: every gate vanishes wherever
/// its selector is on, every cell bound to a public input equals it, and
/// cells bound to each other are equal.
pub open spec fn satisfied(system: ConstraintSystemView, witness: LayouterView) -> bool {
    forall|k: int| 0 <= k < witness.ops.len() ==> op_holds(system, witness, #[trigger] witness.ops[k])
}

impl Expression {
    /// The value of the expression on `row` of `witness`, or `None` if it
    /// queries a cell that holds nothing.
    pub fn evaluate(&self, witness: &Layouter, row: usize) -> (r: Option<Felt>)
        ensures
            value_of(r) == self@.eval(witness@, row as int),
        decreases self,
    {
        match self {
            Expression::Constant(c) => Some(*c),
            Expression::Query(column, at) => {
                match at {
                    Rotation::Prev => {
                        if row == 0 {
                            None
                        } else {
                            witness.cell(*column, row - 1)
                        }
                    },
                    Rotation::Cur => witness.cell(*column, row),
                    Rotation::Next => {
                        if row == usize::MAX {
                            None
                        } else {
                            witness.cell(*column, row + 1)
                        }
                    },
                }
            },
            Expression::Negated(a) => match a.evaluate(witness, row) {
                Some(x) => Some(x.neg()),
                None => None,
            },
            Expression::Sum(a, b) => match (a.evaluate(witness, row), b.evaluate(witness, row)) {
                (Some(x), Some(y)) => Some(x.add(&y)),
                _ => None,
            },
            Expression::Product(a, b) => match (
                a.evaluate(witness, row),
                b.evaluate(witness, row),
            ) {
                (Some(x), Some(y)) => Some(x.mul(&y)),
                _ => None,
            },
        }
    }
}

impl Gate {
    /// Whether every polynomial of this gate is defined and zero on `row`.
    pub fn holds(&self, witness: &Layouter, row: usize) -> (r: bool)
        ensures
            r == gate_holds(self@, witness@, row as int),
    {
        let mut i: usize = 0;
        while i < self.polys.len()
            invariant
                i <= self.polys.len(),
                forall|j: int|
                    0 <= j < i ==> (#[trigger] self@.polys[j]).eval(witness@, row as int) == Some(
                        0nat,
                    ),
            decreases self.polys.len() - i,
        {
            let zero = match self.polys[i].evaluate(witness, row) {
                Some(x) => x.is_zero(),
                None => false,
            };
            if !zero {
                assert(self@.polys[i as int].eval(witness@, row as int) != Some(0nat));
                return false;
            }
            i += 1;
        }
        true
    }
}

/// Whether every gate of `system` bound to `selector` holds on `row`.
fn check_selector(system: &ConstraintSystem, witness: &Layouter, selector: Selector, row: usize)
    -> (r: bool)
    ensures
        r == selector_holds(system@, witness@, selector, row as int),
{
    let gates = system.gates();
    let mut g: usize = 0;
    while g < gates.len()
        invariant
            g <= gates.len(),
            crate::plonk::gates_of(gates@) == system@.gates,
            forall|h: int|
                0 <= h < g && (#[trigger] system@.gates[h]).selector == selector ==> gate_holds(
                    system@.gates[h],
                    witness@,
                    row as int,
                ),
        decreases gates.len() - g,
    {
        assert(system@.gates[g as int] == gates@[g as int]@);
        if gates[g].selector == selector && !gates[g].holds(witness, row) {
            return false;
        }
        g += 1;
    }
    true
}

/// Whether the advice cell `cell` holds the public input at `instance`.
fn check_binding(witness: &Layouter, cell: Cell, instance: Cell) -> (r: bool)
    ensures
        r == binding_holds(witness@, cell, instance),
{
    let expected = witness.public_input(instance.column, instance.row);
    match witness.cell(cell.column, cell.row) {
        Some(x) => x.equals(&expected),
        None => false,
    }
}

/// Whether the two cells hold the same value.
fn check_link(witness: &Layouter, left: Cell, right: Cell) -> (r: bool)
    ensures
        r == link_holds(witness@, left, right),
{
    match (witness.cell(left.column, left.row), witness.cell(right.column, right.row)) {
        (Some(x), Some(y)) => x.equals(&y),
        _ => false,
    }
}

/// Checks the witness against the system. Fails with
/// [`Error::WitnessInconsistency`] exactly when the witness does not satisfy
/// the system.
pub fn verify(system: &ConstraintSystem, witness: &Layouter) -> (r: Result<(), Error>)
    ensures
        r is Ok <==> satisfied(system@, witness@),
        r matches Err(e) ==> e == Error::WitnessInconsistency,
{
    let ops = witness.ops();
    let mut k: usize = 0;
    while k < ops.len()
        invariant
            k <= ops.len(),
            crate::circuit::ops_of(ops@) == witness@.ops,
            forall|j: int| 0 <= j < k ==> op_holds(system@, witness@, #[trigger] witness@.ops[j]),
        decreases ops.len() - k,
    {
        assert(witness@.ops[k as int] == ops@[k as int]@);
        let holds = match ops[k] {
            Op::EnableSelector { selector, row } => check_selector(system, witness, selector, row),
            Op::Assign { .. } => true,
            Op::AssignFromInstance { cell, instance } => check_binding(witness, cell, instance),
            Op::ConstrainInstance { cell, instance } => check_binding(witness, cell, instance),
            Op::ConstrainEqual { left, right } => check_link(witness, left, right),
        };
        if !holds {
            assert(!op_holds(system@, witness@, witness@.ops[k as int]));
            return Err(Error::WitnessInconsistency);
        }
        k += 1;
    }
    Ok(())
}

} // verus!

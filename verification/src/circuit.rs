//! The witness of one circuit instance: the public inputs and the record of
//! every selector enabled, cell assigned and equality constraint made, in the
//! order in which a chip made them.

use crate::error::Error;
use crate::field::Felt;
use crate::plonk::{Column, ColumnKind, ConstraintSystem, Selector, contains_column};
use vstd::prelude::*;

verus! {

/// A position in the table.
#[derive(Clone, Copy, Debug, PartialEq, Eq, Structural)]
pub struct Cell {
    pub column: Column,
    pub row: usize,
}

/// A cell together with the value that was written to it.
#[derive(Clone, Copy, Debug, PartialEq, Eq)]
pub struct AssignedCell {
    pub cell: Cell,
    pub value: Felt,
}

impl AssignedCell {
    /// Where the value was written.
    pub fn cell(&self) -> (r: Cell)
        ensures
            r == self.cell,
    {
        self.cell
    }

    /// The value that was written.
    pub fn value(&self) -> (r: Felt)
        ensures
            r == self.value,
    {
        self.value
    }
}

/// What an [`Op`] denotes: the same step, with the value as an integer.
pub enum OpView {
    EnableSelector { selector: Selector, row: nat },
    Assign { cell: Cell, value: nat },
    AssignFromInstance { cell: Cell, instance: Cell },
    ConstrainInstance { cell: Cell, instance: Cell },
    ConstrainEqual { left: Cell, right: Cell },
}

/// One step of a witness assignment.
#[derive(Clone, Copy, Debug, PartialEq, Eq)]
pub enum Op {
    /// Turns `selector` on at `row`.
    EnableSelector { selector: Selector, row: usize },
    /// Writes `value` into an advice or fixed cell.
    Assign { cell: Cell, value: Felt },
    /// Writes the public input at `instance` into the advice cell `cell`, and
    /// binds the two to be equal.
    AssignFromInstance { cell: Cell, instance: Cell },
    /// Binds the advice cell `cell` to equal the public input at `instance`.
    ConstrainInstance { cell: Cell, instance: Cell },
    /// Binds two advice cells to be equal.
    ConstrainEqual { left: Cell, right: Cell },
}

impl View for Op {
    type V = OpView;

    open spec fn view(&self) -> OpView {
        match self {
            Op::EnableSelector { selector, row } => OpView::EnableSelector {
                selector: *selector,
                row: *row as nat,
            },
            Op::Assign { cell, value } => OpView::Assign { cell: *cell, value: value@ },
            Op::AssignFromInstance { cell, instance } => OpView::AssignFromInstance {
                cell: *cell,
                instance: *instance,
            },
            Op::ConstrainInstance { cell, instance } => OpView::ConstrainInstance {
                cell: *cell,
                instance: *instance,
            },
            Op::ConstrainEqual { left, right } => OpView::ConstrainEqual {
                left: *left,
                right: *right,
            },
        }
    }
}

/// The steps of a list, in order.
pub open spec fn ops_of(ops: Seq<Op>) -> Seq<OpView> {
    Seq::new(ops.len(), |i: int| ops[i]@)
}

/// The integers of a list of field elements, in order.
pub open spec fn values_of(elements: Seq<Felt>) -> Seq<nat> {
    Seq::new(elements.len(), |i: int| elements[i]@)
}

/// The public inputs, column by column, as integers.
pub open spec fn instance_of(instance: Seq<Vec<Felt>>) -> Seq<Seq<nat>> {
    Seq::new(instance.len(), |i: int| values_of(instance[i]@))
}

/// The public input at `row` of the instance column `column`; zero where
/// the caller supplied none.
pub open spec fn instance_value(instance: Seq<Seq<nat>>, column: int, row: int) -> nat {
    if 0 <= column < instance.len() && 0 <= row < instance[column].len() {
        instance[column][row]
    } else {
        0
    }
}

/// The value that `op` writes into the cell at (`column`, `row`), if it
/// writes there.
pub open spec fn op_writes(op: OpView, instance: Seq<Seq<nat>>, column: Column, row: int) -> Option<
    nat,
> {
    match op {
        OpView::Assign { cell, value } => if cell.column == column && cell.row == row {
            Some(value)
        } else {
            None
        },
        OpView::AssignFromInstance { cell, instance: from } => if cell.column == column
            && cell.row == row {
            Some(instance_value(instance, from.column.index as int, from.row as int))
        } else {
            None
        },
        _ => None,
    }
}

/// The value last written into the cell at (`column`, `row`) by `ops`, or
/// `None` if none of them writes there.
pub open spec fn written(ops: Seq<OpView>, instance: Seq<Seq<nat>>, column: Column, row: int)
    -> Option<nat>
    decreases ops.len(),
{
    if ops.len() == 0 {
        None
    } else {
        match op_writes(ops.last(), instance, column, row) {
            Some(value) => Some(value),
            None => written(ops.drop_last(), instance, column, row),
        }
    }
}

/// Whether one of `ops` turns `selector` on at `row`.
pub open spec fn switched_on(ops: Seq<OpView>, selector: Selector, row: int) -> bool {
    exists|k: int| 0 <= k < ops.len() && op_enables(#[trigger] ops[k], selector, row)
}

/// Whether `op` turns `selector` on at `row`.
pub open spec fn op_enables(op: OpView, selector: Selector, row: int) -> bool {
    row >= 0 && op == (OpView::EnableSelector { selector, row: row as nat })
}

/// A step appended last decides what a cell holds, if it writes there.
pub proof fn lemma_written_push(
    ops: Seq<OpView>,
    op: OpView,
    instance: Seq<Seq<nat>>,
    column: Column,
    row: int,
)
    ensures
        written(ops.push(op), instance, column, row) == match op_writes(
            op,
            instance,
            column,
            row,
        ) {
            Some(value) => Some(value),
            None => written(ops, instance, column, row),
        },
{
    assert(ops.push(op).drop_last() =~= ops);
}

/// Of two lists of steps, the later decides what a cell holds wherever it
/// writes; elsewhere the earlier does.
pub proof fn lemma_written_append(
    first: Seq<OpView>,
    second: Seq<OpView>,
    instance: Seq<Seq<nat>>,
    column: Column,
    row: int,
)
    ensures
        written(first + second, instance, column, row) == match written(
            second,
            instance,
            column,
            row,
        ) {
            Some(value) => Some(value),
            None => written(first, instance, column, row),
        },
    decreases second.len(),
{
    if second.len() == 0 {
        assert(first + second =~= first);
    } else {
        assert((first + second).drop_last() =~= first + second.drop_last());
        lemma_written_append(first, second.drop_last(), instance, column, row);
    }
}

/// A cell that no step writes holds nothing.
pub proof fn lemma_written_nowhere(
    ops: Seq<OpView>,
    instance: Seq<Seq<nat>>,
    column: Column,
    row: int,
)
    requires
        forall|k: int|
            0 <= k < ops.len() ==> op_writes(#[trigger] ops[k], instance, column, row) is None,
    ensures
        written(ops, instance, column, row) is None,
    decreases ops.len(),
{
    if ops.len() > 0 {
        lemma_written_nowhere(ops.drop_last(), instance, column, row);
    }
}

/// A cell holds what the last step that writes it wrote.
pub proof fn lemma_written_last(
    ops: Seq<OpView>,
    instance: Seq<Seq<nat>>,
    column: Column,
    row: int,
    at: int,
)
    requires
        0 <= at < ops.len(),
        op_writes(ops[at], instance, column, row) is Some,
        forall|k: int|
            at < k < ops.len() ==> op_writes(#[trigger] ops[k], instance, column, row) is None,
    ensures
        written(ops, instance, column, row) == op_writes(ops[at], instance, column, row),
    decreases ops.len(),
{
    if at < ops.len() - 1 {
        lemma_written_last(ops.drop_last(), instance, column, row, at);
    }
}

/// A selector is on after two lists of steps exactly when one of them turns
/// it on.
pub proof fn lemma_switched_on_append(
    first: Seq<OpView>,
    second: Seq<OpView>,
    selector: Selector,
    row: int,
)
    ensures
        switched_on(first + second, selector, row) == (switched_on(first, selector, row)
            || switched_on(second, selector, row)),
{
    let both = first + second;
    if switched_on(first, selector, row) {
        let k = choose|k: int| 0 <= k < first.len() && op_enables(#[trigger] first[k], selector, row);
        assert(op_enables(both[k], selector, row));
    }
    if switched_on(second, selector, row) {
        let k = choose|k: int|
            0 <= k < second.len() && op_enables(#[trigger] second[k], selector, row);
        assert(op_enables(both[first.len() + k], selector, row));
    }
    if switched_on(both, selector, row) {
        let k = choose|k: int| 0 <= k < both.len() && op_enables(#[trigger] both[k], selector, row);
        if k < first.len() {
            assert(op_enables(first[k], selector, row));
        } else {
            assert(op_enables(second[k - first.len()], selector, row));
        }
    }
}

/// The integer of an optional field element.
pub open spec fn value_of(element: Option<Felt>) -> Option<nat> {
    match element {
        Some(x) => Some(x@),
        None => None,
    }
}

/// What a [`Layouter`] holds.
pub struct LayouterView {
    pub num_advice: nat,
    pub num_fixed: nat,
    pub num_instance: nat,
    pub num_selectors: nat,
    pub equality: Seq<Column>,
    pub instance: Seq<Seq<nat>>,
    pub ops: Seq<OpView>,
}

impl LayouterView {
    /// Whether `column` is a declared column.
    pub open spec fn has_column(self, column: Column) -> bool {
        match column.kind {
            ColumnKind::Advice => column.index < self.num_advice,
            ColumnKind::Fixed => column.index < self.num_fixed,
            ColumnKind::Instance => column.index < self.num_instance,
        }
    }

    /// Whether `column` is a declared column enabled for equality.
    pub open spec fn can_equate(self, column: Column) -> bool {
        self.has_column(column) && self.equality.contains(column)
    }

    /// Whether an advice cell in `left` can be bound to an advice cell in
    /// `right`.
    pub open spec fn can_link(self, left: Column, right: Column) -> bool {
        &&& left.kind == ColumnKind::Advice
        &&& right.kind == ColumnKind::Advice
        &&& self.can_equate(left)
        &&& self.can_equate(right)
    }

    /// Whether an advice cell in `advice` can be bound to a public input in
    /// `instance`.
    pub open spec fn can_bind(self, advice: Column, instance: Column) -> bool {
        &&& advice.kind == ColumnKind::Advice
        &&& instance.kind == ColumnKind::Instance
        &&& self.can_equate(advice)
        &&& self.can_equate(instance)
    }

    /// Whether `op` names only what the witness has: a declared selector, a
    /// declared advice or fixed column to write to, or an advice and an
    /// instance column that can be bound.
    pub open spec fn op_fits(self, op: OpView) -> bool {
        match op {
            OpView::EnableSelector { selector, .. } => selector.index < self.num_selectors,
            OpView::Assign { cell, .. } => cell.column.kind != ColumnKind::Instance
                && self.has_column(cell.column),
            OpView::AssignFromInstance { cell, instance } => self.can_bind(
                cell.column,
                instance.column,
            ),
            OpView::ConstrainInstance { cell, instance } => self.can_bind(
                cell.column,
                instance.column,
            ),
            OpView::ConstrainEqual { left, right } => self.can_link(left.column, right.column),
        }
    }

    /// Whether the witness has one list of public inputs per instance column
    /// and every step names only what the witness has.
    pub open spec fn well_formed(self) -> bool {
        &&& self.instance.len() == self.num_instance
        &&& forall|k: int| 0 <= k < self.ops.len() ==> self.op_fits(#[trigger] self.ops[k])
    }

    /// The public input at `row` of `column`.
    pub open spec fn public_input(self, column: Column, row: int) -> nat {
        instance_value(self.instance, column.index as int, row)
    }

    /// The value of the cell at (`column`, `row`): for an instance column the
    /// public input, else the value last assigned, if any. There is no cell
    /// outside the rows that an index can name.
    pub open spec fn cell(self, column: Column, row: int) -> Option<nat> {
        if row < 0 || row > usize::MAX {
            None
        } else if column.kind == ColumnKind::Instance {
            Some(self.public_input(column, row))
        } else {
            written(self.ops, self.instance, column, row)
        }
    }

    /// Whether `selector` is on at `row`.
    pub open spec fn enabled(self, selector: Selector, row: int) -> bool {
        switched_on(self.ops, selector, row)
    }

    /// The same witness with `op` as its next step.
    pub open spec fn with_op(self, op: OpView) -> LayouterView {
        LayouterView { ops: self.ops.push(op), ..self }
    }

    /// The same witness with `ops` as its next steps.
    pub open spec fn with_ops(self, ops: Seq<OpView>) -> LayouterView {
        LayouterView { ops: self.ops + ops, ..self }
    }
}

/// The witness of one circuit instance, filled by the chips.
#[derive(Debug)]
pub struct Layouter {
    num_advice: usize,
    num_fixed: usize,
    num_instance: usize,
    num_selectors: usize,
    equality: Vec<Column>,
    instance: Vec<Vec<Felt>>,
    ops: Vec<Op>,
}

impl View for Layouter {
    type V = LayouterView;

    closed spec fn view(&self) -> LayouterView {
        LayouterView {
            num_advice: self.num_advice as nat,
            num_fixed: self.num_fixed as nat,
            num_instance: self.num_instance as nat,
            num_selectors: self.num_selectors as nat,
            equality: self.equality@,
            instance: instance_of(self.instance@),
            ops: ops_of(self.ops@),
        }
    }
}

impl Selector {
    /// Turns the selector on at `row`. Fails with [`Error::Configuration`],
    /// and records nothing, if the selector was never declared.
    pub fn enable(&self, layouter: &mut Layouter, row: usize) -> (r: Result<(), Error>)
        ensures
            r is Ok <==> self.index < old(layouter)@.num_selectors,
            r is Err ==> r == Err::<(), Error>(Error::Configuration) && final(layouter)@ == old(
                layouter,
            )@,
            r is Ok ==> final(layouter)@ == old(layouter)@.with_op(
                OpView::EnableSelector { selector: *self, row: row as nat },
            ),
    {
        if self.index >= layouter.num_selectors {
            return Err(Error::Configuration);
        }
        layouter.record(Op::EnableSelector { selector: *self, row });
        Ok(())
    }
}

impl Layouter {
    #[verifier::type_invariant]
    spec fn inv(self) -> bool {
        self@.well_formed()
    }

    /// Shows that every step names only what the witness has.
    pub fn sound(&self)
        ensures
            self@.well_formed(),
    {
        proof {
            use_type_invariant(self);
        }
    }

    /// An empty witness for a circuit of the shape of `system`, with the
    /// public inputs `instance`, one list per instance column. Fails with
    /// [`Error::Configuration`] unless there is one list per column.
    pub fn new(system: &ConstraintSystem, instance: Vec<Vec<Felt>>) -> (r: Result<
        Layouter,
        Error,
    >)
        ensures
            r is Ok <==> instance.len() == system@.num_instance,
            r matches Err(e) ==> e == Error::Configuration,
            r matches Ok(layouter) ==> layouter@ == (LayouterView {
                num_advice: system@.num_advice,
                num_fixed: system@.num_fixed,
                num_instance: system@.num_instance,
                num_selectors: system@.num_selectors,
                equality: system@.equality,
                instance: instance_of(instance@),
                ops: Seq::empty(),
            }),
    {
        if instance.len() != system.num_instance() {
            return Err(Error::Configuration);
        }
        assert(ops_of(Seq::<Op>::empty()) =~= Seq::<OpView>::empty());
        let layouter = Layouter {
            num_advice: system.num_advice(),
            num_fixed: system.num_fixed(),
            num_instance: system.num_instance(),
            num_selectors: system.num_selectors(),
            equality: system.equality().clone(),
            instance,
            ops: Vec::new(),
        };
        assert(layouter@.ops =~= Seq::empty());
        Ok(layouter)
    }

    fn record(&mut self, op: Op)
        requires
            old(self)@.op_fits(op@),
        ensures
            final(self)@ == old(self)@.with_op(op@),
    {
        let ghost before = self@;
        proof {
            use_type_invariant(&*self);
            assert(ops_of(self.ops@.push(op)) =~= ops_of(self.ops@).push(op@));
            assert(ops_of(Seq::<Op>::empty()) =~= Seq::<OpView>::empty());
        }
        let mut ops: Vec<Op> = Vec::new();
        std::mem::swap(&mut self.ops, &mut ops);
        ops.push(op);
        proof {
            let after = before.with_op(op@);
            assert forall|k: int| 0 <= k < after.ops.len() implies after.op_fits(
                #[trigger] after.ops[k],
            ) by {
                if k < before.ops.len() {
                    assert(before.op_fits(before.ops[k]));
                }
            }
        }
        std::mem::swap(&mut self.ops, &mut ops);
    }

    /// The steps recorded so far, in order.
    pub fn ops(&self) -> (r: &Vec<Op>)
        ensures
            ops_of(r@) == self@.ops,
    {
        &self.ops
    }

    /// The public inputs, one list per instance column.
    pub fn instance(&self) -> (r: &Vec<Vec<Felt>>)
        ensures
            instance_of(r@) == self@.instance,
    {
        &self.instance
    }

    /// The public input at `row` of `column`; zero where none was supplied.
    pub fn public_input(&self, column: Column, row: usize) -> (r: Felt)
        ensures
            r@ == self@.public_input(column, row as int),
    {
        if column.index < self.instance.len() && row < self.instance[column.index].len() {
            self.instance[column.index][row]
        } else {
            Felt::zero()
        }
    }

    /// The value last written into the advice or fixed cell at (`column`,
    /// `row`), if any.
    fn written(&self, column: Column, row: usize) -> (r: Option<Felt>)
        ensures
            value_of(r) == written(self@.ops, self@.instance, column, row as int),
    {
        let ghost ops = self@.ops;
        let ghost instance = self@.instance;
        let mut k: usize = self.ops.len();
        assert(ops.take(k as int) =~= ops);
        while k > 0
            invariant
                k <= self.ops.len(),
                ops == self@.ops,
                instance == self@.instance,
                written(ops, instance, column, row as int) == written(
                    ops.take(k as int),
                    instance,
                    column,
                    row as int,
                ),
            decreases k,
        {
            k -= 1;
            assert(ops.take(k + 1).drop_last() =~= ops.take(k as int));
            assert(ops.take(k + 1).last() == self.ops@[k as int]@);
            match self.ops[k] {
                Op::Assign { cell, value } => {
                    if cell.column == column && cell.row == row {
                        return Some(value);
                    }
                },
                Op::AssignFromInstance { cell, instance: from } => {
                    if cell.column == column && cell.row == row {
                        return Some(self.public_input(from.column, from.row));
                    }
                },
                _ => {},
            }
        }
        None
    }

    /// The value of the cell at (`column`, `row`): for an instance column the
    /// public input, else the value last assigned, if any.
    pub fn cell(&self, column: Column, row: usize) -> (r: Option<Felt>)
        ensures
            value_of(r) == self@.cell(column, row as int),
    {
        match column.kind {
            ColumnKind::Instance => Some(self.public_input(column, row)),
            _ => self.written(column, row),
        }
    }

    /// Whether `column` is declared and enabled for equality.
    pub fn can_equate(&self, column: Column) -> (r: bool)
        ensures
            r == self@.can_equate(column),
    {
        let declared = match column.kind {
            ColumnKind::Advice => column.index < self.num_advice,
            ColumnKind::Fixed => column.index < self.num_fixed,
            ColumnKind::Instance => column.index < self.num_instance,
        };
        declared && contains_column(&self.equality, column)
    }

    /// Whether an advice cell in `advice` can be bound to a public input in
    /// `instance`.
    pub fn can_bind(&self, advice: Column, instance: Column) -> (r: bool)
        ensures
            r == self@.can_bind(advice, instance),
    {
        let kinds = match (advice.kind, instance.kind) {
            (ColumnKind::Advice, ColumnKind::Instance) => true,
            _ => false,
        };
        kinds && self.can_equate(advice) && self.can_equate(instance)
    }

    /// Whether an advice cell in `left` can be bound to an advice cell in
    /// `right`.
    pub fn can_link(&self, left: Column, right: Column) -> (r: bool)
        ensures
            r == self@.can_link(left, right),
    {
        let kinds = match (left.kind, right.kind) {
            (ColumnKind::Advice, ColumnKind::Advice) => true,
            _ => false,
        };
        kinds && self.can_equate(left) && self.can_equate(right)
    }

    /// Whether `column` is a declared advice column.
    pub fn has_advice(&self, column: Column) -> (r: bool)
        ensures
            r == (column.kind == ColumnKind::Advice && self@.has_column(column)),
    {
        match column.kind {
            ColumnKind::Advice => column.index < self.num_advice,
            _ => false,
        }
    }

    /// Whether `column` is a declared fixed column.
    pub fn has_fixed(&self, column: Column) -> (r: bool)
        ensures
            r == (column.kind == ColumnKind::Fixed && self@.has_column(column)),
    {
        match column.kind {
            ColumnKind::Fixed => column.index < self.num_fixed,
            _ => false,
        }
    }

    /// Whether `selector` is declared.
    pub fn has_selector(&self, selector: Selector) -> (r: bool)
        ensures
            r == (selector.index < self@.num_selectors),
    {
        selector.index < self.num_selectors
    }

    /// Writes `value` into the advice cell at (`column`, `row`). Fails with
    /// [`Error::Configuration`], and records nothing, unless `column` is a
    /// declared advice column.
    pub fn assign_advice(&mut self, column: Column, row: usize, value: Felt) -> (r: Result<
        AssignedCell,
        Error,
    >)
        ensures
            r is Ok <==> column.kind == ColumnKind::Advice && old(self)@.has_column(column),
            r matches Err(e) ==> e == Error::Configuration && final(self)@ == old(self)@,
            r matches Ok(assigned) ==> {
                &&& assigned.cell == (Cell { column, row })
                &&& assigned.value == value
                &&& final(self)@ == old(self)@.with_op(
                    OpView::Assign { cell: Cell { column, row }, value: value@ },
                )
            },
    {
        if !self.has_advice(column) {
            return Err(Error::Configuration);
        }
        let cell = Cell { column, row };
        self.record(Op::Assign { cell, value });
        Ok(AssignedCell { cell, value })
    }

    /// Writes `value` into the fixed cell at (`column`, `row`). Fails with
    /// [`Error::Configuration`], and records nothing, unless `column` is a
    /// declared fixed column.
    pub fn assign_fixed(&mut self, column: Column, row: usize, value: Felt) -> (r: Result<
        AssignedCell,
        Error,
    >)
        ensures
            r is Ok <==> column.kind == ColumnKind::Fixed && old(self)@.has_column(column),
            r matches Err(e) ==> e == Error::Configuration && final(self)@ == old(self)@,
            r matches Ok(assigned) ==> {
                &&& assigned.cell == (Cell { column, row })
                &&& assigned.value == value
                &&& final(self)@ == old(self)@.with_op(
                    OpView::Assign { cell: Cell { column, row }, value: value@ },
                )
            },
    {
        if !self.has_fixed(column) {
            return Err(Error::Configuration);
        }
        let cell = Cell { column, row };
        self.record(Op::Assign { cell, value });
        Ok(AssignedCell { cell, value })
    }

    /// Copies the public input at (`instance`, `instance_row`) into the advice
    /// cell at (`advice`, `row`) and binds the two to be equal. Fails with
    /// [`Error::Configuration`], and records nothing, unless both columns are
    /// declared, of the right kind and enabled for equality.
    pub fn assign_advice_from_instance(
        &mut self,
        instance: Column,
        instance_row: usize,
        advice: Column,
        row: usize,
    ) -> (r: Result<AssignedCell, Error>)
        ensures
            r is Ok <==> old(self)@.can_bind(advice, instance),
            r matches Err(e) ==> e == Error::Configuration && final(self)@ == old(self)@,
            r matches Ok(assigned) ==> {
                &&& assigned.cell == (Cell { column: advice, row })
                &&& assigned.value@ == old(self)@.public_input(instance, instance_row as int)
                &&& final(self)@ == old(self)@.with_op(
                    OpView::AssignFromInstance {
                        cell: Cell { column: advice, row },
                        instance: Cell { column: instance, row: instance_row },
                    },
                )
            },
    {
        if !self.can_bind(advice, instance) {
            return Err(Error::Configuration);
        }
        let value = self.public_input(instance, instance_row);
        let cell = Cell { column: advice, row };
        self.record(
            Op::AssignFromInstance { cell, instance: Cell { column: instance, row: instance_row } },
        );
        Ok(AssignedCell { cell, value })
    }

    /// Binds the advice cell `cell` to equal the public input at
    /// (`instance`, `row`). Fails with [`Error::Configuration`], and records
    /// nothing, unless both columns are declared, of the right kind and
    /// enabled for equality.
    pub fn constrain_instance(&mut self, cell: Cell, instance: Column, row: usize) -> (r: Result<
        (),
        Error,
    >)
        ensures
            r is Ok <==> old(self)@.can_bind(cell.column, instance),
            r matches Err(e) ==> e == Error::Configuration && final(self)@ == old(self)@,
            r is Ok ==> final(self)@ == old(self)@.with_op(
                OpView::ConstrainInstance { cell, instance: Cell { column: instance, row } },
            ),
    {
        if !self.can_bind(cell.column, instance) {
            return Err(Error::Configuration);
        }
        self.record(Op::ConstrainInstance { cell, instance: Cell { column: instance, row } });
        Ok(())
    }

    /// Binds the advice cells `left` and `right` to be equal. Fails with
    /// [`Error::Configuration`], and records nothing, unless both columns
    /// are declared advice columns enabled for equality.
    pub fn constrain_equal(&mut self, left: Cell, right: Cell) -> (r: Result<(), Error>)
        ensures
            r is Ok <==> old(self)@.can_link(left.column, right.column),
            r matches Err(e) ==> e == Error::Configuration && final(self)@ == old(self)@,
            r is Ok ==> final(self)@ == old(self)@.with_op(OpView::ConstrainEqual { left, right }),
    {
        if !self.can_link(left.column, right.column) {
            return Err(Error::Configuration);
        }
        self.record(Op::ConstrainEqual { left, right });
        Ok(())
    }
}

} // verus!

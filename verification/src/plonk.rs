//! Columns, selectors, polynomial expressions and gates: the shape of a
//! circuit, fixed before any witness exists.

use crate::error::Error;
use crate::field::Felt;
use vstd::prelude::*;

verus! {

/// What a column holds.
#[derive(Clone, Copy, Debug, PartialEq, Eq, Structural)]
pub enum ColumnKind {
    /// Private values of one proof.
    Advice,
    /// Values that belong to the circuit itself.
    Fixed,
    /// Public inputs.
    Instance,
}

/// A vertical slot of the table: the `index`-th column of its kind.
#[derive(Clone, Copy, Debug, PartialEq, Eq, Structural)]
pub struct Column {
    pub kind: ColumnKind,
    pub index: usize,
}

/// A switch that turns the gates bound to it on, row by row.
#[derive(Clone, Copy, Debug, PartialEq, Eq, Structural)]
pub struct Selector {
    pub index: usize,
}

/// The row that a query reads, relative to the row being constrained.
#[derive(Clone, Copy, Debug, PartialEq, Eq, Structural)]
pub enum Rotation {
    Prev,
    Cur,
    Next,
}

impl Rotation {
    /// The distance, in rows, from the constrained row.
    pub open spec fn offset(self) -> int {
        match self {
            Rotation::Prev => -1,
            Rotation::Cur => 0,
            Rotation::Next => 1,
        }
    }

    /// The row before the constrained row.
    pub fn prev() -> (r: Rotation)
        ensures
            r == Rotation::Prev,
    {
        Rotation::Prev
    }

    /// The constrained row itself.
    pub fn cur() -> (r: Rotation)
        ensures
            r == Rotation::Cur,
    {
        Rotation::Cur
    }

    /// The row after the constrained row.
    pub fn next() -> (r: Rotation)
        ensures
            r == Rotation::Next,
    {
        Rotation::Next
    }
}

/// A polynomial over cell queries, with its constants as integers: what an
/// [`Expression`] denotes.
pub enum Poly {
    Constant(nat),
    Query(Column, Rotation),
    Negated(Box<Poly>),
    Sum(Box<Poly>, Box<Poly>),
    Product(Box<Poly>, Box<Poly>),
}

impl Poly {
    /// The constant `c`.
    pub open spec fn constant(c: nat) -> Poly {
        Poly::Constant(c)
    }

    /// The value of `column`, `at` rows from the constrained row.
    pub open spec fn query(column: Column, at: Rotation) -> Poly {
        Poly::Query(column, at)
    }

    /// `-self`.
    pub open spec fn neg(self) -> Poly {
        Poly::Negated(Box::new(self))
    }

    /// `self + rhs`.
    pub open spec fn plus(self, rhs: Poly) -> Poly {
        Poly::Sum(Box::new(self), Box::new(rhs))
    }

    /// `self - rhs`, held as `self + (-rhs)`.
    pub open spec fn minus(self, rhs: Poly) -> Poly {
        Poly::Sum(Box::new(self), Box::new(Poly::Negated(Box::new(rhs))))
    }

    /// `self * rhs`.
    pub open spec fn times(self, rhs: Poly) -> Poly {
        Poly::Product(Box::new(self), Box::new(rhs))
    }

    /// Whether every column that the polynomial queries has an index below
    /// the count of its kind.
    pub open spec fn columns_within(self, advice: nat, fixed: nat, instance: nat) -> bool
        decreases self,
    {
        match self {
            Poly::Constant(_) => true,
            Poly::Query(column, _) => match column.kind {
                ColumnKind::Advice => column.index < advice,
                ColumnKind::Fixed => column.index < fixed,
                ColumnKind::Instance => column.index < instance,
            },
            Poly::Negated(a) => a.columns_within(advice, fixed, instance),
            Poly::Sum(a, b) => a.columns_within(advice, fixed, instance) && b.columns_within(
                advice,
                fixed,
                instance,
            ),
            Poly::Product(a, b) => a.columns_within(advice, fixed, instance) && b.columns_within(
                advice,
                fixed,
                instance,
            ),
        }
    }
}

impl Poly {
    /// A polynomial that queries no column beyond some counts queries none
    /// beyond larger ones.
    pub proof fn lemma_columns_within_more(
        self,
        advice: nat,
        fixed: nat,
        instance: nat,
        more_advice: nat,
        more_fixed: nat,
        more_instance: nat,
    )
        requires
            self.columns_within(advice, fixed, instance),
            advice <= more_advice,
            fixed <= more_fixed,
            instance <= more_instance,
        ensures
            self.columns_within(more_advice, more_fixed, more_instance),
        decreases self,
    {
        match self {
            Poly::Constant(_) => {},
            Poly::Query(_, _) => {},
            Poly::Negated(a) => {
                a.lemma_columns_within_more(
                    advice,
                    fixed,
                    instance,
                    more_advice,
                    more_fixed,
                    more_instance,
                );
            },
            Poly::Sum(a, b) => {
                a.lemma_columns_within_more(
                    advice,
                    fixed,
                    instance,
                    more_advice,
                    more_fixed,
                    more_instance,
                );
                b.lemma_columns_within_more(
                    advice,
                    fixed,
                    instance,
                    more_advice,
                    more_fixed,
                    more_instance,
                );
            },
            Poly::Product(a, b) => {
                a.lemma_columns_within_more(
                    advice,
                    fixed,
                    instance,
                    more_advice,
                    more_fixed,
                    more_instance,
                );
                b.lemma_columns_within_more(
                    advice,
                    fixed,
                    instance,
                    more_advice,
                    more_fixed,
                    more_instance,
                );
            },
        }
    }
}

/// A polynomial expression over cell queries.
#[derive(Debug, PartialEq, Eq)]
pub enum Expression {
    Constant(Felt),
    Query(Column, Rotation),
    Negated(Box<Expression>),
    Sum(Box<Expression>, Box<Expression>),
    Product(Box<Expression>, Box<Expression>),
}

impl View for Expression {
    type V = Poly;

    open spec fn view(&self) -> Poly
        decreases self,
    {
        match self {
            Expression::Constant(c) => Poly::Constant(c@),
            Expression::Query(column, at) => Poly::Query(*column, *at),
            Expression::Negated(a) => Poly::Negated(Box::new((**a)@)),
            Expression::Sum(a, b) => Poly::Sum(Box::new((**a)@), Box::new((**b)@)),
            Expression::Product(a, b) => Poly::Product(Box::new((**a)@), Box::new((**b)@)),
        }
    }
}

impl Expression {
    /// The constant `c`.
    pub fn constant(c: Felt) -> (r: Expression)
        ensures
            r@ == Poly::constant(c@),
    {
        Expression::Constant(c)
    }

    /// The value of `column`, `at` rows from the constrained row.
    pub fn query(column: Column, at: Rotation) -> (r: Expression)
        ensures
            r@ == Poly::query(column, at),
    {
        Expression::Query(column, at)
    }

    /// `-self`.
    pub fn neg(self) -> (r: Expression)
        ensures
            r@ == self@.neg(),
    {
        Expression::Negated(Box::new(self))
    }

    /// `self + rhs`.
    pub fn plus(self, rhs: Expression) -> (r: Expression)
        ensures
            r@ == self@.plus(rhs@),
    {
        Expression::Sum(Box::new(self), Box::new(rhs))
    }

    /// `self - rhs`, held as `self + (-rhs)`.
    pub fn minus(self, rhs: Expression) -> (r: Expression)
        ensures
            r@ == self@.minus(rhs@),
    {
        self.plus(rhs.neg())
    }

    /// `self * rhs`.
    pub fn times(self, rhs: Expression) -> (r: Expression)
        ensures
            r@ == self@.times(rhs@),
    {
        Expression::Product(Box::new(self), Box::new(rhs))
    }

    /// A copy of the expression.
    pub fn duplicate(&self) -> (r: Expression)
        ensures
            r@ == self@,
        decreases self,
    {
        match self {
            Expression::Constant(c) => Expression::Constant(*c),
            Expression::Query(column, at) => Expression::Query(*column, *at),
            Expression::Negated(a) => Expression::Negated(Box::new(a.duplicate())),
            Expression::Sum(a, b) => Expression::Sum(
                Box::new(a.duplicate()),
                Box::new(b.duplicate()),
            ),
            Expression::Product(a, b) => Expression::Product(
                Box::new(a.duplicate()),
                Box::new(b.duplicate()),
            ),
        }
    }

    /// Whether every queried column has an index below the count of its kind.
    pub fn columns_within(&self, advice: usize, fixed: usize, instance: usize) -> (r: bool)
        ensures
            r == self@.columns_within(advice as nat, fixed as nat, instance as nat),
        decreases self,
    {
        match self {
            Expression::Constant(_) => true,
            Expression::Query(column, _) => match column.kind {
                ColumnKind::Advice => column.index < advice,
                ColumnKind::Fixed => column.index < fixed,
                ColumnKind::Instance => column.index < instance,
            },
            Expression::Negated(a) => a.columns_within(advice, fixed, instance),
            Expression::Sum(a, b) => a.columns_within(advice, fixed, instance) && b.columns_within(
                advice,
                fixed,
                instance,
            ),
            Expression::Product(a, b) => a.columns_within(advice, fixed, instance)
                && b.columns_within(advice, fixed, instance),
        }
    }
}

/// The polynomials of a list of expressions, in order.
pub open spec fn polys_of(exprs: Seq<Expression>) -> Seq<Poly> {
    Seq::new(exprs.len(), |i: int| exprs[i]@)
}

/// Appending an expression appends its polynomial.
pub proof fn lemma_polys_push(exprs: Seq<Expression>, expr: Expression)
    ensures
        polys_of(exprs.push(expr)) == polys_of(exprs).push(expr@),
{
    assert(polys_of(exprs.push(expr)) =~= polys_of(exprs).push(expr@));
}

/// What a [`Gate`] denotes.
pub struct GateView {
    pub name: Seq<char>,
    pub selector: Selector,
    pub polys: Seq<Poly>,
}

/// A named list of polynomials, each of which must vanish on every row where
/// its selector is enabled.
#[derive(Debug, PartialEq, Eq)]
pub struct Gate {
    pub name: &'static str,
    pub selector: Selector,
    pub polys: Vec<Expression>,
}

impl View for Gate {
    type V = GateView;

    open spec fn view(&self) -> GateView {
        GateView { name: self.name@, selector: self.selector, polys: polys_of(self.polys@) }
    }
}

/// The gates of a list, in order.
pub open spec fn gates_of(gates: Seq<Gate>) -> Seq<GateView> {
    Seq::new(gates.len(), |i: int| gates[i]@)
}

/// What a [`ConstraintSystem`] holds.
pub struct ConstraintSystemView {
    pub num_advice: nat,
    pub num_fixed: nat,
    pub num_instance: nat,
    pub num_selectors: nat,
    pub equality: Seq<Column>,
    pub constants: Seq<Column>,
    pub gates: Seq<GateView>,
}

impl ConstraintSystemView {
    /// The system with nothing declared.
    pub open spec fn empty() -> ConstraintSystemView {
        ConstraintSystemView {
            num_advice: 0,
            num_fixed: 0,
            num_instance: 0,
            num_selectors: 0,
            equality: Seq::empty(),
            constants: Seq::empty(),
            gates: Seq::empty(),
        }
    }

    /// Whether `column` has been declared.
    pub open spec fn has_column(self, column: Column) -> bool {
        match column.kind {
            ColumnKind::Advice => column.index < self.num_advice,
            ColumnKind::Fixed => column.index < self.num_fixed,
            ColumnKind::Instance => column.index < self.num_instance,
        }
    }

    /// Whether `selector` has been declared.
    pub open spec fn has_selector(self, selector: Selector) -> bool {
        selector.index < self.num_selectors
    }

    /// Whether the system names only what it has declared: the columns
    /// enabled for equality are declared, those enabled as constants are
    /// declared fixed columns, and every gate could be added again.
    pub open spec fn well_formed(self) -> bool {
        &&& forall|i: int|
            0 <= i < self.equality.len() ==> self.has_column(#[trigger] self.equality[i])
        &&& forall|i: int|
            0 <= i < self.constants.len() ==> (#[trigger] self.constants[i]).kind
                == ColumnKind::Fixed && self.has_column(self.constants[i])
        &&& forall|g: int|
            0 <= g < self.gates.len() ==> self.admits_gate(
                (#[trigger] self.gates[g]).selector,
                self.gates[g].polys,
            )
    }

    /// Whether `self` is `earlier` with more declared: no count is lower,
    /// and what `earlier` enabled or added comes first, unchanged.
    pub open spec fn extends(self, earlier: ConstraintSystemView) -> bool {
        &&& earlier.num_advice <= self.num_advice
        &&& earlier.num_fixed <= self.num_fixed
        &&& earlier.num_instance <= self.num_instance
        &&& earlier.num_selectors <= self.num_selectors
        &&& earlier.equality.is_prefix_of(self.equality)
        &&& earlier.constants.is_prefix_of(self.constants)
        &&& earlier.gates.is_prefix_of(self.gates)
    }

    /// Declaring more columns and selectors keeps a system well formed.
    pub proof fn lemma_more_keeps_well_formed(self, earlier: ConstraintSystemView)
        requires
            earlier.well_formed(),
            self.extends(earlier),
            self.equality == earlier.equality,
            self.constants == earlier.constants,
            self.gates == earlier.gates,
        ensures
            self.well_formed(),
    {
        assert forall|g: int| 0 <= g < self.gates.len() implies self.admits_gate(
            (#[trigger] self.gates[g]).selector,
            self.gates[g].polys,
        ) by {
            let polys = self.gates[g].polys;
            assert(earlier.admits_gate(earlier.gates[g].selector, polys));
            assert forall|i: int| 0 <= i < polys.len() implies (#[trigger] polys[i])
                .columns_within(self.num_advice, self.num_fixed, self.num_instance) by {
                polys[i].lemma_columns_within_more(
                    earlier.num_advice,
                    earlier.num_fixed,
                    earlier.num_instance,
                    self.num_advice,
                    self.num_fixed,
                    self.num_instance,
                );
            }
        }
    }

    /// Whether a gate with these parts can be added: the selector and every
    /// queried column are declared, and there is at least one polynomial.
    pub open spec fn admits_gate(self, selector: Selector, polys: Seq<Poly>) -> bool {
        &&& self.has_selector(selector)
        &&& polys.len() > 0
        &&& forall|i: int|
            0 <= i < polys.len() ==> (#[trigger] polys[i]).columns_within(
                self.num_advice,
                self.num_fixed,
                self.num_instance,
            )
    }
}

/// The shape of a circuit: how many columns and selectors it has, which
/// columns may take part in equality constraints, and its gates.
#[derive(Debug)]
pub struct ConstraintSystem {
    num_advice: usize,
    num_fixed: usize,
    num_instance: usize,
    num_selectors: usize,
    equality: Vec<Column>,
    constants: Vec<Column>,
    gates: Vec<Gate>,
}

impl View for ConstraintSystem {
    type V = ConstraintSystemView;

    closed spec fn view(&self) -> ConstraintSystemView {
        ConstraintSystemView {
            num_advice: self.num_advice as nat,
            num_fixed: self.num_fixed as nat,
            num_instance: self.num_instance as nat,
            num_selectors: self.num_selectors as nat,
            equality: self.equality@,
            constants: self.constants@,
            gates: gates_of(self.gates@),
        }
    }
}

/// Whether `column` occurs in `columns`.
pub fn contains_column(columns: &Vec<Column>, column: Column) -> (r: bool)
    ensures
        r == columns@.contains(column),
{
    let mut i: usize = 0;
    while i < columns.len()
        invariant
            i <= columns.len(),
            forall|j: int| 0 <= j < i ==> columns@[j] != column,
        decreases columns.len() - i,
    {
        if columns[i] == column {
            return true;
        }
        i += 1;
    }
    false
}

impl ConstraintSystem {
    #[verifier::type_invariant]
    spec fn inv(self) -> bool {
        self@.well_formed()
    }

    /// Shows that the system names only what it has declared.
    pub fn sound(&self)
        ensures
            self@.well_formed(),
    {
        proof {
            use_type_invariant(self);
        }
    }

    /// A system with nothing declared.
    pub fn new() -> (r: ConstraintSystem)
        ensures
            r@ == ConstraintSystemView::empty(),
    {
        let r = ConstraintSystem {
            num_advice: 0,
            num_fixed: 0,
            num_instance: 0,
            num_selectors: 0,
            equality: Vec::new(),
            constants: Vec::new(),
            gates: Vec::new(),
        };
        assert(r@.gates =~= Seq::empty());
        r
    }

    /// The number of advice columns declared.
    pub fn num_advice(&self) -> (r: usize)
        ensures
            r == self@.num_advice,
    {
        self.num_advice
    }

    /// The number of fixed columns declared.
    pub fn num_fixed(&self) -> (r: usize)
        ensures
            r == self@.num_fixed,
    {
        self.num_fixed
    }

    /// The number of instance columns declared.
    pub fn num_instance(&self) -> (r: usize)
        ensures
            r == self@.num_instance,
    {
        self.num_instance
    }

    /// The number of selectors declared.
    pub fn num_selectors(&self) -> (r: usize)
        ensures
            r == self@.num_selectors,
    {
        self.num_selectors
    }

    /// The columns enabled for equality constraints, in the order they were
    /// enabled.
    pub fn equality(&self) -> (r: &Vec<Column>)
        ensures
            r@ == self@.equality,
    {
        &self.equality
    }

    /// The fixed columns whose values gates may use as constants.
    pub fn constants(&self) -> (r: &Vec<Column>)
        ensures
            r@ == self@.constants,
    {
        &self.constants
    }

    /// The gates, in the order they were created.
    pub fn gates(&self) -> (r: &Vec<Gate>)
        ensures
            gates_of(r@) == self@.gates,
    {
        &self.gates
    }

    /// Declares a new advice column.
    pub fn advice_column(&mut self) -> (r: Column)
        requires
            old(self)@.num_advice < usize::MAX,
        ensures
            r == (Column { kind: ColumnKind::Advice, index: old(self)@.num_advice as usize }),
            final(self)@ == (ConstraintSystemView {
                num_advice: old(self)@.num_advice + 1,
                ..old(self)@
            }),
    {
        let r = Column { kind: ColumnKind::Advice, index: self.num_advice };
        proof {
            use_type_invariant(&*self);
            (ConstraintSystemView { num_advice: self@.num_advice + 1, ..self@ })
                .lemma_more_keeps_well_formed(self@);
        }
        self.num_advice = self.num_advice + 1;
        r
    }

    /// Declares a new fixed column.
    pub fn fixed_column(&mut self) -> (r: Column)
        requires
            old(self)@.num_fixed < usize::MAX,
        ensures
            r == (Column { kind: ColumnKind::Fixed, index: old(self)@.num_fixed as usize }),
            final(self)@ == (ConstraintSystemView {
                num_fixed: old(self)@.num_fixed + 1,
                ..old(self)@
            }),
    {
        let r = Column { kind: ColumnKind::Fixed, index: self.num_fixed };
        proof {
            use_type_invariant(&*self);
            (ConstraintSystemView { num_fixed: self@.num_fixed + 1, ..self@ })
                .lemma_more_keeps_well_formed(self@);
        }
        self.num_fixed = self.num_fixed + 1;
        r
    }

    /// Declares a new instance column.
    pub fn instance_column(&mut self) -> (r: Column)
        requires
            old(self)@.num_instance < usize::MAX,
        ensures
            r == (Column { kind: ColumnKind::Instance, index: old(self)@.num_instance as usize }),
            final(self)@ == (ConstraintSystemView {
                num_instance: old(self)@.num_instance + 1,
                ..old(self)@
            }),
    {
        let r = Column { kind: ColumnKind::Instance, index: self.num_instance };
        proof {
            use_type_invariant(&*self);
            (ConstraintSystemView { num_instance: self@.num_instance + 1, ..self@ })
                .lemma_more_keeps_well_formed(self@);
        }
        self.num_instance = self.num_instance + 1;
        r
    }

    /// Declares a new selector.
    pub fn selector(&mut self) -> (r: Selector)
        requires
            old(self)@.num_selectors < usize::MAX,
        ensures
            r == (Selector { index: old(self)@.num_selectors as usize }),
            final(self)@ == (ConstraintSystemView {
                num_selectors: old(self)@.num_selectors + 1,
                ..old(self)@
            }),
    {
        let r = Selector { index: self.num_selectors };
        proof {
            use_type_invariant(&*self);
            (ConstraintSystemView { num_selectors: self@.num_selectors + 1, ..self@ })
                .lemma_more_keeps_well_formed(self@);
        }
        self.num_selectors = self.num_selectors + 1;
        r
    }

    /// Whether `column` has been declared.
    pub fn has_column(&self, column: Column) -> (r: bool)
        ensures
            r == self@.has_column(column),
    {
        match column.kind {
            ColumnKind::Advice => column.index < self.num_advice,
            ColumnKind::Fixed => column.index < self.num_fixed,
            ColumnKind::Instance => column.index < self.num_instance,
        }
    }

    /// Lets the cells of `column` take part in equality constraints. Fails,
    /// and changes nothing, if the column was never declared.
    pub fn enable_equality(&mut self, column: Column) -> (r: Result<(), Error>)
        ensures
            r is Ok <==> old(self)@.has_column(column),
            r is Err ==> r == Err::<(), Error>(Error::Configuration) && final(self)@ == old(
                self,
            )@,
            r is Ok ==> final(self)@ == (ConstraintSystemView {
                equality: old(self)@.equality.push(column),
                ..old(self)@
            }),
    {
        if !self.has_column(column) {
            return Err(Error::Configuration);
        }
        proof {
            use_type_invariant(&*self);
        }
        let mut equality: Vec<Column> = Vec::new();
        std::mem::swap(&mut self.equality, &mut equality);
        equality.push(column);
        std::mem::swap(&mut self.equality, &mut equality);
        Ok(())
    }

    /// Lets gates use the values of the fixed column `column` as constants.
    /// Fails, and changes nothing, if it is not a declared fixed column.
    pub fn enable_constant(&mut self, column: Column) -> (r: Result<(), Error>)
        ensures
            r is Ok <==> old(self)@.has_column(column) && column.kind == ColumnKind::Fixed,
            r is Err ==> r == Err::<(), Error>(Error::Configuration) && final(self)@ == old(
                self,
            )@,
            r is Ok ==> final(self)@ == (ConstraintSystemView {
                constants: old(self)@.constants.push(column),
                ..old(self)@
            }),
    {
        let fixed = match column.kind {
            ColumnKind::Fixed => true,
            _ => false,
        };
        if !fixed || !self.has_column(column) {
            return Err(Error::Configuration);
        }
        proof {
            use_type_invariant(&*self);
        }
        let mut constants: Vec<Column> = Vec::new();
        std::mem::swap(&mut self.constants, &mut constants);
        constants.push(column);
        std::mem::swap(&mut self.constants, &mut constants);
        Ok(())
    }

    /// Adds a gate: on every row where `selector` is enabled, each of `polys`
    /// must vanish. Fails, and changes nothing, if the selector or a queried
    /// column was never declared, or if `polys` is empty.
    pub fn create_gate(&mut self, name: &'static str, selector: Selector, polys: Vec<
        Expression,
    >) -> (r: Result<(), Error>)
        ensures
            r is Ok <==> old(self)@.admits_gate(selector, polys_of(polys@)),
            r is Err ==> r == Err::<(), Error>(Error::Configuration) && final(self)@ == old(
                self,
            )@,
            r is Ok ==> final(self)@ == (ConstraintSystemView {
                gates: old(self)@.gates.push(
                    GateView { name: name@, selector, polys: polys_of(polys@) },
                ),
                ..old(self)@
            }),
    {
        if selector.index >= self.num_selectors || polys.len() == 0 {
            return Err(Error::Configuration);
        }
        let mut i: usize = 0;
        while i < polys.len()
            invariant
                i <= polys.len(),
                forall|j: int|
                    0 <= j < i ==> (#[trigger] polys_of(polys@)[j]).columns_within(
                        self.num_advice as nat,
                        self.num_fixed as nat,
                        self.num_instance as nat,
                    ),
            decreases polys.len() - i,
        {
            if !polys[i].columns_within(self.num_advice, self.num_fixed, self.num_instance) {
                assert(!polys_of(polys@)[i as int].columns_within(
                    self.num_advice as nat,
                    self.num_fixed as nat,
                    self.num_instance as nat,
                ));
                return Err(Error::Configuration);
            }
            i += 1;
        }
        let gate = Gate { name, selector, polys };
        proof {
            use_type_invariant(&*self);
            assert(gates_of(self.gates@.push(gate)) =~= gates_of(self.gates@).push(gate@));
            assert(gates_of(Seq::<Gate>::empty()) =~= Seq::<GateView>::empty());
        }
        let mut gates: Vec<Gate> = Vec::new();
        std::mem::swap(&mut self.gates, &mut gates);
        gates.push(gate);
        std::mem::swap(&mut self.gates, &mut gates);
        Ok(())
    }
}

} // verus!

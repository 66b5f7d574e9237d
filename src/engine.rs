use vstd::prelude::*;
use crate::rules::{Expr, LayoutError, LinearConstraint, Relation, Strength};

verus! {

#[verifier::external_type_specification]
#[verifier::external_body]
pub struct ExSolver(cassowary::Solver);

#[verifier::external_type_specification]
#[verifier::external_body]
pub struct ExVariable(cassowary::Variable);

#[verifier::external_type_specification]
#[verifier::external_body]
pub struct ExExpression(cassowary::Expression);

#[verifier::external_type_specification]
#[verifier::external_body]
pub struct ExConstraint(cassowary::Constraint);

#[verifier::external_type_specification]
#[verifier::external_body]
pub struct ExAddConstraintError(cassowary::AddConstraintError);

/// Relies on cassowary::Solver::new: an empty constraint system.
pub assume_specification[ cassowary::Solver::new ]() -> cassowary::Solver;

/// Relies on cassowary::Variable::new: a fresh unknown.
pub assume_specification[ cassowary::Variable::new ]() -> cassowary::Variable;

/// Relies on cassowary::Solver::add_constraint: adds a constraint and re-optimises;
/// whether it succeeds is left open here.
pub assume_specification[ cassowary::Solver::add_constraint ](
    solver: &mut cassowary::Solver,
    constraint: cassowary::Constraint,
) -> Result<(), cassowary::AddConstraintError>;

/// Relies on cassowary::Expression::new: the sum of `coefficient * variable` over
/// `terms`, plus `constant`, with each index of `terms` naming an entry of `vars`.
#[verifier::external_body]
fn expression(vars: &Vec<cassowary::Variable>, terms: &Vec<(usize, i64)>, constant: i64) -> (r:
    cassowary::Expression)
    requires
        forall|k: int| 0 <= k < terms.len() ==> (#[trigger] terms@[k]).0 < vars.len(),
{
    let terms = terms.iter().map(|t| cassowary::Term { variable: vars[t.0], coefficient: t.1 as _ });
    cassowary::Expression::new(terms.collect(), constant as _)
}

/// Relies on cassowary::Constraint::new: the constraint `e op 0` at the solver's
/// strength of the same name.
#[verifier::external_body]
fn constraint(e: cassowary::Expression, relation: Relation, strength: Strength) -> (r:
    cassowary::Constraint) {
    let op = match relation {
        Relation::Equal => cassowary::RelationalOperator::Equal,
        Relation::AtMost => cassowary::RelationalOperator::LessOrEqual,
        Relation::AtLeast => cassowary::RelationalOperator::GreaterOrEqual,
    };
    let strength = match strength {
        Strength::Required => cassowary::strength::REQUIRED,
        Strength::Strong => cassowary::strength::STRONG,
        Strength::Medium => cassowary::strength::MEDIUM,
        Strength::Weak => cassowary::strength::WEAK,
    };
    cassowary::Constraint::new(e, op, strength)
}

/// Relies on cassowary::Solver::get_value: the value the solver currently assigns to
/// `v`, rounded to the nearest integer. Nothing is promised of the value itself.
#[verifier::external_body]
fn value_of(solver: &cassowary::Solver, v: cassowary::Variable) -> (r: i64) {
    solver.get_value(v).round() as i64
}

impl Expr {
    /// The boundaries the expression reads.
    pub open spec fn reads_below(self, n: int) -> bool {
        match self {
            Expr::Boundary(j) => j < n,
            Expr::Extent(i) => i + 1 < n,
            Expr::ExtentDiff(i, j) => i + 1 < n && j + 1 < n,
        }
    }

    /// The expression as `(boundary index, coefficient)` terms.
    pub open spec fn terms_spec(self) -> Seq<(usize, i64)> {
        match self {
            Expr::Boundary(j) => seq![(j, 1i64)],
            Expr::Extent(i) => seq![((i + 1) as usize, 1i64), (i, -1i64)],
            Expr::ExtentDiff(i, j) => seq![
                ((i + 1) as usize, 1i64),
                (i, -1i64),
                ((j + 1) as usize, -1i64),
                (j, 1i64),
            ],
        }
    }

    pub fn terms(&self, n: usize) -> (r: Vec<(usize, i64)>)
        requires
            self.reads_below(n as int),
        ensures
            r@ == self.terms_spec(),
            forall|k: int| 0 <= k < r.len() ==> (#[trigger] r@[k]).0 < n,
    {
        let r = match *self {
            Expr::Boundary(j) => vec![(j, 1i64)],
            Expr::Extent(i) => vec![(i + 1, 1i64), (i, -1i64)],
            Expr::ExtentDiff(i, j) => vec![(i + 1, 1i64), (i, -1i64), (j + 1, -1i64), (j, 1i64)],
        };
        assert(r@ =~= self.terms_spec());
        r
    }
}

/// Every constraint reads boundaries below `n` and has a value that can be negated.
pub open spec fn well_scoped(cons: Seq<LinearConstraint>, n: int) -> bool {
    forall|k: int|
        0 <= k < cons.len() ==> {
            &&& (#[trigger] cons[k]).expr.reads_below(n)
            &&& cons[k].value > i64::MIN
        }
}

/// Hands `cons` to a fresh solver over `n` boundaries and reads back each boundary.
/// Any constraint that the solver refuses makes the whole system `Unsatisfiable`.
pub(crate) fn solve_boundaries(cons: &Vec<LinearConstraint>, n: usize) -> (r: Result<
    Vec<i64>,
    LayoutError,
>)
    requires
        well_scoped(cons@, n as int),
    ensures
        match r {
            Ok(b) => b.len() == n,
            Err(e) => e == LayoutError::Unsatisfiable,
        },
{
    let mut solver = cassowary::Solver::new();
    let mut vars: Vec<cassowary::Variable> = Vec::new();
    let mut i: usize = 0;
    while i < n
        invariant
            i <= n,
            vars.len() == i,
        decreases n - i,
    {
        vars.push(cassowary::Variable::new());
        i += 1;
    }
    let mut k: usize = 0;
    while k < cons.len()
        invariant
            k <= cons.len(),
            vars.len() == n,
            well_scoped(cons@, n as int),
        decreases cons.len() - k,
    {
        let c = cons[k];
        assert(cons@[k as int].expr.reads_below(n as int));
        let terms = c.expr.terms(n);
        let e = expression(&vars, &terms, -c.value);
        match solver.add_constraint(constraint(e, c.relation, c.strength)) {
            Ok(()) => {},
            Err(_) => {
                return Err(LayoutError::Unsatisfiable);
            },
        }
        k += 1;
    }
    let mut values: Vec<i64> = Vec::new();
    let mut j: usize = 0;
    while j < n
        invariant
            j <= n,
            vars.len() == n,
            values.len() == j,
        decreases n - j,
    {
        values.push(value_of(&solver, vars[j]));
        j += 1;
    }
    Ok(values)
}

} // verus!

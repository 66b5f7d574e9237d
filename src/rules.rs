use vstd::prelude::*;

verus! {

/// A sizing rule for one chunk of a partitioned area.
#[derive(Clone, Copy, Debug, PartialEq, Eq, Hash, Structural)]
pub enum LayoutConstraint {
    /// A share of the total extent, in percent.
    Percentage(u16),
    /// A share of the total extent, as numerator and denominator.
    Ratio(u32, u32),
    /// An absolute extent.
    Length(u16),
    /// An upper bound on the extent.
    Max(u16),
    /// A lower bound on the extent.
    Min(u16),
}

/// Why an area could not be partitioned.
#[derive(Clone, Copy, Debug, PartialEq, Eq, Structural)]
pub enum LayoutError {
    /// A rule is malformed, or there are no rules.
    InvalidRule,
    /// The required constraints admit no solution.
    Unsatisfiable,
}

/// Priority of a constraint; `Required` ones must hold exactly.
#[derive(Clone, Copy, Debug, PartialEq, Eq, Structural)]
pub enum Strength {
    Required,
    Strong,
    Medium,
    Weak,
}

/// How the left-hand expression of a constraint relates to its value.
#[derive(Clone, Copy, Debug, PartialEq, Eq, Structural)]
pub enum Relation {
    Equal,
    AtMost,
    AtLeast,
}

/// A linear expression over the boundaries `b0..bN` of a partition.
#[derive(Clone, Copy, Debug, PartialEq, Eq, Structural)]
pub enum Expr {
    /// The boundary `b_j`.
    Boundary(usize),
    /// The extent `b_{i+1} - b_i` of chunk `i`.
    Extent(usize),
    /// The extent of chunk `i` minus the extent of chunk `j`.
    ExtentDiff(usize, usize),
}

/// The constraint `expr relation value`, held at `strength`.
#[derive(Clone, Copy, Debug, PartialEq, Eq, Structural)]
pub struct LinearConstraint {
    pub expr: Expr,
    pub relation: Relation,
    pub value: i64,
    pub strength: Strength,
}

impl LayoutConstraint {
    /// Percentages are at most 100 and ratios have a positive denominator.
    pub open spec fn valid_spec(self) -> bool {
        match self {
            LayoutConstraint::Percentage(p) => p <= 100,
            LayoutConstraint::Ratio(_, d) => d > 0,
            _ => true,
        }
    }

    /// Rules that bound a chunk rather than fix its size.
    pub open spec fn flexible_spec(self) -> bool {
        match self {
            LayoutConstraint::Max(_) | LayoutConstraint::Min(_) => true,
            _ => false,
        }
    }

    /// The extent the rule asks for, out of a total extent `total`, rounded down to
    /// a whole unit.
    pub open spec fn target(self, total: int) -> int {
        match self {
            LayoutConstraint::Percentage(p) => p * total / 100int,
            LayoutConstraint::Ratio(n, d) => n * total / (d as int),
            LayoutConstraint::Length(p) => p as int,
            LayoutConstraint::Max(p) => p as int,
            LayoutConstraint::Min(p) => p as int,
        }
    }

    pub fn is_valid(&self) -> (r: bool)
        ensures
            r == self.valid_spec(),
    {
        match self {
            LayoutConstraint::Percentage(p) => *p <= 100,
            LayoutConstraint::Ratio(_, d) => *d > 0,
            _ => true,
        }
    }

    pub fn is_flexible(&self) -> (r: bool)
        ensures
            r == self.flexible_spec(),
    {
        match self {
            LayoutConstraint::Max(_) | LayoutConstraint::Min(_) => true,
            _ => false,
        }
    }

    /// The extent the rule asks for out of `total`.
    pub fn target_of(&self, total: i64) -> (r: i64)
        requires
            0 <= total <= i32::MAX,
            self.valid_spec(),
        ensures
            r == self.target(total as int),
            0 <= r,
    {
        match self {
            LayoutConstraint::Percentage(p) => {
                assert(0 <= (*p as int) * total <= 100 * i32::MAX) by (nonlinear_arith)
                    requires
                        0 <= total <= i32::MAX,
                        *p <= 100,
                ;
                (*p as i64) * total / 100
            },
            LayoutConstraint::Ratio(n, d) => {
                assert(0 <= (*n as int) * total <= u32::MAX * i32::MAX) by (nonlinear_arith)
                    requires
                        0 <= total <= i32::MAX,
                        *n <= u32::MAX,
                ;
                (*n as i64) * total / (*d as i64)
            },
            LayoutConstraint::Length(p) => *p as i64,
            LayoutConstraint::Max(p) => *p as i64,
            LayoutConstraint::Min(p) => *p as i64,
        }
    }
}

/// A rule list is accepted when it is non-empty and every rule is valid.
pub open spec fn valid_rules(rules: Seq<LayoutConstraint>) -> bool {
    &&& rules.len() > 0
    &&& forall|i: int| 0 <= i < rules.len() ==> (#[trigger] rules[i]).valid_spec()
}

/// Checks a rule list before anything is solved.
pub fn validate(rules: &Vec<LayoutConstraint>) -> (r: Result<(), LayoutError>)
    ensures
        r is Ok <==> valid_rules(rules@),
        r is Err ==> r == Err::<(), LayoutError>(LayoutError::InvalidRule),
{
    if rules.len() == 0 {
        return Err(LayoutError::InvalidRule);
    }
    let mut i: usize = 0;
    while i < rules.len()
        invariant
            i <= rules.len(),
            forall|k: int| 0 <= k < i ==> (#[trigger] rules@[k]).valid_spec(),
        decreases rules.len() - i,
    {
        if !rules[i].is_valid() {
            return Err(LayoutError::InvalidRule);
        }
        i += 1;
    }
    Ok(())
}

/// Index of the first flexible rule at or after `k`, or the length when there is none.
pub open spec fn flexible_from(rules: Seq<LayoutConstraint>, k: int) -> int
    decreases rules.len() - k,
{
    if k >= rules.len() || k < 0 {
        rules.len() as int
    } else if rules[k].flexible_spec() {
        k
    } else {
        flexible_from(rules, k + 1)
    }
}

/// Index of the first flexible rule, or the length when there is none.
pub open spec fn first_flexible(rules: Seq<LayoutConstraint>) -> int {
    flexible_from(rules, 0)
}

pub fn find_first_flexible(rules: &Vec<LayoutConstraint>) -> (r: usize)
    ensures
        r == first_flexible(rules@),
        r <= rules.len(),
{
    let mut i: usize = 0;
    while i < rules.len() && !rules[i].is_flexible()
        invariant
            i <= rules.len(),
            flexible_from(rules@, 0) == flexible_from(rules@, i as int),
        decreases rules.len() - i,
    {
        i += 1;
    }
    i
}

/// The constraint `expr relation value` at `strength`.
pub open spec fn mk(expr: Expr, relation: Relation, value: int, strength: Strength) -> LinearConstraint {
    LinearConstraint { expr, relation, value: value as i64, strength }
}

/// The constraints that govern chunk `i`: its extent is non-negative; the rule's own
/// constraints; and, for a flexible chunk after the first flexible one, a fill term
/// asking for the same extent as that first one.
pub open spec fn chunk_constraints(
    rules: Seq<LayoutConstraint>,
    total: int,
    first: int,
    i: int,
) -> Seq<LinearConstraint> {
    let e = Expr::Extent(i as usize);
    let rule = rules[i];
    let own = match rule {
        LayoutConstraint::Max(p) => seq![
            mk(e, Relation::AtMost, p as int, Strength::Required),
            mk(e, Relation::Equal, p as int, Strength::Weak),
        ],
        LayoutConstraint::Min(p) => seq![
            mk(e, Relation::AtLeast, p as int, Strength::Required),
            mk(e, Relation::Equal, p as int, Strength::Weak),
        ],
        _ => seq![mk(e, Relation::Equal, rule.target(total), Strength::Strong)],
    };
    let fill = if rule.flexible_spec() && first < i {
        seq![mk(Expr::ExtentDiff(i as usize, first as usize), Relation::Equal, 0, Strength::Medium)]
    } else {
        Seq::<LinearConstraint>::empty()
    };
    seq![mk(e, Relation::AtLeast, 0, Strength::Required)] + own + fill
}

/// The constraints of chunks `0..k`, in chunk order.
pub open spec fn constraints_upto(
    rules: Seq<LayoutConstraint>,
    total: int,
    first: int,
    k: int,
) -> Seq<LinearConstraint>
    decreases k,
{
    if k <= 0 {
        Seq::empty()
    } else {
        constraints_upto(rules, total, first, k - 1) + chunk_constraints(rules, total, first, k - 1)
    }
}

/// The constraint system of a partition of `start..end` under `rules`: both outer
/// boundaries pinned, then the constraints of each chunk in order.
pub open spec fn compiled(rules: Seq<LayoutConstraint>, start: int, end: int) -> Seq<
    LinearConstraint,
> {
    seq![
        mk(Expr::Boundary(0), Relation::Equal, start, Strength::Required),
        mk(Expr::Boundary(rules.len() as usize), Relation::Equal, end, Strength::Required),
    ] + constraints_upto(rules, end - start, first_flexible(rules), rules.len() as int)
}

fn constraints_of_chunk(
    rules: &Vec<LayoutConstraint>,
    total: i64,
    first: usize,
    i: usize,
) -> (r: Vec<LinearConstraint>)
    requires
        i < rules.len(),
        0 <= total <= i32::MAX,
        valid_rules(rules@),
    ensures
        r@ == chunk_constraints(rules@, total as int, first as int, i as int),
{
    let e = Expr::Extent(i);
    let rule = rules[i];
    let mut r: Vec<LinearConstraint> = Vec::new();
    r.push(LinearConstraint { expr: e, relation: Relation::AtLeast, value: 0, strength: Strength::Required });
    match rule {
        LayoutConstraint::Max(p) => {
            r.push(LinearConstraint { expr: e, relation: Relation::AtMost, value: p as i64, strength: Strength::Required });
            r.push(LinearConstraint { expr: e, relation: Relation::Equal, value: p as i64, strength: Strength::Weak });
        },
        LayoutConstraint::Min(p) => {
            r.push(LinearConstraint { expr: e, relation: Relation::AtLeast, value: p as i64, strength: Strength::Required });
            r.push(LinearConstraint { expr: e, relation: Relation::Equal, value: p as i64, strength: Strength::Weak });
        },
        _ => {
            assert(rules@[i as int].valid_spec());
            let t = rule.target_of(total);
            r.push(LinearConstraint { expr: e, relation: Relation::Equal, value: t, strength: Strength::Strong });
        },
    }
    if rule.is_flexible() && first < i {
        r.push(
            LinearConstraint {
                expr: Expr::ExtentDiff(i, first),
                relation: Relation::Equal,
                value: 0,
                strength: Strength::Medium,
            },
        );
    }
    assert(r@ =~= chunk_constraints(rules@, total as int, first as int, i as int));
    r
}

/// Compiles a valid rule list for the span `start..end` into its constraint system.
pub fn compile(rules: &Vec<LayoutConstraint>, start: i64, end: i64) -> (r: Vec<LinearConstraint>)
    requires
        valid_rules(rules@),
        start <= end,
        end - start <= i32::MAX,
    ensures
        r@ == compiled(rules@, start as int, end as int),
{
    let total = end - start;
    let first = find_first_flexible(rules);
    let mut out: Vec<LinearConstraint> = Vec::new();
    out.push(LinearConstraint { expr: Expr::Boundary(0), relation: Relation::Equal, value: start, strength: Strength::Required });
    out.push(
        LinearConstraint {
            expr: Expr::Boundary(rules.len()),
            relation: Relation::Equal,
            value: end,
            strength: Strength::Required,
        },
    );
    let ghost anchors = out@;
    let mut i: usize = 0;
    while i < rules.len()
        invariant
            i <= rules.len(),
            0 <= total <= i32::MAX,
            total == end - start,
            valid_rules(rules@),
            first == first_flexible(rules@),
            out@ == anchors + constraints_upto(rules@, total as int, first as int, i as int),
        decreases rules.len() - i,
    {
        let mut c = constraints_of_chunk(rules, total, first, i);
        out.append(&mut c);
        proof {
            let a = anchors;
            let u = constraints_upto(rules@, total as int, first as int, i as int);
            let ch = chunk_constraints(rules@, total as int, first as int, i as int);
            assert((a + u) + ch =~= a + (u + ch));
        }
        i += 1;
    }
    assert(out@ =~= compiled(rules@, start as int, end as int));
    out
}

/// The least extent a chunk under `rule` may take.
pub open spec fn lower(rule: LayoutConstraint) -> int {
    match rule {
        LayoutConstraint::Min(p) => p as int,
        _ => 0,
    }
}

/// The greatest extent a chunk under `rule` may take, out of a total `t`.
pub open spec fn upper(rule: LayoutConstraint, t: int) -> int {
    match rule {
        LayoutConstraint::Max(p) => p as int,
        _ => t,
    }
}

/// The sum of the lower bounds of the rules from `k` on, capped at `t + 1`.
pub open spec fn low_cap(rules: Seq<LayoutConstraint>, t: int, k: int) -> int
    decreases rules.len() - k,
{
    if k < 0 || k >= rules.len() {
        0
    } else {
        vstd::math::min(lower(rules[k]) + low_cap(rules, t, k + 1), t + 1)
    }
}

/// The sum of the upper bounds of the rules from `k` on, capped at `t`.
pub open spec fn high_cap(rules: Seq<LayoutConstraint>, t: int, k: int) -> int
    decreases rules.len() - k,
{
    if k < 0 || k >= rules.len() {
        0
    } else {
        vstd::math::min(upper(rules[k], t) + high_cap(rules, t, k + 1), t)
    }
}

/// The `Min` and `Max` bounds can all hold in a total extent `t`: the `Min` bounds
/// sum to at most `t`, and the upper bounds (a `Max` bound, or `t` for any other
/// rule) sum to at least `t`.
pub open spec fn bounds_feasible(rules: Seq<LayoutConstraint>, t: int) -> bool {
    low_cap(rules, t, 0) <= t <= high_cap(rules, t, 0)
}

pub proof fn lemma_caps(rules: Seq<LayoutConstraint>, t: int, k: int)
    requires
        0 <= t,
        0 <= k <= rules.len(),
    ensures
        0 <= low_cap(rules, t, k) <= t + 1,
        0 <= high_cap(rules, t, k) <= t,
        low_cap(rules, t, k) <= t ==> low_cap(rules, t, k) <= high_cap(rules, t, k),
    decreases rules.len() - k,
{
    if k < rules.len() {
        lemma_caps(rules, t, k + 1);
    }
}

/// The capped suffix sums `low_cap` and `high_cap` for every `k` in `0..=n`.
pub fn suffix_caps(rules: &Vec<LayoutConstraint>, t: i64) -> (r: (Vec<i64>, Vec<i64>))
    requires
        0 <= t <= i32::MAX,
        rules.len() < usize::MAX,
    ensures
        r.0.len() == rules.len() + 1,
        r.1.len() == rules.len() + 1,
        forall|k: int| 0 <= k <= rules.len() ==> r.0@[k] == low_cap(rules@, t as int, k),
        forall|k: int| 0 <= k <= rules.len() ==> r.1@[k] == high_cap(rules@, t as int, k),
{
    let n = rules.len();
    let mut lows: Vec<i64> = Vec::new();
    let mut highs: Vec<i64> = Vec::new();
    let mut i: usize = 0;
    while i <= n
        invariant
            i <= n + 1,
            n == rules.len(),
            n < usize::MAX,
            lows.len() == i,
            highs.len() == i,
            forall|j: int| 0 <= j < i ==> lows@[j] == 0 && highs@[j] == 0,
        decreases n + 1 - i,
    {
        lows.push(0);
        highs.push(0);
        i += 1;
    }
    let mut k: usize = n;
    while k > 0
        invariant
            k <= n,
            n == rules.len(),
            0 <= t <= i32::MAX,
            lows.len() == n + 1,
            highs.len() == n + 1,
            forall|j: int| k <= j <= n ==> lows@[j] == low_cap(rules@, t as int, j),
            forall|j: int| k <= j <= n ==> highs@[j] == high_cap(rules@, t as int, j),
        decreases k,
    {
        proof {
            lemma_caps(rules@, t as int, k as int);
        }
        let rule = rules[k - 1];
        let lo: i64 = match rule {
            LayoutConstraint::Min(p) => p as i64,
            _ => 0,
        };
        let hi: i64 = match rule {
            LayoutConstraint::Max(p) => p as i64,
            _ => t,
        };
        let l = lo + lows[k];
        let h = hi + highs[k];
        lows.set(k - 1, if l < t + 1 { l } else { t + 1 });
        highs.set(k - 1, if h < t { h } else { t });
        k -= 1;
    }
    (lows, highs)
}

} // verus!

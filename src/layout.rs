use vstd::prelude::*;
use crate::engine::{solve_boundaries, well_scoped};
use crate::geometry::{Direction, Rect};
use crate::rules::{
    bounds_feasible, high_cap, lemma_caps, low_cap, lower, suffix_caps, upper,
    chunk_constraints, compile, compiled, constraints_upto, first_flexible, mk, valid_rules,
    validate, LayoutConstraint, LayoutError, LinearConstraint,
};

verus! {

pub open spec fn clamp(v: int, lo: int, hi: int) -> int {
    if v < lo {
        lo
    } else if v > hi {
        hi
    } else {
        v
    }
}

/// Boundary `i` of a partition of `start..end` under `rules`, settled from the
/// solver's reading `raw`. Boundary 0 is `start`; each later one is the reading
/// clamped so that the chunk before it keeps its `Min` and `Max` bounds and the
/// rules after it can still meet theirs in what is left of the area.
pub open spec fn bound_at(rules: Seq<LayoutConstraint>, raw: Seq<i64>, start: int, end: int, i: int) -> int
    decreases i,
{
    if i <= 0 {
        start
    } else {
        let b = bound_at(rules, raw, start, end, i - 1);
        let t = end - start;
        let lo = vstd::math::max(b + lower(rules[i - 1]), end - high_cap(rules, t, i));
        let hi = vstd::math::min(b + upper(rules[i - 1], t), end - low_cap(rules, t, i));
        clamp(raw[i] as int, lo, hi)
    }
}

/// The chunk of `area` between `lo` and `hi` along `dir`; it spans the whole area
/// across `dir`.
pub open spec fn chunk_rect(area: Rect, dir: Direction, lo: int, hi: int) -> Rect {
    match dir {
        Direction::Horizontal => Rect { x: lo as i32, y: area.y, w: (hi - lo) as i32, h: area.h },
        Direction::Vertical => Rect { x: area.x, y: lo as i32, w: area.w, h: (hi - lo) as i32 },
    }
}

/// The chunks of `area` along `dir`, one per rule, cut at the boundaries settled
/// from `raw`.
pub open spec fn chunks_of(rules: Seq<LayoutConstraint>, area: Rect, dir: Direction, raw: Seq<i64>) -> Seq<Rect> {
    let s = area.leading(dir);
    let e = area.trailing(dir);
    Seq::new(
        rules.len(),
        |i: int| chunk_rect(area, dir, bound_at(rules, raw, s, e, i), bound_at(rules, raw, s, e, i + 1)),
    )
}

/// The area is not inverted along `dir`, and its far edge is a valid coordinate.
pub open spec fn spans(area: Rect, dir: Direction) -> bool {
    area.leading(dir) <= area.trailing(dir) <= i32::MAX
}

/// A request that can be met: rules are present, the area is not inverted, and
/// the `Min` and `Max` bounds fit in its extent.
pub open spec fn can_partition(rules: Seq<LayoutConstraint>, area: Rect, dir: Direction) -> bool {
    &&& rules.len() > 0
    &&& spans(area, dir)
    &&& bounds_feasible(rules, area.extent(dir))
}

/// The sum of the chunks' extents along `dir`.
pub open spec fn total_extent(rects: Seq<Rect>, dir: Direction) -> int
    decreases rects.len(),
{
    if rects.len() == 0 {
        0
    } else {
        total_extent(rects.drop_last(), dir) + rects.last().extent(dir)
    }
}

proof fn lemma_bounds(rules: Seq<LayoutConstraint>, raw: Seq<i64>, start: int, end: int, i: int)
    requires
        start <= end,
        bounds_feasible(rules, end - start),
        0 <= i <= rules.len(),
    ensures
        ({
            let t = end - start;
            let b = bound_at(rules, raw, start, end, i);
            &&& start <= b <= end
            &&& low_cap(rules, t, i) <= end - b <= high_cap(rules, t, i)
            &&& i == rules.len() ==> b == end
            &&& i < rules.len() ==> lower(rules[i]) <= bound_at(rules, raw, start, end, i + 1) - b
                <= upper(rules[i], t)
        }),
    decreases i,
{
    let t = end - start;
    lemma_caps(rules, t, i);
    if i > 0 {
        lemma_bounds(rules, raw, start, end, i - 1);
        lemma_caps(rules, t, i - 1);
    }
    if i < rules.len() {
        lemma_caps(rules, t, i + 1);
    }
}

proof fn lemma_chunk(rules: Seq<LayoutConstraint>, area: Rect, dir: Direction, raw: Seq<i64>, i: int)
    requires
        can_partition(rules, area, dir),
        0 <= i < rules.len(),
    ensures
        ({
            let s = area.leading(dir);
            let e = area.trailing(dir);
            let c = chunks_of(rules, area, dir, raw)[i];
            &&& c.leading(dir) == bound_at(rules, raw, s, e, i)
            &&& c.trailing(dir) == bound_at(rules, raw, s, e, i + 1)
            &&& lower(rules[i]) <= c.extent(dir) <= upper(rules[i], e - s)
            &&& match dir {
                Direction::Horizontal => c.y == area.y && c.h == area.h,
                Direction::Vertical => c.x == area.x && c.w == area.w,
            }
        }),
{
    let s = area.leading(dir);
    let e = area.trailing(dir);
    lemma_bounds(rules, raw, s, e, i);
    lemma_bounds(rules, raw, s, e, i + 1);
}

/// The first chunk starts at the area's leading edge and the last one ends at its
/// trailing edge.
pub proof fn lemma_anchored(rules: Seq<LayoutConstraint>, area: Rect, dir: Direction, raw: Seq<i64>)
    requires
        can_partition(rules, area, dir),
    ensures
        chunks_of(rules, area, dir, raw).first().leading(dir) == area.leading(dir),
        chunks_of(rules, area, dir, raw).last().trailing(dir) == area.trailing(dir),
{
    lemma_chunk(rules, area, dir, raw, 0);
    lemma_chunk(rules, area, dir, raw, rules.len() - 1);
    lemma_bounds(rules, raw, area.leading(dir), area.trailing(dir), rules.len() as int);
}

/// Each chunk ends exactly where the next one starts: no gaps and no overlaps.
pub proof fn lemma_adjacent(rules: Seq<LayoutConstraint>, area: Rect, dir: Direction, raw: Seq<i64>)
    requires
        can_partition(rules, area, dir),
    ensures
        forall|i: int|
            0 <= i < rules.len() - 1 ==> (#[trigger] chunks_of(rules, area, dir, raw)[i]).trailing(dir)
                == chunks_of(rules, area, dir, raw)[i + 1].leading(dir),
{
    assert forall|i: int| 0 <= i < rules.len() - 1 implies (#[trigger] chunks_of(
        rules,
        area,
        dir,
        raw,
    )[i]).trailing(dir) == chunks_of(rules, area, dir, raw)[i + 1].leading(dir) by {
        lemma_chunk(rules, area, dir, raw, i);
        lemma_chunk(rules, area, dir, raw, i + 1);
    }
}

/// Every chunk of an area with non-negative width and height has non-negative width
/// and height.
pub proof fn lemma_non_negative(rules: Seq<LayoutConstraint>, area: Rect, dir: Direction, raw: Seq<i64>)
    requires
        can_partition(rules, area, dir),
        area.w >= 0,
        area.h >= 0,
    ensures
        forall|i: int|
            0 <= i < rules.len() ==> (#[trigger] chunks_of(rules, area, dir, raw)[i]).w >= 0
                && chunks_of(rules, area, dir, raw)[i].h >= 0,
{
    assert forall|i: int| 0 <= i < rules.len() implies (#[trigger] chunks_of(rules, area, dir, raw)[i]).w
        >= 0 && chunks_of(rules, area, dir, raw)[i].h >= 0 by {
        lemma_chunk(rules, area, dir, raw, i);
    }
}

/// A `Max(p)` chunk is at most `p` long and a `Min(p)` chunk at least `p`.
pub proof fn lemma_bounds_kept(rules: Seq<LayoutConstraint>, area: Rect, dir: Direction, raw: Seq<i64>)
    requires
        can_partition(rules, area, dir),
    ensures
        forall|i: int|
            0 <= i < rules.len() ==> match #[trigger] rules[i] {
                LayoutConstraint::Max(p) => chunks_of(rules, area, dir, raw)[i].extent(dir) <= p,
                LayoutConstraint::Min(p) => chunks_of(rules, area, dir, raw)[i].extent(dir) >= p,
                _ => true,
            },
{
    assert forall|i: int| 0 <= i < rules.len() implies match #[trigger] rules[i] {
        LayoutConstraint::Max(p) => chunks_of(rules, area, dir, raw)[i].extent(dir) <= p,
        LayoutConstraint::Min(p) => chunks_of(rules, area, dir, raw)[i].extent(dir) >= p,
        _ => true,
    } by {
        lemma_chunk(rules, area, dir, raw, i);
    }
}

proof fn lemma_prefix_extent(rules: Seq<LayoutConstraint>, area: Rect, dir: Direction, raw: Seq<i64>, k: int)
    requires
        can_partition(rules, area, dir),
        0 <= k <= rules.len(),
    ensures
        total_extent(chunks_of(rules, area, dir, raw).take(k), dir) == bound_at(
            rules,
            raw,
            area.leading(dir),
            area.trailing(dir),
            k,
        ) - area.leading(dir),
    decreases k,
{
    let c = chunks_of(rules, area, dir, raw);
    if k > 0 {
        lemma_prefix_extent(rules, area, dir, raw, k - 1);
        lemma_chunk(rules, area, dir, raw, k - 1);
        assert(c.take(k).drop_last() =~= c.take(k - 1));
    }
}

/// The chunks cover the area: their extents along `dir` add up to the area's
/// extent, whatever the rules (so percentages summing to less than 100 lose no
/// space).
pub proof fn lemma_extents_sum(rules: Seq<LayoutConstraint>, area: Rect, dir: Direction, raw: Seq<i64>)
    requires
        can_partition(rules, area, dir),
    ensures
        total_extent(chunks_of(rules, area, dir, raw), dir) == area.extent(dir),
{
    let c = chunks_of(rules, area, dir, raw);
    lemma_prefix_extent(rules, area, dir, raw, rules.len() as int);
    lemma_bounds(rules, raw, area.leading(dir), area.trailing(dir), rules.len() as int);
    assert(c.take(rules.len() as int) =~= c);
}

/// Cuts `area` along `dir` into one chunk per rule, at the boundaries read back
/// from a solver. The first boundary is the area's leading edge; each later reading
/// is clamped so that its chunk keeps its `Min` and `Max` bounds and the remaining
/// rules can still meet theirs; the last boundary thus falls on the trailing edge.
pub fn chunks_from_boundaries(
    rules: &Vec<LayoutConstraint>,
    area: Rect,
    dir: Direction,
    raw: &Vec<i64>,
) -> (r: Vec<Rect>)
    requires
        can_partition(rules@, area, dir),
        raw.len() == rules.len() + 1,
    ensures
        r@ == chunks_of(rules@, area, dir, raw@),
{
    let ghost s = area.leading(dir);
    let ghost e = area.trailing(dir);
    let start = area.start_along(dir);
    let end = area.end_along(dir);
    let t = end - start;
    let (lows, highs) = suffix_caps(rules, t);
    let n = rules.len();
    let mut out: Vec<Rect> = Vec::new();
    let mut prev = start;
    let mut i: usize = 0;
    while i < n
        invariant
            n == rules.len(),
            raw.len() == n + 1,
            i <= n,
            can_partition(rules@, area, dir),
            start == s,
            end == e,
            t == e - s,
            s == area.leading(dir),
            e == area.trailing(dir),
            lows.len() == n + 1,
            highs.len() == n + 1,
            forall|k: int| 0 <= k <= n ==> lows@[k] == low_cap(rules@, t as int, k),
            forall|k: int| 0 <= k <= n ==> highs@[k] == high_cap(rules@, t as int, k),
            prev == bound_at(rules@, raw@, s, e, i as int),
            out@ == chunks_of(rules@, area, dir, raw@).take(i as int),
        decreases n - i,
    {
        proof {
            lemma_bounds(rules@, raw@, s, e, i as int);
            lemma_bounds(rules@, raw@, s, e, i + 1);
            lemma_caps(rules@, t as int, i + 1);
        }
        let rule = rules[i];
        let lo_own: i64 = match rule {
            LayoutConstraint::Min(p) => p as i64,
            _ => 0,
        };
        let hi_own: i64 = match rule {
            LayoutConstraint::Max(p) => p as i64,
            _ => t,
        };
        let a = prev + lo_own;
        let b = end - highs[i + 1];
        let lo = if a > b { a } else { b };
        let c = prev + hi_own;
        let d = end - lows[i + 1];
        let hi = if c < d { c } else { d };
        let v = raw[i + 1];
        let next = if v < lo {
            lo
        } else if v > hi {
            hi
        } else {
            v
        };
        assert(next == bound_at(rules@, raw@, s, e, i + 1));
        let rect = match dir {
            Direction::Horizontal => Rect { x: prev as i32, y: area.y, w: (next - prev) as i32, h: area.h },
            Direction::Vertical => Rect { x: area.x, y: prev as i32, w: area.w, h: (next - prev) as i32 },
        };
        out.push(rect);
        assert(out@ =~= chunks_of(rules@, area, dir, raw@).take(i + 1));
        prev = next;
        i += 1;
    }
    assert(out@ =~= chunks_of(rules@, area, dir, raw@));
    out
}

/// An ordered list of sizing rules and the axis they partition.
pub struct Layout {
    pub direction: Direction,
    pub constraints: Vec<LayoutConstraint>,
}

impl Layout {
    /// `rects` is what resolving this layout over `area` may return: the request
    /// can be met, and `rects` are the area's chunks, one per rule, cut at
    /// boundaries settled from some reading of the solver's unknowns. Whatever the
    /// reading, such a cut is anchored at both edges, has no gaps or overlaps, and
    /// keeps every `Min` and `Max` bound (see the lemmas above); how the remaining
    /// space is shared is the solver's choice.
    pub open spec fn partitions(&self, area: Rect, rects: Seq<Rect>) -> bool {
        &&& can_partition(self.constraints@, area, self.direction)
        &&& exists|raw: Seq<i64>|
            rects == #[trigger] chunks_of(self.constraints@, area, self.direction, raw)
    }

    /// A horizontal layout with no rules.
    pub fn default() -> (r: Layout)
        ensures
            r.direction == Direction::Horizontal,
            r.constraints@ == Seq::<LayoutConstraint>::empty(),
    {
        Layout { direction: Direction::Horizontal, constraints: Vec::new() }
    }

    /// Replaces the rules.
    pub fn constraints(self, constraints: Vec<LayoutConstraint>) -> (r: Layout)
        ensures
            r.direction == self.direction,
            r.constraints@ == constraints@,
    {
        Layout { direction: self.direction, constraints }
    }

    /// Replaces the axis.
    pub fn direction(self, direction: Direction) -> (r: Layout)
        ensures
            r.direction == direction,
            r.constraints@ == self.constraints@,
    {
        Layout { direction, constraints: self.constraints }
    }

    /// A horizontal layout in which chunk `i` takes `chunks[i]` parts of the sum of
    /// `chunks`: `[1, 4]` gives the first chunk 1/5 of the space and the second 4/5.
    pub fn horizontal(chunks: &Vec<u32>) -> (r: Layout)
        requires
            sum_of(chunks@) <= u32::MAX,
        ensures
            r.direction == Direction::Horizontal,
            r.constraints@.len() == chunks@.len(),
            forall|i: int|
                0 <= i < chunks@.len() ==> #[trigger] r.constraints@[i] == LayoutConstraint::Ratio(
                    chunks@[i],
                    sum_of(chunks@) as u32,
                ),
    {
        let mut total: u32 = 0;
        let mut i: usize = 0;
        while i < chunks.len()
            invariant
                i <= chunks.len(),
                sum_of(chunks@) <= u32::MAX,
                total == sum_of(chunks@.take(i as int)),
            decreases chunks.len() - i,
        {
            proof {
                lemma_sum_prefix(chunks@, i + 1);
                assert(chunks@.take(i + 1).drop_last() =~= chunks@.take(i as int));
            }
            total = total + chunks[i];
            i += 1;
        }
        assert(chunks@.take(chunks.len() as int) =~= chunks@);
        let mut rules: Vec<LayoutConstraint> = Vec::new();
        let mut j: usize = 0;
        while j < chunks.len()
            invariant
                j <= chunks.len(),
                total == sum_of(chunks@),
                rules@.len() == j,
                forall|k: int|
                    0 <= k < j ==> #[trigger] rules@[k] == LayoutConstraint::Ratio(chunks@[k], total),
            decreases chunks.len() - j,
        {
            rules.push(LayoutConstraint::Ratio(chunks[j], total));
            j += 1;
        }
        Layout { direction: Direction::Horizontal, constraints: rules }
    }

    /// Resolves the layout over `area`: one rectangle per rule, in rule order.
    /// Malformed or missing rules are refused before anything is solved. An area
    /// whose trailing edge lies before its leading edge, or whose extent cannot
    /// hold the `Min` and `Max` bounds together, is unsatisfiable; every other
    /// request is met. Should the solver still refuse the system (its floating-point
    /// arithmetic can misjudge), the cut is settled from zero readings.
    pub fn solve(&self, area: Rect) -> (r: Result<Vec<Rect>, LayoutError>)
        requires
            area.trailing(self.direction) <= i32::MAX,
            self.constraints@.len() < usize::MAX,
        ensures
            (r == Err::<Vec<Rect>, LayoutError>(LayoutError::InvalidRule)) <==> !valid_rules(
                self.constraints@,
            ),
            valid_rules(self.constraints@) && !can_partition(self.constraints@, area, self.direction)
                ==> r == Err::<Vec<Rect>, LayoutError>(LayoutError::Unsatisfiable),
            valid_rules(self.constraints@) && can_partition(self.constraints@, area, self.direction)
                ==> r is Ok,
            r is Ok ==> self.partitions(area, r->Ok_0@),
            r is Ok ==> forall|i: int|
                0 <= i < self.constraints@.len() ==> match #[trigger] self.constraints@[i] {
                    LayoutConstraint::Max(p) => r->Ok_0@[i].extent(self.direction) <= p,
                    LayoutConstraint::Min(p) => r->Ok_0@[i].extent(self.direction) >= p,
                    _ => true,
                },
    {
        match validate(&self.constraints) {
            Ok(()) => {},
            Err(e) => {
                return Err(e);
            },
        }
        let dir = self.direction;
        let start = area.start_along(dir);
        let end = area.end_along(dir);
        if end < start {
            return Err(LayoutError::Unsatisfiable);
        }
        let t = end - start;
        let (lows, highs) = suffix_caps(&self.constraints, t);
        if !(lows[0] <= t && t <= highs[0]) {
            return Err(LayoutError::Unsatisfiable);
        }
        let n = self.constraints.len();
        let cons = compile(&self.constraints, start, end);
        proof {
            lemma_compiled_scoped(self.constraints@, start as int, end as int);
        }
        let raw = match solve_boundaries(&cons, n + 1) {
            Ok(raw) => raw,
            Err(_) => {
                let mut zeros: Vec<i64> = Vec::new();
                let mut i: usize = 0;
                while i <= n
                    invariant
                        i <= n + 1,
                        n < usize::MAX,
                        zeros.len() == i,
                    decreases n + 1 - i,
                {
                    zeros.push(0);
                    i += 1;
                }
                zeros
            },
        };
        let rects = chunks_from_boundaries(&self.constraints, area, dir, &raw);
        proof {
            lemma_bounds_kept(self.constraints@, area, dir, raw@);
        }
        Ok(rects)
    }
}

/// The sum of a list of parts.
pub open spec fn sum_of(s: Seq<u32>) -> int
    decreases s.len(),
{
    if s.len() == 0 {
        0
    } else {
        sum_of(s.drop_last()) + s.last()
    }
}

proof fn lemma_sum_prefix(s: Seq<u32>, k: int)
    requires
        0 <= k <= s.len(),
    ensures
        0 <= sum_of(s.take(k)) <= sum_of(s),
    decreases s.len() - k,
{
    if k < s.len() {
        lemma_sum_prefix(s, k + 1);
        assert(s.take(k + 1).drop_last() =~= s.take(k));
    } else {
        assert(s.take(k) =~= s);
    }
    lemma_sum_nonneg(s.take(k));
}

proof fn lemma_sum_nonneg(s: Seq<u32>)
    ensures
        sum_of(s) >= 0,
    decreases s.len(),
{
    if s.len() > 0 {
        lemma_sum_nonneg(s.drop_last());
    }
}

proof fn lemma_scoped_concat(a: Seq<LinearConstraint>, b: Seq<LinearConstraint>, n: int)
    requires
        well_scoped(a, n),
        well_scoped(b, n),
    ensures
        well_scoped(a + b, n),
{
    assert forall|k: int| 0 <= k < (a + b).len() implies {
        &&& (#[trigger] (a + b)[k]).expr.reads_below(n)
        &&& (a + b)[k].value > i64::MIN
    } by {
        if k < a.len() {
            assert((a + b)[k] == a[k]);
        } else {
            assert((a + b)[k] == b[k - a.len()]);
        }
    }
}

proof fn lemma_target_bounds(rule: LayoutConstraint, total: int)
    requires
        rule.valid_spec(),
        0 <= total <= i32::MAX,
    ensures
        0 <= rule.target(total) <= i64::MAX,
{
    match rule {
        LayoutConstraint::Percentage(p) => {
            assert(0 <= p * total <= 100 * i32::MAX) by (nonlinear_arith)
                requires
                    0 <= total <= i32::MAX,
                    0 <= p <= 100,
            ;
        },
        LayoutConstraint::Ratio(n, d) => {
            assert(0 <= n * total <= u32::MAX * i32::MAX) by (nonlinear_arith)
                requires
                    0 <= total <= i32::MAX,
                    0 <= n <= u32::MAX,
            ;
            assert(0 <= (n * total) / (d as int) <= n * total) by (nonlinear_arith)
                requires
                    0 <= n * total,
                    d >= 1,
            ;
        },
        _ => {},
    }
}

proof fn lemma_flexible_from_bounds(rules: Seq<LayoutConstraint>, k: int)
    requires
        0 <= k <= rules.len(),
    ensures
        k <= crate::rules::flexible_from(rules, k) <= rules.len(),
    decreases rules.len() - k,
{
    if k < rules.len() {
        lemma_flexible_from_bounds(rules, k + 1);
    }
}

proof fn lemma_upto_scoped(rules: Seq<LayoutConstraint>, total: int, k: int)
    requires
        valid_rules(rules),
        0 <= total <= i32::MAX,
        0 <= k <= rules.len(),
    ensures
        well_scoped(constraints_upto(rules, total, first_flexible(rules), k), rules.len() + 1int),
    decreases k,
{
    let first = first_flexible(rules);
    let n = rules.len() + 1int;
    if k > 0 {
        lemma_upto_scoped(rules, total, k - 1);
        let i = k - 1;
        assert(rules[i].valid_spec());
        lemma_target_bounds(rules[i], total);
        lemma_flexible_from_bounds(rules, 0);
        let ch = chunk_constraints(rules, total, first, i);
        assert forall|j: int| 0 <= j < ch.len() implies {
            &&& (#[trigger] ch[j]).expr.reads_below(n)
            &&& ch[j].value > i64::MIN
        } by {}
        lemma_scoped_concat(constraints_upto(rules, total, first, k - 1), ch, n);
    }
}

proof fn lemma_compiled_scoped(rules: Seq<LayoutConstraint>, start: int, end: int)
    requires
        valid_rules(rules),
        start <= end,
        end - start <= i32::MAX,
        i32::MIN <= start,
        end <= i32::MAX,
    ensures
        well_scoped(compiled(rules, start, end), rules.len() + 1int),
{
    let n = rules.len() + 1int;
    lemma_upto_scoped(rules, end - start, rules.len() as int);
    let anchors = seq![
        mk(crate::rules::Expr::Boundary(0), crate::rules::Relation::Equal, start, crate::rules::Strength::Required),
        mk(crate::rules::Expr::Boundary(rules.len() as usize), crate::rules::Relation::Equal, end, crate::rules::Strength::Required),
    ];
    assert(well_scoped(anchors, n));
    lemma_scoped_concat(
        anchors,
        constraints_upto(rules, end - start, first_flexible(rules), rules.len() as int),
        n,
    );
}

} // verus!

use vstd::prelude::*;
use crate::geometry::{Direction, Rect};
use crate::layout::{can_partition, chunks_of, lemma_bounds_kept, Layout};
use crate::rules::{valid_rules, LayoutConstraint, LayoutError};

verus! {

/// The most recently resolved request and its result.
pub struct Cached {
    pub direction: Direction,
    pub rules: Vec<LayoutConstraint>,
    pub area: Rect,
    pub rects: Vec<Rect>,
}

/// Resolves layouts, remembering the last request so that an unchanged request is
/// answered without solving again.
pub struct Resolver {
    pub last: Option<Cached>,
}

fn copy_vec<T: Copy>(v: &Vec<T>) -> (r: Vec<T>)
    ensures
        r@ == v@,
{
    let mut r: Vec<T> = Vec::new();
    let mut i: usize = 0;
    while i < v.len()
        invariant
            i <= v.len(),
            r@ == v@.take(i as int),
        decreases v.len() - i,
    {
        r.push(v[i]);
        assert(r@ =~= v@.take(i + 1));
        i += 1;
    }
    assert(r@ =~= v@);
    r
}

fn same_rules(a: &Vec<LayoutConstraint>, b: &Vec<LayoutConstraint>) -> (r: bool)
    ensures
        r == (a@ == b@),
{
    if a.len() != b.len() {
        return false;
    }
    let mut i: usize = 0;
    while i < a.len()
        invariant
            i <= a.len(),
            a.len() == b.len(),
            forall|k: int| 0 <= k < i ==> a@[k] == b@[k],
        decreases a.len() - i,
    {
        if a[i] != b[i] {
            return false;
        }
        i += 1;
    }
    assert(a@ =~= b@);
    true
}

impl Cached {
    /// The cached result is one that resolving its request may return.
    pub open spec fn wf(&self) -> bool {
        &&& valid_rules(self.rules@)
        &&& (Layout { direction: self.direction, constraints: self.rules }).partitions(
            self.area,
            self.rects@,
        )
    }

    /// The cache entry was made for this layout and area.
    pub open spec fn is_for(&self, layout: &Layout, area: Rect) -> bool {
        &&& self.direction == layout.direction
        &&& self.rules@ == layout.constraints@
        &&& self.area == area
    }
}

impl Resolver {
    pub open spec fn wf(&self) -> bool {
        self.last matches Some(c) ==> c.wf()
    }

    /// The last request equals `(layout, area)`.
    pub open spec fn hit(&self, layout: &Layout, area: Rect) -> bool {
        self.last matches Some(c) && c.is_for(layout, area)
    }

    /// A resolver with nothing cached.
    pub fn new() -> (r: Resolver)
        ensures
            r.wf(),
            r.last is None,
    {
        Resolver { last: None }
    }

    /// Resolves `layout` over `area` as `Layout::solve` does; when the request
    /// equals the previous one, the previous rectangles are returned without
    /// solving. A successful solve replaces the cached request; a failure leaves
    /// the cache as it was.
    pub fn resolve(&mut self, layout: &Layout, area: Rect) -> (r: Result<Vec<Rect>, LayoutError>)
        requires
            old(self).wf(),
            area.trailing(layout.direction) <= i32::MAX,
            layout.constraints@.len() < usize::MAX,
        ensures
            final(self).wf(),
            (r == Err::<Vec<Rect>, LayoutError>(LayoutError::InvalidRule)) <==> !valid_rules(
                layout.constraints@,
            ),
            valid_rules(layout.constraints@) && !can_partition(layout.constraints@, area, layout.direction)
                ==> r == Err::<Vec<Rect>, LayoutError>(LayoutError::Unsatisfiable),
            valid_rules(layout.constraints@) && can_partition(layout.constraints@, area, layout.direction)
                ==> r is Ok,
            r is Ok ==> layout.partitions(area, r->Ok_0@),
            r is Ok ==> forall|i: int|
                0 <= i < layout.constraints@.len() ==> match #[trigger] layout.constraints@[i] {
                    LayoutConstraint::Max(p) => r->Ok_0@[i].extent(layout.direction) <= p,
                    LayoutConstraint::Min(p) => r->Ok_0@[i].extent(layout.direction) >= p,
                    _ => true,
                },
            old(self).hit(layout, area) ==> *final(self) == *old(self) && r is Ok
                && r->Ok_0@ == old(self).last->Some_0.rects@,
            r is Ok ==> final(self).hit(layout, area) && final(self).last->Some_0.rects@
                == r->Ok_0@,
            r is Err ==> *final(self) == *old(self),
    {
        let is_hit = match &self.last {
            Some(c) => c.direction == layout.direction && c.area == area && same_rules(
                &c.rules,
                &layout.constraints,
            ),
            None => false,
        };
        if is_hit {
            let c = self.last.as_ref().unwrap();
            let rects = copy_vec(&c.rects);
            proof {
                let raw = choose|raw: Seq<i64>|
                    c.rects@ == #[trigger] chunks_of(layout.constraints@, area, layout.direction, raw);
                lemma_bounds_kept(layout.constraints@, area, layout.direction, raw);
            }
            return Ok(rects);
        }
        match layout.solve(area) {
            Ok(rects) => {
                self.last = Some(
                    Cached {
                        direction: layout.direction,
                        rules: copy_vec(&layout.constraints),
                        area,
                        rects: copy_vec(&rects),
                    },
                );
                Ok(rects)
            },
            Err(e) => Err(e),
        }
    }
}

} // verus!

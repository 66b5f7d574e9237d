use rustide::geometry::{Direction, Rect};
use rustide::layout::{chunks_from_boundaries, Layout};
use rustide::resolver::Resolver;
use rustide::rules::{compile, validate, Expr, LayoutConstraint, LayoutError, Relation, Strength};

fn widths(rects: &[Rect]) -> Vec<i32> {
    rects.iter().map(|r| r.w).collect()
}

fn layout(direction: Direction, rules: Vec<LayoutConstraint>) -> Layout {
    Layout::default().direction(direction).constraints(rules)
}

#[test]
fn side_by_side() {
    let area = Rect::from((0, 0, 20, 20));
    let rects = layout(
        Direction::Horizontal,
        vec![LayoutConstraint::Length(10), LayoutConstraint::Length(10)],
    )
    .solve(area)
    .unwrap();
    assert_eq!(rects.len(), 2);
    let (box1, box2) = (rects[0], rects[1]);
    assert_eq!(area.left(), 0);
    assert_eq!(area.right(), 20);
    assert_eq!(box1.left(), 0);
    assert_eq!(box1.right(), 10);
    assert_eq!(box2.left(), 10);
    assert_eq!(box2.right(), 20);
    assert_eq!(box1.h, 20);
    assert_eq!(box2.y, 0);
}

#[test]
fn length_then_unconstrained_takes_the_rest() {
    let rects = layout(
        Direction::Horizontal,
        vec![LayoutConstraint::Length(10), LayoutConstraint::Min(0)],
    )
    .solve(Rect::new(0, 0, 30, 5))
    .unwrap();
    assert_eq!(widths(&rects), vec![10, 20]);
    assert_eq!(rects[1].x, 10);
}

#[test]
fn anchoring_adjacency_and_sizes() {
    let area = Rect::new(7, 3, 93, 11);
    let rects = layout(
        Direction::Horizontal,
        vec![
            LayoutConstraint::Percentage(25),
            LayoutConstraint::Max(4),
            LayoutConstraint::Ratio(1, 3),
            LayoutConstraint::Min(2),
        ],
    )
    .solve(area)
    .unwrap();
    assert_eq!(rects.len(), 4);
    assert_eq!(rects[0].left(), area.left());
    assert_eq!(rects[3].right(), area.right());
    for i in 0..3 {
        assert_eq!(rects[i].right(), rects[i + 1].left());
    }
    for r in &rects {
        assert!(r.w >= 0 && r.h >= 0);
        assert_eq!((r.y, r.h), (3, 11));
    }
}

#[test]
fn percentages_below_hundred_cover_the_area() {
    let rects = layout(
        Direction::Horizontal,
        vec![LayoutConstraint::Percentage(20), LayoutConstraint::Percentage(30)],
    )
    .solve(Rect::new(0, 0, 100, 1))
    .unwrap();
    let total: i32 = rects.iter().map(|r| r.w).sum();
    assert_eq!(total, 100);
    assert_eq!(rects[1].right(), 100);
}

#[test]
fn percentages_split_vertically() {
    let rects = layout(
        Direction::Vertical,
        vec![LayoutConstraint::Percentage(50), LayoutConstraint::Percentage(50)],
    )
    .solve(Rect::new(2, 0, 10, 40))
    .unwrap();
    assert_eq!(rects, vec![Rect::new(2, 0, 10, 20), Rect::new(2, 20, 10, 20)]);
}

#[test]
fn resolving_twice_gives_the_same_rects() {
    let l = layout(
        Direction::Horizontal,
        vec![LayoutConstraint::Min(0), LayoutConstraint::Length(7), LayoutConstraint::Max(9)],
    );
    let area = Rect::new(0, 0, 50, 50);
    let a = l.solve(area).unwrap();
    let b = l.solve(area).unwrap();
    assert_eq!(a, b);
    let mut resolver = Resolver::new();
    let c = resolver.resolve(&l, area).unwrap();
    let d = resolver.resolve(&l, area).unwrap();
    assert_eq!(c, a);
    assert_eq!(d, a);
}

#[test]
fn resolver_re_solves_a_changed_request() {
    let mut resolver = Resolver::new();
    let l = layout(Direction::Horizontal, vec![LayoutConstraint::Length(4), LayoutConstraint::Min(0)]);
    let first = resolver.resolve(&l, Rect::new(0, 0, 10, 1)).unwrap();
    let second = resolver.resolve(&l, Rect::new(0, 0, 20, 1)).unwrap();
    assert_eq!(widths(&first), vec![4, 6]);
    assert_eq!(widths(&second), vec![4, 16]);
    let cached = resolver.last.as_ref().unwrap();
    assert_eq!(cached.area, Rect::new(0, 0, 20, 1));
}

#[test]
fn two_by_ten_in_twenty() {
    let rects = layout(
        Direction::Horizontal,
        vec![LayoutConstraint::Length(10), LayoutConstraint::Length(10)],
    )
    .solve(Rect::new(0, 0, 20, 3))
    .unwrap();
    assert_eq!(rects, vec![Rect::new(0, 0, 10, 3), Rect::new(10, 0, 10, 3)]);
}

#[test]
fn inverted_area_is_unsatisfiable() {
    let area = Rect::from_corners(10, 0, 0, 10);
    let r = layout(Direction::Horizontal, vec![LayoutConstraint::Length(1)]).solve(area);
    assert_eq!(r, Err(LayoutError::Unsatisfiable));
    let mut resolver = Resolver::new();
    assert_eq!(
        resolver.resolve(&layout(Direction::Horizontal, vec![LayoutConstraint::Min(1)]), area),
        Err(LayoutError::Unsatisfiable)
    );
    assert!(resolver.last.is_none());
}

#[test]
fn invalid_rules_are_rejected() {
    let area = Rect::new(0, 0, 10, 10);
    let bad_percentage = layout(Direction::Horizontal, vec![LayoutConstraint::Percentage(150)]);
    assert_eq!(bad_percentage.solve(area), Err(LayoutError::InvalidRule));
    let bad_ratio = layout(
        Direction::Vertical,
        vec![LayoutConstraint::Length(1), LayoutConstraint::Ratio(1, 0)],
    );
    assert_eq!(bad_ratio.solve(area), Err(LayoutError::InvalidRule));
    assert_eq!(Layout::default().solve(area), Err(LayoutError::InvalidRule));
    // Rules are checked before the area.
    let inverted = Rect::from_corners(5, 0, 0, 1);
    assert_eq!(bad_percentage.solve(inverted), Err(LayoutError::InvalidRule));
    assert_eq!(validate(&vec![LayoutConstraint::Percentage(100)]), Ok(()));
}

#[test]
fn later_flexible_chunks_get_a_fill_term() {
    let cons = compile(&vec![LayoutConstraint::Min(1), LayoutConstraint::Length(2), LayoutConstraint::Max(8)], 0, 30);
    let last = cons[cons.len() - 1];
    assert_eq!((last.expr, last.relation, last.value, last.strength), (Expr::ExtentDiff(2, 0), Relation::Equal, 0, Strength::Medium));
    assert_eq!(cons.len(), 2 + 3 + 2 + 4);
}

#[test]
fn flexible_chunks_share_leftover_space() {
    let rects = layout(
        Direction::Horizontal,
        vec![LayoutConstraint::Min(0), LayoutConstraint::Min(0)],
    )
    .solve(Rect::new(0, 0, 30, 1))
    .unwrap();
    assert_eq!(widths(&rects), vec![15, 15]);
}

#[test]
fn max_is_filled_before_min_grows() {
    let rects = layout(
        Direction::Horizontal,
        vec![LayoutConstraint::Max(5), LayoutConstraint::Min(5)],
    )
    .solve(Rect::new(0, 0, 30, 1))
    .unwrap();
    assert_eq!(widths(&rects), vec![5, 25]);
}

#[test]
fn fractional_solutions_are_rounded_to_whole_units() {
    let rects = layout(
        Direction::Horizontal,
        vec![LayoutConstraint::Min(0), LayoutConstraint::Min(0), LayoutConstraint::Min(0)],
    )
    .solve(Rect::new(0, 0, 10, 1))
    .unwrap();
    assert_eq!(widths(&rects), vec![3, 4, 3]);
}

#[test]
fn horizontal_splits_by_parts() {
    let l = Layout::horizontal(&vec![1, 4]);
    assert_eq!(l.direction, Direction::Horizontal);
    assert_eq!(
        l.constraints,
        vec![LayoutConstraint::Ratio(1, 5), LayoutConstraint::Ratio(4, 5)]
    );
    let rects = l.solve(Rect::new(0, 0, 50, 10)).unwrap();
    assert_eq!(widths(&rects), vec![10, 40]);
}

#[test]
fn boundaries_are_settled_into_the_area() {
    let area = Rect::new(0, 1, 10, 2);
    let free = vec![LayoutConstraint::Min(0); 3];
    let rects = chunks_from_boundaries(&free, area, Direction::Horizontal, &vec![99, 5, -3, 7]);
    assert_eq!(
        rects,
        vec![Rect::new(0, 1, 5, 2), Rect::new(5, 1, 0, 2), Rect::new(5, 1, 5, 2)]
    );
    let two = vec![LayoutConstraint::Length(1), LayoutConstraint::Length(1)];
    let rects = chunks_from_boundaries(&two, area, Direction::Vertical, &vec![0, 40, 0]);
    assert_eq!(rects, vec![Rect::new(0, 1, 10, 2), Rect::new(0, 3, 10, 0)]);
}

#[test]
fn settled_boundaries_keep_min_and_max() {
    let area = Rect::new(0, 0, 10, 1);
    let rules = vec![LayoutConstraint::Max(3), LayoutConstraint::Min(4)];
    let rects = chunks_from_boundaries(&rules, area, Direction::Horizontal, &vec![0, 9, 0]);
    assert_eq!(widths(&rects), vec![3, 7]);
    let rects = chunks_from_boundaries(&rules, area, Direction::Horizontal, &vec![0, 8, 0]);
    assert_eq!(widths(&rects), vec![3, 7]);
    let rules = vec![LayoutConstraint::Length(2), LayoutConstraint::Min(6)];
    let rects = chunks_from_boundaries(&rules, area, Direction::Horizontal, &vec![0, 9, 0]);
    assert_eq!(widths(&rects), vec![4, 6]);
}

#[test]
fn bounds_that_cannot_fit_are_unsatisfiable() {
    let area = Rect::new(0, 0, 30, 1);
    let too_big = layout(Direction::Horizontal, vec![LayoutConstraint::Min(20), LayoutConstraint::Min(11)]);
    assert_eq!(too_big.solve(area), Err(LayoutError::Unsatisfiable));
    let too_small = layout(Direction::Horizontal, vec![LayoutConstraint::Max(10), LayoutConstraint::Max(19)]);
    assert_eq!(too_small.solve(area), Err(LayoutError::Unsatisfiable));
    let exact = layout(Direction::Horizontal, vec![LayoutConstraint::Max(10), LayoutConstraint::Max(20)]);
    assert_eq!(widths(&exact.solve(area).unwrap()), vec![10, 20]);
    let tight = layout(Direction::Horizontal, vec![LayoutConstraint::Min(20), LayoutConstraint::Min(10)]);
    assert_eq!(widths(&tight.solve(area).unwrap()), vec![20, 10]);
}

#[test]
fn strong_rules_yield_to_required_bounds() {
    let rects = layout(
        Direction::Horizontal,
        vec![LayoutConstraint::Length(25), LayoutConstraint::Min(15)],
    )
    .solve(Rect::new(0, 0, 30, 1))
    .unwrap();
    assert_eq!(widths(&rects), vec![15, 15]);
}

#[test]
fn compiled_system_pins_edges_and_rules() {
    let cons = compile(&vec![LayoutConstraint::Percentage(50), LayoutConstraint::Max(3)], 4, 24);
    assert_eq!(cons.len(), 7);
    assert_eq!(cons[0].expr, Expr::Boundary(0));
    assert_eq!((cons[0].value, cons[0].strength), (4, Strength::Required));
    assert_eq!((cons[1].expr, cons[1].value), (Expr::Boundary(2), 24));
    assert_eq!((cons[3].expr, cons[3].relation, cons[3].value), (Expr::Extent(0), Relation::Equal, 10));
    assert_eq!((cons[4].expr, cons[4].relation, cons[4].value), (Expr::Extent(1), Relation::AtLeast, 0));
    assert_eq!((cons[5].relation, cons[5].value, cons[5].strength), (Relation::AtMost, 3, Strength::Required));
    assert_eq!((cons[6].relation, cons[6].strength), (Relation::Equal, Strength::Weak));
}

#[test]
fn rect_edges() {
    let r = Rect::new(-3, 4, 10, 6);
    assert_eq!((r.left(), r.right(), r.top(), r.bottom()), (-3, 7, 4, 10));
    assert_eq!(Rect::from_corners(1, 2, 5, 9), Rect::new(1, 2, 4, 7));
}

use vstd::prelude::*;

verus! {

/// The axis along which an area is partitioned.
#[derive(Clone, Copy, Debug, PartialEq, Eq, Structural)]
pub enum Direction {
    Horizontal,
    Vertical,
}

/// An axis-aligned rectangle in integer coordinates.
#[derive(Clone, Copy, Debug, PartialEq, Eq, Structural)]
pub struct Rect {
    pub x: i32,
    pub y: i32,
    pub w: i32,
    pub h: i32,
}

impl Rect {
    pub open spec fn left_spec(self) -> int {
        self.x as int
    }

    pub open spec fn right_spec(self) -> int {
        self.x + self.w
    }

    pub open spec fn top_spec(self) -> int {
        self.y as int
    }

    pub open spec fn bottom_spec(self) -> int {
        self.y + self.h
    }

    /// The edge where the area starts along `dir`.
    pub open spec fn leading(self, dir: Direction) -> int {
        match dir {
            Direction::Horizontal => self.left_spec(),
            Direction::Vertical => self.top_spec(),
        }
    }

    /// The edge where the area ends along `dir`.
    pub open spec fn trailing(self, dir: Direction) -> int {
        match dir {
            Direction::Horizontal => self.right_spec(),
            Direction::Vertical => self.bottom_spec(),
        }
    }

    /// The size of the rectangle along `dir`.
    pub open spec fn extent(self, dir: Direction) -> int {
        self.trailing(dir) - self.leading(dir)
    }

    pub fn new(x: i32, y: i32, w: i32, h: i32) -> (r: Rect)
        ensures
            r == (Rect { x, y, w, h }),
    {
        Rect { x, y, w, h }
    }

    /// Builds the rectangle spanned by a min corner and a max corner.
    pub fn from_corners(min_x: i32, min_y: i32, max_x: i32, max_y: i32) -> (r: Rect)
        requires
            i32::MIN <= max_x - min_x <= i32::MAX,
            i32::MIN <= max_y - min_y <= i32::MAX,
        ensures
            r.left_spec() == min_x,
            r.top_spec() == min_y,
            r.right_spec() == max_x,
            r.bottom_spec() == max_y,
    {
        Rect { x: min_x, y: min_y, w: max_x - min_x, h: max_y - min_y }
    }

    /// Returns the x-coordinate for the left side of the rectangle.
    pub fn left(&self) -> (r: i64)
        ensures
            r == self.left_spec(),
    {
        self.x as i64
    }

    /// Returns the x-coordinate for the right side of the rectangle.
    pub fn right(&self) -> (r: i64)
        ensures
            r == self.right_spec(),
    {
        self.x as i64 + self.w as i64
    }

    /// Returns the y-coordinate for the top side of the rectangle.
    pub fn top(&self) -> (r: i64)
        ensures
            r == self.top_spec(),
    {
        self.y as i64
    }

    /// Returns the y-coordinate for the bottom side of the rectangle.
    pub fn bottom(&self) -> (r: i64)
        ensures
            r == self.bottom_spec(),
    {
        self.y as i64 + self.h as i64
    }

    /// The leading edge along `dir`.
    pub fn start_along(&self, dir: Direction) -> (r: i64)
        ensures
            r == self.leading(dir),
    {
        match dir {
            Direction::Horizontal => self.left(),
            Direction::Vertical => self.top(),
        }
    }

    /// The trailing edge along `dir`.
    pub fn end_along(&self, dir: Direction) -> (r: i64)
        ensures
            r == self.trailing(dir),
    {
        match dir {
            Direction::Horizontal => self.right(),
            Direction::Vertical => self.bottom(),
        }
    }
}

impl From<(i32, i32, i32, i32)> for Rect {
    fn from(t: (i32, i32, i32, i32)) -> (r: Rect)
        ensures
            r == (Rect { x: t.0, y: t.1, w: t.2, h: t.3 }),
    {
        Rect { x: t.0, y: t.1, w: t.2, h: t.3 }
    }
}

impl vstd::std_specs::convert::FromSpecImpl<(i32, i32, i32, i32)> for Rect {
    open spec fn obeys_from_spec() -> bool {
        true
    }

    open spec fn from_spec(t: (i32, i32, i32, i32)) -> Rect {
        Rect { x: t.0, y: t.1, w: t.2, h: t.3 }
    }
}

} // verus!

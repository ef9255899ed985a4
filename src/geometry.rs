use vstd::prelude::*;

verus! {

/// Largest magnitude of a document coordinate or length, in pixels.
pub const COORD_LIMIT: i64 = 4294967296;

/// Largest screen width or height, in pixels.
pub const SCREEN_LIMIT: i64 = 1048576;

/// Largest magnitude of a place computed from document coordinates, such as
/// the origin of a table cell.
pub const PLACE_LIMIT: i64 = 140737488355328;

/// Largest magnitude of a coordinate of a drawn shape.
pub const FIT_LIMIT: i64 = 1125899906842624;

pub open spec fn coord_ok(v: int) -> bool {
    -COORD_LIMIT <= v <= COORD_LIMIT
}

pub open spec fn coord_placed(v: int) -> bool {
    -PLACE_LIMIT <= v <= PLACE_LIMIT
}

pub open spec fn coord_fits(v: int) -> bool {
    -FIT_LIMIT <= v <= FIT_LIMIT
}

/// A point in pixel space; `y` grows downwards.
#[derive(Clone, Copy, Debug, PartialEq, Eq, Structural)]
pub struct Point {
    pub x: i64,
    pub y: i64,
}

/// A width and a height in pixels.
#[derive(Clone, Copy, Debug, PartialEq, Eq, Structural)]
pub struct Size {
    pub w: i64,
    pub h: i64,
}

/// An axis-aligned rectangle given by its top-left corner and its size.
/// A zero or negative size is allowed and describes a degenerate rectangle.
#[derive(Clone, Copy, Debug, PartialEq, Eq, Structural)]
pub struct Rect {
    pub pos: Point,
    pub size: Size,
}

/// A point in normalized device coordinates, held exactly as two fractions:
/// the horizontal coordinate is `x / w` and the vertical one is `y / h`.
#[derive(Clone, Copy, Debug, PartialEq, Eq, Structural)]
pub struct Ndc {
    pub x: i64,
    pub y: i64,
    pub w: i64,
    pub h: i64,
}

impl Point {
    pub open spec fn ok(self) -> bool {
        coord_ok(self.x as int) && coord_ok(self.y as int)
    }

    pub open spec fn fits(self) -> bool {
        coord_fits(self.x as int) && coord_fits(self.y as int)
    }

    pub fn new(x: i64, y: i64) -> (r: Point)
        ensures
            r == (Point { x, y }),
    {
        Point { x, y }
    }
}

impl Size {
    pub open spec fn ok(self) -> bool {
        coord_ok(self.w as int) && coord_ok(self.h as int)
    }

    pub open spec fn screen_ok(self) -> bool {
        0 < self.w <= SCREEN_LIMIT && 0 < self.h <= SCREEN_LIMIT
    }

    pub fn new(w: i64, h: i64) -> (r: Size)
        ensures
            r == (Size { w, h }),
    {
        Size { w, h }
    }
}

impl Rect {
    pub open spec fn ok(self) -> bool {
        self.pos.ok() && self.size.ok()
    }

    pub open spec fn fits(self) -> bool {
        self.pos.fits() && coord_fits(self.size.w / 2) && coord_fits(self.size.h / 2)
    }

    pub open spec fn max_x(self) -> int {
        self.pos.x + self.size.w
    }

    pub open spec fn max_y(self) -> int {
        self.pos.y + self.size.h
    }

    pub fn new(pos: Point, size: Size) -> (r: Rect)
        ensures
            r == (Rect { pos, size }),
    {
        Rect { pos, size }
    }

    /// The rectangle whose top-left corner is `min` and bottom-right corner is `max`.
    pub fn from_min_max(min: Point, max: Point) -> (r: Rect)
        requires
            min.fits(),
            max.fits(),
        ensures
            r.fits(),
            r.pos == min,
            r.max_x() == max.x,
            r.max_y() == max.y,
    {
        Rect { pos: min, size: Size { w: max.x - min.x, h: max.y - min.y } }
    }

    /// The bottom-right corner.
    pub fn max(&self) -> (r: Point)
        requires
            self.fits(),
        ensures
            r.x == self.max_x(),
            r.y == self.max_y(),
    {
        Point { x: self.pos.x + self.size.w, y: self.pos.y + self.size.h }
    }

    pub open spec fn contains_spec(self, p: Point) -> bool {
        self.pos.x <= p.x <= self.max_x() && self.pos.y <= p.y <= self.max_y()
    }

    /// Whether `p` lies inside the rectangle, its border included.
    pub fn contains(&self, p: Point) -> (r: bool)
        requires
            self.fits(),
        ensures
            r == self.contains_spec(p),
    {
        let max = self.max();
        self.pos.x <= p.x && p.x <= max.x && self.pos.y <= p.y && p.y <= max.y
    }

    /// The same rectangle moved by `(dx, dy)`.
    pub open spec fn shifted(self, dx: int, dy: int) -> Rect {
        Rect { pos: Point { x: (self.pos.x + dx) as i64, y: (self.pos.y + dy) as i64 }, size: self.size }
    }

    pub fn shift(&self, dx: i64, dy: i64) -> (r: Rect)
        requires
            self.ok(),
            coord_placed(dx as int),
            coord_placed(dy as int),
        ensures
            r == self.shifted(dx as int, dy as int),
            r.fits(),
            r.size.ok(),
            coord_placed(r.pos.x - dx),
            coord_placed(r.pos.y - dy),
    {
        Rect { pos: Point { x: self.pos.x + dx, y: self.pos.y + dy }, size: self.size }
    }
}

impl Ndc {
    /// `x / w` lies in `[-1, 1]`.
    pub open spec fn x_in_unit(self) -> bool {
        -self.w <= self.x <= self.w
    }

    /// `y / h` lies in `[-1, 1]`.
    pub open spec fn y_in_unit(self) -> bool {
        -self.h <= self.y <= self.h
    }
}

/// Normalized device coordinates of a pixel point:
/// `-1 + 2x/width` across and `1 - 2y/height` down.
pub open spec fn transform(x: int, y: int, screen: Size) -> Ndc {
    Ndc {
        x: (2 * x - screen.w) as i64,
        y: (screen.h - 2 * y) as i64,
        w: screen.w,
        h: screen.h,
    }
}

/// Maps a pixel point to normalized device coordinates.
pub fn point(x: i64, y: i64, screen: Size) -> (r: Ndc)
    requires
        coord_fits(x as int),
        coord_fits(y as int),
        screen.screen_ok(),
    ensures
        r == transform(x as int, y as int, screen),
        r.x == 2 * x - screen.w,
        r.y == screen.h - 2 * y,
{
    Ndc { x: 2 * x - screen.w, y: screen.h - 2 * y, w: screen.w, h: screen.h }
}

/// A point maps into the unit square `[-1, 1] x [-1, 1]` exactly when it lies
/// on the screen, its edges included.
pub proof fn lemma_transform_in_unit_square(p: Point, screen: Size)
    requires
        p.fits(),
        screen.screen_ok(),
    ensures
        (transform(p.x as int, p.y as int, screen).x_in_unit()
            && transform(p.x as int, p.y as int, screen).y_in_unit())
            <==> (0 <= p.x <= screen.w && 0 <= p.y <= screen.h),
{
}


/// Whether `v` is within the range of document coordinates.
pub fn coord_in_range(v: i64) -> (r: bool)
    ensures
        r == coord_ok(v as int),
{
    -COORD_LIMIT <= v && v <= COORD_LIMIT
}

impl Point {
    pub fn is_ok(&self) -> (r: bool)
        ensures
            r == self.ok(),
    {
        coord_in_range(self.x) && coord_in_range(self.y)
    }
}

impl Rect {
    pub fn is_ok(&self) -> (r: bool)
        ensures
            r == self.ok(),
    {
        self.pos.is_ok() && coord_in_range(self.size.w) && coord_in_range(self.size.h)
    }
}

} // verus!

//! The two kinds of shape: their point tests and bounding boxes.
use vstd::prelude::*;

use crate::error::ConfigError;
use crate::vector2::Vector2;

verus! {

/// An axis-aligned rectangle. `position` is its top-left cell; it covers
/// `width` columns to the right and `height` rows downward (toward smaller `y`),
/// so it holds `position` and not `position + (width, height)`.
#[derive(Debug, Clone, Copy, PartialEq, Eq)]
pub struct Rect {
    pub position: Vector2<i64>,
    pub width: i64,
    pub height: i64,
}

/// A disc: every point whose Euclidean distance to `position` is at most `radius`.
#[derive(Debug, Clone, Copy, PartialEq, Eq)]
pub struct Circle {
    pub position: Vector2<i64>,
    pub radius: i64,
}

/// A shape that can be placed in a scene.
#[derive(Debug, Clone, Copy, PartialEq, Eq)]
pub enum Shape {
    Rect(Rect),
    Circle(Circle),
}

impl Rect {
    pub open spec fn wf(self) -> bool {
        self.width > 0 && self.height > 0
    }

    /// Columns `[x, x + width)`, rows `(y - height, y]`.
    pub open spec fn contains_spec(self, p: Vector2<i64>) -> bool {
        &&& self.position.0 <= p.0 < self.position.0 + self.width
        &&& self.position.1 - self.height < p.1 <= self.position.1
    }

    /// The two rectangles share an integer point.
    pub open spec fn overlaps(self, other: Rect) -> bool {
        &&& self.position.0 < other.position.0 + other.width
        &&& other.position.0 < self.position.0 + self.width
        &&& self.position.1 - self.height < other.position.1
        &&& other.position.1 - other.height < self.position.1
    }

    pub fn new(position: Vector2<i64>, width: i64, height: i64) -> (r: Result<Rect, ConfigError>)
        ensures
            width > 0 && height > 0 ==> r == Ok::<Rect, ConfigError>(
                Rect { position, width, height },
            ),
            !(width > 0 && height > 0) ==> r == Err::<Rect, ConfigError>(
                ConfigError::NonPositiveSize,
            ),
    {
        if width > 0 && height > 0 {
            Ok(Rect { position, width, height })
        } else {
            Err(ConfigError::NonPositiveSize)
        }
    }

    pub fn contains(&self, p: &Vector2<i64>) -> (r: bool)
        ensures
            r == self.contains_spec(*p),
    {
        let (x, y) = (p.0 as i128, p.1 as i128);
        let left = self.position.0 as i128;
        let top = self.position.1 as i128;
        left <= x && x < left + self.width as i128 && top - (self.height as i128) < y && y <= top
    }

    /// A rectangle is its own bounding box.
    pub fn bounding_box(&self) -> (r: Rect)
        ensures
            r == *self,
    {
        *self
    }

    /// The standard overlap test: each one's least corner lies before the
    /// other's far edge on both axes.
    pub fn intersects(&self, other: &Rect) -> (r: bool)
        ensures
            r == self.overlaps(*other),
    {
        let (l0, t0) = (self.position.0 as i128, self.position.1 as i128);
        let (l1, t1) = (other.position.0 as i128, other.position.1 as i128);
        l0 < l1 + other.width as i128 && l1 < l0 + self.width as i128 && t0 - (self.height as i128)
            < t1 && t1 - (other.height as i128) < t0
    }
}

/// A point held by two rectangles makes them overlap.
pub proof fn lemma_common_point_overlaps(a: Rect, b: Rect, p: Vector2<i64>)
    requires
        a.contains_spec(p),
        b.contains_spec(p),
    ensures
        a.overlaps(b),
{
}

/// A rectangle holds its own position and none of the corners reached by
/// adding its width, its height or both; its bottom edge is open too.
pub proof fn lemma_rect_half_open(r: Rect, p: Vector2<i64>)
    requires
        r.wf(),
    ensures
        p == r.position ==> r.contains_spec(p),
        p.0 == r.position.0 + r.width && p.1 == r.position.1 ==> !r.contains_spec(p),
        p.0 == r.position.0 && p.1 == r.position.1 + r.height ==> !r.contains_spec(p),
        p.0 == r.position.0 + r.width && p.1 == r.position.1 + r.height ==> !r.contains_spec(p),
        p.0 == r.position.0 && p.1 == r.position.1 - r.height ==> !r.contains_spec(p),
{
}

impl Circle {
    /// The radius is positive and the bounding box fits the coordinate range.
    pub open spec fn wf(self) -> bool {
        &&& self.radius > 0
        &&& self.position.0 - self.radius >= i64::MIN
        &&& self.position.1 + self.radius <= i64::MAX
        &&& 2 * self.radius + 1 <= i64::MAX
    }

    pub open spec fn dist_sq(self, p: Vector2<i64>) -> int {
        (p.0 - self.position.0) * (p.0 - self.position.0) + (p.1 - self.position.1) * (p.1
            - self.position.1)
    }

    /// Distance to the centre at most the radius, boundary included.
    pub open spec fn contains_spec(self, p: Vector2<i64>) -> bool {
        self.radius >= 0 && self.dist_sq(p) <= self.radius * self.radius
    }

    /// The square of cells from `center - radius` to `center + radius` on both
    /// axes: side `2 * radius + 1`, centred on the centre cell.
    pub open spec fn bbox_spec(self) -> Rect {
        Rect {
            position: Vector2(
                (self.position.0 - self.radius) as i64,
                (self.position.1 + self.radius) as i64,
            ),
            width: (2 * self.radius + 1) as i64,
            height: (2 * self.radius + 1) as i64,
        }
    }

    pub fn new(position: Vector2<i64>, radius: i64) -> (r: Result<Circle, ConfigError>)
        ensures
            radius <= 0 ==> r == Err::<Circle, ConfigError>(ConfigError::NonPositiveRadius),
            radius > 0 && !(Circle { position, radius }).wf() ==> r == Err::<Circle, ConfigError>(
                ConfigError::OutOfRange,
            ),
            (Circle { position, radius }).wf() ==> r == Ok::<Circle, ConfigError>(
                Circle { position, radius },
            ),
    {
        if radius <= 0 {
            Err(ConfigError::NonPositiveRadius)
        } else if position.0 as i128 - (radius as i128) < i64::MIN as i128 || position.1 as i128
            + radius as i128 > i64::MAX as i128 || 2 * (radius as i128) + 1 > i64::MAX as i128 {
            Err(ConfigError::OutOfRange)
        } else {
            Ok(Circle { position, radius })
        }
    }

    pub fn contains(&self, p: &Vector2<i64>) -> (r: bool)
        ensures
            r == self.contains_spec(*p),
    {
        let r = self.radius as i128;
        if r < 0 {
            return false;
        }
        let dx = p.0 as i128 - self.position.0 as i128;
        let dy = p.1 as i128 - self.position.1 as i128;
        let adx = if dx < 0 { -dx } else { dx };
        let ady = if dy < 0 { -dy } else { dy };
        if adx > r || ady > r {
            proof {
                lemma_far_axis_outside(dx as int, dy as int, r as int);
            }
            return false;
        }
        assert(adx * adx <= r * r && ady * ady <= r * r && r * r < 0x4000_0000_0000_0000_0000_0000_0000_0000)
            by (nonlinear_arith)
            requires
                0 <= adx <= r,
                0 <= ady <= r,
                r < 0x8000_0000_0000_0000,
        ;
        assert(dx * dx == adx * adx && dy * dy == ady * ady) by (nonlinear_arith)
            requires
                adx == dx || adx == -dx,
                ady == dy || ady == -dy,
        ;
        dx * dx + dy * dy <= r * r
    }

    pub fn bounding_box(&self) -> (r: Rect)
        requires
            self.wf(),
        ensures
            r == self.bbox_spec(),
    {
        Rect {
            position: Vector2(self.position.0 - self.radius, self.position.1 + self.radius),
            width: 2 * self.radius + 1,
            height: 2 * self.radius + 1,
        }
    }
}

/// A point exactly a radius away from the centre is inside; any point
/// farther away is outside.
pub proof fn lemma_circle_boundary(c: Circle, p: Vector2<i64>)
    requires
        c.wf(),
    ensures
        c.dist_sq(p) == c.radius * c.radius ==> c.contains_spec(p),
        c.dist_sq(p) > c.radius * c.radius ==> !c.contains_spec(p),
{
}

proof fn lemma_far_axis_outside(dx: int, dy: int, r: int)
    requires
        r >= 0,
        dx > r || -dx > r || dy > r || -dy > r,
    ensures
        dx * dx + dy * dy > r * r,
{
    assert(dx * dx + dy * dy > r * r) by (nonlinear_arith)
        requires
            r >= 0,
            dx > r || -dx > r || dy > r || -dy > r,
    ;
}

/// Every point of a circle lies in its bounding box.
pub proof fn lemma_circle_in_bbox(c: Circle, p: Vector2<i64>)
    requires
        c.wf(),
        c.contains_spec(p),
    ensures
        c.bbox_spec().contains_spec(p),
{
    let dx = p.0 - c.position.0;
    let dy = p.1 - c.position.1;
    if dx > c.radius || -dx > c.radius || dy > c.radius || -dy > c.radius {
        lemma_far_axis_outside(dx, dy, c.radius as int);
    }
}

impl Shape {
    pub open spec fn wf(self) -> bool {
        match self {
            Shape::Rect(r) => r.wf(),
            Shape::Circle(c) => c.wf(),
        }
    }

    pub open spec fn contains_spec(self, p: Vector2<i64>) -> bool {
        match self {
            Shape::Rect(r) => r.contains_spec(p),
            Shape::Circle(c) => c.contains_spec(p),
        }
    }

    pub open spec fn bbox_spec(self) -> Rect {
        match self {
            Shape::Rect(r) => r,
            Shape::Circle(c) => c.bbox_spec(),
        }
    }

    pub fn contains(&self, p: &Vector2<i64>) -> (r: bool)
        ensures
            r == self.contains_spec(*p),
    {
        match self {
            Shape::Rect(r) => r.contains(p),
            Shape::Circle(c) => c.contains(p),
        }
    }

    pub fn bounding_box(&self) -> (r: Rect)
        requires
            self.wf(),
        ensures
            r == self.bbox_spec(),
    {
        match self {
            Shape::Rect(r) => r.bounding_box(),
            Shape::Circle(c) => c.bounding_box(),
        }
    }
}

/// Every point of a shape lies in its bounding box.
pub proof fn lemma_shape_in_bbox(s: Shape, p: Vector2<i64>)
    requires
        s.wf(),
        s.contains_spec(p),
    ensures
        s.bbox_spec().contains_spec(p),
{
    if let Shape::Circle(c) = s {
        lemma_circle_in_bbox(c, p);
    }
}

} // verus!

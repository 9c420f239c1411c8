//! Axis-aligned bounding boxes and their overlap tests.
use vstd::prelude::*;
use crate::geometry::{abs, sign, Vec2, COORD_MAX};

verus! {

/// An axis-aligned box given by its center and its half extents.
#[derive(Clone, Copy, Debug, PartialEq, Eq, Structural)]
pub struct AABB {
    pub center: Vec2,
    pub half_size: Vec2,
}

impl AABB {
    /// Center and half extents lie in the range where the overlap tests
    /// cannot overflow; half extents are not negative.
    pub open spec fn wf(self) -> bool {
        self.center.bounded(2 * COORD_MAX) && 0 <= self.half_size.x <= COORD_MAX && 0
            <= self.half_size.y <= COORD_MAX
    }

    /// One of the half extents is zero.
    pub open spec fn degenerate(self) -> bool {
        self.half_size.x == 0 || self.half_size.y == 0
    }

    /// Separating-axis test: on both axes the distance of the centers is at
    /// most the sum of the half extents.
    pub open spec fn overlaps_spec(self, other: AABB) -> bool {
        abs(self.center.x - other.center.x) <= self.half_size.x + other.half_size.x && abs(
            self.center.y - other.center.y,
        ) <= self.half_size.y + other.half_size.y
    }

    /// Push-out depth of `self` out of `other` along x.
    pub open spec fn penetration_x(self, other: AABB) -> int {
        let d = self.center.x - other.center.x;
        sign(d) * (self.half_size.x + other.half_size.x - abs(d))
    }

    /// Push-out depth of `self` out of `other` along y.
    pub open spec fn penetration_y(self, other: AABB) -> int {
        let d = self.center.y - other.center.y;
        sign(d) * (self.half_size.y + other.half_size.y - abs(d))
    }

    /// What `overlaps_signed` reports: whether the boxes overlap with
    /// neither of them degenerate.
    pub open spec fn overlaps_signed_spec(self, other: AABB) -> bool {
        !self.degenerate() && !other.degenerate() && self.overlaps_spec(other)
    }

    pub fn new(center: Vec2, half_size: Vec2) -> (r: AABB)
        ensures
            r.center == center,
            r.half_size == half_size,
    {
        AABB { center, half_size }
    }

    /// Whether the boxes overlap; touching boxes count as overlapping.
    pub fn overlaps(&self, other: AABB) -> (r: bool)
        requires
            self.wf(),
            other.wf(),
        ensures
            r == self.overlaps_spec(other),
    {
        let dx = abs_i64(self.center.x - other.center.x);
        if dx > self.half_size.x + other.half_size.x {
            return false;
        }
        let dy = abs_i64(self.center.y - other.center.y);
        if dy > self.half_size.y + other.half_size.y {
            return false;
        }
        true
    }

    /// Overlap test with the per-axis push-out vector of `self` out of
    /// `other`. Reports `(false, (0, 0))` when either box is degenerate or
    /// the boxes are apart.
    pub fn overlaps_signed(&self, other: &AABB) -> (r: (bool, Vec2))
        requires
            self.wf(),
            other.wf(),
        ensures
            r.0 == self.overlaps_signed_spec(*other),
            r.0 ==> r.1.x == self.penetration_x(*other) && r.1.y == self.penetration_y(*other),
            !r.0 ==> r.1 == (Vec2 { x: 0, y: 0 }),
    {
        let degenerate = self.half_size.x == 0 || self.half_size.y == 0;
        let other_degenerate = other.half_size.x == 0 || other.half_size.y == 0;
        if degenerate || other_degenerate || !self.overlaps(*other) {
            return (false, Vec2 { x: 0, y: 0 });
        }
        let dx = self.center.x - other.center.x;
        let dy = self.center.y - other.center.y;
        let px = signed_depth(dx, other.half_size.x + self.half_size.x);
        let py = signed_depth(dy, other.half_size.y + self.half_size.y);
        (true, Vec2 { x: px, y: py })
    }
}

fn abs_i64(v: i64) -> (r: i64)
    requires
        v > i64::MIN,
    ensures
        r == abs(v as int),
{
    if v < 0 {
        -v
    } else {
        v
    }
}

/// `sign(d) * (reach - |d|)`: how far a box whose center is `d` from the
/// other's must move, in the direction of `d`, to stop overlapping.
fn signed_depth(d: i64, reach: i64) -> (r: i64)
    requires
        -4 * COORD_MAX <= d <= 4 * COORD_MAX,
        0 <= reach <= 2 * COORD_MAX,
    ensures
        r == sign(d as int) * (reach - abs(d as int)),
{
    if d > 0 {
        reach - d
    } else if d < 0 {
        -(reach + d)
    } else {
        0
    }
}

/// With no degenerate box, the signed test agrees with the plain test.
pub proof fn lemma_signed_agrees_with_plain(a: AABB, b: AABB)
    requires
        a.wf(),
        b.wf(),
        !a.degenerate(),
        !b.degenerate(),
    ensures
        a.overlaps_signed_spec(b) == a.overlaps_spec(b),
{
}

/// The signed test is symmetric in its verdict, and the two push-out
/// vectors are opposite on each axis.
pub proof fn lemma_signed_symmetric(a: AABB, b: AABB)
    requires
        a.wf(),
        b.wf(),
    ensures
        a.overlaps_signed_spec(b) == b.overlaps_signed_spec(a),
        a.penetration_x(b) == -b.penetration_x(a),
        a.penetration_y(b) == -b.penetration_y(a),
{
}

} // verus!

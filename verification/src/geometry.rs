//! Which points a rectangle covers.

use vstd::prelude::*;

use crate::messages::{Point, Rectangle};

verus! {

/// Whether `x` lies between `a` and `b`, ends included, in whichever order the
/// two ends are given.
pub open spec fn between(a: i32, x: i32, b: i32) -> bool {
    a <= x <= b || b <= x <= a
}

/// Whether `point` lies in the rectangle spanned by two opposite corners,
/// edges included.
pub open spec fn spans(corner: Point, point: Point, opposite: Point) -> bool {
    &&& between(corner.latitude, point.latitude, opposite.latitude)
    &&& between(corner.longitude, point.longitude, opposite.longitude)
}

impl Rectangle {
    /// Whether both corners were given.
    pub open spec fn complete(self) -> bool {
        self.low is Some && self.high is Some
    }

    /// Whether both corners were given and the rectangle covers `point`.
    pub open spec fn covers(self, point: Point) -> bool {
        self.complete() && spans(self.low->0, point, self.high->0)
    }
}

/// Whether `point` lies in `bounds`, edges included.
pub fn in_range(point: &Point, bounds: &Rectangle) -> (inside: bool)
    requires
        bounds.complete(),
    ensures
        inside == bounds.covers(*point),
        inside <==> {
            let low = bounds.low->0;
            let high = bounds.high->0;
            &&& low.latitude <= point.latitude || high.latitude <= point.latitude
            &&& point.latitude <= low.latitude || point.latitude <= high.latitude
            &&& low.longitude <= point.longitude || high.longitude <= point.longitude
            &&& point.longitude <= low.longitude || point.longitude <= high.longitude
        },
{
    let low = bounds.low.unwrap();
    let high = bounds.high.unwrap();

    let left: i32 = if low.longitude <= high.longitude { low.longitude } else { high.longitude };
    let right: i32 = if low.longitude <= high.longitude { high.longitude } else { low.longitude };
    let bottom: i32 = if low.latitude <= high.latitude { low.latitude } else { high.latitude };
    let top: i32 = if low.latitude <= high.latitude { high.latitude } else { low.latitude };

    point.longitude >= left && point.longitude <= right && point.latitude >= bottom
        && point.latitude <= top
}

/// Either pair of opposite corners, in either order, describes the same
/// rectangle.
pub proof fn corners_in_any_order(a: Point, b: Point, point: Point)
    ensures
        spans(a, point, b) == spans(b, point, a),
        spans(a, point, b) == spans(
            Point { latitude: a.latitude, longitude: b.longitude },
            point,
            Point { latitude: b.latitude, longitude: a.longitude },
        ),
        ({
            let swapped_latitude = Point { latitude: b.latitude, longitude: a.longitude };
            let swapped_longitude = Point { latitude: a.latitude, longitude: b.longitude };
            let covered = Rectangle { low: Some(a), high: Some(b) }.covers(point);
            &&& covered == Rectangle { low: Some(b), high: Some(a) }.covers(point)
            &&& covered == Rectangle {
                low: Some(swapped_latitude),
                high: Some(swapped_longitude),
            }.covers(point)
            &&& covered == Rectangle {
                low: Some(swapped_longitude),
                high: Some(swapped_latitude),
            }.covers(point)
        }),
{
}

/// A rectangle covers its own four corners.
pub proof fn corners_are_covered(a: Point, b: Point)
    ensures
        spans(a, a, b),
        spans(a, b, b),
        spans(a, Point { latitude: a.latitude, longitude: b.longitude }, b),
        spans(a, Point { latitude: b.latitude, longitude: a.longitude }, b),
        ({
            let bounds = Rectangle { low: Some(a), high: Some(b) };
            &&& bounds.covers(a)
            &&& bounds.covers(b)
            &&& bounds.covers(Point { latitude: a.latitude, longitude: b.longitude })
            &&& bounds.covers(Point { latitude: b.latitude, longitude: a.longitude })
        }),
{
}

/// A rectangle whose corners coincide covers that one point and no other.
pub proof fn single_point_rectangle(corner: Point, point: Point)
    ensures
        spans(corner, point, corner) <==> point == corner,
        (Rectangle { low: Some(corner), high: Some(corner) }).covers(point) <==> point.latitude
            == corner.latitude && point.longitude == corner.longitude,
{
}

/// What lies in the rectangle between two covered points is covered too.
pub proof fn covered_region_is_convex(a: Point, b: Point, p: Point, q: Point, point: Point)
    requires
        spans(a, p, b),
        spans(a, q, b),
        spans(p, point, q),
    ensures
        spans(a, point, b),
{
}

/// A point whose latitude and longitude each lie between those of two covered
/// points is covered too.
pub proof fn between_covered_points_is_covered(
    bounds: Rectangle,
    p: Point,
    q: Point,
    point: Point,
)
    requires
        bounds.covers(p),
        bounds.covers(q),
        p.latitude <= point.latitude <= q.latitude || q.latitude <= point.latitude <= p.latitude,
        p.longitude <= point.longitude <= q.longitude || q.longitude <= point.longitude
            <= p.longitude,
    ensures
        bounds.covers(point),
{
}

/// A rectangle covers a point exactly if both corners are given, the point is
/// neither south of both nor north of both, and neither west of both nor east
/// of both.
pub proof fn covered_points_lie_between_the_corners(bounds: Rectangle, point: Point)
    ensures
        bounds.covers(point) <==> {
            &&& bounds.low is Some
            &&& bounds.high is Some
            &&& !(point.latitude < bounds.low->0.latitude && point.latitude
                < bounds.high->0.latitude)
            &&& !(point.latitude > bounds.low->0.latitude && point.latitude
                > bounds.high->0.latitude)
            &&& !(point.longitude < bounds.low->0.longitude && point.longitude
                < bounds.high->0.longitude)
            &&& !(point.longitude > bounds.low->0.longitude && point.longitude
                > bounds.high->0.longitude)
        },
        bounds.complete() <==> bounds.low is Some && bounds.high is Some,
{
}

/// A rectangle whose corners are covered by another covers nothing that the
/// other does not cover.
pub proof fn inner_rectangle_covers_less(
    outer: Rectangle,
    corner: Point,
    opposite: Point,
    point: Point,
)
    requires
        outer.covers(corner),
        outer.covers(opposite),
        (Rectangle { low: Some(corner), high: Some(opposite) }).covers(point),
    ensures
        outer.covers(point),
{
}

} // verus!

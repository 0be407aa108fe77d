//! Points and polylines. A polyline always has at least one point: the only
//! way to make one is from a point, and points can only be added.

use std::marker::PhantomData;
use vstd::prelude::*;

verus! {

/// A point of the plane.
#[derive(Copy, Clone, Debug, PartialEq, Eq, Structural)]
pub struct Point {
    pub x: i32,
    pub y: i32,
}

impl Default for Point {
    fn default() -> (point: Self)
        ensures
            point == (Point { x: 0, y: 0 }),
    {
        Point { x: 0, y: 0 }
    }
}

/// Marks a polyline that has no point yet. Nothing makes a polyline with
/// this marker.
pub struct EmptyPolylineState;

/// Marks a polyline that has at least one point.
pub struct NonEmptyPolylineState;

/// The markers that say whether a polyline has a point.
pub trait PolylineState {

}

impl PolylineState for EmptyPolylineState {

}

impl PolylineState for NonEmptyPolylineState {

}

/// A line through points, in their order.
pub struct Polyline<S: PolylineState> {
    points: Vec<Point>,
    _state: PhantomData<S>,
}

impl<S: PolylineState> View for Polyline<S> {
    type V = Seq<Point>;

    closed spec fn view(&self) -> Seq<Point> {
        self.points@
    }
}

impl<S: PolylineState> Clone for Polyline<S> {
    fn clone(&self) -> (copy: Self)
        ensures
            copy@ == self@,
    {
        let mut points: Vec<Point> = Vec::new();
        let mut i: usize = 0;
        while i < self.points.len()
            invariant
                i <= self.points@.len(),
                points@ == self.points@.take(i as int),
            decreases self.points@.len() - i,
        {
            points.push(self.points[i]);
            assert(points@ =~= self.points@.take(i as int + 1));
            i += 1;
        }
        assert(self.points@.take(i as int) =~= self.points@);
        Polyline { points, _state: PhantomData }
    }
}

impl Polyline<EmptyPolylineState> {
    /// The polyline that consists of `p` alone.
    pub fn with_point(p: Point) -> (line: Polyline<NonEmptyPolylineState>)
        ensures
            line@ == seq![p],
    {
        let mut points: Vec<Point> = Vec::new();
        points.push(p);
        assert(points@ =~= seq![p]);
        Polyline { points, _state: PhantomData }
    }
}

impl Polyline<NonEmptyPolylineState> {
    /// Adds `p` as the last point.
    pub fn add_point(&mut self, p: Point)
        ensures
            final(self)@ == old(self)@.push(p),
    {
        self.points.push(p);
    }

    /// Adds the points of `points` behind the last point, in their order.
    pub fn add_points(&mut self, points: Vec<Point>)
        ensures
            final(self)@ == old(self)@ + points@,
    {
        let mut points = points;
        self.points.append(&mut points);
    }

    /// The number of points.
    pub fn len(&self) -> (len: usize)
        ensures
            len == self@.len(),
    {
        self.points.len()
    }

    /// The points, in their order.
    pub fn points(&self) -> (points: &Vec<Point>)
        ensures
            points@ == self@,
    {
        &self.points
    }
}

} // verus!

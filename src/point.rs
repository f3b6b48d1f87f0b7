//! Raw sample points and derived rotational points.
use vstd::prelude::*;

use crate::angle::{bound, wrapped, PI};

verus! {

/// A point in 3D space; coordinates in micrometres.
#[derive(Copy, Clone, Debug, PartialEq, Eq, Structural)]
pub struct Point3 {
    /// The X coordinate.
    pub x: i64,
    /// The Y coordinate.
    pub y: i64,
    /// The Z coordinate.
    pub z: i64,
}

impl Point3 {
    /// Create a new point from its three coordinates.
    pub fn new(x: i64, y: i64, z: i64) -> (r: Point3)
        ensures
            r == (Point3 { x, y, z }),
    {
        Point3 { x, y, z }
    }

    /// The origin.
    pub fn zero() -> (r: Point3)
        ensures
            r == (Point3 { x: 0, y: 0, z: 0 }),
    {
        Point3 { x: 0, y: 0, z: 0 }
    }
}

/// A whole number of degrees in micro-radians, rounded toward zero.
pub open spec fn degrees_to_angle(degrees: int) -> int {
    if degrees >= 0 {
        degrees * PI / 180
    } else {
        -((-degrees) * PI / 180)
    }
}

/// One feature of a rotational trace: the signed turn angle at a point, and the
/// length of the segment leading to it.
#[derive(Copy, Clone, Debug, PartialEq, Eq, Structural)]
pub struct RotPoint {
    /// The turn angle, in micro-radians, within `(-PI, PI]`.
    angle: i64,
    /// The segment length, in micrometres.
    distance: u64,
}

impl RotPoint {
    /// The turn angle is always wrapped into `(-PI, PI]`.
    #[verifier::type_invariant]
    pub closed spec fn inv(self) -> bool {
        -PI < self.angle <= PI
    }

    /// The turn angle, in micro-radians.
    pub closed spec fn angle_spec(self) -> int {
        self.angle as int
    }

    /// The segment length, in micrometres.
    pub closed spec fn distance_spec(self) -> nat {
        self.distance as nat
    }

    /// Construct a rotational point; the angle is wrapped into `(-PI, PI]`.
    pub fn new(angle: i64, distance: u64) -> (r: RotPoint)
        ensures
            r.angle_spec() == wrapped(angle as int),
            r.distance_spec() == distance,
    {
        RotPoint { angle: bound(angle), distance }
    }

    /// Construct a rotational point from an `(angle, distance)` pair.
    pub fn from_tuple(t: (i64, u64)) -> (r: RotPoint)
        ensures
            r.angle_spec() == wrapped(t.0 as int),
            r.distance_spec() == t.1,
    {
        RotPoint::new(t.0, t.1)
    }

    /// Construct a rotational point from a whole number of degrees.
    pub fn from_degrees(degrees: i32, distance: u64) -> (r: RotPoint)
        ensures
            r.angle_spec() == wrapped(degrees_to_angle(degrees as int)),
            r.distance_spec() == distance,
    {
        let a: i64 = if degrees >= 0 {
            degrees as i64 * PI / 180
        } else {
            -((-(degrees as i64)) * PI / 180)
        };
        RotPoint::new(a, distance)
    }

    /// The turn angle, in micro-radians.
    pub fn radians(&self) -> (r: i64)
        ensures
            r == self.angle_spec(),
            -PI < r <= PI,
    {
        proof {
            use_type_invariant(self);
        }
        self.angle
    }

    /// The segment length, in micrometres.
    pub fn distance(&self) -> (r: u64)
        ensures
            r == self.distance_spec(),
    {
        self.distance
    }
}

} // verus!

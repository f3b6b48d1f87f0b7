//! Raw point traces and derived rotational traces.
use vstd::prelude::*;

use crate::angle::{diff, wrapped, PI, TAU};
use crate::config::{KEEP_POINTS, MAX_POINTS};
use crate::point::{Point3, RotPoint};

verus! {

/// The newest `n` items of `s`: all of `s` when it holds no more than `n`.
pub open spec fn newest(s: Seq<Point3>, n: nat) -> Seq<Point3> {
    if s.len() > n {
        s.subrange(s.len() - n, s.len() as int)
    } else {
        s
    }
}

/// A bounded raw trace of sample points, oldest first: every way of building
/// or changing one leaves at most `MAX_POINTS` points.
#[derive(Clone, Debug)]
pub struct PointTrace {
    points: Vec<Point3>,
}

impl View for PointTrace {
    type V = Seq<Point3>;

    closed spec fn view(&self) -> Seq<Point3> {
        self.points@
    }
}

impl PointTrace {
    /// Construct a trace from the given points, keeping the newest
    /// `MAX_POINTS` of them.
    pub fn new(v: Vec<Point3>) -> (r: PointTrace)
        ensures
            r@ == newest(v@, MAX_POINTS as nat),
    {
        let mut v = v;
        if v.len() > MAX_POINTS {
            let cut = v.len() - MAX_POINTS;
            v = v.split_off(cut);
        }
        PointTrace { points: v }
    }

    /// Construct an empty trace.
    pub fn empty() -> (r: PointTrace)
        ensures
            r@ == Seq::<Point3>::empty(),
    {
        PointTrace { points: Vec::new() }
    }

    /// The points of this trace, oldest first.
    pub fn points(&self) -> (r: &Vec<Point3>)
        ensures
            r@ == self@,
    {
        &self.points
    }

    /// The number of points in this trace.
    pub fn len(&self) -> (r: usize)
        ensures
            r == self@.len(),
    {
        self.points.len()
    }

    /// Add a point to the trace; when the trace is full the oldest points
    /// are evicted.
    pub fn push(&mut self, point: Point3)
        ensures
            final(self)@ == newest(old(self)@.push(point), MAX_POINTS as nat),
            final(self)@.len() <= MAX_POINTS,
            final(self)@.last() == point,
    {
        self.points.push(point);
        self.truncate();
    }

    /// Drop the oldest points until at most `MAX_POINTS` remain.
    fn truncate(&mut self)
        ensures
            final(self)@ == newest(old(self)@, MAX_POINTS as nat),
    {
        if self.points.len() > MAX_POINTS {
            let cut = self.points.len() - MAX_POINTS;
            let kept = self.points.split_off(cut);
            self.points = kept;
        }
    }

    /// Clear the trace except for its newest `KEEP_POINTS` points.
    pub fn clear_most(&mut self)
        ensures
            final(self)@ == newest(old(self)@, KEEP_POINTS as nat),
    {
        let len = self.points.len();
        if len > KEEP_POINTS {
            let kept = self.points.split_off(len - KEEP_POINTS);
            self.points = kept;
        }
    }

    /// Remove every point.
    pub fn clear(&mut self)
        ensures
            final(self)@ == Seq::<Point3>::empty(),
    {
        self.points.clear();
    }
}

/// The direction and length of the displacement between two consecutive
/// points of a trace, projected onto the drawing plane.
#[derive(Copy, Clone, Debug, PartialEq, Eq, Structural)]
pub struct Segment {
    /// The direction, in micro-radians.
    pub heading: i64,
    /// The length, in micrometres.
    pub length: u64,
}

/// The rotational feature between segment `i` and segment `i + 1`: the turn
/// from one heading to the next, and the length of the first.
pub open spec fn turn_at(segments: Seq<Segment>, i: int) -> (int, nat) {
    (
        wrapped(segments[i + 1].heading - segments[i].heading),
        segments[i].length as nat,
    )
}

/// Whether `points` is the rotational trace of a path with the given
/// segments: one feature per pair of consecutive segments.
pub open spec fn turns_of(segments: Seq<Segment>, points: Seq<RotPoint>) -> bool {
    &&& points.len() == if segments.len() == 0 {
        0
    } else {
        segments.len() - 1
    }
    &&& forall|i: int|
        0 <= i < points.len() ==> (#[trigger] points[i]).angle_spec() == turn_at(segments, i).0
            && points[i].distance_spec() == turn_at(segments, i).1
}

/// An angle already in `(-PI, PI]` is its own wrapped value.
pub proof fn lemma_wrapped_in_range(a: int)
    requires
        -PI < a <= PI,
    ensures
        wrapped(a) == a,
{
    vstd::arithmetic::div_mod::lemma_small_mod((PI - a) as nat, TAU as nat);
}

/// A straight path, all of whose segments share one heading, turns nowhere:
/// every feature of its rotational trace has angle zero, and a path of three
/// points has exactly one.
pub proof fn lemma_straight_path_no_turn(segments: Seq<Segment>, points: Seq<RotPoint>)
    requires
        turns_of(segments, points),
        forall|i: int| 0 <= i < segments.len() ==> (#[trigger] segments[i]).heading == segments[0].heading,
    ensures
        forall|i: int| 0 <= i < points.len() ==> (#[trigger] points[i]).angle_spec() == 0,
        segments.len() == 2 ==> points.len() == 1,
{
    lemma_wrapped_in_range(0);
    assert forall|i: int| 0 <= i < points.len() implies (#[trigger] points[i]).angle_spec() == 0 by {
        assert(segments[i + 1].heading == segments[i].heading);
    }
}

/// At a corner, where the heading changes by `turn` within `(-PI, PI]`, the
/// rotational trace turns by exactly `turn`; where the heading does not
/// change, by nothing.
pub proof fn lemma_turn_at_corner(segments: Seq<Segment>, points: Seq<RotPoint>, i: int)
    requires
        turns_of(segments, points),
        0 <= i < points.len(),
        -PI < segments[i + 1].heading - segments[i].heading <= PI,
    ensures
        points[i].angle_spec() == segments[i + 1].heading - segments[i].heading,
        segments[i + 1].heading == segments[i].heading ==> points[i].angle_spec() == 0,
{
    lemma_wrapped_in_range(segments[i + 1].heading - segments[i].heading);
}

/// A rotational trace, oldest feature first.
#[derive(Clone, Debug)]
pub struct RotTrace {
    points: Vec<RotPoint>,
}

impl View for RotTrace {
    type V = Seq<RotPoint>;

    closed spec fn view(&self) -> Seq<RotPoint> {
        self.points@
    }
}

impl RotTrace {
    /// Construct a rotational trace holding the given points.
    pub fn new(v: Vec<RotPoint>) -> (r: RotTrace)
        ensures
            r@ == v@,
    {
        RotTrace { points: v }
    }

    /// Construct an empty rotational trace.
    pub fn empty() -> (r: RotTrace)
        ensures
            r@ == Seq::<RotPoint>::empty(),
    {
        RotTrace { points: Vec::new() }
    }

    /// Derive the rotational trace of a path from its segments: one feature
    /// for each pair of consecutive segments.
    pub fn from_segments(segments: &Vec<Segment>) -> (r: RotTrace)
        ensures
            turns_of(segments@, r@),
    {
        let mut points: Vec<RotPoint> = Vec::new();
        let mut i: usize = 1;
        while i < segments.len()
            invariant
                1 <= i <= segments@.len() || (i == 1 && segments@.len() == 0),
                points@.len() == i - 1,
                forall|j: int|
                    0 <= j < points@.len() ==> (#[trigger] points@[j]).angle_spec() == turn_at(
                        segments@,
                        j,
                    ).0 && points@[j].distance_spec() == turn_at(segments@, j).1,
            decreases segments@.len() - i,
        {
            let a = segments[i - 1];
            let b = segments[i];
            points.push(RotPoint::new(diff(b.heading, a.heading), a.length));
            i = i + 1;
        }
        RotTrace { points }
    }

    /// The points of this trace.
    pub fn points(&self) -> (r: &Vec<RotPoint>)
        ensures
            r@ == self@,
    {
        &self.points
    }

    /// The number of points in this trace.
    pub fn len(&self) -> (r: usize)
        ensures
            r == self@.len(),
    {
        self.points.len()
    }

    /// A copy of this trace.
    pub fn copied(&self) -> (r: RotTrace)
        ensures
            r@ == self@,
    {
        let mut points: Vec<RotPoint> = Vec::new();
        let mut i: usize = 0;
        while i < self.points.len()
            invariant
                i <= self.points@.len(),
                points@ == self.points@.subrange(0, i as int),
            decreases self.points@.len() - i,
        {
            points.push(self.points[i]);
            i = i + 1;
        }
        proof {
            assert(points@ =~= self.points@);
        }
        RotTrace { points }
    }

    /// Trim the trace to the index range `[from, to)`; bounds past the end of
    /// the trace are cut to its length.
    pub fn trim(&mut self, from: usize, to: usize)
        requires
            from <= to,
        ensures
            final(self)@ == old(self)@.subrange(
                if from <= old(self)@.len() { from as int } else { old(self)@.len() as int },
                if to <= old(self)@.len() { to as int } else { old(self)@.len() as int },
            ),
    {
        let len = self.points.len();
        let end = if to <= len { to } else { len };
        let start = if from <= len { from } else { len };
        let mut kept: Vec<RotPoint> = Vec::new();
        let mut i: usize = start;
        while i < end
            invariant
                start <= i <= end || (i == start && end < start),
                end <= len == self.points@.len(),
                kept@ == self.points@.subrange(start as int, i as int),
            decreases end - i,
        {
            kept.push(self.points[i]);
            i = i + 1;
        }
        proof {
            if end < start {
                assert(from > to);
            }
        }
        self.points = kept;
    }

    /// Remove every point.
    pub fn clear(&mut self)
        ensures
            final(self)@ == Seq::<RotPoint>::empty(),
    {
        self.points.clear();
    }
}

} // verus!

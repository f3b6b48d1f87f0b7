//! The templates that come with the recognizer.
use vstd::prelude::*;

use crate::angle::wrapped;
use crate::config::SAMPLE_DISTANCE;
use crate::model::Model;
use crate::point::{degrees_to_angle, RotPoint};
use crate::store::views;
use crate::template::{Template, TemplateView};
use crate::trace::RotTrace;

verus! {

/// Whether `s` holds `count` points turning by `angle`, each a sample distance
/// long.
pub open spec fn is_uniform(s: Seq<RotPoint>, angle: int, count: nat) -> bool {
    s.len() == count && forall|k: int|
        0 <= k < s.len() ==> (#[trigger] s[k]).angle_spec() == angle && s[k].distance_spec()
            == SAMPLE_DISTANCE
}

/// Whether `s` is a polygon outline: `sides` straight runs of `run` points,
/// with one point turning by `turn` between consecutive runs, each point a
/// sample distance long.
pub open spec fn is_polygon(s: Seq<RotPoint>, turn: int, sides: nat, run: nat) -> bool {
    s.len() == sides * (run + 1) - 1 && forall|k: int|
        0 <= k < s.len() ==> (#[trigger] s[k]).angle_spec() == (if k % ((run + 1) as int) == run as int {
            turn
        } else {
            0
        }) && s[k].distance_spec() == SAMPLE_DISTANCE
}

/// Whether `r` is the list of built-in templates, ids aside.
pub open spec fn is_builtin(r: Seq<TemplateView>) -> bool {
    &&& r.len() == 10
    &&& r[0].1 == "Long straight line"@ && is_uniform(r[0].2, 0, 40)
    &&& r[1].1 == "Circle clockwise"@ && is_uniform(r[1].2, -190_000, 30)
    &&& r[2].1 == "Circle counter-clockwise"@ && is_uniform(r[2].2, 190_000, 30)
    &&& r[3].1 == "Big circle clockwise"@ && is_uniform(r[3].2, -70_000, 60)
    &&& r[4].1 == "Big circle counter-clockwise"@ && is_uniform(r[4].2, 70_000, 60)
    &&& r[5].1 == "Triangle clockwise"@ && is_polygon(r[5].2, wrapped(degrees_to_angle(-120)), 3, 15)
    &&& r[6].1 == "Triangle counter-clockwise"@ && is_polygon(r[6].2, wrapped(degrees_to_angle(120)), 3, 15)
    &&& r[7].1 == "Mini square clockwise"@ && is_polygon(r[7].2, wrapped(degrees_to_angle(-90)), 4, 6)
    &&& r[8].1 == "Square clockwise"@ && is_polygon(r[8].2, wrapped(degrees_to_angle(-90)), 4, 15)
    &&& r[9].1 == "Square counter-clockwise"@ && is_polygon(r[9].2, wrapped(degrees_to_angle(90)), 4, 15)
}

/// `count` points turning by `angle`, each a sample distance long.
fn uniform(angle: i64, count: usize) -> (r: Model)
    requires
        -crate::angle::PI < angle <= crate::angle::PI,
    ensures
        is_uniform(r@, angle as int, count as nat),
{
    let mut v: Vec<RotPoint> = Vec::new();
    let mut k: usize = 0;
    while k < count
        invariant
            k <= count,
            -crate::angle::PI < angle <= crate::angle::PI,
            is_uniform(v@, angle as int, k as nat),
        decreases count - k,
    {
        let p = RotPoint::new(angle, SAMPLE_DISTANCE);
        assert(wrapped(angle as int) == angle) by {
            vstd::arithmetic::div_mod::lemma_small_mod(
                (crate::angle::PI - angle) as nat,
                crate::angle::TAU as nat,
            );
        }
        v.push(p);
        k = k + 1;
    }
    Model::new(RotTrace::new(v))
}

/// A polygon outline as `is_polygon` describes, turning by `degrees`.
fn polygon(degrees: i32, sides: usize, run: usize) -> (r: Model)
    requires
        1 <= sides <= 8,
        run <= 64,
    ensures
        is_polygon(r@, wrapped(degrees_to_angle(degrees as int)), sides as nat, run as nat),
{
    assert(1 <= sides * (run + 1) <= 8 * 65) by (nonlinear_arith)
        requires 1 <= sides <= 8, run <= 64;
    let total: usize = sides * (run + 1) - 1;
    let turn = RotPoint::from_degrees(degrees, SAMPLE_DISTANCE);
    let straight = RotPoint::new(0, SAMPLE_DISTANCE);
    assert(wrapped(0) == 0) by {
        vstd::arithmetic::div_mod::lemma_small_mod(
            crate::angle::PI as nat,
            crate::angle::TAU as nat,
        );
    }
    let ghost m = (run + 1) as int;
    let mut v: Vec<RotPoint> = Vec::new();
    let mut k: usize = 0;
    let mut c: usize = 0;
    while k < total
        invariant
            total == sides * (run + 1) - 1,
            k <= total,
            m == run + 1,
            c == (k as int) % m,
            v@.len() == k,
            turn.angle_spec() == wrapped(degrees_to_angle(degrees as int)),
            turn.distance_spec() == SAMPLE_DISTANCE,
            straight.angle_spec() == 0,
            straight.distance_spec() == SAMPLE_DISTANCE,
            forall|j: int|
                0 <= j < k ==> (#[trigger] v@[j]).angle_spec() == (if j % m == run as int {
                    turn.angle_spec()
                } else {
                    0
                }) && v@[j].distance_spec() == SAMPLE_DISTANCE,
        decreases total - k,
    {
        if c == run {
            v.push(turn);
        } else {
            v.push(straight);
        }
        proof {
            let ki = k as int;
            vstd::arithmetic::div_mod::lemma_fundamental_div_mod(ki, m);
            let q = ki / m;
            if c + 1 < m {
                assert(ki + 1 == q * m + (c + 1));
                vstd::arithmetic::div_mod::lemma_fundamental_div_mod_converse(ki + 1, m, q, c + 1);
            } else {
                assert(ki + 1 == (q + 1) * m + 0) by (nonlinear_arith)
                    requires ki == q * m + c, c + 1 == m;
                vstd::arithmetic::div_mod::lemma_fundamental_div_mod_converse(ki + 1, m, q + 1, 0);
            }
        }
        c = if c == run { 0 } else { c + 1 };
        k = k + 1;
    }
    Model::new(RotTrace::new(v))
}

/// The templates that come with the recognizer: a long straight line,
/// circles and big circles in both directions, and triangles, squares and a
/// mini square as outlines.
pub fn builtin_templates() -> (r: Vec<Template>)
    ensures
        is_builtin(views(r@)),
{
    let mut r: Vec<Template> = Vec::new();
    r.push(Template::new(String::from_str("Long straight line"), uniform(0, 40)));
    r.push(Template::new(String::from_str("Circle clockwise"), uniform(-190_000, 30)));
    r.push(Template::new(String::from_str("Circle counter-clockwise"), uniform(190_000, 30)));
    r.push(Template::new(String::from_str("Big circle clockwise"), uniform(-70_000, 60)));
    r.push(Template::new(String::from_str("Big circle counter-clockwise"), uniform(70_000, 60)));
    r.push(Template::new(String::from_str("Triangle clockwise"), polygon(-120, 3, 15)));
    r.push(Template::new(String::from_str("Triangle counter-clockwise"), polygon(120, 3, 15)));
    r.push(Template::new(String::from_str("Mini square clockwise"), polygon(-90, 4, 6)));
    r.push(Template::new(String::from_str("Square clockwise"), polygon(-90, 4, 15)));
    r.push(Template::new(String::from_str("Square counter-clockwise"), polygon(90, 4, 15)));
    r
}

} // verus!

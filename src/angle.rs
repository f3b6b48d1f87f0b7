//! Circular arithmetic on angles held as micro-radians.
use vstd::prelude::*;

verus! {

/// Half a turn, in micro-radians.
pub const PI: i64 = 3_141_593;

/// A full turn, in micro-radians.
pub const TAU: i64 = 6_283_186;

/// The angle equal to `a` modulo a full turn that lies in `(-PI, PI]`.
pub open spec fn wrapped(a: int) -> int {
    PI - (PI - a) % (TAU as int)
}

/// Map the angle `a` into the range `(-PI, PI]`.
pub fn bound(a: i64) -> (r: i64)
    ensures
        r == wrapped(a as int),
        -PI < r <= PI,
{
    wrap_wide(a as i128)
}

/// `wrapped` on a value that may lie outside the range of `i64`.
fn wrap_wide(a: i128) -> (r: i64)
    requires
        -0x1_0000_0000_0000_0000 <= a <= 0x1_0000_0000_0000_0000,
    ensures
        r == wrapped(a as int),
        -PI < r <= PI,
{
    let t: i128 = PI as i128 - a;
    let m: i128 = if t >= 0 {
        (t as u128 % TAU as u128) as i128
    } else {
        let q: i128 = ((-t) as u128 % TAU as u128) as i128;
        if q == 0 { 0 } else { TAU as i128 - q }
    };
    proof {
        let ti = t as int;
        let tau = TAU as int;
        if ti < 0 {
            let q = (-ti) % tau;
            vstd::arithmetic::div_mod::lemma_fundamental_div_mod(-ti, tau);
            if q == 0 {
                assert(ti == (-((-ti) / tau)) * tau);
                vstd::arithmetic::div_mod::lemma_mod_multiples_basic(-((-ti) / tau), tau);
            } else {
                assert(ti == (-((-ti) / tau) - 1) * tau + (tau - q)) by (nonlinear_arith)
                    requires (-ti) == ((-ti) / tau) * tau + q;
                vstd::arithmetic::div_mod::lemma_fundamental_div_mod_converse(
                    ti, tau, -((-ti) / tau) - 1, tau - q);
            }
        }
    }
    (PI as i128 - m) as i64
}

/// The difference `a - b` between two angles, mapped into `(-PI, PI]`.
pub fn diff(a: i64, b: i64) -> (r: i64)
    ensures
        r == wrapped(a - b),
        -PI < r <= PI,
{
    wrap_wide(a as i128 - b as i128)
}

} // verus!

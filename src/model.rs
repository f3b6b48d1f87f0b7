//! Comparable shapes and the elastic matcher.
use vstd::prelude::*;

use crate::config::{
    DEVIATION_DEN, DEVIATION_NUM, INTERRUPT_MARGIN, MARGIN, MAX_ERROR, SEARCH_SPACE,
};
use crate::point::RotPoint;
use crate::trace::RotTrace;

verus! {

/// The sum of the angles of the last `k` points of `s`.
pub open spec fn tail_sum(s: Seq<RotPoint>, k: nat) -> int
    decreases k,
{
    if k == 0 || k > s.len() {
        0
    } else {
        tail_sum(s, (k - 1) as nat) + s[s.len() - k].angle_spec()
    }
}

/// The cumulative angles of `s` read from its end: entry `k` is the sum of
/// the angles of the last `k + 1` points.
pub open spec fn cumulative(s: Seq<RotPoint>) -> Seq<int> {
    Seq::new(s.len(), |k: int| tail_sum(s, (k + 1) as nat))
}

/// The absolute value of `x`.
pub open spec fn abs(x: int) -> int {
    if x < 0 {
        -x
    } else {
        x
    }
}

/// The search position for template index `i`, held within the tempo band
/// `[i / F, i * F]` for the deviation factor `F`.
pub open spec fn band(pos: int, i: int) -> int {
    let hi = i * DEVIATION_NUM / DEVIATION_DEN as int;
    let lo = i * DEVIATION_DEN / DEVIATION_NUM as int;
    let capped = if pos < hi {
        pos
    } else {
        hi
    };
    if capped > lo {
        capped
    } else {
        lo
    }
}

/// The offset, counted from `k`, of the first entry of `other` from `start`
/// on that lies within `MARGIN` of `p`, looking at no more than
/// `SEARCH_SPACE` entries and giving up at the first that lies farther than
/// `INTERRUPT_MARGIN`.
pub open spec fn search_from(other: Seq<int>, start: int, p: int, k: nat) -> Option<nat>
    decreases SEARCH_SPACE - k,
{
    if k >= SEARCH_SPACE || start + k >= other.len() {
        None
    } else if abs(other[start + k] - p) > INTERRUPT_MARGIN {
        None
    } else if abs(other[start + k] - p) <= MARGIN {
        Some(k)
    } else {
        search_from(other, start, p, k + 1)
    }
}

/// Whether the template's cumulative angles from index `i` on find their
/// counterparts in `other`, the search standing at `pos` with `err` misses so
/// far.
pub open spec fn walk(template: Seq<int>, other: Seq<int>, i: nat, pos: int, err: nat) -> bool
    decreases template.len() - i,
{
    if i >= template.len() {
        true
    } else {
        let start = band(pos, i as int);
        match search_from(other, start, template[i as int], 0) {
            Some(k) => walk(template, other, i + 1, start + k, err),
            None => if err + 1 >= MAX_ERROR {
                false
            } else {
                walk(template, other, i + 1, start, err + 1)
            },
        }
    }
}

/// Whether the shape `other` contains the shape `template` near its end.
pub open spec fn shape_matches(template: Seq<RotPoint>, other: Seq<RotPoint>) -> bool {
    walk(cumulative(template), cumulative(other), 0, 0, 0)
}

/// Whether no cumulative angle of `other` lies within `MARGIN` of the
/// template's cumulative angle at index `i`.
pub open spec fn unmatched(template: Seq<int>, other: Seq<int>, i: int) -> bool {
    forall|j: int| 0 <= j < other.len() ==> abs(#[trigger] other[j] - template[i]) > MARGIN
}

/// The number of template indices from `i` on that are `unmatched`.
pub open spec fn count_unmatched(template: Seq<int>, other: Seq<int>, i: nat) -> nat
    decreases template.len() - i,
{
    if i >= template.len() {
        0
    } else {
        (if unmatched(template, other, i as int) {
            1nat
        } else {
            0nat
        }) + count_unmatched(template, other, i + 1)
    }
}

/// A search that succeeds lands on an entry within `MARGIN` of `p`.
proof fn lemma_search_found(other: Seq<int>, start: int, p: int, k: nat)
    requires
        start >= 0,
        search_from(other, start, p, k) is Some,
    ensures
        ({
            let m = search_from(other, start, p, k)->0;
            start + m < other.len() && abs(other[start + m] - p) <= MARGIN
        }),
    decreases SEARCH_SPACE - k,
{
    if k < SEARCH_SPACE && start + k < other.len() && abs(other[start + k] - p)
        <= INTERRUPT_MARGIN && abs(other[start + k] - p) > MARGIN {
        lemma_search_found(other, start, p, k + 1);
    }
}

/// The tempo band never goes below zero.
proof fn lemma_band_nonnegative(pos: int, i: int)
    requires
        pos >= 0,
        i >= 0,
    ensures
        band(pos, i) >= 0,
{
    assert(i * DEVIATION_DEN / DEVIATION_NUM as int >= 0) by (nonlinear_arith)
        requires i >= 0;
}

/// Whether every search a trace makes against itself succeeds: for each
/// index `i`, a search for its cumulative angle from any start in the tempo
/// band below `i` finds an entry within `MARGIN` before it is interrupted.
pub open spec fn self_searchable(c: Seq<int>) -> bool {
    forall|i: int, s: int|
        0 <= i < c.len() && i * DEVIATION_DEN / DEVIATION_NUM as int <= s <= i
            ==> (#[trigger] search_from(c, s, c[i], 0)) is Some
}

/// A search that succeeds passes over no entry within `MARGIN` of `p`.
proof fn lemma_search_first(other: Seq<int>, start: int, p: int, k: nat, j: int)
    requires
        search_from(other, start, p, k) is Some,
        start + k <= j < start + search_from(other, start, p, k)->0,
    ensures
        abs(other[j] - p) > MARGIN,
    decreases SEARCH_SPACE - k,
{
    if j > start + k {
        lemma_search_first(other, start, p, k + 1, j);
    }
}

/// A self-searchable trace walks against itself from any position not past
/// the template index.
proof fn lemma_walk_itself(c: Seq<int>, i: nat, pos: int)
    requires
        self_searchable(c),
        0 <= pos <= i,
        i <= c.len(),
    ensures
        walk(c, c, i, pos, 0),
    decreases c.len() - i,
{
    if i < c.len() {
        assert(i * DEVIATION_DEN / DEVIATION_NUM as int <= i) by (nonlinear_arith)
            requires i >= 0;
        let start = band(pos, i as int);
        assert(search_from(c, start, c[i as int], 0) is Some);
        let k = search_from(c, start, c[i as int], 0)->0;
        if start + k > i {
            lemma_search_first(c, start, c[i as int], 0, i as int);
        }
        lemma_walk_itself(c, i + 1, start + k);
    }
}

/// A search reaches entry `j` when nothing before it interrupts and `j` lies
/// within `MARGIN` of `p` and within the search space.
proof fn lemma_search_reaches(other: Seq<int>, start: int, p: int, k: nat, j: int)
    requires
        start >= 0,
        start + k <= j < other.len(),
        j - start < SEARCH_SPACE,
        abs(other[j] - p) <= MARGIN,
        forall|m: int| start + k <= m < j ==> abs(#[trigger] other[m] - p) <= INTERRUPT_MARGIN,
    ensures
        search_from(other, start, p, k) is Some,
    decreases j - start - k,
{
    if start + k < j {
        assert(abs(other[start + k] - p) <= INTERRUPT_MARGIN);
        if abs(other[start + k] - p) > MARGIN {
            lemma_search_reaches(other, start, p, k + 1, j);
        }
    }
}

/// A trace whose cumulative angles all lie within `MARGIN` of each other is
/// self-searchable.
pub proof fn lemma_close_angles_searchable(c: Seq<int>)
    requires
        forall|a: int, b: int| 0 <= a < c.len() && 0 <= b < c.len() ==> abs(#[trigger] c[a] - #[trigger] c[b]) <= MARGIN,
    ensures
        self_searchable(c),
{
    assert forall|i: int, s: int|
        0 <= i < c.len() && i * DEVIATION_DEN / DEVIATION_NUM as int <= s <= i implies (
        #[trigger] search_from(c, s, c[i], 0)) is Some by {
        assert(i * DEVIATION_DEN / DEVIATION_NUM as int >= 0) by (nonlinear_arith)
            requires i >= 0;
        assert(abs(c[s] - c[i]) <= MARGIN);
    }
}

/// A trace of at most `SEARCH_SPACE` points whose cumulative angles all lie
/// within `INTERRUPT_MARGIN` of each other is self-searchable.
pub proof fn lemma_short_trace_searchable(c: Seq<int>)
    requires
        c.len() <= SEARCH_SPACE,
        forall|a: int, b: int|
            0 <= a < c.len() && 0 <= b < c.len() ==> abs(#[trigger] c[a] - #[trigger] c[b]) <= INTERRUPT_MARGIN,
    ensures
        self_searchable(c),
{
    assert forall|i: int, s: int|
        0 <= i < c.len() && i * DEVIATION_DEN / DEVIATION_NUM as int <= s <= i implies (
        #[trigger] search_from(c, s, c[i], 0)) is Some by {
        assert(i * DEVIATION_DEN / DEVIATION_NUM as int >= 0) by (nonlinear_arith)
            requires i >= 0;
        assert forall|m: int| s <= m < i implies abs(#[trigger] c[m] - c[i]) <= INTERRUPT_MARGIN by {
            assert(abs(c[m] - c[i]) <= INTERRUPT_MARGIN);
        }
        lemma_search_reaches(c, s, c[i], 0, i);
    }
}

/// A walk with at least as many unmatched template indices ahead as misses
/// left in its budget fails.
proof fn lemma_walk_exhausts(template: Seq<int>, other: Seq<int>, i: nat, pos: int, err: nat)
    requires
        pos >= 0,
        err < MAX_ERROR,
        count_unmatched(template, other, i) + err >= MAX_ERROR,
    ensures
        !walk(template, other, i, pos, err),
    decreases template.len() - i,
{
    if i < template.len() {
        let start = band(pos, i as int);
        lemma_band_nonnegative(pos, i as int);
        match search_from(other, start, template[i as int], 0) {
            Some(k) => {
                lemma_search_found(other, start, template[i as int], 0);
                assert(!unmatched(template, other, i as int)) by {
                    let j = start + k;
                    assert(abs(other[j] - template[i as int]) <= MARGIN);
                }
                lemma_walk_exhausts(template, other, i + 1, start + k, err);
            },
            None => {
                if err + 1 < MAX_ERROR {
                    lemma_walk_exhausts(template, other, i + 1, start, err + 1);
                }
            },
        }
    }
}

/// A shape matches itself whenever each search it makes against itself
/// succeeds.
pub proof fn lemma_matches_itself(t: Seq<RotPoint>)
    requires
        self_searchable(cumulative(t)),
    ensures
        shape_matches(t, t),
{
    lemma_walk_itself(cumulative(t), 0, 0);
}

/// A template fails to match once at least `MAX_ERROR` of its cumulative
/// angles have no cumulative angle of `other` within `MARGIN`.
pub proof fn lemma_divergence_rejects(template: Seq<RotPoint>, other: Seq<RotPoint>)
    requires
        count_unmatched(cumulative(template), cumulative(other), 0) >= MAX_ERROR,
    ensures
        !shape_matches(template, other),
{
    lemma_walk_exhausts(cumulative(template), cumulative(other), 0, 0, 0);
}

/// A comparable shape: one rotational trace.
#[derive(Clone, Debug)]
pub struct Model {
    trace: RotTrace,
}

impl View for Model {
    type V = Seq<RotPoint>;

    closed spec fn view(&self) -> Seq<RotPoint> {
        self.trace@
    }
}

/// The cumulative angles of `points`, read from the end.
fn cumulative_angles(points: &Vec<RotPoint>) -> (r: Vec<i128>)
    ensures
        r@.len() == points@.len(),
        forall|j: int|
            0 <= j < r@.len() ==> r@[j] == cumulative(points@)[j] && -0x400_0000_0000_0000_0000_0000
                <= #[trigger] r@[j] <= 0x400_0000_0000_0000_0000_0000,
{
    let n = points.len();
    let mut r: Vec<i128> = Vec::new();
    let mut acc: i128 = 0;
    let mut k: usize = 0;
    while k < n
        invariant
            n == points@.len(),
            k <= n,
            r@.len() == k,
            acc == tail_sum(points@, k as nat),
            -(k * 0x40_0000) <= acc <= k * 0x40_0000,
            forall|j: int|
                0 <= j < k ==> r@[j] == cumulative(points@)[j] && -0x400_0000_0000_0000_0000_0000
                    <= #[trigger] r@[j] <= 0x400_0000_0000_0000_0000_0000,
        decreases n - k,
    {
        let p = &points[n - 1 - k];
        let a = p.radians();
        acc = acc + a as i128;
        r.push(acc);
        k = k + 1;
        assert(k * 0x40_0000 <= 0x400_0000_0000_0000_0000_0000) by (nonlinear_arith)
            requires k <= n, n <= usize::MAX;
    }
    r
}

/// The offset of the first entry of `other` from `start` on that lies within
/// `MARGIN` of `p`, as `search_from` describes.
fn search(other: &Vec<i128>, start: usize, p: i128) -> (r: Option<usize>)
    requires
        forall|j: int|
            0 <= j < other@.len() ==> -0x400_0000_0000_0000_0000_0000 <= #[trigger] other@[j]
                <= 0x400_0000_0000_0000_0000_0000,
        -0x400_0000_0000_0000_0000_0000 <= p <= 0x400_0000_0000_0000_0000_0000,
    ensures
        r matches Some(k) ==> search_from(other@.map_values(|v: i128| v as int), start as int, p as int, 0) == Some(k as nat),
        r is None ==> search_from(other@.map_values(|v: i128| v as int), start as int, p as int, 0) is None,
        r matches Some(k) ==> start + k < other@.len(),
{
    let ghost o = other@.map_values(|v: i128| v as int);
    if start >= other.len() {
        return None;
    }
    let mut k: usize = 0;
    while k < SEARCH_SPACE && k < other.len() - start
        invariant
            start < other@.len(),
            k <= SEARCH_SPACE,
            o == other@.map_values(|v: i128| v as int),
            forall|j: int|
                0 <= j < other@.len() ==> -0x400_0000_0000_0000_0000_0000 <= #[trigger] other@[j]
                    <= 0x400_0000_0000_0000_0000_0000,
            -0x400_0000_0000_0000_0000_0000 <= p <= 0x400_0000_0000_0000_0000_0000,
            search_from(o, start as int, p as int, 0) == search_from(o, start as int, p as int, k as nat),
        decreases SEARCH_SPACE - k,
    {
        let v = other[start + k];
        let d: i128 = if v >= p { v - p } else { p - v };
        assert(d == abs(o[start + k] - p));
        if d > INTERRUPT_MARGIN as i128 {
            return None;
        }
        if d <= MARGIN as i128 {
            return Some(k);
        }
        k = k + 1;
    }
    None
}

impl Model {
    /// Construct a model from a rotational trace.
    pub fn new(trace: RotTrace) -> (r: Model)
        ensures
            r@ == trace@,
    {
        Model { trace }
    }

    /// Construct an empty model.
    pub fn empty() -> (r: Model)
        ensures
            r@ == Seq::<RotPoint>::empty(),
    {
        Model { trace: RotTrace::empty() }
    }

    /// The rotational trace of this model.
    pub fn trace(&self) -> (r: &RotTrace)
        ensures
            r@ == self@,
    {
        &self.trace
    }

    /// A mutable reference to the rotational trace of this model.
    pub fn trace_mut(&mut self) -> (r: &mut RotTrace)
        ensures
            r@ == old(self)@,
            final(self)@ == final(r)@,
    {
        &mut self.trace
    }

    /// A copy of this model.
    pub fn copied(&self) -> (r: Model)
        ensures
            r@ == self@,
    {
        Model { trace: self.trace.copied() }
    }

    /// The number of points in this model.
    pub fn len(&self) -> (r: usize)
        ensures
            r == self@.len(),
    {
        self.trace.len()
    }

    /// Trim the model to the index range `[from, to)`, as `RotTrace::trim`.
    pub fn trim(&mut self, from: usize, to: usize)
        requires
            from <= to,
        ensures
            final(self)@ == old(self)@.subrange(
                if from <= old(self)@.len() { from as int } else { old(self)@.len() as int },
                if to <= old(self)@.len() { to as int } else { old(self)@.len() as int },
            ),
    {
        self.trace.trim(from, to);
    }

    /// Clear the model back to zero points.
    pub fn clear(&mut self)
        ensures
            final(self)@ == Seq::<RotPoint>::empty(),
    {
        self.trace.clear();
    }

    /// Decide whether this model, as a template, is found in `other`: its
    /// cumulative angles, read from the end, must each find a counterpart
    /// within `MARGIN` in those of `other`, the search advancing at a tempo
    /// within the deviation factor, with fewer than `MAX_ERROR` misses.
    pub fn matches(&self, other: &Model) -> (r: bool)
        ensures
            r == shape_matches(self@, other@),
    {
        let tpoints = self.trace.points();
        let n = tpoints.len();
        let co = cumulative_angles(other.trace.points());
        let olen = co.len();
        let ghost o = co@.map_values(|v: i128| v as int);
        let ghost t = cumulative(self@);
        assert(o =~= cumulative(other@));
        let mut pos: usize = 0;
        let mut err: usize = 0;
        let mut acc: i128 = 0;
        let mut i: usize = 0;
        while i < n
            invariant
                n == self@.len(),
                olen == co@.len(),
                tpoints@ == self@,
                i <= n,
                err < MAX_ERROR,
                acc == tail_sum(self@, i as nat),
                -(i * 0x40_0000) <= acc <= i * 0x40_0000,
                forall|j: int|
                    0 <= j < co@.len() ==> -0x400_0000_0000_0000_0000_0000 <= #[trigger] co@[j]
                        <= 0x400_0000_0000_0000_0000_0000,
                o == co@.map_values(|v: i128| v as int),
                o == cumulative(other@),
                t == cumulative(self@),
                walk(t, o, 0, 0, 0) == walk(t, o, i as nat, pos as int, err as nat),
            decreases n - i,
        {
            let a = tpoints[n - 1 - i].radians();
            acc = acc + a as i128;
            assert((i + 1) * 0x40_0000 <= 0x400_0000_0000_0000_0000_0000) by (nonlinear_arith)
                requires i < n, n <= usize::MAX;
            assert(acc == t[i as int]);
            let hi: u128 = i as u128 * DEVIATION_NUM as u128 / DEVIATION_DEN as u128;
            let lo: usize = ((i as u128 * DEVIATION_DEN as u128) / DEVIATION_NUM as u128) as usize;
            let capped: usize = if (pos as u128) < hi { pos } else { hi as usize };
            let start: usize = if capped > lo { capped } else { lo };
            assert(start == band(pos as int, i as int));
            match search(&co, start, acc) {
                Some(k) => {
                    pos = start + k;
                },
                None => {
                    err = err + 1;
                    if err >= MAX_ERROR {
                        return false;
                    }
                    pos = start;
                },
            }
            i = i + 1;
        }
        true
    }
}

} // verus!

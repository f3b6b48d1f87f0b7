//! Live per-finger and per-hand tracking state.
use vstd::prelude::*;

use crate::config::{KEEP_POINTS, MAX_POINTS};
use crate::controller::State;
use crate::model::Model;
use crate::point::{Point3, RotPoint};
use crate::trace::{newest, PointTrace, RotTrace};

verus! {

/// The kind of a finger.
#[derive(Copy, Clone, Debug, PartialEq, Eq, Structural)]
pub enum FingerKind {
    Thumb,
    Index,
    Middle,
    Ring,
    Pinky,
}

/// One finger as a sensor frame reports it.
#[derive(Copy, Clone, Debug, PartialEq, Eq, Structural)]
pub struct FingerSample {
    /// The kind of finger.
    pub kind: FingerKind,
    /// Whether the finger is extended.
    pub extended: bool,
    /// The position of the finger tip.
    pub tip: Point3,
}

/// One hand as a sensor frame reports it.
#[derive(Clone, Debug)]
pub struct HandSample {
    /// The id the sensor gave the hand.
    pub id: i32,
    /// The fingers of the hand.
    pub fingers: Vec<FingerSample>,
}

/// Names one tracked fragment: a finger of a hand, and whether it takes part
/// in detection.
#[derive(Copy, Clone, Debug, PartialEq, Eq, Structural)]
pub struct FingerKey {
    /// The id of the hand.
    pub hand: i32,
    /// The kind of finger.
    pub finger: FingerKind,
    /// Whether gestures are detected on this finger.
    pub detect: bool,
}

/// What a fragment holds: its raw trace and the points of its model.
pub type FragmentView = (Seq<Point3>, Seq<RotPoint>);

/// The live state of one finger: its raw trace and the model derived from it.
#[derive(Clone, Debug)]
pub struct Fragment {
    raw: PointTrace,
    model: Model,
}

impl View for Fragment {
    type V = FragmentView;

    closed spec fn view(&self) -> FragmentView {
        (self.raw@, self.model@)
    }
}

impl Fragment {
    /// Construct a fragment with empty traces.
    pub fn new() -> (r: Fragment)
        ensures
            r@ == (Seq::<Point3>::empty(), Seq::<RotPoint>::empty()),
    {
        Fragment { raw: PointTrace::empty(), model: Model::empty() }
    }

    /// The model derived from the raw trace.
    pub fn model(&self) -> (r: &Model)
        ensures
            r@ == self@.1,
    {
        &self.model
    }

    /// The raw trace.
    pub fn raw(&self) -> (r: &PointTrace)
        ensures
            r@ == self@.0,
    {
        &self.raw
    }

    /// Push a sample on the raw trace when `state` tracks; returns whether it
    /// did. The model is left for the caller to derive anew.
    pub fn process_sensor_finger(&mut self, state: State, point: Point3) -> (r: bool)
        ensures
            r == state.tracks(),
            r ==> final(self)@ == (newest(old(self)@.0.push(point), MAX_POINTS as nat), old(self)@.1),
            !r ==> final(self)@ == old(self)@,
    {
        if state.should_track() {
            self.raw.push(point);
            true
        } else {
            false
        }
    }

    /// Replace the model with the given trace, derived from the raw trace.
    pub fn set_trace(&mut self, trace: RotTrace)
        ensures
            final(self)@ == (old(self)@.0, trace@),
    {
        self.model = Model::new(trace);
    }

    /// Clear most of the raw trace, keeping its newest `KEEP_POINTS` points,
    /// and clear the model.
    pub fn clear_most(&mut self)
        ensures
            final(self)@ == (newest(old(self)@.0, KEEP_POINTS as nat), Seq::<RotPoint>::empty()),
    {
        self.raw.clear_most();
        self.model.clear();
    }

    /// Clear the raw trace and the model.
    pub fn clear(&mut self)
        ensures
            final(self)@ == (Seq::<Point3>::empty(), Seq::<RotPoint>::empty()),
    {
        self.raw.clear();
        self.model.clear();
    }
}

/// Whether the first components of `s` are pairwise distinct.
pub open spec fn unique_keys<K, V>(s: Seq<(K, V)>) -> bool {
    forall|i: int, j: int| 0 <= i < j < s.len() ==> (#[trigger] s[i]).0 != (#[trigger] s[j]).0
}

/// Whether `k` is the first component of some entry of `s`.
pub open spec fn has_key<K, V>(s: Seq<(K, V)>, k: K) -> bool {
    exists|i: int| 0 <= i < s.len() && (#[trigger] s[i]).0 == k
}

/// What a hand holds: a fragment for each finger kind seen, in order of
/// first sight.
pub type HandView = Seq<(FingerKind, FragmentView)>;

/// The keys of the fragments that samples `fingers` of hand `id` are tracked
/// on while `state` tracks: the extended fingers, in order; detection runs on
/// index fingers.
pub open spec fn finger_keys(id: i32, fingers: Seq<FingerSample>, state: State) -> Seq<FingerKey>
    decreases fingers.len(),
{
    if fingers.len() == 0 || !state.tracks() {
        Seq::empty()
    } else {
        let rest = finger_keys(id, fingers.drop_last(), state);
        let f = fingers.last();
        if f.extended {
            rest.push(FingerKey { hand: id, finger: f.kind, detect: f.kind == FingerKind::Index })
        } else {
            rest
        }
    }
}

/// The live state of one hand: a fragment for each finger kind.
#[derive(Clone, Debug)]
pub struct Hand {
    fingers: Vec<(FingerKind, Fragment)>,
}

impl View for Hand {
    type V = HandView;

    closed spec fn view(&self) -> HandView {
        self.fingers@.map_values(|e: (FingerKind, Fragment)| (e.0, e.1@))
    }
}

impl Hand {
    /// Each finger kind has at most one fragment.
    pub open spec fn wf(&self) -> bool {
        unique_keys(self@)
    }

    /// Construct a hand without fragments.
    pub fn new() -> (r: Hand)
        ensures
            r@ == Seq::<(FingerKind, FragmentView)>::empty(),
            r.wf(),
    {
        Hand { fingers: Vec::new() }
    }

    /// The position of the fragment of finger kind `kind`.
    pub fn position(&self, kind: FingerKind) -> (r: Option<usize>)
        ensures
            r matches Some(i) ==> i < self@.len() && self@[i as int].0 == kind,
            r is None ==> !has_key(self@, kind),
    {
        let mut i: usize = 0;
        while i < self.fingers.len()
            invariant
                i <= self.fingers@.len(),
                forall|j: int| 0 <= j < i ==> (#[trigger] self@[j]).0 != kind,
            decreases self.fingers@.len() - i,
        {
            if self.fingers[i].0 == kind {
                return Some(i);
            }
            i = i + 1;
        }
        None
    }

    /// The fragment of finger kind `kind`, if there is one.
    pub fn fragment(&self, kind: FingerKind) -> (r: Option<&Fragment>)
        ensures
            r matches Some(f) ==> self@.contains((kind, f@)),
            r is None ==> !has_key(self@, kind),
    {
        match self.position(kind) {
            Some(i) => {
                let f = &self.fingers[i].1;
                proof {
                    assert(self@[i as int] == (kind, f@));
                }
                Some(f)
            },
            None => None,
        }
    }

    /// The position of the fragment of finger kind `kind`, created empty at
    /// the end when there is none.
    fn position_or_create(&mut self, kind: FingerKind) -> (r: usize)
        requires
            old(self).wf(),
        ensures
            final(self).wf(),
            r < final(self)@.len(),
            final(self)@[r as int].0 == kind,
            has_key(old(self)@, kind) ==> final(self)@ == old(self)@,
            !has_key(old(self)@, kind) ==> final(self)@ == old(self)@.push(
                (kind, (Seq::<Point3>::empty(), Seq::<RotPoint>::empty())),
            ),
    {
        match self.position(kind) {
            Some(i) => {
                proof {
                    assert(has_key(old(self)@, kind));
                }
                i
            },
            None => {
                let ghost before = self.fingers@;
                self.fingers.push((kind, Fragment::new()));
                proof {
                    assert(self@ =~= old(self)@.push(
                        (kind, (Seq::<Point3>::empty(), Seq::<RotPoint>::empty())),
                    ));
                }
                self.fingers.len() - 1
            },
        }
    }

    /// The fragment at position `i`.
    pub fn fragment_at(&self, i: usize) -> (r: &Fragment)
        requires
            i < self@.len(),
        ensures
            r@ == self@[i as int].1,
    {
        &self.fingers[i].1
    }

    /// Replace the model of the fragment at position `i`.
    pub fn set_trace_at(&mut self, i: usize, trace: RotTrace)
        requires
            i < old(self)@.len(),
        ensures
            final(self)@ == old(self)@.update(
                i as int,
                (old(self)@[i as int].0, (old(self)@[i as int].1.0, trace@)),
            ),
    {
        let ghost t = trace@;
        self.fingers[i].1.set_trace(trace);
        proof {
            assert(self@ =~= old(self)@.update(
                i as int,
                (old(self)@[i as int].0, (old(self)@[i as int].1.0, t)),
            ));
        }
    }

    /// Clear most of the fragment at position `i`, as `Fragment::clear_most`.
    pub fn clear_most_at(&mut self, i: usize)
        requires
            i < old(self)@.len(),
        ensures
            final(self)@ == old(self)@.update(
                i as int,
                (
                    old(self)@[i as int].0,
                    (newest(old(self)@[i as int].1.0, KEEP_POINTS as nat), Seq::<RotPoint>::empty()),
                ),
            ),
    {
        self.fingers[i].1.clear_most();
        proof {
            assert(self@ =~= old(self)@.update(
                i as int,
                (
                    old(self)@[i as int].0,
                    (newest(old(self)@[i as int].1.0, KEEP_POINTS as nat), Seq::<RotPoint>::empty()),
                ),
            ));
        }
    }

    /// A copy of the model of the index finger, if it is tracked.
    pub fn get_live_model(&self) -> (r: Option<Model>)
        requires
            self.wf(),
        ensures
            r matches Some(m) ==> has_key(self@, FingerKind::Index) && m@ == fragment_model(
                self@,
                FingerKind::Index,
            ),
            r is None ==> !has_key(self@, FingerKind::Index),
    {
        match self.position(FingerKind::Index) {
            Some(i) => {
                proof {
                    lemma_lookup_at(self@, i as int);
                }
                Some(self.fingers[i].1.model().copied())
            },
            None => None,
        }
    }

    /// Track the extended fingers of a hand sample, each on its own fragment;
    /// returns the keys of the fragments that took a sample.
    pub fn process_sensor_hand(&mut self, state: State, id: i32, fingers: &Vec<FingerSample>) -> (r: Vec<
        FingerKey,
    >)
        requires
            old(self).wf(),
        ensures
            final(self).wf(),
            final(self)@ == track_all(old(self)@, fingers@, state),
            r@ == finger_keys(id, fingers@, state),
            forall|k: FingerKind| has_key(old(self)@, k) ==> has_key(final(self)@, k),
            forall|j: int|
                0 <= j < fingers@.len() && (#[trigger] fingers@[j]).extended ==> has_key(
                    final(self)@,
                    fingers@[j].kind,
                ),
    {
        let mut keys: Vec<FingerKey> = Vec::new();
        let mut j: usize = 0;
        while j < fingers.len()
            invariant
                self.wf(),
                j <= fingers@.len(),
                self@ == track_all(old(self)@, fingers@.subrange(0, j as int), state),
                keys@ == finger_keys(id, fingers@.subrange(0, j as int), state),
                forall|k: FingerKind| has_key(old(self)@, k) ==> has_key(self@, k),
                forall|l: int|
                    0 <= l < j && (#[trigger] fingers@[l]).extended ==> has_key(
                        self@,
                        fingers@[l].kind,
                    ),
            decreases fingers@.len() - j,
        {
            let f = &fingers[j];
            let ghost before = self@;
            proof {
                assert(fingers@.subrange(0, j + 1).drop_last() =~= fingers@.subrange(0, j as int));
            }
            if f.extended {
                let tracked_it = self.track_finger(state, f);
                if tracked_it {
                    keys.push(
                        FingerKey { hand: id, finger: f.kind, detect: f.kind == FingerKind::Index },
                    );
                }
            }
            proof {
                assert forall|l: int|
                    0 <= l < j + 1 && (#[trigger] fingers@[l]).extended implies has_key(
                        self@,
                        fingers@[l].kind,
                    ) by {
                    if l < j {
                        assert(has_key(before, fingers@[l].kind));
                    }
                }
            }
            j = j + 1;
        }
        proof {
            assert(fingers@.subrange(0, j as int) =~= fingers@);
        }
        keys
    }

    /// Track one finger sample on its fragment, creating the fragment when
    /// the finger kind is new.
    pub fn track_finger(&mut self, state: State, sample: &FingerSample) -> (r: bool)
        requires
            old(self).wf(),
        ensures
            final(self).wf(),
            r == state.tracks(),
            has_key(final(self)@, sample.kind),
            forall|k: FingerKind| has_key(old(self)@, k) ==> has_key(final(self)@, k),
            forall|k: FingerKind| has_key(final(self)@, k) ==> k == sample.kind || has_key(old(self)@, k),
            exists|i: int|
                0 <= i < final(self)@.len() && #[trigger] final(self)@[i].0 == sample.kind
                    && final(self)@[i].1 == (if r {
                    newest(fragment_raw(old(self)@, sample.kind).push(sample.tip), MAX_POINTS as nat)
                } else {
                    fragment_raw(old(self)@, sample.kind)
                }, fragment_model(old(self)@, sample.kind)),
            final(self)@ == track_in(old(self)@, *sample, state),
    {
        let i = self.position_or_create(sample.kind);
        let ghost mid = self@;
        proof {
            if has_key(old(self)@, sample.kind) {
                lemma_lookup_at(mid, i as int);
            }
            assert(mid[i as int].1 == (fragment_raw(old(self)@, sample.kind), fragment_model(old(self)@, sample.kind)));
        }
        let r = self.fingers[i].1.process_sensor_finger(state, sample.tip);
        proof {
            assert(self@ =~= mid.update(i as int, (sample.kind, self.fingers@[i as int].1@)));
            assert(self@[i as int].0 == sample.kind);
            assert forall|k: FingerKind| has_key(mid, k) implies has_key(self@, k) by {
                let j = choose|j: int| 0 <= j < mid.len() && (#[trigger] mid[j]).0 == k;
                assert(self@[j].0 == k);
            }
            assert forall|k: FingerKind| has_key(self@, k) implies has_key(mid, k) by {
                let j = choose|j: int| 0 <= j < self@.len() && (#[trigger] self@[j]).0 == k;
                assert(mid[j].0 == k);
            }
            assert forall|k: FingerKind| has_key(old(self)@, k) implies has_key(mid, k) by {
                let j = choose|j: int| 0 <= j < old(self)@.len() && (#[trigger] old(self)@[j]).0 == k;
                assert(mid[j].0 == k);
            }
            assert forall|k: FingerKind| has_key(mid, k) implies k == sample.kind || has_key(old(self)@, k) by {
                let j = choose|j: int| 0 <= j < mid.len() && (#[trigger] mid[j]).0 == k;
                if j < old(self)@.len() {
                    assert(old(self)@[j].0 == k);
                }
            }
            assert forall|k: FingerKind| has_key(old(self)@, k) implies has_key(self@, k) by {
                assert(has_key(mid, k));
            }
            if has_key(old(self)@, sample.kind) {
                let j = key_index(old(self)@, sample.kind);
                assert(old(self)@[j].0 == sample.kind);
                assert(j == i);
                assert(self@ =~= track_in(old(self)@, *sample, state));
            } else {
                assert(self@ =~= track_in(old(self)@, *sample, state));
            }
        }
        r
    }
}

/// What the hand manager holds: a hand for each hand id in view, in order of
/// first sight.
pub type ManagerView = Seq<(i32, HandView)>;

/// The keys of the fragments that a frame is tracked on while `state` tracks,
/// hand after hand.
pub open spec fn frame_keys(frame: Seq<HandSample>, state: State) -> Seq<FingerKey>
    decreases frame.len(),
{
    if frame.len() == 0 {
        Seq::empty()
    } else {
        frame_keys(frame.drop_last(), state) + finger_keys(
            frame.last().id,
            frame.last().fingers@,
            state,
        )
    }
}

/// The fragment of finger kind `finger` of the hand with id `hand`, if any.
pub open spec fn fragment_of(v: ManagerView, hand: i32, finger: FingerKind) -> Option<FragmentView> {
    match lookup(v, hand) {
        Some(h) => lookup(h, finger),
        None => None,
    }
}

/// The hands with the fragment of finger kind `finger` of hand `hand`
/// replaced by `f`.
pub open spec fn with_fragment(v: ManagerView, hand: i32, finger: FingerKind, f: FragmentView) -> ManagerView {
    let hi = key_index(v, hand);
    let fi = key_index(v[hi].1, finger);
    v.update(hi, (hand, v[hi].1.update(fi, (finger, f))))
}

/// Whether any hand holds a fragment.
pub open spec fn has_fragment(v: ManagerView) -> bool {
    exists|h: int| 0 <= h < v.len() && (#[trigger] v[h]).1.len() > 0
}

/// The views of a list of models.
pub open spec fn model_views(s: Seq<Model>) -> Seq<Seq<RotPoint>> {
    s.map_values(|m: Model| m@)
}

/// The index finger models of the hands, in order, skipping hands without
/// one.
pub open spec fn live_models(v: ManagerView) -> Seq<Seq<RotPoint>>
    decreases v.len(),
{
    if v.len() == 0 {
        Seq::empty()
    } else {
        let rest = live_models(v.drop_last());
        if has_key(v.last().1, FingerKind::Index) {
            rest.push(fragment_model(v.last().1, FingerKind::Index))
        } else {
            rest
        }
    }
}

/// The views of a list of hand entries.
pub open spec fn hand_views(s: Seq<(i32, Hand)>) -> ManagerView {
    s.map_values(|e: (i32, Hand)| (e.0, e.1@))
}

/// Adding an entry adds exactly its key.
pub proof fn lemma_has_key_push<K, V>(s: Seq<(K, V)>, x: (K, V), k: K)
    ensures
        has_key(s.push(x), k) <==> (has_key(s, k) || x.0 == k),
{
    if has_key(s.push(x), k) && x.0 != k {
        let w = choose|w: int| 0 <= w < s.push(x).len() && (#[trigger] s.push(x)[w]).0 == k;
        assert(s[w].0 == k);
    }
    if has_key(s, k) {
        let w = choose|w: int| 0 <= w < s.len() && (#[trigger] s[w]).0 == k;
        assert(s.push(x)[w].0 == k);
    }
    if x.0 == k {
        assert(s.push(x)[s.len() as int].0 == k);
    }
}

/// Whether a hand with id `id` is in `frame`.
pub open spec fn in_frame(frame: Seq<HandSample>, id: i32) -> bool {
    exists|j: int| 0 <= j < frame.len() && (#[trigger] frame[j]).id == id
}

/// The registry of the hands in view.
#[derive(Debug)]
pub struct HandManager {
    hands: Vec<(i32, Hand)>,
}

impl View for HandManager {
    type V = ManagerView;

    closed spec fn view(&self) -> ManagerView {
        hand_views(self.hands@)
    }
}

impl HandManager {
    /// Each hand id has one hand, and each hand one fragment per finger kind.
    pub open spec fn wf(&self) -> bool {
        unique_keys(self@) && forall|i: int| 0 <= i < self@.len() ==> unique_keys(#[trigger] self@[i].1)
    }

    /// Construct a manager without hands.
    pub fn new() -> (r: HandManager)
        ensures
            r@ == Seq::<(i32, HandView)>::empty(),
            r.wf(),
    {
        HandManager { hands: Vec::new() }
    }

    /// The number of hands.
    pub fn len(&self) -> (r: usize)
        ensures
            r == self@.len(),
    {
        self.hands.len()
    }

    /// The position of the hand with id `id`.
    pub fn position(&self, id: i32) -> (r: Option<usize>)
        ensures
            r matches Some(i) ==> i < self@.len() && self@[i as int].0 == id,
            r is None ==> !has_key(self@, id),
    {
        let mut i: usize = 0;
        while i < self.hands.len()
            invariant
                i <= self.hands@.len(),
                forall|j: int| 0 <= j < i ==> (#[trigger] self@[j]).0 != id,
            decreases self.hands@.len() - i,
        {
            if self.hands[i].0 == id {
                return Some(i);
            }
            i = i + 1;
        }
        None
    }

    /// The hand at position `i`.
    pub fn hand_at(&self, i: usize) -> (r: &Hand)
        requires
            i < self@.len(),
        ensures
            r@ == self@[i as int].1,
    {
        &self.hands[i].1
    }

    /// The hand with id `id`, if there is one.
    pub fn get(&self, id: i32) -> (r: Option<&Hand>)
        requires
            self.wf(),
        ensures
            r matches Some(h) ==> lookup(self@, id) == Some(h@),
            r is None ==> lookup(self@, id) is None,
    {
        match self.position(id) {
            Some(i) => {
                proof {
                    lemma_lookup_at(self@, i as int);
                }
                Some(&self.hands[i].1)
            },
            None => None,
        }
    }

    /// The position of the hand with id `id`, created without fragments at
    /// the end when there is none.
    pub fn create_hand(&mut self, id: i32) -> (r: usize)
        requires
            old(self).wf(),
        ensures
            final(self).wf(),
            r < final(self)@.len(),
            final(self)@[r as int].0 == id,
            has_key(old(self)@, id) ==> final(self)@ == old(self)@,
            !has_key(old(self)@, id) ==> final(self)@ == old(self)@.push(
                (id, Seq::<(FingerKind, FragmentView)>::empty()),
            ),
    {
        match self.position(id) {
            Some(i) => {
                proof {
                    assert(has_key(old(self)@, id));
                }
                i
            },
            None => {
                self.hands.push((id, Hand::new()));
                proof {
                    assert(self@ =~= old(self)@.push(
                        (id, Seq::<(FingerKind, FragmentView)>::empty()),
                    ));
                }
                self.hands.len() - 1
            },
        }
    }

    /// Put `hand` under id `id`, replacing the hand that was there.
    pub fn add(&mut self, id: i32, hand: Hand)
        requires
            old(self).wf(),
            hand.wf(),
        ensures
            final(self).wf(),
            lookup(final(self)@, id) == Some(hand@),
            forall|k: i32| k != id ==> lookup(final(self)@, k) == lookup(old(self)@, k),
    {
        let ghost hv = hand@;
        let i = self.create_hand(id);
        let ghost mid = self@;
        self.hands.set(i, (id, hand));
        proof {
            assert(self@ =~= mid.update(i as int, (id, hv)));
            assert forall|w: int, v: int| 0 <= w < v < self@.len() implies (#[trigger] self@[w]).0
                != (#[trigger] self@[v]).0 by {
                assert(self@[w].0 == mid[w].0);
                assert(self@[v].0 == mid[v].0);
            }
            lemma_lookup_at(self@, i as int);
            assert forall|k: i32| k != id implies lookup(self@, k) == lookup(old(self)@, k) by {
                lemma_has_key_push(old(self)@, (id, Seq::<(FingerKind, FragmentView)>::empty()), k);
                if has_key(old(self)@, k) {
                    let w = choose|w: int| 0 <= w < old(self)@.len() && (#[trigger] old(self)@[w]).0 == k;
                    lemma_lookup_at(old(self)@, w);
                    assert(self@[w] == old(self)@[w]);
                    lemma_lookup_at(self@, w);
                } else if has_key(self@, k) {
                    let w = choose|w: int| 0 <= w < self@.len() && (#[trigger] self@[w]).0 == k;
                    assert(mid[w].0 == k);
                }
            }
        }
    }

    /// Replace the model of fragment `fi` of the hand at position `hi`.
    pub fn set_trace_at(&mut self, hi: usize, fi: usize, trace: RotTrace)
        requires
            old(self).wf(),
            hi < old(self)@.len(),
            fi < old(self)@[hi as int].1.len(),
        ensures
            final(self).wf(),
            final(self)@ == old(self)@.update(
                hi as int,
                (
                    old(self)@[hi as int].0,
                    old(self)@[hi as int].1.update(
                        fi as int,
                        (
                            old(self)@[hi as int].1[fi as int].0,
                            (old(self)@[hi as int].1[fi as int].1.0, trace@),
                        ),
                    ),
                ),
            ),
    {
        let ghost t = trace@;
        self.hands[hi].1.set_trace_at(fi, trace);
        proof {
            assert(self@ =~= old(self)@.update(
                hi as int,
                (
                    old(self)@[hi as int].0,
                    old(self)@[hi as int].1.update(
                        fi as int,
                        (old(self)@[hi as int].1[fi as int].0, (old(self)@[hi as int].1[fi as int].1.0, t)),
                    ),
                ),
            ));
            assert(unique_keys(self@[hi as int].1));
        }
    }

    /// Clear most of fragment `fi` of the hand at position `hi`, as
    /// `Fragment::clear_most`.
    pub fn clear_most_at(&mut self, hi: usize, fi: usize)
        requires
            old(self).wf(),
            hi < old(self)@.len(),
            fi < old(self)@[hi as int].1.len(),
        ensures
            final(self).wf(),
            final(self)@ == old(self)@.update(
                hi as int,
                (
                    old(self)@[hi as int].0,
                    old(self)@[hi as int].1.update(
                        fi as int,
                        (
                            old(self)@[hi as int].1[fi as int].0,
                            (
                                newest(old(self)@[hi as int].1[fi as int].1.0, KEEP_POINTS as nat),
                                Seq::<RotPoint>::empty(),
                            ),
                        ),
                    ),
                ),
            ),
    {
        self.hands[hi].1.clear_most_at(fi);
        proof {
            assert(self@ =~= old(self)@.update(
                hi as int,
                (
                    old(self)@[hi as int].0,
                    old(self)@[hi as int].1.update(
                        fi as int,
                        (
                            old(self)@[hi as int].1[fi as int].0,
                            (
                                newest(old(self)@[hi as int].1[fi as int].1.0, KEEP_POINTS as nat),
                                Seq::<RotPoint>::empty(),
                            ),
                        ),
                    ),
                ),
            ));
            assert(unique_keys(self@[hi as int].1));
        }
    }

    /// Process a sensor frame: each hand in it is found or created and its
    /// extended fingers are tracked; then every hand that is not in the frame
    /// is dropped. Returns the keys of the fragments that took a sample.
    pub fn process_sensor_hand_list(&mut self, state: State, frame: &Vec<HandSample>) -> (r: Vec<FingerKey>)
        requires
            old(self).wf(),
        ensures
            final(self).wf(),
            final(self)@ == keep_in_frame(track_frame(old(self)@, frame@, state), frame@),
            r@ == frame_keys(frame@, state),
            forall|id: i32| has_key(final(self)@, id) <==> in_frame(frame@, id),
    {
        let mut keys: Vec<FingerKey> = Vec::new();
        let mut j: usize = 0;
        while j < frame.len()
            invariant
                self.wf(),
                j <= frame@.len(),
                self@ == track_frame(old(self)@, frame@.subrange(0, j as int), state),
                keys@ == frame_keys(frame@.subrange(0, j as int), state),
                forall|l: int| 0 <= l < j ==> has_key(self@, (#[trigger] frame@[l]).id),
            decreases frame@.len() - j,
        {
            let sample = &frame[j];
            proof {
                assert(frame@.subrange(0, j + 1).drop_last() =~= frame@.subrange(0, j as int));
            }
            let ghost pre = self@;
            let hi = self.create_hand(sample.id);
            let ghost mid = self@;
            proof {
                assert forall|l: int| 0 <= l < j implies has_key(mid, (#[trigger] frame@[l]).id) by {
                    if !has_key(pre, sample.id) {
                        lemma_has_key_push(pre, (sample.id, Seq::<(FingerKind, FragmentView)>::empty()), frame@[l].id);
                    }
                }
                assert(mid[hi as int].1 == self.hands@[hi as int].1@);
            }
            let mut found = self.hands[hi].1.process_sensor_hand(state, sample.id, &sample.fingers);
            keys.append(&mut found);
            proof {
                assert(self@ =~= mid.update(hi as int, (sample.id, self.hands@[hi as int].1@)));
                if has_key(pre, sample.id) {
                    let ki = key_index(pre, sample.id);
                    assert(pre[ki].0 == sample.id);
                    assert(ki == hi);
                }
                assert(self@ =~= track_hand_in(pre, *sample, state));
                assert forall|l: int| 0 <= l < j + 1 implies has_key(self@, (#[trigger] frame@[l]).id) by {
                    if l < j {
                        let w = choose|w: int| 0 <= w < mid.len() && (#[trigger] mid[w]).0 == frame@[l].id;
                        assert(self@[w].0 == frame@[l].id);
                    } else {
                        assert(self@[hi as int].0 == frame@[l].id);
                    }
                }
            }
            j = j + 1;
        }
        proof {
            assert(frame@.subrange(0, j as int) =~= frame@);
        }
        self.retain_hands(frame);
        keys
    }

    /// Keep only the hands whose id is in `frame`.
    pub fn retain_hands(&mut self, frame: &Vec<HandSample>)
        requires
            old(self).wf(),
        ensures
            final(self).wf(),
            final(self)@ == keep_in_frame(old(self)@, frame@),
            forall|id: i32| has_key(final(self)@, id) <==> (has_key(old(self)@, id) && in_frame(frame@, id)),
    {
        let mut rest: Vec<(i32, Hand)> = Vec::new();
        std::mem::swap(&mut self.hands, &mut rest);
        let ghost all = hand_views(rest@);
        let total = rest.len();
        let ghost n = total as nat;
        let mut i: usize = 0;
        while rest.len() > 0
            invariant
                i + rest@.len() == n,
                n <= usize::MAX,
                all.len() == n,
                all == old(self)@,
                unique_keys(all),
                forall|w: int| 0 <= w < n ==> unique_keys(#[trigger] all[w].1),
                hand_views(rest@) == all.subrange(i as int, n as int),
                self.wf(),
                self@ == keep_in_frame(all.subrange(0, i as int), frame@),
                forall|id: i32|
                    #[trigger] has_key(self@, id) <==> (has_key(all.subrange(0, i as int), id) && in_frame(
                        frame@,
                        id,
                    )),
            decreases rest@.len(),
        {
            let ghost before = self@;
            let ghost rest_before = rest@;
            proof {
                assert(hand_views(rest_before)[0] == all[i as int]);
            }
            let entry = rest.remove(0);
            proof {
                assert(hand_views(rest@) =~= all.subrange(i + 1, n as int)) by {
                    assert(rest@ =~= rest_before.subrange(1, rest_before.len() as int));
                    assert forall|k: int| 0 <= k < rest@.len() implies hand_views(rest@)[k] == all[i + 1 + k] by {
                        assert(rest@[k] == rest_before[k + 1]);
                        assert(hand_views(rest_before)[k + 1] == all.subrange(i as int, n as int)[k + 1]);
                    }
                }
                assert(all.subrange(0, i + 1) =~= all.subrange(0, i as int).push(all[i as int]));
                assert(all.subrange(0, i + 1).drop_last() =~= all.subrange(0, i as int));
                assert((entry.0, entry.1@) == all[i as int]);
            }
            if contains_hand(frame, entry.0) {
                proof {
                    assert(!has_key(before, entry.0)) by {
                        if has_key(before, entry.0) {
                            let w = choose|w: int|
                                0 <= w < i && (#[trigger] all.subrange(0, i as int)[w]).0 == entry.0;
                            assert(all[w].0 == all[i as int].0);
                        }
                    }
                }
                self.hands.push(entry);
                proof {
                    assert(self@ =~= before.push((entry.0, entry.1@)));
                    assert(self@ == keep_in_frame(all.subrange(0, i + 1), frame@));
                    assert forall|id: i32|
                        #[trigger] has_key(self@, id) <==> (has_key(all.subrange(0, i + 1), id) && in_frame(
                            frame@,
                            id,
                        )) by {
                        lemma_has_key_push(before, (entry.0, entry.1@), id);
                        lemma_has_key_push(all.subrange(0, i as int), all[i as int], id);
                        assert(has_key(before, id) <==> (has_key(all.subrange(0, i as int), id)
                            && in_frame(frame@, id)));
                    }
                    assert forall|w: int, v: int| 0 <= w < v < self@.len() implies (#[trigger] self@[w]).0
                        != (#[trigger] self@[v]).0 by {
                        if v == before.len() {
                            assert(has_key(before, before[w].0));
                        }
                    }
                }
            } else {
                proof {
                    assert forall|id: i32|
                        #[trigger] has_key(self@, id) <==> (has_key(all.subrange(0, i + 1), id) && in_frame(
                            frame@,
                            id,
                        )) by {
                        lemma_has_key_push(all.subrange(0, i as int), all[i as int], id);
                        assert(has_key(before, id) <==> (has_key(all.subrange(0, i as int), id)
                            && in_frame(frame@, id)));
                    }
                }
            }
            i = i + 1;
        }
        proof {
            assert(all.subrange(0, i as int) =~= all);
            assert forall|id: i32|
                has_key(self@, id) <==> (has_key(old(self)@, id) && in_frame(frame@, id)) by {
                assert(has_key(self@, id) <==> (has_key(all.subrange(0, i as int), id) && in_frame(
                    frame@,
                    id,
                )));
            }
        }
    }

    /// Copies of the index finger models of the hands, in order.
    pub fn get_live_models(&self) -> (r: Vec<Model>)
        requires
            self.wf(),
        ensures
            model_views(r@) == live_models(self@),
    {
        let mut r: Vec<Model> = Vec::new();
        let mut i: usize = 0;
        while i < self.hands.len()
            invariant
                self.wf(),
                i <= self@.len(),
                model_views(r@) == live_models(self@.subrange(0, i as int)),
            decreases self@.len() - i,
        {
            proof {
                assert(self@.subrange(0, i + 1).drop_last() =~= self@.subrange(0, i as int));
                assert(self@[i as int].1 == self.hands@[i as int].1@);
            }
            match self.hands[i].1.get_live_model() {
                Some(m) => {
                    let ghost prev = r@;
                    r.push(m);
                    proof {
                        assert(model_views(r@) =~= model_views(prev).push(m@));
                    }
                },
                None => {},
            }
            i = i + 1;
        }
        proof {
            assert(self@.subrange(0, i as int) =~= self@);
        }
        r
    }

    /// A copy of the longest model over all fragments of all hands, or `None`
    /// when there is no fragment.
    pub fn longest_model(&self) -> (r: Option<Model>)
        ensures
            r matches Some(m) ==> (exists|h: int, f: int|
                0 <= h < self@.len() && 0 <= f < self@[h].1.len() && m@ == #[trigger] self@[h].1[f].1.1),
            r matches Some(m) ==> (forall|h: int, f: int|
                0 <= h < self@.len() && 0 <= f < self@[h].1.len() ==> (#[trigger] self@[h].1[f]).1.1.len() <= m@.len()),
            r is None <==> !has_fragment(self@),
    {
        let mut best: Option<(usize, usize)> = None;
        let mut best_len: usize = 0;
        let mut h: usize = 0;
        while h < self.hands.len()
            invariant
                h <= self@.len(),
                best matches Some(b) ==> b.0 < h && b.1 < self@[b.0 as int].1.len()
                    && self@[b.0 as int].1[b.1 as int].1.1.len() == best_len,
                best is None ==> forall|x: int| 0 <= x < h ==> (#[trigger] self@[x]).1.len() == 0,
                forall|x: int, y: int|
                    0 <= x < h && 0 <= y < self@[x].1.len() ==> (#[trigger] self@[x].1[y]).1.1.len() <= best_len,
            decreases self@.len() - h,
        {
            let hand = &self.hands[h].1;
            proof {
                assert(self@[h as int].1 == hand@);
            }
            let mut f: usize = 0;
            while f < hand.fingers.len()
                invariant
                    h < self@.len(),
                    self@[h as int].1 == hand@,
                    f <= hand@.len(),
                    best matches Some(b) ==> b.0 <= h && b.1 < self@[b.0 as int].1.len()
                        && self@[b.0 as int].1[b.1 as int].1.1.len() == best_len,
                    best is None ==> f == 0 && forall|x: int| 0 <= x < h ==> (#[trigger] self@[x]).1.len() == 0,
                    forall|x: int, y: int|
                        (0 <= x < h && 0 <= y < self@[x].1.len()) || (x == h && 0 <= y < f) ==> (#[trigger] self@[x].1[y]).1.1.len() <= best_len,
                decreases hand@.len() - f,
            {
                let len = hand.fingers[f].1.model().len();
                proof {
                    assert(hand@[f as int].1.1.len() == len);
                }
                if best.is_none() || len > best_len {
                    best = Some((h, f));
                    best_len = len;
                }
                f = f + 1;
            }
            h = h + 1;
        }
        match best {
            Some(b) => {
                let m = self.hands[b.0].1.fingers[b.1].1.model().copied();
                proof {
                    assert(self@[b.0 as int].1[b.1 as int].1.1 == m@);
                }
                Some(m)
            },
            None => None,
        }
    }

    /// Remove every hand.
    pub fn clear(&mut self)
        ensures
            final(self)@ == Seq::<(i32, HandView)>::empty(),
            final(self).wf(),
    {
        self.hands.clear();
        proof {
            assert(self@ =~= Seq::<(i32, HandView)>::empty());
        }
    }
}

/// Whether a hand with id `id` is in `frame`.
fn contains_hand(frame: &Vec<HandSample>, id: i32) -> (r: bool)
    ensures
        r == in_frame(frame@, id),
{
    let mut j: usize = 0;
    while j < frame.len()
        invariant
            j <= frame@.len(),
            forall|l: int| 0 <= l < j ==> (#[trigger] frame@[l]).id != id,
        decreases frame@.len() - j,
    {
        if frame[j].id == id {
            return true;
        }
        j = j + 1;
    }
    false
}

/// The position of an entry of `s` with key `k`.
pub open spec fn key_index<K, V>(s: Seq<(K, V)>, k: K) -> int {
    choose|i: int| 0 <= i < s.len() && (#[trigger] s[i]).0 == k
}

/// A hand after tracking one finger sample in `state`: the sample's fragment,
/// created empty at the end when its kind is new, takes the tip position when
/// `state` tracks.
pub open spec fn track_in(h: HandView, sample: FingerSample, state: State) -> HandView {
    let known = has_key(h, sample.kind);
    let f = if known {
        h[key_index(h, sample.kind)].1
    } else {
        (Seq::<Point3>::empty(), Seq::<RotPoint>::empty())
    };
    let g = if state.tracks() {
        (newest(f.0.push(sample.tip), MAX_POINTS as nat), f.1)
    } else {
        f
    };
    if known {
        h.update(key_index(h, sample.kind), (sample.kind, g))
    } else {
        h.push((sample.kind, g))
    }
}

/// A hand after tracking the extended fingers of `fingers`, in order.
pub open spec fn track_all(h: HandView, fingers: Seq<FingerSample>, state: State) -> HandView
    decreases fingers.len(),
{
    if fingers.len() == 0 {
        h
    } else {
        let before = track_all(h, fingers.drop_last(), state);
        if fingers.last().extended {
            track_in(before, fingers.last(), state)
        } else {
            before
        }
    }
}

/// The hands after tracking one hand sample: its hand, created without
/// fragments at the end when its id is new, tracks the sample's fingers.
pub open spec fn track_hand_in(v: ManagerView, sample: HandSample, state: State) -> ManagerView {
    if has_key(v, sample.id) {
        let i = key_index(v, sample.id);
        v.update(i, (sample.id, track_all(v[i].1, sample.fingers@, state)))
    } else {
        v.push((sample.id, track_all(Seq::empty(), sample.fingers@, state)))
    }
}

/// The hands after tracking every hand sample of `frame`, in order.
pub open spec fn track_frame(v: ManagerView, frame: Seq<HandSample>, state: State) -> ManagerView
    decreases frame.len(),
{
    if frame.len() == 0 {
        v
    } else {
        track_hand_in(track_frame(v, frame.drop_last(), state), frame.last(), state)
    }
}

/// The hands of `v` whose id is in `frame`, order kept.
pub open spec fn keep_in_frame(v: ManagerView, frame: Seq<HandSample>) -> ManagerView
    decreases v.len(),
{
    if v.len() == 0 {
        v
    } else {
        let rest = keep_in_frame(v.drop_last(), frame);
        if in_frame(frame, v.last().0) {
            rest.push(v.last())
        } else {
            rest
        }
    }
}

/// The value under key `k` in `s`, if any.
pub open spec fn lookup<K, V>(s: Seq<(K, V)>, k: K) -> Option<V> {
    if has_key(s, k) {
        Some(s[choose|i: int| 0 <= i < s.len() && (#[trigger] s[i]).0 == k].1)
    } else {
        None
    }
}

/// With unique keys, the value under the key of entry `i` is that entry's.
pub proof fn lemma_lookup_at<K, V>(s: Seq<(K, V)>, i: int)
    requires
        unique_keys(s),
        0 <= i < s.len(),
    ensures
        lookup(s, s[i].0) == Some(s[i].1),
{
    let j = choose|j: int| 0 <= j < s.len() && (#[trigger] s[j]).0 == s[i].0;
    assert(s[j].0 == s[i].0);
}

/// The raw trace of the fragment of finger kind `kind`; empty when there is
/// none.
pub open spec fn fragment_raw(h: HandView, kind: FingerKind) -> Seq<Point3> {
    match lookup(h, kind) {
        Some(f) => f.0,
        None => Seq::empty(),
    }
}

/// The model of the fragment of finger kind `kind`; empty when there is none.
pub open spec fn fragment_model(h: HandView, kind: FingerKind) -> Seq<RotPoint> {
    match lookup(h, kind) {
        Some(f) => f.1,
        None => Seq::empty(),
    }
}

} // verus!

//! The recognition state machine.
use vstd::prelude::*;

use crate::config::KEEP_POINTS;
use crate::fragment::{
    fragment_of, frame_keys, has_fragment, has_key, in_frame, keep_in_frame, key_index,
    lemma_lookup_at, live_models, model_views, track_frame, with_fragment, FingerKey, FingerKind, Fragment, FragmentView, HandManager, HandSample, ManagerView,
};
use crate::model::Model;
use crate::point::RotPoint;
use crate::store::{is_search_result, views, TemplateStore};
use crate::template::{Template, TemplateView};
use crate::trace::{newest, RotTrace};

verus! {

/// The state the gesture controller is in.
#[derive(Copy, Clone, Debug, PartialEq, Eq, Structural)]
pub enum State {
    /// The normal and default state: traces are tracked and gestures are
    /// detected.
    Normal,
    /// A gesture is being recorded: traces are tracked, nothing is detected.
    Recording,
    /// A recording is being saved: traces are frozen.
    Saving,
}

impl State {
    /// The state with the given id, or `None` when the id names no state.
    pub fn from_id(id: u8) -> (r: Option<State>)
        ensures
            id == 0 ==> r == Some(State::Normal),
            id == 1 ==> r == Some(State::Recording),
            id == 2 ==> r == Some(State::Saving),
            id > 2 ==> r is None,
    {
        match id {
            0 => Some(State::Normal),
            1 => Some(State::Recording),
            2 => Some(State::Saving),
            _ => None,
        }
    }

    /// The id of this state.
    pub fn id(&self) -> (r: u8)
        ensures
            r == match *self {
                State::Normal => 0u8,
                State::Recording => 1u8,
                State::Saving => 2u8,
            },
    {
        match self {
            State::Normal => 0,
            State::Recording => 1,
            State::Saving => 2,
        }
    }

    /// The name of this state.
    pub fn name(&self) -> (r: &'static str)
        ensures
            r@ == match *self {
                State::Normal => "normal"@,
                State::Recording => "recording"@,
                State::Saving => "saving"@,
            },
    {
        match self {
            State::Normal => "normal",
            State::Recording => "recording",
            State::Saving => "saving",
        }
    }

    /// Whether incoming trace data is tracked in this state.
    pub open spec fn tracks(self) -> bool {
        self != State::Saving
    }

    /// Whether gestures are detected in this state.
    pub open spec fn detects(self) -> bool {
        self == State::Normal
    }

    /// Whether incoming trace data should be tracked: in every state but
    /// `Saving`.
    pub fn should_track(&self) -> (r: bool)
        ensures
            r == self.tracks(),
    {
        match self {
            State::Saving => false,
            _ => true,
        }
    }

    /// Whether gestures should be detected in incoming trace data: only in
    /// `Normal`.
    pub fn should_detect(&self) -> (r: bool)
        ensures
            r == self.detects(),
    {
        match self {
            State::Normal => true,
            _ => false,
        }
    }
}

impl Default for State {
    fn default() -> (r: State)
        ensures
            r == State::Normal,
    {
        State::Normal
    }
}

/// Why a template could not be created.
#[derive(Copy, Clone, Debug, PartialEq, Eq, Structural)]
pub enum CreateError {
    /// No fragment is tracked, so there is no live model to take.
    NoLiveModel,
}

/// Orchestrates tracking, detection and recording: it owns the recognition
/// state, the queue of detected templates, the template store and the hands
/// in view.
#[derive(Debug)]
pub struct GestureController {
    state: State,
    detected: Vec<Template>,
    store: TemplateStore,
    hands: HandManager,
}

impl GestureController {
    /// The current state.
    pub closed spec fn state_spec(&self) -> State {
        self.state
    }

    /// The templates detected and not yet flushed, oldest first.
    pub closed spec fn detected_spec(&self) -> Seq<TemplateView> {
        views(self.detected@)
    }

    /// The templates of the store.
    pub closed spec fn store_spec(&self) -> Seq<TemplateView> {
        self.store@
    }

    /// The hands in view.
    pub closed spec fn hands_spec(&self) -> ManagerView {
        self.hands@
    }

    /// The hand registry is well formed.
    pub closed spec fn wf(&self) -> bool {
        self.hands.wf()
    }

    /// Construct a controller over the given store, in the `Normal` state,
    /// with nothing detected and no hand in view.
    pub fn new(store: TemplateStore) -> (r: GestureController)
        ensures
            r.wf(),
            r.state_spec() == State::Normal,
            r.detected_spec() == Seq::<TemplateView>::empty(),
            r.store_spec() == store@,
            r.hands_spec() == Seq::<(i32, Seq<(FingerKind, FragmentView)>)>::empty(),
    {
        let r = GestureController {
            state: State::Normal,
            detected: Vec::new(),
            store,
            hands: HandManager::new(),
        };
        proof {
            assert(views(r.detected@) =~= Seq::<TemplateView>::empty());
        }
        r
    }

    /// The current state.
    pub fn state(&self) -> (r: State)
        ensures
            r == self.state_spec(),
    {
        self.state
    }

    /// Set the state.
    pub fn set_state(&mut self, state: State)
        ensures
            final(self).state_spec() == state,
            final(self).detected_spec() == old(self).detected_spec(),
            final(self).store_spec() == old(self).store_spec(),
            final(self).hands_spec() == old(self).hands_spec(),
            final(self).wf() == old(self).wf(),
    {
        self.state = state;
    }

    /// The template store.
    pub fn store(&self) -> (r: &TemplateStore)
        ensures
            r@ == self.store_spec(),
    {
        &self.store
    }

    /// The template store, to change.
    pub fn store_mut(&mut self) -> (r: &mut TemplateStore)
        ensures
            r@ == old(self).store_spec(),
            final(self).store_spec() == final(r)@,
            final(self).state_spec() == old(self).state_spec(),
            final(self).detected_spec() == old(self).detected_spec(),
            final(self).hands_spec() == old(self).hands_spec(),
            final(self).wf() == old(self).wf(),
    {
        &mut self.store
    }

    /// The hands in view.
    pub fn hands(&self) -> (r: &HandManager)
        ensures
            r@ == self.hands_spec(),
            self.wf() ==> r.wf(),
    {
        &self.hands
    }

    /// Process a sensor frame in the current state, as
    /// `HandManager::process_sensor_hand_list`; returns the keys of the fragments that
    /// took a sample, whose models are to be derived anew.
    pub fn process_frame(&mut self, frame: &Vec<HandSample>) -> (r: Vec<FingerKey>)
        requires
            old(self).wf(),
        ensures
            final(self).wf(),
            final(self).hands_spec() == keep_in_frame(
                track_frame(old(self).hands_spec(), frame@, old(self).state_spec()),
                frame@,
            ),
            r@ == frame_keys(frame@, old(self).state_spec()),
            forall|id: i32| has_key(final(self).hands_spec(), id) <==> in_frame(frame@, id),
            final(self).state_spec() == old(self).state_spec(),
            final(self).detected_spec() == old(self).detected_spec(),
            final(self).store_spec() == old(self).store_spec(),
    {
        self.hands.process_sensor_hand_list(self.state, frame)
    }

    /// Give the fragment named by `key` its model, derived from its raw
    /// trace. When the key takes part in detection and the state detects, the
    /// store is searched for a matching template; on a match, the template is
    /// queued as detected and the fragment mostly cleared. Returns whether a
    /// template was detected. Nothing changes when there is no such fragment.
    pub fn update_model(&mut self, key: FingerKey, trace: RotTrace) -> (r: bool)
        requires
            old(self).wf(),
        ensures
            final(self).wf(),
            final(self).state_spec() == old(self).state_spec(),
            final(self).store_spec() == old(self).store_spec(),
            fragment_of(old(self).hands_spec(), key.hand, key.finger) is None ==> !r && final(self).hands_spec() == old(self).hands_spec()
                && final(self).detected_spec() == old(self).detected_spec(),
            fragment_of(old(self).hands_spec(), key.hand, key.finger) matches Some(fv) ==> final(self).hands_spec()
                == with_fragment(
                old(self).hands_spec(),
                key.hand,
                key.finger,
                if r {
                    (newest(fv.0, KEEP_POINTS as nat), Seq::<RotPoint>::empty())
                } else {
                    (fv.0, trace@)
                },
            ),
            r ==> key.detect && old(self).state_spec().detects() && exists|t: TemplateView|
                final(self).detected_spec() == old(self).detected_spec().push(t)
                    && #[trigger] is_search_result(old(self).store_spec(), trace@, Some(t)),
            !r ==> final(self).detected_spec() == old(self).detected_spec(),
            !r && key.detect && old(self).state_spec().detects() && fragment_of(old(self).hands_spec(), key.hand, key.finger) is Some
                ==> is_search_result(old(self).store_spec(), trace@, None),
    {
        let hi = match self.hands.position(key.hand) {
            Some(hi) => hi,
            None => {
                return false;
            },
        };
        proof {
            lemma_lookup_at(self.hands@, hi as int);
        }
        let fi = match self.hands.hand_at(hi).position(key.finger) {
            Some(fi) => fi,
            None => {
                return false;
            },
        };
        proof {
            lemma_lookup_at(self.hands@[hi as int].1, fi as int);
            let v = self.hands@;
            assert(v[hi as int].0 == key.hand);
            assert(key_index(v, key.hand) == hi);
            assert(v[hi as int].1[fi as int].0 == key.finger);
            assert(key_index(v[hi as int].1, key.finger) == fi);
        }
        let ghost t = trace@;
        self.hands.set_trace_at(hi, fi, trace);
        proof {
            lemma_lookup_at(self.hands@, hi as int);
            lemma_lookup_at(self.hands@[hi as int].1, fi as int);
        }
        proof {
            assert(self.hands@ =~= with_fragment(
                old(self).hands_spec(),
                key.hand,
                key.finger,
                (old(self).hands_spec()[hi as int].1[fi as int].1.0, t),
            ));
        }
        if key.detect && self.state.should_detect() {
            let found = self.store.find_matching(self.hands.hand_at(hi).fragment_at(fi).model());
            proof {
                assert(self.hands@[hi as int].1[fi as int].1.1 == t);
            }
            match found {
                Some(template) => {
                    self.hands.clear_most_at(hi, fi);
                    let ghost prev = self.detected@;
                    self.detected.push(template);
                    proof {
                        lemma_lookup_at(self.hands@, hi as int);
                        lemma_lookup_at(self.hands@[hi as int].1, fi as int);
                        assert(views(self.detected@) =~= views(prev).push(template@));
                        assert(is_search_result(old(self).store_spec(), t, Some(template@)));
                        let ov = old(self).hands_spec();
                        let g = (newest(ov[hi as int].1[fi as int].1.0, KEEP_POINTS as nat), Seq::<RotPoint>::empty());
                        assert(self.hands@[hi as int].1 =~= ov[hi as int].1.update(fi as int, (key.finger, g)));
                        assert(self.hands@ =~= with_fragment(
                            old(self).hands_spec(),
                            key.hand,
                            key.finger,
                            (
                                newest(old(self).hands_spec()[hi as int].1[fi as int].1.0, KEEP_POINTS as nat),
                                Seq::<RotPoint>::empty(),
                            ),
                        ));
                    }
                    true
                },
                None => false,
            }
        } else {
            false
        }
    }

    /// Search the store for a template matching the model of `fragment`; on a
    /// match, queue the template as detected and mostly clear the fragment.
    /// Returns whether a template was detected.
    pub fn detect_gesture(&mut self, fragment: &mut Fragment) -> (r: bool)
        ensures
            final(self).state_spec() == old(self).state_spec(),
            final(self).store_spec() == old(self).store_spec(),
            final(self).hands_spec() == old(self).hands_spec(),
            final(self).wf() == old(self).wf(),
            r ==> exists|t: TemplateView|
                final(self).detected_spec() == old(self).detected_spec().push(t)
                    && #[trigger] is_search_result(old(self).store_spec(), old(fragment)@.1, Some(t)),
            r ==> final(fragment)@ == (newest(old(fragment)@.0, KEEP_POINTS as nat), Seq::<RotPoint>::empty()),
            !r ==> final(self).detected_spec() == old(self).detected_spec() && final(fragment)@ == old(fragment)@
                && is_search_result(old(self).store_spec(), old(fragment)@.1, None),
    {
        match self.store.find_matching(fragment.model()) {
            Some(template) => {
                fragment.clear_most();
                let ghost prev = self.detected@;
                self.detected.push(template);
                proof {
                    assert(views(self.detected@) =~= views(prev).push(template@));
                }
                true
            },
            None => false,
        }
    }

    /// Take the queue of detected templates, leaving it empty.
    pub fn flush_detected(&mut self) -> (r: Vec<Template>)
        ensures
            views(r@) == old(self).detected_spec(),
            final(self).detected_spec() == Seq::<TemplateView>::empty(),
            final(self).state_spec() == old(self).state_spec(),
            final(self).store_spec() == old(self).store_spec(),
            final(self).hands_spec() == old(self).hands_spec(),
            final(self).wf() == old(self).wf(),
    {
        let mut detected: Vec<Template> = Vec::new();
        std::mem::swap(&mut self.detected, &mut detected);
        proof {
            assert(views(self.detected@) =~= Seq::<TemplateView>::empty());
        }
        detected
    }

    /// Copies of the live index finger models, hand after hand.
    pub fn live_trace(&self) -> (r: Vec<Model>)
        requires
            self.wf(),
        ensures
            model_views(r@) == live_models(self.hands_spec()),
    {
        self.hands.get_live_models()
    }

    /// Create a template named `name` from the longest live model, trimmed to
    /// `[from, to)`, and add it to the store. Fails, changing nothing, when no
    /// fragment is tracked.
    pub fn create(&mut self, name: String, from: usize, to: usize) -> (r: Result<(), CreateError>)
        requires
            from <= to,
        ensures
            r is Err <==> !has_fragment(old(self).hands_spec()),
            r is Err ==> final(self).store_spec() == old(self).store_spec(),
            r is Ok ==> exists|m: Seq<RotPoint>|
                #[trigger] longest_of(old(self).hands_spec(), m) && final(self).store_spec()
                    == old(self).store_spec().push(
                    (
                        final(self).store_spec().last().0,
                        name@,
                        m.subrange(
                            if from <= m.len() { from as int } else { m.len() as int },
                            if to <= m.len() { to as int } else { m.len() as int },
                        ),
                    ),
                ),
            final(self).state_spec() == old(self).state_spec(),
            final(self).detected_spec() == old(self).detected_spec(),
            final(self).hands_spec() == old(self).hands_spec(),
            final(self).wf() == old(self).wf(),
    {
        let mut model = match self.hands.longest_model() {
            Some(m) => m,
            None => {
                return Err(CreateError::NoLiveModel);
            },
        };
        let ghost m = model@;
        model.trim(from, to);
        let template = Template::new(name, model);
        self.store.add(template);
        proof {
            assert(longest_of(old(self).hands_spec(), m));
            assert(self.store@.last() == template@);
        }
        Ok(())
    }

    /// Remove every hand, and with them all trace data.
    pub fn clear(&mut self)
        ensures
            final(self).hands_spec() == Seq::<(i32, Seq<(FingerKind, FragmentView)>)>::empty(),
            final(self).wf(),
            final(self).state_spec() == old(self).state_spec(),
            final(self).detected_spec() == old(self).detected_spec(),
            final(self).store_spec() == old(self).store_spec(),
    {
        self.hands.clear();
    }
}

/// Whether `m` is the model of a fragment of `v` and no fragment of `v` has
/// a longer one.
pub open spec fn longest_of(v: ManagerView, m: Seq<RotPoint>) -> bool {
    (exists|h: int, f: int| 0 <= h < v.len() && 0 <= f < v[h].1.len() && m == #[trigger] v[h].1[f].1.1)
        && (forall|h: int, f: int|
        0 <= h < v.len() && 0 <= f < v[h].1.len() ==> (#[trigger] v[h].1[f]).1.1.len() <= m.len())
}

} // verus!

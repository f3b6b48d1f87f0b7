//! The catalogue of templates that live traces are matched against.
use vstd::prelude::*;

use rayon::iter::{IndexedParallelIterator, IntoParallelRefIterator};

use crate::builtin::{builtin_templates, is_builtin};
use crate::model::{shape_matches, Model};
use crate::point::RotPoint;
use crate::template::{Template, TemplateView};

verus! {

/// The views of a list of templates.
pub open spec fn views(ts: Seq<Template>) -> Seq<TemplateView> {
    ts.map_values(|t: Template| t@)
}

/// The view of an optional template.
pub open spec fn option_view(t: Option<Template>) -> Option<TemplateView> {
    match t {
        Some(t) => Some(t@),
        None => None,
    }
}

/// `store` without the templates whose id is `id`, order kept.
pub open spec fn without_id(store: Seq<TemplateView>, id: u32) -> Seq<TemplateView>
    decreases store.len(),
{
    if store.len() == 0 {
        store
    } else {
        let rest = without_id(store.drop_last(), id);
        if store.last().0 == id {
            rest
        } else {
            rest.push(store.last())
        }
    }
}

/// Whether `found` is a correct answer to a search of `store` for a template
/// matching `other`: some template of the store whose model matches, or
/// nothing exactly when no template's model matches.
pub open spec fn is_search_result(
    store: Seq<TemplateView>,
    other: Seq<RotPoint>,
    found: Option<TemplateView>,
) -> bool {
    match found {
        Some(t) => exists|i: int|
            0 <= i < store.len() && store[i] == t && #[trigger] shape_matches(store[i].2, other),
        None => forall|i: int| 0 <= i < store.len() ==> !#[trigger] shape_matches(store[i].2, other),
    }
}

/// A search of an empty store finds nothing.
pub proof fn lemma_empty_store_finds_nothing(other: Seq<RotPoint>, found: Option<TemplateView>)
    requires
        is_search_result(Seq::empty(), other, found),
    ensures
        found is None,
{
}

/// A search of a store in which some template matches finds exactly one
/// template, and it is one that matches.
pub proof fn lemma_some_match_found(
    store: Seq<TemplateView>,
    other: Seq<RotPoint>,
    i: int,
    found: Option<TemplateView>,
)
    requires
        0 <= i < store.len(),
        shape_matches(store[i].2, other),
        is_search_result(store, other, found),
    ensures
        found is Some,
        exists|j: int| 0 <= j < store.len() && store[j] == found->0 && #[trigger] shape_matches(store[j].2, other),
{
}

/// A search of a store in which exactly one template matches finds that
/// template.
pub proof fn lemma_unique_match_found(
    store: Seq<TemplateView>,
    other: Seq<RotPoint>,
    i: int,
    found: Option<TemplateView>,
)
    requires
        0 <= i < store.len(),
        shape_matches(store[i].2, other),
        forall|j: int| 0 <= j < store.len() && j != i ==> !#[trigger] shape_matches(store[j].2, other),
        is_search_result(store, other, found),
    ensures
        found == Some(store[i]),
{
}

/// Relies on rayon's `position_any`: searching the templates in parallel, it
/// gives the index of some template whose model matches `other`, or `None`
/// when no template's model matches.
#[verifier::external_body]
fn position_of_match(templates: &Vec<Template>, other: &Model) -> (r: Option<usize>)
    ensures
        r matches Some(i) ==> i < templates@.len() && shape_matches(templates@[i as int]@.2, other@),
        r is None ==> forall|i: int|
            0 <= i < templates@.len() ==> !#[trigger] shape_matches(templates@[i]@.2, other@),
{
    templates.par_iter().position_any(|t| t.model().matches(other))
}

/// A catalogue of templates, in the order they were added.
#[derive(Debug)]
pub struct TemplateStore {
    templates: Vec<Template>,
}

impl View for TemplateStore {
    type V = Seq<TemplateView>;

    closed spec fn view(&self) -> Seq<TemplateView> {
        views(self.templates@)
    }
}

impl TemplateStore {
    /// Construct an empty store.
    pub fn new() -> (r: TemplateStore)
        ensures
            r@ == Seq::<TemplateView>::empty(),
    {
        TemplateStore { templates: Vec::new() }
    }

    /// The number of templates in the store.
    pub fn len(&self) -> (r: usize)
        ensures
            r == self@.len(),
    {
        self.templates.len()
    }

    /// Whether the store holds no template.
    pub fn is_empty(&self) -> (r: bool)
        ensures
            r == (self@.len() == 0),
    {
        self.templates.len() == 0
    }

    /// Add a template at the end of the store.
    pub fn add(&mut self, template: Template)
        ensures
            final(self)@ == old(self)@.push(template@),
    {
        self.templates.push(template);
        proof {
            assert(views(self.templates@) =~= views(old(self).templates@).push(template@));
        }
    }

    /// Add a list of templates at the end of the store, in their order.
    pub fn add_list(&mut self, templates: Vec<Template>)
        ensures
            final(self)@ == old(self)@ + views(templates@),
    {
        let ghost added = templates@;
        let mut templates = templates;
        self.templates.append(&mut templates);
        proof {
            assert(views(self.templates@) =~= views(old(self).templates@) + views(added));
        }
    }

    /// Add the built-in templates at the end of the store.
    pub fn add_builtin(&mut self)
        ensures
            final(self)@.len() == old(self)@.len() + 10,
            final(self)@.subrange(0, old(self)@.len() as int) == old(self)@,
            is_builtin(final(self)@.subrange(old(self)@.len() as int, final(self)@.len() as int)),
    {
        let list = builtin_templates();
        let ghost added = views(list@);
        self.add_list(list);
        proof {
            assert(self@.subrange(0, old(self)@.len() as int) =~= old(self)@);
            assert(self@.subrange(old(self)@.len() as int, self@.len() as int) =~= added);
        }
    }

    /// Delete every template with the given id; nothing happens when there
    /// is none.
    pub fn delete(&mut self, id: u32)
        ensures
            final(self)@ == without_id(old(self)@, id),
    {
        let mut kept: Vec<Template> = Vec::new();
        let mut i: usize = 0;
        while i < self.templates.len()
            invariant
                i <= self.templates@.len(),
                views(kept@) == without_id(views(self.templates@).subrange(0, i as int), id),
            decreases self.templates@.len() - i,
        {
            let ghost before = views(self.templates@).subrange(0, i as int);
            proof {
                assert(views(self.templates@).subrange(0, i + 1).drop_last() =~= before);
            }
            if self.templates[i].id() != id {
                let t = self.templates[i].copied();
                let ghost prev = kept@;
                kept.push(t);
                proof {
                    assert(views(kept@) =~= views(prev).push(t@));
                }
            }
            i = i + 1;
        }
        proof {
            assert(views(self.templates@).subrange(0, i as int) =~= views(self.templates@));
        }
        self.templates = kept;
    }

    /// Delete every template.
    pub fn delete_all(&mut self)
        ensures
            final(self)@ == Seq::<TemplateView>::empty(),
    {
        self.templates.clear();
        proof {
            assert(views(self.templates@) =~= Seq::<TemplateView>::empty());
        }
    }

    /// Replace the whole catalogue with the given templates, as when it is
    /// read back from storage.
    pub fn set_templates(&mut self, templates: Vec<Template>)
        ensures
            final(self)@ == views(templates@),
    {
        self.templates = templates;
    }

    /// A copy of the templates in the store, in order.
    pub fn to_templates(&self) -> (r: Vec<Template>)
        ensures
            views(r@) == self@,
    {
        let mut r: Vec<Template> = Vec::new();
        let mut i: usize = 0;
        while i < self.templates.len()
            invariant
                i <= self.templates@.len(),
                views(r@) == views(self.templates@).subrange(0, i as int),
            decreases self.templates@.len() - i,
        {
            let t = self.templates[i].copied();
            let ghost prev = r@;
            r.push(t);
            proof {
                assert(views(r@) =~= views(prev).push(t@));
                assert(views(self.templates@).subrange(0, i + 1) =~= views(
                    self.templates@,
                ).subrange(0, i as int).push(t@));
            }
            i = i + 1;
        }
        proof {
            assert(views(self.templates@).subrange(0, i as int) =~= views(self.templates@));
        }
        r
    }

    /// Find a template whose model matches `other`. The templates are searched
    /// in parallel, so when several match, any one of them may be returned.
    pub fn find_matching(&self, other: &Model) -> (r: Option<Template>)
        ensures
            is_search_result(self@, other@, option_view(r)),
    {
        match position_of_match(&self.templates, other) {
            Some(i) => {
                let t = self.templates[i].copied();
                proof {
                    assert(self@[i as int] == t@);
                }
                Some(t)
            },
            None => None,
        }
    }
}

} // verus!

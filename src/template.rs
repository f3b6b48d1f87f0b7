//! Named, identified shapes to recognize.
use vstd::prelude::*;

use crate::model::Model;
use crate::point::RotPoint;

verus! {

/// What a template holds: its id, its name and the points of its model.
pub type TemplateView = (u32, Seq<char>, Seq<RotPoint>);

/// Relies on `rand::thread_rng().next_u32()` for a fresh template id; nothing
/// is known of the value it returns.
#[verifier::external_body]
fn random_id() -> (r: u32) {
    rand::RngCore::next_u32(&mut rand::thread_rng())
}

/// A named shape that the recognizer looks for.
#[derive(Clone, Debug)]
pub struct Template {
    id: u32,
    name: String,
    model: Model,
}

impl View for Template {
    type V = TemplateView;

    closed spec fn view(&self) -> TemplateView {
        (self.id, self.name@, self.model@)
    }
}

impl Template {
    /// Construct a template with the given name and model, under a randomly
    /// picked id.
    pub fn new(name: String, model: Model) -> (r: Template)
        ensures
            r@.1 == name@,
            r@.2 == model@,
    {
        Template { id: random_id(), name, model }
    }

    /// Construct a template from all its parts, as when it is read back
    /// from storage.
    pub fn from_parts(id: u32, name: String, model: Model) -> (r: Template)
        ensures
            r@ == (id, name@, model@),
    {
        Template { id, name, model }
    }

    /// The template id.
    pub fn id(&self) -> (r: u32)
        ensures
            r == self@.0,
    {
        self.id
    }

    /// The template name.
    pub fn name(&self) -> (r: &str)
        ensures
            r@ == self@.1,
    {
        self.name.as_str()
    }

    /// The template model.
    pub fn model(&self) -> (r: &Model)
        ensures
            r@ == self@.2,
    {
        &self.model
    }

    /// A copy of this template.
    pub fn copied(&self) -> (r: Template)
        ensures
            r@ == self@,
    {
        Template { id: self.id, name: self.name.clone(), model: self.model.copied() }
    }
}

} // verus!

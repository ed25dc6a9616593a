//! Models and protocols as they come from disk.

use vstd::prelude::*;

verus! {

/// What a JSON value is at its top.
#[derive(Debug, Clone, Copy, PartialEq, Eq, Structural)]
pub enum ModelShape {
    Null,
    Bool,
    Number,
    String,
    Array,
    Object,
}

pub struct ModelLoader;

impl ModelLoader {
    /// A model is accepted if it is an object or an array.
    pub fn validate_model(model: ModelShape) -> (accepted: bool)
        ensures
            accepted == (model is Object || model is Array),
    {
        match model {
            ModelShape::Object => true,
            ModelShape::Array => true,
            _ => false,
        }
    }
}

} // verus!

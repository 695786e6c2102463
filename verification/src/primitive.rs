//! Primitive registration data: the default components and attribute
//! mappings that define a custom primitive.

use vstd::prelude::*;

use crate::component::Component;

verus! {

/// A primitive definition: the components every instance starts with, and
/// the mapping from primitive attribute names to component property paths.
/// Handing the definition to the host runtime is the caller's concern.
#[derive(Debug)]
pub struct PrimitiveReg {
    pub default_components: Vec<(String, Component)>,
    pub mappings: Vec<(String, String)>,
}

impl PrimitiveReg {
    /// A new primitive definition.
    pub fn new(
        default_components: Vec<(String, Component)>,
        mappings: Vec<(String, String)>,
    ) -> (r: PrimitiveReg)
        ensures
            r.default_components == default_components,
            r.mappings == mappings,
    {
        PrimitiveReg { default_components, mappings }
    }
}

} // verus!

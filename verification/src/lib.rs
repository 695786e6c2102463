//! A typed scene-description library for a declarative 3D scene framework.
//!
//! The library models typed components (structured property bags), entities,
//! assets and scenes, and serializes them into the markup dialect the host
//! runtime expects: each component encodes into a single attribute-value
//! string following a semicolon/key-value mini-syntax, and the scene tree
//! renders into markup text or a structured render tree.

use vstd::prelude::*;

pub mod assets;
pub mod component;
pub mod entity;
pub mod flatten;
pub mod htmlify;
pub mod num;
pub mod primitive;
pub mod scene;
pub mod shader;
pub mod utils;

pub use assets::{Asset, AssetItem, Assets, Audio, Image, Mixin, Preload, Video};
pub use component::{cmp_to_attr, Component, ComponentVec, Field, MaterialProps, Value,
    VariantValue};
pub use entity::Entity;
pub use flatten::parse_pairs;
pub use htmlify::{Attribute, RenderNode};
pub use num::Number;
pub use primitive::PrimitiveReg;
pub use scene::Scene;
pub use shader::IsUniform;
pub use utils::{Vector2, Vector3, Vector4};

verus! {

/// Error returned when the host runtime could not be initialized.
#[derive(Debug, Clone, Copy)]
pub struct InitError;

impl InitError {
    /// A human-readable description of the failure.
    pub fn message(&self) -> (r: &'static str)
        ensures
            r@ == "Failed to initialize"@,
    {
        "Failed to initialize"
    }
}

} // verus!

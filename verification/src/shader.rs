//! Shader-related declarations: the uniform marker used by shader property
//! schemas, and the names of the built-in shaders.

use vstd::prelude::*;

verus! {

/// Whether a shader property is a uniform.  A uniform serializes as the
/// token `uniform`; a plain property serializes as the empty text and is
/// omitted from the schema payload.
#[derive(Clone, Copy, Debug, PartialEq, Eq, Structural)]
pub enum IsUniform {
    Yes,
    No,
}

impl IsUniform {
    /// True for a property that is not a uniform.
    pub fn not_uniform(&self) -> (r: bool)
        ensures
            r == (*self is No),
    {
        matches!(self, IsUniform::No)
    }

    /// The wire token of this marker.
    pub fn label(&self) -> (r: &'static str)
        ensures
            *self is Yes ==> r@ == "uniform"@,
            *self is No ==> r@ == ""@,
    {
        match self {
            IsUniform::Yes => "uniform",
            IsUniform::No => "",
        }
    }
}

/// The name of the built-in portal shader.
pub fn shader_portal() -> (r: &'static str)
    ensures
        r@ == "portal"@,
{
    "portal"
}

/// The name of the built-in flat shader.
pub fn shader_flat() -> (r: &'static str)
    ensures
        r@ == "flat"@,
{
    "flat"
}

/// The name of the built-in standard shader.
pub fn shader_standard() -> (r: &'static str)
    ensures
        r@ == "standard"@,
{
    "standard"
}

/// The name of the built-in signed-distance-field text shader.
pub fn shader_sdf() -> (r: &'static str)
    ensures
        r@ == "sdf"@,
{
    "sdf"
}

/// The name of the built-in multi-channel signed-distance-field text shader.
pub fn shader_msdf() -> (r: &'static str)
    ensures
        r@ == "msdf"@,
{
    "msdf"
}

} // verus!

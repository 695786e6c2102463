//! Small value types shared across components: 2-, 3- and 4-component vectors.
//!
//! A vector encodes as its components' decimal texts separated by single
//! spaces, in declared order.

use vstd::prelude::*;

use crate::num::{spec_encode_number, Number};

verus! {

/// A 2-dimensional vector.
#[derive(Clone, Copy, Debug, PartialEq, Eq, Structural)]
pub struct Vector2 {
    pub x: Number,
    pub y: Number,
}

/// A 3-dimensional vector.
#[derive(Clone, Copy, Debug, PartialEq, Eq, Structural)]
pub struct Vector3 {
    pub x: Number,
    pub y: Number,
    pub z: Number,
}

/// A 4-dimensional vector.
#[derive(Clone, Copy, Debug, PartialEq, Eq, Structural)]
pub struct Vector4 {
    pub x: Number,
    pub y: Number,
    pub z: Number,
    pub w: Number,
}

impl Vector2 {
    pub open spec fn wf(self) -> bool {
        self.x.wf() && self.y.wf()
    }

    /// The origin.
    pub fn zero() -> (r: Vector2)
        ensures
            r == (Vector2 { x: Number { mantissa: 0, scale: 0 }, y: Number {
                mantissa: 0,
                scale: 0,
            } }),
    {
        Vector2 { x: Number::from_int(0), y: Number::from_int(0) }
    }
}

impl Vector3 {
    pub open spec fn wf(self) -> bool {
        self.x.wf() && self.y.wf() && self.z.wf()
    }

    /// The origin.
    pub fn zero() -> (r: Vector3)
        ensures
            r == (Vector3 {
                x: Number { mantissa: 0, scale: 0 },
                y: Number { mantissa: 0, scale: 0 },
                z: Number { mantissa: 0, scale: 0 },
            }),
    {
        Vector3 { x: Number::from_int(0), y: Number::from_int(0), z: Number::from_int(0) }
    }
}

impl Vector4 {
    pub open spec fn wf(self) -> bool {
        self.x.wf() && self.y.wf() && self.z.wf() && self.w.wf()
    }

    /// The origin.
    pub fn zero() -> (r: Vector4)
        ensures
            r == (Vector4 {
                x: Number { mantissa: 0, scale: 0 },
                y: Number { mantissa: 0, scale: 0 },
                z: Number { mantissa: 0, scale: 0 },
                w: Number { mantissa: 0, scale: 0 },
            }),
    {
        Vector4 {
            x: Number::from_int(0),
            y: Number::from_int(0),
            z: Number::from_int(0),
            w: Number::from_int(0),
        }
    }
}

/// `"x y"` for a 2-vector.
pub open spec fn spec_encode_vec2(v: Vector2) -> Seq<char> {
    spec_encode_number(v.x) + seq![' '] + spec_encode_number(v.y)
}

/// `"x y z"` for a 3-vector.
pub open spec fn spec_encode_vec3(v: Vector3) -> Seq<char> {
    spec_encode_number(v.x) + seq![' '] + spec_encode_number(v.y) + seq![' ']
        + spec_encode_number(v.z)
}

/// `"x y z w"` for a 4-vector.
pub open spec fn spec_encode_vec4(v: Vector4) -> Seq<char> {
    spec_encode_number(v.x) + seq![' '] + spec_encode_number(v.y) + seq![' ']
        + spec_encode_number(v.z) + seq![' '] + spec_encode_number(v.w)
}

impl Vector2 {
    /// Encode as space-separated component texts.
    pub fn encode(&self) -> (s: String)
        requires
            self.wf(),
        ensures
            s@ == spec_encode_vec2(*self),
    {
        proof {
            reveal_strlit(" ");
        }
        let mut s = self.x.encode();
        s.append(" ");
        s.append(self.y.encode().as_str());
        s
    }
}

impl Vector3 {
    /// Encode as space-separated component texts.
    pub fn encode(&self) -> (s: String)
        requires
            self.wf(),
        ensures
            s@ == spec_encode_vec3(*self),
    {
        proof {
            reveal_strlit(" ");
        }
        let mut s = self.x.encode();
        s.append(" ");
        s.append(self.y.encode().as_str());
        s.append(" ");
        s.append(self.z.encode().as_str());
        s
    }
}

impl Vector4 {
    /// Encode as space-separated component texts.
    pub fn encode(&self) -> (s: String)
        requires
            self.wf(),
        ensures
            s@ == spec_encode_vec4(*self),
    {
        proof {
            reveal_strlit(" ");
        }
        let mut s = self.x.encode();
        s.append(" ");
        s.append(self.y.encode().as_str());
        s.append(" ");
        s.append(self.z.encode().as_str());
        s.append(" ");
        s.append(self.w.encode().as_str());
        s
    }
}

} // verus!

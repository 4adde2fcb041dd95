use vstd::prelude::*;
use vstd::std_specs::cmp::PartialEqSpecImpl;
use crate::scalar::Scalar;

verus! {

/// A point or a direction in world space: three single-precision components.
///
/// Two vectors are equal when their components are equal as numbers.
#[derive(Clone, Copy, Debug)]
pub struct Vector {
    pub x: Scalar,
    pub y: Scalar,
    pub z: Scalar,
}

impl Vector {
    /// Whether some component is a NaN.
    pub open spec fn has_nan(self) -> bool {
        self.x.is_nan() || self.y.is_nan() || self.z.is_nan()
    }

    /// Component-wise numeric equality.
    pub open spec fn same_vector(self, other: Vector) -> bool {
        &&& self.x.same_number(other.x)
        &&& self.y.same_number(other.y)
        &&& self.z.same_number(other.z)
    }

    pub fn new(x: Scalar, y: Scalar, z: Scalar) -> (vector: Self)
        ensures
            vector.x == x,
            vector.y == y,
            vector.z == z,
    {
        Self { x, y, z }
    }

    /// The vector whose components have the given bit patterns.
    pub fn from_bits(x: u32, y: u32, z: u32) -> (vector: Self)
        ensures
            vector.x.bits == x,
            vector.y.bits == y,
            vector.z.bits == z,
    {
        Self { x: Scalar::from_bits(x), y: Scalar::from_bits(y), z: Scalar::from_bits(z) }
    }
}

impl PartialEq for Vector {
    fn eq(&self, other: &Vector) -> (r: bool) {
        self.x == other.x && self.y == other.y && self.z == other.z
    }
}

impl PartialEqSpecImpl for Vector {
    open spec fn obeys_eq_spec() -> bool {
        true
    }

    open spec fn eq_spec(&self, other: &Vector) -> bool {
        self.same_vector(*other)
    }
}

} // verus!

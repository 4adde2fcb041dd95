use vstd::prelude::*;
use vstd::std_specs::convert::FromSpecImpl;
use crate::vector::Vector;

verus! {

/// The address of one voxel cell: three lattice indices counted from the
/// chunk's origin. Equality is that of the three indices.
#[derive(Clone, Copy, Debug, PartialEq, Eq, Structural)]
pub struct Coordinate {
    pub x: usize,
    pub y: usize,
    pub z: usize,
}

impl Coordinate {
    /// The largest of the three indices.
    pub open spec fn spec_max_element(self) -> usize {
        if self.x >= self.y && self.x >= self.z {
            self.x
        } else if self.y >= self.z {
            self.y
        } else {
            self.z
        }
    }

    /// The cell nearest to a position: each component rounded to the nearest
    /// index.
    pub open spec fn spec_nearest(value: Vector) -> Coordinate {
        Coordinate { x: value.x.spec_round(), y: value.y.spec_round(), z: value.z.spec_round() }
    }

    /// The cell nearest to a position: each component rounded to the nearest
    /// index, a half away from zero. A negative component gives index 0, and
    /// so does a NaN.
    #[verifier::when_used_as_spec(spec_nearest)]
    pub fn nearest(value: Vector) -> (coord: Self)
        ensures
            coord == Self::spec_nearest(value),
    {
        Self { x: value.x.round(), y: value.y.round(), z: value.z.round() }
    }

    pub fn new(x: usize, y: usize, z: usize) -> (coord: Self)
        ensures
            coord == (Coordinate { x, y, z }),
    {
        Self { x, y, z }
    }

    /// The largest of the three indices: a coordinate lies inside a cube of
    /// edge `n` exactly when this is below `n`.
    #[verifier::when_used_as_spec(spec_max_element)]
    pub fn max_element(self) -> (m: usize)
        ensures
            m == self.spec_max_element(),
            m >= self.x && m >= self.y && m >= self.z,
            m == self.x || m == self.y || m == self.z,
    {
        if self.x >= self.y && self.x >= self.z {
            self.x
        } else if self.y >= self.z {
            self.y
        } else {
            self.z
        }
    }
}

impl From<Vector> for Coordinate {
    /// The cell of a position: each component cut off toward zero and held
    /// to the range of an index. A negative component gives index 0, and so
    /// does a NaN.
    fn from(value: Vector) -> (coord: Self) {
        Self { x: value.x.truncate(), y: value.y.truncate(), z: value.z.truncate() }
    }
}

impl FromSpecImpl<Vector> for Coordinate {
    open spec fn obeys_from_spec() -> bool {
        true
    }

    open spec fn from_spec(value: Vector) -> Coordinate {
        Coordinate {
            x: value.x.spec_truncate(),
            y: value.y.spec_truncate(),
            z: value.z.spec_truncate(),
        }
    }
}

} // verus!

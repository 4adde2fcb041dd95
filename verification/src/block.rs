use vstd::prelude::*;
use vstd::std_specs::cmp::PartialEqSpecImpl;
use crate::color::Color;

verus! {

/// What fills an occupied voxel: its colour. A block is never changed in
/// place; an edit replaces it.
#[derive(Clone, Copy, Debug)]
pub struct Block {
    pub color: Color,
}

impl Block {
    pub open spec fn spec_new(color: Color) -> Block {
        Block { color }
    }

    #[verifier::when_used_as_spec(spec_new)]
    pub fn new(color: Color) -> (block: Self)
        ensures
            block == Self::spec_new(color),
    {
        Self { color }
    }
}

impl PartialEq for Block {
    fn eq(&self, other: &Block) -> (r: bool) {
        self.color == other.color
    }
}

impl PartialEqSpecImpl for Block {
    open spec fn obeys_eq_spec() -> bool {
        true
    }

    open spec fn eq_spec(&self, other: &Block) -> bool {
        self.color.same_color(other.color)
    }
}

impl Default for Block {
    /// A white block.
    fn default() -> (block: Self)
        ensures
            block == Block::spec_new(Color::spec_white()),
    {
        Self { color: Color::white() }
    }
}

} // verus!

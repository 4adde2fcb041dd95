use vstd::prelude::*;
use vstd::std_specs::cmp::PartialEqSpecImpl;
use crate::scalar::{
    Scalar, FIFTH_BITS, FOUR_FIFTHS_BITS, HALF_BITS, ONE_BITS, QUARTER_BITS, ZERO_BITS,
};

verus! {

/// A colour by its red, green, blue and alpha channels, each a
/// single-precision number between 0 and 1 for an ordinary colour.
///
/// Two colours are equal when their channels are equal as numbers.
#[derive(Clone, Copy, Debug)]
pub struct Color {
    pub red: Scalar,
    pub green: Scalar,
    pub blue: Scalar,
    pub alpha: Scalar,
}

impl Color {
    /// Channel-wise numeric equality.
    pub open spec fn same_color(self, other: Color) -> bool {
        &&& self.red.same_number(other.red)
        &&& self.green.same_number(other.green)
        &&& self.blue.same_number(other.blue)
        &&& self.alpha.same_number(other.alpha)
    }

    /// Whether some channel is a NaN; such a colour equals no colour.
    pub open spec fn has_nan(self) -> bool {
        ||| self.red.is_nan()
        ||| self.green.is_nan()
        ||| self.blue.is_nan()
        ||| self.alpha.is_nan()
    }

    /// The colour with the given channel bit patterns.
    pub open spec fn spec_rgba_bits(red: u32, green: u32, blue: u32, alpha: u32) -> Color {
        Color {
            red: Scalar { bits: red },
            green: Scalar { bits: green },
            blue: Scalar { bits: blue },
            alpha: Scalar { bits: alpha },
        }
    }

    /// The opaque colour with the given channel bit patterns.
    pub open spec fn spec_rgb_bits(red: u32, green: u32, blue: u32) -> Color {
        Self::spec_rgba_bits(red, green, blue, ONE_BITS)
    }

    #[verifier::when_used_as_spec(spec_rgba_bits)]
    pub fn rgba_bits(red: u32, green: u32, blue: u32, alpha: u32) -> (color: Self)
        ensures
            color == Self::spec_rgba_bits(red, green, blue, alpha),
    {
        Self {
            red: Scalar::from_bits(red),
            green: Scalar::from_bits(green),
            blue: Scalar::from_bits(blue),
            alpha: Scalar::from_bits(alpha),
        }
    }

    #[verifier::when_used_as_spec(spec_rgb_bits)]
    pub fn rgb_bits(red: u32, green: u32, blue: u32) -> (color: Self)
        ensures
            color == Self::spec_rgb_bits(red, green, blue),
    {
        Self::rgba_bits(red, green, blue, ONE_BITS)
    }

    pub open spec fn spec_white() -> Color {
        Self::spec_rgb_bits(ONE_BITS, ONE_BITS, ONE_BITS)
    }

    pub open spec fn spec_dark_gray() -> Color {
        Self::spec_rgb_bits(QUARTER_BITS, QUARTER_BITS, QUARTER_BITS)
    }

    pub open spec fn spec_gray() -> Color {
        Self::spec_rgb_bits(HALF_BITS, HALF_BITS, HALF_BITS)
    }

    pub open spec fn spec_cyan() -> Color {
        Self::spec_rgb_bits(ZERO_BITS, ONE_BITS, ONE_BITS)
    }

    pub open spec fn spec_lime_green() -> Color {
        Self::spec_rgb_bits(FIFTH_BITS, FOUR_FIFTHS_BITS, FIFTH_BITS)
    }

    /// White: every channel 1.
    #[verifier::when_used_as_spec(spec_white)]
    pub fn white() -> (color: Self)
        ensures
            color == Self::spec_white(),
    {
        Self::rgb_bits(ONE_BITS, ONE_BITS, ONE_BITS)
    }

    /// Dark gray: red, green and blue 0.25.
    #[verifier::when_used_as_spec(spec_dark_gray)]
    pub fn dark_gray() -> (color: Self)
        ensures
            color == Self::spec_dark_gray(),
    {
        Self::rgb_bits(QUARTER_BITS, QUARTER_BITS, QUARTER_BITS)
    }

    /// Gray: red, green and blue 0.5.
    #[verifier::when_used_as_spec(spec_gray)]
    pub fn gray() -> (color: Self)
        ensures
            color == Self::spec_gray(),
    {
        Self::rgb_bits(HALF_BITS, HALF_BITS, HALF_BITS)
    }

    /// Cyan: green and blue 1, red 0.
    #[verifier::when_used_as_spec(spec_cyan)]
    pub fn cyan() -> (color: Self)
        ensures
            color == Self::spec_cyan(),
    {
        Self::rgb_bits(ZERO_BITS, ONE_BITS, ONE_BITS)
    }

    /// Lime green: red and blue 0.2, green 0.8.
    #[verifier::when_used_as_spec(spec_lime_green)]
    pub fn lime_green() -> (color: Self)
        ensures
            color == Self::spec_lime_green(),
    {
        Self::rgb_bits(FIFTH_BITS, FOUR_FIFTHS_BITS, FIFTH_BITS)
    }
}

impl PartialEq for Color {
    fn eq(&self, other: &Color) -> (r: bool) {
        self.red == other.red && self.green == other.green && self.blue == other.blue
            && self.alpha == other.alpha
    }
}

impl PartialEqSpecImpl for Color {
    open spec fn obeys_eq_spec() -> bool {
        true
    }

    open spec fn eq_spec(&self, other: &Color) -> bool {
        self.same_color(*other)
    }
}

} // verus!

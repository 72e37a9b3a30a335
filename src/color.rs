use vstd::prelude::*;

use crate::scalar::{Scalar, ONE_BITS, ZERO_BITS};

verus! {

/// An RGB color; the channels are not clamped.
#[derive(Clone, Copy, Debug, PartialEq, Eq, Structural)]
pub struct Color {
    pub red: Scalar,
    pub green: Scalar,
    pub blue: Scalar,
}

impl Color {
    pub open spec fn spec_black() -> Color {
        Color { red: Scalar(ZERO_BITS), green: Scalar(ZERO_BITS), blue: Scalar(ZERO_BITS) }
    }

    pub fn new(red: Scalar, green: Scalar, blue: Scalar) -> (r: Color)
        ensures
            r == (Color { red, green, blue }),
    {
        Color { red, green, blue }
    }

    pub fn black() -> (r: Color)
        ensures
            r == Color::spec_black(),
    {
        Color { red: Scalar::zero(), green: Scalar::zero(), blue: Scalar::zero() }
    }

    pub fn white() -> (r: Color)
        ensures
            r == (Color { red: Scalar(ONE_BITS), green: Scalar(ONE_BITS), blue: Scalar(ONE_BITS) }),
    {
        Color { red: Scalar::one(), green: Scalar::one(), blue: Scalar::one() }
    }
}

} // verus!

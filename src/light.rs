use vstd::prelude::*;

use crate::color::Color;
use crate::tuple::Tuple;

verus! {

/// A light that shines from one point in every direction.
#[derive(Clone, Copy, Debug, PartialEq, Eq, Structural)]
pub struct PointLight {
    pub position: Tuple,
    pub intensity: Color,
}

impl PointLight {
    pub fn new(position: Tuple, intensity: Color) -> (r: PointLight)
        ensures
            r == (PointLight { position, intensity }),
    {
        PointLight { position, intensity }
    }

    pub fn get_intensity(&self) -> (r: Color)
        ensures
            r == self.intensity,
    {
        self.intensity
    }

    pub fn get_position(&self) -> (r: Tuple)
        ensures
            r == self.position,
    {
        self.position
    }
}

} // verus!

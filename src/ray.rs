use vstd::prelude::*;

use crate::tuple::Tuple;

verus! {

/// A half-line: the points `origin + direction · t`.
#[derive(Clone, Copy, Debug, PartialEq, Eq, Structural)]
pub struct Ray {
    pub origin: Tuple,
    pub direction: Tuple,
}

impl Ray {
    pub fn new(origin: Tuple, direction: Tuple) -> (r: Ray)
        ensures
            r == (Ray { origin, direction }),
    {
        Ray { origin, direction }
    }

    pub fn get_origin(&self) -> (r: Tuple)
        ensures
            r == self.origin,
    {
        self.origin
    }

    pub fn get_direction(&self) -> (r: Tuple)
        ensures
            r == self.direction,
    {
        self.direction
    }
}

} // verus!

use vstd::prelude::*;

use crate::error::TraceError;
use crate::scalar::{Scalar, ONE_BITS, ZERO_BITS};

verus! {

/// What a homogeneous tuple stands for.
#[derive(Clone, Copy, Debug, PartialEq, Eq, Structural)]
pub enum TupleKind {
    Point,
    Vector,
}

/// A component of a tuple.
#[derive(Clone, Copy, Debug, PartialEq, Eq, Structural)]
pub enum Position {
    X,
    Y,
    Z,
    Kind,
}

impl TupleKind {
    /// The homogeneous coordinate that marks the kind: one for a point,
    /// zero for a vector.
    pub open spec fn marker(self) -> Scalar {
        match self {
            TupleKind::Point => Scalar(ONE_BITS),
            TupleKind::Vector => Scalar(ZERO_BITS),
        }
    }
}

/// A homogeneous tuple `(x, y, z, w)`: `w = 1` marks a point, `w = 0` a vector.
#[derive(Clone, Copy, Debug, PartialEq, Eq, Structural)]
pub struct Tuple {
    pub x: Scalar,
    pub y: Scalar,
    pub z: Scalar,
    pub w: Scalar,
}

impl Tuple {
    pub open spec fn spec_index(self, position: Position) -> Scalar {
        match position {
            Position::X => self.x,
            Position::Y => self.y,
            Position::Z => self.z,
            Position::Kind => self.w,
        }
    }

    /// Every component with its sign flipped.
    pub open spec fn spec_neg(self) -> Tuple {
        Tuple { x: self.x.spec_neg(), y: self.y.spec_neg(), z: self.z.spec_neg(), w: self.w.spec_neg() }
    }

    /// A tuple is used as a vector when its homogeneous coordinate is zero.
    pub open spec fn spec_is_vector(self) -> bool {
        self.w.spec_is_zero()
    }

    pub fn new(kind: TupleKind, x: Scalar, y: Scalar, z: Scalar) -> (r: Tuple)
        ensures
            r == (Tuple { x, y, z, w: kind.marker() }),
    {
        let w = match kind {
            TupleKind::Point => Scalar::one(),
            TupleKind::Vector => Scalar::zero(),
        };
        Tuple { x, y, z, w }
    }

    pub fn new_point(x: Scalar, y: Scalar, z: Scalar) -> (r: Tuple)
        ensures
            r == (Tuple { x, y, z, w: Scalar(ONE_BITS) }),
    {
        Self::new(TupleKind::Point, x, y, z)
    }

    pub fn new_vec(x: Scalar, y: Scalar, z: Scalar) -> (r: Tuple)
        ensures
            r == (Tuple { x, y, z, w: Scalar(ZERO_BITS) }),
    {
        Self::new(TupleKind::Vector, x, y, z)
    }

    /// The point at the origin of its space.
    pub fn point_origin() -> (r: Tuple)
        ensures
            r == (Tuple { x: Scalar(ZERO_BITS), y: Scalar(ZERO_BITS), z: Scalar(ZERO_BITS), w: Scalar(ONE_BITS) }),
    {
        Self::new_point(Scalar::zero(), Scalar::zero(), Scalar::zero())
    }

    /// The tuple whose components are `arr` in the order x, y, z, w.
    pub fn from(arr: [Scalar; 4]) -> (r: Tuple)
        ensures
            r == (Tuple { x: arr@[0], y: arr@[1], z: arr@[2], w: arr@[3] }),
    {
        Tuple { x: arr[0], y: arr[1], z: arr[2], w: arr[3] }
    }

    pub fn index(&self, position: Position) -> (r: Scalar)
        ensures
            r == self.spec_index(position),
    {
        match position {
            Position::X => self.x,
            Position::Y => self.y,
            Position::Z => self.z,
            Position::Kind => self.w,
        }
    }

    pub fn is_vector(&self) -> (r: bool)
        ensures
            r == self.spec_is_vector(),
    {
        self.w.is_zero()
    }

    /// Succeeds exactly when both tuples are vectors, the operands that the
    /// dot and the cross product accept.
    pub fn vector_operands(&self, other: &Tuple) -> (r: Result<(), TraceError>)
        ensures
            r is Ok <==> self.spec_is_vector() && other.spec_is_vector(),
            r is Err ==> r == Err::<(), TraceError>(TraceError::InvalidOperand),
    {
        if self.is_vector() && other.is_vector() {
            Ok(())
        } else {
            Err(TraceError::InvalidOperand)
        }
    }

    /// Every component with its sign flipped.
    pub fn neg(&self) -> (r: Tuple)
        ensures
            r == self.spec_neg(),
    {
        Tuple { x: self.x.neg(), y: self.y.neg(), z: self.z.neg(), w: self.w.neg() }
    }
}

} // verus!

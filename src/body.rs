use vstd::prelude::*;

use uuid::Uuid;

use crate::material::Material;
use crate::matrix::{identity, is_transform, Matrix};
use crate::scalar::{Scalar, EPSILON_BITS};
use crate::tuple::Tuple;

verus! {

#[verifier::external_type_specification]
#[verifier::external_body]
pub struct ExUuid(Uuid);

/// Relies on uuid's `Uuid::new_v4`, which draws a random identifier; nothing
/// is promised of its value.
pub assume_specification[ Uuid::new_v4 ]() -> Uuid;

/// The unit sphere about the origin, placed in the world by its transformation.
#[derive(Debug)]
pub struct Sphere {
    id: Uuid,
    transformation: Matrix,
    material: Material,
}

impl Sphere {
    pub closed spec fn spec_id(&self) -> Uuid {
        self.id
    }

    pub closed spec fn spec_transformation(&self) -> Matrix {
        self.transformation
    }

    pub closed spec fn spec_material(&self) -> Material {
        self.material
    }

    /// The transformation is a 4×4 matrix.
    #[verifier::type_invariant]
    closed spec fn has_transform(&self) -> bool {
        is_transform(self.transformation)
    }

    /// A sphere with a fresh identity, the identity transformation and the
    /// default material.
    pub fn new() -> (r: Sphere)
        ensures
            r.spec_transformation()@ == identity(4),
            r.spec_material().is_default(),
    {
        Sphere { id: Uuid::new_v4(), transformation: Matrix::identity_matrix(4), material: Material::default() }
    }

    pub fn get_id(&self) -> (r: Uuid)
        ensures
            r == self.spec_id(),
    {
        self.id
    }

    pub fn get_transformation(&self) -> (r: &Matrix)
        ensures
            *r == self.spec_transformation(),
            is_transform(*r),
    {
        proof {
            use_type_invariant(self);
        }
        &self.transformation
    }

    pub fn get_material(&self) -> (r: Material)
        ensures
            r == self.spec_material(),
    {
        self.material
    }

    /// This sphere, same identity, with its material replaced.
    pub fn set_material(self, material: Material) -> (r: Sphere)
        ensures
            r.spec_id() == self.spec_id(),
            r.spec_transformation() == self.spec_transformation(),
            r.spec_material() == material,
    {
        proof {
            use_type_invariant(&self);
        }
        Sphere { material, ..self }
    }

    /// This sphere, same identity, with its transformation replaced.
    pub fn set_transformation(self, transformation: Matrix) -> (r: Sphere)
        requires
            is_transform(transformation),
        ensures
            r.spec_id() == self.spec_id(),
            r.spec_transformation() == transformation,
            r.spec_material() == self.spec_material(),
    {
        Sphere { transformation, ..self }
    }
}

/// The x–z plane through the origin, placed in the world by its transformation.
#[derive(Debug)]
pub struct Plane {
    id: Uuid,
    transformation: Matrix,
    material: Material,
}

impl Plane {
    pub closed spec fn spec_id(&self) -> Uuid {
        self.id
    }

    pub closed spec fn spec_transformation(&self) -> Matrix {
        self.transformation
    }

    pub closed spec fn spec_material(&self) -> Material {
        self.material
    }

    /// The transformation is a 4×4 matrix.
    #[verifier::type_invariant]
    closed spec fn has_transform(&self) -> bool {
        is_transform(self.transformation)
    }

    /// A plane with a fresh identity, the identity transformation and the
    /// default material.
    pub fn new() -> (r: Plane)
        ensures
            r.spec_transformation()@ == identity(4),
            r.spec_material().is_default(),
    {
        Plane { id: Uuid::new_v4(), transformation: Matrix::identity_matrix(4), material: Material::default() }
    }

    pub fn get_id(&self) -> (r: Uuid)
        ensures
            r == self.spec_id(),
    {
        self.id
    }

    pub fn get_transformation(&self) -> (r: &Matrix)
        ensures
            *r == self.spec_transformation(),
            is_transform(*r),
    {
        proof {
            use_type_invariant(self);
        }
        &self.transformation
    }

    pub fn get_material(&self) -> (r: Material)
        ensures
            r == self.spec_material(),
    {
        self.material
    }

    /// This plane, same identity, with its material replaced.
    pub fn set_material(self, material: Material) -> (r: Plane)
        ensures
            r.spec_id() == self.spec_id(),
            r.spec_transformation() == self.spec_transformation(),
            r.spec_material() == material,
    {
        proof {
            use_type_invariant(&self);
        }
        Plane { material, ..self }
    }

    /// This plane, same identity, with its transformation replaced.
    pub fn set_transformation(self, transformation: Matrix) -> (r: Plane)
        requires
            is_transform(transformation),
        ensures
            r.spec_id() == self.spec_id(),
            r.spec_transformation() == transformation,
            r.spec_material() == self.spec_material(),
    {
        Plane { transformation, ..self }
    }
}

impl Plane {
    /// A ray with this direction, in the plane's own space, runs parallel to
    /// the plane: its y component is below the tolerance in absolute value.
    /// Such a ray meets the plane nowhere, even one that lies in it.
    pub fn is_parallel(direction: &Tuple) -> (r: bool)
        ensures
            r == direction.y.spec_abs().spec_lt(Scalar(EPSILON_BITS)),
    {
        direction.y.abs().lt(Scalar(EPSILON_BITS))
    }
}

/// A body of the scene: one of the shapes the renderer knows.
#[derive(Debug)]
pub enum Body {
    Sphere(Sphere),
    Plane(Plane),
}

impl Body {
    pub open spec fn spec_id(&self) -> Uuid {
        match self {
            Body::Sphere(s) => s.spec_id(),
            Body::Plane(p) => p.spec_id(),
        }
    }

    pub open spec fn spec_transformation(&self) -> Matrix {
        match self {
            Body::Sphere(s) => s.spec_transformation(),
            Body::Plane(p) => p.spec_transformation(),
        }
    }

    pub open spec fn spec_material(&self) -> Material {
        match self {
            Body::Sphere(s) => s.spec_material(),
            Body::Plane(p) => p.spec_material(),
        }
    }

    pub fn get_id(&self) -> (r: Uuid)
        ensures
            r == self.spec_id(),
    {
        match self {
            Body::Sphere(s) => s.get_id(),
            Body::Plane(p) => p.get_id(),
        }
    }

    pub fn get_transformation(&self) -> (r: &Matrix)
        ensures
            *r == self.spec_transformation(),
            is_transform(*r),
    {
        match self {
            Body::Sphere(s) => s.get_transformation(),
            Body::Plane(p) => p.get_transformation(),
        }
    }

    pub fn get_material(&self) -> (r: Material)
        ensures
            r == self.spec_material(),
    {
        match self {
            Body::Sphere(s) => s.get_material(),
            Body::Plane(p) => p.get_material(),
        }
    }

    /// This body, same shape and identity, with its material replaced.
    pub fn set_material(self, material: Material) -> (r: Body)
        ensures
            r.spec_id() == self.spec_id(),
            r.spec_transformation() == self.spec_transformation(),
            r.spec_material() == material,
            r is Sphere <==> self is Sphere,
    {
        match self {
            Body::Sphere(s) => Body::Sphere(s.set_material(material)),
            Body::Plane(p) => Body::Plane(p.set_material(material)),
        }
    }

    /// This body, same shape and identity, with its transformation replaced.
    pub fn set_transformation(self, transformation: Matrix) -> (r: Body)
        requires
            is_transform(transformation),
        ensures
            r.spec_id() == self.spec_id(),
            r.spec_transformation() == transformation,
            r.spec_material() == self.spec_material(),
            r is Sphere <==> self is Sphere,
    {
        match self {
            Body::Sphere(s) => Body::Sphere(s.set_transformation(transformation)),
            Body::Plane(p) => Body::Plane(p.set_transformation(transformation)),
        }
    }
}

} // verus!

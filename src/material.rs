use vstd::prelude::*;

use crate::color::Color;
use crate::error::TraceError;
use crate::scalar::{Scalar, ONE_BITS, ZERO_BITS};

verus! {

/// The pattern of ten, the least shininess a material may have.
pub const TEN_BITS: u64 = 0x4024_0000_0000_0000;

/// The pattern of 0.1, the ambient share of the default material.
pub const DEFAULT_AMBIENT_BITS: u64 = 0x3FB9_9999_9999_999A;

/// The pattern of 0.9, the diffuse and specular share of the default material.
pub const DEFAULT_REFLECTANCE_BITS: u64 = 0x3FEC_CCCC_CCCC_CCCD;

/// The pattern of 200, the shininess of the default material.
pub const DEFAULT_SHININESS_BITS: u64 = 0x4069_0000_0000_0000;

/// `s` lies in `[0, 1]`.
pub open spec fn in_unit_range(s: Scalar) -> bool {
    Scalar(ZERO_BITS).spec_le(s) && s.spec_le(Scalar(ONE_BITS))
}

/// `s` is at least ten.
pub open spec fn shiny_enough(s: Scalar) -> bool {
    Scalar(TEN_BITS).spec_le(s)
}

fn check_unit_range(s: Scalar) -> (r: Result<Scalar, TraceError>)
    ensures
        r is Ok <==> in_unit_range(s),
        r matches Ok(v) ==> v == s,
        r is Err ==> r == Err::<Scalar, TraceError>(TraceError::OutOfRange),
{
    if Scalar::zero().le(s) && s.le(Scalar::one()) {
        Ok(s)
    } else {
        Err(TraceError::OutOfRange)
    }
}

/// Which terms of the Phong model light a surface point, besides the
/// ambient term, which always does.
#[derive(Clone, Copy, Debug, PartialEq, Eq, Structural)]
pub struct PhongTerms {
    pub diffuse: bool,
    pub specular: bool,
}

/// Decides which terms reach the eye. In shadow only the ambient term does;
/// otherwise the diffuse term unless the light lies behind the surface
/// (`light_dot_normal < 0`), and with it the specular term unless the
/// reflection points away from the eye (`reflect_dot_eye < 0`).
pub fn phong_terms(in_shadow: bool, light_dot_normal: Scalar, reflect_dot_eye: Scalar) -> (r: PhongTerms)
    ensures
        r.diffuse == (!in_shadow && !light_dot_normal.spec_lt(Scalar(ZERO_BITS))),
        r.specular == (r.diffuse && !reflect_dot_eye.spec_lt(Scalar(ZERO_BITS))),
        in_shadow ==> !r.diffuse && !r.specular,
{
    if in_shadow || light_dot_normal.lt(Scalar::zero()) {
        PhongTerms { diffuse: false, specular: false }
    } else {
        PhongTerms { diffuse: true, specular: !reflect_dot_eye.lt(Scalar::zero()) }
    }
}

/// Phong reflectance parameters with a base color.
#[derive(Clone, Copy, Debug, PartialEq)]
pub struct Material {
    color: Color,
    ambient: Scalar,
    diffuse: Scalar,
    specular: Scalar,
    shinyness: Scalar,
}

impl Material {
    pub closed spec fn spec_color(&self) -> Color {
        self.color
    }

    pub closed spec fn spec_ambient(&self) -> Scalar {
        self.ambient
    }

    pub closed spec fn spec_diffuse(&self) -> Scalar {
        self.diffuse
    }

    pub closed spec fn spec_specular(&self) -> Scalar {
        self.specular
    }

    pub closed spec fn spec_shinyness(&self) -> Scalar {
        self.shinyness
    }

    /// White, ambient 0.1, diffuse 0.9, specular 0.9, shininess 200.
    pub open spec fn is_default(&self) -> bool {
        &&& self.spec_color() == (Color { red: Scalar(ONE_BITS), green: Scalar(ONE_BITS), blue: Scalar(ONE_BITS) })
        &&& self.spec_ambient() == Scalar(DEFAULT_AMBIENT_BITS)
        &&& self.spec_diffuse() == Scalar(DEFAULT_REFLECTANCE_BITS)
        &&& self.spec_specular() == Scalar(DEFAULT_REFLECTANCE_BITS)
        &&& self.spec_shinyness() == Scalar(DEFAULT_SHININESS_BITS)
    }

    /// Ambient, diffuse and specular lie in `[0, 1]`, shininess is at least ten.
    #[verifier::type_invariant]
    closed spec fn in_range(&self) -> bool {
        &&& in_unit_range(self.ambient)
        &&& in_unit_range(self.diffuse)
        &&& in_unit_range(self.specular)
        &&& shiny_enough(self.shinyness)
    }

    /// The material with these parameters; `OutOfRange` when ambient, diffuse
    /// or specular lies outside `[0, 1]` or shininess is below ten.
    pub fn new(color: Color, ambient: Scalar, diffuse: Scalar, specular: Scalar, shinyness: Scalar) -> (r: Result<Material, TraceError>)
        ensures
            r is Ok <==> in_unit_range(ambient) && in_unit_range(diffuse) && in_unit_range(specular) && shiny_enough(shinyness),
            r matches Ok(m) ==> {
                &&& m.spec_color() == color
                &&& m.spec_ambient() == ambient
                &&& m.spec_diffuse() == diffuse
                &&& m.spec_specular() == specular
                &&& m.spec_shinyness() == shinyness
            },
            r is Err ==> r == Err::<Material, TraceError>(TraceError::OutOfRange),
    {
        let ambient = check_unit_range(ambient)?;
        let diffuse = check_unit_range(diffuse)?;
        let specular = check_unit_range(specular)?;
        if !Scalar(TEN_BITS).le(shinyness) {
            return Err(TraceError::OutOfRange);
        }
        Ok(Material { color, ambient, diffuse, specular, shinyness })
    }

    /// The default material: matte white.
    pub fn default() -> (r: Material)
        ensures
            r.is_default(),
    {
        Material {
            color: Color::white(),
            ambient: Scalar(DEFAULT_AMBIENT_BITS),
            diffuse: Scalar(DEFAULT_REFLECTANCE_BITS),
            specular: Scalar(DEFAULT_REFLECTANCE_BITS),
            shinyness: Scalar(DEFAULT_SHININESS_BITS),
        }
    }

    /// This material with its color replaced.
    pub fn set_color(&self, color: Color) -> (r: Material)
        ensures
            r.spec_color() == color,
            r.spec_ambient() == self.spec_ambient(),
            r.spec_diffuse() == self.spec_diffuse(),
            r.spec_specular() == self.spec_specular(),
            r.spec_shinyness() == self.spec_shinyness(),
    {
        proof {
            use_type_invariant(self);
        }
        Material { color, ..*self }
    }

    /// This material with its ambient share replaced; `OutOfRange` when the
    /// share lies outside `[0, 1]`.
    pub fn set_ambient(&self, ambient: Scalar) -> (r: Result<Material, TraceError>)
        ensures
            r is Ok <==> in_unit_range(ambient),
            r matches Ok(m) ==> {
                &&& m.spec_color() == self.spec_color()
                &&& m.spec_ambient() == ambient
                &&& m.spec_diffuse() == self.spec_diffuse()
                &&& m.spec_specular() == self.spec_specular()
                &&& m.spec_shinyness() == self.spec_shinyness()
            },
            r is Err ==> r == Err::<Material, TraceError>(TraceError::OutOfRange),
    {
        proof {
            use_type_invariant(self);
        }
        let ambient = check_unit_range(ambient)?;
        Ok(Material { ambient, ..*self })
    }

    /// This material with its diffuse share replaced; `OutOfRange` when the
    /// share lies outside `[0, 1]`.
    pub fn set_diffuse(&self, diffuse: Scalar) -> (r: Result<Material, TraceError>)
        ensures
            r is Ok <==> in_unit_range(diffuse),
            r matches Ok(m) ==> {
                &&& m.spec_color() == self.spec_color()
                &&& m.spec_ambient() == self.spec_ambient()
                &&& m.spec_diffuse() == diffuse
                &&& m.spec_specular() == self.spec_specular()
                &&& m.spec_shinyness() == self.spec_shinyness()
            },
            r is Err ==> r == Err::<Material, TraceError>(TraceError::OutOfRange),
    {
        proof {
            use_type_invariant(self);
        }
        let diffuse = check_unit_range(diffuse)?;
        Ok(Material { diffuse, ..*self })
    }

    /// This material with its specular share replaced; `OutOfRange` when the
    /// share lies outside `[0, 1]`.
    pub fn set_specular(&self, specular: Scalar) -> (r: Result<Material, TraceError>)
        ensures
            r is Ok <==> in_unit_range(specular),
            r matches Ok(m) ==> {
                &&& m.spec_color() == self.spec_color()
                &&& m.spec_ambient() == self.spec_ambient()
                &&& m.spec_diffuse() == self.spec_diffuse()
                &&& m.spec_specular() == specular
                &&& m.spec_shinyness() == self.spec_shinyness()
            },
            r is Err ==> r == Err::<Material, TraceError>(TraceError::OutOfRange),
    {
        proof {
            use_type_invariant(self);
        }
        let specular = check_unit_range(specular)?;
        Ok(Material { specular, ..*self })
    }

    /// This material with its shininess replaced; `OutOfRange` when it is
    /// below ten.
    pub fn set_shinyness(&self, shinyness: Scalar) -> (r: Result<Material, TraceError>)
        ensures
            r is Ok <==> shiny_enough(shinyness),
            r matches Ok(m) ==> {
                &&& m.spec_color() == self.spec_color()
                &&& m.spec_ambient() == self.spec_ambient()
                &&& m.spec_diffuse() == self.spec_diffuse()
                &&& m.spec_specular() == self.spec_specular()
                &&& m.spec_shinyness() == shinyness
            },
            r is Err ==> r == Err::<Material, TraceError>(TraceError::OutOfRange),
    {
        proof {
            use_type_invariant(self);
        }
        if !Scalar(TEN_BITS).le(shinyness) {
            return Err(TraceError::OutOfRange);
        }
        Ok(Material { shinyness, ..*self })
    }

    pub fn get_color(&self) -> (r: Color)
        ensures
            r == self.spec_color(),
    {
        self.color
    }

    pub fn get_ambient(&self) -> (r: Scalar)
        ensures
            r == self.spec_ambient(),
            in_unit_range(r),
    {
        proof {
            use_type_invariant(self);
        }
        self.ambient
    }

    pub fn get_diffuse(&self) -> (r: Scalar)
        ensures
            r == self.spec_diffuse(),
            in_unit_range(r),
    {
        proof {
            use_type_invariant(self);
        }
        self.diffuse
    }

    pub fn get_specular(&self) -> (r: Scalar)
        ensures
            r == self.spec_specular(),
            in_unit_range(r),
    {
        proof {
            use_type_invariant(self);
        }
        self.specular
    }

    pub fn get_shinyness(&self) -> (r: Scalar)
        ensures
            r == self.spec_shinyness(),
            shiny_enough(r),
    {
        proof {
            use_type_invariant(self);
        }
        self.shinyness
    }
}

} // verus!

use vstd::prelude::*;

use crate::body::{Body, Sphere};
use crate::color::Color;
use crate::error::TraceError;
use crate::intersection::{is_hit, sorted_by_t, Intersection};
use crate::light::PointLight;
use crate::material::{Material, DEFAULT_AMBIENT_BITS, DEFAULT_SHININESS_BITS};
use crate::matrix::{identity, scaling, Matrix};
use crate::scalar::{lemma_order_key_injective, Scalar, ONE_BITS};
use crate::tuple::Tuple;

verus! {

/// The pattern of 10.
pub const TEN: u64 = 0x4024_0000_0000_0000;

/// The pattern of -10.
pub const MINUS_TEN: u64 = 0xC024_0000_0000_0000;

/// The pattern of 0.5.
pub const HALF: u64 = 0x3FE0_0000_0000_0000;

/// The patterns of 0.8, 0.6, 0.7 and 0.2, the color and shares of the inner
/// sphere of the default scene.
pub const POINT_EIGHT: u64 = 0x3FE9_9999_9999_999A;
pub const POINT_SIX: u64 = 0x3FE3_3333_3333_3333;
pub const POINT_SEVEN: u64 = 0x3FE6_6666_6666_6666;
pub const POINT_TWO: u64 = 0x3FC9_9999_9999_999A;

/// The scene graph: the lights and the bodies that are rendered together,
/// each in the order in which it was added.
#[derive(Debug)]
pub struct World {
    lights: Vec<PointLight>,
    objects: Vec<Body>,
}

impl World {
    pub closed spec fn spec_lights(&self) -> Seq<PointLight> {
        self.lights@
    }

    pub closed spec fn spec_objects(&self) -> Seq<Body> {
        self.objects@
    }

    /// The light of the default scene: white, at (-10, 10, -10).
    pub open spec fn default_light() -> PointLight {
        PointLight {
            position: Tuple { x: Scalar(MINUS_TEN), y: Scalar(TEN), z: Scalar(MINUS_TEN), w: Scalar(ONE_BITS) },
            intensity: Color { red: Scalar(ONE_BITS), green: Scalar(ONE_BITS), blue: Scalar(ONE_BITS) },
        }
    }

    /// The outer body of the default scene: the unit sphere, colored
    /// (0.8, 1, 0.6), diffuse 0.7, specular 0.2, the rest as by default.
    pub open spec fn is_default_outer(b: Body) -> bool {
        let m = b.spec_material();
        &&& b is Sphere
        &&& b.spec_transformation()@ == identity(4)
        &&& m.spec_color() == (Color { red: Scalar(POINT_EIGHT), green: Scalar(ONE_BITS), blue: Scalar(POINT_SIX) })
        &&& m.spec_ambient() == Scalar(DEFAULT_AMBIENT_BITS)
        &&& m.spec_diffuse() == Scalar(POINT_SEVEN)
        &&& m.spec_specular() == Scalar(POINT_TWO)
        &&& m.spec_shinyness() == Scalar(DEFAULT_SHININESS_BITS)
    }

    /// The inner body of the default scene: the sphere of radius one half,
    /// with the default material.
    pub open spec fn is_default_inner(b: Body) -> bool {
        &&& b is Sphere
        &&& b.spec_transformation()@ == scaling(Scalar(HALF), Scalar(HALF), Scalar(HALF))
        &&& b.spec_material().is_default()
    }

    /// A scene without lights or bodies.
    pub fn new() -> (r: World)
        ensures
            r.spec_lights() == Seq::<PointLight>::empty(),
            r.spec_objects() == Seq::<Body>::empty(),
    {
        World { lights: Vec::new(), objects: Vec::new() }
    }

    /// The default scene: one white light at (-10, 10, -10), a unit sphere
    /// and, inside it, a sphere of radius one half.
    pub fn default() -> (r: World)
        ensures
            r.spec_lights() == seq![World::default_light()],
            r.spec_objects().len() == 2,
            World::is_default_outer(r.spec_objects()[0]),
            World::is_default_inner(r.spec_objects()[1]),
    {
        let light = PointLight::new(
            Tuple::new_point(Scalar(MINUS_TEN), Scalar(TEN), Scalar(MINUS_TEN)),
            Color::white(),
        );
        let material = Material::default().set_color(Color::new(Scalar(POINT_EIGHT), Scalar::one(), Scalar(POINT_SIX)));
        let material = material.set_diffuse(Scalar(POINT_SEVEN)).unwrap();
        let material = material.set_specular(Scalar(POINT_TWO)).unwrap();
        let outer = Body::Sphere(Sphere::new().set_material(material));
        let half = Scalar(HALF);
        let inner = Body::Sphere(Sphere::new().set_transformation(Matrix::scaling_matrix(half, half, half)));
        let mut lights: Vec<PointLight> = Vec::new();
        lights.push(light);
        let mut objects: Vec<Body> = Vec::new();
        objects.push(outer);
        objects.push(inner);
        let w = World { lights, objects };
        assert(w.spec_lights() =~= seq![World::default_light()]);
        w
    }

    pub fn get_objects(&self) -> (r: &Vec<Body>)
        ensures
            r@ == self.spec_objects(),
    {
        &self.objects
    }

    pub fn get_lights(&self) -> (r: &Vec<PointLight>)
        ensures
            r@ == self.spec_lights(),
    {
        &self.lights
    }

    /// Adds a body after those already in the scene.
    pub fn add_object(&mut self, object: Body)
        ensures
            final(self).spec_objects() == old(self).spec_objects().push(object),
            final(self).spec_lights() == old(self).spec_lights(),
    {
        self.objects.push(object);
    }

    /// Adds a light after those already in the scene.
    pub fn add_light(&mut self, light: PointLight)
        ensures
            final(self).spec_lights() == old(self).spec_lights().push(light),
            final(self).spec_objects() == old(self).spec_objects(),
    {
        self.lights.push(light);
    }

    /// Decides, from the intersections of the ray cast from a point toward a
    /// light `distance` away, whether a body shadows the point: whether the
    /// hit lies nearer than the light. Leaves the intersections sorted.
    pub fn blocks_light(intersections: &mut Vec<Intersection>, distance: Scalar) -> (r: bool)
        ensures
            final(intersections)@.to_multiset() == old(intersections)@.to_multiset(),
            sorted_by_t(final(intersections)@),
            r <==> exists|h: Intersection| is_hit(old(intersections)@, h) && h.t.spec_lt(distance),
    {
        match Intersection::find_hit(intersections) {
            Some(h) => {
                let r = h.t.lt(distance);
                proof {
                    assert forall|g: Intersection| is_hit(old(intersections)@, g) implies g.t == h.t by {
                        lemma_hits_agree(old(intersections)@, g, h);
                    }
                }
                r
            },
            None => false,
        }
    }

    /// Removes the light at `index`; `OutOfBounds`, and the scene unchanged,
    /// when there is no such light.
    pub fn remove_light(&mut self, index: usize) -> (r: Result<(), TraceError>)
        ensures
            r is Ok <==> index < old(self).spec_lights().len(),
            r is Ok ==> final(self).spec_lights() == old(self).spec_lights().remove(index as int),
            r is Err ==> r == Err::<(), TraceError>(TraceError::OutOfBounds),
            r is Err ==> final(self).spec_lights() == old(self).spec_lights(),
            final(self).spec_objects() == old(self).spec_objects(),
    {
        if index < self.lights.len() {
            self.lights.remove(index);
            Ok(())
        } else {
            Err(TraceError::OutOfBounds)
        }
    }
}

/// Two hits of one list are one and the same intersection, but for the
/// body they name; their `t` agree.
proof fn lemma_hits_agree(xs: Seq<Intersection>, g: Intersection, h: Intersection)
    requires
        is_hit(xs, g),
        is_hit(xs, h),
    ensures
        g.t == h.t,
{
    let i = choose|i: int| 0 <= i < xs.len() && xs[i] == g;
    let j = choose|j: int| 0 <= j < xs.len() && xs[j] == h;
    assert(h.t.order_key() <= xs[i].t.order_key());
    assert(g.t.order_key() <= xs[j].t.order_key());
    lemma_order_key_injective(g.t, h.t);
}

} // verus!

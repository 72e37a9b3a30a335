use raytracer::body::{Body, Plane, Sphere};
use raytracer::canvas::{encode_ppm, file_name_for, Canvas};
use raytracer::color::Color;
use raytracer::error::TraceError;
use raytracer::intersection::{face_eye, Intersection};
use raytracer::light::PointLight;
use raytracer::material::{phong_terms, Material, PhongTerms};
use raytracer::matrix::Matrix;
use raytracer::scalar::Scalar;
use raytracer::tuple::Tuple;
use raytracer::world::World;

fn sc(x: f64) -> Scalar {
    Scalar(x.to_bits())
}

fn num(x: Scalar) -> f64 {
    f64::from_bits(x.0)
}

fn color(r: f64, g: f64, b: f64) -> Color {
    Color::new(sc(r), sc(g), sc(b))
}

fn hit_t(ts: &[f64]) -> Option<f64> {
    let mut xs: Vec<Intersection> = ts.iter().map(|t| Intersection::new(sc(*t), 0)).collect();
    let hit = Intersection::find_hit(&mut xs);
    hit.map(|h| num(h.get_t()))
}

#[test]
fn default_material() {
    let m = Material::default();
    assert_eq!(m.get_color(), color(1.0, 1.0, 1.0));
    assert_eq!(num(m.get_ambient()), 0.1);
    assert_eq!(num(m.get_diffuse()), 0.9);
    assert_eq!(num(m.get_specular()), 0.9);
    assert_eq!(num(m.get_shinyness()), 200.0);
}

#[test]
fn material_ranges_are_enforced() {
    let c = color(1.0, 1.0, 1.0);
    assert!(Material::new(c, sc(0.0), sc(1.0), sc(0.5), sc(10.0)).is_ok());
    assert!(Material::new(c, sc(-0.0), sc(1.0), sc(0.5), sc(f64::INFINITY)).is_ok());
    assert_eq!(Material::new(c, sc(1.5), sc(0.5), sc(0.5), sc(10.0)), Err(TraceError::OutOfRange));
    assert_eq!(Material::new(c, sc(0.5), sc(-0.1), sc(0.5), sc(10.0)), Err(TraceError::OutOfRange));
    assert_eq!(Material::new(c, sc(0.5), sc(0.5), sc(f64::NAN), sc(10.0)), Err(TraceError::OutOfRange));
    assert_eq!(Material::new(c, sc(0.5), sc(0.5), sc(0.5), sc(9.99)), Err(TraceError::OutOfRange));
    let m = Material::default();
    assert_eq!(m.set_ambient(sc(1.01)), Err(TraceError::OutOfRange));
    assert_eq!(m.set_diffuse(sc(-1.0)), Err(TraceError::OutOfRange));
    assert_eq!(m.set_specular(sc(2.0)), Err(TraceError::OutOfRange));
    assert_eq!(m.set_shinyness(sc(5.0)), Err(TraceError::OutOfRange));
    let m2 = m.set_ambient(sc(1.0)).unwrap().set_shinyness(sc(10.0)).unwrap();
    assert_eq!(num(m2.get_ambient()), 1.0);
    assert_eq!(num(m2.get_shinyness()), 10.0);
    assert_eq!(num(m2.get_diffuse()), 0.9);
    let m3 = m.set_color(color(0.5, 0.25, 1.0));
    assert_eq!(m3.get_color(), color(0.5, 0.25, 1.0));
    assert_eq!(num(m3.get_specular()), 0.9);
}

#[test]
fn spheres_default_transformation() {
    let sphere = Sphere::new();
    assert_eq!(*sphere.get_transformation(), Matrix::identity_matrix(4));
    assert_eq!(sphere.get_material(), Material::default());
}

#[test]
fn changing_tests_transformation() {
    let sphere = Sphere::new();
    let id = sphere.get_id();
    let t = Matrix::translation_matrix(sc(2.0), sc(3.0), sc(4.0));
    let moved = sphere.set_transformation(t.clone());
    assert_eq!(*moved.get_transformation(), t);
    assert_eq!(moved.get_id(), id);
}

#[test]
fn sphere_may_be_assigned_material() {
    let m = Material::default().set_ambient(sc(1.0)).unwrap();
    let sphere = Sphere::new().set_material(m);
    assert_eq!(sphere.get_material(), m);
}

#[test]
fn bodies_keep_their_identity() {
    let a = Body::Sphere(Sphere::new());
    let b = Body::Plane(Plane::new());
    assert_ne!(a.get_id(), b.get_id());
    let id = b.get_id();
    let b = b.set_material(Material::default().set_diffuse(sc(0.5)).unwrap());
    let b = b.set_transformation(Matrix::scaling_matrix(sc(2.0), sc(2.0), sc(2.0)));
    assert_eq!(b.get_id(), id);
    assert!(matches!(b, Body::Plane(_)));
    assert_eq!(num(b.get_material().get_diffuse()), 0.5);
    assert_eq!(*b.get_transformation(), Matrix::scaling_matrix(sc(2.0), sc(2.0), sc(2.0)));
}

#[test]
fn intersection_encapsulates_t_and_object() {
    let i = Intersection::new(sc(3.5), 7);
    assert_eq!(num(i.get_t()), 3.5);
    assert_eq!(i.get_object(), 7)
}

#[test]
fn hit_when_all_positive_t() {
    let i1 = Intersection::new(sc(1.0), 0);
    let i2 = Intersection::new(sc(2.0), 0);
    let mut xs = vec![i1, i2];
    let i = Intersection::find_hit(&mut xs);
    assert_eq!(i, Some(i1))
}

#[test]
fn hit_when_some_negative_t() {
    let i1 = Intersection::new(sc(-1.0), 0);
    let i2 = Intersection::new(sc(1.0), 0);
    let mut xs = vec![i1, i2];
    let i = Intersection::find_hit(&mut xs);
    assert_eq!(i, Some(i2))
}

#[test]
fn hit_when_all_negative_t() {
    let i1 = Intersection::new(sc(-2.0), 0);
    let i2 = Intersection::new(sc(-1.0), 0);
    let mut xs = vec![i1, i2];
    let i = Intersection::find_hit(&mut xs);
    assert!(i.is_none())
}

#[test]
fn hit_always_lowest_nonnegative() {
    let i1 = Intersection::new(sc(5.0), 0);
    let i2 = Intersection::new(sc(7.0), 0);
    let i3 = Intersection::new(sc(-3.0), 0);
    let i4 = Intersection::new(sc(2.0), 0);
    let mut xs = vec![i1, i2, i3, i4];
    let i = Intersection::find_hit(&mut xs);
    assert_eq!(i, Some(i4))
}

#[test]
fn hit_selection_cases() {
    assert_eq!(hit_t(&[5.0, 7.0, -3.0, 2.0]), Some(2.0));
    assert_eq!(hit_t(&[-2.0, -1.0]), None);
    assert_eq!(hit_t(&[-1.0, 1.0]), Some(1.0));
    assert_eq!(hit_t(&[]), None);
    assert_eq!(hit_t(&[f64::NAN, 3.0]), Some(3.0));
    assert_eq!(hit_t(&[0.0, 4.0]), Some(0.0));
}

#[test]
fn hit_leaves_intersections_sorted() {
    let mut xs: Vec<Intersection> = [6.0, 4.5, -1.0, 4.0, 5.5]
        .iter()
        .enumerate()
        .map(|(k, t)| Intersection::new(sc(*t), k))
        .collect();
    let hit = Intersection::find_hit(&mut xs).unwrap();
    assert_eq!(hit.get_object(), 3);
    let ts: Vec<f64> = xs.iter().map(|i| num(i.get_t())).collect();
    assert_eq!(ts, vec![-1.0, 4.0, 4.5, 5.5, 6.0]);
}

#[test]
fn sorting_keeps_equal_t_in_order() {
    let mut xs = vec![
        Intersection::new(sc(5.0), 0),
        Intersection::new(sc(5.0), 1),
        Intersection::new(sc(4.0), 2),
        Intersection::new(sc(5.0), 3),
    ];
    Intersection::sort(&mut xs);
    let objects: Vec<usize> = xs.iter().map(|i| i.get_object()).collect();
    assert_eq!(objects, vec![2, 0, 1, 3]);
}

#[test]
fn creating_a_world() {
    let w = World::new();
    assert_eq!(w.get_objects().len(), 0);
    assert_eq!(w.get_lights().len(), 0);
}

#[test]
fn the_default_world() {
    let light = PointLight::new(Tuple::new_point(sc(-10.0), sc(10.0), sc(-10.0)), Color::white());
    let material1 = Material::default()
        .set_color(color(0.8, 1.0, 0.6))
        .set_diffuse(sc(0.7))
        .unwrap()
        .set_specular(sc(0.2))
        .unwrap();
    let world = World::default();
    assert_eq!(world.get_lights().len(), 1);
    let l = world.get_lights()[0];
    assert!((l.get_position() == light.get_position()) && (l.get_intensity() == light.get_intensity()));
    let obj = world.get_objects();
    assert_eq!(obj.len(), 2);
    assert!(matches!(obj[0], Body::Sphere(_)));
    assert!(matches!(obj[1], Body::Sphere(_)));
    assert_eq!(obj[0].get_material(), material1);
    assert_eq!(*obj[0].get_transformation(), Matrix::identity_matrix(4));
    assert_eq!(obj[1].get_material(), Material::default());
    assert_eq!(*obj[1].get_transformation(), Matrix::scaling_matrix(sc(0.5), sc(0.5), sc(0.5)));
}

#[test]
fn adding_and_removing_lights() {
    let mut w = World::new();
    let a = PointLight::new(Tuple::new_point(sc(0.0), sc(0.25), sc(0.0)), Color::white());
    let b = PointLight::new(Tuple::new_point(sc(1.0), sc(2.0), sc(3.0)), color(0.5, 0.5, 0.5));
    w.add_light(a);
    w.add_light(b);
    w.add_object(Body::Plane(Plane::new()));
    assert_eq!(w.remove_light(2), Err(TraceError::OutOfBounds));
    assert_eq!(w.get_lights().len(), 2);
    assert_eq!(w.remove_light(0), Ok(()));
    assert_eq!(w.get_lights().as_slice(), &[b]);
    assert_eq!(w.get_objects().len(), 1);
}

#[test]
fn creating_canvas() {
    let width = 10;
    let height = 20;
    let mut canvas = Canvas::new(width, height);
    for y in 0..height {
        for x in 0..width {
            canvas.write_pixel(x, y, Color::black()).unwrap();
        }
    }
    for y in 0..height {
        for x in 0..width {
            assert!(canvas.pixel_at(x, y).unwrap() == Color::black());
        }
    }
    assert_eq!(canvas.get_width(), 10);
    assert_eq!(canvas.get_height(), 20);
}

#[test]
fn writing_pixels_to_canvas() {
    let mut canvas = Canvas::new(10, 20);
    let red = color(1.0, 0.0, 0.0);
    canvas.write_pixel(2, 3, red).unwrap();
    assert!(canvas.pixel_at(2, 3).unwrap() == red);
    assert_eq!(canvas.pixel_at(3, 2).unwrap(), Color::black());
}

#[test]
fn pixels_outside_the_canvas() {
    let mut canvas = Canvas::new(10, 20);
    assert_eq!(canvas.write_pixel(10, 0, Color::white()), Err(TraceError::OutOfBounds));
    assert_eq!(canvas.write_pixel(0, 20, Color::white()), Err(TraceError::OutOfBounds));
    assert_eq!(canvas.pixel_at(10, 19), Err(TraceError::OutOfBounds));
    assert_eq!(canvas.pixel_at(9, 19), Ok(Color::black()));
}

#[test]
fn constructing_ppm_pixel_data() {
    let mut rows = vec![vec![(0u8, 0u8, 0u8); 5]; 3];
    rows[0][0] = (255, 0, 0);
    rows[1][2] = (0, 128, 0);
    rows[2][4] = (0, 0, 255);
    let ppm = String::from_utf8(encode_ppm(5, 3, &rows)).unwrap();
    assert_eq!(
        ppm,
        "P3\n5 3\n255\n\
        255 0 0 0 0 0 0 0 0 0 0 0 0 0 0\n\
        0 0 0 0 0 0 0 128 0 0 0 0 0 0 0\n\
        0 0 0 0 0 0 0 0 0 0 0 0 0 0 255\n"
    )
}

#[test]
fn no_line_longer_than_70() {
    let rows = vec![vec![(255u8, 204u8, 153u8); 10]; 2];
    let ppm = String::from_utf8(encode_ppm(10, 2, &rows)).unwrap();
    for line in ppm.split("\n") {
        assert!(!(line.len() > 70))
    }
    assert_eq!(
        ppm,
        "P3\n10 2\n255\n\
        255 204 153 255 204 153 255 204 153 255 204 153 255 204 153 \n\
        255 204 153 255 204 153 255 204 153 255 204 153 255 204 153\n\
        255 204 153 255 204 153 255 204 153 255 204 153 255 204 153 \n\
        255 204 153 255 204 153 255 204 153 255 204 153 255 204 153\n"
    )
}

#[test]
fn empty_image_has_only_a_header() {
    let rows: Vec<Vec<(u8, u8, u8)>> = vec![vec![]];
    let ppm = String::from_utf8(encode_ppm(0, 1, &rows)).unwrap();
    assert_eq!(ppm, "P3\n0 1\n255\n\n");
}

#[test]
fn file_name_of_a_rendering() {
    let name = file_name_for(&b"2024-05-01T12:30:45+02:00".to_vec());
    assert_eq!(String::from_utf8(name).unwrap(), "render-2024-05-01T12-30-45+02-00.ppm");
}

#[test]
fn shadow_leaves_only_ambient() {
    for (ldn, rde) in [(1.0, 1.0), (1.0, -1.0), (-1.0, 1.0), (-1.0, -1.0)] {
        assert_eq!(phong_terms(true, sc(ldn), sc(rde)), PhongTerms { diffuse: false, specular: false });
    }
}

#[test]
fn phong_terms_follow_geometry() {
    assert_eq!(phong_terms(false, sc(0.5), sc(0.5)), PhongTerms { diffuse: true, specular: true });
    assert_eq!(phong_terms(false, sc(0.5), sc(-0.5)), PhongTerms { diffuse: true, specular: false });
    assert_eq!(phong_terms(false, sc(-0.5), sc(0.5)), PhongTerms { diffuse: false, specular: false });
    assert_eq!(phong_terms(false, sc(-0.0), sc(-0.0)), PhongTerms { diffuse: true, specular: true });
}

#[test]
fn parallel_rays_miss_planes() {
    assert!(Plane::is_parallel(&Tuple::new_vec(sc(0.0), sc(0.0), sc(1.0))));
    assert!(Plane::is_parallel(&Tuple::new_vec(sc(1.0), sc(-0.000001), sc(1.0))));
    assert!(!Plane::is_parallel(&Tuple::new_vec(sc(0.0), sc(-1.0), sc(0.0))));
    assert!(!Plane::is_parallel(&Tuple::new_vec(sc(0.0), sc(0.00002), sc(0.0))));
}

#[test]
fn shadow_needs_a_hit_nearer_than_the_light() {
    let mut xs = vec![Intersection::new(sc(-1.0), 0), Intersection::new(sc(3.0), 1)];
    assert!(World::blocks_light(&mut xs, sc(5.0)));
    let mut xs = vec![Intersection::new(sc(6.0), 0), Intersection::new(sc(-3.0), 1)];
    assert!(!World::blocks_light(&mut xs, sc(5.0)));
    let mut xs = vec![Intersection::new(sc(-6.0), 0)];
    assert!(!World::blocks_light(&mut xs, sc(5.0)));
    let mut xs = vec![Intersection::new(sc(5.0), 0)];
    assert!(!World::blocks_light(&mut xs, sc(5.0)));
}

#[test]
fn normal_faces_the_eye() {
    let n = Tuple::new_vec(sc(0.0), sc(0.0), sc(1.0));
    let (outside, inside) = face_eye(n, sc(1.0));
    assert_eq!((outside, inside), (n, false));
    let (flipped, inside) = face_eye(n, sc(-1.0));
    assert!(inside);
    assert_eq!(num(flipped.z), -1.0);
    assert_eq!(num(flipped.x), 0.0);
}

#[test]
fn sphere_has_default_material() {
    let sphere = Sphere::new();
    assert_eq!(sphere.get_material(), Material::default());
}

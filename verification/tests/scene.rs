//! Shapes, patterns, rays, intersections and the lighting model.

use ray_tracing::colour::Colour;
use ray_tracing::fixed::Fx;
use ray_tracing::matrix::identity;
use ray_tracing::ray::Intersection;
use ray_tracing::ray::Intersections;
use ray_tracing::ray::Light;
use ray_tracing::ray::Ray;
use ray_tracing::ray::lighting;
use ray_tracing::shapes::Material;
use ray_tracing::shapes::Object;
use ray_tracing::shapes::Pattern;
use ray_tracing::transformation::rot_z;
use ray_tracing::transformation::scale;
use ray_tracing::transformation::translation;
use ray_tracing::tuple::Tuple;
use ray_tracing::tuple::point;
use ray_tracing::tuple::vector;

const S: f64 = 1099511627776.0;

fn fx(v: f64) -> Fx {
    Fx::from_raw((v * S).round() as i64)
}

fn fl(a: Fx) -> f64 {
    a.raw_value() as f64 / S
}

fn approx(a: f64, b: f64) -> bool {
    let d = (a - b).abs();
    d <= 1.0e-5 || d <= 1.0e-5 * a.abs().max(b.abs())
}

fn pt(x: f64, y: f64, z: f64) -> Tuple {
    point(fx(x), fx(y), fx(z))
}

fn vc(x: f64, y: f64, z: f64) -> Tuple {
    vector(fx(x), fx(y), fx(z))
}

fn tup_approx(t: Tuple, x: f64, y: f64, z: f64, w: f64) -> bool {
    approx(fl(t.x), x) && approx(fl(t.y), y) && approx(fl(t.z), z) && approx(fl(t.w), w)
}

fn col_approx(c: Colour, r: f64, g: f64, b: f64) -> bool {
    approx(fl(c.red), r) && approx(fl(c.green), g) && approx(fl(c.blue), b)
}

fn white() -> Colour {
    ray_tracing::colour::white()
}

fn black() -> Colour {
    ray_tracing::colour::black()
}

#[test]
fn sphere_has_default_material() {
    let s = Object::new_sphere();
    assert_eq!(s.material, Material::new());
}

#[test]
fn sphere_material_can_be_assigned() {
    let mut s = Object::new_sphere();
    let mut m = Material::new();
    m.ambient = fx(1.0);
    s.material = m;
    assert_eq!(s.material, m);
}

#[test]
fn sphere_has_default_transformation() {
    let s = Object::new_sphere();
    assert_eq!(s.transform, identity());
}

#[test]
fn sphere_transform_can_be_assigned() {
    let mut s = Object::new_sphere();
    s.transform = translation(fx(2.0), fx(3.0), fx(4.0));
    assert_eq!(s.transform, translation(fx(2.0), fx(3.0), fx(4.0)));
}

#[test]
fn test_shape_has_default_material() {
    let s = Object::new();
    assert_eq!(s.material, Material::new());
}

#[test]
fn test_shape_material_can_be_assigned() {
    let mut s = Object::new();
    let mut m = Material::new();
    m.ambient = fx(1.0);
    s.material = m;
    assert_eq!(s.material, m);
}

#[test]
fn test_shape_has_default_transformation() {
    let s = Object::new();
    assert_eq!(s.transform, identity());
}

#[test]
fn test_shape_transform_can_be_assigned() {
    let mut s = Object::new();
    s.transform = translation(fx(2.0), fx(3.0), fx(4.0));
    assert_eq!(s.transform, translation(fx(2.0), fx(3.0), fx(4.0)));
}

#[test]
fn normal_of_plane_is_constant() {
    let p = Object::new_plane();
    assert!(tup_approx(p.normal_at(pt(0.0, 0.0, 0.0)), 0.0, 1.0, 0.0, 0.0));
    assert!(tup_approx(p.normal_at(pt(10.0, 0.0, -10.0)), 0.0, 1.0, 0.0, 0.0));
    assert!(tup_approx(p.normal_at(pt(-5.0, 0.0, 150.0)), 0.0, 1.0, 0.0, 0.0));
}

#[test]
fn stripe_pattern_is_constant_y() {
    let p = Pattern::new_striped(white(), black());
    assert_eq!(p.pattern_at(pt(0.0, 0.0, 0.0)), white());
    assert_eq!(p.pattern_at(pt(0.0, 1.0, 0.0)), white());
    assert_eq!(p.pattern_at(pt(0.0, 2.0, 0.0)), white());
}

#[test]
fn stripe_pattern_is_constant_z() {
    let p = Pattern::new_striped(white(), black());
    assert_eq!(p.pattern_at(pt(0.0, 0.0, 0.0)), white());
    assert_eq!(p.pattern_at(pt(0.0, 0.0, 1.0)), white());
    assert_eq!(p.pattern_at(pt(0.0, 0.0, 2.0)), white());
}

#[test]
fn stripe_pattern_alternates_x() {
    let p = Pattern::new_striped(white(), black());
    assert_eq!(p.pattern_at(pt(0.0, 0.0, 0.0)), white());
    assert_eq!(p.pattern_at(pt(0.9, 0.0, 0.0)), white());
    assert_eq!(p.pattern_at(pt(1.0, 0.0, 0.0)), black());
    assert_eq!(p.pattern_at(pt(-0.1, 0.0, 0.0)), black());
    assert_eq!(p.pattern_at(pt(-1.0, 0.0, 0.0)), black());
    assert_eq!(p.pattern_at(pt(-1.1, 0.0, 0.0)), white());
}

#[test]
fn stripe_object_transform() {
    let mut o = Object::new_sphere();
    o.transform = scale(fx(2.0), fx(2.0), fx(2.0));
    o.material.pattern = Some(Pattern::new_striped(white(), black()));
    assert_eq!(o.pattern_at(pt(1.5, 0.0, 0.0)), white());
}

#[test]
fn stripe_pattern_transform() {
    let mut o = Object::new_sphere();
    let mut p = Pattern::new_striped(white(), black());
    p.transformation = scale(fx(2.0), fx(2.0), fx(2.0));
    o.material.pattern = Some(p);
    assert_eq!(o.pattern_at(pt(0.5, 0.0, 0.0)), white());
    assert_eq!(o.pattern_at(pt(1.5, 0.0, 0.0)), white());
    assert_eq!(o.pattern_at(pt(2.5, 0.0, 0.0)), black());
}

#[test]
fn stripe_object_pattern_transform() {
    let mut o = Object::new_sphere();
    o.transform = scale(fx(2.0), fx(2.0), fx(2.0));
    let mut p = Pattern::new_striped(white(), black());
    p.transformation = translation(fx(0.5), fx(0.0), fx(0.0));
    o.material.pattern = Some(p);
    assert_eq!(o.pattern_at(pt(2.5, 0.0, 0.0)), white());
}

#[test]
fn default_pattern_transform() {
    let p = Pattern::new_striped(white(), black());
    assert_eq!(p.transformation, identity());
}

#[test]
fn gradient_interpolates() {
    let p = Pattern::new_gradient(white(), black());
    assert_eq!(p.pattern_at(pt(0.0, 0.0, 0.0)), white());
    assert!(col_approx(p.pattern_at(pt(0.25, 0.0, 0.0)), 0.75, 0.75, 0.75));
    assert!(col_approx(p.pattern_at(pt(0.5, 0.0, 0.0)), 0.5, 0.5, 0.5));
    assert!(col_approx(p.pattern_at(pt(0.75, 0.0, 0.0)), 0.25, 0.25, 0.25));
    assert_eq!(p.pattern_at(pt(1.0, 0.0, 0.0)), white());
    assert!(col_approx(p.pattern_at(pt(0.9999999, 0.0, 0.0)), 0.0, 0.0, 0.0));
}

#[test]
fn ring_pattern() {
    let p = Pattern::new_ring(white(), black());
    assert_eq!(p.pattern_at(pt(0.0, 0.0, 0.0)), white());
    assert_eq!(p.pattern_at(pt(1.0, 0.0, 0.0)), black());
    assert_eq!(p.pattern_at(pt(0.0, 0.0, 1.0)), black());
    assert_eq!(p.pattern_at(pt(0.708, 0.0, 0.708)), black());
}

#[test]
fn checkers_repeat_x() {
    let p = Pattern::new_checkers(white(), black());
    assert_eq!(p.pattern_at(pt(0.0, 0.0, 0.0)), white());
    assert_eq!(p.pattern_at(pt(0.99, 0.0, 0.0)), white());
    assert_eq!(p.pattern_at(pt(1.01, 0.0, 0.0)), black());
}

#[test]
fn checkers_repeat_y() {
    let p = Pattern::new_checkers(white(), black());
    assert_eq!(p.pattern_at(pt(0.0, 0.0, 0.0)), white());
    assert_eq!(p.pattern_at(pt(0.0, 0.99, 0.0)), white());
    assert_eq!(p.pattern_at(pt(0.0, 1.01, 0.0)), black());
}

#[test]
fn checkers_repeat_z() {
    let p = Pattern::new_checkers(white(), black());
    assert_eq!(p.pattern_at(pt(0.0, 0.0, 0.0)), white());
    assert_eq!(p.pattern_at(pt(0.0, 0.0, 0.99)), white());
    assert_eq!(p.pattern_at(pt(0.0, 0.0, 1.01)), black());
}

#[test]
fn default_reflectivity() {
    let m = Material::new();
    assert_eq!(m.reflective, fx(0.0));
}

#[test]
fn pattern_at_is_pure() {
    let mut o = Object::new_sphere();
    o.material.pattern = Some(Pattern::new_checkers(white(), black()));
    let p = pt(0.3, 0.7, -2.1);
    assert_eq!(o.pattern_at(p), o.pattern_at(p));
}

#[test]
fn create_ray() {
    let origin = pt(1.0, 2.0, 3.0);
    let direction = vc(4.0, 5.0, 6.0);
    let r = Ray::new(origin, direction);
    assert_eq!(r.origin, origin);
    assert_eq!(r.direction, direction);
}

#[test]
fn compute_point_from_distance() {
    let r = Ray::new(pt(2.0, 3.0, 4.0), vc(1.0, 0.0, 0.0));
    assert!(tup_approx(r.position(fx(0.0)), 2.0, 3.0, 4.0, 1.0));
    assert!(tup_approx(r.position(fx(1.0)), 3.0, 3.0, 4.0, 1.0));
    assert!(tup_approx(r.position(fx(-1.0)), 1.0, 3.0, 4.0, 1.0));
    assert!(tup_approx(r.position(fx(2.5)), 4.5, 3.0, 4.0, 1.0));
}

#[test]
fn intersect_with_sphere_at_two_points() {
    let r = Ray::new(pt(0.0, 0.0, -5.0), vc(0.0, 0.0, 1.0));
    let s = Object::new_sphere();
    let xs = r.intersect(&s);
    assert_eq!(xs.len(), 2);
    assert!(approx(fl(xs[0].t), 4.0));
    assert!(approx(fl(xs[1].t), 6.0));
}

#[test]
fn intersect_with_sphere_at_tangent() {
    let r = Ray::new(pt(0.0, 1.0, -5.0), vc(0.0, 0.0, 1.0));
    let s = Object::new_sphere();
    let xs = r.intersect(&s);
    assert_eq!(xs.len(), 2);
    assert!(approx(fl(xs[0].t), 5.0));
    assert!(approx(fl(xs[1].t), 5.0));
}

#[test]
fn misses_sphere() {
    let r = Ray::new(pt(0.0, 2.0, -5.0), vc(0.0, 0.0, 1.0));
    let s = Object::new_sphere();
    assert_eq!(r.intersect(&s).len(), 0);
}

#[test]
fn ray_originates_inside_sphere() {
    let r = Ray::new(pt(0.0, 0.0, 0.0), vc(0.0, 0.0, 1.0));
    let s = Object::new_sphere();
    let xs = r.intersect(&s);
    assert_eq!(xs.len(), 2);
    assert!(approx(fl(xs[0].t), -1.0));
    assert!(approx(fl(xs[1].t), 1.0));
}

#[test]
fn sphere_is_behind_ray() {
    let r = Ray::new(pt(0.0, 0.0, 5.0), vc(0.0, 0.0, 1.0));
    let s = Object::new_sphere();
    let xs = r.intersect(&s);
    assert_eq!(xs.len(), 2);
    assert!(approx(fl(xs[0].t), -6.0));
    assert!(approx(fl(xs[1].t), -4.0));
}

#[test]
fn intersection_encapsulates() {
    let s = Object::new_sphere();
    let i = Intersection::new(fx(3.5), s);
    assert!(approx(fl(i.t), 3.5));
    assert_eq!(i.object, s);
}

#[test]
fn aggregating_intersection() {
    let s = Object::new_sphere();
    let i1 = Intersection::new(fx(1.0), s);
    let i2 = Intersection::new(fx(2.0), s);
    let intersections = Intersections::new(vec![i1, i2]);
    assert_eq!(intersections.inters.len(), 2);
    assert!(approx(fl(intersections.inters[0].t), 1.0));
    assert!(approx(fl(intersections.inters[1].t), 2.0));
}

#[test]
fn intersect_sets_object() {
    let r = Ray::new(pt(0.0, 0.0, -5.0), vc(0.0, 0.0, 1.0));
    let s = Object::new_sphere();
    let xs = r.intersect(&s);
    assert_eq!(xs.len(), 2);
    assert_eq!(xs[0].object, s);
    assert_eq!(xs[1].object, s);
}

#[test]
fn hit_positive_t() {
    let s = Object::new_sphere();
    let i1 = Intersection::new(fx(1.0), s);
    let i2 = Intersection::new(fx(2.0), s);
    let intersections = Intersections::new(vec![i2, i1]);
    assert_eq!(intersections.hit().unwrap(), i1);
}

#[test]
fn hit_some_negative_t() {
    let s = Object::new_sphere();
    let i1 = Intersection::new(fx(-1.0), s);
    let i2 = Intersection::new(fx(2.0), s);
    let intersections = Intersections::new(vec![i2, i1]);
    assert_eq!(intersections.hit().unwrap(), i2);
}

#[test]
fn hit_all_negative_t() {
    let s = Object::new_sphere();
    let i1 = Intersection::new(fx(-2.0), s);
    let i2 = Intersection::new(fx(-1.0), s);
    let intersections = Intersections::new(vec![i2, i1]);
    assert_eq!(intersections.hit(), None);
}

#[test]
fn hit_is_lowest_nonnegative() {
    let s = Object::new_sphere();
    let i1 = Intersection::new(fx(5.0), s);
    let i2 = Intersection::new(fx(7.0), s);
    let i3 = Intersection::new(fx(-3.0), s);
    let i4 = Intersection::new(fx(2.0), s);
    let intersections = Intersections::new(vec![i2, i1, i3, i4]);
    assert_eq!(intersections.hit().unwrap(), i4);
}

#[test]
fn translate_ray() {
    let r = Ray::new(pt(1.0, 2.0, 3.0), vc(0.0, 1.0, 0.0));
    let m = translation(fx(3.0), fx(4.0), fx(5.0));
    let r2 = r.transform(m);
    assert!(tup_approx(r2.origin, 4.0, 6.0, 8.0, 1.0));
    assert!(tup_approx(r2.direction, 0.0, 1.0, 0.0, 0.0));
}

#[test]
fn scale_ray() {
    let r = Ray::new(pt(1.0, 2.0, 3.0), vc(0.0, 1.0, 0.0));
    let m = scale(fx(2.0), fx(3.0), fx(4.0));
    let r2 = r.transform(m);
    assert!(tup_approx(r2.origin, 2.0, 6.0, 12.0, 1.0));
    assert!(tup_approx(r2.direction, 0.0, 3.0, 0.0, 0.0));
}

#[test]
fn sphere_default_transform() {
    let s = Object::new_sphere();
    assert_eq!(s.transform, identity());
}

#[test]
fn change_sphere_transform() {
    let mut s = Object::new_sphere();
    let t = translation(fx(2.0), fx(3.0), fx(4.0));
    s.transform = t;
    assert_eq!(s.transform, t);
}

#[test]
fn intersect_scaled_sphere() {
    let r = Ray::new(pt(0.0, 0.0, -5.0), vc(0.0, 0.0, 1.0));
    let mut s = Object::new_sphere();
    s.transform = scale(fx(2.0), fx(2.0), fx(2.0));
    let xs = r.intersect(&s);
    assert_eq!(xs.len(), 2);
    assert!(approx(fl(xs[0].t), 3.0));
    assert!(approx(fl(xs[1].t), 7.0));
}

#[test]
fn intersect_translated_sphere() {
    let r = Ray::new(pt(0.0, 0.0, -5.0), vc(0.0, 0.0, 1.0));
    let mut s = Object::new_sphere();
    s.transform = translation(fx(5.0), fx(0.0), fx(0.0));
    assert_eq!(r.intersect(&s).len(), 0);
}

#[test]
fn normal_x() {
    let s = Object::new_sphere();
    assert!(tup_approx(s.normal_at(pt(1.0, 0.0, 0.0)), 1.0, 0.0, 0.0, 0.0));
}

#[test]
fn normal_y() {
    let s = Object::new_sphere();
    assert!(tup_approx(s.normal_at(pt(0.0, 1.0, 0.0)), 0.0, 1.0, 0.0, 0.0));
}

#[test]
fn normal_z() {
    let s = Object::new_sphere();
    assert!(tup_approx(s.normal_at(pt(0.0, 0.0, 1.0)), 0.0, 0.0, 1.0, 0.0));
}

#[test]
fn normal_nonaxial() {
    let s = Object::new_sphere();
    let k = 3.0f64.sqrt() / 3.0;
    let n = s.normal_at(pt(k, k, k));
    assert!(tup_approx(n, k, k, k, 0.0));
}

#[test]
fn normal_is_normalised() {
    let s = Object::new_sphere();
    let k = 3.0f64.sqrt() / 3.0;
    let n = s.normal_at(pt(k, k, k));
    let nn = n.normalize();
    assert!(tup_approx(nn, fl(n.x), fl(n.y), fl(n.z), 0.0));
}

#[test]
fn normal_translated() {
    let mut s = Object::new_sphere();
    s.transform = translation(fx(0.0), fx(1.0), fx(0.0));
    let n = s.normal_at(pt(0.0, 1.70711, -0.70711));
    assert!(tup_approx(n, 0.0, 0.70711, -0.70711, 0.0));
}

#[test]
fn normal_transformed() {
    let pi = std::f64::consts::PI;
    let mut s = Object::new_sphere();
    s.transform = scale(fx(1.0), fx(0.5), fx(1.0)) * rot_z(fx(pi / 5.0));
    let h = 2.0f64.sqrt() / 2.0;
    let n = s.normal_at(pt(0.0, h, -h));
    assert!(tup_approx(n, 0.0, 0.97014, -0.24254, 0.0));
}

#[test]
fn reflect_45() {
    let v = vc(1.0, -1.0, 0.0);
    let n = vc(0.0, 1.0, 0.0);
    assert!(tup_approx(v.reflect(n), 1.0, 1.0, 0.0, 0.0));
}

#[test]
fn reflect_slanted() {
    let h = 2.0f64.sqrt() / 2.0;
    let v = vc(0.0, -1.0, 0.0);
    let n = vc(h, h, 0.0);
    assert!(tup_approx(v.reflect(n), 1.0, 0.0, 0.0, 0.0));
}

#[test]
fn create_light() {
    let intensity = Colour::new(fx(1.0), fx(1.0), fx(1.0));
    let pos = pt(0.0, 0.0, 0.0);
    let light = Light::new(pos, intensity);
    assert_eq!(light.position, pos);
    assert_eq!(light.intensity, intensity);
}

#[test]
fn create_default_material() {
    let m = Material::new();
    assert_eq!(m.colour, white());
    assert!(approx(fl(m.ambient), 0.1));
    assert!(approx(fl(m.diffuse), 0.9));
    assert!(approx(fl(m.specular), 0.9));
    assert!(approx(fl(m.shininess), 200.0));
}

#[test]
fn lighting_with_eye_between() {
    let o = Object::new_sphere();
    let result = lighting(
        o,
        Light::new(pt(0.0, 0.0, -10.0), white()),
        pt(0.0, 0.0, 0.0),
        vc(0.0, 0.0, -1.0),
        vc(0.0, 0.0, -1.0),
        false,
    );
    assert!(col_approx(result, 1.9, 1.9, 1.9));
}

#[test]
fn lighting_with_eye_between_spec_only() {
    let mut m = Material::new();
    m.ambient = fx(0.0);
    m.diffuse = fx(0.0);
    m.specular = fx(0.5);
    let mut o = Object::new_sphere();
    o.material = m;
    let result = lighting(
        o,
        Light::new(pt(0.0, 0.0, -10.0), white()),
        pt(0.0, 0.0, 0.0),
        vc(0.0, 0.0, -1.0),
        vc(0.0, 0.0, -1.0),
        false,
    );
    assert!(col_approx(result, 0.5, 0.5, 0.5));
}

#[test]
fn lighting_with_eye_at_45() {
    let h = 2.0f64.sqrt() / 2.0;
    let o = Object::new_sphere();
    let result = lighting(
        o,
        Light::new(pt(0.0, 0.0, -10.0), white()),
        pt(0.0, 0.0, 0.0),
        vc(0.0, h, -h),
        vc(0.0, 0.0, -1.0),
        false,
    );
    assert!(col_approx(result, 1.0, 1.0, 1.0));
}

#[test]
fn lighting_with_light_at_45() {
    let o = Object::new_sphere();
    let result = lighting(
        o,
        Light::new(pt(0.0, 10.0, -10.0), white()),
        pt(0.0, 0.0, 0.0),
        vc(0.0, 0.0, -1.0),
        vc(0.0, 0.0, -1.0),
        false,
    );
    assert!(col_approx(result, 0.7364, 0.7364, 0.7364));
}

#[test]
fn lighting_with_eye_and_light_at_45() {
    let h = 2.0f64.sqrt() / 2.0;
    let o = Object::new_sphere();
    let result = lighting(
        o,
        Light::new(pt(0.0, 10.0, -10.0), white()),
        pt(0.0, 0.0, 0.0),
        vc(0.0, -h, -h),
        vc(0.0, 0.0, -1.0),
        false,
    );
    assert!(col_approx(result, 1.63638, 1.63638, 1.63638));
}

#[test]
fn lighting_behind_object() {
    let o = Object::new_sphere();
    let result = lighting(
        o,
        Light::new(pt(0.0, 0.0, 10.0), white()),
        pt(0.0, 0.0, 0.0),
        vc(0.0, 0.0, -1.0),
        vc(0.0, 0.0, -1.0),
        false,
    );
    assert!(col_approx(result, 0.1, 0.1, 0.1));
}

#[test]
fn prepare_comps() {
    let r = Ray::new(pt(0.0, 0.0, -5.0), vc(0.0, 0.0, 1.0));
    let s = Object::new_sphere();
    let i = Intersection::new(fx(4.0), s);
    let comps = r.prepare_computations(&i, Intersections::new(vec![i]));
    assert_eq!(comps.t, i.t);
    assert_eq!(comps.object, i.object);
    assert!(tup_approx(comps.point, 0.0, 0.0, -1.0, 1.0));
    assert!(tup_approx(comps.eyev, 0.0, 0.0, -1.0, 0.0));
    assert!(tup_approx(comps.normalv, 0.0, 0.0, -1.0, 0.0));
}

#[test]
fn prepare_compus_hit_from_outside() {
    let r = Ray::new(pt(0.0, 0.0, -5.0), vc(0.0, 0.0, 1.0));
    let s = Object::new_sphere();
    let i = Intersection::new(fx(4.0), s);
    let comps = r.prepare_computations(&i, Intersections::new(vec![i]));
    assert!(!comps.inside);
}

#[test]
fn prepare_compus_hit_from_inside() {
    let r = Ray::new(pt(0.0, 0.0, 0.0), vc(0.0, 0.0, 1.0));
    let s = Object::new_sphere();
    let i = Intersection::new(fx(1.0), s);
    let comps = r.prepare_computations(&i, Intersections::new(vec![i]));
    assert!(tup_approx(comps.point, 0.0, 0.0, 1.0, 1.0));
    assert!(tup_approx(comps.eyev, 0.0, 0.0, -1.0, 0.0));
    assert!(tup_approx(comps.normalv, 0.0, 0.0, -1.0, 0.0));
    assert!(comps.inside);
}

#[test]
fn lighting_in_shadow() {
    let result = lighting(
        Object::new(),
        Light::new(pt(0.0, 0.0, -10.0), white()),
        pt(0.0, 0.0, 0.0),
        vc(0.0, 0.0, -1.0),
        vc(0.0, 0.0, -1.0),
        true,
    );
    assert!(col_approx(result, 0.1, 0.1, 0.1));
}

#[test]
fn hit_offsets_point() {
    let r = Ray::new(pt(0.0, 0.0, -5.0), vc(0.0, 0.0, 1.0));
    let mut s = Object::new_sphere();
    s.transform = translation(fx(0.0), fx(0.0), fx(1.0));
    let i = Intersection::new(fx(5.0), s);
    let comps = r.prepare_computations(&i, Intersections::new(vec![i]));
    assert!(comps.point.z.raw_value() > comps.over_point.z.raw_value());
}

#[test]
fn intersect_plane_parallel() {
    let p = Object::new_plane();
    let r = Ray::new(pt(0.0, 10.0, 0.0), vc(0.0, 0.0, 1.0));
    assert_eq!(r.intersect(&p).len(), 0);
}

#[test]
fn intersect_plane_coplanar() {
    let p = Object::new_plane();
    let r = Ray::new(pt(0.0, 0.0, 0.0), vc(0.0, 0.0, 1.0));
    assert_eq!(r.intersect(&p).len(), 0);
}

#[test]
fn intersect_plane_from_above() {
    let mut p = Object::new_plane();
    p.transform = translation(fx(0.0), fx(-1.0), fx(0.0));
    let r = Ray::new(pt(0.0, 1.0, 0.0), vc(0.0, -1.0, 0.0));
    let xs = r.intersect(&p);
    assert_eq!(xs.len(), 1);
    assert!(approx(fl(xs[0].t), 2.0));
    assert_eq!(xs[0].object, p);
}

#[test]
fn intersect_plane_from_below() {
    let p = Object::new_plane();
    let r = Ray::new(pt(0.0, -1.0, 0.0), vc(0.0, 1.0, 0.0));
    let xs = r.intersect(&p);
    assert_eq!(xs.len(), 1);
    assert!(approx(fl(xs[0].t), 1.0));
    assert_eq!(xs[0].object, p);
}

#[test]
fn lighting_with_pattern() {
    let mut m = Material::new();
    m.pattern = Some(Pattern::new_striped(white(), black()));
    m.ambient = fx(1.0);
    m.diffuse = fx(0.0);
    m.specular = fx(0.0);
    let mut o = Object::new_sphere();
    o.material = m;
    let light = Light::new(pt(0.0, 0.0, -10.0), white());
    let eyev = vc(0.0, 0.0, -1.0);
    let normalv = vc(0.0, 0.0, -1.0);
    let c1 = lighting(o, light, pt(0.9, 0.0, 0.0), eyev, normalv, false);
    let c2 = lighting(o, light, pt(1.1, 0.0, 0.0), eyev, normalv, false);
    assert_eq!(c1, white());
    assert_eq!(c2, black());
}

#[test]
fn precomp_reflectv() {
    let h = 2.0f64.sqrt() / 2.0;
    let object = Object::new_plane();
    let r = Ray::new(pt(0.0, 1.0, -1.0), vc(0.0, -h, h));
    let i = Intersection::new(fx(2.0f64.sqrt()), object);
    let comps = r.prepare_computations(&i, Intersections::new(vec![i]));
    assert!(tup_approx(comps.reflectv, 0.0, h, h, 0.0));
}

fn find_n1_n2_setup(index: usize) -> (f64, f64) {
    let mut a = Object::glass_sphere();
    a.transform = scale(fx(2.0), fx(2.0), fx(2.0));
    a.material.refractive_index = fx(1.5);
    let mut b = Object::glass_sphere();
    b.transform = translation(fx(0.0), fx(0.0), fx(-0.25));
    b.material.refractive_index = fx(2.0);
    let mut c = Object::glass_sphere();
    c.transform = translation(fx(0.0), fx(0.0), fx(0.25));
    c.material.refractive_index = fx(2.5);
    let r = Ray::new(pt(0.0, 0.0, -4.0), vc(0.0, 0.0, 1.0));
    let xs = Intersections::new(vec![
        Intersection::new(fx(2.0), a),
        Intersection::new(fx(2.75), b),
        Intersection::new(fx(3.25), c),
        Intersection::new(fx(4.75), b),
        Intersection::new(fx(5.25), c),
        Intersection::new(fx(6.0), a),
    ]);
    let inter = xs.inters[index].clone();
    let comps = r.prepare_computations(&inter, xs);
    (fl(comps.n1), fl(comps.n2))
}

#[test]
fn find_n1_n2_0() {
    let expected = [
        (1.0, 1.5),
        (1.5, 2.0),
        (2.0, 2.5),
        (2.5, 2.5),
        (2.5, 1.5),
        (1.5, 1.0),
    ];
    for (i, (n1, n2)) in expected.iter().enumerate() {
        let (g1, g2) = find_n1_n2_setup(i);
        assert!(approx(g1, *n1));
        assert!(approx(g2, *n2));
    }
}

#[test]
fn compute_under_point() {
    let r = Ray::new(pt(0.0, 0.0, -5.0), vc(0.0, 0.0, 1.0));
    let mut s = Object::glass_sphere();
    s.transform = translation(fx(0.0), fx(0.0), fx(1.0));
    let i = Intersection::new(fx(5.0), s);
    let xs = Intersections::new(vec![i]);
    let comps = r.prepare_computations(&i, xs);
    assert!(fl(comps.under_point.z) > 1.0e-5 / 2.0);
    assert!(fl(comps.point.z) < fl(comps.under_point.z));
}

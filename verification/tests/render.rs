//! The world integrator: shading, shadows, reflection, refraction, the
//! view transform, the camera, and an end-to-end render.

use ray_tracing::canvas::Canvas;
use ray_tracing::colour::Colour;
use ray_tracing::fixed::Fx;
use ray_tracing::matrix::Matrix4x4;
use ray_tracing::matrix::identity;
use ray_tracing::ray::Intersection;
use ray_tracing::ray::Intersections;
use ray_tracing::ray::Light;
use ray_tracing::ray::Ray;
use ray_tracing::shapes::Object;
use ray_tracing::shapes::Pattern;
use ray_tracing::transformation::rot_y;
use ray_tracing::transformation::scale;
use ray_tracing::transformation::translation;
use ray_tracing::tuple::Tuple;
use ray_tracing::tuple::point;
use ray_tracing::tuple::vector;
use ray_tracing::world::Camera;
use ray_tracing::world::World;
use ray_tracing::world::view_transform;

const S: f64 = 1099511627776.0;

fn fx(v: f64) -> Fx {
    Fx::from_raw((v * S).round() as i64)
}

fn fl(a: Fx) -> f64 {
    a.raw_value() as f64 / S
}

fn approx(a: f64, b: f64) -> bool {
    let d = (a - b).abs();
    d <= 1.0e-5 || d <= 1.0e-5 * a.abs().max(b.abs())
}

fn pt(x: f64, y: f64, z: f64) -> Tuple {
    point(fx(x), fx(y), fx(z))
}

fn vc(x: f64, y: f64, z: f64) -> Tuple {
    vector(fx(x), fx(y), fx(z))
}

fn tup_approx(t: Tuple, x: f64, y: f64, z: f64, w: f64) -> bool {
    approx(fl(t.x), x) && approx(fl(t.y), y) && approx(fl(t.z), z) && approx(fl(t.w), w)
}

fn col_approx(c: Colour, r: f64, g: f64, b: f64) -> bool {
    approx(fl(c.red), r) && approx(fl(c.green), g) && approx(fl(c.blue), b)
}

fn m4_approx(a: Matrix4x4, b: Matrix4x4) -> bool {
    (0..4).all(|r| (0..4).all(|c| approx(fl(a.value_at(r, c)), fl(b.value_at(r, c)))))
}

fn white() -> Colour {
    ray_tracing::colour::white()
}

fn black() -> Colour {
    ray_tracing::colour::black()
}

#[test]
fn create_world() {
    let world = World::new();
    assert_eq!(world.objects.len(), 0);
    assert_eq!(world.lights.len(), 0);
}

#[test]
fn create_default_world() {
    let world = World::default_world();
    let light = Light::new(pt(-10.0, 10.0, -10.0), white());
    let mut s1 = Object::new_sphere();
    s1.material.colour = Colour::new(fx(0.8), fx(1.0), fx(0.6));
    s1.material.diffuse = fx(0.7);
    s1.material.specular = fx(0.2);
    let mut s2 = Object::new_sphere();
    s2.transform = scale(fx(0.5), fx(0.5), fx(0.5));
    assert!(world.lights.contains(&light));
    assert!(world.objects.contains(&s1));
    assert!(world.objects.contains(&s2));
}

#[test]
fn intersect_world() {
    let world = World::default_world();
    let r = Ray::new(pt(0.0, 0.0, -5.0), vc(0.0, 0.0, 1.0));
    let xs = world.intersect(&r);
    assert_eq!(xs.inters.len(), 4);
    assert!(approx(fl(xs.inters[0].t), 4.0));
    assert!(approx(fl(xs.inters[1].t), 4.5));
    assert!(approx(fl(xs.inters[2].t), 5.5));
    assert!(approx(fl(xs.inters[3].t), 6.0));
}

#[test]
fn shading_intersection() {
    let world = World::default_world();
    let r = Ray::new(pt(0.0, 0.0, -5.0), vc(0.0, 0.0, 1.0));
    let s = world.objects[0];
    let x = Intersection::new(fx(4.0), s);
    let comps = r.prepare_computations(&x, Intersections::new(vec![x]));
    let c = world.shade_hit(comps, 5);
    assert!(col_approx(c, 0.38066, 0.47583, 0.2855));
}

#[test]
fn shading_intersection_outside() {
    let mut world = World::default_world();
    world.lights = vec![Light::new(pt(0.0, 0.25, 0.0), white())];
    let r = Ray::new(pt(0.0, 0.0, 0.0), vc(0.0, 0.0, 1.0));
    let s = world.objects[1];
    let x = Intersection::new(fx(0.5), s);
    let comps = r.prepare_computations(&x, Intersections::new(vec![x]));
    let c = world.shade_hit(comps, 5);
    assert!(col_approx(c, 0.90498, 0.90498, 0.90498));
}

#[test]
fn colour_ray_misses() {
    let world = World::default_world();
    let r = Ray::new(pt(0.0, 0.0, -5.0), vc(0.0, 1.0, 0.0));
    assert_eq!(world.colour_at(r, 5), black());
}

#[test]
fn colour_ray_hits() {
    let world = World::default_world();
    let r = Ray::new(pt(0.0, 0.0, -5.0), vc(0.0, 0.0, 1.0));
    assert!(col_approx(world.colour_at(r, 5), 0.38066, 0.47583, 0.2855));
}

#[test]
fn trans_matrix_default() {
    let t = view_transform(pt(0.0, 0.0, 0.0), pt(0.0, 0.0, -1.0), vc(0.0, 1.0, 0.0));
    assert!(m4_approx(t, identity()));
}

#[test]
fn trans_matrix_positive_z() {
    let t = view_transform(pt(0.0, 0.0, 0.0), pt(0.0, 0.0, 1.0), vc(0.0, 1.0, 0.0));
    assert!(m4_approx(t, scale(fx(-1.0), fx(1.0), fx(-1.0))));
}

#[test]
fn trans_matrix_moves_world() {
    let t = view_transform(pt(0.0, 0.0, 8.0), pt(0.0, 0.0, 0.0), vc(0.0, 1.0, 0.0));
    assert!(m4_approx(t, translation(fx(0.0), fx(0.0), fx(-8.0))));
}

#[test]
fn trans_matrix_arbitrary() {
    let t = view_transform(pt(1.0, 3.0, 2.0), pt(4.0, -2.0, 8.0), vc(1.0, 1.0, 0.0));
    let expected: [f64; 16] = [
        -0.50709, 0.50709, 0.67612, -2.36643, 0.76772, 0.60609, 0.12122, -2.82843, -0.35857,
        0.59761, -0.71714, 0.0, 0.0, 0.0, 0.0, 1.0,
    ];
    for r in 0..4 {
        for c in 0..4 {
            assert!(approx(fl(t.value_at(r, c)), expected[r * 4 + c]));
        }
    }
}

#[test]
fn create_camera() {
    let pi = std::f64::consts::PI;
    let cam = Camera::new(160, 120, fx(pi / 2.0));
    assert_eq!(cam.hsize, 160);
    assert_eq!(cam.vsize, 120);
    assert!(approx(fl(cam.fow), pi / 2.0));
    assert_eq!(cam.transform, identity());
}

#[test]
fn create_camera_pixel_size() {
    let pi = std::f64::consts::PI;
    let cam = Camera::new(200, 125, fx(pi / 2.0));
    assert!(approx(fl(cam.pixel_size), 0.01));
}

#[test]
fn create_camera_pixel_size_vert() {
    let pi = std::f64::consts::PI;
    let cam = Camera::new(125, 200, fx(pi / 2.0));
    assert!(approx(fl(cam.pixel_size), 0.01));
}

#[test]
fn camera_create_ray_center() {
    let pi = std::f64::consts::PI;
    let cam = Camera::new(201, 101, fx(pi / 2.0));
    let r = cam.ray_for_pixel(100, 50);
    assert!(tup_approx(r.origin, 0.0, 0.0, 0.0, 1.0));
    assert!(tup_approx(r.direction, 0.0, 0.0, -1.0, 0.0));
}

#[test]
fn camera_create_ray_corner() {
    let pi = std::f64::consts::PI;
    let cam = Camera::new(201, 101, fx(pi / 2.0));
    let r = cam.ray_for_pixel(0, 0);
    assert!(tup_approx(r.origin, 0.0, 0.0, 0.0, 1.0));
    assert!(tup_approx(r.direction, 0.66519, 0.33259, -0.66851, 0.0));
}

#[test]
fn camera_create_ray_transformed() {
    let pi = std::f64::consts::PI;
    let h = 2.0f64.sqrt() / 2.0;
    let mut cam = Camera::new(201, 101, fx(pi / 2.0));
    cam.transform = rot_y(fx(pi / 4.0)) * translation(fx(0.0), fx(-2.0), fx(5.0));
    let r = cam.ray_for_pixel(100, 50);
    assert!(tup_approx(r.origin, 0.0, 2.0, -5.0, 1.0));
    assert!(tup_approx(r.direction, h, 0.0, -h, 0.0));
}

#[test]
fn render_world() {
    let pi = std::f64::consts::PI;
    let world = World::default_world();
    let mut cam = Camera::new(11, 11, fx(pi / 2.0));
    cam.transform = view_transform(pt(0.0, 0.0, -5.0), pt(0.0, 0.0, 0.0), vc(0.0, 1.0, 0.0));
    let image = world.render(cam);
    assert!(col_approx(image.pixel_at(5, 5), 0.38066, 0.47583, 0.2855));
}

#[test]
fn shadow_default_world() {
    let world = World::default_world();
    assert!(!world.is_shadowed(pt(0.0, 10.0, 0.0)));
}

#[test]
fn shadow_when_obj_between_point_and_light() {
    let world = World::default_world();
    assert!(world.is_shadowed(pt(10.0, -10.0, 10.0)));
}

#[test]
fn shadow_when_obj_behind_light() {
    let world = World::default_world();
    assert!(!world.is_shadowed(pt(-20.0, 20.0, -20.0)));
}

#[test]
fn shadow_when_obj_behind_point() {
    let world = World::default_world();
    assert!(!world.is_shadowed(pt(-2.0, 20.0, -2.0)));
}

#[test]
fn shade_hit_in_shadow() {
    let light = Light::new(pt(0.0, 0.0, -10.0), white());
    let s1 = Object::new_sphere();
    let mut s2 = Object::new_sphere();
    s2.transform = translation(fx(0.0), fx(0.0), fx(10.0));
    let world = World { objects: vec![s1, s2], lights: vec![light] };
    let r = Ray::new(pt(0.0, 0.0, 5.0), vc(0.0, 0.0, 1.0));
    let i = Intersection::new(fx(4.0), s2);
    let comps = r.prepare_computations(&i, Intersections::new(vec![i]));
    let c = world.shade_hit(comps, 5);
    assert!(col_approx(c, 0.1, 0.1, 0.1));
}

#[test]
fn reflected_colour_for_nonreflective() {
    let mut world = World::default_world();
    let r = Ray::new(pt(0.0, 0.0, 0.0), vc(0.0, 0.0, 1.0));
    world.objects[1].material.ambient = fx(1.0);
    let i = Intersection::new(fx(1.0), world.objects[1]);
    let comps = r.prepare_computations(&i, Intersections::new(vec![i]));
    assert_eq!(world.reflected_colour(&comps, 5), black());
}

#[test]
fn reflected_colour_for_reflective() {
    let h = 2.0f64.sqrt() / 2.0;
    let mut world = World::default_world();
    let mut shape = Object::new_plane();
    shape.material.reflective = fx(0.5);
    shape.transform = translation(fx(0.0), fx(-1.0), fx(0.0));
    world.objects.push(shape);
    let r = Ray::new(pt(0.0, 0.0, -3.0), vc(0.0, -h, h));
    let i = Intersection::new(fx(2.0f64.sqrt()), world.objects[2]);
    let comps = r.prepare_computations(&i, Intersections::new(vec![i]));
    assert!(col_approx(world.reflected_colour(&comps, 5), 0.190332, 0.23791, 0.14274));
}

#[test]
fn shade_hit_with_reflective() {
    let h = 2.0f64.sqrt() / 2.0;
    let mut world = World::default_world();
    let mut shape = Object::new_plane();
    shape.material.reflective = fx(0.5);
    shape.transform = translation(fx(0.0), fx(-1.0), fx(0.0));
    world.objects.push(shape);
    let r = Ray::new(pt(0.0, 0.0, -3.0), vc(0.0, -h, h));
    let i = Intersection::new(fx(2.0f64.sqrt()), world.objects[2]);
    let comps = r.prepare_computations(&i, Intersections::new(vec![i]));
    assert!(col_approx(world.shade_hit(comps, 5), 0.87675, 0.92434, 0.82918));
}

#[test]
fn colour_between_mirrors() {
    let mut world = World::new();
    world.lights.push(Light::new(pt(0.0, 0.0, 0.0), white()));
    let mut lower = Object::new_plane();
    lower.material.reflective = fx(1.0);
    lower.transform = translation(fx(0.0), fx(-1.0), fx(0.0));
    world.objects.push(lower);
    let mut upper = Object::new_plane();
    upper.material.reflective = fx(1.0);
    upper.transform = translation(fx(0.0), fx(1.0), fx(0.0));
    world.objects.push(upper);
    let r = Ray::new(pt(0.0, 0.0, 0.0), vc(0.0, 1.0, 0.0));
    assert!(col_approx(world.colour_at(r, 5), 11.4, 11.4, 11.4));
}

#[test]
fn reflected_colour_at_recursion_depth() {
    let h = 2.0f64.sqrt() / 2.0;
    let mut world = World::default_world();
    let mut shape = Object::new_plane();
    shape.material.reflective = fx(0.5);
    shape.transform = translation(fx(0.0), fx(-1.0), fx(0.0));
    world.objects.push(shape);
    let r = Ray::new(pt(0.0, 0.0, -3.0), vc(0.0, -h, h));
    let i = Intersection::new(fx(2.0f64.sqrt()), world.objects[2]);
    let comps = r.prepare_computations(&i, Intersections::new(vec![i]));
    assert_eq!(world.reflected_colour(&comps, 0), black());
}

#[test]
fn refracted_colour_from_opaque_object() {
    let world = World::default_world();
    let shape = world.objects[0];
    let r = Ray::new(pt(0.0, 0.0, -5.0), vc(0.0, 0.0, 1.0));
    let xs = Intersections::new(vec![
        Intersection::new(fx(4.0), shape),
        Intersection::new(fx(6.0), shape),
    ]);
    let first = xs.inters[0].clone();
    let comps = r.prepare_computations(&first, xs);
    assert_eq!(world.refracted_colour(comps, 5), black());
}

#[test]
fn refracted_colour_at_recursion_depth() {
    let world = World::default_world();
    let mut shape = world.objects[0];
    shape.material.transparency = fx(1.0);
    shape.material.refractive_index = fx(1.5);
    let r = Ray::new(pt(0.0, 0.0, -5.0), vc(0.0, 0.0, 1.0));
    let xs = Intersections::new(vec![
        Intersection::new(fx(4.0), shape),
        Intersection::new(fx(6.0), shape),
    ]);
    let first = xs.inters[0].clone();
    let comps = r.prepare_computations(&first, xs);
    assert_eq!(world.refracted_colour(comps, 0), black());
}

#[test]
fn total_internal_reflection() {
    let h = 2.0f64.sqrt() / 2.0;
    let world = World::default_world();
    let mut shape = world.objects[0];
    shape.material.transparency = fx(1.0);
    shape.material.refractive_index = fx(1.5);
    let r = Ray::new(pt(0.0, 0.0, h), vc(0.0, 1.0, 0.0));
    let xs = Intersections::new(vec![
        Intersection::new(fx(-h), shape),
        Intersection::new(fx(h), shape),
    ]);
    let second = xs.inters[1].clone();
    let comps = r.prepare_computations(&second, xs);
    assert_eq!(world.refracted_colour(comps, 5), black());
}

#[test]
fn finding_refracted_colour() {
    let mut world = World::default_world();
    world.objects[0].material.ambient = fx(1.0);
    world.objects[0].material.pattern = Some(Pattern::new_test());
    world.objects[1].material.transparency = fx(1.0);
    world.objects[1].material.refractive_index = fx(1.5);
    let r = Ray::new(pt(0.0, 0.0, 0.1), vc(0.0, 1.0, 0.0));
    let xs = Intersections::new(vec![
        Intersection::new(fx(-0.9899), world.objects[0]),
        Intersection::new(fx(-0.4899), world.objects[1]),
        Intersection::new(fx(0.4899), world.objects[1]),
        Intersection::new(fx(0.9899), world.objects[0]),
    ]);
    let third = xs.inters[2].clone();
    let comps = r.prepare_computations(&third, xs);
    assert!(col_approx(world.refracted_colour(comps, 5), 0.0, 0.99888, 0.04721));
}

#[test]
fn shade_hit_trans() {
    let h = 2.0f64.sqrt() / 2.0;
    let mut world = World::default_world();
    let mut floor = Object::new_plane();
    floor.transform = translation(fx(0.0), fx(-1.0), fx(0.0));
    floor.material.transparency = fx(0.5);
    floor.material.refractive_index = fx(1.5);
    world.objects.push(floor);
    let mut ball = Object::new_sphere();
    ball.material.colour = ray_tracing::colour::red();
    ball.material.ambient = fx(0.5);
    ball.transform = translation(fx(0.0), fx(-3.5), fx(-0.5));
    world.objects.push(ball);
    let r = Ray::new(pt(0.0, 0.0, -3.0), vc(0.0, -h, h));
    let xs = Intersections::new(vec![Intersection::new(fx(2.0f64.sqrt()), world.objects[2])]);
    let first = xs.inters[0].clone();
    let comps = r.prepare_computations(&first, xs);
    assert!(col_approx(world.shade_hit(comps, 5), 0.93642, 0.68642, 0.68642));
}

#[test]
fn create_canvas() {
    let a = Canvas::new(100, 50, ray_tracing::colour::blue());
    assert_eq!(a.get_width(), 100);
    assert_eq!(a.get_height(), 50);
    assert_eq!(a.pixel_at(0, 0), ray_tracing::colour::blue());
    assert_eq!(a.pixel_at(99, 49), ray_tracing::colour::blue());
}

#[test]
fn write_pixel() {
    let mut a = Canvas::new(100, 50, ray_tracing::colour::blue());
    a.write_pixel(5, 5, ray_tracing::colour::red());
    assert_eq!(a.pixel_at(5, 5), ray_tracing::colour::red());
    assert_eq!(a.pixel_at(5, 6), ray_tracing::colour::blue());
    a.write_pixel(5, 6, ray_tracing::colour::red());
    assert_eq!(a.pixel_at(5, 6), ray_tracing::colour::red());
}

#[test]
fn colour_channel_levels() {
    let c1 = Colour::new(fx(1.5), fx(0.0), fx(0.0));
    let c2 = Colour::new(fx(0.0), fx(0.5), fx(0.0));
    let c3 = Colour::new(fx(-0.5), fx(0.0), fx(1.0));
    assert_eq!(c1.normalize(255), (255, 0, 0));
    assert_eq!(c2.normalize(255), (0, 128, 0));
    assert_eq!(c3.normalize(255), (0, 0, 255));
}

#[test]
fn glass_sphere_defaults() {
    let s = Object::glass_sphere();
    assert_eq!(s.transform, identity());
    assert!(approx(fl(s.material.transparency), 1.0));
    assert!(approx(fl(s.material.refractive_index), 1.5));
}

#[test]
fn projectile_moves() {
    let p = ray_tracing::projectile::Projectile::new(pt(0.0, 1.0, 0.0), vc(1.0, 1.0, 0.0));
    assert_eq!(p.pos, pt(0.0, 1.0, 0.0));
    assert_eq!(p.vel, vc(1.0, 1.0, 0.0));
}

//! The scene integrator: a world of objects and lights, shadow testing,
//! recursive reflection and refraction bounded by an explicit depth
//! counter, and the camera that casts one ray per pixel.

use crate::canvas::Canvas;
use crate::colour::Colour;
use crate::colour::col_add;
use crate::colour::col_of;
use crate::colour::col_smul;
use crate::fixed::Fx;
use crate::fixed::SCALE;
use crate::fixed::fx_div;
use crate::fixed::fx_mul;
use crate::fixed::fx_sqrt;
use crate::fixed::fx_sub;
use crate::fixed::fx_tan;
use crate::fixed::fxv;
use crate::matrix::Matrix4x4;
use crate::matrix::lemma_mat4_of;
use crate::matrix::mat4_apply;
use crate::matrix::mat4_identity;
use crate::matrix::mat4_inverse;
use crate::matrix::mat4_invertible;
use crate::matrix::mat4_mul;
use crate::matrix::mat4_of;
use crate::ray::Computations;
use crate::ray::Intersection;
use crate::ray::Intersections;
use crate::ray::Light;
use crate::ray::Ray;
use crate::ray::hit_spec;
use crate::ray::intersect_spec;
use crate::ray::lighting;
use crate::ray::lighting_spec;
use crate::ray::prepare_computations_spec;
use crate::ray::sort_inters;
use crate::ray::sorted_by_t;
use crate::shapes::Material;
use crate::shapes::Object;
use crate::shapes::Shape;
use crate::shapes::default_material;
use crate::shapes::obj_wf;
use crate::transformation::scale;
use crate::transformation::scale_spec;
use crate::transformation::translation;
use crate::transformation::translation_spec;
use crate::tuple::Tuple;
use crate::tuple::point;
use crate::tuple::tup_add;
use crate::tuple::tup_cross;
use crate::tuple::tup_dot;
use crate::tuple::tup_mag;
use crate::tuple::tup_normalize;
use crate::tuple::tup_smul;
use crate::tuple::tup_sub;
use core::ops::Add;
use core::ops::Mul;
use core::ops::Neg;
use core::ops::Sub;
use vstd::prelude::*;

verus! {

/// The scene: a list of objects and a list of lights.
pub struct World {
    pub objects: Vec<Object>,
    pub lights: Vec<Light>,
}

/// Whether every object's transforms invert and at least one light exists,
/// which the shading functions lean on.
pub open spec fn world_wf(objects: Seq<Object>, lights: Seq<Light>) -> bool {
    (forall|i: int| 0 <= i < objects.len() ==> obj_wf(#[trigger] objects[i])) && lights.len() >= 1
}

/// All objects' intersections with a ray, in object order, unsorted.
pub open spec fn world_intersections(objects: Seq<Object>, r: Ray) -> Seq<Intersection>
    decreases objects.len(),
{
    if objects.len() == 0 {
        Seq::empty()
    } else {
        world_intersections(objects.drop_last(), r) + intersect_spec(r, objects.last())
    }
}

/// The nearest visible hit of a ray in a world.
pub open spec fn world_hit(objects: Seq<Object>, r: Ray) -> Option<Intersection> {
    hit_spec(sort_inters(world_intersections(objects, r)))
}

/// Whether a point lies in the shadow of the first light: something stands
/// between the point and the light.
#[verifier::opaque]
pub open spec fn is_shadowed_spec(objects: Seq<Object>, light: Light, p: Tuple) -> bool {
    let v = tup_sub(light.position, p);
    let distance = tup_mag(v);
    let direction = tup_normalize(v);
    match world_hit(objects, Ray { origin: p, direction }) {
        Option::Some(h) => h.t@ < distance,
        Option::None => false,
    }
}

/// The colour a ray yields: black for a miss, otherwise the shaded hit.
#[verifier::opaque]
pub open spec fn colour_at_spec(
    objects: Seq<Object>,
    lights: Seq<Light>,
    r: Ray,
    depth: nat,
) -> Colour
    decreases depth, 2int,
{
    let sorted = sort_inters(world_intersections(objects, r));
    match hit_spec(sorted) {
        Option::Some(h) => shade_hit_spec(
            objects,
            lights,
            prepare_computations_spec(r, h, sorted),
            depth,
        ),
        Option::None => col_of(0, 0, 0),
    }
}

/// The shaded colour at a hit: the Phong surface term with a shadow test at
/// the nudged point, plus the reflected and refracted contributions.
#[verifier::opaque]
pub open spec fn shade_hit_spec(
    objects: Seq<Object>,
    lights: Seq<Light>,
    comps: Computations,
    depth: nat,
) -> Colour
    decreases depth, 1int,
{
    let shadowed = is_shadowed_spec(objects, lights[0], comps.over_point);
    let surface = lighting_spec(
        comps.object,
        lights[0],
        comps.point,
        comps.eyev,
        comps.normalv,
        shadowed,
    );
    let reflected = reflected_colour_spec(objects, lights, comps, depth);
    let refracted = refracted_colour_spec(objects, lights, comps, depth);
    col_add(col_add(surface, reflected), refracted)
}

/// The reflected contribution: black when the depth is spent or the surface
/// is not reflective, else the colour along the reflection ray scaled by
/// the reflective coefficient.
#[verifier::opaque]
pub open spec fn reflected_colour_spec(
    objects: Seq<Object>,
    lights: Seq<Light>,
    comps: Computations,
    depth: nat,
) -> Colour
    decreases depth, 0int,
{
    if depth == 0 {
        col_of(0, 0, 0)
    } else if comps.object.material.reflective@ == 0 {
        col_of(0, 0, 0)
    } else {
        let reflected_ray = Ray { origin: comps.over_point, direction: comps.reflectv };
        col_smul(
            colour_at_spec(objects, lights, reflected_ray, (depth - 1) as nat),
            comps.object.material.reflective@,
        )
    }
}

/// The refracted contribution: black when the depth is spent, the surface
/// is opaque, or total internal reflection occurs; else the colour along
/// the ray bent by Snell's law, scaled by the transparency.
#[verifier::opaque]
pub open spec fn refracted_colour_spec(
    objects: Seq<Object>,
    lights: Seq<Light>,
    comps: Computations,
    depth: nat,
) -> Colour
    decreases depth, 0int,
{
    let n_ratio = fx_div(comps.n1@, comps.n2@);
    let cos_i = tup_dot(comps.eyev, comps.normalv);
    let sin2_t = fx_mul(fx_mul(n_ratio, n_ratio), fx_sub(SCALE as int, fx_mul(cos_i, cos_i)));
    if depth == 0 {
        col_of(0, 0, 0)
    } else if comps.object.material.transparency@ == 0 {
        col_of(0, 0, 0)
    } else if sin2_t > SCALE {
        col_of(0, 0, 0)
    } else {
        let cos_t = fx_sqrt(fx_sub(SCALE as int, sin2_t));
        let direction = tup_sub(
            tup_smul(comps.normalv, fx_sub(fx_mul(n_ratio, cos_i), cos_t)),
            tup_smul(comps.eyev, n_ratio),
        );
        let refracted_ray = Ray { origin: comps.under_point, direction };
        col_smul(
            colour_at_spec(objects, lights, refracted_ray, (depth - 1) as nat),
            comps.object.material.transparency@,
        )
    }
}

/// The first sphere of the default world: yellow-green, mostly diffuse.
pub open spec fn default_world_s1() -> Object {
    Object {
        transform: mat4_of(mat4_identity()),
        material: Material {
            colour: col_of(879609302221, 1099511627776, 659706976666),
            diffuse: fxv(769658139443),
            specular: fxv(219902325555),
            ..default_material()
        },
        shape: Shape::Sphere(),
    }
}

/// The second sphere of the default world: a default sphere at half scale.
pub open spec fn default_world_s2() -> Object {
    Object {
        transform: mat4_of(scale_spec(549755813888, 549755813888, 549755813888)),
        material: default_material(),
        shape: Shape::Sphere(),
    }
}

/// The light of the default world: white, up and to the left, in front.
pub open spec fn default_world_light() -> Light {
    Light {
        position: Tuple {
            x: fxv(-10 * SCALE as int),
            y: fxv(10 * SCALE as int),
            z: fxv(-10 * SCALE as int),
            w: fxv(SCALE as int),
        },
        intensity: col_of(SCALE as int, SCALE as int, SCALE as int),
    }
}

impl World {
    /// An empty scene.
    pub fn new() -> (r: World)
        ensures
            r.objects@ == Seq::<Object>::empty(),
            r.lights@ == Seq::<Light>::empty(),
    {
        World { objects: Vec::new(), lights: Vec::new() }
    }

    /// The two-sphere scene with one light that the book's tests build on.
    pub fn default_world() -> (r: World)
        ensures
            r.objects@ == seq![default_world_s1(), default_world_s2()],
            r.lights@ == seq![default_world_light()],
            world_wf(r.objects@, r.lights@),
    {
        let light = Light::new(
            point(Fx::from_int(-10), Fx::from_int(10), Fx::from_int(-10)),
            crate::colour::white(),
        );
        let mut s1 = Object::new_sphere();
        s1.material.colour = Colour {
            red: Fx { raw: 879609302221 },
            green: Fx { raw: 1099511627776 },
            blue: Fx { raw: 659706976666 },
        };
        s1.material.diffuse = Fx { raw: 769658139443 };
        s1.material.specular = Fx { raw: 219902325555 };
        let mut s2 = Object::new_sphere();
        let half = Fx { raw: 549755813888 };
        s2.transform = scale(half, half, half);
        proof {
            lemma_mat4_of(s1.transform, mat4_identity());
            lemma_mat4_of(s2.transform, scale_spec(549755813888, 549755813888, 549755813888));
            lemma_half_scale_invertible();
        }
        let mut objects: Vec<Object> = Vec::new();
        objects.push(s1);
        objects.push(s2);
        let mut lights: Vec<Light> = Vec::new();
        lights.push(light);
        proof {
            assert(objects@ =~= seq![default_world_s1(), default_world_s2()]);
            assert(lights@ =~= seq![default_world_light()]);
        }
        World { objects, lights }
    }

    /// Find all the intersections of a ray and the objects in the world
    #[verifier::rlimit(100)]
    pub fn intersect(&self, ray: &Ray) -> (r: Intersections)
        requires
            forall|i: int| 0 <= i < self.objects@.len() ==> obj_wf(#[trigger] self.objects@[i]),
        ensures
            r.inters@ == sort_inters(world_intersections(self.objects@, *ray)),
            sorted_by_t(r.inters@),
    {
        let mut xs: Vec<Intersection> = Vec::new();
        let mut i: usize = 0;
        while i < self.objects.len()
            invariant
                i <= self.objects.len(),
                forall|k: int| 0 <= k < self.objects@.len() ==> obj_wf(#[trigger] self.objects@[k]),
                xs@ == world_intersections(self.objects@.take(i as int), *ray),
            decreases self.objects.len() - i,
        {
            let mut part = ray.intersect(&self.objects[i]);
            xs.append(&mut part);
            proof {
                let taken = self.objects@.take(i as int + 1);
                assert(taken.drop_last() =~= self.objects@.take(i as int));
                assert(taken.last() == self.objects@[i as int]);
            }
            i = i + 1;
        }
        proof {
            assert(self.objects@.take(self.objects@.len() as int) =~= self.objects@);
        }
        Intersections::new(xs)
    }

    /// Check if the point is shadowed by any object in the world
    #[verifier::rlimit(100)]
    pub fn is_shadowed(&self, p: Tuple) -> (r: bool)
        requires
            world_wf(self.objects@, self.lights@),
        ensures
            r == is_shadowed_spec(self.objects@, self.lights@[0], p),
    {
        reveal(is_shadowed_spec);
        let v = self.lights[0].position.sub(p);
        let distance = v.magnitude();
        let direction = v.normalize();
        let r = Ray::new(p, direction);
        let inters = self.intersect(&r);
        if let Option::Some(hit) = inters.hit() {
            hit.t.raw < distance.raw
        } else {
            false
        }
    }

    /// Calculate the shaded colour at a hit
    #[verifier::rlimit(100)]
    pub fn shade_hit(&self, comps: Computations, depth: usize) -> (r: Colour)
        requires
            world_wf(self.objects@, self.lights@),
            obj_wf(comps.object),
        ensures
            r == shade_hit_spec(self.objects@, self.lights@, comps, depth as nat),
        decreases depth, 1int,
    {
        proof {
            lemma_shade_hit_unfold(self.objects@, self.lights@, comps, depth as nat);
        }
        let shadowed = self.is_shadowed(comps.over_point);
        let surface_colour = lighting(
            comps.object,
            self.lights[0],
            comps.point,
            comps.eyev,
            comps.normalv,
            shadowed,
        );
        let reflected_colour = self.reflected_colour(&comps, depth);
        let refracted_colour = self.refracted_colour(comps, depth);
        surface_colour.add(reflected_colour).add(refracted_colour)
    }

    /// Intersect a ray with the world and find the shade if it hits
    #[verifier::rlimit(100)]
    pub fn colour_at(&self, ray: Ray, depth: usize) -> (r: Colour)
        requires
            world_wf(self.objects@, self.lights@),
        ensures
            r == colour_at_spec(self.objects@, self.lights@, ray, depth as nat),
        decreases depth, 2int,
    {
        proof {
            lemma_colour_at_unfold(self.objects@, self.lights@, ray, depth as nat);
        }
        let inters = self.intersect(&ray);
        if let Option::Some(hit) = inters.hit() {
            proof {
                lemma_world_hit_wf(self.objects@, ray);
            }
            let comps = ray.prepare_computations(&hit, inters);
            self.shade_hit(comps, depth)
        } else {
            crate::colour::black()
        }
    }

    /// The colour reflected off a hit surface, one bounce deeper.
    #[verifier::rlimit(100)]
    pub fn reflected_colour(&self, comps: &Computations, depth: usize) -> (r: Colour)
        requires
            world_wf(self.objects@, self.lights@),
        ensures
            r == reflected_colour_spec(self.objects@, self.lights@, *comps, depth as nat),
        decreases depth, 0int,
    {
        proof {
            lemma_reflected_unfold(self.objects@, self.lights@, *comps, depth as nat);
        }
        if depth == 0 {
            crate::colour::black()
        } else if comps.object.material.reflective.raw == 0 {
            crate::colour::black()
        } else {
            let reflected_ray = Ray::new(comps.over_point, comps.reflectv);
            let colour = self.colour_at(reflected_ray, depth - 1);
            colour.mul(comps.object.material.reflective)
        }
    }

    /// The colour carried through a transparent surface, one bounce deeper.
    #[verifier::rlimit(100)]
    pub fn refracted_colour(&self, comps: Computations, depth: usize) -> (r: Colour)
        requires
            world_wf(self.objects@, self.lights@),
        ensures
            r == refracted_colour_spec(self.objects@, self.lights@, comps, depth as nat),
        decreases depth, 0int,
    {
        proof {
            lemma_refracted_unfold(self.objects@, self.lights@, comps, depth as nat);
        }
        let n_ratio = comps.n1.div_total(comps.n2);
        let cos_i = comps.eyev.dot(comps.normalv);
        let sin2_t = n_ratio.mul(n_ratio).mul(Fx::one().sub(cos_i.mul(cos_i)));
        if depth == 0 {
            crate::colour::black()
        } else if comps.object.material.transparency.raw == 0 {
            crate::colour::black()
        } else if sin2_t.raw > SCALE {
            crate::colour::black()
        } else {
            let cos_t = Fx::one().sub(sin2_t).sqrt();
            let direction = comps.normalv.mul(n_ratio.mul(cos_i).sub(cos_t)).sub(
                comps.eyev.mul(n_ratio),
            );
            let refracted_ray = Ray::new(comps.under_point, direction);
            let colour = self.colour_at(refracted_ray, depth - 1);
            colour.mul(comps.object.material.transparency)
        }
    }

    /// Render the world from cam perspective
    #[verifier::rlimit(100)]
    pub fn render(self, cam: Camera) -> (image: Canvas)
        requires
            world_wf(self.objects@, self.lights@),
            camera_wf(cam),
        ensures
            image.wf(),
            image.spec_width() == cam.hsize,
            image.spec_height() == cam.vsize,
            forall|px: int, py: int|
                0 <= px < cam.hsize && 0 <= py < cam.vsize ==> #[trigger] image.spec_pixels()[py
                    * cam.hsize + px] == colour_at_spec(
                    self.objects@,
                    self.lights@,
                    ray_for_pixel_spec(cam, px, py),
                    5,
                ),
    {
        let ghost w = cam.hsize as int;
        let mut image = Canvas::new(cam.hsize, cam.vsize, crate::colour::black());
        let mut x: usize = 0;
        while x < cam.hsize
            invariant
                x <= cam.hsize,
                world_wf(self.objects@, self.lights@),
                camera_wf(cam),
                w == cam.hsize as int,
                image.wf(),
                image.spec_width() == cam.hsize,
                image.spec_height() == cam.vsize,
                forall|px: int, py: int|
                    0 <= px < x && 0 <= py < cam.vsize ==> #[trigger] image.spec_pixels()[py * w
                        + px] == colour_at_spec(
                        self.objects@,
                        self.lights@,
                        ray_for_pixel_spec(cam, px, py),
                        5,
                    ),
            decreases cam.hsize - x,
        {
            let mut y: usize = 0;
            while y < cam.vsize
                invariant
                    x < cam.hsize,
                    y <= cam.vsize,
                    world_wf(self.objects@, self.lights@),
                    camera_wf(cam),
                    w == cam.hsize as int,
                    image.wf(),
                    image.spec_width() == cam.hsize,
                    image.spec_height() == cam.vsize,
                    forall|px: int, py: int|
                        0 <= px < x && 0 <= py < cam.vsize ==> #[trigger] image.spec_pixels()[py
                            * w + px] == colour_at_spec(
                            self.objects@,
                            self.lights@,
                            ray_for_pixel_spec(cam, px, py),
                            5,
                        ),
                    forall|py: int|
                        0 <= py < y ==> #[trigger] image.spec_pixels()[py * w + x as int]
                            == colour_at_spec(
                            self.objects@,
                            self.lights@,
                            ray_for_pixel_spec(cam, x as int, py),
                            5,
                        ),
                decreases cam.vsize - y,
            {
                let r = cam.ray_for_pixel(x, y);
                let colour = self.colour_at(r, 5);
                let ghost before = image.spec_pixels();
                proof {
                    assert(before.len() == w * (cam.vsize as int)) by (nonlinear_arith)
                        requires
                            before.len() == (cam.hsize as int) * (cam.vsize as int),
                            w == cam.hsize as int,
                    ;
                }
                image.write_pixel(x, y, colour);
                proof {
                    let idx = (y as int) * w + (x as int);
                    assert(0 <= (y as int) * w + (x as int) < before.len()) by (nonlinear_arith)
                        requires
                            0 <= (x as int) < w,
                            0 <= (y as int) < (cam.vsize as int),
                            before.len() == w * (cam.vsize as int),
                    ;
                    assert(image.spec_pixels() == before.update(idx, colour));
                    assert forall|px: int, py: int|
                        0 <= px < x && 0 <= py < cam.vsize implies #[trigger] image.spec_pixels()[
                        py * w + px] == colour_at_spec(
                        self.objects@,
                        self.lights@,
                        ray_for_pixel_spec(cam, px, py),
                        5,
                    ) by {
                        lemma_slot_ne(w, px, py, x as int, y as int);
                        assert(0 <= py * w + px < before.len()) by (nonlinear_arith)
                            requires
                                0 <= px < w,
                                0 <= py < cam.vsize as int,
                                before.len() == w * (cam.vsize as int),
                        ;
                        assert(before[py * w + px] == colour_at_spec(
                            self.objects@,
                            self.lights@,
                            ray_for_pixel_spec(cam, px, py),
                            5,
                        ));
                    }
                    assert forall|py: int|
                        0 <= py < y + 1 implies #[trigger] image.spec_pixels()[py * w + x as int]
                        == colour_at_spec(
                        self.objects@,
                        self.lights@,
                        ray_for_pixel_spec(cam, x as int, py),
                        5,
                    ) by {
                        if py < y {
                            lemma_slot_ne(w, x as int, py, x as int, y as int);
                            assert(0 <= py * w + (x as int) < before.len()) by (nonlinear_arith)
                                requires
                                    0 <= (x as int) < w,
                                    0 <= py < (cam.vsize as int),
                                    before.len() == w * (cam.vsize as int),
                            ;
                            assert(before[py * w + x as int] == colour_at_spec(
                                self.objects@,
                                self.lights@,
                                ray_for_pixel_spec(cam, x as int, py),
                                5,
                            ));
                        }
                    }
                }
                y = y + 1;
            }
            proof {
                assert forall|px: int, py: int|
                    0 <= px < x + 1 && 0 <= py < cam.vsize implies #[trigger] image.spec_pixels()[
                    py * w + px] == colour_at_spec(
                    self.objects@,
                    self.lights@,
                    ray_for_pixel_spec(cam, px, py),
                    5,
                ) by {
                    if px == x as int {
                        assert(image.spec_pixels()[py * w + x as int] == colour_at_spec(
                            self.objects@,
                            self.lights@,
                            ray_for_pixel_spec(cam, x as int, py),
                            5,
                        ));
                    }
                }
            }
            x = x + 1;
        }
        image
    }
}

/// Distinct raster coordinates with in-range columns use distinct slots of
/// a row-major buffer.
proof fn lemma_slot_ne(w: int, x1: int, y1: int, x2: int, y2: int)
    requires
        0 <= x1 < w,
        0 <= x2 < w,
        x1 != x2 || y1 != y2,
    ensures
        y1 * w + x1 != y2 * w + x2,
{
    if y1 == y2 {
    } else if y1 > y2 {
        assert(y1 * w - y2 * w >= w) by (nonlinear_arith)
            requires
                y1 - y2 >= 1,
                w >= 1,
        ;
    } else {
        assert(y2 * w - y1 * w >= w) by (nonlinear_arith)
            requires
                y2 - y1 >= 1,
                w >= 1,
        ;
    }
}

/// A well-formed world hit strikes one of the world's objects, so its
/// transform inverts.
proof fn lemma_world_hit_wf(objects: Seq<Object>, r: Ray)
    requires
        forall|i: int| 0 <= i < objects.len() ==> obj_wf(#[trigger] objects[i]),
    ensures
        match world_hit(objects, r) {
            Option::Some(h) => obj_wf(h.object),
            Option::None => true,
        },
{
    lemma_world_intersections_objects(objects, r);
    lemma_sort_keeps_objects(world_intersections(objects, r));
    lemma_hit_in_list(sort_inters(world_intersections(objects, r)));
}

/// Every intersection produced by a world scan carries a well-formed object.
#[verifier::rlimit(100)]
proof fn lemma_world_intersections_objects(objects: Seq<Object>, r: Ray)
    requires
        forall|i: int| 0 <= i < objects.len() ==> obj_wf(#[trigger] objects[i]),
    ensures
        forall|k: int|
            0 <= k < world_intersections(objects, r).len() ==> obj_wf(
                #[trigger] world_intersections(objects, r)[k].object,
            ),
    decreases objects.len(),
{
    if objects.len() > 0 {
        assert(forall|i: int|
            0 <= i < objects.drop_last().len() ==> obj_wf(#[trigger] objects.drop_last()[i]));
        lemma_world_intersections_objects(objects.drop_last(), r);
        let prefix = world_intersections(objects.drop_last(), r);
        let tail = intersect_spec(r, objects.last());
        assert(forall|k: int| 0 <= k < tail.len() ==> tail[k].object == objects.last());
        assert(forall|k: int|
            0 <= k < world_intersections(objects, r).len() ==> world_intersections(objects, r)[k]
                == if k < prefix.len() {
                prefix[k]
            } else {
                tail[k - prefix.len()]
            });
    }
}

/// Sorting keeps a property of every element's object.
proof fn lemma_sort_keeps_objects(s: Seq<Intersection>)
    requires
        forall|k: int| 0 <= k < s.len() ==> obj_wf(#[trigger] s[k].object),
    ensures
        forall|k: int|
            0 <= k < sort_inters(s).len() ==> obj_wf(#[trigger] sort_inters(s)[k].object),
    decreases s.len(),
{
    if s.len() > 0 {
        assert(forall|k: int| 0 <= k < s.drop_last().len() ==> obj_wf(
            #[trigger] s.drop_last()[k].object,
        ));
        lemma_sort_keeps_objects(s.drop_last());
        lemma_insert_keeps_objects(sort_inters(s.drop_last()), s.last());
    }
}

/// Insertion keeps a property of every element's object.
proof fn lemma_insert_keeps_objects(s: Seq<Intersection>, x: Intersection)
    requires
        forall|k: int| 0 <= k < s.len() ==> obj_wf(#[trigger] s[k].object),
        obj_wf(x.object),
    ensures
        forall|k: int|
            0 <= k < crate::ray::insert_sorted(s, x).len() ==> obj_wf(
                #[trigger] crate::ray::insert_sorted(s, x)[k].object,
            ),
    decreases s.len(),
{
    let r = crate::ray::insert_sorted(s, x);
    if s.len() == 0 {
    } else if x.t@ < s[0].t@ {
        assert(forall|k: int| 0 <= k < r.len() ==> r[k] == if k == 0 {
            x
        } else {
            s[k - 1]
        });
    } else {
        assert(forall|k: int|
            0 <= k < s.drop_first().len() ==> obj_wf(#[trigger] s.drop_first()[k].object)) by {
            assert(forall|k: int|
                0 <= k < s.drop_first().len() ==> s.drop_first()[k] == s[k + 1]);
        }
        lemma_insert_keeps_objects(s.drop_first(), x);
        let tail = crate::ray::insert_sorted(s.drop_first(), x);
        assert(forall|k: int| 0 <= k < r.len() ==> r[k] == if k == 0 {
            s[0]
        } else {
            tail[k - 1]
        });
    }
}

/// The hit, where there is one, appears in the list.
proof fn lemma_hit_in_list(s: Seq<Intersection>)
    requires
        forall|k: int| 0 <= k < s.len() ==> obj_wf(#[trigger] s[k].object),
    ensures
        match hit_spec(s) {
            Option::Some(h) => obj_wf(h.object),
            Option::None => true,
        },
    decreases s.len(),
{
    if s.len() > 0 && !(s[0].t@ > 0) {
        assert(forall|k: int|
            0 <= k < s.drop_first().len() ==> obj_wf(#[trigger] s.drop_first()[k].object)) by {
            assert(forall|k: int|
                0 <= k < s.drop_first().len() ==> s.drop_first()[k] == s[k + 1]);
        }
        lemma_hit_in_list(s.drop_first());
    }
}

/// The half-scale matrix of the default world clears the inversion
/// tolerance.
#[verifier::rlimit(100)]
proof fn lemma_half_scale_invertible()
    ensures
        mat4_invertible(scale_spec(549755813888, 549755813888, 549755813888)),
{
    reveal(crate::matrix::det4);
    reveal(crate::matrix::cof4);
    reveal(crate::matrix::minor4);
    reveal(crate::matrix::det3);
    reveal(crate::matrix::cof3);
    reveal(crate::matrix::minor3);
    let h: int = 549755813888;
    let s: int = SCALE as int;
    let m = scale_spec(h, h, h);
    let q = crate::matrix::sub4(m, 0, 0);
    let q2 = crate::matrix::sub3(q, 0, 0);
    assert(q =~= seq![h, 0int, 0int, 0int, h, 0int, 0int, 0int, s]);
    assert(q2 =~= seq![h, 0int, 0int, s]) by {
        assert(q2.len() == 4);
        assert(q2[0] == q[4] && q2[1] == q[5] && q2[2] == q[7] && q2[3] == q[8]);
    }
    vstd::arithmetic::div_mod::lemma_div_multiples_vanish(h, s);
    assert(crate::matrix::det2(q2) == h);
    assert(crate::matrix::cof3(q, 0, 0) == h);
    vstd::arithmetic::div_mod::lemma_div_multiples_vanish(s / 4, s);
    assert(h * h == s * (s / 4));
    assert(crate::matrix::det3(q) == s / 4);
    assert(crate::matrix::cof4(m, 0, 0) == s / 4);
    vstd::arithmetic::div_mod::lemma_div_multiples_vanish(s / 8, s);
    assert(h * (s / 4) == s * (s / 8));
    assert(crate::matrix::det4(m) == s / 8);
}

/// The orientation-and-translation matrix that moves the world in front of
/// an eye at `from` looking toward `to`.
pub open spec fn view_transform_spec(from: Tuple, to: Tuple, up: Tuple) -> Seq<int> {
    let forward = tup_normalize(tup_sub(to, from));
    let upn = tup_normalize(up);
    let left = tup_cross(forward, upn);
    let true_up = tup_cross(left, forward);
    let orientation = Seq::new(16, |i: int| 0int).update(0, left.x@).update(1, left.y@).update(
        2,
        left.z@,
    ).update(4, true_up.x@).update(5, true_up.y@).update(6, true_up.z@).update(
        8,
        crate::fixed::fx_neg(forward.x@),
    ).update(9, crate::fixed::fx_neg(forward.y@)).update(
        10,
        crate::fixed::fx_neg(forward.z@),
    ).update(15, SCALE as int);
    mat4_mul(
        orientation,
        translation_spec(
            crate::fixed::fx_neg(from.x@),
            crate::fixed::fx_neg(from.y@),
            crate::fixed::fx_neg(from.z@),
        ),
    )
}

/// Create a view transformation matrix
pub fn view_transform(from: Tuple, to: Tuple, up: Tuple) -> (r: Matrix4x4)
    ensures
        r@ == view_transform_spec(from, to, up),
{
    let forward = to.sub(from).normalize();
    let upn = up.normalize();
    let left = forward.cross(upn);
    let true_up = left.cross(forward);
    let mut orientation = Matrix4x4::new();
    orientation.write_value(0, 0, left.x);
    orientation.write_value(0, 1, left.y);
    orientation.write_value(0, 2, left.z);
    orientation.write_value(1, 0, true_up.x);
    orientation.write_value(1, 1, true_up.y);
    orientation.write_value(1, 2, true_up.z);
    orientation.write_value(2, 0, forward.x.neg());
    orientation.write_value(2, 1, forward.y.neg());
    orientation.write_value(2, 2, forward.z.neg());
    orientation.write_value(3, 3, Fx::one());
    orientation.times(&translation(from.x.neg(), from.y.neg(), from.z.neg()))
}

/// A pinhole camera: a raster size, a field of view, and a transform that
/// places it in the world.
pub struct Camera {
    pub hsize: usize,
    pub vsize: usize,
    pub fow: Fx,
    pub transform: Matrix4x4,
    pub pixel_size: Fx,
    pub half_width: Fx,
    pub half_height: Fx,
}

/// The half-extents of the view plane and the pixel size they give, derived
/// from the raster shape and the field of view.
pub open spec fn camera_derived(hsize: int, vsize: int, fow: int) -> (int, int, int) {
    let half_view = fx_tan(fx_div(fow, 2 * SCALE as int));
    let aspect = fx_div(hsize * SCALE as int, vsize * SCALE as int);
    let half_width = if aspect >= SCALE {
        half_view
    } else {
        fx_mul(half_view, aspect)
    };
    let half_height = if aspect >= SCALE {
        fx_div(half_view, aspect)
    } else {
        half_view
    };
    let pixel_size = fx_div(fx_mul(half_width, 2 * SCALE as int), hsize * SCALE as int);
    (half_width, half_height, pixel_size)
}

/// What the camera's methods need of it: sensible raster bounds, a derived
/// geometry, and an invertible transform.
pub open spec fn camera_wf(cam: Camera) -> bool {
    1 <= cam.hsize <= 65535 && 1 <= cam.vsize <= 65535 && mat4_invertible(cam.transform@)
        && cam.half_width@ == camera_derived(cam.hsize as int, cam.vsize as int, cam.fow@).0
        && cam.half_height@ == camera_derived(cam.hsize as int, cam.vsize as int, cam.fow@).1
        && cam.pixel_size@ == camera_derived(cam.hsize as int, cam.vsize as int, cam.fow@).2
}

/// The ray through the centre of one pixel, in world space.
pub open spec fn ray_for_pixel_spec(cam: Camera, px: int, py: int) -> Ray {
    let x_offset = fx_mul(px * SCALE as int + SCALE as int / 2, cam.pixel_size@);
    let y_offset = fx_mul(py * SCALE as int + SCALE as int / 2, cam.pixel_size@);
    let world_x = fx_sub(cam.half_width@, x_offset);
    let world_y = fx_sub(cam.half_height@, y_offset);
    let inv = mat4_inverse(cam.transform@);
    let pixel = mat4_apply(
        inv,
        Tuple {
            x: fxv(world_x),
            y: fxv(world_y),
            z: fxv(-(SCALE as int)),
            w: fxv(SCALE as int),
        },
    );
    let origin = mat4_apply(inv, Tuple { x: fxv(0), y: fxv(0), z: fxv(0), w: fxv(SCALE as int) });
    let direction = tup_normalize(tup_sub(pixel, origin));
    Ray { origin, direction }
}

impl Camera {
    /// A camera over an `hsize` by `vsize` raster with the given field of
    /// view, placed at the origin until a transform is assigned.
    pub fn new(hsize: usize, vsize: usize, fow: Fx) -> (r: Camera)
        requires
            1 <= hsize <= 65535,
            1 <= vsize <= 65535,
        ensures
            r.hsize == hsize,
            r.vsize == vsize,
            r.fow == fow,
            r.transform@ == mat4_identity(),
            camera_wf(r),
    {
        let transform = crate::matrix::identity();
        let half_view = fow.div_total(Fx::from_int(2)).tan();
        let aspect = Fx::from_int(hsize as i64).div_total(Fx::from_int(vsize as i64));
        let half_width: Fx;
        let half_height: Fx;
        if aspect.raw >= SCALE {
            half_width = half_view;
            half_height = half_view.div_total(aspect);
        } else {
            half_width = half_view.mul(aspect);
            half_height = half_view;
        }
        let pixel_size = half_width.mul(Fx::from_int(2)).div_total(Fx::from_int(hsize as i64));
        proof {
            crate::shapes::lemma_identity_invertible();
        }
        Camera { hsize, vsize, fow, transform, pixel_size, half_width, half_height }
    }

    /// The world-space ray through the centre of pixel `(px, py)`.
    pub fn ray_for_pixel(&self, px: usize, py: usize) -> (r: Ray)
        requires
            camera_wf(*self),
            px <= 65535,
            py <= 65535,
        ensures
            r == ray_for_pixel_spec(*self, px as int, py as int),
    {
        let half = Fx { raw: SCALE / 2 };
        let x_offset = Fx::from_int(px as i64).add(half).mul(self.pixel_size);
        let y_offset = Fx::from_int(py as i64).add(half).mul(self.pixel_size);
        let world_x = self.half_width.sub(x_offset);
        let world_y = self.half_height.sub(y_offset);
        let inv = self.transform.inverse();
        let pixel = inv.apply(point(world_x, world_y, Fx::from_int(-1)));
        let origin = inv.apply(point(Fx { raw: 0 }, Fx { raw: 0 }, Fx { raw: 0 }));
        let direction = pixel.sub(origin).normalize();
        Ray::new(origin, direction)
    }
}

/// One unfolding of `colour_at_spec`.
#[verifier::rlimit(100)]
proof fn lemma_colour_at_unfold(objects: Seq<Object>, lights: Seq<Light>, r: Ray, depth: nat)
    ensures
        colour_at_spec(objects, lights, r, depth) == {
            let sorted = sort_inters(world_intersections(objects, r));
            match hit_spec(sorted) {
                Option::Some(h) => shade_hit_spec(
                    objects,
                    lights,
                    prepare_computations_spec(r, h, sorted),
                    depth,
                ),
                Option::None => col_of(0, 0, 0),
            }
        },
{
    reveal_with_fuel(colour_at_spec, 2);
    reveal_with_fuel(colour_at_spec, 2);
    reveal_with_fuel(shade_hit_spec, 2);
    reveal_with_fuel(colour_at_spec, 2);
    reveal_with_fuel(shade_hit_spec, 2);
    reveal_with_fuel(reflected_colour_spec, 2);
    reveal_with_fuel(colour_at_spec, 2);
    reveal_with_fuel(shade_hit_spec, 2);
    reveal_with_fuel(reflected_colour_spec, 2);
    reveal_with_fuel(refracted_colour_spec, 2);
    reveal_with_fuel(refracted_colour_spec, 2);
    reveal_with_fuel(reflected_colour_spec, 2);
    reveal_with_fuel(refracted_colour_spec, 2);
    assert(
        colour_at_spec(objects, lights, r, depth) == {
            let sorted = sort_inters(world_intersections(objects, r));
            match hit_spec(sorted) {
                Option::Some(h) => shade_hit_spec(
                    objects,
                    lights,
                    prepare_computations_spec(r, h, sorted),
                    depth,
                ),
                Option::None => col_of(0, 0, 0),
            }
        }
    );
}

/// One unfolding of `shade_hit_spec`.
#[verifier::rlimit(100)]
proof fn lemma_shade_hit_unfold(
    objects: Seq<Object>,
    lights: Seq<Light>,
    comps: Computations,
    depth: nat,
)
    ensures
        shade_hit_spec(objects, lights, comps, depth) == col_add(
            col_add(
                lighting_spec(
                    comps.object,
                    lights[0],
                    comps.point,
                    comps.eyev,
                    comps.normalv,
                    is_shadowed_spec(objects, lights[0], comps.over_point),
                ),
                reflected_colour_spec(objects, lights, comps, depth),
            ),
            refracted_colour_spec(objects, lights, comps, depth),
        ),
{
    reveal_with_fuel(colour_at_spec, 2);
    reveal_with_fuel(shade_hit_spec, 2);
    reveal_with_fuel(reflected_colour_spec, 2);
    reveal_with_fuel(refracted_colour_spec, 2);

}

/// One unfolding of `reflected_colour_spec`.
#[verifier::rlimit(100)]
proof fn lemma_reflected_unfold(
    objects: Seq<Object>,
    lights: Seq<Light>,
    comps: Computations,
    depth: nat,
)
    ensures
        reflected_colour_spec(objects, lights, comps, depth) == if depth == 0 {
            col_of(0, 0, 0)
        } else if comps.object.material.reflective@ == 0 {
            col_of(0, 0, 0)
        } else {
            col_smul(
                colour_at_spec(
                    objects,
                    lights,
                    Ray { origin: comps.over_point, direction: comps.reflectv },
                    (depth - 1) as nat,
                ),
                comps.object.material.reflective@,
            )
        },
{
    reveal_with_fuel(colour_at_spec, 2);
    reveal_with_fuel(shade_hit_spec, 2);
    reveal_with_fuel(reflected_colour_spec, 2);
    reveal_with_fuel(refracted_colour_spec, 2);
    if depth == 0 {
    } else if comps.object.material.reflective@ == 0 {
    } else {
        assert(reflected_colour_spec(objects, lights, comps, depth) == col_smul(
            colour_at_spec(
                objects,
                lights,
                Ray { origin: comps.over_point, direction: comps.reflectv },
                (depth - 1) as nat,
            ),
            comps.object.material.reflective@,
        ));
    }

}

/// One unfolding of `refracted_colour_spec`.
#[verifier::rlimit(100)]
proof fn lemma_refracted_unfold(
    objects: Seq<Object>,
    lights: Seq<Light>,
    comps: Computations,
    depth: nat,
)
    ensures
        refracted_colour_spec(objects, lights, comps, depth) == {
            let n_ratio = fx_div(comps.n1@, comps.n2@);
            let cos_i = tup_dot(comps.eyev, comps.normalv);
            let sin2_t = fx_mul(
                fx_mul(n_ratio, n_ratio),
                fx_sub(SCALE as int, fx_mul(cos_i, cos_i)),
            );
            if depth == 0 {
                col_of(0, 0, 0)
            } else if comps.object.material.transparency@ == 0 {
                col_of(0, 0, 0)
            } else if sin2_t > SCALE {
                col_of(0, 0, 0)
            } else {
                let cos_t = fx_sqrt(fx_sub(SCALE as int, sin2_t));
                let direction = tup_sub(
                    tup_smul(comps.normalv, fx_sub(fx_mul(n_ratio, cos_i), cos_t)),
                    tup_smul(comps.eyev, n_ratio),
                );
                col_smul(
                    colour_at_spec(
                        objects,
                        lights,
                        Ray { origin: comps.under_point, direction },
                        (depth - 1) as nat,
                    ),
                    comps.object.material.transparency@,
                )
            }
        },
{
    reveal_with_fuel(colour_at_spec, 2);
    reveal_with_fuel(shade_hit_spec, 2);
    reveal_with_fuel(reflected_colour_spec, 2);
    reveal_with_fuel(refracted_colour_spec, 2);
    let n_ratio = fx_div(comps.n1@, comps.n2@);
    let cos_i = tup_dot(comps.eyev, comps.normalv);
    let sin2_t = fx_mul(fx_mul(n_ratio, n_ratio), fx_sub(SCALE as int, fx_mul(cos_i, cos_i)));
    if depth == 0 {
    } else if comps.object.material.transparency@ == 0 {
    } else if sin2_t > SCALE {
    } else {
        let cos_t = fx_sqrt(fx_sub(SCALE as int, sin2_t));
        let direction = tup_sub(
            tup_smul(comps.normalv, fx_sub(fx_mul(n_ratio, cos_i), cos_t)),
            tup_smul(comps.eyev, n_ratio),
        );
        assert(refracted_colour_spec(objects, lights, comps, depth) == col_smul(
            colour_at_spec(
                objects,
                lights,
                Ray { origin: comps.under_point, direction },
                (depth - 1) as nat,
            ),
            comps.object.material.transparency@,
        ));
    }

}

} // verus!

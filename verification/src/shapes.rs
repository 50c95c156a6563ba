//! Renderable primitives: a closed set of shape kinds, each defined in a
//! canonical local frame and carried into the world by an owned affine
//! transform, together with its optical material and optional procedural
//! pattern.

use crate::colour::Colour;
use crate::fixed::EPSILON_RAW;
use crate::fixed::Fx;
use crate::fixed::SCALE;
use crate::fixed::fx_add;
use crate::fixed::fx_mul;
use crate::fixed::fx_sub;
use crate::fixed::tdiv;
use crate::fixed::fx_sqrt;
use crate::fixed::fxv;
use crate::fixed::parity;
use crate::matrix::Matrix4x4;
use crate::matrix::identity;
use crate::matrix::mat4_apply;
use crate::matrix::mat4_identity;
use crate::matrix::mat4_inverse;
use crate::matrix::mat4_invertible;
use crate::matrix::mat4_transpose;
use crate::tuple::Tuple;
use crate::tuple::point;
use crate::tuple::tup_normalize;
use crate::tuple::tup_sub;
use core::ops::Add;
use core::ops::Mul;
use core::ops::Sub;
use vstd::prelude::*;

verus! {

/// An enum of all the shapes that can be intersected by a ray.
#[derive(Debug, PartialEq, Eq, Structural, Clone, Copy)]
pub enum Shape {
    Sphere(),
    Test(),
    Plane(),
}

/// The kinds of procedural patterns.
#[derive(Debug, PartialEq, Eq, Structural, Clone, Copy)]
pub enum PatternType {
    Striped(),
    Gradient(),
    Ring(),
    Checkers(),
    Test(),
}

/// A colour-generating spatial pattern with its own local transform.
#[derive(Debug, Clone, Copy)]
pub struct Pattern {
    pub c1: Colour,
    pub c2: Colour,
    pub pattern_type: PatternType,
    pub transformation: Matrix4x4,
}

/// Whether two patterns hold the same colours, kind and transform values.
pub open spec fn pat_eq(a: Pattern, b: Pattern) -> bool {
    a.c1 == b.c1 && a.c2 == b.c2 && a.pattern_type == b.pattern_type && a.transformation@
        == b.transformation@
}

impl PartialEq for Pattern {
    fn eq(&self, other: &Pattern) -> (r: bool) {
        self.c1 == other.c1 && self.c2 == other.c2 && self.pattern_type == other.pattern_type
            && self.transformation == other.transformation
    }
}

impl vstd::std_specs::cmp::PartialEqSpecImpl for Pattern {
    open spec fn obeys_eq_spec() -> bool {
        true
    }

    open spec fn eq_spec(&self, other: &Pattern) -> bool {
        pat_eq(*self, *other)
    }
}

/// The optical properties of a shape
#[derive(Debug, Clone, Copy)]
pub struct Material {
    pub colour: Colour,
    pub ambient: Fx,
    pub diffuse: Fx,
    pub specular: Fx,
    pub shininess: Fx,
    pub pattern: Option<Pattern>,
    pub reflective: Fx,
    pub transparency: Fx,
    pub refractive_index: Fx,
}

/// Whether two materials hold the same values, field for field.
pub open spec fn material_eq(a: Material, b: Material) -> bool {
    a.colour == b.colour && a.ambient == b.ambient && a.diffuse == b.diffuse && a.specular
        == b.specular && a.shininess == b.shininess && a.reflective == b.reflective
        && a.transparency == b.transparency && a.refractive_index == b.refractive_index && match (
    a.pattern,
    b.pattern,
    ) {
        (Option::None, Option::None) => true,
        (Option::Some(p), Option::Some(q)) => pat_eq(p, q),
        _ => false,
    }
}

impl PartialEq for Material {
    fn eq(&self, other: &Material) -> (r: bool) {
        let patterns_match: bool = match (self.pattern, other.pattern) {
            (Option::None, Option::None) => true,
            (Option::Some(p), Option::Some(q)) => p == q,
            _ => false,
        };
        self.colour == other.colour && self.ambient == other.ambient && self.diffuse
            == other.diffuse && self.specular == other.specular && self.shininess
            == other.shininess && self.reflective == other.reflective && self.transparency
            == other.transparency && self.refractive_index == other.refractive_index
            && patterns_match
    }
}

impl vstd::std_specs::cmp::PartialEqSpecImpl for Material {
    open spec fn obeys_eq_spec() -> bool {
        true
    }

    open spec fn eq_spec(&self, other: &Material) -> bool {
        material_eq(*self, *other)
    }
}

impl Material {
    /// Create a new default material
    pub fn new() -> (r: Material)
        ensures
            r == default_material(),
    {
        Material {
            colour: crate::colour::white(),
            ambient: Fx { raw: 109951162778 },
            diffuse: Fx { raw: 989560464998 },
            specular: Fx { raw: 989560464998 },
            shininess: Fx { raw: 219902325555200 },
            pattern: Option::None,
            reflective: Fx { raw: 0 },
            transparency: Fx { raw: 0 },
            refractive_index: Fx { raw: SCALE },
        }
    }
}

/// The default material: white, mostly diffuse, shiny, opaque.
pub open spec fn default_material() -> Material {
    Material {
        colour: crate::colour::col_of(SCALE as int, SCALE as int, SCALE as int),
        ambient: fxv(109951162778),
        diffuse: fxv(989560464998),
        specular: fxv(989560464998),
        shininess: fxv(219902325555200),
        pattern: Option::None,
        reflective: fxv(0),
        transparency: fxv(0),
        refractive_index: fxv(SCALE as int),
    }
}

/// A renderable primitive: a shape with its transform and material.
#[derive(Debug, Clone, Copy)]
pub struct Object {
    pub transform: Matrix4x4,
    pub material: Material,
    pub shape: Shape,
}

/// Whether two objects hold the same values, field for field.
pub open spec fn obj_eq(a: Object, b: Object) -> bool {
    a.transform@ == b.transform@ && material_eq(a.material, b.material) && a.shape == b.shape
}

impl PartialEq for Object {
    fn eq(&self, other: &Object) -> (r: bool) {
        self.transform == other.transform && self.material == other.material && self.shape
            == other.shape
    }
}

impl vstd::std_specs::cmp::PartialEqSpecImpl for Object {
    open spec fn obeys_eq_spec() -> bool {
        true
    }

    open spec fn eq_spec(&self, other: &Object) -> bool {
        obj_eq(*self, *other)
    }
}

/// Whether an object's transforms can be inverted where its methods need it.
pub open spec fn obj_wf(o: Object) -> bool {
    mat4_invertible(o.transform@) && match o.material.pattern {
        Option::Some(p) => mat4_invertible(p.transformation@),
        Option::None => true,
    }
}

/// The local-space normal of a shape at a local point.
pub open spec fn local_normal(shape: Shape, p: Tuple) -> Tuple {
    match shape {
        Shape::Sphere() => tup_sub(p, Tuple { x: fxv(0), y: fxv(0), z: fxv(0), w: fxv(SCALE as int) }),
        Shape::Test() => Tuple { x: fxv(0), y: fxv(0), z: fxv(0), w: fxv(SCALE as int) },
        Shape::Plane() => Tuple { x: fxv(0), y: fxv(SCALE as int), z: fxv(0), w: fxv(SCALE as int) },
    }
}

/// The world-space normal: the local normal carried back by the
/// inverse-transpose, its `w` forced to zero, normalized.
pub open spec fn normal_at_spec(o: Object, world_point: Tuple) -> Tuple {
    let inv = mat4_inverse(o.transform@);
    let object_point = mat4_apply(inv, world_point);
    let object_normal = local_normal(o.shape, object_point);
    let wn = mat4_apply(mat4_transpose(inv), object_normal);
    tup_normalize(Tuple { x: wn.x, y: wn.y, z: wn.z, w: fxv(0) })
}

/// The colour a pattern yields at a point in its own space.
pub open spec fn pattern_colour(p: Pattern, pt: Tuple) -> Colour {
    match p.pattern_type {
        PatternType::Striped() => {
            if (pt.x@ / (SCALE as int)) % 2 > 0 {
                p.c2
            } else {
                p.c1
            }
        },
        PatternType::Gradient() => {
            let distance = crate::colour::col_sub(p.c2, p.c1);
            let fraction = pt.x@ % (SCALE as int);
            crate::colour::col_add(p.c1, crate::colour::col_smul(distance, fraction))
        },
        PatternType::Ring() => {
            let d = fx_sqrt(fx_add(fx_mul(pt.x@, pt.x@), fx_mul(pt.z@, pt.z@)));
            if (d / (SCALE as int)) % 2 == 0 {
                p.c1
            } else {
                p.c2
            }
        },
        PatternType::Checkers() => {
            let kx = fx_add(pt.x@, EPSILON_RAW as int) / (SCALE as int);
            let ky = fx_add(pt.y@, EPSILON_RAW as int) / (SCALE as int);
            let kz = fx_add(pt.z@, EPSILON_RAW as int) / (SCALE as int);
            if (kx + ky + kz) % 2 == 0 {
                p.c1
            } else {
                p.c2
            }
        },
        PatternType::Test() => Colour { red: pt.x, green: pt.y, blue: pt.z },
    }
}

/// The colour an object shows at a world point: its pattern evaluated in
/// pattern space, or the material's flat colour.
pub open spec fn object_pattern_at(o: Object, world_point: Tuple) -> Colour {
    match o.material.pattern {
        Option::Some(p) => {
            let object_point = mat4_apply(mat4_inverse(o.transform@), world_point);
            let pattern_point = mat4_apply(mat4_inverse(p.transformation@), object_point);
            pattern_colour(p, pattern_point)
        },
        Option::None => o.material.colour,
    }
}

impl Object {
    /// Create a test object
    pub fn new() -> (r: Object)
        ensures
            r.transform@ == mat4_identity(),
            r.material == default_material(),
            r.shape == Shape::Test(),
            obj_wf(r),
    {
        let r = Object { transform: identity(), material: Material::new(), shape: Shape::Test() };
        proof {
            lemma_identity_invertible();
        }
        r
    }

    /// Create a new sphere
    pub fn new_sphere() -> (r: Object)
        ensures
            r.transform@ == mat4_identity(),
            r.material == default_material(),
            r.shape == Shape::Sphere(),
            obj_wf(r),
    {
        let r = Object { transform: identity(), material: Material::new(), shape: Shape::Sphere() };
        proof {
            lemma_identity_invertible();
        }
        r
    }

    /// Create a new plane
    pub fn new_plane() -> (r: Object)
        ensures
            r.transform@ == mat4_identity(),
            r.material == default_material(),
            r.shape == Shape::Plane(),
            obj_wf(r),
    {
        let r = Object { transform: identity(), material: Material::new(), shape: Shape::Plane() };
        proof {
            lemma_identity_invertible();
        }
        r
    }

    /// Create a glassy sphere: fully transparent, with a glass-like
    /// refractive index.
    pub fn glass_sphere() -> (r: Object)
        ensures
            r.transform@ == mat4_identity(),
            r.material == (Material {
                transparency: fxv(SCALE as int),
                refractive_index: fxv(1649267441664),
                ..default_material()
            }),
            r.shape == Shape::Sphere(),
            obj_wf(r),
    {
        let mut material = Material::new();
        material.transparency = Fx { raw: SCALE };
        material.refractive_index = Fx { raw: 1649267441664 };
        let r = Object { transform: identity(), material, shape: Shape::Sphere() };
        proof {
            lemma_identity_invertible();
        }
        r
    }

    /// Compute the objects normal at a particular world point
    pub fn normal_at(self, world_point: Tuple) -> (r: Tuple)
        requires
            mat4_invertible(self.transform@),
        ensures
            r == normal_at_spec(self, world_point),
    {
        let inv = self.transform.inverse();
        let object_point = inv.apply(world_point);
        let object_normal: Tuple = match self.shape {
            Shape::Sphere() => object_point.sub(
                point(Fx { raw: 0 }, Fx { raw: 0 }, Fx { raw: 0 }),
            ),
            Shape::Test() => point(Fx { raw: 0 }, Fx { raw: 0 }, Fx { raw: 0 }),
            Shape::Plane() => point(Fx { raw: 0 }, Fx { raw: SCALE }, Fx { raw: 0 }),
        };
        let mut world_normal = inv.transpose().apply(object_normal);
        world_normal.w = Fx { raw: 0 };
        world_normal.normalize()
    }

    /// Compute the pattern colour at the given point
    pub fn pattern_at(&self, world_point: Tuple) -> (r: Colour)
        requires
            obj_wf(*self),
        ensures
            r == object_pattern_at(*self, world_point),
    {
        if let Option::Some(pattern) = self.material.pattern {
            let object_point = self.transform.inverse().apply(world_point);
            let pattern_point = pattern.transformation.inverse().apply(object_point);
            pattern.pattern_at(pattern_point)
        } else {
            self.material.colour
        }
    }
}

/// The identity transform clears the inversion tolerance.
pub proof fn lemma_identity_invertible()
    ensures
        mat4_invertible(mat4_identity()),
{
    reveal(crate::matrix::det4);
    reveal(crate::matrix::cof4);
    reveal(crate::matrix::minor4);
    reveal(crate::matrix::det3);
    reveal(crate::matrix::cof3);
    reveal(crate::matrix::minor3);
    assert(fx_mul(SCALE as int, SCALE as int) == SCALE);
}

impl Default for Object {
    fn default() -> (r: Self)
        ensures
            r.transform@ == mat4_identity(),
            r.material == default_material(),
            r.shape == Shape::Test(),
    {
        Self::new()
    }
}

impl Pattern {
    pub fn new_striped(c1: Colour, c2: Colour) -> (r: Pattern)
        ensures
            r.c1 == c1,
            r.c2 == c2,
            r.pattern_type == PatternType::Striped(),
            r.transformation@ == mat4_identity(),
    {
        Pattern { c1, c2, pattern_type: PatternType::Striped(), transformation: identity() }
    }

    pub fn new_gradient(c1: Colour, c2: Colour) -> (r: Pattern)
        ensures
            r.c1 == c1,
            r.c2 == c2,
            r.pattern_type == PatternType::Gradient(),
            r.transformation@ == mat4_identity(),
    {
        Pattern { c1, c2, pattern_type: PatternType::Gradient(), transformation: identity() }
    }

    pub fn new_ring(c1: Colour, c2: Colour) -> (r: Pattern)
        ensures
            r.c1 == c1,
            r.c2 == c2,
            r.pattern_type == PatternType::Ring(),
            r.transformation@ == mat4_identity(),
    {
        Pattern { c1, c2, pattern_type: PatternType::Ring(), transformation: identity() }
    }

    pub fn new_checkers(c1: Colour, c2: Colour) -> (r: Pattern)
        ensures
            r.c1 == c1,
            r.c2 == c2,
            r.pattern_type == PatternType::Checkers(),
            r.transformation@ == mat4_identity(),
    {
        Pattern { c1, c2, pattern_type: PatternType::Checkers(), transformation: identity() }
    }

    /// A pattern that reports the point it was asked about, as a colour;
    /// useful for exercising the pattern plumbing.
    pub fn new_test() -> (r: Pattern)
        ensures
            r.c1 == crate::colour::col_of(SCALE as int, SCALE as int, SCALE as int),
            r.c2 == crate::colour::col_of(0, 0, 0),
            r.pattern_type == PatternType::Test(),
            r.transformation@ == mat4_identity(),
    {
        Pattern {
            c1: crate::colour::white(),
            c2: crate::colour::black(),
            pattern_type: PatternType::Test(),
            transformation: identity(),
        }
    }

    /// The pattern's colour at a point already in pattern space.
    pub fn pattern_at(&self, pt: Tuple) -> (r: Colour)
        ensures
            r == pattern_colour(*self, pt),
    {
        match self.pattern_type {
            PatternType::Striped() => {
                let k: i64 = pt.x.floor_int();
                if parity(k) > 0 {
                    self.c2
                } else {
                    self.c1
                }
            },
            PatternType::Gradient() => {
                let distance = self.c2.sub(self.c1);
                let fraction = pt.x.fract();
                self.c1.add(distance.mul(fraction))
            },
            PatternType::Ring() => {
                let d = pt.x.mul(pt.x).add(pt.z.mul(pt.z)).sqrt();
                let k: i64 = d.floor_int();
                if parity(k) == 0 {
                    self.c1
                } else {
                    self.c2
                }
            },
            PatternType::Checkers() => {
                let eps = Fx { raw: EPSILON_RAW };
                let kx: i64 = pt.x.add(eps).floor_int();
                let ky: i64 = pt.y.add(eps).floor_int();
                let kz: i64 = pt.z.add(eps).floor_int();
                if parity(kx + ky + kz) == 0 {
                    self.c1
                } else {
                    self.c2
                }
            },
            PatternType::Test() => Colour { red: pt.x, green: pt.y, blue: pt.z },
        }
    }
}

/// Pattern evaluation is pure: two evaluations at the same world point,
/// with the object unchanged in between, yield the same colour.
pub proof fn lemma_pattern_at_idempotent(o: Object, p: Tuple, c1: Colour, c2: Colour)
    requires
        c1 == object_pattern_at(o, p),
        c2 == object_pattern_at(o, p),
    ensures
        c1 == c2,
{
}

/// On an untransformed sphere, the surface normal at a point is that point
/// minus the origin, normalized.
#[verifier::rlimit(100)]
pub proof fn lemma_default_sphere_normal(o: Object, p: Tuple)
    requires
        o.shape == Shape::Sphere(),
        o.transform@ == mat4_identity(),
        p.w@ == SCALE,
    ensures
        normal_at_spec(o, p) == tup_normalize(
            tup_sub(p, Tuple { x: fxv(0), y: fxv(0), z: fxv(0), w: fxv(SCALE as int) }),
        ),
{
    lemma_identity_inverse();
    lemma_identity_transpose();
    let inv = mat4_inverse(o.transform@);
    assert(inv == mat4_identity());
    lemma_identity_apply(p);
    let object_point = mat4_apply(inv, p);
    assert(object_point == p);
    let object_normal = local_normal(o.shape, object_point);
    lemma_identity_apply(object_normal);
    let wn = mat4_apply(mat4_transpose(inv), object_normal);
    assert(wn == object_normal);
    assert(Tuple { x: wn.x, y: wn.y, z: wn.z, w: fxv(0) } == tup_sub(
        p,
        Tuple { x: fxv(0), y: fxv(0), z: fxv(0), w: fxv(SCALE as int) },
    )) by {
        assert(fx_sub(p.w@, SCALE as int) == 0);
        assert(wn.x == object_normal.x && wn.y == object_normal.y && wn.z == object_normal.z);
        assert(object_normal == tup_sub(
            p,
            Tuple { x: fxv(0), y: fxv(0), z: fxv(0), w: fxv(SCALE as int) },
        ));
        assert(fxv(fx_sub(p.x@, 0)) == p.x) by {
            assert(fx_sub(p.x@, 0) == p.x@);
        }
    }
}

/// The identity transform is its own inverse.
pub proof fn lemma_identity_inverse()
    ensures
        mat4_inverse(mat4_identity()) == mat4_identity(),
{
    reveal(crate::matrix::mat4_inverse);
    reveal(crate::matrix::det4);
    reveal(crate::matrix::cof4);
    reveal(crate::matrix::minor4);
    reveal(crate::matrix::det3);
    reveal(crate::matrix::cof3);
    reveal(crate::matrix::minor3);
    vstd::arithmetic::div_mod::lemma_div_multiples_vanish(SCALE as int, SCALE as int);
    assert(mat4_inverse(mat4_identity()) =~= mat4_identity());
}

/// Transposing the identity leaves it unchanged.
pub proof fn lemma_identity_transpose()
    ensures
        mat4_transpose(mat4_identity()) == mat4_identity(),
{
    assert(mat4_transpose(mat4_identity()) =~= mat4_identity());
}

/// The identity transform maps every tuple to itself.
pub proof fn lemma_identity_apply(t: Tuple)
    ensures
        mat4_apply(mat4_identity(), t) == t,
{
    vstd::arithmetic::div_mod::lemma_div_multiples_vanish(t.x@, SCALE as int);
    vstd::arithmetic::div_mod::lemma_div_multiples_vanish(t.y@, SCALE as int);
    vstd::arithmetic::div_mod::lemma_div_multiples_vanish(t.z@, SCALE as int);
    vstd::arithmetic::div_mod::lemma_div_multiples_vanish(t.w@, SCALE as int);
    assert(fx_mul(SCALE as int, t.x@) == t.x@) by {
        assert((SCALE as int) * t.x@ == t.x@ * (SCALE as int)) by (nonlinear_arith);
        if t.x@ >= 0 {
        } else {
            assert(tdiv((SCALE as int) * t.x@, SCALE as int) == t.x@) by {
                vstd::arithmetic::div_mod::lemma_div_multiples_vanish(-t.x@, SCALE as int);
                assert(-((SCALE as int) * t.x@) == (SCALE as int) * (-t.x@)) by (nonlinear_arith);
            }
        }
    }
    assert(fx_mul(SCALE as int, t.y@) == t.y@) by {
        lemma_scale_mul(t.y@);
    }
    assert(fx_mul(SCALE as int, t.z@) == t.z@) by {
        lemma_scale_mul(t.z@);
    }
    assert(fx_mul(SCALE as int, t.w@) == t.w@) by {
        lemma_scale_mul(t.w@);
    }
    lemma_zero_mul(t.x@);
    lemma_zero_mul(t.y@);
    lemma_zero_mul(t.z@);
    lemma_zero_mul(t.w@);
    assert(mat4_apply(mat4_identity(), t).x == t.x);
    assert(mat4_apply(mat4_identity(), t).y == t.y);
    assert(mat4_apply(mat4_identity(), t).z == t.z);
    assert(mat4_apply(mat4_identity(), t).w == t.w);
}

/// Multiplying a scalar by zero gives zero.
pub proof fn lemma_zero_mul(x: int)
    ensures
        fx_mul(0, x) == 0,
{
    assert(0 * x == 0) by (nonlinear_arith);
    vstd::arithmetic::div_mod::lemma_div_of0(SCALE as int);
}

/// Multiplying a scalar by one gives the scalar back.
pub proof fn lemma_scale_mul(x: int)
    requires
        i64::MIN <= x <= i64::MAX,
    ensures
        fx_mul(SCALE as int, x) == x,
{
    if x >= 0 {
        vstd::arithmetic::div_mod::lemma_div_multiples_vanish(x, SCALE as int);
        assert((SCALE as int) * x == x * (SCALE as int)) by (nonlinear_arith);
    } else {
        vstd::arithmetic::div_mod::lemma_div_multiples_vanish(-x, SCALE as int);
        assert(-((SCALE as int) * x) == (SCALE as int) * (-x)) by (nonlinear_arith);
    }
}

} // verus!

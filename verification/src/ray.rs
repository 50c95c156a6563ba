//! Rays, ray-shape intersections, and the Phong lighting model.
//!
//! A ray is cast in world space, carried into each object's local frame by
//! the inverse transform, and intersected there.  Intersection lists are
//! kept sorted ascending by `t`; `hit` picks the first strictly positive
//! entry, the nearest visible surface.

use crate::colour::Colour;
use crate::colour::col_add;
use crate::colour::col_mul;
use crate::colour::col_of;
use crate::colour::col_smul;
use crate::fixed::EPSILON_RAW;
use crate::fixed::Fx;
use crate::fixed::SCALE;
use crate::fixed::fx_abs;
use crate::fixed::fx_add;
use crate::fixed::fx_div;
use crate::fixed::fx_mul;
use crate::fixed::fx_neg;
use crate::fixed::fx_pow;
use crate::fixed::fx_sqrt;
use crate::fixed::fx_sub;
use crate::fixed::is_sqrt_floor;
use crate::fixed::sqrt_floor;
use crate::fixed::tdiv;
use crate::fixed::fxv;
use crate::matrix::Matrix4x4;
use crate::matrix::mat4_apply;
use crate::matrix::mat4_inverse;
use crate::matrix::mat4_invertible;
use crate::shapes::Object;
use crate::shapes::Shape;
use crate::shapes::obj_eq;
use crate::shapes::normal_at_spec;
use crate::shapes::obj_wf;
use crate::shapes::object_pattern_at;
use crate::tuple::Tuple;
use crate::tuple::point;
use crate::tuple::tup_add;
use crate::tuple::tup_dot;
use crate::tuple::tup_neg;
use crate::tuple::tup_normalize;
use crate::tuple::tup_reflect;
use crate::tuple::tup_smul;
use crate::tuple::tup_sub;
use core::ops::Add;
use core::ops::Mul;
use core::ops::Neg;
use core::ops::Sub;
use vstd::prelude::*;

verus! {

/// A ray.
#[derive(Debug, Clone, Copy, PartialEq, Eq, Structural)]
pub struct Ray {
    pub origin: Tuple,
    pub direction: Tuple,
}

/// The point a ray reaches after parameter `t`.
pub open spec fn ray_position(r: Ray, t: int) -> Tuple {
    tup_add(r.origin, tup_smul(r.direction, t))
}

/// A ray carried through a transform: both origin and direction mapped.
pub open spec fn ray_transform(r: Ray, m: Seq<int>) -> Ray {
    Ray { origin: mat4_apply(m, r.origin), direction: mat4_apply(m, r.direction) }
}

/// An intersection between a ray and a shape.
#[derive(Clone, Copy, Debug)]
pub struct Intersection {
    pub t: Fx,
    pub object: Object,
}

impl Intersection {
    /// Create a new intersection with the given t and shape.
    pub fn new(t: Fx, object: Object) -> (r: Intersection)
        ensures
            r == (Intersection { t, object }),
    {
        Intersection { t, object }
    }
}

impl PartialEq for Intersection {
    /// Intersections compare by `t` alone: two hits at the same parameter
    /// are the same hit, whatever object they strike.
    fn eq(&self, other: &Intersection) -> (r: bool) {
        self.t.raw == other.t.raw
    }
}

impl vstd::std_specs::cmp::PartialEqSpecImpl for Intersection {
    open spec fn obeys_eq_spec() -> bool {
        true
    }

    open spec fn eq_spec(&self, other: &Intersection) -> bool {
        self.t@ == other.t@
    }
}

/// The quadratic roots of a ray against the unit sphere, in local space.
pub open spec fn sphere_intersect_spec(tr: Ray, o: Object) -> Seq<Intersection> {
    let oc = tup_sub(tr.origin, Tuple { x: fxv(0), y: fxv(0), z: fxv(0), w: fxv(SCALE as int) });
    let a = tup_dot(tr.direction, tr.direction);
    let b = fx_mul(2 * SCALE as int, tup_dot(tr.direction, oc));
    let c = fx_sub(tup_dot(oc, oc), SCALE as int);
    let disc = fx_sub(fx_mul(b, b), fx_mul(fx_mul(4 * SCALE as int, a), c));
    if disc < 0 {
        Seq::empty()
    } else {
        let sq = fx_sqrt(disc);
        let t1 = fx_div(fx_sub(fx_neg(b), sq), fx_mul(2 * SCALE as int, a));
        let t2 = fx_div(fx_add(fx_neg(b), sq), fx_mul(2 * SCALE as int, a));
        seq![
            Intersection { t: fxv(t1), object: o },
            Intersection { t: fxv(t2), object: o },
        ]
    }
}

/// The single root of a ray against the local xz-plane, or nothing for a
/// ray parallel to it.
pub open spec fn plane_intersect_spec(tr: Ray, o: Object) -> Seq<Intersection> {
    if fx_abs(tr.direction.y@) < EPSILON_RAW {
        Seq::empty()
    } else {
        let t = fx_div(fx_neg(tr.origin.y@), tr.direction.y@);
        seq![Intersection { t: fxv(t), object: o }]
    }
}

/// The list of intersections of a ray with one object, found in the
/// object's local frame.
pub open spec fn intersect_spec(r: Ray, o: Object) -> Seq<Intersection> {
    let tr = ray_transform(r, mat4_inverse(o.transform@));
    match o.shape {
        Shape::Sphere() => sphere_intersect_spec(tr, o),
        Shape::Test() => Seq::empty(),
        Shape::Plane() => plane_intersect_spec(tr, o),
    }
}

/// The sphere roots of an already-transformed ray.
fn intersect_sphere(tr: &Ray, object: &Object) -> (r: Vec<Intersection>)
    ensures
        r@ == sphere_intersect_spec(*tr, *object),
{
    let origin_to_center = tr.origin.sub(point(Fx { raw: 0 }, Fx { raw: 0 }, Fx { raw: 0 }));
    let a = tr.direction.dot(tr.direction);
    let b = Fx::from_int(2).mul(tr.direction.dot(origin_to_center));
    let c = origin_to_center.dot(origin_to_center).sub(Fx::one());
    let discriminant = b.mul(b).sub(Fx::from_int(4).mul(a).mul(c));
    let mut out: Vec<Intersection> = Vec::new();
    if discriminant.raw < 0 {
        proof {
            assert(out@ =~= sphere_intersect_spec(*tr, *object));
        }
        return out;
    }
    let sq = discriminant.sqrt();
    let t1 = b.neg().sub(sq).div_total(Fx::from_int(2).mul(a));
    let t2 = b.neg().add(sq).div_total(Fx::from_int(2).mul(a));
    out.push(Intersection::new(t1, *object));
    out.push(Intersection::new(t2, *object));
    proof {
        assert(out@ =~= sphere_intersect_spec(*tr, *object));
    }
    out
}

/// The plane root of an already-transformed ray.
fn intersect_plane(tr: &Ray, object: &Object) -> (r: Vec<Intersection>)
    ensures
        r@ == plane_intersect_spec(*tr, *object),
{
    let mut out: Vec<Intersection> = Vec::new();
    if tr.direction.y.abs().raw < EPSILON_RAW {
        proof {
            assert(out@ =~= plane_intersect_spec(*tr, *object));
        }
        out
    } else {
        let t = tr.origin.y.neg().div_total(tr.direction.y);
        out.push(Intersection::new(t, *object));
        proof {
            assert(out@ =~= plane_intersect_spec(*tr, *object));
        }
        out
    }
}

impl Ray {
    /// Create a new ray with the given origin and direction.
    pub fn new(origin: Tuple, direction: Tuple) -> (r: Ray)
        ensures
            r == (Ray { origin, direction }),
    {
        Ray { origin, direction }
    }

    /// Calculate the position of the ray at the given time.
    pub fn position(&self, t: Fx) -> (r: Tuple)
        ensures
            r == ray_position(*self, t@),
    {
        self.origin.add(self.direction.mul(t))
    }

    /// Transform the ray by a 4x4 matrix.
    pub fn transform(&self, m: Matrix4x4) -> (r: Ray)
        ensures
            r == ray_transform(*self, m@),
    {
        let p = m.apply(self.origin);
        let d = m.apply(self.direction);
        Ray::new(p, d)
    }

    /// Calculate the intersections between the ray and the given shape.
    pub fn intersect(&self, object: &Object) -> (r: Vec<Intersection>)
        requires
            mat4_invertible(object.transform@),
        ensures
            r@ == intersect_spec(*self, *object),
    {
        let transformed_ray = self.transform(object.transform.inverse());
        match object.shape {
            Shape::Sphere() => intersect_sphere(&transformed_ray, object),
            Shape::Test() => Vec::new(),
            Shape::Plane() => intersect_plane(&transformed_ray, object),
        }
    }
}

/// Monotonicity of truncated division in the numerator, for a positive
/// divisor.
proof fn lemma_tdiv_monotone(a: int, b: int, d: int)
    requires
        a <= b,
        d > 0,
    ensures
        tdiv(a, d) <= tdiv(b, d),
{
    if a >= 0 {
        vstd::arithmetic::div_mod::lemma_div_is_ordered(a, b, d);
    } else if b < 0 {
        vstd::arithmetic::div_mod::lemma_div_is_ordered(-b, -a, d);
    } else {
        vstd::arithmetic::div_mod::lemma_div_pos_is_pos(-a, d);
        vstd::arithmetic::div_mod::lemma_div_pos_is_pos(b, d);
    }
}

/// A sphere's two roots come out ordered: the first is never beyond the
/// second, whatever ray was cast.
pub proof fn lemma_sphere_roots_ordered(tr: Ray, o: Object)
    requires
        sphere_intersect_spec(tr, o).len() == 2,
    ensures
        sphere_intersect_spec(tr, o)[0].t@ <= sphere_intersect_spec(tr, o)[1].t@,
{
    let oc = tup_sub(tr.origin, Tuple { x: fxv(0), y: fxv(0), z: fxv(0), w: fxv(SCALE as int) });
    let a = tup_dot(tr.direction, tr.direction);
    let b = fx_mul(2 * SCALE as int, tup_dot(tr.direction, oc));
    let c = fx_sub(tup_dot(oc, oc), SCALE as int);
    let disc = fx_sub(fx_mul(b, b), fx_mul(fx_mul(4 * SCALE as int, a), c));
    let sq = fx_sqrt(disc);
    if disc > 0 {
        assert(disc * SCALE >= 0) by (nonlinear_arith)
            requires
                disc > 0,
                SCALE > 0,
        ;
        lemma_sqrt_floor_exists(disc * SCALE);
    }
    assert(sq >= 0);
    let num1 = fx_sub(fx_neg(b), sq);
    let num2 = fx_add(fx_neg(b), sq);
    assert(num1 <= num2);
    let den = fx_mul(2 * SCALE as int, a);
    lemma_dot_self_nonneg(tr.direction);
    assert(den >= 0) by {
        assert(2 * SCALE as int * a >= 0) by (nonlinear_arith)
            requires
                a >= 0,
                SCALE > 0,
        ;
        lemma_tdiv_monotone(0, 2 * SCALE as int * a, SCALE as int);
    }
    if den == 0 {
    } else {
        lemma_tdiv_monotone(num1 * SCALE, num2 * SCALE, den);
        assert(num1 * SCALE <= num2 * SCALE) by (nonlinear_arith)
            requires
                num1 <= num2,
                SCALE > 0,
        ;
    }
}

/// The dot product of a tuple with itself is never negative.
pub proof fn lemma_dot_self_nonneg(v: Tuple)
    ensures
        tup_dot(v, v) >= 0,
{
    lemma_square_term_nonneg(v.x@);
    lemma_square_term_nonneg(v.y@);
    lemma_square_term_nonneg(v.z@);
    lemma_square_term_nonneg(v.w@);
}

/// A squared scalar term is never negative.
proof fn lemma_square_term_nonneg(x: int)
    ensures
        fx_mul(x, x) >= 0,
{
    assert(x * x >= 0) by (nonlinear_arith);
    lemma_tdiv_monotone(0, x * x, SCALE as int);
}

/// A non-negative integer always has a floor square root.
proof fn lemma_sqrt_floor_exists(x: int)
    requires
        x >= 0,
    ensures
        exists|r: int| #[trigger] is_sqrt_floor(x, r),
        sqrt_floor(x) >= 0,
    decreases x,
{
    if x == 0 {
        assert(is_sqrt_floor(0, 0));
    } else {
        lemma_sqrt_floor_exists(x - 1);
        let r = choose|r: int| #[trigger] is_sqrt_floor(x - 1, r);
        if (r + 1) * (r + 1) > x {
            assert(is_sqrt_floor(x, r));
        } else {
            assert(is_sqrt_floor(x, r + 1)) by (nonlinear_arith)
                requires
                    is_sqrt_floor(x - 1, r),
                    (r + 1) * (r + 1) <= x,
            ;
        }
        let w = choose|s: int| #[trigger] is_sqrt_floor(x, s);
        assert(is_sqrt_floor(x, w));
    }
}

/// Whether a list of intersections is ordered by ascending `t`.
pub open spec fn sorted_by_t(s: Seq<Intersection>) -> bool {
    forall|i: int, j: int| 0 <= i < j < s.len() ==> s[i].t@ <= s[j].t@
}

/// `x` placed before the first entry with a strictly larger `t`, so equal
/// parameters keep their standing order.
pub open spec fn insert_sorted(s: Seq<Intersection>, x: Intersection) -> Seq<Intersection>
    decreases s.len(),
{
    if s.len() == 0 {
        seq![x]
    } else if x.t@ < s[0].t@ {
        seq![x] + s
    } else {
        seq![s[0]] + insert_sorted(s.drop_first(), x)
    }
}

/// Stable insertion sort by `t`.
pub open spec fn sort_inters(s: Seq<Intersection>) -> Seq<Intersection>
    decreases s.len(),
{
    if s.len() == 0 {
        Seq::empty()
    } else {
        insert_sorted(sort_inters(s.drop_last()), s.last())
    }
}

/// The first intersection with a strictly positive `t`, in list order.
pub open spec fn hit_spec(s: Seq<Intersection>) -> Option<Intersection>
    decreases s.len(),
{
    if s.len() == 0 {
        Option::None
    } else if s[0].t@ > 0 {
        Option::Some(s[0])
    } else {
        hit_spec(s.drop_first())
    }
}

/// Inserting into a sorted list at the first strictly-larger entry matches
/// the recursive insertion.
proof fn lemma_insert_sorted_at(s: Seq<Intersection>, x: Intersection, j: int)
    requires
        0 <= j <= s.len(),
        forall|i: int| 0 <= i < j ==> !(x.t@ < s[i].t@),
        j < s.len() ==> x.t@ < s[j].t@,
    ensures
        insert_sorted(s, x) == s.take(j) + seq![x] + s.skip(j),
    decreases s.len(),
{
    if s.len() == 0 {
        assert(insert_sorted(s, x) =~= s.take(j) + seq![x] + s.skip(j));
    } else if j == 0 {
        assert(insert_sorted(s, x) =~= s.take(0) + seq![x] + s.skip(0));
    } else {
        assert(!(x.t@ < s[0].t@));
        lemma_insert_sorted_at(s.drop_first(), x, j - 1);
        assert(insert_sorted(s, x) == seq![s[0]] + insert_sorted(s.drop_first(), x));
        assert(seq![s[0]] + (s.drop_first().take(j - 1) + seq![x] + s.drop_first().skip(j - 1))
            =~= s.take(j) + seq![x] + s.skip(j));
    }
}

/// Insertion keeps a list sorted.
proof fn lemma_insert_sorted_keeps_sorted(s: Seq<Intersection>, x: Intersection)
    requires
        sorted_by_t(s),
    ensures
        sorted_by_t(insert_sorted(s, x)),
    decreases s.len(),
{
    if s.len() == 0 {
    } else if x.t@ < s[0].t@ {
        assert forall|i: int, j: int|
            0 <= i < j < insert_sorted(s, x).len() implies insert_sorted(s, x)[i].t@
            <= insert_sorted(s, x)[j].t@ by {
            let r = seq![x] + s;
            assert(insert_sorted(s, x) == r);
            if i > 0 {
                assert(r[i] == s[i - 1] && r[j] == s[j - 1]);
            }
        }
    } else {
        assert(sorted_by_t(s.drop_first())) by {
            assert forall|i: int, j: int|
                0 <= i < j < s.drop_first().len() implies s.drop_first()[i].t@
                <= s.drop_first()[j].t@ by {
                assert(s.drop_first()[i] == s[i + 1] && s.drop_first()[j] == s[j + 1]);
            }
        }
        lemma_insert_sorted_keeps_sorted(s.drop_first(), x);
        let tail = insert_sorted(s.drop_first(), x);
        let r = seq![s[0]] + tail;
        assert(insert_sorted(s, x) == r);
        assert forall|i: int, j: int| 0 <= i < j < r.len() implies r[i].t@ <= r[j].t@ by {
            if i == 0 {
                assert(r[0] == s[0]);
                assert(r[j] == tail[j - 1]);
                lemma_insert_sorted_low_bound(s.drop_first(), x, s[0].t@, j - 1);
            } else {
                assert(r[i] == tail[i - 1] && r[j] == tail[j - 1]);
            }
        }
    }
}

/// A lower bound on every entry survives insertion of a value that also
/// clears it.
proof fn lemma_insert_sorted_low_bound(s: Seq<Intersection>, x: Intersection, lo: int, k: int)
    requires
        !(x.t@ < lo),
        forall|i: int| 0 <= i < s.len() ==> lo <= s[i].t@,
        0 <= k < insert_sorted(s, x).len(),
    ensures
        lo <= insert_sorted(s, x)[k].t@,
    decreases s.len(),
{
    if s.len() == 0 {
    } else if x.t@ < s[0].t@ {
    } else {
        if k > 0 {
            assert(forall|i: int|
                0 <= i < s.drop_first().len() ==> lo <= s.drop_first()[i].t@) by {
                assert(forall|i: int|
                    0 <= i < s.drop_first().len() ==> s.drop_first()[i] == s[i + 1]);
            }
            lemma_insert_sorted_low_bound(s.drop_first(), x, lo, k - 1);
        }
    }
}

/// The sort output is sorted.
pub proof fn lemma_sort_inters_sorted(s: Seq<Intersection>)
    ensures
        sorted_by_t(sort_inters(s)),
    decreases s.len(),
{
    if s.len() > 0 {
        lemma_sort_inters_sorted(s.drop_last());
        lemma_insert_sorted_keeps_sorted(sort_inters(s.drop_last()), s.last());
    }
}

/// A collection of intersections.
#[derive(Debug)]
pub struct Intersections {
    pub inters: Vec<Intersection>,
}

impl Intersections {
    /// Create a new collection of intersections, sorted ascending by `t`.
    pub fn new(inters: Vec<Intersection>) -> (r: Intersections)
        ensures
            r.inters@ == sort_inters(inters@),
            sorted_by_t(r.inters@),
    {
        let mut sorted: Vec<Intersection> = Vec::new();
        let mut k: usize = 0;
        while k < inters.len()
            invariant
                k <= inters.len(),
                sorted@ == sort_inters(inters@.take(k as int)),
                sorted_by_t(sorted@),
            decreases inters.len() - k,
        {
            let x = inters[k];
            let mut j: usize = 0;
            while j < sorted.len() && !(x.t.raw < sorted[j].t.raw)
                invariant
                    j <= sorted.len(),
                    forall|i: int| 0 <= i < j ==> !(x.t@ < sorted@[i].t@),
                decreases sorted.len() - j,
            {
                j = j + 1;
            }
            proof {
                lemma_insert_sorted_at(sorted@, x, j as int);
                lemma_insert_sorted_keeps_sorted(sorted@, x);
                assert(inters@.take(k as int).push(x) =~= inters@.take(k as int + 1));
                assert(sort_inters(inters@.take(k as int + 1)) == insert_sorted(
                    sort_inters(inters@.take(k as int + 1).drop_last()),
                    inters@.take(k as int + 1).last(),
                ));
                assert(inters@.take(k as int + 1).drop_last() =~= inters@.take(k as int));
                assert(insert_sorted(sorted@, x) == sorted@.take(j as int) + seq![x]
                    + sorted@.skip(j as int));
                assert(sorted@.insert(j as int, x) =~= sorted@.take(j as int) + seq![x]
                    + sorted@.skip(j as int));
            }
            sorted.insert(j, x);
            k = k + 1;
        }
        proof {
            assert(inters@.take(inters@.len() as int) =~= inters@);
        }
        Intersections { inters: sorted }
    }

    /// Return the closest intersection that is not behind the ray.
    pub fn hit(&self) -> (r: Option<Intersection>)
        ensures
            r == hit_spec(self.inters@),
    {
        let mut i: usize = 0;
        proof {
            assert(self.inters@.skip(0) =~= self.inters@);
        }
        while i < self.inters.len()
            invariant
                i <= self.inters.len(),
                hit_spec(self.inters@) == hit_spec(self.inters@.skip(i as int)),
                forall|j: int| 0 <= j < i ==> self.inters@[j].t@ <= 0,
            decreases self.inters.len() - i,
        {
            let x = self.inters[i];
            proof {
                assert(self.inters@.skip(i as int)[0] == self.inters@[i as int]);
            }
            if x.t.raw > 0 {
                return Option::Some(x);
            }
            proof {
                assert(self.inters@.skip(i as int).drop_first() =~= self.inters@.skip(
                    i as int + 1,
                ));
            }
            i = i + 1;
        }
        proof {
            assert(self.inters@.skip(i as int) =~= Seq::<Intersection>::empty());
        }
        Option::None
    }
}

/// On a sorted list, the hit is a positive intersection no farther than any
/// other positive one; where no entry is positive there is no hit.
pub proof fn lemma_hit_selects_lowest_positive(s: Seq<Intersection>)
    requires
        sorted_by_t(s),
    ensures
        match hit_spec(s) {
            Option::Some(h) => h.t@ > 0 && (exists|i: int| 0 <= i < s.len() && s[i] == h) && (
            forall|j: int| 0 <= j < s.len() && s[j].t@ > 0 ==> h.t@ <= s[j].t@),
            Option::None => forall|j: int| 0 <= j < s.len() ==> s[j].t@ <= 0,
        },
    decreases s.len(),
{
    if s.len() == 0 {
    } else if s[0].t@ > 0 {
        assert(s[0] == s[0] && 0 < s.len());
    } else {
        let tail = s.drop_first();
        assert(sorted_by_t(tail)) by {
            assert(forall|i: int| 0 <= i < tail.len() ==> tail[i] == s[i + 1]);
        }
        lemma_hit_selects_lowest_positive(tail);
        assert(forall|i: int| 0 <= i < tail.len() ==> tail[i] == s[i + 1]);
        assert(hit_spec(s) == hit_spec(tail));
        match hit_spec(tail) {
            Option::Some(h) => {
                let i = choose|i: int| 0 <= i < tail.len() && tail[i] == h;
                assert(s[i + 1] == h);
                assert(0 <= i + 1 < s.len() && s[i + 1] == h);
                assert forall|j: int| 0 <= j < s.len() && s[j].t@ > 0 implies h.t@ <= s[j].t@ by {
                    if j >= 1 {
                        assert(tail[j - 1] == s[j]);
                        assert(tail[j - 1].t@ > 0);
                    }
                }
            },
            Option::None => {
                assert forall|j: int| 0 <= j < s.len() implies s[j].t@ <= 0 by {
                    if j >= 1 {
                        assert(tail[j - 1] == s[j]);
                    }
                }
            },
        }
    }
}


/// A shading context materialized at a hit.
#[derive(Clone, Copy, Debug)]
pub struct Computations {
    pub t: Fx,
    pub object: Object,
    pub point: Tuple,
    pub normalv: Tuple,
    pub eyev: Tuple,
    pub inside: bool,
    pub over_point: Tuple,
    pub under_point: Tuple,
    pub reflectv: Tuple,
    pub n1: Fx,
    pub n2: Fx,
}

/// The first index holding an object equal to `o`, or `-1`.
pub open spec fn find_obj(cs: Seq<Object>, o: Object) -> int
    decreases cs.len(),
{
    if cs.len() == 0 {
        -1
    } else if obj_eq(cs[0], o) {
        0
    } else {
        let r = find_obj(cs.drop_first(), o);
        if r == -1 {
            -1
        } else {
            r + 1
        }
    }
}

/// Toggle an object's membership: remove its first occurrence, or append it.
pub open spec fn toggle_obj(cs: Seq<Object>, o: Object) -> Seq<Object> {
    let i = find_obj(cs, o);
    if i == -1 {
        cs.push(o)
    } else {
        cs.remove(i)
    }
}

/// The refractive index of the innermost entered object, or of the vacuum.
pub open spec fn top_index(cs: Seq<Object>) -> int {
    if cs.len() > 0 {
        cs.last().material.refractive_index@
    } else {
        SCALE as int
    }
}

/// The walk along the sorted intersections that yields the refractive
/// indices on either side of the hit: objects are entered and left by
/// toggling, and the hit is recognized by its `t` alone.
pub open spec fn refract_walk(
    xs: Seq<Intersection>,
    inter: Intersection,
    i: int,
    cs: Seq<Object>,
    n1: int,
    n2: int,
) -> (int, int)
    decreases xs.len() - i,
{
    if i < 0 || i >= xs.len() {
        (n1, n2)
    } else {
        let x = xs[i];
        let n1p = if x.t@ == inter.t@ {
            top_index(cs)
        } else {
            n1
        };
        let cs2 = toggle_obj(cs, x.object);
        if x.t@ == inter.t@ {
            (n1p, top_index(cs2))
        } else {
            refract_walk(xs, inter, i + 1, cs2, n1p, n2)
        }
    }
}

/// The refractive indices either side of a hit, from a fresh walk.
pub open spec fn refractive_pair(xs: Seq<Intersection>, inter: Intersection) -> (int, int) {
    refract_walk(xs, inter, 0, Seq::empty(), SCALE as int, SCALE as int)
}

/// The whole shading context for a hit: surface point, eye and normal
/// vectors with the inside flag, the nudged points that avoid
/// self-intersection, the reflection vector, and the refractive indices.
#[verifier::opaque]
pub open spec fn prepare_computations_spec(
    r: Ray,
    inter: Intersection,
    xs: Seq<Intersection>,
) -> Computations {
    let p = ray_position(r, inter.t@);
    let eyev = tup_neg(r.direction);
    let n0 = normal_at_spec(inter.object, p);
    let inside = tup_dot(n0, eyev) < 0;
    let normalv = if inside {
        tup_sub(Tuple { x: fxv(0), y: fxv(0), z: fxv(0), w: fxv(0) }, n0)
    } else {
        n0
    };
    let over_point = tup_add(p, tup_smul(normalv, EPSILON_RAW as int));
    let under_point = tup_sub(p, tup_smul(normalv, EPSILON_RAW as int));
    let reflectv = tup_reflect(r.direction, normalv);
    let pair = refractive_pair(xs, inter);
    Computations {
        t: inter.t,
        object: inter.object,
        point: p,
        normalv,
        eyev,
        inside,
        over_point,
        under_point,
        reflectv,
        n1: fxv(pair.0),
        n2: fxv(pair.1),
    }
}

/// The first index of `containers` holding `target`, as the exec search
/// finds it.
proof fn lemma_find_obj_at(cs: Seq<Object>, o: Object, i: int)
    requires
        0 <= i <= cs.len(),
        forall|j: int| 0 <= j < i ==> !obj_eq(cs[j], o),
        i < cs.len() ==> obj_eq(cs[i], o),
    ensures
        find_obj(cs, o) == if i == cs.len() {
            -1
        } else {
            i
        },
    decreases cs.len(),
{
    if cs.len() == 0 {
    } else if obj_eq(cs[0], o) {
        assert(i == 0);
    } else {
        assert(i >= 1);
        assert(forall|j: int| 0 <= j < i - 1 ==> cs.drop_first()[j] == cs[j + 1]);
        lemma_find_obj_at(cs.drop_first(), o, i - 1);
        if i - 1 < cs.drop_first().len() {
            assert(cs.drop_first()[i - 1] == cs[i]);
        }
    }
}

impl Ray {
    /// Derive the shading context for one intersection of this ray, given
    /// the whole sorted intersection list.
    pub fn prepare_computations(self, inter: &Intersection, inters: Intersections) -> (comps:
        Computations)
        requires
            mat4_invertible(inter.object.transform@),
        ensures
            comps == prepare_computations_spec(self, *inter, inters.inters@),
            comps.object == inter.object,
    {
        reveal(prepare_computations_spec);
        let p = self.position(inter.t);
        let eyev = self.direction.neg();
        let inside: bool;
        let mut normalv = inter.object.normal_at(p);
        if normalv.dot(eyev).raw < 0 {
            inside = true;
            normalv = crate::tuple::vector(Fx { raw: 0 }, Fx { raw: 0 }, Fx { raw: 0 }).sub(
                normalv,
            );
        } else {
            inside = false;
        }
        let eps = Fx { raw: EPSILON_RAW };
        let over_point = p.add(normalv.mul(eps));
        let under_point = p.sub(normalv.mul(eps));
        let reflectv = self.direction.reflect(normalv);
        let mut n1: Fx = Fx::one();
        let mut n2: Fx = Fx::one();
        let mut containers: Vec<Object> = Vec::new();
        let mut i: usize = 0;
        let mut done: bool = false;
        let ghost pair = refractive_pair(inters.inters@, *inter);
        while i < inters.inters.len() && !done
            invariant
                i <= inters.inters.len(),
                mat4_invertible(inter.object.transform@),
                if done {
                    (n1@, n2@) == pair
                } else {
                    refract_walk(inters.inters@, *inter, i as int, containers@, n1@, n2@) == pair
                },
            decreases inters.inters.len() - i, (if done { 0int } else { 1int }),
        {
            let x = inters.inters[i];
            if x == *inter {
                if containers.len() > 0 {
                    n1 = containers[containers.len() - 1].material.refractive_index;
                } else {
                    n1 = Fx::one();
                }
            }
            let mut idx: usize = 0;
            let mut found: bool = false;
            while idx < containers.len() && !found
                invariant
                    idx <= containers.len(),
                    forall|j: int| 0 <= j < idx ==> !obj_eq(containers@[j], x.object),
                    found ==> idx < containers.len() && obj_eq(containers@[idx as int], x.object),
                decreases containers.len() - idx, (if found { 0int } else { 1int }),
            {
                if containers[idx] == x.object {
                    found = true;
                } else {
                    idx = idx + 1;
                }
            }
            proof {
                lemma_find_obj_at(containers@, x.object, idx as int);
            }
            if found {
                containers.remove(idx);
            } else {
                containers.push(x.object);
            }
            if x == *inter {
                if containers.len() > 0 {
                    n2 = containers[containers.len() - 1].material.refractive_index;
                } else {
                    n2 = Fx::one();
                }
                done = true;
            }
            i = i + 1;
        }
        Computations {
            t: inter.t,
            object: inter.object,
            point: p,
            normalv,
            eyev,
            inside,
            over_point,
            under_point,
            reflectv,
            n1,
            n2,
        }
    }
}

/// A point light: a position and an intensity.
#[derive(Clone, Copy, PartialEq, Eq, Structural, Debug)]
pub struct Light {
    pub position: Tuple,
    pub intensity: Colour,
}

impl Light {
    /// Create a new light source
    pub fn new(position: Tuple, intensity: Colour) -> (r: Light)
        ensures
            r == (Light { position, intensity }),
    {
        Light { position, intensity }
    }
}

/// The whole-number exponent taken from a shininess scalar.
pub open spec fn shininess_exp(sh: int) -> nat {
    if sh <= 0 {
        0
    } else {
        (sh / (SCALE as int)) as nat
    }
}

/// The Phong lighting model: ambient plus diffuse plus specular, with the
/// latter two black in shadow or facing away from the light.
#[verifier::opaque]
pub open spec fn lighting_spec(
    object: Object,
    light: Light,
    p: Tuple,
    eyev: Tuple,
    normalv: Tuple,
    in_shadow: bool,
) -> Colour {
    let effective_colour = col_mul(object_pattern_at(object, p), light.intensity);
    let ambient = col_smul(effective_colour, object.material.ambient@);
    let lightv = tup_normalize(tup_sub(light.position, p));
    let light_dot_normal = tup_dot(lightv, normalv);
    let black = col_of(0, 0, 0);
    if in_shadow {
        col_add(col_add(ambient, black), black)
    } else if light_dot_normal < 0 {
        col_add(col_add(ambient, black), black)
    } else {
        let diffuse = col_smul(
            col_smul(effective_colour, object.material.diffuse@),
            tup_dot(lightv, normalv),
        );
        let reflectv = tup_reflect(tup_neg(lightv), normalv);
        let reflect_dot_eye = tup_dot(reflectv, eyev);
        let specular = if reflect_dot_eye <= 0 {
            black
        } else {
            let factor = fx_pow(reflect_dot_eye, shininess_exp(object.material.shininess@));
            col_smul(col_smul(light.intensity, object.material.specular@), factor)
        };
        col_add(col_add(ambient, diffuse), specular)
    }
}

/// Evaluate the Phong model for one light at one surface point.
pub fn lighting(
    object: Object,
    light: Light,
    p: Tuple,
    eyev: Tuple,
    normalv: Tuple,
    in_shadow: bool,
) -> (r: Colour)
    requires
        obj_wf(object),
    ensures
        r == lighting_spec(object, light, p, eyev, normalv, in_shadow),
{
    reveal(lighting_spec);
    let pattern_colour = object.pattern_at(p);
    let effective_colour = pattern_colour.mul(light.intensity);
    let ambient = effective_colour.mul(object.material.ambient);
    let lightv = light.position.sub(p).normalize();
    let light_dot_normal = lightv.dot(normalv);
    let diffuse: Colour;
    let specular: Colour;
    if in_shadow {
        specular = crate::colour::black();
        diffuse = crate::colour::black();
    } else if light_dot_normal.raw < 0 {
        diffuse = crate::colour::black();
        specular = crate::colour::black();
    } else {
        diffuse = effective_colour.mul(object.material.diffuse).mul(lightv.dot(normalv));
        let reflectv = lightv.neg().reflect(normalv);
        let reflect_dot_eye = reflectv.dot(eyev);
        if reflect_dot_eye.raw <= 0 {
            specular = crate::colour::black();
        } else {
            let n: u64 = shininess_to_exp(object.material.shininess);
            let factor = reflect_dot_eye.powi(n);
            specular = light.intensity.mul(object.material.specular).mul(factor);
        }
    }
    ambient.add(diffuse).add(specular)
}

/// The whole-number exponent of a shininess scalar.
fn shininess_to_exp(sh: Fx) -> (n: u64)
    ensures
        n as nat == shininess_exp(sh@),
{
    if sh.raw <= 0 {
        0
    } else {
        let q: u64 = (sh.raw as u64) / (SCALE as u64);
        q as u64
    }
}

} // verus!

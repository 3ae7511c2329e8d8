//! Intersection records, the time-sorted intersection list with hit
//! selection, and the precomputed shading frame.

use crate::fixed::{
    absi, fadd, fdiv, fmul, fpow, fsqrt, fsub, in_range, pow_fp, sat_add, sat_div, sat_mul,
    sat_sqrt, sat_sub, sqrt_floor, EPS, LIM, SCALE,
};
use crate::geometry::point::Point;
use crate::geometry::vector::{spec_dot, spec_neg_v, spec_reflect, spec_scale_v, Vector};
use crate::tracing::ray::{spec_position, Ray};
use crate::tracing::shapes::shape::{spec_shape_normal, Shape};
use vstd::prelude::*;

verus! {

/// A ray meeting a shape: the time of the meeting and a handle (index into
/// the world's shape list) of the shape met.
#[derive(Clone, Copy, Debug, PartialEq, Eq, Structural)]
pub struct Intersection {
    pub time: i128,
    pub shape: usize,
}

impl Intersection {
    /// The time is storable.
    pub open spec fn wf(self) -> bool {
        in_range(self.time as int)
    }

    /// An intersection at `time` with the shape under the given handle.
    pub fn new(time: i128, shape: usize) -> (r: Intersection)
        requires
            in_range(time as int),
        ensures
            r == (Intersection { time, shape }),
            r.wf(),
    {
        Intersection { time, shape }
    }

    /// The time of the intersection.
    pub fn time(&self) -> (r: i128)
        ensures
            r == self.time,
    {
        self.time
    }
}

/// `x` inserted into `s` after every earlier element whose time does not
/// exceed `x`'s: the insertion step of a stable insertion sort.
pub open spec fn spec_insert(s: Seq<Intersection>, x: Intersection) -> Seq<Intersection>
    decreases s.len(),
{
    if s.len() == 0 {
        seq![x]
    } else if s[0].time <= x.time {
        seq![s[0]] + spec_insert(s.drop_first(), x)
    } else {
        seq![x] + s
    }
}

/// Stable insertion sort by time, ascending.
pub open spec fn spec_sort(s: Seq<Intersection>) -> Seq<Intersection>
    decreases s.len(),
{
    if s.len() == 0 {
        Seq::empty()
    } else {
        spec_insert(spec_sort(s.drop_last()), s.last())
    }
}

/// Times never decrease along the sequence.
pub open spec fn spec_sorted(s: Seq<Intersection>) -> bool {
    forall|i: int, j: int| 0 <= i < j < s.len() ==> s[i].time <= s[j].time
}

/// The first intersection at a nonnegative time, scanning left to right.
pub open spec fn spec_hit(s: Seq<Intersection>) -> Option<Intersection>
    decreases s.len(),
{
    if s.len() == 0 {
        Option::None
    } else if s[0].time >= 0 {
        Option::Some(s[0])
    } else {
        spec_hit(s.drop_first())
    }
}

/// Inserting adds one element.
pub proof fn lemma_insert_len(s: Seq<Intersection>, x: Intersection)
    ensures
        spec_insert(s, x).len() == s.len() + 1,
    decreases s.len(),
{
    if s.len() > 0 && s[0].time <= x.time {
        lemma_insert_len(s.drop_first(), x);
    }
}

/// Inserting keeps exactly the old elements plus the new one.
pub proof fn lemma_insert_contains(s: Seq<Intersection>, x: Intersection, y: Intersection)
    ensures
        spec_insert(s, x).contains(y) <==> (y == x || s.contains(y)),
    decreases s.len(),
{
    lemma_insert_len(s, x);
    if s.len() == 0 {
        assert(spec_insert(s, x) =~= seq![x]);
        if y == x {
            assert(spec_insert(s, x)[0] == y);
        }
        if spec_insert(s, x).contains(y) {
            let k = choose|k: int| 0 <= k < spec_insert(s, x).len() && spec_insert(s, x)[k] == y;
            assert(k == 0);
        }
    } else if s[0].time <= x.time {
        lemma_insert_contains(s.drop_first(), x, y);
        let t = spec_insert(s, x);
        assert(t == seq![s[0]] + spec_insert(s.drop_first(), x));
        if t.contains(y) {
            let k = choose|k: int| 0 <= k < t.len() && t[k] == y;
            if k == 0 {
                assert(s.contains(y)) by {
                    assert(s[0] == y);
                }
            } else {
                assert(spec_insert(s.drop_first(), x)[k - 1] == y);
                assert(spec_insert(s.drop_first(), x).contains(y));
                if s.drop_first().contains(y) {
                    let j = choose|j: int|
                        0 <= j < s.drop_first().len() && s.drop_first()[j] == y;
                    assert(s[j + 1] == y);
                }
            }
        }
        if y == x || s.contains(y) {
            if y == x {
                assert(spec_insert(s.drop_first(), x).contains(y));
                let j = choose|j: int|
                    0 <= j < spec_insert(s.drop_first(), x).len() && spec_insert(
                        s.drop_first(),
                        x,
                    )[j] == y;
                assert(t[j + 1] == y);
            } else {
                let k = choose|k: int| 0 <= k < s.len() && s[k] == y;
                if k == 0 {
                    assert(t[0] == y);
                } else {
                    assert(s.drop_first()[k - 1] == y);
                    assert(s.drop_first().contains(y));
                    let j = choose|j: int|
                        0 <= j < spec_insert(s.drop_first(), x).len() && spec_insert(
                            s.drop_first(),
                            x,
                        )[j] == y;
                    assert(t[j + 1] == y);
                }
            }
        }
    } else {
        let t = spec_insert(s, x);
        assert(t == seq![x] + s);
        if t.contains(y) {
            let k = choose|k: int| 0 <= k < t.len() && t[k] == y;
            if k > 0 {
                assert(s[k - 1] == y);
            }
        }
        if y == x {
            assert(t[0] == y);
        } else if s.contains(y) {
            let k = choose|k: int| 0 <= k < s.len() && s[k] == y;
            assert(t[k + 1] == y);
        }
    }
}

/// Inserting into a sorted sequence keeps it sorted.
pub proof fn lemma_insert_sorted(s: Seq<Intersection>, x: Intersection)
    requires
        spec_sorted(s),
    ensures
        spec_sorted(spec_insert(s, x)),
    decreases s.len(),
{
    lemma_insert_len(s, x);
    if s.len() == 0 {
    } else if s[0].time <= x.time {
        assert(spec_sorted(s.drop_first()));
        lemma_insert_sorted(s.drop_first(), x);
        lemma_insert_len(s.drop_first(), x);
        let t = spec_insert(s, x);
        let rest = spec_insert(s.drop_first(), x);
        assert forall|i: int, j: int| 0 <= i < j < t.len() implies t[i].time <= t[j].time by {
            if i == 0 {
                assert(t[j] == rest[j - 1]);
                assert(rest.contains(rest[j - 1]));
                lemma_insert_contains(s.drop_first(), x, rest[j - 1]);
                if rest[j - 1] == x {
                } else {
                    let k = choose|k: int|
                        0 <= k < s.drop_first().len() && s.drop_first()[k] == rest[j - 1];
                    assert(s[k + 1] == rest[j - 1]);
                }
            } else {
                assert(t[i] == rest[i - 1] && t[j] == rest[j - 1]);
            }
        }
    } else {
        let t = spec_insert(s, x);
        assert forall|i: int, j: int| 0 <= i < j < t.len() implies t[i].time <= t[j].time by {
            if i == 0 {
                assert(t[0] == x && t[j] == s[j - 1]);
                if j - 1 > 0 {
                    assert(s[0].time <= s[j - 1].time);
                }
            } else {
                assert(t[i] == s[i - 1] && t[j] == s[j - 1]);
            }
        }
    }
}

/// The sort produces a sorted sequence.
pub proof fn lemma_sort_sorted(s: Seq<Intersection>)
    ensures
        spec_sorted(spec_sort(s)),
        spec_sort(s).len() == s.len(),
    decreases s.len(),
{
    if s.len() > 0 {
        lemma_sort_sorted(s.drop_last());
        lemma_insert_sorted(spec_sort(s.drop_last()), s.last());
        lemma_insert_len(spec_sort(s.drop_last()), s.last());
    }
}

/// The sort keeps exactly the original elements.
pub proof fn lemma_sort_contains(s: Seq<Intersection>, y: Intersection)
    ensures
        spec_sort(s).contains(y) <==> s.contains(y),
    decreases s.len(),
{
    if s.len() > 0 {
        lemma_sort_contains(s.drop_last(), y);
        lemma_insert_contains(spec_sort(s.drop_last()), s.last(), y);
        if s.contains(y) {
            let k = choose|k: int| 0 <= k < s.len() && s[k] == y;
            if k < s.len() - 1 {
                assert(s.drop_last()[k] == y);
            }
        }
        if s.drop_last().contains(y) {
            let k = choose|k: int| 0 <= k < s.drop_last().len() && s.drop_last()[k] == y;
            assert(s[k] == y);
        }
        if y == s.last() {
            assert(s.contains(y)) by {
                assert(s[s.len() - 1] == y);
            }
        }
    }
}

/// What the scan for the hit means on a sorted list: the hit is a member
/// with the smallest nonnegative time, and there is none only when every
/// time is negative.
pub proof fn lemma_hit_properties(s: Seq<Intersection>)
    requires
        spec_sorted(s),
    ensures
        spec_hit(s) matches Option::Some(h) ==> s.contains(h) && h.time >= 0 && forall|k: int|
            0 <= k < s.len() && s[k].time >= 0 ==> h.time <= #[trigger] s[k].time,
        spec_hit(s) is None ==> forall|k: int| 0 <= k < s.len() ==> (#[trigger] s[k]).time < 0,
    decreases s.len(),
{
    if s.len() == 0 {
    } else if s[0].time >= 0 {
        assert(s.contains(s[0])) by {
            assert(s[0] == s[0]);
        }
    } else {
        assert(spec_sorted(s.drop_first()));
        lemma_hit_properties(s.drop_first());
        match spec_hit(s.drop_first()) {
            Option::Some(h) => {
                let k = choose|k: int|
                    0 <= k < s.drop_first().len() && s.drop_first()[k] == h;
                assert(s[k + 1] == h);
                assert forall|k2: int| 0 <= k2 < s.len() && s[k2].time >= 0 implies h.time
                    <= #[trigger] s[k2].time by {
                    if k2 > 0 {
                        assert(s.drop_first()[k2 - 1] == s[k2]);
                    }
                }
            },
            Option::None => {
                assert forall|k2: int| 0 <= k2 < s.len() implies (#[trigger] s[k2]).time
                    < 0 by {
                    if k2 > 0 {
                        assert(s.drop_first()[k2 - 1] == s[k2]);
                    }
                }
            },
        }
    }
}

/// `spec_insert` lands the new element at the end of the prefix of elements
/// whose times do not exceed it.
proof fn lemma_insert_at(s: Seq<Intersection>, x: Intersection, i: int)
    requires
        0 <= i <= s.len(),
        forall|k: int| 0 <= k < i ==> (#[trigger] s[k]).time <= x.time,
        i < s.len() ==> s[i].time > x.time,
    ensures
        spec_insert(s, x) =~= s.insert(i, x),
    decreases i,
{
    if s.len() == 0 {
    } else if i == 0 {
    } else {
        assert(s[0].time <= x.time);
        lemma_insert_at(s.drop_first(), x, i - 1);
        assert(spec_insert(s, x) == seq![s[0]] + spec_insert(s.drop_first(), x));
        assert(spec_insert(s.drop_first(), x) =~= s.drop_first().insert(i - 1, x));
        assert(spec_insert(s, x) =~= s.insert(i, x));
    }
}

/// A time-sorted list of intersections.
#[derive(Clone, Debug)]
pub struct Intersections {
    pub items: Vec<Intersection>,
}

impl Intersections {
    /// The list is sorted by time.
    pub open spec fn wf(self) -> bool {
        spec_sorted(self.items@)
    }

    /// The given intersections, sorted by time, equal times keeping their
    /// order of arrival.
    pub fn new(intersections: Vec<Intersection>) -> (r: Intersections)
        ensures
            r.items@ == spec_sort(intersections@),
            r.items@.len() == intersections@.len(),
            r.wf(),
            forall|y: Intersection| r.items@.contains(y) <==> intersections@.contains(y),
    {
        let mut out: Vec<Intersection> = Vec::new();
        let mut k: usize = 0;
        while k < intersections.len()
            invariant
                k <= intersections@.len(),
                out@ == spec_sort(intersections@.take(k as int)),
                spec_sorted(out@),
            decreases intersections@.len() - k,
        {
            let x = intersections[k];
            let ghost pre = out@;
            let mut i: usize = 0;
            while i < out.len() && out[i].time <= x.time
                invariant
                    i <= out@.len(),
                    out@ == pre,
                    forall|j: int| 0 <= j < i ==> (#[trigger] out@[j]).time <= x.time,
                decreases out@.len() - i,
            {
                i = i + 1;
            }
            out.insert(i, x);
            proof {
                lemma_insert_at(pre, x, i as int);
                assert(intersections@.take(k as int + 1).drop_last() =~= intersections@.take(
                    k as int,
                ));
                assert(intersections@.take(k as int + 1).last() == x);
                lemma_insert_sorted(pre, x);
            }
            k = k + 1;
        }
        proof {
            assert(intersections@.take(intersections@.len() as int) =~= intersections@);
            lemma_sort_sorted(intersections@);
            assert forall|y: Intersection| spec_sort(intersections@).contains(y)
                <==> intersections@.contains(y) by {
                lemma_sort_contains(intersections@, y);
            }
        }
        Intersections { items: out }
    }

    /// An empty list.
    pub fn empty() -> (r: Intersections)
        ensures
            r.items@.len() == 0,
            r.wf(),
    {
        Intersections { items: Vec::new() }
    }

    /// Whether the list holds nothing.
    pub fn is_empty(&self) -> (r: bool)
        ensures
            r == (self.items@.len() == 0),
    {
        self.items.len() == 0
    }

    /// How many intersections the list holds.
    pub fn len(&self) -> (r: usize)
        ensures
            r == self.items@.len(),
    {
        self.items.len()
    }

    /// The intersection at a position.
    pub fn at(&self, i: usize) -> (r: Intersection)
        requires
            i < self.items@.len(),
        ensures
            r == self.items@[i as int],
    {
        self.items[i]
    }

    /// The intersection with the lowest nonnegative time, if any.
    pub fn hit(&self) -> (r: Option<Intersection>)
        ensures
            r == spec_hit(self.items@),
    {
        let mut i: usize = 0;
        proof {
            assert(self.items@.skip(0) =~= self.items@);
        }
        while i < self.items.len()
            invariant
                i <= self.items@.len(),
                spec_hit(self.items@) == spec_hit(self.items@.skip(i as int)),
                forall|k: int| 0 <= k < i ==> (#[trigger] self.items@[k]).time < 0,
            decreases self.items@.len() - i,
        {
            let x = self.items[i];
            if x.time >= 0 {
                proof {
                    assert(self.items@.skip(i as int)[0] == x);
                }
                return Option::Some(x);
            }
            proof {
                assert(self.items@.skip(i as int).drop_first() =~= self.items@.skip(
                    i as int + 1,
                ));
                assert(self.items@.skip(i as int)[0] == x);
            }
            i = i + 1;
        }
        proof {
            assert(self.items@.skip(i as int) =~= Seq::<Intersection>::empty());
        }
        Option::None
    }
}

} // verus!

verus! {

/// The refractive index at the top of a container stack: one, in empty
/// space, else the refractive index of the innermost entered shape.
pub open spec fn spec_last_index(containers: Seq<usize>, shapes: Seq<Shape>) -> int {
    if containers.len() == 0 {
        SCALE as int
    } else {
        shapes[containers.last() as int].material.spec_refractive_index()
    }
}

/// A sequence with the first occurrence of `id` removed.
pub open spec fn spec_remove_first(c: Seq<usize>, id: usize) -> Seq<usize>
    decreases c.len(),
{
    if c.len() == 0 {
        c
    } else if c[0] == id {
        c.drop_first()
    } else {
        seq![c[0]] + spec_remove_first(c.drop_first(), id)
    }
}

/// A container stack crossed by a shape boundary: an entered shape leaves,
/// a new shape is entered.
pub open spec fn spec_toggle(c: Seq<usize>, id: usize) -> Seq<usize> {
    if c.contains(id) {
        spec_remove_first(c, id)
    } else {
        c.push(id)
    }
}

/// The refractive indices on the two sides of the target intersection: the
/// walk of the intersection list that the precomputation performs.  When
/// the target never occurs, both indices are zero.
pub open spec fn spec_refract_walk(
    all: Seq<Intersection>,
    tgt: Intersection,
    shapes: Seq<Shape>,
    containers: Seq<usize>,
) -> (int, int)
    decreases all.len(),
{
    if all.len() == 0 {
        (0, 0)
    } else if all[0] == tgt {
        let n1 = spec_last_index(containers, shapes);
        let n2 = spec_last_index(spec_toggle(containers, all[0].shape), shapes);
        (n1, n2)
    } else {
        spec_refract_walk(
            all.drop_first(),
            tgt,
            shapes,
            spec_toggle(containers, all[0].shape),
        )
    }
}

/// Every intersection's handle points into the shape list.
pub open spec fn spec_ids_ok(s: Seq<Intersection>, n: int) -> bool {
    forall|k: int| 0 <= k < s.len() ==> (#[trigger] s[k]).shape < n
}

/// Every shape in the list is well-formed.
pub open spec fn spec_shapes_wf(shapes: Seq<Shape>) -> bool {
    forall|k: int| 0 <= k < shapes.len() ==> (#[trigger] shapes[k]).wf()
}

/// Every container handle points into the shape list.
pub open spec fn spec_containers_ok(c: Seq<usize>, n: int) -> bool {
    forall|k: int| 0 <= k < c.len() ==> (#[trigger] c[k]) < n
}

/// Removing keeps the handles valid.
proof fn lemma_remove_first_ok(c: Seq<usize>, id: usize, n: int)
    requires
        spec_containers_ok(c, n),
    ensures
        spec_containers_ok(spec_remove_first(c, id), n),
        spec_remove_first(c, id).len() <= c.len(),
    decreases c.len(),
{
    if c.len() == 0 {
    } else if c[0] == id {
        assert forall|k: int|
            0 <= k < c.drop_first().len() implies (#[trigger] c.drop_first()[k]) < n by {
            assert(c.drop_first()[k] == c[k + 1]);
        }
    } else {
        assert(spec_containers_ok(c.drop_first(), n)) by {
            assert forall|k: int|
                0 <= k < c.drop_first().len() implies (#[trigger] c.drop_first()[k]) < n by {
                assert(c.drop_first()[k] == c[k + 1]);
            }
        }
        lemma_remove_first_ok(c.drop_first(), id, n);
        let t = spec_remove_first(c, id);
        assert forall|k: int| 0 <= k < t.len() implies (#[trigger] t[k]) < n by {
            if k > 0 {
                assert(t[k] == spec_remove_first(c.drop_first(), id)[k - 1]);
            }
        }
    }
}

/// Toggling keeps the handles valid.
pub proof fn lemma_toggle_ok(c: Seq<usize>, id: usize, n: int)
    requires
        spec_containers_ok(c, n),
        id < n,
    ensures
        spec_containers_ok(spec_toggle(c, id), n),
{
    if c.contains(id) {
        lemma_remove_first_ok(c, id, n);
    } else {
        let t = c.push(id);
        assert forall|k: int| 0 <= k < t.len() implies (#[trigger] t[k]) < n by {
            if k < c.len() {
                assert(t[k] == c[k]);
            }
        }
    }
}

/// When the target occurs in the list, the walk returns genuine refractive
/// indices: both lie between one and the saturation bound.
pub proof fn lemma_walk_bounds(
    all: Seq<Intersection>,
    tgt: Intersection,
    shapes: Seq<Shape>,
    containers: Seq<usize>,
)
    requires
        all.contains(tgt),
        spec_ids_ok(all, shapes.len() as int),
        spec_shapes_wf(shapes),
        spec_containers_ok(containers, shapes.len() as int),
    ensures
        SCALE <= spec_refract_walk(all, tgt, shapes, containers).0 <= LIM,
        SCALE <= spec_refract_walk(all, tgt, shapes, containers).1 <= LIM,
    decreases all.len(),
{
    assert(all.len() > 0);
    if all[0] == tgt {
        lemma_toggle_ok(containers, all[0].shape, shapes.len() as int);
        let c2 = spec_toggle(containers, all[0].shape);
        if containers.len() > 0 {
            assert(containers.contains(containers.last())) by {
                assert(containers[containers.len() - 1] == containers.last());
            }
        }
        if c2.len() > 0 {
            assert(c2.contains(c2.last())) by {
                assert(c2[c2.len() - 1] == c2.last());
            }
        }
    } else {
        lemma_toggle_ok(containers, all[0].shape, shapes.len() as int);
        assert(all.drop_first().contains(tgt)) by {
            let k = choose|k: int| 0 <= k < all.len() && all[k] == tgt;
            assert(all.drop_first()[k - 1] == tgt);
        }
        assert(spec_ids_ok(all.drop_first(), shapes.len() as int)) by {
            assert forall|k: int|
                0 <= k < all.drop_first().len() implies (#[trigger] all.drop_first()[k]).shape
                    < shapes.len() by {
                assert(all.drop_first()[k] == all[k + 1]);
            }
        }
        lemma_walk_bounds(all.drop_first(), tgt, shapes, spec_toggle(containers, all[0].shape));
    }
}

/// The precomputed shading frame of one intersection.
#[derive(Clone, Copy, Debug)]
pub struct PreComputedIntersection {
    pub time: i128,
    pub shape: usize,
    pub inside: bool,
    pub point: Point,
    pub over_point: Point,
    pub under_point: Point,
    pub eye_vector: Vector,
    pub normal_vector: Vector,
    pub reflect_vector: Vector,
    pub n1: i128,
    pub n2: i128,
}

/// The shading frame derived from a hit: hit point, eye and (possibly
/// flipped) normal, the points nudged off the surface, the reflection
/// direction, and the refractive indices either side of the boundary.
pub open spec fn spec_precompute(
    i: Intersection,
    ray: Ray,
    all: Seq<Intersection>,
    shapes: Seq<Shape>,
) -> PreComputedIntersection {
    let point = spec_position(ray, i.time as int);
    let eye = spec_neg_v(ray.direction);
    let normal0 = spec_shape_normal(shapes[i.shape as int], point);
    let inside = spec_dot(normal0, eye) < 0;
    let normal = if inside {
        spec_neg_v(normal0)
    } else {
        normal0
    };
    let over = crate::geometry::point::spec_add_pv(point, spec_scale_v(normal, EPS as int));
    let under = crate::geometry::point::spec_sub_pv(point, spec_scale_v(normal, EPS as int));
    let reflect = spec_reflect(ray.direction, normal);
    let pair = spec_refract_walk(all, i, shapes, Seq::empty());
    PreComputedIntersection {
        time: i.time,
        shape: i.shape,
        inside,
        point,
        over_point: over,
        under_point: under,
        eye_vector: eye,
        normal_vector: normal,
        reflect_vector: reflect,
        n1: pair.0 as i128,
        n2: pair.1 as i128,
    }
}

/// The Schlick approximation to the Fresnel reflectance, over the frame's
/// eye vector, surface normal and refractive indices.  The eye-normal
/// cosine is clamped into the unit interval before use.
pub open spec fn spec_schlick(p: PreComputedIntersection) -> int {
    let cos0 = spec_dot(p.eye_vector, p.normal_vector);
    let cos = if cos0 < 0 {
        0
    } else if cos0 > SCALE {
        SCALE as int
    } else {
        cos0
    };
    let q = sat_div(sat_sub(p.n1 as int, p.n2 as int), sat_add(p.n1 as int, p.n2 as int));
    let r0 = sat_mul(q, q);
    if p.n1 > p.n2 {
        let n = sat_div(p.n1 as int, p.n2 as int);
        let sin2t = sat_mul(sat_mul(n, n), sat_sub(SCALE as int, sat_mul(cos, cos)));
        if sin2t > SCALE {
            SCALE as int
        } else {
            let cos_t = sat_sqrt(sat_sub(SCALE as int, sin2t));
            sat_add(r0, sat_mul(sat_sub(SCALE as int, r0), pow_fp(sat_sub(SCALE as int, cos_t), 5)))
        }
    } else {
        sat_add(r0, sat_mul(sat_sub(SCALE as int, r0), pow_fp(sat_sub(SCALE as int, cos), 5)))
    }
}

impl Intersection {
    /// The shading frame of this intersection of `ray`, with the refractive
    /// indices read off the ordered list `all`.
    pub fn pre_computations(
        &self,
        ray: &Ray,
        all: &Intersections,
        shapes: &Vec<Shape>,
    ) -> (r: PreComputedIntersection)
        requires
            self.wf(),
            ray.wf(),
            (self.shape as int) < shapes@.len(),
            spec_ids_ok(all.items@, shapes@.len() as int),
            spec_shapes_wf(shapes@),
        ensures
            r == spec_precompute(*self, *ray, all.items@, shapes@),
            r.point.wf() && r.over_point.wf() && r.under_point.wf(),
            r.eye_vector.wf() && r.normal_vector.wf() && r.reflect_vector.wf(),
            in_range(r.n1 as int) && in_range(r.n2 as int),
    {
        let point = ray.position(self.time);
        let eye_vector = ray.direction().negate();
        let normal0 = shapes[self.shape].normal_at(point);
        let inside = normal0.dot(eye_vector) < 0;
        let normal_vector = if inside {
            normal0.negate()
        } else {
            normal0
        };
        let over_point = point.plus_vector(normal_vector.scale(EPS));
        let under_point = point.minus_vector(normal_vector.scale(EPS));
        let reflect_vector = ray.direction().reflect(normal_vector);
        let (n1, n2) = self.find_refractive_indexes(all, shapes);
        PreComputedIntersection {
            time: self.time,
            shape: self.shape,
            inside,
            point,
            over_point,
            under_point,
            eye_vector,
            normal_vector,
            reflect_vector,
            n1,
            n2,
        }
    }

    /// The refractive index on each side of this intersection: the walk of
    /// the ordered list, maintaining the stack of entered shapes.
    pub fn find_refractive_indexes(&self, all: &Intersections, shapes: &Vec<Shape>) -> (r: (
        i128,
        i128,
    ))
        requires
            spec_ids_ok(all.items@, shapes@.len() as int),
            spec_shapes_wf(shapes@),
        ensures
            (r.0 as int, r.1 as int) == spec_refract_walk(
                all.items@,
                *self,
                shapes@,
                Seq::empty(),
            ),
            in_range(r.0 as int),
            in_range(r.1 as int),
    {
        let mut containers: Vec<usize> = Vec::new();
        let mut k: usize = 0;
        proof {
            assert(all.items@.skip(0) =~= all.items@);
        }
        while k < all.items.len()
            invariant
                k <= all.items@.len(),
                spec_ids_ok(all.items@, shapes@.len() as int),
                spec_shapes_wf(shapes@),
                spec_containers_ok(containers@, shapes@.len() as int),
                spec_refract_walk(all.items@, *self, shapes@, Seq::empty())
                    == spec_refract_walk(all.items@.skip(k as int), *self, shapes@, containers@),
            decreases all.items@.len() - k,
        {
            let x = all.items[k];
            proof {
                assert(all.items@.skip(k as int)[0] == x);
                assert(all.items@.skip(k as int).drop_first() =~= all.items@.skip(k as int + 1));
            }
            if x.time == self.time && x.shape == self.shape {
                let n1 = last_refractive(&containers, shapes);
                toggle_container(&mut containers, x.shape, Ghost(shapes@.len() as int));
                let n2 = last_refractive(&containers, shapes);
                return (n1, n2);
            }
            toggle_container(&mut containers, x.shape, Ghost(shapes@.len() as int));
            k = k + 1;
        }
        proof {
            assert(all.items@.skip(k as int) =~= Seq::<Intersection>::empty());
        }
        (0, 0)
    }
}

/// The refractive index at the top of the container stack.
fn last_refractive(containers: &Vec<usize>, shapes: &Vec<Shape>) -> (r: i128)
    requires
        spec_containers_ok(containers@, shapes@.len() as int),
        spec_shapes_wf(shapes@),
    ensures
        r as int == spec_last_index(containers@, shapes@),
        in_range(r as int),
{
    if containers.len() == 0 {
        SCALE
    } else {
        let id = containers[containers.len() - 1];
        shapes[id].material().refractive_index()
    }
}

/// Cross a shape boundary: drop the shape from the stack when it is there,
/// push it when it is not.
fn toggle_container(containers: &mut Vec<usize>, id: usize, n: Ghost<int>)
    requires
        spec_containers_ok(old(containers)@, n@),
        id < n@,
    ensures
        final(containers)@ == spec_toggle(old(containers)@, id),
        spec_containers_ok(final(containers)@, n@),
{
    let found = find_first(containers, id);
    match found {
        Option::Some(i) => {
            proof {
                assert(old(containers)@.contains(old(containers)@[i as int]));
                lemma_remove_first_at(old(containers)@, id, i as int);
                lemma_toggle_ok(old(containers)@, id, n@);
            }
            containers.remove(i);
        },
        Option::None => {
            proof {
                if old(containers)@.contains(id) {
                    let k = choose|k: int|
                        0 <= k < old(containers)@.len() && old(containers)@[k] == id;
                    assert(false);
                }
                lemma_toggle_ok(old(containers)@, id, n@);
            }
            containers.push(id);
        },
    }
}

/// The position of the first occurrence of `id`, if any.
fn find_first(containers: &Vec<usize>, id: usize) -> (r: Option<usize>)
    ensures
        r matches Option::Some(i) ==> i < containers@.len() && containers@[i as int] == id
            && forall|k: int| 0 <= k < i ==> (#[trigger] containers@[k]) != id,
        r is None ==> forall|k: int|
            0 <= k < containers@.len() ==> (#[trigger] containers@[k]) != id,
{
    let mut i: usize = 0;
    while i < containers.len()
        invariant
            i <= containers@.len(),
            forall|k: int| 0 <= k < i ==> (#[trigger] containers@[k]) != id,
        decreases containers@.len() - i,
    {
        if containers[i] == id {
            return Option::Some(i);
        }
        i = i + 1;
    }
    Option::None
}

/// Removing the first occurrence found by a left-to-right scan is the
/// recursive removal.
proof fn lemma_remove_first_at(c: Seq<usize>, id: usize, i: int)
    requires
        0 <= i < c.len(),
        c[i] == id,
        forall|k: int| 0 <= k < i ==> (#[trigger] c[k]) != id,
    ensures
        spec_remove_first(c, id) =~= c.remove(i),
    decreases i,
{
    if i == 0 {
    } else {
        assert(c[0] != id);
        assert(c.drop_first()[i - 1] == id);
        assert forall|k: int| 0 <= k < i - 1 implies (#[trigger] c.drop_first()[k]) != id by {
            assert(c.drop_first()[k] == c[k + 1]);
        }
        lemma_remove_first_at(c.drop_first(), id, i - 1);
        assert(spec_remove_first(c, id) == seq![c[0]] + spec_remove_first(c.drop_first(), id));
        assert(spec_remove_first(c, id) =~= c.remove(i));
    }
}

impl PreComputedIntersection {
    /// All carried values are storable.
    pub open spec fn wf(self) -> bool {
        &&& in_range(self.time as int)
        &&& self.point.wf() && self.over_point.wf() && self.under_point.wf()
        &&& self.eye_vector.wf() && self.normal_vector.wf() && self.reflect_vector.wf()
        &&& in_range(self.n1 as int) && in_range(self.n2 as int)
    }

    /// The ray that continues the reflection: from just above the surface,
    /// along the reflection direction.
    pub fn reflect_ray(&self) -> (r: Ray)
        requires
            self.wf(),
        ensures
            r.origin == self.over_point,
            r.direction == self.reflect_vector,
            r.wf(),
    {
        Ray::new(self.over_point, self.reflect_vector)
    }

    /// The hit point nudged off the surface, toward the eye.
    pub fn over_point(&self) -> (r: Point)
        ensures
            r == self.over_point,
    {
        self.over_point
    }

    /// The hit point nudged below the surface, away from the eye.
    pub fn under_point(&self) -> (r: Point)
        ensures
            r == self.under_point,
    {
        self.under_point
    }

    /// The refractive index on the near side.
    pub fn n1(&self) -> (r: i128)
        ensures
            r == self.n1,
    {
        self.n1
    }

    /// The refractive index on the far side.
    pub fn n2(&self) -> (r: i128)
        ensures
            r == self.n2,
    {
        self.n2
    }

    /// The eye vector of the frame.
    pub fn eye_vector(&self) -> (r: Vector)
        ensures
            r == self.eye_vector,
    {
        self.eye_vector
    }

    /// The surface normal of the frame.
    pub fn normal(&self) -> (r: Vector)
        ensures
            r == self.normal_vector,
    {
        self.normal_vector
    }

    /// The Schlick reflectance of the frame.  For genuine refractive
    /// indices the result always lies in the unit interval.
    pub fn schlick(&self) -> (r: i128)
        requires
            self.wf(),
            SCALE <= self.n1 as int <= LIM,
            SCALE <= self.n2 as int <= LIM,
        ensures
            r as int == spec_schlick(*self),
            0 <= r <= SCALE,
    {
        let cos0 = self.eye_vector.dot(self.normal_vector);
        let cos: i128 = if cos0 < 0 {
            0
        } else if cos0 > SCALE {
            SCALE
        } else {
            cos0
        };
        let q = fdiv(fsub(self.n1, self.n2), fadd(self.n1, self.n2));
        proof {
            lemma_q_unit(self.n1 as int, self.n2 as int);
            crate::geometry::vector::lemma_sat_sq_nonneg(
                sat_div(sat_sub(self.n1 as int, self.n2 as int), sat_add(self.n1 as int, self.n2 as int)),
            );
            crate::fixed::lemma_sat_mul_unit(
                absi(sat_div(sat_sub(self.n1 as int, self.n2 as int), sat_add(self.n1 as int, self.n2 as int))),
                absi(sat_div(sat_sub(self.n1 as int, self.n2 as int), sat_add(self.n1 as int, self.n2 as int))),
            );
            lemma_sq_abs(sat_div(sat_sub(self.n1 as int, self.n2 as int), sat_add(self.n1 as int, self.n2 as int)));
        }
        let r0 = fmul(q, q);
        if self.n1 > self.n2 {
            let n = fdiv(self.n1, self.n2);
            let sin2t = fmul(fmul(n, n), fsub(SCALE, fmul(cos, cos)));
            if sin2t > SCALE {
                return SCALE;
            }
            proof {
                crate::fixed::lemma_sat_mul_unit(cos as int, cos as int);
                crate::geometry::vector::lemma_sat_sq_nonneg(n as int);
                lemma_sat_mul_nonneg(
                    sat_mul(n as int, n as int),
                    sat_sub(SCALE as int, sat_mul(cos as int, cos as int)),
                );
            }
            let cos_t = fsqrt(fsub(SCALE, sin2t));
            proof {
                lemma_sqrt_unit(sat_sub(SCALE as int, sin2t as int));
            }
            let x = fsub(SCALE, cos_t);
            let x5 = fpow(x, 5);
            proof {
                lemma_schlick_combine(r0 as int, x5 as int);
            }
            fadd(r0, fmul(fsub(SCALE, r0), x5))
        } else {
            let x = fsub(SCALE, cos);
            let x5 = fpow(x, 5);
            proof {
                lemma_schlick_combine(r0 as int, x5 as int);
            }
            fadd(r0, fmul(fsub(SCALE, r0), x5))
        }
    }
}

/// The relative-difference quotient of two genuine refractive indices lies
/// in `[-1, 1]`.
proof fn lemma_q_unit(n1: int, n2: int)
    requires
        SCALE <= n1 <= LIM,
        SCALE <= n2 <= LIM,
    ensures
        absi(sat_div(sat_sub(n1, n2), sat_add(n1, n2))) <= SCALE,
{
    let num = sat_sub(n1, n2);
    let den = sat_add(n1, n2);
    assert(absi(num) <= den);
    assert(absi(num * SCALE) <= den * SCALE) by (nonlinear_arith)
        requires
            absi(num) <= den,
            0 <= den,
    ;
    crate::fixed::lemma_tdiv_mag_mono(num * SCALE, den * SCALE, den);
    assert(den * SCALE / den == SCALE) by {
        vstd::arithmetic::div_mod::lemma_div_multiples_vanish(SCALE as int, den);
        assert(den * SCALE == SCALE * den) by (nonlinear_arith);
    }
}

/// A square through the saturating product of magnitudes.
proof fn lemma_sq_abs(q: int)
    ensures
        sat_mul(q, q) == sat_mul(absi(q), absi(q)),
{
    assert(q * q == absi(q) * absi(q)) by (nonlinear_arith);
}

/// A nonnegative bounded argument keeps its root within one.
proof fn lemma_sqrt_unit(a: int)
    requires
        0 <= a <= SCALE,
    ensures
        0 <= sat_sqrt(a) <= SCALE,
{
    let n = a * SCALE;
    assert(a * SCALE <= SCALE * SCALE) by (nonlinear_arith)
        requires
            0 <= a <= SCALE,
    ;
    assert(0 <= a * SCALE) by (nonlinear_arith)
        requires
            0 <= a,
    ;
    let r = sqrt_floor(n);
    lemma_sqrt_exists(n);
    assert((SCALE + 1) * (SCALE + 1) > SCALE * SCALE) by (nonlinear_arith);
    if r > SCALE {
        assert(r * r >= (SCALE + 1) * (SCALE + 1)) by (nonlinear_arith)
            requires
                r >= SCALE + 1,
        ;
    }
}

/// The chosen root of a nonnegative argument satisfies its defining
/// property, because some root exists.
proof fn lemma_sqrt_exists(n: int)
    requires
        0 <= n,
    ensures
        crate::fixed::is_sqrt(n, sqrt_floor(n)),
{
    lemma_sqrt_exists_rec(n);
    let r = choose|r: int| #[trigger] crate::fixed::is_sqrt(n, r);
    assert(crate::fixed::is_sqrt(n, r));
}

/// A product of nonnegative scalars is nonnegative.
proof fn lemma_sat_mul_nonneg(a: int, b: int)
    requires
        0 <= a,
        0 <= b,
    ensures
        0 <= sat_mul(a, b),
{
    assert(0 <= a * b) by (nonlinear_arith)
        requires
            0 <= a,
            0 <= b,
    ;
    vstd::arithmetic::div_mod::lemma_div_pos_is_pos(a * b, SCALE as int);
    assert(absi(a * b) == a * b);
}

/// Existence of the integer square root, by induction.
proof fn lemma_sqrt_exists_rec(n: int)
    requires
        0 <= n,
    ensures
        exists|r: int| #[trigger] crate::fixed::is_sqrt(n, r),
    decreases n,
{
    if n == 0 {
        assert(crate::fixed::is_sqrt(0, 0));
    } else {
        let m = n - 1;
        lemma_sqrt_exists_rec(m);
        let r = choose|r: int| #[trigger] crate::fixed::is_sqrt(m, r);
        if (r + 1) * (r + 1) <= n {
            assert(crate::fixed::is_sqrt(n, r + 1)) by (nonlinear_arith)
                requires
                    0 <= r,
                    r * r <= n - 1,
                    n - 1 < (r + 1) * (r + 1),
                    (r + 1) * (r + 1) <= n,
            ;
        } else {
            assert(crate::fixed::is_sqrt(n, r));
        }
    }
}

/// The Schlick combination of a base reflectance and a fifth power stays in
/// the unit interval.
proof fn lemma_schlick_combine(r0: int, x5: int)
    requires
        0 <= r0 <= SCALE,
        0 <= x5 <= SCALE,
    ensures
        0 <= sat_add(r0, sat_mul(sat_sub(SCALE as int, r0), x5)) <= SCALE,
{
    crate::fixed::lemma_sat_mul_unit(sat_sub(SCALE as int, r0), x5);
    assert(sat_mul(sat_sub(SCALE as int, r0), x5) <= sat_sub(SCALE as int, r0)) by {
        let a = sat_sub(SCALE as int, r0);
        assert(absi(a * x5) <= a * SCALE) by (nonlinear_arith)
            requires
                0 <= a,
                0 <= x5 <= SCALE,
        ;
        crate::fixed::lemma_tdiv_mag_mono(a * x5, a * SCALE, SCALE as int);
        vstd::arithmetic::div_mod::lemma_div_multiples_vanish(a, SCALE as int);
        assert(a * SCALE == SCALE * a) by (nonlinear_arith);
        assert(a * SCALE / (SCALE as int) == a);
    }
}

} // verus!

//! Intersections of a ray with the objects of a scene, and the choice of
//! the one that the ray visibly strikes.

use vstd::prelude::*;

use crate::distance::{is_less, is_nonnegative, key, order_key};

verus! {

broadcast use vstd::seq_lib::group_to_multiset_ensures;

/// A point where a ray meets an object: the ray parameter `t`, held as the
/// bit pattern of its binary64 value, and the index of the object in the
/// scene's list of objects.
#[derive(Clone, Copy, Debug, PartialEq, Eq, Structural)]
pub struct Intersection {
    pub t_bits: u64,
    pub object: usize,
}

impl Intersection {
    /// An intersection at the parameter with bit pattern `t_bits`, on object `object`.
    pub fn new(t_bits: u64, object: usize) -> (r: Intersection)
        ensures
            r.t_bits == t_bits,
            r.object == object,
    {
        Intersection { t_bits, object }
    }

    /// The order key of `t`.
    pub open spec fn t_key(self) -> int {
        key(self.t_bits)
    }

    /// Whether the intersection lies at or ahead of the ray's origin (`t >= 0`).
    pub open spec fn is_ahead(self) -> bool {
        self.t_key() >= 0
    }
}

impl Default for Intersection {
    /// An intersection at `t = 0.0` on object 0.
    fn default() -> (r: Intersection)
        ensures
            r.t_bits == 0,
            r.object == 0,
    {
        Intersection { t_bits: 0, object: 0 }
    }
}

/// Index `k` of `xs` holds its hit: an intersection with `t >= 0` whose `t` is
/// the least of all such, and the first of those with that least `t`.
pub open spec fn is_hit_at(xs: Seq<Intersection>, k: int) -> bool {
    &&& 0 <= k < xs.len()
    &&& xs[k].is_ahead()
    &&& forall|j: int| 0 <= j < xs.len() && (#[trigger] xs[j]).is_ahead()
            ==> xs[k].t_key() <= xs[j].t_key()
    &&& forall|j: int| 0 <= j < k && (#[trigger] xs[j]).is_ahead()
            ==> xs[k].t_key() < xs[j].t_key()
}

/// Whether `xs` holds no intersection with `t >= 0`.
pub open spec fn none_ahead(xs: Seq<Intersection>) -> bool {
    forall|j: int| 0 <= j < xs.len() ==> !(#[trigger] xs[j]).is_ahead()
}

/// Whether `xs` is in ascending order of `t`.
pub open spec fn sorted_by_t(xs: Seq<Intersection>) -> bool {
    forall|i: int, j: int| 0 <= i < j < xs.len() ==> (#[trigger] xs[i]).t_key() <= (#[trigger] xs[j]).t_key()
}

/// Selection of the visible intersection.
pub trait Hit {
    /// The intersection with the least non-negative `t`, if there is one.
    fn hit(&self) -> Option<Intersection>;
}

impl Hit for Vec<Intersection> {
    fn hit(&self) -> (r: Option<Intersection>)
        ensures
            r is None <==> none_ahead(self@),
            r matches Some(h) ==> exists|k: int| is_hit_at(self@, k) && self@[k] == h,
            r matches Some(h) ==> h.is_ahead() && forall|j: int| 0 <= j < self@.len()
                && (#[trigger] self@[j]).is_ahead() ==> h.t_key() <= self@[j].t_key(),
    {
        let mut best: Option<usize> = None;
        let mut i: usize = 0;
        while i < self.len()
            invariant
                i <= self.len(),
                best is None ==> forall|j: int| 0 <= j < i ==> !(#[trigger] self@[j]).is_ahead(),
                best matches Some(b) ==> {
                    &&& b < i
                    &&& self@[b as int].is_ahead()
                    &&& forall|j: int| 0 <= j < i && (#[trigger] self@[j]).is_ahead()
                            ==> self@[b as int].t_key() <= self@[j].t_key()
                    &&& forall|j: int| 0 <= j < b && (#[trigger] self@[j]).is_ahead()
                            ==> self@[b as int].t_key() < self@[j].t_key()
                },
            decreases self.len() - i,
        {
            let x = self[i];
            if is_nonnegative(x.t_bits) {
                match best {
                    None => {
                        best = Some(i);
                    },
                    Some(b) => {
                        if is_less(x.t_bits, self[b].t_bits) {
                            best = Some(i);
                        }
                    },
                }
            }
            i += 1;
        }
        match best {
            None => None,
            Some(b) => {
                assert(is_hit_at(self@, b as int));
                Some(self[b])
            },
        }
    }
}

/// The intersections of `xs` whose `t` has order key `k`, in their order in `xs`.
pub open spec fn with_t_key(xs: Seq<Intersection>, k: int) -> Seq<Intersection> {
    xs.filter(|y: Intersection| y.t_key() == k)
}

proof fn lemma_none_with_t_key(xs: Seq<Intersection>, k: int)
    requires
        forall|j: int| 0 <= j < xs.len() ==> (#[trigger] xs[j]).t_key() != k,
    ensures
        with_t_key(xs, k) == Seq::<Intersection>::empty(),
    decreases xs.len(),
{
    if xs.len() > 0 {
        let init = xs.drop_last();
        lemma_none_with_t_key(init, k);
        assert(init.push(xs.last()) == xs);
        init.lemma_filter_push(xs.last(), |y: Intersection| y.t_key() == k);
    }
}

/// `xs` with `x` put at `p`, where everything before `p` has a key at most
/// `x`'s and everything from `p` on a greater one: for each key, the
/// intersections with that key are those of `xs`, with `x` last when the key is `x`'s.
proof fn lemma_insert_with_t_key(xs: Seq<Intersection>, p: int, x: Intersection, k: int)
    requires
        0 <= p <= xs.len(),
        forall|q: int| 0 <= q < p ==> (#[trigger] xs[q]).t_key() <= x.t_key(),
        forall|q: int| p <= q < xs.len() ==> x.t_key() < (#[trigger] xs[q]).t_key(),
    ensures
        with_t_key(xs.insert(p, x), k) == if k == x.t_key() {
            with_t_key(xs, k).push(x)
        } else {
            with_t_key(xs, k)
        },
{
    let pred = |y: Intersection| y.t_key() == k;
    let a = xs.take(p);
    let b = xs.skip(p);
    assert(xs == a + b);
    assert(xs.insert(p, x) == a.push(x) + b);
    Seq::filter_distributes_over_add(a, b, pred);
    Seq::filter_distributes_over_add(a.push(x), b, pred);
    a.lemma_filter_push(x, pred);
    if k == x.t_key() {
        assert forall|j: int| 0 <= j < b.len() implies (#[trigger] b[j]).t_key() != k by {
            assert(b[j] == xs[p + j]);
        }
        lemma_none_with_t_key(b, k);
        assert(a.filter(pred) + b.filter(pred) == a.filter(pred));
        assert(a.filter(pred).push(x) + b.filter(pred) == a.filter(pred).push(x));
    }
}

/// The intersections of `xs` in ascending order of `t`; those with equal `t`
/// keep their order.
pub fn sort_by_t(xs: &Vec<Intersection>) -> (r: Vec<Intersection>)
    ensures
        sorted_by_t(r@),
        forall|k: int| #[trigger] with_t_key(r@, k) == with_t_key(xs@, k),
        r@.to_multiset() == xs@.to_multiset(),
{
    let mut r: Vec<Intersection> = Vec::new();
    let mut i: usize = 0;
    while i < xs.len()
        invariant
            i <= xs.len(),
            r@.to_multiset() == xs@.take(i as int).to_multiset(),
            sorted_by_t(r@),
            forall|k: int| #[trigger] with_t_key(r@, k) == with_t_key(xs@.take(i as int), k),
        decreases xs.len() - i,
    {
        let x = xs[i];
        let kx = order_key(x.t_bits);
        let mut p: usize = 0;
        while p < r.len() && order_key(r[p].t_bits) <= kx
            invariant
                p <= r.len(),
                kx == x.t_key(),
                forall|q: int| 0 <= q < p ==> (#[trigger] r@[q]).t_key() <= x.t_key(),
            decreases r.len() - p,
        {
            p += 1;
        }
        assert(forall|q: int| p <= q < r.len() ==> x.t_key() < (#[trigger] r@[q]).t_key()) by {
            if p < r.len() {
                assert(x.t_key() < r@[p as int].t_key());
            }
        }
        let ghost before = r@;
        r.insert(p, x);
        assert(xs@.take(i + 1) == xs@.take(i as int).push(x));
        assert forall|k: int| #[trigger] with_t_key(r@, k) == with_t_key(xs@.take(i + 1), k) by {
            lemma_insert_with_t_key(before, p as int, x, k);
            xs@.take(i as int).lemma_filter_push(x, |y: Intersection| y.t_key() == k);
        }
        i += 1;
    }
    assert(xs@.take(xs.len() as int) == xs@);
    r
}

/// The intersections at parameters `ts`, all on object `object`, in the order of `ts`.
pub open spec fn on_object(ts: Seq<u64>, object: int) -> Seq<Intersection> {
    ts.map_values(|t: u64| Intersection { t_bits: t, object: object as usize })
}

/// The intersections of every object, object by object: `per_object[i]`
/// holds the parameters at which a ray meets object `i`.
pub open spec fn all_objects(per_object: Seq<Seq<u64>>) -> Seq<Intersection>
    decreases per_object.len(),
{
    if per_object.len() == 0 {
        Seq::empty()
    } else {
        all_objects(per_object.drop_last()) + on_object(per_object.last(), per_object.len() - 1)
    }
}

/// The intersections of a ray with a scene, in ascending order of `t`:
/// `per_object[i]` holds the parameters at which the ray meets object `i`.
/// Intersections with equal `t` keep the order of the objects, and within
/// one object the order of `per_object[i]`.
pub fn scene_intersections(per_object: &Vec<Vec<u64>>) -> (r: Vec<Intersection>)
    ensures
        sorted_by_t(r@),
        forall|k: int| #[trigger] with_t_key(r@, k) == with_t_key(all_objects(per_object@.map_values(|ts: Vec<u64>| ts@)), k),
        r@.to_multiset() == all_objects(per_object@.map_values(|ts: Vec<u64>| ts@)).to_multiset(),
{
    let ghost views = per_object@.map_values(|ts: Vec<u64>| ts@);
    let mut all: Vec<Intersection> = Vec::new();
    let mut o: usize = 0;
    while o < per_object.len()
        invariant
            o <= per_object.len(),
            views == per_object@.map_values(|ts: Vec<u64>| ts@),
            all@ == all_objects(views.take(o as int)),
        decreases per_object.len() - o,
    {
        let ts = &per_object[o];
        let ghost start = all@;
        let mut j: usize = 0;
        while j < ts.len()
            invariant
                j <= ts.len(),
                all@ == start + on_object(ts@.take(j as int), o as int),
            decreases ts.len() - j,
        {
            all.push(Intersection::new(ts[j], o));
            assert(ts@.take(j + 1) == ts@.take(j as int).push(ts@[j as int]));
            assert(on_object(ts@.take(j + 1), o as int)
                == on_object(ts@.take(j as int), o as int).push(Intersection { t_bits: ts@[j as int], object: o }));
            j += 1;
        }
        assert(ts@.take(ts.len() as int) == ts@);
        assert(views.take(o + 1).drop_last() == views.take(o as int));
        assert(views.take(o + 1).last() == ts@);
        o += 1;
    }
    assert(views.take(per_object.len() as int) == views);
    sort_by_t(&all)
}

/// A scene none of whose objects meets the ray has no intersection, so
/// `scene_intersections` gives an empty list, whose hit is `None`.
pub proof fn lemma_scene_without_meetings(per_object: Seq<Seq<u64>>)
    requires
        forall|i: int| 0 <= i < per_object.len() ==> (#[trigger] per_object[i]).len() == 0,
    ensures
        all_objects(per_object) == Seq::<Intersection>::empty(),
        none_ahead(all_objects(per_object)),
    decreases per_object.len(),
{
    if per_object.len() > 0 {
        let init = per_object.drop_last();
        assert forall|i: int| 0 <= i < init.len() implies (#[trigger] init[i]).len() == 0 by {
            assert(init[i] == per_object[i]);
        }
        lemma_scene_without_meetings(init);
        assert(per_object.last().len() == 0);
        assert(on_object(per_object.last(), per_object.len() - 1) == Seq::<Intersection>::empty());
        assert(all_objects(per_object) == all_objects(init) + Seq::<Intersection>::empty());
    }
}

/// Whether an object blocks the way to a light at distance `distance_bits`:
/// the hit of `xs` exists and lies nearer than the light.
pub fn is_occluded(xs: &Vec<Intersection>, distance_bits: u64) -> (r: bool)
    ensures
        r <==> exists|k: int| is_hit_at(xs@, k) && xs@[k].t_key() < key(distance_bits),
{
    match xs.hit() {
        None => false,
        Some(h) => is_less(h.t_bits, distance_bits),
    }
}

} // verus!

//! A scene: many primitives, of which the nearest one that is hit counts.
use crate::hitable::HitRecord;
use crate::hitable::Hitable;
use crate::scalar::Scalar;
use crate::sphere::lemma_tighter_bound;
use crate::sphere::within;
use vstd::prelude::*;
use vstd::seq_lib::to_multiset_contains;

verus! {

/// The upper bound that the next primitive is tested against: the distance
/// of the best hit so far, or `t_max` while there is none.
pub open spec fn closest_so_far(best: Option<HitRecord>, t_max: Scalar) -> Scalar {
    match best {
        Some(h) => h.t,
        None => t_max,
    }
}

/// What `hit` returns: each primitive in turn is tested below the best
/// distance found before it, and a hit there becomes the best.
pub open spec fn hit_spec(list: Seq<Hitable>, t_min: Scalar, t_max: Scalar) -> Option<HitRecord>
    decreases list.len(),
{
    if list.len() == 0 {
        None
    } else {
        let best = hit_spec(list.drop_last(), t_min, t_max);
        match list.last().hit_spec(t_min, closest_so_far(best, t_max)) {
            Some(h) => Some(h),
            None => best,
        }
    }
}

/// Whether every primitive of the list has its two solutions in order.
pub open spec fn all_ordered(list: Seq<Hitable>) -> bool {
    forall|i: int| 0 <= i < list.len() ==> (#[trigger] list[i]).roots.ordered()
}

/// Whether `h` is the hit of the primitive at `i`, no primitive is hit
/// nearer, and every primitive before `i` is hit strictly farther.
pub open spec fn is_nearest(
    list: Seq<Hitable>,
    t_min: Scalar,
    t_max: Scalar,
    i: int,
    h: HitRecord,
) -> bool {
    &&& 0 <= i < list.len()
    &&& list[i].hit_spec(t_min, t_max) == Some(h)
    &&& forall|j: int|
        0 <= j < list.len() ==> match (#[trigger] list[j]).hit_spec(t_min, t_max) {
            Some(g) => !g.t.below(h.t) && (j < i ==> h.t.below(g.t)),
            None => true,
        }
}

/// Whether no primitive of the list is hit between the bounds.
pub open spec fn none_hit(list: Seq<Hitable>, t_min: Scalar, t_max: Scalar) -> bool {
    forall|j: int| 0 <= j < list.len() ==> (#[trigger] list[j]).hit_spec(t_min, t_max) is None
}

/// The nearest intersection of the scene strictly between `t_min` and `t_max`:
/// the primitives are tested in turn, each below the best distance so far.
/// Where every primitive has its two solutions in order, that is the nearest
/// of their hits, whatever the order of the list.
pub fn hit(list: &Vec<Hitable>, t_min: Scalar, t_max: Scalar) -> (r: Option<HitRecord>)
    ensures
        r == hit_spec(list@, t_min, t_max),
        r matches Some(h) ==> within(h.t, t_min, t_max),
        all_ordered(list@) ==> match r {
            Some(h) => exists|i: int| is_nearest(list@, t_min, t_max, i, h),
            None => none_hit(list@, t_min, t_max),
        },
{
    let mut best: Option<HitRecord> = None;
    let mut closest: Scalar = t_max;
    let mut i: usize = 0;
    while i < list.len()
        invariant
            i <= list.len(),
            best == hit_spec(list@.take(i as int), t_min, t_max),
            closest == closest_so_far(best, t_max),
        decreases list.len() - i,
    {
        assert(list@.take(i + 1).drop_last() == list@.take(i as int));
        if let Some(h) = list[i].hit(t_min, closest) {
            closest = h.t;
            best = Some(h);
        }
        i += 1;
    }
    assert(list@.take(i as int) == list@);
    proof {
        lemma_hit_is_within(list@, t_min, t_max);
        if all_ordered(list@) {
            let nearest: int = lemma_hit_is_nearest(list@, t_min, t_max);
        }
    }
    best
}

/// The scene's hit lies strictly between the bounds, whatever the primitives.
pub proof fn lemma_hit_is_within(list: Seq<Hitable>, t_min: Scalar, t_max: Scalar)
    ensures
        hit_spec(list, t_min, t_max) matches Some(h) ==> within(h.t, t_min, t_max),
    decreases list.len(),
{
    if list.len() > 0 {
        lemma_hit_is_within(list.drop_last(), t_min, t_max);
    }
}

/// The scene's hit is the nearest of its primitives' hits, and among equally
/// near ones the first; it is none exactly where no primitive is hit. The
/// index returned is that of the primitive whose hit it is.
pub proof fn lemma_hit_is_nearest(list: Seq<Hitable>, t_min: Scalar, t_max: Scalar) -> (i: int)
    requires
        all_ordered(list),
    ensures
        match hit_spec(list, t_min, t_max) {
            Some(h) => is_nearest(list, t_min, t_max, i, h),
            None => none_hit(list, t_min, t_max),
        },
    decreases list.len(),
{
    if list.len() == 0 {
        0
    } else {
        let init = list.drop_last();
        let last = list.last();
        assert(forall|j: int| 0 <= j < init.len() ==> init[j] == list[j]);
        let before: int = lemma_hit_is_nearest(init, t_min, t_max);
        let best = hit_spec(init, t_min, t_max);
        lemma_tighter_bound(last.sphere, last.roots, t_min, t_max, closest_so_far(best, t_max));
        if hit_spec(list, t_min, t_max) == best {
            before
        } else {
            list.len() - 1
        }
    }
}

/// A primitive whose hit is strictly nearer than every other primitive's is
/// the one the scene reports, wherever in the list it stands.
pub proof fn lemma_strictly_nearest_wins(
    list: Seq<Hitable>,
    t_min: Scalar,
    t_max: Scalar,
    k: int,
    h: HitRecord,
)
    requires
        all_ordered(list),
        0 <= k < list.len(),
        list[k].hit_spec(t_min, t_max) == Some(h),
        forall|j: int|
            0 <= j < list.len() && j != k ==> match (#[trigger] list[j]).hit_spec(t_min, t_max) {
                Some(g) => h.t.below(g.t),
                None => true,
            },
    ensures
        hit_spec(list, t_min, t_max) == Some(h),
{
    let i: int = lemma_hit_is_nearest(list, t_min, t_max);
}

/// An element of one of two lists with the same elements is in the other.
proof fn lemma_member_of_both(a: Seq<Hitable>, b: Seq<Hitable>, x: Hitable)
    requires
        a.to_multiset() == b.to_multiset(),
        a.contains(x),
    ensures
        b.contains(x),
{
    to_multiset_contains(a, x);
    to_multiset_contains(b, x);
}

/// The distance of the scene's hit does not depend on the order of the list:
/// two lists of the same primitives are both missed, or both hit at the same
/// distance.
pub proof fn lemma_order_is_immaterial(
    a: Seq<Hitable>,
    b: Seq<Hitable>,
    t_min: Scalar,
    t_max: Scalar,
)
    requires
        all_ordered(a),
        a.to_multiset() == b.to_multiset(),
    ensures
        match (hit_spec(a, t_min, t_max), hit_spec(b, t_min, t_max)) {
            (Some(x), Some(y)) => x.t.same(y.t),
            (None, None) => true,
            _ => false,
        },
{
    assert forall|j: int| 0 <= j < b.len() implies (#[trigger] b[j]).roots.ordered() by {
        lemma_member_of_both(b, a, b[j]);
    }
    let i: int = lemma_hit_is_nearest(a, t_min, t_max);
    let j: int = lemma_hit_is_nearest(b, t_min, t_max);
    match hit_spec(a, t_min, t_max) {
        Some(x) => {
            lemma_member_of_both(a, b, a[i]);
            let in_b: int = choose|k: int| 0 <= k < b.len() && b[k] == a[i];
            lemma_member_of_both(b, a, b[j]);
            let in_a: int = choose|k: int| 0 <= k < a.len() && a[k] == b[j];
        },
        None => {
            if hit_spec(b, t_min, t_max) is Some {
                lemma_member_of_both(b, a, b[j]);
                let in_a: int = choose|k: int| 0 <= k < a.len() && a[k] == b[j];
            }
        },
    }
}

} // verus!

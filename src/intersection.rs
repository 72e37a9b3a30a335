use vstd::prelude::*;
use vstd::seq_lib::{to_multiset_build, to_multiset_insert};

use crate::scalar::{Scalar, ZERO_BITS};
use crate::tuple::Tuple;

verus! {

/// A candidate hit: the ray parameter `t` at which the ray meets the body
/// whose index in the scene is `object`.
#[derive(Clone, Copy, Debug, PartialEq, Eq, Structural)]
pub struct Intersection {
    pub t: Scalar,
    pub object: usize,
}

/// `t ≥ 0`: the intersection lies on the ray, not behind its origin.
pub open spec fn in_front(i: Intersection) -> bool {
    Scalar(ZERO_BITS).spec_le(i.t)
}

/// Ascending in `t` by IEEE-754's total order.
pub open spec fn sorted_by_t(xs: Seq<Intersection>) -> bool {
    forall|i: int, j: int| 0 <= i < j < xs.len() ==> (#[trigger] xs[i]).t.order_key() <= (#[trigger] xs[j]).t.order_key()
}

/// `h` is the hit among `xs`: one of them, in front of the ray origin, and
/// with no intersection in front of the origin nearer than it.
pub open spec fn is_hit(xs: Seq<Intersection>, h: Intersection) -> bool {
    &&& xs.contains(h)
    &&& in_front(h)
    &&& forall|i: int| 0 <= i < xs.len() && in_front(#[trigger] xs[i]) ==> h.t.order_key() <= xs[i].t.order_key()
}

/// The surface normal turned toward the eye, and whether the eye is inside
/// the body: it is when the normal points away from it
/// (`normal_dot_eye < 0`), and the normal is then flipped.
pub fn face_eye(normal: Tuple, normal_dot_eye: Scalar) -> (r: (Tuple, bool))
    ensures
        r.1 == normal_dot_eye.spec_lt(Scalar(ZERO_BITS)),
        r.0 == if r.1 { normal.spec_neg() } else { normal },
{
    if normal_dot_eye.lt(Scalar::zero()) {
        (normal.neg(), true)
    } else {
        (normal, false)
    }
}

impl Intersection {
    pub fn new(t: Scalar, object: usize) -> (r: Intersection)
        ensures
            r == (Intersection { t, object }),
    {
        Intersection { t, object }
    }

    pub fn get_t(&self) -> (r: Scalar)
        ensures
            r == self.t,
    {
        self.t
    }

    pub fn get_object(&self) -> (r: usize)
        ensures
            r == self.object,
    {
        self.object
    }

    /// Sorts the intersections by ascending `t`.
    pub fn sort(intersections: &mut Vec<Intersection>)
        ensures
            final(intersections)@.to_multiset() == old(intersections)@.to_multiset(),
            sorted_by_t(final(intersections)@),
    {
        let ghost input = intersections@;
        let mut sorted: Vec<Intersection> = Vec::new();
        let mut i: usize = 0;
        assert(sorted@ =~= input.subrange(0, 0));
        while i < intersections.len()
            invariant
                intersections@ == input,
                i <= input.len(),
                sorted_by_t(sorted@),
                sorted@.to_multiset() == input.subrange(0, i as int).to_multiset(),
            decreases input.len() - i,
        {
            let x = intersections[i];
            let mut p: usize = 0;
            while p < sorted.len() && sorted[p].t.total_le(x.t)
                invariant
                    p <= sorted@.len(),
                    forall|k: int| 0 <= k < p ==> (#[trigger] sorted@[k]).t.order_key() <= x.t.order_key(),
                decreases sorted@.len() - p,
            {
                p += 1;
            }
            let ghost before = sorted@;
            assert(p < before.len() ==> x.t.order_key() < before[p as int].t.order_key());
            sorted.insert(p, x);
            proof {
                assert(sorted_by_t(sorted@)) by {
                    assert forall|a: int, b: int| 0 <= a < b < sorted@.len() implies (#[trigger] sorted@[a]).t.order_key() <= (#[trigger] sorted@[b]).t.order_key() by {
                        if a < p && b > p {
                            assert(sorted@[a] == before[a]);
                            assert(sorted@[b] == before[b - 1]);
                        } else if a == p && b > p {
                            assert(before[p as int].t.order_key() <= before[b - 1].t.order_key());
                        }
                    }
                }
                to_multiset_insert(before, p as int, x);
                to_multiset_build(input.subrange(0, i as int), x);
                assert(input.subrange(0, i + 1) == input.subrange(0, i as int).push(x));
            }
            i += 1;
        }
        assert(input.subrange(0, input.len() as int) == input);
        *intersections = sorted;
    }

    /// Sorts the intersections by ascending `t` and returns the first that
    /// lies in front of the ray origin (`t ≥ 0`), if there is one.
    pub fn find_hit(intersections: &mut Vec<Intersection>) -> (r: Option<Intersection>)
        ensures
            final(intersections)@.to_multiset() == old(intersections)@.to_multiset(),
            sorted_by_t(final(intersections)@),
            r is Some <==> exists|i: int| 0 <= i < old(intersections)@.len() && in_front(#[trigger] old(intersections)@[i]),
            r matches Some(h) ==> is_hit(old(intersections)@, h),
            r matches Some(h) ==> exists|k: int| {
                &&& 0 <= k < final(intersections)@.len()
                &&& final(intersections)@[k] == h
                &&& forall|j: int| 0 <= j < k ==> !in_front(#[trigger] final(intersections)@[j])
            },
    {
        Intersection::sort(intersections);
        let ghost xs = intersections@;
        let mut k: usize = 0;
        while k < intersections.len()
            invariant
                intersections@ == xs,
                sorted_by_t(xs),
                xs.to_multiset() == old(intersections)@.to_multiset(),
                k <= xs.len(),
                forall|j: int| 0 <= j < k ==> !in_front(#[trigger] xs[j]),
            decreases xs.len() - k,
        {
            if Scalar::zero().le(intersections[k].t) {
                let h = intersections[k];
                proof {
                    lemma_first_in_front_is_hit(xs, k as int);
                    lemma_same_multiset_contains(xs, old(intersections)@);
                    assert(xs.contains(h));
                    assert forall|i: int| 0 <= i < old(intersections)@.len() && in_front(#[trigger] old(intersections)@[i]) implies h.t.order_key() <= old(intersections)@[i].t.order_key() by {
                        let y = old(intersections)@[i];
                        assert(old(intersections)@.contains(y));
                        let m = choose|m: int| 0 <= m < xs.len() && xs[m] == y;
                    }
                }
                return Some(h);
            }
            k += 1;
        }
        proof {
            lemma_same_multiset_contains(xs, old(intersections)@);
            assert forall|i: int| 0 <= i < old(intersections)@.len() implies !in_front(#[trigger] old(intersections)@[i]) by {
                let y = old(intersections)@[i];
                assert(old(intersections)@.contains(y));
            }
        }
        None
    }
}

/// In a sorted list, the first intersection in front of the origin is the hit.
proof fn lemma_first_in_front_is_hit(xs: Seq<Intersection>, k: int)
    requires
        sorted_by_t(xs),
        0 <= k < xs.len(),
        in_front(xs[k]),
        forall|j: int| 0 <= j < k ==> !in_front(#[trigger] xs[j]),
    ensures
        forall|m: int| 0 <= m < xs.len() && in_front(#[trigger] xs[m]) ==> xs[k].t.order_key() <= xs[m].t.order_key(),
{
    assert forall|m: int| 0 <= m < xs.len() && in_front(#[trigger] xs[m]) implies xs[k].t.order_key() <= xs[m].t.order_key() by {
        if m < k {
        } else if m > k {
            assert(xs[k].t.order_key() <= xs[m].t.order_key());
        }
    }
}

/// Two sequences with one multiset hold the same elements.
proof fn lemma_same_multiset_contains(a: Seq<Intersection>, b: Seq<Intersection>)
    requires
        a.to_multiset() == b.to_multiset(),
    ensures
        forall|x: Intersection| a.contains(x) <==> b.contains(x),
{
    broadcast use vstd::seq_lib::to_multiset_contains;
    assert forall|x: Intersection| a.contains(x) <==> b.contains(x) by {
        if a.contains(x) {
            assert(a.to_multiset().count(x) > 0);
        }
        if b.contains(x) {
            assert(b.to_multiset().count(x) > 0);
        }
    }
}

} // verus!

use vstd::prelude::*;

verus! {

/// What one primitive reported for a ray: `None` when it was missed, else
/// the hit's order key.
///
/// An order key ranks hits as their distances along the ray rank them (for
/// strictly positive finite distances, the IEEE-754 bit pattern is such a
/// key), so the nearest hit is the one with the smallest key.
pub type HitKey = Option<u64>;

/// Hit `i` is the nearest of `hits`: it is present, no present hit is nearer,
/// and every earlier present hit is strictly farther (the first of equally
/// near hits wins).
pub open spec fn is_nearest(hits: Seq<HitKey>, i: int) -> bool {
    &&& 0 <= i < hits.len()
    &&& hits[i] is Some
    &&& forall|j: int|
        0 <= j < hits.len() && (#[trigger] hits[j]) is Some ==> hits[i]->0 <= hits[j]->0
    &&& forall|j: int| 0 <= j < i && (#[trigger] hits[j]) is Some ==> hits[i]->0 < hits[j]->0
}

/// No primitive was hit.
pub open spec fn all_missed(hits: Seq<HitKey>) -> bool {
    forall|j: int| 0 <= j < hits.len() ==> (#[trigger] hits[j]) is None
}

/// Resolves the nearest hit among what each primitive of a scene reported,
/// in the scene's order; `None` when the ray missed them all.
pub fn nearest_hit(hits: &Vec<HitKey>) -> (r: Option<usize>)
    ensures
        r is None <==> all_missed(hits@),
        r matches Some(i) ==> is_nearest(hits@, i as int),
{
    let mut best: Option<usize> = None;
    let mut k: usize = 0;
    while k < hits.len()
        invariant
            k <= hits.len(),
            best is None <==> all_missed(hits@.subrange(0, k as int)),
            best matches Some(i) ==> is_nearest(hits@.subrange(0, k as int), i as int),
        decreases hits.len() - k,
    {
        proof {
            assert(hits@.subrange(0, k + 1) =~= hits@.subrange(0, k as int).push(hits@[k as int]));
        }
        if let Some(key) = hits[k] {
            match best {
                None => {
                    best = Some(k);
                },
                Some(i) => {
                    if key < hits[i].unwrap() {
                        best = Some(k);
                    }
                },
            }
        }
        k = k + 1;
    }
    proof {
        assert(hits@.subrange(0, k as int) =~= hits@);
    }
    best
}

/// The nearest hit does not depend on the order in which the primitives were
/// registered: two hit lists holding the same hits, in any order, resolve to
/// hits at the same distance.
pub proof fn lemma_nearest_ignores_order(a: Seq<HitKey>, b: Seq<HitKey>, i: int, j: int)
    requires
        a.to_multiset() == b.to_multiset(),
        is_nearest(a, i),
        is_nearest(b, j),
    ensures
        a[i] == b[j],
{
    a.to_multiset_ensures();
    b.to_multiset_ensures();
    assert(a.contains(a[i]));
    assert(a.to_multiset().count(a[i]) > 0);
    assert(b.to_multiset().count(a[i]) > 0);
    let m = choose|m: int| 0 <= m < b.len() && b[m] == a[i];
    assert(b[j]->0 <= b[m]->0);
    assert(b.contains(b[j]));
    assert(b.to_multiset().count(b[j]) > 0);
    assert(a.to_multiset().count(b[j]) > 0);
    let n = choose|n: int| 0 <= n < a.len() && a[n] == b[j];
    assert(a[i]->0 <= a[n]->0);
}

} // verus!

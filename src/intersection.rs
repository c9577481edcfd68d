use vstd::prelude::*;

verus! {

// Distances along a ray are carried here as order keys: a `u64` whose integer
// order agrees with the order of the non-negative distances it stands for.
// Every key outside the open interval `(t_min, t_max)` is rejected, so only the
// relative order of keys matters to the logic below.

/// Whether distance `t` lies strictly between `t_min` and `t_max`.
pub open spec fn in_range(t: u64, t_min: u64, t_max: u64) -> bool {
    t_min < t && t < t_max
}

/// The root a primitive reports: the nearer root if it lies in range,
/// otherwise the farther one if that does, otherwise none.
pub open spec fn spec_first_root(near: u64, far: u64, t_min: u64, t_max: u64) -> Option<u64> {
    if in_range(near, t_min, t_max) {
        Some(near)
    } else if in_range(far, t_min, t_max) {
        Some(far)
    } else {
        None
    }
}

/// `i` indexes a hit whose distance is minimal among all hits, and no hit
/// before it has that same distance.
pub open spec fn is_nearest(hits: Seq<Option<u64>>, i: int) -> bool {
    &&& 0 <= i < hits.len()
    &&& hits[i] is Some
    &&& forall|j: int| 0 <= j < hits.len() && #[trigger] hits[j] is Some ==> hits[i]->0 <= hits[j]->0
    &&& forall|j: int| 0 <= j < i && #[trigger] hits[j] is Some ==> hits[i]->0 < hits[j]->0
}

/// Chooses between the two roots of a primitive's intersection equation.
pub fn first_root_in_range(near: u64, far: u64, t_min: u64, t_max: u64) -> (r: Option<u64>)
    ensures
        r == spec_first_root(near, far, t_min, t_max),
{
    if t_min < near && near < t_max {
        Some(near)
    } else if t_min < far && far < t_max {
        Some(far)
    } else {
        None
    }
}

/// The hit each primitive reports under the bounds `(t_min, t_max)`, given
/// the roots of its intersection equation (`None` where there are none).
pub open spec fn object_hits(roots: Seq<Option<(u64, u64)>>, t_min: u64, t_max: u64) -> Seq<Option<u64>> {
    roots.map_values(
        |p: Option<(u64, u64)>|
            match p {
                Some((near, far)) => spec_first_root(near, far, t_min, t_max),
                None => None,
            },
    )
}

/// The nearer root comes first whenever both lie in range.
pub open spec fn roots_ordered(p: Option<(u64, u64)>, t_min: u64, t_max: u64) -> bool {
    p matches Some((near, far)) ==> (in_range(near, t_min, t_max) && in_range(far, t_min, t_max) ==> near <= far)
}

/// Narrowing the upper bound keeps a primitive's hit when it is still nearer
/// than the new bound, and drops it otherwise.
proof fn lemma_first_root_tightened(near: u64, far: u64, t_min: u64, t_max: u64, bound: u64)
    requires
        bound <= t_max,
        in_range(near, t_min, t_max) && in_range(far, t_min, t_max) ==> near <= far,
    ensures
        spec_first_root(near, far, t_min, bound) == match spec_first_root(near, far, t_min, t_max) {
            Some(t) => if t < bound { Some(t) } else { None },
            None => None,
        },
{
}

/// World intersection: walks the primitives in insertion order, offering each
/// its roots under an upper bound that shrinks to the nearest hit found so far.
/// A later primitive can only replace the best hit by a strictly nearer one,
/// so the result is the nearest hit, and equal distances go to the earliest
/// primitive. Returns that primitive's index and the distance.
pub fn closest_hit(roots: &Vec<Option<(u64, u64)>>, t_min: u64, t_max: u64) -> (r: Option<(usize, u64)>)
    requires
        forall|i: int| 0 <= i < roots@.len() ==> #[trigger] roots_ordered(roots@[i], t_min, t_max),
    ensures
        r matches Some((i, t)) ==> {
            &&& is_nearest(object_hits(roots@, t_min, t_max), i as int)
            &&& object_hits(roots@, t_min, t_max)[i as int] == Some(t)
        },
        r is None <==> forall|j: int|
            0 <= j < roots@.len() ==> #[trigger] object_hits(roots@, t_min, t_max)[j] is None,
{
    let ghost hits = object_hits(roots@, t_min, t_max);
    let mut best: Option<(usize, u64)> = None;
    let mut closest: u64 = t_max;
    let mut i: usize = 0;
    while i < roots.len()
        invariant
            i <= roots@.len(),
            hits == object_hits(roots@, t_min, t_max),
            hits.len() == roots@.len(),
            forall|i: int| 0 <= i < roots@.len() ==> #[trigger] roots_ordered(roots@[i], t_min, t_max),
            closest <= t_max,
            best matches Some((b, t)) ==> {
                &&& b < i
                &&& t == closest
                &&& hits[b as int] == Some(closest)
                &&& forall|j: int| 0 <= j < i && #[trigger] hits[j] is Some ==> closest <= hits[j]->0
                &&& forall|j: int| 0 <= j < b && #[trigger] hits[j] is Some ==> closest < hits[j]->0
            },
            best is None ==> closest == t_max && forall|j: int| 0 <= j < i ==> #[trigger] hits[j] is None,
        decreases roots@.len() - i,
    {
        assert(roots_ordered(roots@[i as int], t_min, t_max));
        if let Some((near, far)) = roots[i] {
            proof {
                lemma_first_root_tightened(near, far, t_min, t_max, closest);
            }
            if let Some(t) = first_root_in_range(near, far, t_min, closest) {
                best = Some((i, t));
                closest = t;
            }
        }
        i = i + 1;
    }
    best
}

} // verus!

use vstd::prelude::*;

verus! {

/// What happens to a path at its current segment: it leaves the scene toward
/// the sky, it is absorbed by a surface, or it scatters into a new segment.
pub enum Interaction<S> {
    Escaped(S),
    Absorbed,
    Scattered(S),
}

/// How a traced path ends: lit by the sky in some final state, or dark
/// (absorbed, or out of bounces).
pub enum PathEnd<S> {
    Sky(S),
    Dark,
}

/// Each state in `states` scatters into the next one.
pub open spec fn scatter_chain<S, F: Fn(S) -> Interaction<S>>(interact: F, states: Seq<S>) -> bool {
    forall|k: int|
        0 <= k < states.len() - 1 ==> #[trigger] interact.ensures(
            (states[k],),
            Interaction::Scattered(states[k + 1]),
        )
}

/// A possible run from `start` that ends in `end`: a chain of scatters, then
/// an escape or an absorption, or else `depth` scatters in a row. Either way
/// `interact` is consulted at most `depth` times.
pub open spec fn traced<S, F: Fn(S) -> Interaction<S>>(
    interact: F,
    start: S,
    depth: int,
    end: PathEnd<S>,
) -> bool {
    exists|states: Seq<S>|
        {
            &&& 1 <= states.len() <= depth + 1
            &&& states[0] == start
            &&& scatter_chain(interact, states)
            &&& match end {
                PathEnd::Sky(s) => states.len() <= depth && interact.ensures(
                    (states.last(),),
                    Interaction::Escaped(s),
                ),
                PathEnd::Dark => states.len() == depth + 1 || (states.len() <= depth
                    && interact.ensures((states.last(),), Interaction::Absorbed)),
            }
        }
}

/// Follows a path from `start`, asking `interact` what happens at each
/// segment, for at most `depth` interactions. A path that runs out of depth
/// is dark, so a non-positive `depth` gives `Dark` without any interaction.
pub fn trace_path<S, F: Fn(S) -> Interaction<S>>(start: S, depth: i32, interact: &F) -> (r: PathEnd<S>)
    requires
        forall|s: S| #[trigger] interact.requires((s,)),
    ensures
        depth <= 0 ==> r is Dark,
        depth > 0 ==> traced(*interact, start, depth as int, r),
{
    if depth <= 0 {
        return PathEnd::Dark;
    }
    let ghost mut states: Seq<S> = seq![start];
    let mut state = start;
    let mut left: i32 = depth;
    loop
        invariant
            0 < left <= depth,
            states.len() == depth - left + 1,
            states[0] == start,
            states.last() == state,
            scatter_chain(*interact, states),
            forall|s: S| #[trigger] interact.requires((s,)),
        decreases left,
    {
        let step = interact(state);
        match step {
            Interaction::Escaped(s) => {
                let r = PathEnd::Sky(s);
                assert(traced(*interact, start, depth as int, r)) by {
                    assert(states.last() == state);
                }
                return r;
            },
            Interaction::Absorbed => {
                assert(traced(*interact, start, depth as int, PathEnd::Dark));
                return PathEnd::Dark;
            },
            Interaction::Scattered(next) => {
                let ghost prev = states;
                proof {
                    states = states.push(next);
                    assert forall|k: int| 0 <= k < states.len() - 1 implies #[trigger] interact.ensures(
                        (states[k],),
                        Interaction::Scattered(states[k + 1]),
                    ) by {
                        if k < prev.len() - 1 {
                            assert(states[k] == prev[k] && states[k + 1] == prev[k + 1]);
                        } else {
                            assert(states[k] == state);
                        }
                    }
                }
                state = next;
                if left == 1 {
                    assert(states.len() == depth + 1 && states[0] == start);
                    assert(traced(*interact, start, depth as int, PathEnd::Dark));
                    return PathEnd::Dark;
                }
                left = left - 1;
            },
        }
    }
}

} // verus!

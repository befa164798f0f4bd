use vstd::prelude::*;

verus! {

/// Step budget of the renderer: a ray that has not met a surface after this
/// many probes is taken to have escaped.
pub const MAX_STEPS: usize = 64;

/// What one probe of the distance field along a ray decides.
#[derive(Debug, Clone, Copy, PartialEq, Eq)]
pub enum Probe<S> {
    /// The field is below the hit threshold here: the ray has met a surface.
    Surface,
    /// The ray moves on to this next position (the current one advanced by
    /// the distance bound).
    Advance(S),
}

/// One probe at `from` may move the ray on to `to`.
pub open spec fn advances_to<S, F: Fn(&S) -> Probe<S>>(probe: F, from: S, to: S) -> bool {
    call_ensures(probe, (&from,), Probe::Advance(to))
}

/// One probe at `at` may report a surface.
pub open spec fn meets_surface<S, F: Fn(&S) -> Probe<S>>(probe: F, at: S) -> bool {
    call_ensures(probe, (&at,), Probe::Surface)
}

/// Each position of `walk` is one probe's advance from the one before it.
pub open spec fn is_walk<S, F: Fn(&S) -> Probe<S>>(probe: F, walk: Seq<S>) -> bool {
    forall|i: int| 0 <= i < walk.len() - 1 ==> #[trigger] advances_to(probe, walk[i], walk[i + 1])
}

/// `walk` is the path of a march from `start` with at most `max_steps`
/// probes that ended in `r`: after `r.0` advances from `start` the ray either
/// met a surface there, reported as `Some` of that position, or ran out of
/// budget, reported as `None` with the whole budget spent.
pub open spec fn march_walk<S, F: Fn(&S) -> Probe<S>>(
    probe: F,
    max_steps: nat,
    start: S,
    r: (usize, Option<S>),
    walk: Seq<S>,
) -> bool {
    &&& walk.len() == r.0 + 1
    &&& walk[0] == start
    &&& is_walk(probe, walk)
    &&& match r.1 {
        Some(s) => r.0 < max_steps && s == walk[r.0 as int] && meets_surface(probe, s),
        None => r.0 == max_steps,
    }
}

/// `r` is a possible outcome of marching from `start` with at most
/// `max_steps` probes.
pub open spec fn is_march<S, F: Fn(&S) -> Probe<S>>(
    probe: F,
    max_steps: nat,
    start: S,
    r: (usize, Option<S>),
) -> bool {
    &&& r.0 <= max_steps
    &&& exists|walk: Seq<S>| #[trigger] march_walk(probe, max_steps, start, r, walk)
}

/// Sphere tracing: probes the field at `start`, then at each position the
/// probe advances to, and stops at the first probe that reports a surface or
/// once `max_steps` probes have been made. Returns the number of advances made
/// and, on a hit, the position where the surface was met.
pub fn ray_march<S, F: Fn(&S) -> Probe<S>>(max_steps: usize, start: S, probe: F) -> (r: (
    usize,
    Option<S>,
))
    requires
        forall|s: S| #[trigger] call_requires(probe, (&s,)),
    ensures
        r.0 <= max_steps,
        r.1 is None <==> r.0 == max_steps,
        is_march(probe, max_steps as nat, start, r),
{
    let ghost mut walk: Seq<S> = seq![start];
    let mut t = start;
    let mut step: usize = 0;
    while step < max_steps
        invariant
            forall|s: S| #[trigger] call_requires(probe, (&s,)),
            step <= max_steps,
            walk.len() == step + 1,
            walk[0] == start,
            walk[step as int] == t,
            is_walk(probe, walk),
        decreases max_steps - step,
    {
        match probe(&t) {
            Probe::Surface => {
                assert(march_walk(probe, max_steps as nat, start, (step, Some(t)), walk));
                return (step, Some(t));
            },
            Probe::Advance(next) => {
                proof {
                    let old_walk = walk;
                    walk = walk.push(next);
                    assert forall|i: int| 0 <= i < walk.len() - 1 implies #[trigger] advances_to(
                        probe,
                        walk[i],
                        walk[i + 1],
                    ) by {
                        if i < old_walk.len() - 1 {
                            assert(advances_to(probe, old_walk[i], old_walk[i + 1]));
                        }
                    }
                }
                t = next;
                step += 1;
            },
        }
    }
    assert(march_walk(probe, max_steps as nat, start, (step, None), walk));
    (step, None)
}

} // verus!

//! Which bodies pull on which: the pair plan of the n-body force pass.
use vstd::prelude::*;
use crate::body::{BodyState, massive_flags};

verus! {

/// Source `source` pulls on target `target`: both are bodies, the source is
/// massive, and they are different bodies (identity, not distance, excludes
/// self-interaction).
pub open spec fn pulls(massive: Seq<bool>, target: int, source: int) -> bool {
    0 <= target < massive.len() && 0 <= source < massive.len() && massive[source] && target
        != source
}

/// The pairs `(target, source)` for one target, over the sources below `k`,
/// in increasing source order.
pub open spec fn sources_upto(massive: Seq<bool>, target: int, k: int) -> Seq<(usize, usize)>
    decreases k,
{
    if k <= 0 {
        seq![]
    } else {
        let before = sources_upto(massive, target, k - 1);
        if pulls(massive, target, k - 1) {
            before.push((target as usize, (k - 1) as usize))
        } else {
            before
        }
    }
}

/// The pairs of all targets below `t`, target by target.
pub open spec fn pairs_upto(massive: Seq<bool>, t: int) -> Seq<(usize, usize)>
    decreases t,
{
    if t <= 0 {
        seq![]
    } else {
        pairs_upto(massive, t - 1) + sources_upto(massive, t - 1, massive.len() as int)
    }
}

/// The order in which the force pass sums pulls: by target, then by source.
pub open spec fn interaction_order(massive: Seq<bool>) -> Seq<(usize, usize)> {
    pairs_upto(massive, massive.len() as int)
}

/// Strict lexicographic order on pairs.
pub open spec fn pair_lt(a: (usize, usize), b: (usize, usize)) -> bool {
    a.0 < b.0 || (a.0 == b.0 && a.1 < b.1)
}

/// Lists, in summation order, every pair `(target, source)` for which
/// `source` pulls on `target`; `nbody_accelerate` sums the pulls in this
/// order.
pub fn interaction_pairs<V, M>(bodies: &Vec<BodyState<V, M>>) -> (pairs: Vec<(usize, usize)>)
    ensures
        pairs@ == interaction_order(massive_flags(bodies@)),
{
    let ghost massive = massive_flags(bodies@);
    let n = bodies.len();
    let mut pairs: Vec<(usize, usize)> = Vec::new();
    let mut t: usize = 0;
    while t < n
        invariant
            t <= n,
            n == bodies.len(),
            massive == massive_flags(bodies@),
            pairs@ == pairs_upto(massive, t as int),
        decreases n - t,
    {
        let mut s: usize = 0;
        while s < n
            invariant
                t < n,
                s <= n,
                n == bodies.len(),
                massive == massive_flags(bodies@),
                pairs@ == pairs_upto(massive, t as int) + sources_upto(massive, t as int, s as int),
            decreases n - s,
        {
            let ghost before = pairs@;
            if s != t && bodies[s].gravitational_parameter.is_some() {
                pairs.push((t, s));
                assert(pairs@ =~= pairs_upto(massive, t as int) + sources_upto(
                    massive,
                    t as int,
                    s + 1,
                ));
            } else {
                assert(pairs@ =~= pairs_upto(massive, t as int) + sources_upto(
                    massive,
                    t as int,
                    s + 1,
                ));
            }
            s += 1;
        }
        t += 1;
    }
    pairs
}

proof fn lemma_sources_upto(massive: Seq<bool>, target: int, k: int)
    requires
        massive.len() <= usize::MAX,
        0 <= target < massive.len(),
        0 <= k <= massive.len(),
    ensures
        forall|i: int|
            0 <= i < sources_upto(massive, target, k).len() ==> {
                let p = #[trigger] sources_upto(massive, target, k)[i];
                p.0 as int == target && (p.1 as int) < k && pulls(massive, target, p.1 as int)
            },
        forall|i: int, j: int|
            0 <= i < j < sources_upto(massive, target, k).len() ==> sources_upto(
                massive,
                target,
                k,
            )[i].1 < sources_upto(massive, target, k)[j].1,
        forall|b: int|
            0 <= b < k && pulls(massive, target, b) ==> sources_upto(massive, target, k).contains(
                (target as usize, b as usize),
            ),
    decreases k,
{
    if k > 0 {
        lemma_sources_upto(massive, target, k - 1);
        let before = sources_upto(massive, target, k - 1);
        if pulls(massive, target, k - 1) {
            let now = before.push((target as usize, (k - 1) as usize));
            assert(now[before.len() as int] == (target as usize, (k - 1) as usize));
            assert forall|b: int| 0 <= b < k && pulls(massive, target, b) implies now.contains(
                (target as usize, b as usize),
            ) by {
                if b < k - 1 {
                    let i = choose|i: int| 0 <= i < before.len() && before[i] == (target as usize, b as usize);
                    assert(now[i] == before[i]);
                }
            }
        }
    }
}

proof fn lemma_pairs_upto(massive: Seq<bool>, t: int)
    requires
        massive.len() <= usize::MAX,
        0 <= t <= massive.len(),
    ensures
        forall|i: int|
            0 <= i < pairs_upto(massive, t).len() ==> {
                let p = #[trigger] pairs_upto(massive, t)[i];
                (p.0 as int) < t && pulls(massive, p.0 as int, p.1 as int)
            },
        forall|i: int, j: int|
            0 <= i < j < pairs_upto(massive, t).len() ==> pair_lt(
                pairs_upto(massive, t)[i],
                pairs_upto(massive, t)[j],
            ),
        forall|a: int, b: int|
            0 <= a < t && pulls(massive, a, b) ==> pairs_upto(massive, t).contains(
                (a as usize, b as usize),
            ),
    decreases t,
{
    if t > 0 {
        let n = massive.len() as int;
        lemma_pairs_upto(massive, t - 1);
        lemma_sources_upto(massive, t - 1, n);
        let before = pairs_upto(massive, t - 1);
        let last = sources_upto(massive, t - 1, n);
        let now = before + last;
        assert(now == pairs_upto(massive, t));
        assert forall|i: int| 0 <= i < now.len() implies {
            let p = #[trigger] now[i];
            (p.0 as int) < t && pulls(massive, p.0 as int, p.1 as int)
        } by {
            if i >= before.len() {
                assert(now[i] == last[i - before.len()]);
            }
        }
        assert forall|i: int, j: int| 0 <= i < j < now.len() implies pair_lt(now[i], now[j]) by {
            if j < before.len() {
            } else if i < before.len() {
                assert(now[j] == last[j - before.len()]);
                assert(before[i] == now[i]);
            } else {
                assert(now[i] == last[i - before.len()]);
                assert(now[j] == last[j - before.len()]);
            }
        }
        assert forall|a: int, b: int| 0 <= a < t && pulls(massive, a, b) implies now.contains(
            (a as usize, b as usize),
        ) by {
            if a < t - 1 {
                let i = choose|i: int| 0 <= i < before.len() && before[i] == (a as usize, b as usize);
                assert(now[i] == before[i]);
            } else {
                let i = choose|i: int| 0 <= i < last.len() && last[i] == (a as usize, b as usize);
                assert(now[before.len() + i] == last[i]);
            }
        }
    }
}

/// Every pair `(target, source)` in which a massive source pulls on another
/// body is summed, nothing else is, and each pair comes once: the order is
/// strictly increasing by target, then by source.
pub proof fn lemma_interaction_order(massive: Seq<bool>)
    requires
        massive.len() <= usize::MAX,
    ensures
        forall|i: int|
            0 <= i < interaction_order(massive).len() ==> pulls(
                massive,
                (#[trigger] interaction_order(massive)[i]).0 as int,
                interaction_order(massive)[i].1 as int,
            ),
        forall|t: int, s: int|
            pulls(massive, t, s) ==> #[trigger] interaction_order(massive).contains(
                (t as usize, s as usize),
            ),
        forall|i: int, j: int|
            0 <= i < j < interaction_order(massive).len() ==> pair_lt(
                interaction_order(massive)[i],
                interaction_order(massive)[j],
            ),
{
    lemma_pairs_upto(massive, massive.len() as int);
}

/// Two bodies of an interacting pair stand at the same position: the pull
/// between them would divide by zero.
#[derive(Clone, Copy, Debug, PartialEq, Eq, Structural)]
pub struct DegenerateSeparation {
    pub target: usize,
    pub source: usize,
}

/// `coincide` reports zero separation for pair `p` of `bodies`.
pub open spec fn separation_zero<V, M, C: Fn(V, V) -> bool>(
    bodies: Seq<BodyState<V, M>>,
    coincide: C,
    p: (usize, usize),
    answer: bool,
) -> bool {
    coincide.ensures((bodies[p.0 as int].position, bodies[p.1 as int].position), answer)
}

/// Rejects initial conditions in which a body stands where a massive body
/// that pulls on it stands. `coincide(a, b)` tells whether two positions are
/// at zero distance. The first such pair in summation order is reported;
/// without one, every pulling pair is at a non-zero separation.
pub fn check_separations<V: Copy, M, C: Fn(V, V) -> bool>(
    bodies: &Vec<BodyState<V, M>>,
    coincide: C,
) -> (r: Result<(), DegenerateSeparation>)
    requires
        forall|a: V, b: V| coincide.requires((a, b)),
    ensures
        r is Ok ==> forall|t: int, s: int|
            pulls(massive_flags(bodies@), t, s) ==> separation_zero(
                bodies@,
                coincide,
                (t as usize, s as usize),
                false,
            ),
        r matches Err(e) ==> exists|k: int|
            0 <= k < interaction_order(massive_flags(bodies@)).len() && #[trigger] interaction_order(
                massive_flags(bodies@),
            )[k] == (e.target, e.source) && separation_zero(
                bodies@,
                coincide,
                (e.target, e.source),
                true,
            ) && forall|j: int|
                0 <= j < k ==> separation_zero(
                    bodies@,
                    coincide,
                    #[trigger] interaction_order(massive_flags(bodies@))[j],
                    false,
                ),
{
    let pairs = interaction_pairs(bodies);
    let ghost massive = massive_flags(bodies@);
    let n = bodies.len();
    proof {
        assert(massive.len() == n);
        lemma_interaction_order(massive);
    }
    let mut k: usize = 0;
    while k < pairs.len()
        invariant
            k <= pairs@.len(),
            pairs@ == interaction_order(massive),
            massive == massive_flags(bodies@),
            massive.len() == bodies@.len(),
            forall|i: int|
                0 <= i < pairs@.len() ==> pulls(
                    massive,
                    (#[trigger] pairs@[i]).0 as int,
                    pairs@[i].1 as int,
                ),
            forall|a: V, b: V| coincide.requires((a, b)),
            forall|j: int| 0 <= j < k ==> separation_zero(bodies@, coincide, #[trigger] pairs@[j], false),
        decreases pairs@.len() - k,
    {
        let (t, s) = pairs[k];
        assert(pulls(massive, pairs@[k as int].0 as int, pairs@[k as int].1 as int));
        if coincide(bodies[t].position, bodies[s].position) {
            return Err(DegenerateSeparation { target: t, source: s });
        }
        k += 1;
    }
    assert forall|t: int, s: int| pulls(massive_flags(bodies@), t, s) implies separation_zero(
        bodies@,
        coincide,
        (t as usize, s as usize),
        false,
    ) by {
        assert(pairs@.contains((t as usize, s as usize)));
    }
    Ok(())
}

/// The accelerations of `bodies`, by index.
pub open spec fn accelerations<V, M>(bodies: Seq<BodyState<V, M>>) -> Seq<V> {
    bodies.map_values(|b: BodyState<V, M>| b.acceleration)
}

/// One summation step: `after` is `before` with the pull of source `p.1` on
/// target `p.0` added into the target's acceleration by `pull(acc, target,
/// source, mu)`.
pub open spec fn pull_step<V, M, P: Fn(V, V, V, M) -> V>(
    bodies: Seq<BodyState<V, M>>,
    p: (usize, usize),
    before: Seq<V>,
    after: Seq<V>,
    pull: P,
) -> bool {
    let t = p.0 as int;
    let s = p.1 as int;
    &&& after == before.update(t, after[t])
    &&& pull.ensures(
        (
            before[t],
            bodies[t].position,
            bodies[s].position,
            bodies[s].gravitational_parameter->Some_0,
        ),
        after[t],
    )
}

/// `end` is `start` after the pull of every pair of `order` is added, one
/// pair after the other in that order.
pub open spec fn summed_in_order<V, M, P: Fn(V, V, V, M) -> V>(
    bodies: Seq<BodyState<V, M>>,
    order: Seq<(usize, usize)>,
    start: Seq<V>,
    end: Seq<V>,
    pull: P,
) -> bool {
    exists|trace: Seq<Seq<V>>|
        {
            &&& trace.len() == order.len() + 1
            &&& trace[0] == start
            &&& trace[order.len() as int] == end
            &&& forall|k: int|
                0 <= k < order.len() ==> pull_step(bodies, #[trigger] order[k], trace[k], trace[k + 1], pull)
        }
}

/// `after` is `before` after the force pass: the same bodies, moving alike,
/// whose accelerations have received every pull in summation order.
pub open spec fn accumulated<V, M, P: Fn(V, V, V, M) -> V>(
    before: Seq<BodyState<V, M>>,
    after: Seq<BodyState<V, M>>,
    pull: P,
) -> bool {
    &&& after.len() == before.len()
    &&& forall|i: int|
        0 <= i < before.len() ==> {
            &&& (#[trigger] after[i]).position == before[i].position
            &&& after[i].velocity == before[i].velocity
            &&& after[i].gravitational_parameter == before[i].gravitational_parameter
        }
    &&& summed_in_order(
        before,
        interaction_order(massive_flags(before)),
        accelerations(before),
        accelerations(after),
        pull,
    )
}

/// The force pass of one sub-step: adds into each body's acceleration the
/// pull of every other massive body, pair by pair in summation order.
///
/// `pull(acc, target, source, mu)` is
/// `acc + mu * (source - target) / |source - target|^3`. Positions,
/// velocities and gravitational parameters are left as they are.
pub fn nbody_accelerate<V: Copy, M: Copy, P: Fn(V, V, V, M) -> V>(
    bodies: &mut Vec<BodyState<V, M>>,
    pull: P,
)
    requires
        forall|a: V, t: V, s: V, m: M| pull.requires((a, t, s, m)),
    ensures
        accumulated(old(bodies)@, final(bodies)@, pull),
{
    let pairs = interaction_pairs(bodies);
    let ghost start = old(bodies)@;
    let ghost massive = massive_flags(start);
    let n = bodies.len();
    proof {
        assert(massive.len() == n);
        lemma_interaction_order(massive);
    }
    let ghost mut trace: Seq<Seq<V>> = seq![accelerations(start)];
    let mut k: usize = 0;
    while k < pairs.len()
        invariant
            k <= pairs@.len(),
            pairs@ == interaction_order(massive),
            massive == massive_flags(start),
            start == old(bodies)@,
            n == start.len(),
            bodies@.len() == n,
            forall|i: int|
                0 <= i < pairs@.len() ==> pulls(
                    massive,
                    (#[trigger] pairs@[i]).0 as int,
                    pairs@[i].1 as int,
                ),
            forall|a: V, t: V, s: V, m: M| pull.requires((a, t, s, m)),
            forall|i: int|
                0 <= i < n ==> {
                    &&& (#[trigger] bodies@[i]).position == start[i].position
                    &&& bodies@[i].velocity == start[i].velocity
                    &&& bodies@[i].gravitational_parameter == start[i].gravitational_parameter
                },
            trace.len() == k + 1,
            trace[0] == accelerations(start),
            trace[k as int] == accelerations(bodies@),
            forall|j: int| 0 <= j < k ==> pull_step(start, #[trigger] pairs@[j], trace[j], trace[j + 1], pull),
        decreases pairs@.len() - k,
    {
        let (t, s) = pairs[k];
        assert(pulls(massive, pairs@[k as int].0 as int, pairs@[k as int].1 as int));
        let target = bodies[t];
        let source = bodies[s];
        assert(massive[s as int] == start[s as int].gravitational_parameter is Some);
        if let Some(mu) = source.gravitational_parameter {
            let acc = pull(target.acceleration, target.position, source.position, mu);
            bodies.set(
                t,
                BodyState {
                    position: target.position,
                    velocity: target.velocity,
                    acceleration: acc,
                    gravitational_parameter: target.gravitational_parameter,
                },
            );
            proof {
                let before = trace[k as int];
                assert(accelerations(bodies@) =~= before.update(t as int, acc));
                trace = trace.push(accelerations(bodies@));
                assert(pull_step(start, pairs@[k as int], trace[k as int], trace[k + 1], pull));
            }
        }
        k += 1;
    }
    proof {
        assert(trace[pairs@.len() as int] == accelerations(bodies@));
    }
}

} // verus!

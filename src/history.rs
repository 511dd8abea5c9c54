//! Bounded orbit histories and their realignment to a reference body.
use vstd::prelude::*;
use std::collections::VecDeque;

verus! {

/// Upper bound on the number of samples that one history keeps.
#[derive(Clone, Copy, Debug, PartialEq, Eq, Structural)]
pub struct OrbitHistoryMaxSize(pub usize);

impl Default for OrbitHistoryMaxSize {
    fn default() -> (r: Self)
        ensures
            r.0 == 1_000_000,
    {
        OrbitHistoryMaxSize(1_000_000)
    }
}

/// `samples` after `sample` is appended to a history bounded by `max`: the
/// oldest samples leave first, so that at most `max` remain.
pub open spec fn bounded_push<T>(samples: Seq<T>, sample: T, max: nat) -> Seq<T> {
    let grown = samples.push(sample);
    if grown.len() <= max {
        grown
    } else {
        grown.subrange(grown.len() - max, grown.len() as int)
    }
}

/// `samples` after each of `pushed` is appended in turn.
pub open spec fn bounded_push_all<T>(samples: Seq<T>, pushed: Seq<T>, max: nat) -> Seq<T>
    decreases pushed.len(),
{
    if pushed.len() == 0 {
        samples
    } else {
        bounded_push(bounded_push_all(samples, pushed.drop_last(), max), pushed.last(), max)
    }
}

/// The last `min(max, s.len())` elements of `s`, in order.
pub open spec fn latest<T>(s: Seq<T>, max: nat) -> Seq<T> {
    if s.len() <= max {
        s
    } else {
        s.subrange(s.len() - max, s.len() as int)
    }
}

/// A history that holds at most `max` samples keeps, whatever is pushed into
/// it, the most recent `max` of all the samples it has seen, oldest first.
pub proof fn lemma_history_keeps_latest<T>(samples: Seq<T>, pushed: Seq<T>, max: nat)
    requires
        samples.len() <= max,
    ensures
        bounded_push_all(samples, pushed, max) == latest(samples + pushed, max),
        bounded_push_all(samples, pushed, max).len() <= max,
    decreases pushed.len(),
{
    if pushed.len() > 0 {
        let rest = pushed.drop_last();
        lemma_history_keeps_latest(samples, rest, max);
        let all = samples + pushed;
        assert((samples + rest).push(pushed.last()) =~= all);
        let before = samples + rest;
        if before.len() > max {
            assert(latest(before, max).push(pushed.last()) =~= all.subrange(
                before.len() - max,
                all.len() as int,
            ));
            assert(all.subrange(before.len() - max, all.len() as int).subrange(
                1,
                max as int + 1,
            ) =~= all.subrange(all.len() - max, all.len() as int));
        } else if all.len() > max {
            assert(all.subrange(0, all.len() as int).subrange(
                1,
                all.len() as int,
            ) =~= all.subrange(all.len() - max, all.len() as int));
            assert(all.subrange(0, all.len() as int) =~= all);
        }
    }
}

/// The samples of one tracked body, oldest first, bounded in number.
pub struct OrbitHistory<T> {
    samples: VecDeque<T>,
    max_size: usize,
}

impl<T> View for OrbitHistory<T> {
    type V = Seq<T>;

    closed spec fn view(&self) -> Seq<T> {
        self.samples@
    }
}

impl<T: Copy> OrbitHistory<T> {
    /// The bound on the number of samples.
    pub closed spec fn capacity(&self) -> nat {
        self.max_size as nat
    }

    /// The history holds no more samples than its bound.
    pub closed spec fn wf(&self) -> bool {
        self.samples@.len() <= self.max_size
    }

    /// An empty history that keeps at most `max_size` samples.
    pub fn new(max_size: OrbitHistoryMaxSize) -> (r: Self)
        ensures
            r.wf(),
            r@ == Seq::<T>::empty(),
            r.capacity() == max_size.0,
    {
        OrbitHistory { samples: VecDeque::new(), max_size: max_size.0 }
    }

    /// Appends `sample`, evicting the oldest sample when the history is full.
    pub fn push_sample(&mut self, sample: T)
        requires
            old(self).wf(),
        ensures
            final(self).wf(),
            final(self).capacity() == old(self).capacity(),
            final(self)@ == bounded_push(old(self)@, sample, old(self).capacity()),
    {
        self.samples.push_back(sample);
        if self.samples.len() > self.max_size {
            let _ = self.samples.pop_front();
        }
        assert(self.samples@ =~= bounded_push(old(self)@, sample, old(self).capacity()));
    }

    pub fn len(&self) -> (r: usize)
        ensures
            r == self@.len(),
    {
        self.samples.len()
    }

    pub fn max_size(&self) -> (r: OrbitHistoryMaxSize)
        ensures
            r.0 == self.capacity(),
    {
        OrbitHistoryMaxSize(self.max_size)
    }

    /// The samples, oldest first.
    pub fn to_vec(&self) -> (r: Vec<T>)
        ensures
            r@ == self@,
    {
        let mut out: Vec<T> = Vec::new();
        let mut i: usize = 0;
        while i < self.samples.len()
            invariant
                i <= self.samples@.len(),
                out@ == self.samples@.subrange(0, i as int),
            decreases self.samples@.len() - i,
        {
            out.push(self.samples[i]);
            i += 1;
            assert(out@ =~= self.samples@.subrange(0, i as int));
        }
        assert(self.samples@.subrange(0, self.samples@.len() as int) =~= self.samples@);
        out
    }
}

/// Number of samples that two histories share when aligned at their most
/// recent ends.
pub open spec fn aligned_len(a: nat, b: nat) -> nat {
    if a <= b {
        a
    } else {
        b
    }
}

/// `points` is the trail drawn for `own`.
///
/// Without a reference, point `i` is `absolute(own[i])`. With a reference
/// history `rh`, the two are aligned by age from their most recent samples
/// and only the shared tail is drawn: point `j` is
/// `relative(own sample, reference sample of the same age, last reference sample)`,
/// that is `own - reference + reference.last()` narrowed for the renderer.
pub open spec fn trail_matches<T, R, F: Fn(T, T, T) -> R, G: Fn(T) -> R>(
    own: Seq<T>,
    reference: Option<Seq<T>>,
    relative: F,
    absolute: G,
    points: Seq<R>,
) -> bool {
    match reference {
        None => {
            &&& points.len() == own.len()
            &&& forall|i: int| 0 <= i < own.len() ==> absolute.ensures((own[i],), #[trigger] points[i])
        },
        Some(rh) => {
            let k = aligned_len(own.len(), rh.len());
            &&& points.len() == k
            &&& forall|j: int|
                0 <= j < k ==> relative.ensures(
                    (own[own.len() - k + j], rh[rh.len() - k + j], rh.last()),
                    #[trigger] points[j],
                )
        },
    }
}

/// The reference body's own trail, drawn against itself, pairs every sample
/// with itself: each point is `relative(h[j], h[j], h.last())`, which is the
/// reference's current position, so the reference body stands still.
pub proof fn lemma_reference_trail_pairs_itself<T, R, F: Fn(T, T, T) -> R, G: Fn(T) -> R>(
    h: Seq<T>,
    relative: F,
    absolute: G,
    points: Seq<R>,
)
    requires
        trail_matches(h, Some(h), relative, absolute, points),
    ensures
        points.len() == h.len(),
        forall|j: int|
            0 <= j < h.len() ==> relative.ensures((h[j], h[j], h.last()), #[trigger] points[j]),
{
}

impl<T: Copy> OrbitHistory<T> {
    /// The trail of this history, realigned to `reference` when there is one.
    pub fn trail<R, F: Fn(T, T, T) -> R, G: Fn(T) -> R>(
        &self,
        reference: Option<&OrbitHistory<T>>,
        relative: &F,
        absolute: &G,
    ) -> (points: Vec<R>)
        requires
            forall|h: T, r: T, a: T| relative.requires((h, r, a)),
            forall|h: T| absolute.requires((h,)),
        ensures
            trail_matches(
                self@,
                match reference {
                    Some(h) => Some(h@),
                    None => None,
                },
                *relative,
                *absolute,
                points@,
            ),
    {
        let mut points: Vec<R> = Vec::new();
        match reference {
            None => {
                let n = self.samples.len();
                let mut i: usize = 0;
                while i < n
                    invariant
                        i <= n,
                        n == self@.len(),
                        points@.len() == i,
                        forall|h: T| absolute.requires((h,)),
                        forall|j: int|
                            0 <= j < i ==> absolute.ensures((self@[j],), #[trigger] points@[j]),
                    decreases n - i,
                {
                    let p = absolute(self.samples[i]);
                    points.push(p);
                    i += 1;
                }
            },
            Some(rh) => {
                let own_len = self.samples.len();
                let ref_len = rh.samples.len();
                let k = if own_len <= ref_len {
                    own_len
                } else {
                    ref_len
                };
                if k > 0 {
                    let anchor = rh.samples[ref_len - 1];
                    let mut j: usize = 0;
                    while j < k
                        invariant
                            j <= k,
                            k == aligned_len(self@.len(), rh@.len()),
                            own_len == self@.len(),
                            ref_len == rh@.len(),
                            k > 0,
                            anchor == rh@.last(),
                            points@.len() == j,
                            forall|h: T, r: T, a: T| relative.requires((h, r, a)),
                            forall|i: int|
                                0 <= i < j ==> relative.ensures(
                                    (self@[own_len - k + i], rh@[ref_len - k + i], anchor),
                                    #[trigger] points@[i],
                                ),
                        decreases k - j,
                    {
                        let p = relative(
                            self.samples[own_len - k + j],
                            rh.samples[ref_len - k + j],
                            anchor,
                        );
                        points.push(p);
                        j += 1;
                    }
                }
            },
        }
        points
    }
}

/// The orbit history tracker: one bounded history per tracked body, all with
/// the same bound, and an optional selected reference body.
///
/// A selection that names no history (a transient UI state) is not an
/// error: the trails are then drawn in absolute coordinates.
pub struct OrbitHistoryPlugin<T> {
    histories: Vec<OrbitHistory<T>>,
    max_size: usize,
    selected: Option<usize>,
}

impl<T: Copy> OrbitHistoryPlugin<T> {
    /// The samples of each tracked body, by index.
    pub closed spec fn histories(&self) -> Seq<Seq<T>> {
        self.histories@.map_values(|h: OrbitHistory<T>| h@)
    }

    /// The bound shared by all histories.
    pub closed spec fn capacity(&self) -> nat {
        self.max_size as nat
    }

    /// The selected reference body, resolved or not.
    pub closed spec fn selected(&self) -> Option<usize> {
        self.selected
    }

    pub closed spec fn wf(&self) -> bool {
        forall|i: int|
            0 <= i < self.histories@.len() ==> (#[trigger] self.histories@[i]).wf()
                && self.histories@[i].capacity() == self.max_size
    }

    /// The history used as the zero point of the trails: that of the
    /// selected body when the selection names one, none otherwise.
    pub open spec fn reference_history(&self) -> Option<Seq<T>> {
        match self.selected() {
            Some(i) => if i < self.histories().len() {
                Some(self.histories()[i as int])
            } else {
                None
            },
            None => None,
        }
    }

    /// A tracker of no bodies, with no reference selected.
    pub fn new(max_size: OrbitHistoryMaxSize) -> (r: Self)
        ensures
            r.wf(),
            r.histories() == Seq::<Seq<T>>::empty(),
            r.capacity() == max_size.0,
            r.selected() is None,
    {
        let r = OrbitHistoryPlugin { histories: Vec::new(), max_size: max_size.0, selected: None };
        assert(r.histories() =~= Seq::<Seq<T>>::empty());
        r
    }

    /// Starts tracking one more body, with an empty history; returns its index.
    pub fn track(&mut self) -> (index: usize)
        requires
            old(self).wf(),
        ensures
            final(self).wf(),
            index == old(self).histories().len(),
            final(self).histories() == old(self).histories().push(Seq::<T>::empty()),
            final(self).capacity() == old(self).capacity(),
            final(self).selected() == old(self).selected(),
    {
        let index = self.histories.len();
        let fresh = OrbitHistory::new(OrbitHistoryMaxSize(self.max_size));
        self.histories.push(fresh);
        assert(self.histories() =~= old(self).histories().push(Seq::<T>::empty()));
        index
    }

    /// Number of tracked bodies.
    pub fn len(&self) -> (r: usize)
        ensures
            r == self.histories().len(),
    {
        self.histories.len()
    }

    /// Selects the reference body, or clears the selection.
    pub fn select_reference(&mut self, target: Option<usize>)
        requires
            old(self).wf(),
        ensures
            final(self).wf(),
            final(self).selected() == target,
            final(self).histories() == old(self).histories(),
            final(self).capacity() == old(self).capacity(),
    {
        self.selected = target;
    }

    /// The history of body `index`.
    pub fn history(&self, index: usize) -> (r: &OrbitHistory<T>)
        requires
            index < self.histories().len(),
        ensures
            r@ == self.histories()[index as int],
    {
        &self.histories[index]
    }

    /// The sampling pass: appends `positions[i]` to the history of body `i`,
    /// for every tracked body, evicting the oldest sample of a full history.
    pub fn sample(&mut self, positions: &Vec<T>)
        requires
            old(self).wf(),
            positions@.len() == old(self).histories().len(),
        ensures
            final(self).wf(),
            final(self).histories().len() == old(self).histories().len(),
            forall|i: int|
                0 <= i < positions@.len() ==> #[trigger] final(self).histories()[i] == bounded_push(
                    old(self).histories()[i],
                    positions@[i],
                    old(self).capacity(),
                ),
            final(self).capacity() == old(self).capacity(),
            final(self).selected() == old(self).selected(),
    {
        let n = positions.len();
        let mut i: usize = 0;
        while i < n
            invariant
                i <= n,
                n == positions@.len(),
                self.histories@.len() == n,
                old(self).histories@.len() == n,
                self.max_size == old(self).max_size,
                self.selected == old(self).selected,
                self.wf(),
                forall|j: int|
                    0 <= j < i ==> #[trigger] self.histories@[j]@ == bounded_push(
                        old(self).histories()[j],
                        positions@[j],
                        old(self).capacity(),
                    ),
                forall|j: int| i <= j < n ==> #[trigger] self.histories@[j] == old(self).histories@[j],
            decreases n - i,
        {
            self.histories[i].push_sample(positions[i]);
            i += 1;
        }
        assert forall|j: int| 0 <= j < n implies #[trigger] self.histories()[j] == bounded_push(
            old(self).histories()[j],
            positions@[j],
            old(self).capacity(),
        ) by {
            assert(self.histories()[j] == self.histories@[j]@);
        }
    }

    /// The reference history, when the selection names a tracked body.
    pub fn reference(&self) -> (r: Option<&OrbitHistory<T>>)
        ensures
            match r {
                Some(h) => self.reference_history() == Some(h@),
                None => self.reference_history() is None,
            },
    {
        match self.selected {
            Some(i) => if i < self.histories.len() {
                Some(&self.histories[i])
            } else {
                None
            },
            None => None,
        }
    }

    /// The realignment pass: the trail of every tracked body, relative to the
    /// reference history when one is selected and resolved.
    pub fn trails<R, F: Fn(T, T, T) -> R, G: Fn(T) -> R>(&self, relative: F, absolute: G) -> (r: Vec<
        Vec<R>,
    >)
        requires
            forall|h: T, r: T, a: T| relative.requires((h, r, a)),
            forall|h: T| absolute.requires((h,)),
        ensures
            r@.len() == self.histories().len(),
            forall|i: int|
                0 <= i < r@.len() ==> trail_matches(
                    self.histories()[i],
                    self.reference_history(),
                    relative,
                    absolute,
                    (#[trigger] r@[i])@,
                ),
    {
        let reference = self.reference();
        let n = self.histories.len();
        let mut out: Vec<Vec<R>> = Vec::new();
        let mut i: usize = 0;
        while i < n
            invariant
                i <= n,
                n == self.histories@.len(),
                out@.len() == i,
                match reference {
                    Some(h) => self.reference_history() == Some(h@),
                    None => self.reference_history() is None,
                },
                forall|h: T, r: T, a: T| relative.requires((h, r, a)),
                forall|h: T| absolute.requires((h,)),
                forall|j: int|
                    0 <= j < i ==> trail_matches(
                        self.histories()[j],
                        self.reference_history(),
                        relative,
                        absolute,
                        (#[trigger] out@[j])@,
                    ),
            decreases n - i,
        {
            let points = self.histories[i].trail(reference, &relative, &absolute);
            out.push(points);
            i += 1;
        }
        out
    }

    /// One firing of the sampling interval: samples every body, then, with
    /// all histories up to date, draws every trail.
    pub fn update_orbit_history<R, F: Fn(T, T, T) -> R, G: Fn(T) -> R>(
        &mut self,
        positions: &Vec<T>,
        relative: F,
        absolute: G,
    ) -> (r: Vec<Vec<R>>)
        requires
            old(self).wf(),
            positions@.len() == old(self).histories().len(),
            forall|h: T, r: T, a: T| relative.requires((h, r, a)),
            forall|h: T| absolute.requires((h,)),
        ensures
            final(self).wf(),
            final(self).histories().len() == old(self).histories().len(),
            forall|i: int|
                0 <= i < positions@.len() ==> #[trigger] final(self).histories()[i] == bounded_push(
                    old(self).histories()[i],
                    positions@[i],
                    old(self).capacity(),
                ),
            final(self).capacity() == old(self).capacity(),
            final(self).selected() == old(self).selected(),
            r@.len() == final(self).histories().len(),
            forall|i: int|
                0 <= i < r@.len() ==> trail_matches(
                    final(self).histories()[i],
                    final(self).reference_history(),
                    relative,
                    absolute,
                    (#[trigger] r@[i])@,
                ),
    {
        self.sample(positions);
        self.trails(relative, absolute)
    }
}

} // verus!

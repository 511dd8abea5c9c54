//! Floating origin: re-expressing every position relative to the observer.
use vstd::prelude::*;

verus! {

/// Why a relocation pass could not run: it needs exactly one observer.
#[derive(Clone, Copy, Debug, PartialEq, Eq, Structural)]
pub enum RelocationError {
    MissingObserver,
    MultipleObservers,
}

/// Number of bodies flagged as observers.
pub open spec fn observer_count(flags: Seq<bool>) -> nat
    decreases flags.len(),
{
    if flags.len() == 0 {
        0
    } else {
        observer_count(flags.drop_last()) + if flags.last() {
            1nat
        } else {
            0nat
        }
    }
}

/// `r` is the outcome that `flags` calls for: the index of the one observer,
/// or the error that names what is wrong.
pub open spec fn observer_verdict(flags: Seq<bool>, r: Result<usize, RelocationError>) -> bool {
    match r {
        Ok(i) => observer_count(flags) == 1 && 0 <= i < flags.len() && flags[i as int],
        Err(RelocationError::MissingObserver) => observer_count(flags) == 0,
        Err(RelocationError::MultipleObservers) => observer_count(flags) >= 2,
    }
}

proof fn lemma_count_push(flags: Seq<bool>, i: int)
    requires
        0 <= i < flags.len(),
    ensures
        observer_count(flags.subrange(0, i + 1)) == observer_count(flags.subrange(0, i)) + if flags[i] {
            1nat
        } else {
            0nat
        },
{
    assert(flags.subrange(0, i + 1).drop_last() =~= flags.subrange(0, i));
}

proof fn lemma_count_positive(flags: Seq<bool>, i: int)
    requires
        0 <= i < flags.len(),
        flags[i],
    ensures
        observer_count(flags) >= 1,
        observer_count(flags) == 1 ==> forall|j: int| 0 <= j < flags.len() && j != i ==> !flags[j],
    decreases flags.len(),
{
    if i < flags.len() - 1 {
        lemma_count_positive(flags.drop_last(), i);
        if observer_count(flags) == 1 {
            assert(!flags.last());
            assert forall|j: int| 0 <= j < flags.len() && j != i implies !flags[j] by {
                if j < flags.len() - 1 {
                    assert(flags.drop_last()[j] == flags[j]);
                }
            }
        }
    } else if observer_count(flags) == 1 {
        assert forall|j: int| 0 <= j < flags.len() && j != i implies !flags[j] by {
            if flags[j] {
                lemma_count_positive(flags.drop_last(), j);
            }
        }
    }
}

/// With exactly one observer flagged, any flagged index is that observer:
/// the index that a verdict names is unique.
pub proof fn lemma_single_observer_unique(flags: Seq<bool>, i: int, j: int)
    requires
        observer_count(flags) == 1,
        0 <= i < flags.len(),
        0 <= j < flags.len(),
        flags[i],
        flags[j],
    ensures
        i == j,
{
    lemma_count_positive(flags, i);
}

/// Finds the one observer among the bodies, or reports that there is none or
/// more than one.
pub fn find_observer(observers: &Vec<bool>) -> (r: Result<usize, RelocationError>)
    ensures
        observer_verdict(observers@, r),
{
    let n = observers.len();
    let mut count: usize = 0;
    let mut found: usize = 0;
    let mut i: usize = 0;
    while i < n
        invariant
            i <= n,
            n == observers@.len(),
            count == observer_count(observers@.subrange(0, i as int)),
            count <= i,
            count >= 1 ==> found < i && observers@[found as int],
        decreases n - i,
    {
        proof {
            lemma_count_push(observers@, i as int);
        }
        if observers[i] {
            if count == 0 {
                found = i;
            }
            count += 1;
        }
        i += 1;
    }
    assert(observers@.subrange(0, n as int) =~= observers@);
    if count == 0 {
        Err(RelocationError::MissingObserver)
    } else if count == 1 {
        Ok(found)
    } else {
        Err(RelocationError::MultipleObservers)
    }
}

/// The relocation pass of one frame.
///
/// With exactly one observer, every body's render transform becomes
/// `rebase(position, observer_position)`: the position minus the observer's,
/// narrowed to the renderer's precision. Otherwise the error is returned and
/// `transforms` is left exactly as it was.
pub fn floating_origin_transform<V: Copy, R, F: Fn(V, V) -> R>(
    positions: &Vec<V>,
    observers: &Vec<bool>,
    transforms: &mut Vec<R>,
    rebase: F,
) -> (r: Result<usize, RelocationError>)
    requires
        observers@.len() == positions@.len(),
        forall|p: V, o: V| rebase.requires((p, o)),
    ensures
        observer_verdict(observers@, r),
        r is Err ==> final(transforms)@ == old(transforms)@,
        r matches Ok(k) ==> {
            &&& final(transforms)@.len() == positions@.len()
            &&& forall|i: int|
                0 <= i < positions@.len() ==> rebase.ensures(
                    (positions@[i], positions@[k as int]),
                    #[trigger] final(transforms)@[i],
                )
        },
{
    let observer = match find_observer(observers) {
        Ok(k) => k,
        Err(e) => {
            return Err(e);
        },
    };
    let origin = positions[observer];
    let n = positions.len();
    let mut rebased: Vec<R> = Vec::new();
    let mut i: usize = 0;
    while i < n
        invariant
            i <= n,
            n == positions@.len(),
            observer < n,
            origin == positions@[observer as int],
            rebased@.len() == i,
            forall|p: V, o: V| rebase.requires((p, o)),
            forall|j: int|
                0 <= j < i ==> rebase.ensures((positions@[j], origin), #[trigger] rebased@[j]),
        decreases n - i,
    {
        let moved = rebase(positions[i], origin);
        rebased.push(moved);
        i += 1;
    }
    *transforms = rebased;
    Ok(observer)
}

} // verus!

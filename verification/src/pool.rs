//! The worker pool: how many workers there are, and how the partitions are
//! handed to them.
use rayon::iter::{IndexedParallelIterator, IntoParallelIterator, ParallelIterator};
use vstd::prelude::*;

verus! {

/// The number of worker threads, from `rayon::current_num_threads`. It
/// depends on the machine and on how the thread pool was set up, so nothing
/// is claimed of it.
#[verifier::external_body]
pub(crate) fn current_num_threads() -> usize {
    rayon::current_num_threads()
}

/// Calls `f` on every index below `n`, on the workers of the pool, with
/// rayon's `into_par_iter`, `map` and `collect_into_vec` on the range
/// `0..n`. A parallel iterator over a range is indexed, and what is
/// collected of an indexed iterator stands in the order of the indices: the
/// result has `n` entries, and entry `p` is what `f` returned for `p`.
#[verifier::external_body]
pub(crate) fn par_map<R: Send, F: Fn(usize) -> R + Sync + Send>(n: usize, f: F) -> (out: Vec<R>)
    requires
        forall|p: usize| p < n ==> call_requires(f, (p,)),
    ensures
        out@.len() == n,
        forall|p: int| 0 <= p < n ==> call_ensures(f, (p as usize,), #[trigger] out@[p]),
{
    let mut out: Vec<R> = Vec::new();
    (0..n).into_par_iter().map(f).collect_into_vec(&mut out);
    out
}

/// Calls `a` and `b`, possibly at the same time, with `rayon::join`, which
/// returns what the two returned.
#[verifier::external_body]
pub(crate) fn par_join<RA: Send, RB: Send, A: FnOnce() -> RA + Send, B: FnOnce() -> RB + Send>(
    a: A,
    b: B,
) -> (out: (RA, RB))
    requires
        call_requires(a, ()),
        call_requires(b, ()),
    ensures
        call_ensures(a, (), out.0),
        call_ensures(b, (), out.1),
{
    rayon::join(a, b)
}

} // verus!

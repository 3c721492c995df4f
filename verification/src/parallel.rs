//! Work handed out item by item over all cores.

use rayon::iter::{IntoParallelIterator, ParallelIterator};
use vstd::prelude::*;

verus! {

/// Calls `f` once for each index below `n` and collects what it returns, in
/// index order.
///
/// The calls run on rayon's thread pool: `into_par_iter` over the range, `map`,
/// then `collect`. A range is an indexed parallel iterator, whose `collect` into
/// a `Vec` keeps the order of the range; that, and that every index is visited,
/// is taken on trust.
#[verifier::external_body]
pub(crate) fn par_tabulate<T: Send, F: Fn(usize) -> T + Sync + Send>(n: usize, f: F) -> (out: Vec<T>)
    requires
        forall|i: usize| i < n ==> #[trigger] call_requires(f, (i,)),
    ensures
        out@.len() == n,
        forall|i: usize| i < n ==> call_ensures(f, (i,), #[trigger] out@[i as int]),
{
    (0..n).into_par_iter().map(f).collect()
}

} // verus!

//! Embedding batch planning.
use vstd::prelude::*;

verus! {

/// The batches `[start, end)` that cover `0..n` in order, each of
/// `batch_size` items but the last.
pub open spec fn is_batch_plan(r: Seq<(usize, usize)>, n: nat, batch_size: nat) -> bool {
    &&& n == 0 <==> r.len() == 0
    &&& r.len() > 0 ==> r[0].0 == 0 && r.last().1 == n
    &&& forall|i: int| 0 <= i < r.len() ==> (#[trigger] r[i]).0 < r[i].1 && r[i].1 - r[i].0 <= batch_size
    &&& forall|i: int| 0 <= i < r.len() - 1 ==> (#[trigger] r[i]).1 - r[i].0 == batch_size && r[i].1 == r[i + 1].0
}

/// Splits `n` inputs into consecutive mini-batches of `batch_size`; the
/// embeddings of the batches, concatenated in this order, are those of
/// the inputs in their order.
pub fn plan_batches(n: usize, batch_size: usize) -> (r: Vec<(usize, usize)>)
    requires
        batch_size > 0,
    ensures
        is_batch_plan(r@, n as nat, batch_size as nat),
{
    let mut r: Vec<(usize, usize)> = Vec::new();
    let mut start: usize = 0;
    while start < n
        invariant
            batch_size > 0,
            start <= n,
            r@.len() == 0 ==> start == 0,
            r@.len() > 0 ==> r@[0].0 == 0 && r@.last().1 == start,
            forall|i: int| 0 <= i < r@.len() ==> (#[trigger] r@[i]).0 < r@[i].1 && r@[i].1 - r@[i].0 <= batch_size,
            forall|i: int| 0 <= i < r@.len() - 1 ==> (#[trigger] r@[i]).1 - r@[i].0 == batch_size && r@[i].1 == r@[i + 1].0,
            forall|i: int| 0 <= i < r@.len() ==> (#[trigger] r@[i]).1 - r@[i].0 == batch_size || r@[i].1 == n,
        decreases n - start,
    {
        let end = if n - start <= batch_size { n } else { start + batch_size };
        r.push((start, end));
        start = end;
    }
    r
}

} // verus!

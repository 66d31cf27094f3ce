//! Partitioning of the pixels among workers.
use vstd::prelude::*;

verus! {

/// `chunks` cuts `0 .. len` into consecutive non-empty ranges
/// `start .. end` of `size` rows each, but for the last, which may be shorter.
pub open spec fn is_partition(chunks: Seq<(usize, usize)>, len: int, size: int) -> bool {
    &&& chunks.len() == 0 <==> len == 0
    &&& len > 0 ==> chunks[0].0 == 0 && chunks.last().1 == len
    &&& forall|k: int| 0 <= k < chunks.len() ==> #[trigger] chunks[k].0 < chunks[k].1 <= chunks[k].0 + size
    &&& forall|k: int| 0 <= k < chunks.len() - 1 ==> #[trigger] chunks[k].1 == chunks[k + 1].0
    &&& forall|k: int| 0 <= k < chunks.len() - 1 ==> #[trigger] chunks[k].1 == chunks[k].0 + size
}

/// Splits `len` rows (or codes of a Morton order) into ranges of `size`
/// (the last may be shorter); each worker handles only its range.
pub fn row_chunks(len: usize, size: usize) -> (r: Vec<(usize, usize)>)
    requires
        size > 0,
    ensures
        is_partition(r@, len as int, size as int),
{
    let mut chunks: Vec<(usize, usize)> = Vec::new();
    let mut start: usize = 0;
    while start < len
        invariant
            start <= len,
            size > 0,
            chunks@.len() == 0 <==> start == 0,
            start > 0 ==> chunks@[0].0 == 0 && chunks@.last().1 == start,
            forall|k: int| 0 <= k < chunks@.len() ==> #[trigger] chunks@[k].0 < chunks@[k].1 <= chunks@[k].0 + size,
            forall|k: int| 0 <= k < chunks@.len() - 1 ==> #[trigger] chunks@[k].1 == chunks@[k + 1].0,
            forall|k: int| 0 <= k < chunks@.len() - 1 ==> #[trigger] chunks@[k].1 == chunks@[k].0 + size,
            chunks@.len() > 0 && start < len ==> chunks@.last().1 == chunks@.last().0 + size,
        decreases len - start,
    {
        let end = if len - start > size {
            start + size
        } else {
            len
        };
        chunks.push((start, end));
        start = end;
    }
    chunks
}

/// Two ranges of a partition never overlap: no row is written twice.
pub proof fn lemma_chunks_disjoint(chunks: Seq<(usize, usize)>, len: int, size: int, a: int, b: int)
    requires
        is_partition(chunks, len, size),
        0 <= a < b < chunks.len(),
    ensures
        chunks[a].1 <= chunks[b].0,
    decreases b - a,
{
    if b > a + 1 {
        lemma_chunks_disjoint(chunks, len, size, a, b - 1);
        assert(chunks[b - 1].0 < chunks[b - 1].1);
        assert(chunks[b - 1].1 == chunks[b].0);
    } else {
        assert(chunks[a].1 == chunks[a + 1].0);
    }
}

} // verus!

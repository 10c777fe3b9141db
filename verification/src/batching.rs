//! How the scan pipeline splits its work: a round-robin deal of image indices
//! to worker threads, and consecutive fixed-size chunks for batched inference
//! and batched deletes.

use vstd::prelude::*;

verus! {

/// Whether index `i` belongs to worker `w` of `workers` in a round-robin deal.
pub open spec fn owned_by(workers: nat, w: nat) -> spec_fn(usize) -> bool {
    |i: usize| (i as nat) % workers == w
}

/// The indices `0..count` in increasing order.
pub open spec fn indices(count: nat) -> Seq<usize> {
    Seq::new(count, |i: int| i as usize)
}

/// The indices below `count` dealt to worker `w` of `workers`: those congruent
/// to `w` modulo `workers`, in increasing order.
pub open spec fn dealt_to(count: nat, workers: nat, w: nat) -> Seq<usize> {
    indices(count).filter(owned_by(workers, w))
}

/// Deals the indices `0..count` round-robin to `workers` workers: index `i`
/// goes to worker `i % workers`, and each worker gets its indices in order.
pub fn round_robin(count: usize, workers: usize) -> (r: Vec<Vec<usize>>)
    requires
        workers > 0,
    ensures
        r@.len() == workers,
        forall|w: int| 0 <= w < workers ==> (#[trigger] r@[w])@ == dealt_to(count as nat, workers as nat, w as nat),
{
    let mut buckets: Vec<Vec<usize>> = Vec::new();
    let mut w: usize = 0;
    proof {
        reveal_with_fuel(Seq::filter, 1);
    }
    while w < workers
        invariant
            w <= workers,
            buckets@.len() == w,
            forall|v: int| 0 <= v < w ==> (#[trigger] buckets@[v])@ == dealt_to(0, workers as nat, v as nat),
        decreases workers - w,
    {
        buckets.push(Vec::new());
        proof {
            assert(indices(0) =~= Seq::<usize>::empty());
            assert(buckets@[w as int]@ =~= dealt_to(0, workers as nat, w as nat));
        }
        w = w + 1;
    }
    let mut i: usize = 0;
    while i < count
        invariant
            i <= count,
            workers > 0,
            buckets@.len() == workers,
            forall|v: int| 0 <= v < workers ==> (#[trigger] buckets@[v])@ == dealt_to(i as nat, workers as nat, v as nat),
        decreases count - i,
    {
        let w = i % workers;
        let ghost before = buckets@;
        proof {
            assert(indices((i + 1) as nat).drop_last() =~= indices(i as nat));
            assert(indices((i + 1) as nat).last() == i);
            reveal_with_fuel(Seq::filter, 1);
        }
        buckets[w].push(i);
        proof {
            assert forall|v: int| 0 <= v < workers implies (#[trigger] buckets@[v])@ == dealt_to(
                (i + 1) as nat,
                workers as nat,
                v as nat,
            ) by {
                reveal_with_fuel(Seq::filter, 1);
                if v != w {
                    assert(buckets@[v] == before[v]);
                }
            }
        }
        i = i + 1;
    }
    buckets
}

/// Every index below `count` is dealt to exactly one worker: worker `i % workers`.
pub proof fn law_round_robin_partition(count: nat, workers: nat, i: nat, w: nat)
    requires
        workers > 0,
        i < count,
        i <= usize::MAX,
        w < workers,
    ensures
        dealt_to(count, workers, w).contains(i as usize) <==> i % workers == w,
{
    let s = indices(count);
    assert(s[i as int] == i as usize);
    if i % workers == w {
        s.lemma_filter_contains(owned_by(workers, w), i as int);
    } else if dealt_to(count, workers, w).contains(i as usize) {
        let f = dealt_to(count, workers, w);
        let k = choose|k: int| 0 <= k < f.len() && f[k] == i as usize;
        s.lemma_filter_pred(owned_by(workers, w), k);
    }
}

/// `r` splits `0..count` into consecutive non-empty ranges `[start, end)` of
/// `size` indices each, the last possibly shorter.
pub open spec fn is_chunking(r: Seq<(usize, usize)>, count: nat, size: nat) -> bool {
    &&& (count == 0 <==> r.len() == 0)
    &&& r.len() > 0 ==> r[0].0 == 0 && r.last().1 == count
    &&& forall|j: int| 0 <= j < r.len() ==> (#[trigger] r[j]).0 < r[j].1 && r[j].1 - r[j].0 <= size
    &&& forall|j: int| 0 <= j < r.len() - 1 ==> (#[trigger] r[j]).1 == r[j + 1].0 && r[j].1 - r[j].0 == size
}

/// Splits `0..count` into consecutive chunks of `size` indices (the last one
/// holds the rest), as `[start, end)` ranges in order.
pub fn chunk_ranges(count: usize, size: usize) -> (r: Vec<(usize, usize)>)
    requires
        size > 0,
    ensures
        is_chunking(r@, count as nat, size as nat),
{
    let mut out: Vec<(usize, usize)> = Vec::new();
    let mut start: usize = 0;
    while start < count
        invariant
            start <= count,
            size > 0,
            out@.len() == 0 <==> start == 0,
            out@.len() > 0 ==> out@[0].0 == 0 && out@.last().1 == start,
            out@.len() > 0 && start < count ==> out@.last().1 - out@.last().0 == size,
            forall|j: int| 0 <= j < out@.len() ==> (#[trigger] out@[j]).0 < out@[j].1 && out@[j].1 - out@[j].0 <= size,
            forall|j: int| 0 <= j < out@.len() - 1 ==> (#[trigger] out@[j]).1 == out@[j + 1].0 && out@[j].1 - out@[j].0
                == size,
        decreases count - start,
    {
        let end = if count - start > size { start + size } else { count };
        let ghost before = out@;
        out.push((start, end));
        proof {
            assert forall|j: int| 0 <= j < out@.len() - 1 implies (#[trigger] out@[j]).1 == out@[j + 1].0 && out@[j].1
                - out@[j].0 == size by {
                if j < before.len() - 1 {
                    assert(out@[j] == before[j] && out@[j + 1] == before[j + 1]);
                } else {
                    assert(out@[j] == before.last());
                }
            }
        }
        start = end;
    }
    out
}

proof fn lemma_chunks_ordered(r: Seq<(usize, usize)>, count: nat, size: nat, a: int, b: int)
    requires
        is_chunking(r, count, size),
        0 <= a < b < r.len(),
    ensures
        r[a].1 <= r[b].0,
    decreases b - a,
{
    assert(r[a].1 == r[a + 1].0);
    if a + 1 < b {
        lemma_chunks_ordered(r, count, size, a + 1, b);
        assert(r[a + 1].0 < r[a + 1].1);
    }
}

proof fn lemma_chunk_found(r: Seq<(usize, usize)>, count: nat, size: nat, i: nat, j: int)
    requires
        is_chunking(r, count, size),
        0 <= j < r.len(),
        r[j].0 <= i < count,
    ensures
        exists|k: int| 0 <= k < r.len() && #[trigger] r[k].0 <= i < r[k].1,
    decreases r.len() - j,
{
    if i < r[j].1 {
        assert(r[j].0 <= i < r[j].1);
    } else {
        assert(j < r.len() - 1);
        assert(r[j].1 == r[j + 1].0);
        lemma_chunk_found(r, count, size, i, j + 1);
    }
}

/// Every index below `count` lies in exactly one chunk.
pub proof fn law_chunks_partition(r: Seq<(usize, usize)>, count: nat, size: nat, i: nat)
    requires
        is_chunking(r, count, size),
        i < count,
    ensures
        exists|k: int| 0 <= k < r.len() && #[trigger] r[k].0 <= i < r[k].1,
        forall|a: int, b: int|
            0 <= a < r.len() && 0 <= b < r.len() && #[trigger] r[a].0 <= i < r[a].1 && #[trigger] r[b].0 <= i < r[b].1
                ==> a == b,
{
    assert(r[0].0 <= i);
    lemma_chunk_found(r, count, size, i, 0);
    assert forall|a: int, b: int|
        0 <= a < r.len() && 0 <= b < r.len() && #[trigger] r[a].0 <= i < r[a].1 && #[trigger] r[b].0 <= i < r[b].1
            implies a == b by {
        if a < b {
            lemma_chunks_ordered(r, count, size, a, b);
        } else if b < a {
            lemma_chunks_ordered(r, count, size, b, a);
        }
    }
}

} // verus!

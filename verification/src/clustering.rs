//! Cluster assignments and the 2D map over all stored embeddings: input checks,
//! neighbour selection for the map's kNN graph, and pairing results with paths.

use vstd::prelude::*;
use crate::cluster::{max_label, lemma_max_label_bounds};
use crate::text::{dec, push_decimal, push_str};

verus! {

/// One image's cluster. `cluster_id` -1 means noise.
pub struct ClusterAssignment {
    pub path: String,
    pub cluster_id: i32,
}

/// A clustering run over all stored embeddings.
pub struct ClusterResult {
    pub assignments: Vec<ClusterAssignment>,
    /// Number of distinct (non-noise) clusters.
    pub num_clusters: u32,
    /// Number of points considered (the length of `assignments`).
    pub num_points: u32,
    /// When the result was produced, in milliseconds since the Unix epoch.
    pub computed_at: i64,
}

/// Checks that there are enough embeddings to cluster (at least 5).
pub fn check_cluster_count(n: usize) -> (r: Result<(), String>)
    ensures
        r is Ok <==> n >= 5,
        n == 0 ==> (r matches Err(m) && m@ == "No embeddings to cluster. Add a folder first."@),
        0 < n < 5 ==> (r matches Err(m) && m@ == "Need at least 5 images to cluster, found "@ + dec(n as nat) + "."@),
{
    if n == 0 {
        return Err(String::from_str("No embeddings to cluster. Add a folder first."));
    }
    if n < 5 {
        let mut m = String::from_str("Need at least 5 images to cluster, found ");
        push_decimal(&mut m, n as u64);
        push_str(&mut m, ".");
        return Err(m);
    }
    Ok(())
}

/// Checks that there are enough embeddings for a 2D map (at least 20).
pub fn check_projection_count(n: usize) -> (r: Result<(), String>)
    ensures
        r is Ok <==> n >= 20,
        n == 0 ==> (r matches Err(m) && m@ == "No embeddings to project. Add a folder first."@),
        0 < n < 20 ==> (r matches Err(m) && m@ == "Need at least 20 images for a 2D map, found "@ + dec(n as nat) + "."@),
{
    if n == 0 {
        return Err(String::from_str("No embeddings to project. Add a folder first."));
    }
    if n < 20 {
        let mut m = String::from_str("Need at least 20 images for a 2D map, found ");
        push_decimal(&mut m, n as u64);
        push_str(&mut m, ".");
        return Err(m);
    }
    Ok(())
}

/// The number of clusters reported for a labelling: one more than the largest
/// label, or 0 when all points are noise.
pub open spec fn cluster_count(labels: Seq<i32>) -> int {
    if max_label(labels) + 1 > 0 { max_label(labels) + 1 } else { 0 }
}

/// Pairs each path with its HDBSCAN label. Fails when the counts differ.
pub fn assign_clusters(paths: Vec<String>, labels: &Vec<i32>, computed_at: i64) -> (r: Result<ClusterResult, String>)
    requires
        forall|i: int| 0 <= i < labels@.len() ==> #[trigger] labels@[i] < i32::MAX,
    ensures
        r is Ok <==> labels@.len() == paths@.len(),
        r matches Err(m) ==> m@ == "HDBSCAN returned "@ + dec(labels@.len()) + " labels for "@ + dec(paths@.len())
            + " inputs"@,
        r matches Ok(res) ==> {
            &&& res.assignments@.len() == paths@.len()
            &&& forall|i: int| 0 <= i < paths@.len() ==> (#[trigger] res.assignments@[i]).path == paths@[i]
                && res.assignments@[i].cluster_id == labels@[i]
            &&& res.num_points == paths@.len() as u32
            &&& res.num_clusters == cluster_count(labels@)
            &&& res.computed_at == computed_at
        },
{
    if labels.len() != paths.len() {
        let mut m = String::from_str("HDBSCAN returned ");
        push_decimal(&mut m, labels.len() as u64);
        push_str(&mut m, " labels for ");
        push_decimal(&mut m, paths.len() as u64);
        push_str(&mut m, " inputs");
        return Err(m);
    }
    let ghost ps = paths@;
    let n = paths.len();
    let mut max: i32 = -1;
    let mut assignments: Vec<ClusterAssignment> = Vec::new();
    for path in it: paths
        invariant
            it.seq() == ps,
            ps.len() == labels@.len(),
            n == ps.len(),
            forall|i: int| 0 <= i < labels@.len() ==> #[trigger] labels@[i] < i32::MAX,
            assignments@.len() == it.index(),
            max == max_label(labels@.take(it.index() as int)),
            max >= -1,
            forall|i: int| 0 <= i < it.index() ==> (#[trigger] assignments@[i]).path == ps[i]
                && assignments@[i].cluster_id == labels@[i],
    {
        let ghost k = it.index() as int;
        assert(labels@.take(k + 1).drop_last() == labels@.take(k));
        let label = labels[assignments.len()];
        if label >= 0 && label > max {
            max = label;
        }
        assignments.push(ClusterAssignment { path, cluster_id: label });
    }
    assert(labels@.take(n as int) == labels@);
    proof {
        lemma_max_label_bounds(labels@);
    }
    let clusters: i32 = if max + 1 > 0 { max + 1 } else { 0 };
    Ok(ClusterResult {
        assignments,
        num_clusters: clusters as u32,
        num_points: n as u32,
        computed_at,
    })
}

/// How `run_umap` proceeds on its input.
pub enum UmapInput {
    /// No embeddings: the map is empty.
    Empty,
    /// Ready: all embeddings have this many dimensions.
    Ready(usize),
}

/// Every embedding has the first one's length.
pub open spec fn same_dims<T>(embeddings: Seq<Vec<T>>) -> bool {
    forall|i: int| 0 <= i < embeddings.len() ==> (#[trigger] embeddings[i])@.len() == embeddings[0]@.len()
}

/// Checks the input of the map projection: empty input gives an empty map;
/// otherwise embeddings must have a non-zero common dimension and there must be
/// more points than the neighbours each point is linked to.
pub fn check_umap_input<T>(embeddings: &Vec<Vec<T>>, n_neighbors: usize) -> (r: Result<UmapInput, String>)
    ensures
        embeddings@.len() == 0 ==> r matches Ok(UmapInput::Empty),
        embeddings@.len() > 0 && embeddings@[0]@.len() == 0 ==> (r matches Err(m) && m@
            == "Embeddings have zero dimensions"@),
        embeddings@.len() > 0 && embeddings@[0]@.len() > 0 && !same_dims(embeddings@) ==> (r matches Err(m)
            && m@ == "Embeddings have inconsistent dimensions"@),
        embeddings@.len() > 0 && embeddings@[0]@.len() > 0 && same_dims(embeddings@) && embeddings@.len()
            <= n_neighbors ==> (r matches Err(m) && m@ == "Need more than "@ + dec(n_neighbors as nat)
            + " images for UMAP (have "@ + dec(embeddings@.len()) + ")."@),
        embeddings@.len() > 0 && embeddings@[0]@.len() > 0 && same_dims(embeddings@) && embeddings@.len()
            > n_neighbors ==> (r matches Ok(UmapInput::Ready(d)) && d == embeddings@[0]@.len()),
{
    let n = embeddings.len();
    if n == 0 {
        return Ok(UmapInput::Empty);
    }
    let dim = embeddings[0].len();
    if dim == 0 {
        return Err(String::from_str("Embeddings have zero dimensions"));
    }
    let mut i: usize = 0;
    while i < n
        invariant
            n == embeddings@.len(),
            n > 0,
            dim > 0,
            dim == embeddings@[0]@.len(),
            i <= n,
            forall|j: int| 0 <= j < i ==> (#[trigger] embeddings@[j])@.len() == dim,
        decreases n - i,
    {
        if embeddings[i].len() != dim {
            assert(embeddings@[i as int]@.len() != dim);
            return Err(String::from_str("Embeddings have inconsistent dimensions"));
        }
        i = i + 1;
    }
    if n <= n_neighbors {
        let mut m = String::from_str("Need more than ");
        push_decimal(&mut m, n_neighbors as u64);
        push_str(&mut m, " images for UMAP (have ");
        push_decimal(&mut m, n as u64);
        push_str(&mut m, ").");
        return Err(m);
    }
    Ok(UmapInput::Ready(dim))
}

/// The neighbours of `point` other than itself, in the order found.
pub open spec fn others<D>(point: usize, neighbours: Seq<(usize, D)>) -> Seq<(usize, D)> {
    neighbours.filter(not_point(point))
}

/// The test "is not the point itself".
pub open spec fn not_point<D>(point: usize) -> spec_fn((usize, D)) -> bool {
    |nb: (usize, D)| nb.0 != point
}

/// Picks the first `k` neighbours of `point` that are not the point itself (a
/// nearest-neighbour search returns the point as its own nearest match). Fails
/// when fewer than `k` remain.
pub fn select_neighbours<D: Copy>(point: usize, neighbours: &Vec<(usize, D)>, k: usize) -> (r: Result<Vec<(usize, D)>, String>)
    ensures
        r is Ok <==> others(point, neighbours@).len() >= k,
        r matches Ok(v) ==> v@ == others(point, neighbours@).take(k as int),
        r matches Err(m) ==> m@ == "HNSW returned only "@ + dec(others(point, neighbours@).len()) + " neighbours for point "@
            + dec(point as nat) + " (need "@ + dec(k as nat) + ")"@,
{
    let mut out: Vec<(usize, D)> = Vec::new();
    let mut i: usize = 0;
    while i < neighbours.len() && out.len() < k
        invariant
            i <= neighbours@.len(),
            out@.len() <= k,
            out@.len() < k ==> out@ == others(point, neighbours@.take(i as int)),
            out@.len() == k ==> out@ == others(point, neighbours@).take(k as int),
            out@.len() == k ==> others(point, neighbours@).len() >= k,
        decreases neighbours.len() - i,
    {
        let ghost pre = neighbours@.take(i as int);
        assert(neighbours@.take(i + 1).drop_last() == pre);
        proof {
            reveal_with_fuel(Seq::filter, 1);
        }
        let nb = neighbours[i];
        if nb.0 != point {
            out.push(nb);
        }
        proof {
            if out@.len() == k {
                lemma_filter_prefix(point, neighbours@, i as int + 1);
                assert(out@ =~= others(point, neighbours@).take(k as int));
            }
        }
        i = i + 1;
    }
    proof {
        if out@.len() < k {
            assert(neighbours@.take(neighbours@.len() as int) == neighbours@);
        }
    }
    if out.len() < k {
        let mut m = String::from_str("HNSW returned only ");
        push_decimal(&mut m, out.len() as u64);
        push_str(&mut m, " neighbours for point ");
        push_decimal(&mut m, point as u64);
        push_str(&mut m, " (need ");
        push_decimal(&mut m, k as u64);
        push_str(&mut m, ")");
        return Err(m);
    }
    Ok(out)
}

/// The non-self neighbours of a prefix are a prefix of those of the whole list.
pub proof fn lemma_filter_prefix<D>(point: usize, s: Seq<(usize, D)>, i: int)
    requires
        0 <= i <= s.len(),
    ensures
        others(point, s.take(i)).len() <= others(point, s).len(),
        others(point, s).take(others(point, s.take(i)).len() as int) == others(point, s.take(i)),
    decreases s.len() - i,
{
    if i < s.len() {
        lemma_filter_prefix(point, s, i + 1);
        assert(s.take(i + 1).drop_last() == s.take(i));
        reveal_with_fuel(Seq::filter, 1);
        let a = others(point, s.take(i));
        let b = others(point, s.take(i + 1));
        let all = others(point, s);
        assert(b.take(a.len() as int) =~= a);
        assert(all.take(a.len() as int) =~= all.take(b.len() as int).take(a.len() as int));
    } else {
        assert(s.take(i) == s);
        assert(others(point, s).take(others(point, s).len() as int) =~= others(point, s));
    }
}

/// Pairs each path with its map coordinates. Fails when the counts differ.
pub fn pair_with_paths<C>(paths: Vec<String>, coords: Vec<C>) -> (r: Result<Vec<(String, C)>, String>)
    ensures
        r is Ok <==> coords@.len() == paths@.len(),
        r matches Err(m) ==> m@ == "UMAP returned "@ + dec(coords@.len()) + " points for "@ + dec(paths@.len())
            + " inputs"@,
        r matches Ok(v) ==> v@.len() == paths@.len() && forall|i: int|
            0 <= i < paths@.len() ==> (#[trigger] v@[i]).0 == paths@[i] && v@[i].1 == coords@[i],
{
    if coords.len() != paths.len() {
        let mut m = String::from_str("UMAP returned ");
        push_decimal(&mut m, coords.len() as u64);
        push_str(&mut m, " points for ");
        push_decimal(&mut m, paths.len() as u64);
        push_str(&mut m, " inputs");
        return Err(m);
    }
    let ghost ps = paths@;
    let ghost cs = coords@;
    // Reverse the coordinates so that popping yields them front to back.
    let mut cv = coords;
    let mut reversed: Vec<C> = Vec::new();
    while cv.len() > 0
        invariant
            cv@.len() + reversed@.len() == cs.len(),
            cv@ == cs.take(cv@.len() as int),
            forall|j: int| 0 <= j < reversed@.len() ==> #[trigger] reversed@[j] == cs[cs.len() - 1 - j],
        decreases cv.len(),
    {
        let ghost before = cv@;
        let x = cv.pop().unwrap();
        assert(cs.take(cv@.len() as int) == before.drop_last());
        reversed.push(x);
    }
    let mut out: Vec<(String, C)> = Vec::new();
    for path in it: paths
        invariant
            it.seq() == ps,
            ps.len() == cs.len(),
            out@.len() == it.index(),
            reversed@.len() == cs.len() - it.index(),
            forall|j: int| 0 <= j < reversed@.len() ==> #[trigger] reversed@[j] == cs[cs.len() - 1 - j],
            forall|i: int| 0 <= i < it.index() ==> (#[trigger] out@[i]).0 == ps[i] && out@[i].1 == cs[i],
    {
        let ghost k = it.index() as int;
        let ghost before = reversed@;
        let c = reversed.pop().unwrap();
        assert(c == cs[k]) by {
            assert(before[before.len() - 1] == cs[cs.len() - 1 - (before.len() - 1)]);
        }
        assert forall|j: int| 0 <= j < reversed@.len() implies #[trigger] reversed@[j] == cs[cs.len() - 1 - j] by {
            assert(reversed@[j] == before[j]);
        }
        out.push((path, c));
    }
    Ok(out)
}

/// Law: the neighbours chosen for a point never include the point itself.
pub proof fn law_neighbours_exclude_self<D>(point: usize, neighbours: Seq<(usize, D)>, k: nat)
    ensures
        forall|i: int| 0 <= i < others(point, neighbours).take(k as int).len() && k <= others(point, neighbours).len()
            ==> (#[trigger] others(point, neighbours).take(k as int)[i]).0 != point,
{
    let pred = not_point::<D>(point);
    assert forall|i: int| 0 <= i < others(point, neighbours).take(k as int).len() && k <= others(point, neighbours).len()
        implies (#[trigger] others(point, neighbours).take(k as int)[i]).0 != point by {
        assert(others(point, neighbours).take(k as int).len() == k);
        assert(others(point, neighbours).take(k as int)[i] == others(point, neighbours)[i]);
        neighbours.lemma_filter_pred(pred, i);
    }
}

} // verus!

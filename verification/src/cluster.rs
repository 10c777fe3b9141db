//! Clustering of the 2D projection: automatic hyper-parameter defaults, input
//! validation, resolution of user overrides and label bookkeeping.

use vstd::prelude::*;
use crate::text::{dec, push_decimal, push_str};

verus! {

/// Below this many indexed images the projection and clustering are refused.
pub const MIN_IMAGES: usize = 20;

/// `n / 100` kept within `[5, 50]`.
pub open spec fn auto_min_cluster_size(n: nat) -> nat {
    if n / 100 < 5 { 5 } else if n / 100 > 50 { 50 } else { n / 100 }
}

/// Half of the minimum cluster size, at least one.
pub open spec fn auto_min_samples(m: nat) -> nat {
    if m / 2 < 1 { 1 } else { m / 2 }
}

/// The automatic minimum cluster size for a library of `n` images: about 1% of
/// the collection, kept within `[5, 50]`.
pub fn default_min_cluster_size(n: usize) -> (r: usize)
    ensures
        r == auto_min_cluster_size(n as nat),
{
    let p = n / 100;
    if p < 5 {
        5
    } else if p > 50 {
        50
    } else {
        p
    }
}

/// The automatic `min_samples` for a minimum cluster size: half of it, at least one.
pub fn default_min_samples(min_cluster_size: usize) -> (r: usize)
    ensures
        r == auto_min_samples(min_cluster_size as nat),
{
    let h = min_cluster_size / 2;
    if h < 1 {
        1
    } else {
        h
    }
}

/// Lightweight summary returned to the caller that triggered the computation.
pub struct ClusterSummary {
    pub num_clusters: usize,
    pub num_noise: usize,
    pub num_images: usize,
}

/// The integer HDBSCAN hyper parameters of one run.
pub struct HdbscanParams {
    pub min_cluster_size: usize,
    pub min_samples: usize,
    /// Cap on cluster size; `None` means no cap.
    pub max_cluster_size: Option<usize>,
}

/// The minimum cluster size used: an override of at least 2, else the default.
pub open spec fn resolved_min_cluster_size(n: nat, requested: Option<usize>) -> nat {
    match requested {
        Some(v) if v >= 2 => v as nat,
        _ => auto_min_cluster_size(n),
    }
}

/// Resolves the user's optional overrides for a library of `n` images: a minimum
/// cluster size below 2, a `min_samples` below 1 or a maximum cluster size below 2
/// is ignored; the first two then take their defaults and the maximum is uncapped.
pub fn resolve_params(
    n: usize,
    min_cluster_size: Option<usize>,
    max_cluster_size: Option<usize>,
    min_samples: Option<usize>,
) -> (r: HdbscanParams)
    ensures
        r.min_cluster_size == resolved_min_cluster_size(n as nat, min_cluster_size),
        r.min_samples == match min_samples {
            Some(v) if v >= 1 => v as nat,
            _ => auto_min_samples(resolved_min_cluster_size(n as nat, min_cluster_size)),
        },
        r.max_cluster_size == match max_cluster_size {
            Some(v) if v >= 2 => Some(v),
            _ => None,
        },
{
    let mcs = match min_cluster_size {
        Some(v) if v >= 2 => v,
        _ => default_min_cluster_size(n),
    };
    let ms = match min_samples {
        Some(v) if v >= 1 => v,
        _ => default_min_samples(mcs),
    };
    let max = match max_cluster_size {
        Some(v) if v >= 2 => Some(v),
        _ => None,
    };
    HdbscanParams { min_cluster_size: mcs, min_samples: ms, max_cluster_size: max }
}

/// All embeddings have length `dim`.
pub open spec fn all_dims<T>(data: Seq<(String, Vec<T>)>, dim: nat) -> bool {
    forall|i: int| 0 <= i < data.len() ==> (#[trigger] data[i]).1@.len() == dim
}

/// `Need at least 20 indexed images to compute clusters (have <n>).`
pub open spec fn too_few_message(n: nat) -> Seq<char> {
    "Need at least "@ + dec(MIN_IMAGES as nat) + " indexed images to compute clusters (have "@ + dec(n)
        + ")."@
}

/// Checks the `(path, embedding)` input of a clustering run: at least
/// `MIN_IMAGES` images, all embeddings of the first one's length. Returns that length.
pub fn check_cluster_input<T>(data: &Vec<(String, Vec<T>)>) -> (r: Result<usize, String>)
    ensures
        data@.len() < MIN_IMAGES ==> (r matches Err(m) && m@ == too_few_message(data@.len())),
        data@.len() >= MIN_IMAGES ==> match r {
            Ok(dim) => dim == data@[0].1@.len() && all_dims(data@, dim as nat),
            Err(m) => !all_dims(data@, data@[0].1@.len()) && m@
                == "Embeddings have inconsistent dimensions"@,
        },
{
    let n = data.len();
    if n < MIN_IMAGES {
        let mut m = String::from_str("Need at least ");
        push_decimal(&mut m, MIN_IMAGES as u64);
        push_str(&mut m, " indexed images to compute clusters (have ");
        push_decimal(&mut m, n as u64);
        push_str(&mut m, ").");
        return Err(m);
    }
    let dim = data[0].1.len();
    let mut i: usize = 0;
    while i < n
        invariant
            n == data@.len(),
            n >= MIN_IMAGES,
            dim == data@[0].1@.len(),
            i <= n,
            forall|j: int| 0 <= j < i ==> (#[trigger] data@[j]).1@.len() == dim,
        decreases n - i,
    {
        if data[i].1.len() != dim {
            return Err(String::from_str("Embeddings have inconsistent dimensions"));
        }
        i = i + 1;
    }
    Ok(dim)
}

/// The largest non-negative label, or -1 when every point is noise.
pub open spec fn max_label(labels: Seq<i32>) -> int
    decreases labels.len(),
{
    if labels.len() == 0 {
        -1
    } else {
        let m = max_label(labels.drop_last());
        if labels.last() > m { labels.last() as int } else { m }
    }
}

/// Number of noise points (negative labels).
pub open spec fn noise_count(labels: Seq<i32>) -> nat
    decreases labels.len(),
{
    if labels.len() == 0 {
        0
    } else {
        noise_count(labels.drop_last()) + if labels.last() < 0 { 1nat } else { 0nat }
    }
}

/// Cluster and noise counts of a labelling.
pub struct LabelSummary {
    pub num_clusters: usize,
    pub num_noise: usize,
}

/// Counts the clusters (one more than the largest label) and the noise points.
/// Labels are cluster ids, so none is `i32::MAX`.
pub fn summarize_labels(labels: &Vec<i32>) -> (r: LabelSummary)
    requires
        forall|i: int| 0 <= i < labels@.len() ==> #[trigger] labels@[i] < i32::MAX,
    ensures
        r.num_clusters == max_label(labels@) + 1,
        r.num_noise == noise_count(labels@),
{
    let mut max: i32 = -1;
    let mut noise: usize = 0;
    let mut i: usize = 0;
    while i < labels.len()
        invariant
            i <= labels@.len(),
            max == max_label(labels@.take(i as int)),
            noise == noise_count(labels@.take(i as int)),
            noise <= i,
            max >= -1,
        decreases labels.len() - i,
    {
        assert(labels@.take(i + 1).drop_last() == labels@.take(i as int));
        let label = labels[i];
        if label < 0 {
            noise = noise + 1;
        } else if label > max {
            max = label;
        }
        i = i + 1;
    }
    assert(labels@.take(labels@.len() as int) == labels@);
    proof {
        lemma_max_label_bounds(labels@);
    }
    LabelSummary { num_clusters: (max + 1) as usize, num_noise: noise }
}

/// Every label is below the largest label, and the largest is at least -1.
pub proof fn lemma_max_label_bounds(labels: Seq<i32>)
    ensures
        max_label(labels) >= -1,
        forall|i: int| 0 <= i < labels.len() ==> #[trigger] labels[i] <= max_label(labels),
        max_label(labels) == -1 || exists|i: int| 0 <= i < labels.len() && labels[i] == max_label(labels),
    decreases labels.len(),
{
    if labels.len() > 0 {
        let init = labels.drop_last();
        lemma_max_label_bounds(init);
        assert forall|i: int| 0 <= i < labels.len() implies #[trigger] labels[i] <= max_label(labels) by {
            if i < labels.len() - 1 {
                assert(labels[i] == init[i]);
            }
        }
        if max_label(labels) != -1 {
            if labels.last() > max_label(init) {
                assert(labels[labels.len() - 1] == max_label(labels));
            } else {
                let j = choose|j: int| 0 <= j < init.len() && init[j] == max_label(init);
                assert(labels[j] == init[j]);
            }
        }
    }
}

/// Number of points with a non-negative label.
pub open spec fn clustered_count(labels: Seq<i32>) -> nat
    decreases labels.len(),
{
    if labels.len() == 0 {
        0
    } else {
        clustered_count(labels.drop_last()) + if labels.last() >= 0 { 1nat } else { 0nat }
    }
}

/// Law: every point is either noise or in a cluster whose id is below the cluster
/// count, and some point carries the largest id.
pub proof fn law_label_summary(labels: Seq<i32>)
    ensures
        noise_count(labels) + clustered_count(labels) == labels.len(),
        forall|i: int| 0 <= i < labels.len() ==> #[trigger] labels[i] < max_label(labels) + 1,
        max_label(labels) + 1 >= 0,
        max_label(labels) + 1 > 0 ==> exists|i: int| 0 <= i < labels.len() && labels[i] == max_label(labels),
    decreases labels.len(),
{
    lemma_max_label_bounds(labels);
    if labels.len() > 0 {
        law_label_summary(labels.drop_last());
    }
}

} // verus!

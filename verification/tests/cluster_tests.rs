use semantic_image_browser::cluster::{
    check_cluster_input, default_min_cluster_size, default_min_samples, resolve_params, summarize_labels,
};
use semantic_image_browser::clustering::{
    assign_clusters, check_cluster_count, check_projection_count, check_umap_input, pair_with_paths,
    select_neighbours, UmapInput,
};

#[test]
fn default_sizes() {
    assert_eq!(default_min_cluster_size(0), 5);
    assert_eq!(default_min_cluster_size(499), 5);
    assert_eq!(default_min_cluster_size(1_234), 12);
    assert_eq!(default_min_cluster_size(1_000_000), 50);
    assert_eq!(default_min_samples(12), 6);
    assert_eq!(default_min_samples(1), 1);
    assert_eq!(default_min_samples(0), 1);
}

#[test]
fn overrides() {
    let p = resolve_params(1_000, None, None, None);
    assert_eq!((p.min_cluster_size, p.min_samples, p.max_cluster_size), (10, 5, None));
    let p = resolve_params(1_000, Some(1), Some(1), Some(0));
    assert_eq!((p.min_cluster_size, p.min_samples, p.max_cluster_size), (10, 5, None));
    let p = resolve_params(1_000, Some(8), Some(40), Some(3));
    assert_eq!((p.min_cluster_size, p.min_samples, p.max_cluster_size), (8, 3, Some(40)));
}

#[test]
fn cluster_input() {
    let small: Vec<(String, Vec<f32>)> = (0..19).map(|i| (i.to_string(), vec![0.0; 4])).collect();
    assert_eq!(
        check_cluster_input(&small).unwrap_err(),
        "Need at least 20 indexed images to compute clusters (have 19)."
    );
    let mut ok: Vec<(String, Vec<f32>)> = (0..20).map(|i| (i.to_string(), vec![0.0; 4])).collect();
    assert_eq!(check_cluster_input(&ok), Ok(4));
    ok[7].1.push(1.0);
    assert_eq!(check_cluster_input(&ok).unwrap_err(), "Embeddings have inconsistent dimensions");
}

#[test]
fn label_summary() {
    let s = summarize_labels(&vec![0, -1, 2, 2, -1, 1]);
    assert_eq!((s.num_clusters, s.num_noise), (3, 2));
    let s = summarize_labels(&vec![-1, -1]);
    assert_eq!((s.num_clusters, s.num_noise), (0, 2));
    let s = summarize_labels(&vec![]);
    assert_eq!((s.num_clusters, s.num_noise), (0, 0));
}

#[test]
fn counts_checks() {
    assert_eq!(check_cluster_count(0).unwrap_err(), "No embeddings to cluster. Add a folder first.");
    assert_eq!(check_cluster_count(4).unwrap_err(), "Need at least 5 images to cluster, found 4.");
    assert!(check_cluster_count(5).is_ok());
    assert_eq!(check_projection_count(0).unwrap_err(), "No embeddings to project. Add a folder first.");
    assert_eq!(check_projection_count(19).unwrap_err(), "Need at least 20 images for a 2D map, found 19.");
    assert!(check_projection_count(20).is_ok());
}

#[test]
fn assignments() {
    let paths = vec!["a".to_string(), "b".to_string(), "c".to_string()];
    let r = assign_clusters(paths.clone(), &vec![1, -1, 0], 99).ok().unwrap();
    assert_eq!(r.num_clusters, 2);
    assert_eq!(r.num_points, 3);
    assert_eq!(r.computed_at, 99);
    assert_eq!(r.assignments[1].path, "b");
    assert_eq!(r.assignments[1].cluster_id, -1);
    let noise = assign_clusters(paths.clone(), &vec![-1, -1, -1], 0).ok().unwrap();
    assert_eq!(noise.num_clusters, 0);
    assert_eq!(
        assign_clusters(paths, &vec![0], 0).err().unwrap(),
        "HDBSCAN returned 1 labels for 3 inputs"
    );
}

#[test]
fn umap_input() {
    let empty: Vec<Vec<f32>> = vec![];
    assert!(matches!(check_umap_input(&empty, 15), Ok(UmapInput::Empty)));
    let zero = vec![vec![]; 3];
    assert_eq!(check_umap_input::<f32>(&zero, 2).err().unwrap(), "Embeddings have zero dimensions");
    let ragged = vec![vec![1.0f32, 2.0], vec![1.0]];
    assert_eq!(check_umap_input(&ragged, 1).err().unwrap(), "Embeddings have inconsistent dimensions");
    let few = vec![vec![1.0f32]; 15];
    assert_eq!(check_umap_input(&few, 15).err().unwrap(), "Need more than 15 images for UMAP (have 15).");
    let enough = vec![vec![1.0f32, 2.0]; 16];
    assert!(matches!(check_umap_input(&enough, 15), Ok(UmapInput::Ready(2))));
}

#[test]
fn neighbour_selection_skips_self() {
    let nbs = vec![(3usize, 0.0f32), (1, 0.5), (4, 0.7), (2, 0.9)];
    assert_eq!(select_neighbours(3, &nbs, 2).unwrap(), vec![(1, 0.5), (4, 0.7)]);
    assert_eq!(select_neighbours(9, &nbs, 2).unwrap(), vec![(3, 0.0), (1, 0.5)]);
    assert_eq!(
        select_neighbours(3, &nbs, 4).unwrap_err(),
        "HNSW returned only 3 neighbours for point 3 (need 4)"
    );
}

#[test]
fn points_pair_with_paths() {
    let paths = vec!["a".to_string(), "b".to_string()];
    let pairs = pair_with_paths(paths.clone(), vec![(1.0f32, 2.0f32), (3.0, 4.0)]).unwrap();
    assert_eq!(pairs[1], ("b".to_string(), (3.0, 4.0)));
    assert_eq!(pair_with_paths(paths, vec![(0.0f32, 0.0f32)]).unwrap_err(), "UMAP returned 1 points for 2 inputs");
}

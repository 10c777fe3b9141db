use semantic_image_browser::batching::{chunk_ranges, round_robin};

#[test]
fn round_robin_deals_in_turn() {
    let b = round_robin(7, 3);
    assert_eq!(b, vec![vec![0, 3, 6], vec![1, 4], vec![2, 5]]);
}

#[test]
fn round_robin_more_workers_than_items() {
    let b = round_robin(2, 4);
    assert_eq!(b, vec![vec![0], vec![1], vec![], vec![]]);
    assert_eq!(round_robin(0, 2), vec![Vec::<usize>::new(), Vec::new()]);
}

#[test]
fn chunks_of_fixed_size() {
    assert_eq!(chunk_ranges(7, 3), vec![(0, 3), (3, 6), (6, 7)]);
    assert_eq!(chunk_ranges(6, 3), vec![(0, 3), (3, 6)]);
    assert_eq!(chunk_ranges(2, 500), vec![(0, 2)]);
    assert!(chunk_ranges(0, 32).is_empty());
}

#[test]
fn every_index_in_exactly_one_chunk_and_bucket() {
    let count = 1001;
    let chunks = chunk_ranges(count, 32);
    let buckets = round_robin(count, 4);
    for i in 0..count {
        assert_eq!(chunks.iter().filter(|(s, e)| *s <= i && i < *e).count(), 1);
        assert_eq!(buckets.iter().filter(|b| b.contains(&i)).count(), 1);
        assert!(buckets[i % 4].contains(&i));
    }
}

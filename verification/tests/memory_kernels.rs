use pc_benchmark::memory::{
    build_chain, chase, fisher_yates_order, shuffle_draws, index_values, random_access_pass, random_indices, repeated_copy,
    sequential_pass, shuffled_order,
};

#[test]
fn sequential_pass_writes_indices_and_sums_them() {
    let mut buf = vec![7u64; 5];
    let sum = sequential_pass(&mut buf);
    assert_eq!(buf, vec![0, 1, 2, 3, 4]);
    assert_eq!(sum, 10);
}

#[test]
fn sequential_pass_on_empty_buffer() {
    let mut buf: Vec<u64> = Vec::new();
    assert_eq!(sequential_pass(&mut buf), 0);
    assert!(buf.is_empty());
}

#[test]
fn sequential_pass_matches_closed_form() {
    let n: u64 = 100_000;
    let mut buf = vec![0u64; n as usize];
    assert_eq!(sequential_pass(&mut buf), n * (n - 1) / 2);
}

#[test]
fn index_values_counts_up() {
    assert_eq!(index_values(4), vec![0, 1, 2, 3]);
    assert!(index_values(0).is_empty());
}

#[test]
fn random_indices_stay_in_bounds() {
    let indices = random_indices(1000, 7);
    assert_eq!(indices.len(), 1000);
    assert!(indices.iter().all(|&i| i < 7));
    assert!(random_indices(0, 0).is_empty());
}

#[test]
fn random_access_pass_read_modify_write() {
    let mut data = vec![0u64, 1, 2, 3];
    let sum = random_access_pass(&mut data, &vec![1, 3, 1]);
    assert_eq!(sum, 5);
    assert_eq!(data, vec![0, 5, 2, 4]);
}

#[test]
fn random_access_pass_with_no_indices() {
    let mut data = vec![4u64, 5];
    assert_eq!(random_access_pass(&mut data, &vec![]), 0);
    assert_eq!(data, vec![4, 5]);
}

#[test]
fn repeated_copy_overwrites_destination() {
    let src = vec![1u64, 2, 3];
    let mut dst = vec![0u64; 3];
    repeated_copy(&mut dst, &src, 3);
    assert_eq!(dst, src);
    let mut untouched = vec![9u64; 3];
    repeated_copy(&mut untouched, &src, 0);
    assert_eq!(untouched, vec![9, 9, 9]);
}

#[test]
fn shuffled_order_is_a_permutation() {
    for size in [0usize, 1, 2, 50, 1000] {
        let mut order = shuffled_order(size);
        assert_eq!(order.len(), size);
        order.sort();
        assert_eq!(order, (0..size).collect::<Vec<_>>());
    }
}

#[test]
fn build_chain_links_in_order() {
    let nodes = build_chain(&vec![2, 0, 1]);
    assert_eq!(nodes, vec![(0, 1), (0, 2), (0, 0)]);
}

#[test]
fn chase_walks_the_cycle() {
    let order = shuffled_order(64);
    let nodes = build_chain(&order);
    assert_eq!(chase(&nodes, order[0], 1000), 0);
    let mut current = order[0];
    for k in 0..200usize {
        assert_eq!(current, order[k % 64]);
        current = nodes[current].1;
    }
}

#[test]
fn chase_adds_payloads() {
    let nodes = vec![(5u64, 1usize), (7, 0)];
    assert_eq!(chase(&nodes, 0, 3), 17);
    assert_eq!(chase(&nodes, 1, 0), 0);
    let wrapping = vec![(u64::MAX, 0usize)];
    assert_eq!(chase(&wrapping, 0, 2), u64::MAX - 1);
}

#[test]
fn chase_visits_every_slot_once_per_round() {
    let size = 37;
    let order = shuffled_order(size);
    let nodes = build_chain(&order);
    let mut seen = vec![false; size];
    let mut current = order[0];
    for _ in 0..size {
        assert!(!seen[current]);
        seen[current] = true;
        current = nodes[current].1;
    }
    assert!(seen.iter().all(|&s| s));
    assert_eq!(current, order[0]);
}

#[test]
fn fisher_yates_order_applies_the_draws() {
    assert_eq!(fisher_yates_order(4, &vec![1, 0, 0]), vec![3, 2, 0, 1]);
    assert_eq!(fisher_yates_order(4, &vec![3, 2, 1]), vec![0, 1, 2, 3]);
    assert_eq!(fisher_yates_order(2, &vec![0]), vec![1, 0]);
    assert_eq!(fisher_yates_order(1, &vec![]), vec![0]);
    assert!(fisher_yates_order(0, &vec![]).is_empty());
}

#[test]
fn shuffle_draws_fit_their_slots() {
    for size in [0usize, 1, 2, 5, 100] {
        let draws = shuffle_draws(size);
        assert_eq!(draws.len(), size.saturating_sub(1));
        for (t, &d) in draws.iter().enumerate() {
            assert!(d + t < size);
        }
    }
}

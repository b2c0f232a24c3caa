use bipolar::assignment::{
    deterministic_order, generator_key, identity_order, order_for_hash, pending_shards,
    resolve_count, shard_order,
};
use bipolar::config::{DefaultStrategy, RandomStrategy, StrategyType};

fn is_permutation(order: &[usize], n: usize) -> bool {
    let mut seen = vec![false; n];
    if order.len() != n {
        return false;
    }
    for &id in order {
        if id >= n || seen[id] {
            return false;
        }
        seen[id] = true;
    }
    true
}

#[test]
fn order_holds_every_shard_once() {
    for seed in [0u64, 1, 42, u64::MAX] {
        for name in ["", "A", "B", "a much longer treatment name"] {
            for n in [0usize, 1, 2, 3, 10, 17, 100] {
                let order = deterministic_order(seed, name, n);
                assert!(is_permutation(&order, n), "seed {seed} name {name} n {n}");
            }
        }
    }
}

#[test]
fn order_is_reproducible() {
    for n in [0usize, 1, 10, 64] {
        assert_eq!(deterministic_order(42, "A", n), deterministic_order(42, "A", n));
        assert_eq!(deterministic_order(7, "other", n), deterministic_order(7, "other", n));
    }
}

#[test]
fn order_for_seed_42_is_pinned() {
    assert_eq!(deterministic_order(42, "A", 10), vec![4, 9, 8, 7, 6, 3, 5, 2, 1, 0]);
    assert_eq!(deterministic_order(42, "B", 10), vec![8, 4, 5, 9, 7, 0, 2, 6, 1, 3]);
    assert_eq!(
        deterministic_order(7, "treatment", 20),
        vec![9, 15, 16, 3, 4, 19, 1, 7, 5, 18, 0, 8, 6, 13, 14, 11, 2, 17, 12, 10]
    );
}

#[test]
fn distinct_names_give_distinct_orders() {
    assert_ne!(deterministic_order(42, "A", 10), deterministic_order(42, "B", 10));
    assert_ne!(deterministic_order(42, "A", 50), deterministic_order(42, "a", 50));
}

#[test]
fn distinct_seeds_give_distinct_orders() {
    assert_ne!(deterministic_order(42, "A", 10), deterministic_order(43, "A", 10));
}

#[test]
fn order_is_shuffled_and_keyed_by_the_hash_of_the_pair() {
    let order = deterministic_order(42, "A", 10);
    // Not the ascending ids that went into the shuffle.
    assert_ne!(order, identity_order(0, 10));
    // Not the order that belongs to the bare seed taken as the hash.
    assert_ne!(order, order_for_hash(42, 10));
    assert_eq!(order_for_hash(42, 10), vec![6, 0, 2, 4, 5, 7, 8, 1, 9, 3]);
    assert_eq!(order_for_hash(0, 5), vec![2, 1, 0, 3, 4]);
}

#[test]
fn order_for_hash_holds_every_shard_once() {
    for hash in [0u64, 1, 0xdead_beef, u64::MAX] {
        for n in [0usize, 1, 5, 33] {
            assert!(is_permutation(&order_for_hash(hash, n), n));
            assert_eq!(order_for_hash(hash, n), order_for_hash(hash, n));
        }
    }
}

#[test]
fn generator_key_is_the_hash_in_little_endian_then_zeros() {
    let key = generator_key(0x0102_0304_0506_0708);
    let mut expected = [0u8; 32];
    expected[..8].copy_from_slice(&[8, 7, 6, 5, 4, 3, 2, 1]);
    assert_eq!(key, expected);
    assert_eq!(generator_key(0), [0u8; 32]);
    let top = generator_key(u64::MAX);
    assert_eq!(&top[..8], &[255u8; 8]);
    assert_eq!(&top[8..], &[0u8; 24]);
    assert_eq!(generator_key(256)[..3], [0, 1, 0]);
}

#[test]
fn identity_order_lists_the_window() {
    assert_eq!(identity_order(3, 6), vec![3, 4, 5]);
    assert_eq!(identity_order(0, 1), vec![0]);
    assert_eq!(identity_order(5, 5), Vec::<usize>::new());
    assert_eq!(identity_order(6, 3), Vec::<usize>::new());
}

#[test]
fn strategies_order_shards_their_own_way() {
    let seeded = StrategyType::Random(RandomStrategy { seed: 42 });
    assert_eq!(shard_order(&seeded, "A", 10, (2, 5)), deterministic_order(42, "A", 10));
    let plain = StrategyType::Proxy(DefaultStrategy {});
    assert_eq!(shard_order(&plain, "A", 10, (2, 5)), vec![2, 3, 4]);
    assert_eq!(shard_order(&plain, "B", 10, (0, 0)), Vec::<usize>::new());
}

#[test]
fn resolve_count_edges() {
    let ids: Vec<usize> = (0..10).collect();
    assert_eq!(resolve_count(&ids, 0), 0);
    assert_eq!(resolve_count(&ids, 100), 10);
    let none: Vec<usize> = Vec::new();
    assert_eq!(resolve_count(&none, 0), 0);
    assert_eq!(resolve_count(&none, 50), 0);
    assert_eq!(resolve_count(&none, 100), 0);
    let one = vec![7usize];
    assert_eq!(resolve_count(&one, 0), 0);
    assert_eq!(resolve_count(&one, 100), 1);
}

#[test]
fn resolve_count_rounds_to_the_nearest() {
    let ids: Vec<usize> = (0..10).collect();
    assert_eq!(resolve_count(&ids, 50), 5);
    assert_eq!(resolve_count(&ids, 30), 3);
    assert_eq!(resolve_count(&ids, 24), 2);
    assert_eq!(resolve_count(&ids, 25), 3);
    assert_eq!(resolve_count(&ids, 26), 3);
    assert_eq!(resolve_count(&ids, 4), 0);
    assert_eq!(resolve_count(&ids, 5), 1);
    assert_eq!(resolve_count(&ids, 95), 10);
    assert_eq!(resolve_count(&ids, 94), 9);
    let three = vec![0usize, 1, 2];
    assert_eq!(resolve_count(&three, 50), 2);
    assert_eq!(resolve_count(&three, 33), 1);
    assert_eq!(resolve_count(&three, 16), 0);
    assert_eq!(resolve_count(&three, 17), 1);
    let seven: Vec<usize> = (0..7).collect();
    assert_eq!(resolve_count(&seven, 33), 2);
    assert_eq!(resolve_count(&seven, 50), 4);
}

#[test]
fn resolve_count_above_a_hundred_per_cent() {
    let ids: Vec<usize> = (0..10).collect();
    assert_eq!(resolve_count(&ids, 150), 15);
    assert_eq!(resolve_count(&ids, 255), 26);
}

#[test]
fn resolve_count_looks_at_the_length_only() {
    assert_eq!(resolve_count(&vec![9, 9, 9, 9], 50), 2);
    assert_eq!(resolve_count(&deterministic_order(42, "A", 10), 50), 5);
}

#[test]
fn half_of_ten_shards_under_seed_42() {
    let order = deterministic_order(42, "A", 10);
    let count = resolve_count(&order, 50);
    assert_eq!(count, 5);
    let treated = pending_shards(&order, count, 0, (0, 10));
    assert_eq!(treated, vec![4, 9, 8, 7, 6]);
}

#[test]
fn pending_shards_takes_then_skips_then_filters() {
    let order = vec![4usize, 9, 8, 7, 6, 3, 5, 2, 1, 0];
    assert_eq!(pending_shards(&order, 6, 0, (0, 10)), vec![4, 9, 8, 7, 6, 3]);
    assert_eq!(pending_shards(&order, 6, 3, (0, 10)), vec![7, 6, 3]);
    assert_eq!(pending_shards(&order, 6, 6, (0, 10)), Vec::<usize>::new());
    assert_eq!(pending_shards(&order, 6, 9, (0, 10)), Vec::<usize>::new());
    assert_eq!(pending_shards(&order, 0, 0, (0, 10)), Vec::<usize>::new());
    assert_eq!(pending_shards(&order, 25, 8, (0, 10)), vec![1, 0]);
    assert_eq!(pending_shards(&order, 10, 10, (0, 10)), Vec::<usize>::new());
    assert_eq!(pending_shards(&order, usize::MAX, usize::MAX, (0, 10)), Vec::<usize>::new());
}

#[test]
fn pending_shards_leaves_out_what_lies_outside_the_window() {
    let order = vec![4usize, 9, 8, 7, 6, 3, 5, 2, 1, 0];
    assert_eq!(pending_shards(&order, 6, 0, (5, 10)), vec![9, 8, 7, 6]);
    assert_eq!(pending_shards(&order, 6, 2, (0, 5)), vec![3]);
    assert_eq!(pending_shards(&order, 10, 0, (3, 3)), Vec::<usize>::new());
    assert_eq!(pending_shards(&order, 10, 0, (7, 2)), Vec::<usize>::new());
    assert_eq!(pending_shards(&order, 10, 0, (9, 10)), vec![9]);
}

#[test]
fn raising_a_split_only_adds_shards() {
    let order = deterministic_order(42, "A", 10);
    let first = pending_shards(&order, resolve_count(&order, 30), 0, (0, 10));
    let second = pending_shards(&order, resolve_count(&order, 60), first.len(), (0, 10));
    assert_eq!(first, vec![4, 9, 8]);
    assert_eq!(second, vec![7, 6, 3]);
    for id in &second {
        assert!(!first.contains(id));
    }
    let mut both = first.clone();
    both.extend(&second);
    assert_eq!(both, pending_shards(&order, resolve_count(&order, 60), 0, (0, 10)));
}

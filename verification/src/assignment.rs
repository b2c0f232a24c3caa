//! The assignment engine: a reproducible order of the shards for each
//! treatment, and the number of shards that a split selects.

use crate::config::StrategyType;
use rand::seq::SliceRandom;
use rand::SeedableRng;
use rand_chacha::ChaCha8Rng;
use std::collections::hash_map::DefaultHasher;
use std::hash::BuildHasher;
use std::hash::BuildHasherDefault;
use vstd::arithmetic::div_mod::lemma_div_denominator;
use vstd::prelude::*;

verus! {

/// What the standard library's default hasher, started from its fixed
/// keys, yields after it was fed `seed` and then `name`.
pub uninterp spec fn pair_hash(seed: u64, name: Seq<char>) -> u64;

/// The order that `rand`'s slice shuffle leaves `items` in when it draws
/// from a ChaCha generator with 8 rounds that was seeded with `key`.
pub uninterp spec fn keyed_shuffle(key: Seq<u8>, items: Seq<usize>) -> Seq<usize>;

/// Hashes the pair with `BuildHasher::hash_one` on a
/// `BuildHasherDefault<DefaultHasher>`. Every hasher built that way starts
/// from the same state, so the value depends on the pair alone; the
/// contract gives that value its name and claims nothing else of it. The
/// standard library keeps the algorithm to itself, so the values belong
/// to the toolchain that built the program.
#[verifier::external_body]
fn hash_pair(seed: u64, name: &str) -> (hash: u64)
    ensures
        hash == pair_hash(seed, name@),
{
    BuildHasherDefault::<DefaultHasher>::default().hash_one((seed, name))
}

/// Shuffles `items` in place with `SliceRandom::shuffle`, drawing from
/// `ChaCha8Rng::from_seed(key)`. The shuffle only ever swaps two elements
/// of the slice, so what comes out is a rearrangement of what went in; the
/// generator is a function of its seed, so the arrangement depends on
/// `key` and the items alone.
#[verifier::external_body]
fn shuffle_with_key(items: &mut Vec<usize>, key: [u8; 32])
    ensures
        final(items)@ == keyed_shuffle(key@, old(items)@),
        final(items)@.to_multiset() == old(items)@.to_multiset(),
{
    let mut generator = ChaCha8Rng::from_seed(key);
    items.shuffle(&mut generator);
}

/// `256` to the power `i`.
pub open spec fn pow256(i: nat) -> nat
    decreases i,
{
    if i == 0 {
        1
    } else {
        256 * pow256((i - 1) as nat)
    }
}

/// The 256-bit generator key made from a 64-bit hash: its eight bytes,
/// least significant first, followed by zeros.
pub open spec fn key_of(hash: u64) -> Seq<u8> {
    Seq::new(
        32,
        |i: int|
            if i < 8 {
                ((hash as nat / pow256(i as nat)) % 256) as u8
            } else {
                0u8
            },
    )
}

/// The ids `lo, lo + 1, .., hi - 1`; empty when `hi <= lo`.
pub open spec fn id_range(lo: int, hi: int) -> Seq<usize> {
    Seq::new(
        if hi > lo {
            (hi - lo) as nat
        } else {
            0
        },
        |i: int| (lo + i) as usize,
    )
}

/// `order` holds each id below `n` exactly once and nothing else.
pub open spec fn is_permutation_of_range(order: Seq<usize>, n: nat) -> bool {
    &&& order.len() == n
    &&& order.no_duplicates()
    &&& forall|i: int| 0 <= i < order.len() ==> (#[trigger] order[i]) < n
    &&& forall|id: usize| id < n ==> order.contains(id)
}

/// The order of the ids below `shard_count` that belongs to `hash`.
pub open spec fn order_of_hash(hash: u64, shard_count: usize) -> Seq<usize> {
    keyed_shuffle(key_of(hash), id_range(0, shard_count as int))
}

/// The order of the ids below `shard_count` for one treatment under one
/// seed.
pub open spec fn order_of(seed: u64, name: Seq<char>, shard_count: usize) -> Seq<usize> {
    order_of_hash(pair_hash(seed, name), shard_count)
}

/// The order in which a strategy hands out shards to the treatment called
/// `name`: the seeded strategy orders all ids below `shard_count`, the
/// other one lists the ids of `[min, max)` as they are.
pub open spec fn strategy_order(
    strategy: StrategyType,
    name: Seq<char>,
    shard_count: usize,
    minmax: (usize, usize),
) -> Seq<usize> {
    match strategy {
        StrategyType::Random(random) => order_of(random.seed, name, shard_count),
        StrategyType::Proxy(_) => id_range(minmax.0 as int, minmax.1 as int),
    }
}

/// `len * percent / 100`, rounded to the nearest whole number, halves up.
pub open spec fn rounded_share(len: nat, percent: nat) -> nat {
    (len * percent + 50) / 100
}

/// The number of ids a split selects, capped at what a `usize` holds.
pub open spec fn split_count(len: nat, percent: u8) -> nat {
    let share = rounded_share(len, percent as nat);
    if share > usize::MAX {
        usize::MAX as nat
    } else {
        share
    }
}

/// The ids that are due: the first `count` of `order`, without the first
/// `done` of those.
pub open spec fn due_ids(order: Seq<usize>, count: nat, done: nat) -> Seq<usize> {
    let selected = if count < order.len() {
        order.take(count as int)
    } else {
        order
    };
    if done < selected.len() {
        selected.skip(done as int)
    } else {
        Seq::empty()
    }
}

/// Whether shard `id` lies in the half-open window `[minmax.0, minmax.1)`.
pub open spec fn owns(minmax: (usize, usize)) -> spec_fn(usize) -> bool {
    |id: usize| minmax.0 <= id < minmax.1
}

/// The ids of `ids` that lie in the window, in their order.
pub open spec fn in_window(ids: Seq<usize>, minmax: (usize, usize)) -> Seq<usize> {
    ids.filter(owns(minmax))
}

proof fn lemma_rearranged_range(order: Seq<usize>, n: usize)
    requires
        order.to_multiset() == id_range(0, n as int).to_multiset(),
    ensures
        is_permutation_of_range(order, n as nat),
{
    let ids = id_range(0, n as int);
    vstd::seq_lib::to_multiset_len(order);
    vstd::seq_lib::to_multiset_len(ids);
    ids.lemma_multiset_has_no_duplicates();
    order.lemma_multiset_has_no_duplicates_conv();
    assert forall|i: int| 0 <= i < order.len() implies (#[trigger] order[i]) < n by {
        let x = order[i];
        assert(order.contains(x));
        vstd::seq_lib::to_multiset_contains(order, x);
        vstd::seq_lib::to_multiset_contains(ids, x);
        let j = choose|j: int| 0 <= j < ids.len() && ids[j] == x;
        assert(ids[j] == j);
    }
    assert forall|id: usize| id < n implies order.contains(id) by {
        assert(ids[id as int] == id);
        assert(ids.contains(id));
        vstd::seq_lib::to_multiset_contains(order, id);
        vstd::seq_lib::to_multiset_contains(ids, id);
    }
}

/// The ids of `[min, max)` in ascending order.
pub fn identity_order(min: usize, max: usize) -> (ids: Vec<usize>)
    ensures
        ids@ == id_range(min as int, max as int),
{
    let mut ids: Vec<usize> = Vec::new();
    let mut next: usize = min;
    while next < max
        invariant
            min <= next <= max || (max < min && next == min),
            ids@ == id_range(min as int, next as int),
        decreases max - next,
    {
        ids.push(next);
        next += 1;
        assert(ids@ =~= id_range(min as int, next as int));
    }
    assert(ids@ =~= id_range(min as int, max as int));
    ids
}

/// Expands a hash into the key of the generator.
pub fn generator_key(hash: u64) -> (key: [u8; 32])
    ensures
        key@ == key_of(hash),
{
    let mut key = [0u8; 32];
    let mut rest: u64 = hash;
    let mut i: usize = 0;
    assert(pow256(0) == 1);
    while i < 8
        invariant
            i <= 8,
            rest as nat == hash as nat / pow256(i as nat),
            pow256(i as nat) > 0,
            forall|j: int| 0 <= j < i ==> key@[j] == key_of(hash)[j],
            forall|j: int| i <= j < 32 ==> key@[j] == 0u8,
        decreases 8 - i,
    {
        key[i] = (rest % 256) as u8;
        proof {
            lemma_div_denominator(hash as int, pow256(i as nat) as int, 256);
            assert(pow256((i + 1) as nat) == 256 * pow256(i as nat));
            assert(256 * pow256(i as nat) == pow256(i as nat) * 256) by (nonlinear_arith);
        }
        rest = rest / 256;
        i += 1;
    }
    assert(key@ =~= key_of(hash));
    key
}

/// The order of the ids below `shard_count` that belongs to `hash`: the
/// ascending ids, shuffled by a generator whose key is made from `hash`.
pub fn order_for_hash(hash: u64, shard_count: usize) -> (order: Vec<usize>)
    ensures
        order@ == order_of_hash(hash, shard_count),
        is_permutation_of_range(order@, shard_count as nat),
{
    let mut order = identity_order(0, shard_count);
    let key = generator_key(hash);
    shuffle_with_key(&mut order, key);
    proof {
        lemma_rearranged_range(order@, shard_count);
    }
    order
}

/// The order in which the shards of an experiment are offered to one
/// treatment. It holds every id below `shard_count` once, and it is a
/// function of the three arguments: the same seed, name and count give the
/// same order in every build.
pub fn deterministic_order(seed: u64, treatment_name: &str, shard_count: usize) -> (order: Vec<
    usize,
>)
    ensures
        order@ == order_of(seed, treatment_name@, shard_count),
        is_permutation_of_range(order@, shard_count as nat),
{
    order_for_hash(hash_pair(seed, treatment_name), shard_count)
}

/// The order in which `strategy` offers shards to the treatment called
/// `treatment_name`.
pub fn shard_order(
    strategy: &StrategyType,
    treatment_name: &str,
    shard_count: usize,
    minmax: (usize, usize),
) -> (order: Vec<usize>)
    ensures
        order@ == strategy_order(*strategy, treatment_name@, shard_count, minmax),
        strategy is Random ==> is_permutation_of_range(order@, shard_count as nat),
{
    match strategy {
        StrategyType::Random(random) => deterministic_order(
            random.seed,
            treatment_name,
            shard_count,
        ),
        StrategyType::Proxy(_) => identity_order(minmax.0, minmax.1),
    }
}

/// How many of `ordered_ids` a split of `split_percent` per cent selects.
pub fn resolve_count(ordered_ids: &Vec<usize>, split_percent: u8) -> (count: usize)
    ensures
        count == split_count(ordered_ids@.len(), split_percent),
        split_percent == 0 ==> count == 0,
        split_percent == 100 ==> count == ordered_ids@.len(),
        split_percent <= 100 ==> count <= ordered_ids@.len(),
{
    let len: u128 = ordered_ids.len() as u128;
    let percent: u128 = split_percent as u128;
    assert(len * percent <= 0xffff_ffff_ffff_ffff * 255) by (nonlinear_arith)
        requires
            len <= 0xffff_ffff_ffff_ffff,
            percent <= 255,
    ;
    let share: u128 = (len * percent + 50) / 100;
    proof {
        if split_percent == 0 {
            assert(len * percent == 0) by (nonlinear_arith)
                requires
                    percent == 0,
            ;
        }
        if split_percent <= 100 {
            assert(len * percent <= len * 100) by (nonlinear_arith)
                requires
                    percent <= 100,
                    len >= 0,
            ;
        }
        if split_percent == 100 {
            assert(len * percent == len * 100) by (nonlinear_arith)
                requires
                    percent == 100,
            ;
        }
    }
    if share > usize::MAX as u128 {
        usize::MAX
    } else {
        share as usize
    }
}

/// The shards that a treatment is still to be applied to on this
/// instance: of the first `count` ids of `order`, those after the first
/// `done`, as far as they lie in the window `minmax`.
pub fn pending_shards(order: &Vec<usize>, count: usize, done: usize, minmax: (usize, usize)) -> (ids:
    Vec<usize>)
    ensures
        ids@ == in_window(due_ids(order@, count as nat, done as nat), minmax),
{
    let end = if count < order.len() {
        count
    } else {
        order.len()
    };
    let ghost due = due_ids(order@, count as nat, done as nat);
    let mut ids: Vec<usize> = Vec::new();
    if done >= end {
        proof {
            reveal(Seq::filter);
            assert(due =~= Seq::<usize>::empty());
        }
        return ids;
    }
    let mut i: usize = done;
    proof {
        reveal(Seq::filter);
        assert(due.take(0) =~= Seq::<usize>::empty());
    }
    while i < end
        invariant
            done <= i <= end <= order@.len(),
            due.len() == end - done,
            forall|j: int| 0 <= j < due.len() ==> due[j] == order@[done + j],
            ids@ == in_window(due.take(i - done), minmax),
        decreases end - i,
    {
        let id = order[i];
        proof {
            let seen = due.take(i - done);
            assert(due.take(i - done + 1) =~= seen.push(id));
            seen.lemma_filter_push(id, owns(minmax));
        }
        if minmax.0 <= id && id < minmax.1 {
            ids.push(id);
        }
        i += 1;
    }
    assert(due.take(end - done) =~= due);
    ids
}

/// The first `done` ids of `order`: the ones that were handed out before.
pub open spec fn handed_out(order: Seq<usize>, done: nat) -> Seq<usize> {
    if done < order.len() {
        order.take(done as int)
    } else {
        order
    }
}

/// Resuming never touches a shard twice: in an order without repetitions,
/// none of the ids that are due after `done` were handed out is among
/// those `done` ids.
pub proof fn lemma_due_ids_are_new(order: Seq<usize>, count: nat, done: nat)
    requires
        order.no_duplicates(),
    ensures
        forall|j: int|
            0 <= j < due_ids(order, count, done).len() ==> !handed_out(order, done).contains(
                #[trigger] due_ids(order, count, done)[j],
            ),
{
    let due = due_ids(order, count, done);
    let before = handed_out(order, done);
    assert forall|j: int| 0 <= j < due.len() implies !before.contains(#[trigger] due[j]) by {
        assert(due[j] == order[done + j]);
        if before.contains(due[j]) {
            let i = choose|i: int| 0 <= i < before.len() && before[i] == due[j];
            assert(order[i] == order[done + j]);
        }
    }
}

/// Raising a split only adds shards: what is due of the first `more` ids
/// after the first `fewer` were handed out is the rest of those `more`.
pub proof fn lemma_due_ids_complete(order: Seq<usize>, fewer: nat, more: nat)
    requires
        fewer <= more <= order.len(),
    ensures
        order.take(fewer as int) + due_ids(order, more, fewer) == order.take(more as int),
        due_ids(order, more, fewer).len() == more - fewer,
{
    assert(order.take(fewer as int) + due_ids(order, more, fewer) =~= order.take(more as int));
}

/// The share is the nearest whole number: it differs from the exact
/// `len * percent / 100` by at most one half, and a half is rounded up.
pub proof fn lemma_rounded_share_is_nearest(len: nat, percent: nat)
    ensures
        100 * rounded_share(len, percent) - 50 <= len * percent < 100 * rounded_share(
            len,
            percent,
        ) + 50,
{
}

/// No split selects nothing, a full split selects everything, and a split
/// of at most a hundred per cent never selects more than there is.
pub proof fn lemma_rounded_share_bounds(len: nat, percent: nat)
    ensures
        rounded_share(len, 0) == 0,
        rounded_share(len, 100) == len,
        percent <= 100 ==> rounded_share(len, percent) <= len,
{
    assert(len * 0 == 0);
    if percent <= 100 {
        assert(len * percent <= len * 100) by (nonlinear_arith)
            requires
                percent <= 100,
        ;
    }
}

} // verus!

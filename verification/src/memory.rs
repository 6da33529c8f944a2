use vstd::prelude::*;
use vstd::arithmetic::div_mod::{
    lemma_fundamental_div_mod,
    lemma_fundamental_div_mod_converse_mod,
};

use crate::random::random_below;

verus! {

// ---------------------------------------------------------------------------
// Sequential access: write every slot with its index, then read them all back.
// ---------------------------------------------------------------------------

/// The `u64` sequence `0, 1, ..., n - 1`.
pub open spec fn index_seq(n: nat) -> Seq<u64> {
    Seq::new(n, |i: int| i as u64)
}

/// `0 + 1 + ... + (n - 1)` summed with wrapping `u64` additions, in that order.
pub open spec fn index_sum(n: nat) -> u64
    decreases n,
{
    if n == 0 {
        0
    } else {
        index_sum((n - 1) as nat).wrapping_add((n - 1) as u64)
    }
}

/// `0 + 1 + ... + (n - 1)` over the integers.
pub open spec fn triangle(n: nat) -> nat
    decreases n,
{
    if n == 0 {
        0
    } else {
        triangle((n - 1) as nat) + (n - 1) as nat
    }
}

proof fn lemma_triangle_closed_form(n: nat)
    ensures
        2 * triangle(n) == n * (n - 1),
    decreases n,
{
    if n == 0 {
        assert(n * (n - 1) == 0) by (nonlinear_arith)
            requires
                n == 0,
        ;
    } else {
        let m = (n - 1) as nat;
        lemma_triangle_closed_form(m);
        assert(2 * triangle(n) == n * (n - 1)) by (nonlinear_arith)
            requires
                2 * triangle(m) == m * (m - 1),
                triangle(n) == triangle(m) + m,
                m == n - 1,
        ;
    }
}

/// The wrapping sum of the indices below `n` is `n * (n - 1) / 2` modulo `2^64`.
pub proof fn lemma_index_sum_closed_form(n: nat)
    requires
        n <= u64::MAX + 1,
    ensures
        index_sum(n) == (n * (n - 1) / 2) % 0x1_0000_0000_0000_0000,
    decreases n,
{
    lemma_triangle_closed_form(n);
    lemma_index_sum_is_triangle_mod(n);
    assert(triangle(n) == n * (n - 1) / 2);
}

proof fn lemma_index_sum_is_triangle_mod(n: nat)
    requires
        n <= u64::MAX + 1,
    ensures
        index_sum(n) == triangle(n) % 0x1_0000_0000_0000_0000,
    decreases n,
{
    if n > 0 {
        lemma_index_sum_is_triangle_mod((n - 1) as nat);
        let m: int = 0x1_0000_0000_0000_0000;
        let t = triangle((n - 1) as nat) as int;
        let a = n - 1;
        vstd::arithmetic::div_mod::lemma_add_mod_noop(t, a, m);
        assert(a % m == a);
    }
}

/// Writes every slot of `buf` with its own index, then reads the slots back in
/// order and returns their wrapping sum.
pub fn sequential_pass(buf: &mut Vec<u64>) -> (sum: u64)
    ensures
        final(buf)@ == index_seq(old(buf)@.len()),
        sum == index_sum(old(buf)@.len()),
{
    let n = buf.len();
    let mut i: usize = 0;
    while i < n
        invariant
            buf@.len() == n,
            0 <= i <= n,
            forall|k: int| 0 <= k < i ==> #[trigger] buf@[k] == k as u64,
        decreases n - i,
    {
        buf.set(i, i as u64);
        i = i + 1;
    }
    assert(buf@ =~= index_seq(n as nat));
    let mut sum: u64 = 0;
    let mut i: usize = 0;
    while i < n
        invariant
            buf@ == index_seq(n as nat),
            0 <= i <= n,
            sum == index_sum(i as nat),
        decreases n - i,
    {
        sum = sum.wrapping_add(buf[i]);
        i = i + 1;
    }
    sum
}

/// A new buffer of `size` slots, each holding its own index.
pub fn index_values(size: usize) -> (values: Vec<u64>)
    ensures
        values@ == index_seq(size as nat),
{
    let mut values: Vec<u64> = Vec::with_capacity(size);
    let mut i: usize = 0;
    while i < size
        invariant
            0 <= i <= size,
            values@ =~= index_seq(i as nat),
        decreases size - i,
    {
        values.push(i as u64);
        i = i + 1;
    }
    values
}

// ---------------------------------------------------------------------------
// Random access: read-modify-write at a list of random slots.
// ---------------------------------------------------------------------------

/// `count` slot numbers drawn at random from `0..bound`.
pub fn random_indices(count: usize, bound: usize) -> (indices: Vec<usize>)
    requires
        count > 0 ==> bound > 0,
    ensures
        indices@.len() == count,
        forall|k: int| 0 <= k < count ==> #[trigger] indices@[k] < bound,
{
    let mut indices: Vec<usize> = Vec::with_capacity(count);
    let mut i: usize = 0;
    while i < count
        invariant
            0 <= i <= count,
            count > 0 ==> bound > 0,
            indices@.len() == i,
            forall|k: int| 0 <= k < i ==> #[trigger] indices@[k] < bound,
        decreases count - i,
    {
        let r = random_below(bound as u64);
        indices.push(r as usize);
        i = i + 1;
    }
    indices
}

/// The buffer and running sum after the read-modify-write steps at `indices`:
/// each step adds the slot to the sum (wrapping) and stores the sum back there.
pub open spec fn random_access_result(data: Seq<u64>, indices: Seq<usize>) -> (Seq<u64>, u64)
    decreases indices.len(),
{
    if indices.len() == 0 {
        (data, 0)
    } else {
        let (before, sum) = random_access_result(data, indices.drop_last());
        let slot = indices.last() as int;
        let next = sum.wrapping_add(before[slot]);
        (before.update(slot, next), next)
    }
}


/// The steps run in the order of the index list: with no indices nothing
/// changes and the sum is 0, and appending slot `k` to the list adds one
/// more step after all the others, which adds slot `k` (as it stands after
/// them) to the running sum and stores the new sum in slot `k`.
pub proof fn lemma_random_access_in_list_order(data: Seq<u64>, indices: Seq<usize>, k: usize)
    ensures
        random_access_result(data, Seq::<usize>::empty()) == (data, 0u64),
        ({
            let (before, sum) = random_access_result(data, indices);
            let next = sum.wrapping_add(before[k as int]);
            random_access_result(data, indices.push(k)) == (before.update(k as int, next), next)
        }),
{
    assert(indices.push(k).drop_last() =~= indices);
}

/// Runs the read-modify-write steps at `indices` on `data` and returns the final sum.
pub fn random_access_pass(data: &mut Vec<u64>, indices: &Vec<usize>) -> (sum: u64)
    requires
        forall|k: int| 0 <= k < indices@.len() ==> #[trigger] indices@[k] < old(data)@.len(),
    ensures
        (final(data)@, sum) == random_access_result(old(data)@, indices@),
{
    let ghost start = data@;
    let n = indices.len();
    let mut sum: u64 = 0;
    let mut i: usize = 0;
    while i < n
        invariant
            0 <= i <= n,
            n == indices@.len(),
            data@.len() == start.len(),
            forall|k: int| 0 <= k < n ==> #[trigger] indices@[k] < start.len(),
            (data@, sum) == random_access_result(start, indices@.take(i as int)),
        decreases n - i,
    {
        let slot = indices[i];
        proof {
            assert(indices@.take(i + 1).drop_last() =~= indices@.take(i as int));
        }
        sum = sum.wrapping_add(data[slot]);
        data.set(slot, sum);
        i = i + 1;
    }
    assert(indices@.take(n as int) =~= indices@);
    sum
}

// ---------------------------------------------------------------------------
// Bandwidth: copy a whole buffer over another, again and again.
// ---------------------------------------------------------------------------

/// Copies `src` over `dst` with `<[u64]>::copy_from_slice`.
///
/// Trusted: the contract claims what std's documentation of `copy_from_slice`
/// states, that afterwards `dst` holds the elements of `src`; the call panics
/// when the lengths differ, which `requires` leaves out.
#[verifier::external_body]
fn copy_slice(dst: &mut Vec<u64>, src: &Vec<u64>)
    requires
        old(dst)@.len() == src@.len(),
    ensures
        final(dst)@ == src@,
{
    dst.copy_from_slice(src)
}

/// Copies `src` over `dst` `iterations` times.
pub fn repeated_copy(dst: &mut Vec<u64>, src: &Vec<u64>, iterations: usize)
    requires
        old(dst)@.len() == src@.len(),
    ensures
        iterations > 0 ==> final(dst)@ == src@,
        iterations == 0 ==> final(dst)@ == old(dst)@,
{
    let mut i: usize = 0;
    while i < iterations
        invariant
            0 <= i <= iterations,
            dst@.len() == src@.len(),
            i > 0 ==> dst@ == src@,
            i == 0 ==> dst@ == old(dst)@,
        decreases iterations - i,
    {
        copy_slice(dst, src);
        i = i + 1;
    }
}

// ---------------------------------------------------------------------------
// Latency: chase pointers around one random cycle through every slot.
// ---------------------------------------------------------------------------

/// `s` holds each of `0..n` exactly once.
pub open spec fn is_permutation(s: Seq<usize>, n: nat) -> bool {
    &&& s.len() == n
    &&& forall|i: int| 0 <= i < s.len() ==> #[trigger] s[i] < n
    &&& forall|i: int, j: int| 0 <= i < s.len() && 0 <= j < s.len() && i != j ==> s[i] != s[j]
}

/// The slot that follows `order[i]` on the cycle: the next one in `order`,
/// and after the last one the first.
pub open spec fn cycle_successor(order: Seq<usize>, i: int) -> usize {
    if i + 1 < order.len() {
        order[i + 1]
    } else {
        order[0]
    }
}

/// `nodes` links the slots of `order` into one cycle: each node carries the
/// payload 0 and the slot that follows it in `order`.
pub open spec fn links_cycle(nodes: Seq<(u64, usize)>, order: Seq<usize>) -> bool {
    &&& nodes.len() == order.len()
    &&& forall|k: int| 0 <= k < nodes.len() ==> (#[trigger] nodes[k]).0 == 0 && nodes[k].1 < nodes.len()
    &&& forall|i: int| 0 <= i < order.len() ==> #[trigger] nodes[order[i] as int] == (0u64, cycle_successor(order, i))
}

/// The draws a Fisher-Yates shuffle of `size` slots takes, one per slot from
/// the last down to slot 1: draw `t` is for slot `size - 1 - t` and lies in
/// `0..=size - 1 - t`.
pub open spec fn valid_shuffle_draws(size: nat, draws: Seq<usize>) -> bool {
    &&& draws.len() == if size >= 2 { (size - 1) as nat } else { 0 }
    &&& forall|t: int| 0 <= t < draws.len() ==> #[trigger] draws[t] + t < size
}

/// The slots `0..size` in increasing order.
pub open spec fn identity_order(size: nat) -> Seq<usize> {
    Seq::new(size, |p: int| p as usize)
}

/// `s` with the entries at `i` and `j` exchanged.
pub open spec fn swap_entries(s: Seq<usize>, i: int, j: int) -> Seq<usize> {
    s.update(i, s[j]).update(j, s[i])
}

/// The order after the first `steps` swaps of the Fisher-Yates shuffle: swap
/// `k` (from 1) exchanges slot `size - k` with slot `draws[k - 1]`.
pub open spec fn fisher_yates_steps(size: nat, draws: Seq<usize>, steps: nat) -> Seq<usize>
    decreases steps,
{
    if steps == 0 {
        identity_order(size)
    } else {
        swap_entries(
            fisher_yates_steps(size, draws, (steps - 1) as nat),
            size - steps,
            draws[steps - 1] as int,
        )
    }
}

/// The order the Fisher-Yates shuffle of `0..size` gives for `draws`.
pub open spec fn fisher_yates(size: nat, draws: Seq<usize>) -> Seq<usize> {
    fisher_yates_steps(size, draws, draws.len())
}

/// Draws at random what a Fisher-Yates shuffle of `size` slots needs: for each
/// slot `i` from `size - 1` down to 1, a slot in `0..=i`.
pub fn shuffle_draws(size: usize) -> (draws: Vec<usize>)
    ensures
        valid_shuffle_draws(size as nat, draws@),
{
    let mut draws: Vec<usize> = Vec::new();
    let mut i: usize = size;
    while i > 1
        invariant
            i <= size,
            size >= 1 ==> i >= 1,
            draws@.len() + i == size,
            forall|t: int| 0 <= t < draws@.len() ==> #[trigger] draws@[t] + t < size,
        decreases i,
    {
        i = i - 1;
        let j = random_below(i as u64 + 1) as usize;
        draws.push(j);
    }
    draws
}

/// Shuffles the slots `0..size` with the given draws: from the last slot down
/// to slot 1, slot `i` is swapped with the slot its draw names.
pub fn fisher_yates_order(size: usize, draws: &Vec<usize>) -> (order: Vec<usize>)
    requires
        valid_shuffle_draws(size as nat, draws@),
    ensures
        order@ == fisher_yates(size as nat, draws@),
        is_permutation(order@, size as nat),
{
    let mut order: Vec<usize> = Vec::with_capacity(size);
    let mut k: usize = 0;
    while k < size
        invariant
            0 <= k <= size,
            order@.len() == k,
            forall|p: int| 0 <= p < k ==> #[trigger] order@[p] == p,
        decreases size - k,
    {
        order.push(k);
        k = k + 1;
    }
    assert(order@ =~= identity_order(size as nat));
    let steps = draws.len();
    let mut t: usize = 0;
    while t < steps
        invariant
            0 <= t <= steps,
            steps == draws@.len(),
            valid_shuffle_draws(size as nat, draws@),
            order@ == fisher_yates_steps(size as nat, draws@, t as nat),
            is_permutation(order@, size as nat),
        decreases steps - t,
    {
        let i = size - 1 - t;
        let j = draws[t];
        let at_i = order[i];
        let at_j = order[j];
        let ghost before = order@;
        order.set(i, at_j);
        order.set(j, at_i);
        assert(order@ =~= swap_entries(before, i as int, j as int));
        assert forall|p: int, q: int|
            0 <= p < order@.len() && 0 <= q < order@.len() && p != q implies order@[p] != order@[q] by {
            assert(before[p] != before[q] || p == q);
            if p == i as int || p == j as int || q == i as int || q == j as int {
                assert(order@[p] == before[if p == i as int { j as int } else if p == j as int { i as int } else { p }]);
                assert(order@[q] == before[if q == i as int { j as int } else if q == j as int { i as int } else { q }]);
            }
        }
        t = t + 1;
    }
    order
}

/// The slots `0..size` in a random order: random draws, then the Fisher-Yates
/// swaps they name.
pub fn shuffled_order(size: usize) -> (order: Vec<usize>)
    ensures
        is_permutation(order@, size as nat),
        exists|draws: Seq<usize>|
            valid_shuffle_draws(size as nat, draws) && order@ == fisher_yates(size as nat, draws),
{
    let draws = shuffle_draws(size);
    fisher_yates_order(size, &draws)
}

/// Links the slots of `order` into one cycle: node `order[i]` gets payload 0
/// and points at `order[i + 1]`, and the last one at `order[0]`.
pub fn build_chain(order: &Vec<usize>) -> (nodes: Vec<(u64, usize)>)
    requires
        is_permutation(order@, order@.len()),
    ensures
        links_cycle(nodes@, order@),
{
    let size = order.len();
    let mut nodes: Vec<(u64, usize)> = Vec::with_capacity(size);
    let mut k: usize = 0;
    while k < size
        invariant
            0 <= k <= size,
            nodes@.len() == k,
            forall|p: int| 0 <= p < k ==> #[trigger] nodes@[p] == (0u64, 0usize),
        decreases size - k,
    {
        nodes.push((0, 0));
        k = k + 1;
    }
    let mut i: usize = 0;
    while i < size
        invariant
            0 <= i <= size,
            size == order@.len(),
            is_permutation(order@, size as nat),
            nodes@.len() == size,
            forall|k: int| 0 <= k < size ==> (#[trigger] nodes@[k]).0 == 0 && nodes@[k].1 < size,
            forall|p: int| 0 <= p < i ==> #[trigger] nodes@[order@[p] as int] == (0u64, cycle_successor(order@, p)),
        decreases size - i,
    {
        let next = if i < size - 1 {
            order[i + 1]
        } else {
            order[0]
        };
        let ghost before = nodes@;
        nodes.set(order[i], (0, next));
        assert forall|p: int| 0 <= p < i + 1 implies #[trigger] nodes@[order@[p] as int] == (0u64, cycle_successor(order@, p)) by {
            if p < i {
                assert(order@[p] != order@[i as int]);
                assert(nodes@[order@[p] as int] == before[order@[p] as int]);
            }
        }
        i = i + 1;
    }
    nodes
}

/// The slot reached after following `steps` links from `start`.
pub open spec fn walk_position(nodes: Seq<(u64, usize)>, start: int, steps: nat) -> int
    decreases steps,
{
    if steps == 0 {
        start
    } else {
        nodes[walk_position(nodes, start, (steps - 1) as nat)].1 as int
    }
}

/// The wrapping sum of the payloads read on the first `steps` links from `start`.
pub open spec fn walk_sum(nodes: Seq<(u64, usize)>, start: int, steps: nat) -> u64
    decreases steps,
{
    if steps == 0 {
        0
    } else {
        walk_sum(nodes, start, (steps - 1) as nat).wrapping_add(
            nodes[walk_position(nodes, start, (steps - 1) as nat)].0,
        )
    }
}

/// Every link of `nodes` stays inside `nodes`.
pub open spec fn links_in_bounds(nodes: Seq<(u64, usize)>) -> bool {
    forall|k: int| 0 <= k < nodes.len() ==> (#[trigger] nodes[k]).1 < nodes.len()
}


/// Follows `operations` links from `start`, adding up the payloads read on the way.
pub fn chase(nodes: &Vec<(u64, usize)>, start: usize, operations: u64) -> (sum: u64)
    requires
        links_in_bounds(nodes@),
        start < nodes@.len(),
    ensures
        sum == walk_sum(nodes@, start as int, operations as nat),
{
    let mut current = start;
    let mut sum: u64 = 0;
    let mut k: u64 = 0;
    while k < operations
        invariant
            0 <= k <= operations,
            links_in_bounds(nodes@),
            current < nodes@.len(),
            current == walk_position(nodes@, start as int, k as nat),
            sum == walk_sum(nodes@, start as int, k as nat),
        decreases operations - k,
    {
        sum = sum.wrapping_add(nodes[current].0);
        current = nodes[current].1;
        k = k + 1;
    }
    sum
}

/// Following the links of a chain built over `order` from `order[0]` visits the
/// slots in the order of `order`, round and round: after `steps` links it stands
/// at `order[steps % n]`, and every payload read is 0.
pub proof fn lemma_chase_follows_order(nodes: Seq<(u64, usize)>, order: Seq<usize>, steps: nat)
    requires
        order.len() > 0,
        is_permutation(order, order.len()),
        links_cycle(nodes, order),
    ensures
        walk_position(nodes, order[0] as int, steps) == order[(steps as int) % (order.len() as int)],
        walk_sum(nodes, order[0] as int, steps) == 0,
    decreases steps,
{
    let n = order.len() as int;
    if steps == 0 {
        assert(0int % n == 0) by {
            lemma_fundamental_div_mod_converse_mod(0, n, 0, 0);
        }
    } else {
        let prev = (steps - 1) as nat;
        lemma_chase_follows_order(nodes, order, prev);
        let r = (prev as int) % n;
        lemma_fundamental_div_mod(prev as int, n);
        let q = (prev as int) / n;
        assert(0 <= r < n);
        assert(nodes[order[r] as int] == (0u64, cycle_successor(order, r)));
        if r + 1 < n {
            assert(steps == q * n + (r + 1)) by (nonlinear_arith)
                requires
                    prev == n * q + r,
                    steps == prev + 1,
            ;
            lemma_fundamental_div_mod_converse_mod(steps as int, n, q, r + 1);
        } else {
            assert(steps == (q + 1) * n + 0) by (nonlinear_arith)
                requires
                    prev == n * q + r,
                    r + 1 == n,
                    steps == prev + 1,
            ;
            lemma_fundamental_div_mod_converse_mod(steps as int, n, q + 1, 0);
        }
    }
}

/// A permutation of `0..n` holds every slot of `0..n`.
pub proof fn lemma_permutation_covers(order: Seq<usize>, n: nat, slot: int)
    requires
        is_permutation(order, n),
        0 <= slot < n,
    ensures
        exists|i: int| 0 <= i < n && order[i] == slot,
{
    let values = order.map_values(|x: usize| x as int);
    assert(values.no_duplicates()) by {
        assert forall|i: int, j: int| 0 <= i < values.len() && 0 <= j < values.len() && i != j implies values[i] != values[j] by {
            assert(order[i] != order[j]);
        }
    }
    values.unique_seq_to_set();
    vstd::set_lib::lemma_int_range(0, n as int);
    let range = vstd::set_lib::set_int_range(0, n as int);
    assert(values.to_set().subset_of(range)) by {
        assert forall|v: int| values.to_set().contains(v) implies range.contains(v) by {
            let i = choose|i: int| 0 <= i < values.len() && values[i] == v;
            assert(order[i] < n);
        }
    }
    vstd::set_lib::lemma_subset_equality(values.to_set(), range);
    assert(range.contains(slot));
    assert(values.to_set().contains(slot));
    let i = choose|i: int| 0 <= i < values.len() && values[i] == slot;
    assert(order[i] == slot);
}

/// Chasing the links of a chain built over a permutation from `order[0]`
/// reaches every slot within `n` steps: the chain is one cycle through all
/// the slots.
pub proof fn lemma_chase_visits_every_slot(nodes: Seq<(u64, usize)>, order: Seq<usize>, slot: int)
    requires
        order.len() > 0,
        is_permutation(order, order.len()),
        links_cycle(nodes, order),
        0 <= slot < order.len(),
    ensures
        exists|steps: nat| steps < order.len() && walk_position(nodes, order[0] as int, steps) == slot,
{
    lemma_permutation_covers(order, order.len(), slot);
    let i = choose|i: int| 0 <= i < order.len() && order[i] == slot;
    lemma_chase_follows_order(nodes, order, i as nat);
    assert((i as nat as int) % (order.len() as int) == i) by {
        lemma_fundamental_div_mod_converse_mod(i, order.len() as int, 0, i);
    }
    assert(walk_position(nodes, order[0] as int, i as nat) == slot);
}

} // verus!

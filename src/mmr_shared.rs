use vstd::arithmetic::power2::*;
use vstd::prelude::*;

verus! {

/// Node indices and leaf counts stay below this bound, so that every index computed
/// from them fits in a `u128`.
pub open spec fn index_bound() -> nat {
    pow2(120)
}

/// Number of set bits.
pub open spec fn popcount(x: nat) -> nat
    decreases x,
{
    if x == 0 {
        0
    } else {
        x % 2 + popcount(x / 2)
    }
}

proof fn lemma_popcount_le(x: nat)
    ensures
        popcount(x) <= x,
    decreases x,
{
    if x > 0 {
        lemma_popcount_le(x / 2);
    }
}

/// Smallest `h >= from` such that the perfect tree of height `h` rooted at node
/// `2^(h+1) - 1` reaches node `n`.
pub open spec fn leftmost_ancestor_height_from(n: nat, from: nat) -> nat
    decreases n - from,
{
    if pow2(from + 1) - 1 >= n || from >= n {
        from
    } else {
        leftmost_ancestor_height_from(n, from + 1)
    }
}

pub open spec fn leftmost_ancestor_height(n: nat) -> nat {
    leftmost_ancestor_height_from(n, 0)
}

/// Walks down from the root `node` of a perfect tree of height `h` that holds `n`
/// below its root, and says whether `n` is a right child, with its height.
pub open spec fn descend(n: nat, node: nat, h: nat) -> (bool, nat)
    decreases h,
{
    if h == 0 {
        (false, 0)
    } else {
        let left = node - pow2(h);
        if n == left {
            (false, (h - 1) as nat)
        } else if n < left {
            descend(n, left as nat, (h - 1) as nat)
        } else if n == node - 1 {
            (true, (h - 1) as nat)
        } else {
            descend(n, (node - 1) as nat, (h - 1) as nat)
        }
    }
}

/// Whether node `n` (1-based, postorder) is a right child, and its height.
pub open spec fn right_child_and_height_of(n: nat) -> (bool, nat) {
    let h = leftmost_ancestor_height(n);
    if pow2(h + 1) - 1 == n {
        (false, h)
    } else {
        descend(n, (pow2(h + 1) - 1) as nat, h)
    }
}

/// The parent of node `n`.
pub open spec fn parent_of(n: nat) -> nat {
    let (right, h) = right_child_and_height_of(n);
    if right {
        n + 1
    } else {
        n + pow2(h + 1)
    }
}

proof fn lemma_pow2_ge_succ(e: nat)
    ensures
        pow2(e) >= e + 1,
    decreases e,
{
    if e > 0 {
        lemma_pow2_unfold(e);
        lemma_pow2_ge_succ((e - 1) as nat);
        lemma_pow2_pos((e - 1) as nat);
    } else {
        lemma_pow2_0();
    }
}

proof fn lemma_pow2_0()
    ensures
        pow2(0) == 1,
{
    lemma2_to64();
}

/// `2^e` as a `u128`, for `e < 127`.
pub fn pow2_u128(e: u32) -> (r: u128)
    requires
        e < 127,
    ensures
        r == pow2(e as nat),
{
    let mut r: u128 = 1;
    let mut i: u32 = 0;
    proof {
        lemma_pow2_0();
    }
    while i < e
        invariant
            i <= e < 127,
            r == pow2(i as nat),
        decreases e - i,
    {
        proof {
            lemma_pow2_unfold((i + 1) as nat);
            lemma_pow2_strictly_increases((i + 1) as nat, 127);
            lemma_pow2_bound(127);
        }
        r = r * 2;
        i = i + 1;
    }
    r
}

proof fn lemma_pow2_bound(e: nat)
    requires
        e <= 127,
    ensures
        pow2(e) <= pow2(127),
        pow2(127) < u128::MAX,
{
    if e < 127 {
        lemma_pow2_strictly_increases(e, 127);
    }
    lemma2_to64();
    lemma2_to64_rest();
    lemma_pow2_adds(64, 63);
}

proof fn lemma_index_bound()
    ensures
        index_bound() < pow2(121),
        pow2(121) < pow2(127),
        pow2(127) < u128::MAX,
        pow2(119) == 2 * pow2(118),
        pow2(120) == 2 * pow2(119),
        pow2(121) == 2 * pow2(120),
        forall|h: nat| h <= 121 ==> #[trigger] pow2(h) <= pow2(121),
        4 * pow2(121) < u128::MAX,
{
    lemma_pow2_unfold(122);
    lemma_pow2_unfold(123);
    lemma_pow2_strictly_increases(123, 127);
    lemma_pow2_strictly_increases(120, 121);
    lemma_pow2_strictly_increases(121, 127);
    lemma_pow2_bound(127);
    lemma_pow2_unfold(119);
    lemma_pow2_unfold(120);
    lemma_pow2_unfold(121);
    assert forall|h: nat| h <= 121 implies #[trigger] pow2(h) <= pow2(121) by {
        if h < 121 {
            lemma_pow2_strictly_increases(h, 121);
        }
    }
}

/// The smallest perfect tree rooted at `2^(h+1) - 1` that holds node `node_index`,
/// as its root and height. This ancestor need not be in the accumulator.
pub fn leftmost_ancestor(node_index: u128) -> (r: (u128, u32))
    requires
        1 <= node_index < index_bound(),
    ensures
        r.1 == leftmost_ancestor_height(node_index as nat),
        r.0 == pow2(r.1 as nat + 1) - 1,
        r.0 >= node_index,
        r.1 < 121,
{
    let mut h: u32 = 0;
    proof {
        lemma_pow2_0();
        lemma_pow2_unfold(1);
        lemma_index_bound();
    }
    let mut ret: u128 = 1;
    while ret < node_index
        invariant
            h <= 120,
            ret == pow2(h as nat + 1) - 1,
            1 <= node_index < index_bound(),
            pow2(h as nat) <= node_index,
            leftmost_ancestor_height_from(node_index as nat, h as nat) == leftmost_ancestor_height(
                node_index as nat,
            ),
        decreases 120 - h,
    {
        proof {
            lemma_pow2_ge_succ(h as nat);
            lemma_pow2_unfold(h as nat + 1);
            lemma_pow2_unfold(h as nat + 2);
            lemma_index_bound();
            if h as nat + 1 > 120 {
                lemma_pow2_strictly_increases(120, h as nat + 1);
            }
        }
        h = h + 1;
        ret = pow2_u128(h + 1) - 1;
    }
    proof {
        lemma_pow2_ge_succ(h as nat);
    }
    (ret, h)
}

/// Whether node `node_index` is a right child, and its height (leaves have height 0).
pub fn right_child_and_height(node_index: u128) -> (r: (bool, u32))
    requires
        1 <= node_index < index_bound(),
    ensures
        (r.0, r.1 as nat) == right_child_and_height_of(node_index as nat),
        r.1 <= 120,
        node_index + 1 >= pow2(r.1 as nat + 1),
{
    let (leftmost, ancestor_height) = leftmost_ancestor(node_index);
    if leftmost == node_index {
        return (false, ancestor_height);
    }
    let ghost n = node_index as nat;
    let mut node = leftmost;
    let mut height = ancestor_height;
    proof {
        lemma_pow2_ge_succ(height as nat);
    }
    loop
        invariant
            1 <= node_index < index_bound(),
            n == node_index,
            height <= 120,
            node + 1 >= pow2(height as nat + 1),
            node + 2 <= n + pow2(height as nat + 1),
            n < node,
            descend(n, node as nat, height as nat) == right_child_and_height_of(n),
        decreases height,
    {
        proof {
            lemma_pow2_unfold(height as nat + 1);
            if height == 0 {
                lemma_pow2_0();
            }
            lemma_index_bound();
            lemma_pow2_bound(height as nat);
        }
        let left = node - pow2_u128(height);
        height = height - 1;
        if node_index == left {
            return (false, height);
        }
        if node_index < left {
            node = left;
        } else {
            let right = node - 1;
            if node_index == right {
                return (true, height);
            }
            node = right;
        }
    }
}

/// The parent of node `node_index`.
pub fn parent(node_index: u128) -> (r: u128)
    requires
        1 <= node_index < index_bound(),
    ensures
        r == parent_of(node_index as nat),
{
    let (right, height) = right_child_and_height(node_index);
    proof {
        lemma_index_bound();
        lemma_pow2_bound(height as nat + 1);
        lemma_pow2_strictly_increases(height as nat + 1, 127);
    }
    if right {
        node_index + 1
    } else {
        node_index + pow2_u128(height + 1)
    }
}

/// The left sibling of a right child of height `height`.
pub fn left_sibling(node_index: u128, height: u32) -> (r: u128)
    requires
        height <= 120,
        node_index < index_bound(),
        node_index + 1 >= pow2(height as nat + 1),
    ensures
        r == node_index - pow2(height as nat + 1) + 1,
{
    proof {
        lemma_index_bound();
    }
    node_index + 1 - pow2_u128(height + 1)
}

/// The right sibling of a left child of height `height`.
pub fn right_sibling(node_index: u128, height: u32) -> (r: u128)
    requires
        height <= 120,
        node_index < index_bound(),
    ensures
        r == node_index + pow2(height as nat + 1) - 1,
{
    proof {
        lemma_index_bound();
        lemma_pow2_pos(height as nat + 1);
    }
    node_index + pow2_u128(height + 1) - 1
}

/// Leaf indices and leaf counts stay below this bound.
pub open spec fn leaf_bound() -> nat {
    pow2(118)
}

fn count_ones(x: u128) -> (r: u128)
    ensures
        r == popcount(x as nat),
{
    let mut rest = x;
    let mut count: u128 = 0;
    proof {
        lemma_popcount_le(x as nat);
    }
    while rest > 0
        invariant
            count + popcount(rest as nat) == popcount(x as nat),
            popcount(x as nat) <= x,
        decreases rest,
    {
        count = count + rest % 2;
        rest = rest / 2;
    }
    count
}

/// The node index of leaf `data_index`: `2 * data_index - popcount(data_index) + 1`.
pub fn data_index_to_node_index(data_index: u128) -> (r: u128)
    requires
        data_index < leaf_bound(),
    ensures
        r == 2 * data_index - popcount(data_index as nat) + 1,
        1 <= r < index_bound(),
{
    proof {
        lemma_popcount_le(data_index as nat);
        lemma_pow2_unfold(119);
        lemma_pow2_unfold(120);
        lemma_index_bound();
    }
    2 * data_index - count_ones(data_index) + 1
}

/// The number of nodes of an accumulator with `leaf_count` leaves.
pub fn leaf_count_to_node_count(leaf_count: u128) -> (r: u128)
    requires
        leaf_count < leaf_bound(),
    ensures
        r == 2 * leaf_count - popcount(leaf_count as nat),
{
    proof {
        lemma_popcount_le(leaf_count as nat);
        lemma_pow2_unfold(119);
        lemma_index_bound();
    }
    2 * leaf_count - count_ones(leaf_count)
}

/// Bit `h` of `x`.
pub open spec fn bit(x: nat, h: nat) -> bool {
    (x / pow2(h)) % 2 == 1
}

/// The heights of the peaks of an accumulator of `leaf_count` leaves, among bit
/// positions below `h`, tallest first: one peak for each set bit.
pub open spec fn peak_heights(leaf_count: nat, h: nat) -> Seq<nat>
    decreases h,
{
    if h == 0 {
        Seq::empty()
    } else if bit(leaf_count, (h - 1) as nat) {
        seq![(h - 1) as nat] + peak_heights(leaf_count, (h - 1) as nat)
    } else {
        peak_heights(leaf_count, (h - 1) as nat)
    }
}

/// The node indices of those peaks, where `offset` nodes stand before them.
pub open spec fn peak_node_indices(leaf_count: nat, h: nat, offset: nat) -> Seq<nat>
    decreases h,
{
    if h == 0 {
        Seq::empty()
    } else if bit(leaf_count, (h - 1) as nat) {
        let o = offset + pow2(h) - 1;
        seq![o as nat] + peak_node_indices(leaf_count, (h - 1) as nat, o as nat)
    } else {
        peak_node_indices(leaf_count, (h - 1) as nat, offset)
    }
}

/// The heights and node indices of the peaks of an accumulator with `leaf_count`
/// leaves, tallest first.
pub fn get_peak_heights_and_peak_node_indices(leaf_count: u128) -> (r: (Vec<u32>, Vec<u128>))
    requires
        leaf_count < leaf_bound(),
    ensures
        r.0@.map_values(|h: u32| h as nat) == peak_heights(leaf_count as nat, 118),
        r.1@.map_values(|i: u128| i as nat) == peak_node_indices(leaf_count as nat, 118, 0),
{
    let mut heights: Vec<u32> = Vec::new();
    let mut nodes: Vec<u128> = Vec::new();
    let mut offset: u128 = 0;
    let mut h: u32 = 118;
    let ghost lc = leaf_count as nat;
    proof {
        lemma_index_bound();
    }
    while h > 0
        invariant
            h <= 118,
            lc == leaf_count,
            leaf_count < leaf_bound(),
            offset + pow2(h as nat + 1) <= pow2(119),
            pow2(119) < u128::MAX,
            heights@.map_values(|x: u32| x as nat) + peak_heights(lc, h as nat) == peak_heights(lc, 118),
            nodes@.map_values(|x: u128| x as nat) + peak_node_indices(lc, h as nat, offset as nat)
                == peak_node_indices(lc, 118, 0),
        decreases h,
    {
        let ghost old_heights = heights@.map_values(|x: u32| x as nat);
        let ghost old_nodes = nodes@.map_values(|x: u128| x as nat);
        h = h - 1;
        proof {
            lemma_pow2_unfold(h as nat + 1);
            lemma_pow2_unfold(h as nat + 2);
            lemma_pow2_pos(h as nat);
            lemma_index_bound();
        }
        let p = pow2_u128(h);
        if (leaf_count / p) % 2 == 1 {
            proof {
                assert(peak_heights(lc, h as nat + 1) == seq![h as nat] + peak_heights(lc, h as nat));
            }
            offset = offset + (2 * p - 1);
            heights.push(h);
            nodes.push(offset);
            assert(peak_node_indices(lc, h as nat + 1, (offset - (2 * p - 1)) as nat) == seq![
                offset as nat] + peak_node_indices(lc, h as nat, offset as nat));
            assert(heights@.map_values(|x: u32| x as nat) =~= old_heights.push(h as nat));
            assert(nodes@.map_values(|x: u128| x as nat) =~= old_nodes.push(offset as nat));
            assert(old_heights.push(h as nat) + peak_heights(lc, h as nat) =~= old_heights + peak_heights(lc, h as nat + 1));
            assert(old_nodes.push(offset as nat) + peak_node_indices(lc, h as nat, offset as nat) =~= old_nodes + peak_node_indices(lc, h as nat + 1, (offset - (2 * p - 1)) as nat));
        }
    }
    assert(peak_heights(lc, 0) =~= Seq::<nat>::empty());
    assert(heights@.map_values(|x: u32| x as nat) =~= heights@.map_values(|x: u32| x as nat) + peak_heights(lc, 0));
    assert(nodes@.map_values(|x: u128| x as nat) =~= nodes@.map_values(|x: u128| x as nat) + peak_node_indices(lc, 0, offset as nat));
    (heights, nodes)
}

/// For a leaf `leaf_index` below `leaf_count`, looking only at bit positions below `h`:
/// the height of the mountain that holds the leaf, the highest position where the two
/// differ.
pub open spec fn mountain_height(leaf_index: nat, leaf_count: nat, h: nat) -> nat
    decreases h,
{
    if h == 0 {
        0
    } else if bit(leaf_index, (h - 1) as nat) != bit(leaf_count, (h - 1) as nat) {
        (h - 1) as nat
    } else {
        mountain_height(leaf_index, leaf_count, (h - 1) as nat)
    }
}

/// The height of the mountain holding leaf `leaf_index`, and the position of its peak
/// in the peak list (tallest first): the number of peaks taller than it.
pub fn leaf_index_to_mountain(leaf_index: u128, leaf_count: u128) -> (r: (u32, usize))
    requires
        leaf_count < leaf_bound(),
    ensures
        r.0 == mountain_height(leaf_index as nat, leaf_count as nat, 118),
        r.1 == ones_from(leaf_count as nat, r.0 as nat + 1),
        r.0 < 118,
        r.1 <= 118,
{
    let mut h: u32 = 118;
    let ghost idx = leaf_index as nat;
    let ghost lc = leaf_count as nat;
    while h > 0
        invariant
            h <= 118,
            idx == leaf_index,
            lc == leaf_count,
            mountain_height(idx, lc, h as nat) == mountain_height(idx, lc, 118),
        decreases h,
    {
        h = h - 1;
        proof {
            lemma_pow2_pos(h as nat);
            lemma_index_bound();
        }
        let p = pow2_u128(h);
        let bl = (leaf_count / p) % 2;
        let bi = (leaf_index / p) % 2;
        if bl != bi {
            return (h, count_peaks_above(leaf_count, h + 1));
        }
    }
    (0, count_peaks_above(leaf_count, 1))
}

/// How many of bits `from .. 118` of `leaf_count` are set.
pub open spec fn ones_from(leaf_count: nat, from: nat) -> nat
    decreases 118 - from,
{
    if from >= 118 {
        0
    } else {
        ones_from(leaf_count, from + 1) + if bit(leaf_count, from) {
            1nat
        } else {
            0nat
        }
    }
}

fn count_peaks_above(leaf_count: u128, from: u32) -> (r: usize)
    requires
        from <= 118,
    ensures
        r == ones_from(leaf_count as nat, from as nat),
        r <= 118 - from,
{
    let mut k: u32 = 118;
    let mut count: usize = 0;
    while k > from
        invariant
            from <= k <= 118,
            count == ones_from(leaf_count as nat, k as nat),
            count <= 118 - k,
        decreases k,
    {
        k = k - 1;
        proof {
            lemma_pow2_pos(k as nat);
            lemma_index_bound();
            lemma_ones_from_le(leaf_count as nat, k as nat);
        }
        if (leaf_count / pow2_u128(k)) % 2 == 1 {
            count = count + 1;
        }
    }
    count
}

proof fn lemma_ones_from_le(x: nat, from: nat)
    requires
        from <= 118,
    ensures
        ones_from(x, from) <= 118 - from,
    decreases 118 - from,
{
    if from < 118 {
        lemma_ones_from_le(x, from + 1);
    }
}

} // verus!

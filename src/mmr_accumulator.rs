use crate::mmr_shared::{
    data_index_to_node_index, get_peak_heights_and_peak_node_indices, index_bound, leaf_bound,
    leaf_index_to_mountain, left_sibling, mountain_height, ones_from, parent, parent_of,
    peak_node_indices, popcount, right_child_and_height, right_child_and_height_of, right_sibling,
    leaf_count_to_node_count, pow2_u128,
};
use vstd::arithmetic::power2::{lemma2_to64, lemma2_to64_rest, lemma_pow2_adds, pow2};
use std::collections::HashMap;
use vstd::prelude::*;

verus! {

broadcast use vstd::std_specs::hash::group_hash_axioms;

/// A 32-byte digest.
pub type Digest = [u8; 32];

/// What BLAKE3 makes of a byte string.
pub uninterp spec fn blake3_of(data: Seq<u8>) -> Seq<u8>;

/// Relies on `blake3::hash`: the 32-byte BLAKE3 digest of `data`, which depends on
/// `data` alone.
#[verifier::external_body]
fn blake3_hash(data: &Vec<u8>) -> (r: Digest)
    ensures
        r@ == blake3_of(data@),
{
    *blake3::hash(data.as_slice()).as_bytes()
}

/// The digest of two digests: BLAKE3 of their concatenation.
pub open spec fn hash_pair_of(left: Seq<u8>, right: Seq<u8>) -> Seq<u8> {
    blake3_of(left + right)
}

/// The views of a sequence of digests.
pub open spec fn digests_view(s: Seq<Digest>) -> Seq<Seq<u8>> {
    s.map_values(|d: Digest| d@)
}

pub fn hash_pair(left: &Digest, right: &Digest) -> (r: Digest)
    ensures
        r@ == hash_pair_of(left@, right@),
{
    let mut data: Vec<u8> = Vec::new();
    let mut i: usize = 0;
    while i < 32
        invariant
            0 <= i <= 32,
            data@ == left@.subrange(0, i as int),
        decreases 32 - i,
    {
        data.push(left[i]);
        i = i + 1;
        assert(data@ =~= left@.subrange(0, i as int));
    }
    let mut j: usize = 0;
    while j < 32
        invariant
            0 <= j <= 32,
            data@ == left@ + right@.subrange(0, j as int),
        decreases 32 - j,
    {
        data.push(right[j]);
        j = j + 1;
        assert(data@ =~= left@ + right@.subrange(0, j as int));
    }
    assert(left@.subrange(0, 32) =~= left@);
    assert(right@.subrange(0, 32) =~= right@);
    blake3_hash(&data)
}

pub fn digest_eq(a: &Digest, b: &Digest) -> (r: bool)
    ensures
        r == (a@ == b@),
{
    let mut i: usize = 0;
    while i < 32
        invariant
            0 <= i <= 32,
            forall|k: int| 0 <= k < i ==> a@[k] == b@[k],
        decreases 32 - i,
    {
        if a[i] != b[i] {
            return false;
        }
        i = i + 1;
    }
    assert(a@ =~= b@);
    true
}

fn digests_eq(a: &[Digest], b: &[Digest]) -> (r: bool)
    ensures
        r == (digests_view(a@) == digests_view(b@)),
{
    if a.len() != b.len() {
        assert(digests_view(a@).len() != digests_view(b@).len());
        return false;
    }
    let mut i: usize = 0;
    while i < a.len()
        invariant
            a.len() == b.len(),
            0 <= i <= a.len(),
            forall|k: int| 0 <= k < i ==> a@[k]@ == b@[k]@,
        decreases a.len() - i,
    {
        if !digest_eq(&a[i], &b[i]) {
            assert(digests_view(a@)[i as int] != digests_view(b@)[i as int]);
            return false;
        }
        i = i + 1;
    }
    assert(digests_view(a@) =~= digests_view(b@));
    true
}

/// The digest reached by climbing from node `node` holding `acc`, hashing in one
/// sibling of `path` at each step, and the node index reached. `None` where an index
/// leaves the range that the index arithmetic covers.
pub open spec fn climb(node: nat, acc: Seq<u8>, path: Seq<Seq<u8>>) -> Option<(Seq<u8>, nat)>
    decreases path.len(),
{
    if path.len() == 0 {
        Some((acc, node))
    } else if !(1 <= node < index_bound()) {
        None
    } else {
        let next = if right_child_and_height_of(node).0 {
            hash_pair_of(path[0], acc)
        } else {
            hash_pair_of(acc, path[0])
        };
        climb(parent_of(node), next, path.drop_first())
    }
}

/// Leaf counts and leaf indices below this bound are accepted.
pub const LEAF_BOUND: u128 = 0x40_0000_0000_0000_0000_0000_0000_0000u128;

proof fn lemma_leaf_bound()
    ensures
        LEAF_BOUND == leaf_bound(),
{
    lemma2_to64();
    lemma2_to64_rest();
    lemma_pow2_adds(64, 54);
}

/// A claim that a leaf stands at `data_index`, with the siblings met on the way from
/// it to its peak.
#[derive(Debug, Clone)]
pub struct MembershipProof {
    pub data_index: u128,
    pub authentication_path: Vec<Digest>,
}

fn climb_path(node_index: u128, leaf: &Digest, path: &Vec<Digest>) -> (r: Option<(Digest, u128)>)
    ensures
        match climb(node_index as nat, leaf@, digests_view(path@)) {
            Some((d, n)) => r is Some && (r->0).0@ == d && (r->0).1 == n,
            None => r is None,
        },
{
    let mut acc: Digest = *leaf;
    let mut idx: u128 = node_index;
    let mut i: usize = 0;
    let ghost pv = digests_view(path@);
    assert(pv.subrange(0, path.len() as int) =~= pv);
    while i < path.len()
        invariant
            0 <= i <= path.len(),
            pv == digests_view(path@),
            climb(node_index as nat, leaf@, pv) == climb(idx as nat, acc@, pv.subrange(i as int, path.len() as int)),
        decreases path.len() - i,
    {
        if idx == 0 || idx >= LEAF_BOUND * 4 {
            proof {
                lemma_leaf_bound();
                vstd::arithmetic::power2::lemma_pow2_unfold(119);
                vstd::arithmetic::power2::lemma_pow2_unfold(120);
            }
            return None;
        }
        proof {
            lemma_leaf_bound();
            vstd::arithmetic::power2::lemma_pow2_unfold(119);
            vstd::arithmetic::power2::lemma_pow2_unfold(120);
            assert(pv.subrange(i as int, path.len() as int).drop_first() =~= pv.subrange(i + 1, path.len() as int));
        }
        let (right, _height) = right_child_and_height(idx);
        if right {
            acc = hash_pair(&path[i], &acc);
        } else {
            acc = hash_pair(&acc, &path[i]);
        }
        idx = parent(idx);
        i = i + 1;
    }
    assert(pv.subrange(i as int, path.len() as int) =~= Seq::<Seq<u8>>::empty());
    Some((acc, idx))
}

/// Byte `i` of the 16-byte big-endian encoding of `n`.
pub open spec fn be_byte(n: nat, i: int) -> u8 {
    ((n / pow2((8 * (15 - i)) as nat)) % 256) as u8
}

/// The digest that stands for the number `n`: BLAKE3 of its 16 big-endian bytes.
pub open spec fn digest_of_u128_spec(n: nat) -> Seq<u8> {
    blake3_of(Seq::new(16, |i: int| be_byte(n, i)))
}

pub fn digest_of_u128(n: u128) -> (r: Digest)
    ensures
        r@ == digest_of_u128_spec(n as nat),
{
    let mut bytes: Vec<u8> = Vec::new();
    let mut i: u32 = 0;
    while i < 16
        invariant
            0 <= i <= 16,
            bytes@ == Seq::new(i as nat, |k: int| be_byte(n as nat, k)),
        decreases 16 - i,
    {
        proof {
            vstd::arithmetic::power2::lemma_pow2_pos((8 * (15 - i)) as nat);
        }
        let b = ((n / pow2_u128(8 * (15 - i))) % 256) as u8;
        bytes.push(b);
        i = i + 1;
        assert(bytes@ =~= Seq::new(i as nat, |k: int| be_byte(n as nat, k)));
    }
    blake3_hash(&bytes)
}

/// First position at or after `i` where `s` holds `x`, or -1.
pub open spec fn index_from(s: Seq<nat>, x: nat, i: int) -> int
    decreases s.len() - i,
{
    if i < 0 || i >= s.len() {
        -1
    } else if s[i] == x {
        i
    } else {
        index_from(s, x, i + 1)
    }
}

fn position_of(s: &Vec<u128>, x: u128) -> (r: Option<usize>)
    ensures
        index_from(s@.map_values(|v: u128| v as nat), x as nat, 0) == match r {
            Some(k) => k as int,
            None => -1,
        },
{
    let ghost sv = s@.map_values(|v: u128| v as nat);
    let mut i: usize = 0;
    while i < s.len()
        invariant
            0 <= i <= s.len(),
            sv == s@.map_values(|v: u128| v as nat),
            index_from(sv, x as nat, 0) == index_from(sv, x as nat, i as int),
        decreases s.len() - i,
    {
        if s[i] == x {
            return Some(i);
        }
        i = i + 1;
    }
    None
}

/// The peaks after the leaf of `mp` is replaced by `leaf`: the climb from that leaf
/// along the authentication path must end at a peak, which then takes the climbed
/// digest. `None` where it does not.
pub open spec fn peaks_after_mutation(
    peaks: Seq<Seq<u8>>,
    leaf: Seq<u8>,
    leaf_count: nat,
    data_index: nat,
    path: Seq<Seq<u8>>,
) -> Option<Seq<Seq<u8>>> {
    if data_index >= leaf_bound() || leaf_count >= leaf_bound() {
        None
    } else {
        match climb((2 * data_index - popcount(data_index) + 1) as nat, leaf, path) {
            None => None,
            Some((d, n)) => {
                let k = index_from(peak_node_indices(leaf_count, 118, 0), n, 0);
                if 0 <= k < peaks.len() {
                    Some(peaks.update(k, d))
                } else {
                    None
                }
            },
        }
    }
}

pub fn calculate_new_peaks_from_leaf_mutation(
    old_peaks: &Vec<Digest>,
    new_leaf: &Digest,
    leaf_count: u128,
    membership_proof: &MembershipProof,
) -> (r: Option<Vec<Digest>>)
    ensures
        match peaks_after_mutation(
            digests_view(old_peaks@),
            new_leaf@,
            leaf_count as nat,
            membership_proof.data_index as nat,
            digests_view(membership_proof.authentication_path@),
        ) {
            Some(p) => r is Some && digests_view(r->0@) == p,
            None => r is None,
        },
{
    proof {
        lemma_leaf_bound();
    }
    if membership_proof.data_index >= LEAF_BOUND || leaf_count >= LEAF_BOUND {
        return None;
    }
    let node_index = data_index_to_node_index(membership_proof.data_index);
    match climb_path(node_index, new_leaf, &membership_proof.authentication_path) {
        None => None,
        Some((acc_hash, acc_index)) => {
            let (_heights, peak_indices) = get_peak_heights_and_peak_node_indices(leaf_count);
            match position_of(&peak_indices, acc_index) {
                Some(k) => {
                    if k < old_peaks.len() {
                        let mut new_peaks = old_peaks.clone();
                        new_peaks.set(k, acc_hash);
                        assert(digests_view(new_peaks@) =~= digests_view(old_peaks@).update(k as int, acc_hash@));
                        Some(new_peaks)
                    } else {
                        None
                    }
                },
                None => None,
            }
        },
    }
}

/// Appending from node `node`: while the newest node is a right child, the two last
/// peaks merge into their parent, and the left one joins the authentication path.
pub open spec fn append_from(peaks: Seq<Seq<u8>>, node: nat, path: Seq<Seq<u8>>) -> Option<
    (Seq<Seq<u8>>, Seq<Seq<u8>>),
>
    decreases peaks.len(),
{
    if !(1 <= node < index_bound()) {
        None
    } else if !right_child_and_height_of(node).0 {
        Some((peaks, path))
    } else if peaks.len() < 2 {
        None
    } else {
        let new_hash = peaks[peaks.len() - 1];
        let previous = peaks[peaks.len() - 2];
        append_from(
            peaks.drop_last().drop_last().push(hash_pair_of(previous, new_hash)),
            node + 1,
            path.push(previous),
        )
    }
}

/// The peaks and the authentication path of the new leaf after appending `leaf` to an
/// accumulator of `leaf_count` leaves with the given peaks.
pub open spec fn append_result(leaf_count: nat, peaks: Seq<Seq<u8>>, leaf: Seq<u8>) -> Option<
    (Seq<Seq<u8>>, Seq<Seq<u8>>),
> {
    if leaf_count + 1 >= leaf_bound() {
        None
    } else {
        append_from(peaks.push(leaf), (2 * leaf_count - popcount(leaf_count) + 1) as nat, seq![])
    }
}

pub fn calculate_new_peaks_from_append(
    old_leaf_count: u128,
    old_peaks: Vec<Digest>,
    new_leaf: Digest,
) -> (r: Option<(Vec<Digest>, MembershipProof)>)
    ensures
        match append_result(old_leaf_count as nat, digests_view(old_peaks@), new_leaf@) {
            Some((p, a)) => r is Some && digests_view((r->0).0@) == p && (r->0).1.data_index
                == old_leaf_count && digests_view((r->0).1.authentication_path@) == a,
            None => r is None,
        },
{
    proof {
        lemma_leaf_bound();
    }
    if old_leaf_count >= LEAF_BOUND - 1 {
        return None;
    }
    let mut peaks = old_peaks;
    peaks.push(new_leaf);
    let mut new_node_index = data_index_to_node_index(old_leaf_count);
    let mut path: Vec<Digest> = Vec::new();
    assert(digests_view(peaks@) =~= digests_view(old_peaks@).push(new_leaf@));
    assert(digests_view(path@) =~= Seq::<Seq<u8>>::empty());
    loop
        invariant
            1 <= new_node_index,
            append_result(old_leaf_count as nat, digests_view(old_peaks@), new_leaf@) == append_from(
                digests_view(peaks@),
                new_node_index as nat,
                digests_view(path@),
            ),
        ensures
            append_from(digests_view(peaks@), new_node_index as nat, digests_view(path@)) == Some(
                (digests_view(peaks@), digests_view(path@)),
            ),
            append_result(old_leaf_count as nat, digests_view(old_peaks@), new_leaf@) == append_from(
                digests_view(peaks@),
                new_node_index as nat,
                digests_view(path@),
            ),
        decreases peaks.len(),
    {
        proof {
            lemma_leaf_bound();
            vstd::arithmetic::power2::lemma_pow2_unfold(119);
            vstd::arithmetic::power2::lemma_pow2_unfold(120);
        }
        if new_node_index >= LEAF_BOUND * 4 {
            return None;
        }
        let (is_right, _height) = right_child_and_height(new_node_index);
        if !is_right {
            break;
        }
        if peaks.len() < 2 {
            return None;
        }
        let ghost before = digests_view(peaks@);
        let ghost before_path = digests_view(path@);
        let new_hash = peaks.pop().unwrap();
        let previous_peak = peaks.pop().unwrap();
        path.push(previous_peak);
        peaks.push(hash_pair(&previous_peak, &new_hash));
        assert(digests_view(peaks@) =~= before.drop_last().drop_last().push(
            hash_pair_of(before[before.len() - 2], before[before.len() - 1]),
        ));
        assert(digests_view(path@) =~= before_path.push(before[before.len() - 2]));
        new_node_index = new_node_index + 1;
    }
    let mp = MembershipProof { data_index: old_leaf_count, authentication_path: path };
    Some((peaks, mp))
}

/// Whether the entries of `v` are pairwise distinct.
pub fn has_unique_elements(v: &Vec<u128>) -> (r: bool)
    ensures
        r == (forall|i: int, j: int| 0 <= i < j < v.len() ==> v[i] != v[j]),
{
    let mut i: usize = 0;
    while i < v.len()
        invariant
            0 <= i <= v.len(),
            forall|a: int, b: int| 0 <= a < i && a < b < v.len() ==> v[a] != v[b],
        decreases v.len() - i,
    {
        let mut j: usize = i + 1;
        while j < v.len()
            invariant
                0 <= i < v.len(),
                i < j <= v.len(),
                forall|a: int, b: int| 0 <= a < i && a < b < v.len() ==> v[a] != v[b],
                forall|b: int| i < b < j ==> v[i as int] != v[b],
            decreases v.len() - j,
        {
            if v[i] == v[j] {
                return false;
            }
            j = j + 1;
        }
        i = i + 1;
    }
    true
}

/// The node index of leaf `data_index`.
pub open spec fn leaf_node(data_index: nat) -> nat {
    (2 * data_index - popcount(data_index) + 1) as nat
}

/// The nodes met when climbing from `node` with a path of length `len`, with the
/// digests they hold when `node` holds `acc`: each node with its digest, up to but
/// excluding the last one reached. Stops where an index leaves the covered range.
pub open spec fn path_nodes(node: nat, acc: Seq<u8>, path: Seq<Seq<u8>>) -> Seq<(nat, Seq<u8>)>
    decreases path.len(),
{
    if path.len() == 0 || !(1 <= node < index_bound()) {
        Seq::empty()
    } else {
        let next = if right_child_and_height_of(node).0 {
            hash_pair_of(path[0], acc)
        } else {
            hash_pair_of(acc, path[0])
        };
        seq![(node, acc)] + path_nodes(parent_of(node), next, path.drop_first())
    }
}

/// The nodes on the path of a proof whose leaf becomes `leaf`, with their new digests.
pub open spec fn proof_path_nodes(data_index: nat, path: Seq<Seq<u8>>, leaf: Seq<u8>) -> Seq<
    (nat, Seq<u8>),
> {
    if data_index >= leaf_bound() {
        Seq::empty()
    } else {
        path_nodes(leaf_node(data_index), leaf, path)
    }
}

/// The siblings met when climbing `len` steps from `node`.
pub open spec fn sibling_indices(node: nat, len: nat) -> Seq<nat>
    decreases len,
{
    if len == 0 || !(1 <= node < index_bound()) {
        Seq::empty()
    } else {
        let (right, h) = right_child_and_height_of(node);
        let sibling = if right {
            node + 1 - pow2(h + 1)
        } else {
            node + pow2(h + 1) - 1
        };
        seq![sibling as nat] + sibling_indices(parent_of(node), (len - 1) as nat)
    }
}

/// The node indices of the siblings on the path of a proof.
pub open spec fn proof_sibling_indices(data_index: nat, len: nat) -> Seq<nat> {
    if data_index >= leaf_bound() {
        Seq::empty()
    } else {
        sibling_indices(leaf_node(data_index), len)
    }
}

/// `path` with each entry whose sibling node `m` holds replaced by that digest.
pub open spec fn updated_path(path: Seq<Seq<u8>>, indices: Seq<nat>, m: Map<nat, Seq<u8>>) -> Seq<
    Seq<u8>,
> {
    Seq::new(
        path.len(),
        |j: int|
            if j < indices.len() && map_get(m, indices[j]) is Some {
                map_get(m, indices[j])->0
            } else {
                path[j]
            },
    )
}

/// Whether some entry of `path` has its sibling node in `m`.
pub open spec fn path_touched(path_len: nat, indices: Seq<nat>, m: Map<nat, Seq<u8>>) -> bool {
    exists|j: int| 0 <= j < path_len && j < indices.len() && map_get(m, indices[j]) is Some
}

/// A map from node index to digest, on views.
pub open spec fn node_map(m: Map<u128, Digest>) -> Map<nat, Seq<u8>> {
    Map::new(|k: nat| k <= u128::MAX && m.contains_key(k as u128), |k: nat| m[k as u128]@)
}

proof fn lemma_node_map_insert(m: Map<u128, Digest>, k: u128, v: Digest)
    ensures
        node_map(m.insert(k, v)) == node_map(m).insert(k as nat, v@),
{
    assert(node_map(m.insert(k, v)) =~= node_map(m).insert(k as nat, v@));
}

/// The map holding, for each node of the list in turn, its digest (a later entry for
/// a node replaces an earlier one).
pub open spec fn nodes_to_map(l: Seq<(nat, Seq<u8>)>) -> Map<nat, Seq<u8>>
    decreases l.len(),
{
    if l.len() == 0 {
        Map::empty()
    } else {
        nodes_to_map(l.drop_last()).insert(l.last().0, l.last().1)
    }
}

/// The digest that `m` holds for `key`, if any.
pub open spec fn map_get(m: Map<nat, Seq<u8>>, key: nat) -> Option<Seq<u8>> {
    if m.contains_key(key) {
        Some(m[key])
    } else {
        None
    }
}

/// The nodes on the way from the leaf of a proof to its peak, the peak excluded, with
/// the digests they take when the leaf becomes `leaf`.
fn path_node_digests(membership_proof: &MembershipProof, leaf: &Digest) -> (r: HashMap<u128, Digest>)
    ensures
        node_map(r@) == nodes_to_map(
            proof_path_nodes(
                membership_proof.data_index as nat,
                digests_view(membership_proof.authentication_path@),
                leaf@,
            ),
        ),
{
    let mut out: HashMap<u128, Digest> = HashMap::new();
    proof {
        lemma_leaf_bound();
    }
    if membership_proof.data_index >= LEAF_BOUND {
        assert(node_map(out@) =~= Map::<nat, Seq<u8>>::empty());
        return out;
    }
    let path = &membership_proof.authentication_path;
    let ghost pv = digests_view(path@);
    let ghost full = proof_path_nodes(membership_proof.data_index as nat, pv, leaf@);
    let ghost mut done: Seq<(nat, Seq<u8>)> = Seq::empty();
    let mut idx = data_index_to_node_index(membership_proof.data_index);
    let mut acc: Digest = *leaf;
    let mut i: usize = 0;
    assert(pv.subrange(0, path.len() as int) =~= pv);
    assert(done + path_nodes(idx as nat, acc@, pv.subrange(0, path.len() as int)) =~= full);
    assert(node_map(out@) =~= Map::<nat, Seq<u8>>::empty());
    while i < path.len()
        invariant
            0 <= i <= path.len(),
            pv == digests_view(path@),
            path == &membership_proof.authentication_path,
            full == proof_path_nodes(membership_proof.data_index as nat, pv, leaf@),
            done + path_nodes(idx as nat, acc@, pv.subrange(i as int, path.len() as int)) == full,
            node_map(out@) == nodes_to_map(done),
        decreases path.len() - i,
    {
        proof {
            lemma_leaf_bound();
            vstd::arithmetic::power2::lemma_pow2_unfold(119);
            vstd::arithmetic::power2::lemma_pow2_unfold(120);
        }
        if idx == 0 || idx >= LEAF_BOUND * 4 {
            assert(done + Seq::<(nat, Seq<u8>)>::empty() =~= done);
            return out;
        }
        let ghost before = done;
        let ghost rest = pv.subrange(i as int, path.len() as int);
        assert(rest.drop_first() =~= pv.subrange(i + 1, path.len() as int));
        proof {
            lemma_node_map_insert(out@, idx, acc);
            done = done.push((idx as nat, acc@));
            assert(done.drop_last() =~= before);
        }
        out.insert(idx, acc);
        let (right, _height) = right_child_and_height(idx);
        if right {
            acc = hash_pair(&path[i], &acc);
        } else {
            acc = hash_pair(&acc, &path[i]);
        }
        idx = parent(idx);
        i = i + 1;
    }
    assert(pv.subrange(i as int, path.len() as int) =~= Seq::<Seq<u8>>::empty());
    assert(done + Seq::<(nat, Seq<u8>)>::empty() =~= done);
    out
}

fn lookup(map: &HashMap<u128, Digest>, key: u128) -> (r: Option<Digest>)
    ensures
        match map_get(node_map(map@), key as nat) {
            Some(d) => r is Some && r->0@ == d,
            None => r is None,
        },
{
    match map.get(&key) {
        Some(d) => Some(*d),
        None => None,
    }
}

impl MembershipProof {
    /// The node indices of the siblings on the authentication path, from the leaf up.
    pub fn get_node_indices(&self) -> (r: Vec<u128>)
        ensures
            r@.map_values(|x: u128| x as nat) == proof_sibling_indices(
                self.data_index as nat,
                self.authentication_path.len() as nat,
            ),
    {
        let mut out: Vec<u128> = Vec::new();
        proof {
            lemma_leaf_bound();
        }
        if self.data_index >= LEAF_BOUND {
            assert(out@.map_values(|x: u128| x as nat) =~= Seq::<nat>::empty());
            return out;
        }
        let len = self.authentication_path.len();
        let ghost full = proof_sibling_indices(self.data_index as nat, len as nat);
        let mut idx = data_index_to_node_index(self.data_index);
        let mut i: usize = 0;
        assert(out@.map_values(|x: u128| x as nat) + sibling_indices(idx as nat, len as nat) =~= full);
        while i < len
            invariant
                0 <= i <= len,
                len == self.authentication_path.len(),
                self.data_index < leaf_bound(),
                full == proof_sibling_indices(self.data_index as nat, len as nat),
                out@.map_values(|x: u128| x as nat) + sibling_indices(idx as nat, (len - i) as nat)
                    == full,
            decreases len - i,
        {
            proof {
                lemma_leaf_bound();
                vstd::arithmetic::power2::lemma_pow2_unfold(119);
                vstd::arithmetic::power2::lemma_pow2_unfold(120);
            }
            if idx == 0 || idx >= LEAF_BOUND * 4 {
                assert(out@.map_values(|x: u128| x as nat) + Seq::<nat>::empty() =~= out@.map_values(
                    |x: u128| x as nat,
                ));
                return out;
            }
            let ghost before = out@.map_values(|x: u128| x as nat);
            let (right, height) = right_child_and_height(idx);
            if right {
                out.push(left_sibling(idx, height));
            } else {
                out.push(right_sibling(idx, height));
            }
            assert(out@.map_values(|x: u128| x as nat) =~= before.push(out[out.len() - 1] as nat));
            idx = parent(idx);
            i = i + 1;
        }
        assert(out@.map_values(|x: u128| x as nat) + Seq::<nat>::empty() =~= out@.map_values(
            |x: u128| x as nat,
        ));
        out
    }
}

/// Replaces each sibling digest of the proofs whose node `map` holds by that digest.
/// Returns the positions of the proofs that changed, in order.
fn update_from_map(membership_proofs: &mut Vec<MembershipProof>, map: &HashMap<u128, Digest>) -> (r: Vec<
    usize,
>)
    ensures
        final(membership_proofs).len() == old(membership_proofs).len(),
        forall|i: int|
            0 <= i < old(membership_proofs).len() ==> (#[trigger] final(membership_proofs)[i]).data_index
                == old(membership_proofs)[i].data_index && digests_view(
                final(membership_proofs)[i].authentication_path@,
            ) == updated_path(
                digests_view(old(membership_proofs)[i].authentication_path@),
                proof_sibling_indices(
                    old(membership_proofs)[i].data_index as nat,
                    old(membership_proofs)[i].authentication_path.len() as nat,
                ),
                node_map(map@),
            ),
        forall|k: int| 0 <= k < r.len() ==> r[k] < old(membership_proofs).len(),
        forall|a: int, b: int| 0 <= a < b < r.len() ==> r[a] < r[b],
        forall|i: int|
            0 <= i < old(membership_proofs).len() ==> (r@.contains(i as usize) <==> path_touched(
                old(membership_proofs)[i].authentication_path.len() as nat,
                proof_sibling_indices(
                    old(membership_proofs)[i].data_index as nat,
                    old(membership_proofs)[i].authentication_path.len() as nat,
                ),
                node_map(map@),
            )),
{
    let ghost m = node_map(map@);
    let mut changed: Vec<usize> = Vec::new();
    let mut i: usize = 0;
    while i < membership_proofs.len()
        invariant
            0 <= i <= membership_proofs.len(),
            membership_proofs.len() == old(membership_proofs).len(),
            m == node_map(map@),
            forall|k: int|
                i <= k < old(membership_proofs).len() ==> #[trigger] membership_proofs[k]
                    == old(membership_proofs)[k],
            forall|k: int|
                0 <= k < i ==> (#[trigger] membership_proofs[k]).data_index == old(
                    membership_proofs,
                )[k].data_index && digests_view(membership_proofs[k].authentication_path@)
                    == updated_path(
                    digests_view(old(membership_proofs)[k].authentication_path@),
                    proof_sibling_indices(
                        old(membership_proofs)[k].data_index as nat,
                        old(membership_proofs)[k].authentication_path.len() as nat,
                    ),
                    m,
                ),
            forall|k: int| 0 <= k < changed.len() ==> changed[k] < i,
            forall|a: int, b: int| 0 <= a < b < changed.len() ==> changed[a] < changed[b],
            forall|k: int|
                0 <= k < i ==> (changed@.contains(k as usize) <==> path_touched(
                    old(membership_proofs)[k].authentication_path.len() as nat,
                    proof_sibling_indices(
                        old(membership_proofs)[k].data_index as nat,
                        old(membership_proofs)[k].authentication_path.len() as nat,
                    ),
                    m,
                )),
        decreases membership_proofs.len() - i,
    {
        let indices = membership_proofs[i].get_node_indices();
        let ghost iv = indices@.map_values(|x: u128| x as nat);
        let ghost old_path = digests_view(membership_proofs[i as int].authentication_path@);
        let path_len = membership_proofs[i].authentication_path.len();
        let mut new_path: Vec<Digest> = Vec::new();
        let mut modified = false;
        let mut j: usize = 0;
        while j < path_len
            invariant
                0 <= j <= path_len,
                i < membership_proofs.len(),
                path_len == membership_proofs[i as int].authentication_path.len(),
                old_path == digests_view(membership_proofs[i as int].authentication_path@),
                iv == indices@.map_values(|x: u128| x as nat),
                m == node_map(map@),
                new_path.len() == j,
                forall|q: int|
                    0 <= q < j ==> new_path[q]@ == updated_path(old_path, iv, m)[q],
                modified == exists|q: int|
                    0 <= q < j && q < iv.len() && map_get(m, iv[q]) is Some,
            decreases path_len - j,
        {
            let mut digest = membership_proofs[i].authentication_path[j];
            let ghost before = modified;
            if j < indices.len() {
                match lookup(&map, indices[j]) {
                    Some(d) => {
                        digest = d;
                        modified = true;
                    },
                    None => {},
                }
            }
            new_path.push(digest);
            proof {
                if modified && !before {
                    assert(0 <= j < j + 1 && j < iv.len() && map_get(m, iv[j as int]) is Some);
                }
                if !modified {
                    assert forall|q: int| 0 <= q < j + 1 && q < iv.len() implies !(map_get(m, iv[q]) is Some) by {
                        if q < j {
                        }
                    }
                }
            }
            j = j + 1;
        }
        let data_index = membership_proofs[i].data_index;
        let ghost before_changed = changed@;
        membership_proofs.set(i, MembershipProof { data_index, authentication_path: new_path });
        assert(digests_view(membership_proofs[i as int].authentication_path@) =~= updated_path(old_path, iv, m));
        if modified {
            changed.push(i);
            assert(changed@ == before_changed.push(i));
        }
        proof {
            assert forall|k: int| 0 <= k < i + 1 implies (changed@.contains(k as usize) <==> path_touched(
                old(membership_proofs)[k].authentication_path.len() as nat,
                proof_sibling_indices(
                    old(membership_proofs)[k].data_index as nat,
                    old(membership_proofs)[k].authentication_path.len() as nat,
                ),
                m,
            )) by {
                if k < i {
                    if modified {
                        if changed@.contains(k as usize) {
                            let j = choose|j: int| 0 <= j < changed@.len() && changed@[j] == k as usize;
                            if j < before_changed.len() {
                                assert(before_changed[j] == k as usize);
                            }
                        }
                        if before_changed.contains(k as usize) {
                            let j = choose|j: int| 0 <= j < before_changed.len() && before_changed[j] == k as usize;
                            assert(changed@[j] == k as usize);
                        }
                    }
                } else {
                    if modified {
                        assert(changed@[changed.len() - 1] == k as usize);
                    } else {
                        assert(!changed@.contains(k as usize));
                    }
                }
            }
        }
        i = i + 1;
    }
    changed
}

fn copy_proof(mp: &MembershipProof) -> (r: MembershipProof)
    ensures
        r.data_index == mp.data_index,
        r.authentication_path@ == mp.authentication_path@,
{
    MembershipProof { data_index: mp.data_index, authentication_path: copy_digests(&mp.authentication_path) }
}

fn copy_digests(v: &Vec<Digest>) -> (r: Vec<Digest>)
    ensures
        r@ == v@,
{
    let mut r: Vec<Digest> = Vec::new();
    let mut i: usize = 0;
    while i < v.len()
        invariant
            0 <= i <= v.len(),
            r@ == v@.subrange(0, i as int),
        decreases v.len() - i,
    {
        r.push(v[i]);
        i = i + 1;
        assert(r@ =~= v@.subrange(0, i as int));
    }
    assert(v@.subrange(0, v.len() as int) =~= v@);
    r
}

impl MembershipProof {
    /// Brings `membership_proofs` up to date after the leaf of `membership_proof` became
    /// `new_leaf`: each sibling digest that lies on the mutated leaf's way to its peak
    /// takes its new value. Returns the positions of the proofs that changed, in order.
    pub fn batch_update_from_leaf_mutation(
        membership_proofs: &mut Vec<MembershipProof>,
        membership_proof: &MembershipProof,
        new_leaf: &Digest,
    ) -> (r: Vec<usize>)
        ensures
            final(membership_proofs).len() == old(membership_proofs).len(),
            forall|i: int|
                0 <= i < old(membership_proofs).len() ==> (#[trigger] final(membership_proofs)[i]).data_index
                    == old(membership_proofs)[i].data_index && digests_view(
                    final(membership_proofs)[i].authentication_path@,
                ) == updated_path(
                    digests_view(old(membership_proofs)[i].authentication_path@),
                    proof_sibling_indices(
                        old(membership_proofs)[i].data_index as nat,
                        old(membership_proofs)[i].authentication_path.len() as nat,
                    ),
                    nodes_to_map(
                        proof_path_nodes(
                            membership_proof.data_index as nat,
                            digests_view(membership_proof.authentication_path@),
                            new_leaf@,
                        ),
                    ),
                ),
            forall|k: int| 0 <= k < r.len() ==> r[k] < old(membership_proofs).len(),
            forall|a: int, b: int| 0 <= a < b < r.len() ==> r[a] < r[b],
            forall|i: int|
                0 <= i < old(membership_proofs).len() ==> (r@.contains(i as usize) <==> path_touched(
                    old(membership_proofs)[i].authentication_path.len() as nat,
                    proof_sibling_indices(
                        old(membership_proofs)[i].data_index as nat,
                        old(membership_proofs)[i].authentication_path.len() as nat,
                    ),
                    nodes_to_map(
                        proof_path_nodes(
                            membership_proof.data_index as nat,
                            digests_view(membership_proof.authentication_path@),
                            new_leaf@,
                        ),
                    ),
                )),
    {
        let map = path_node_digests(membership_proof, new_leaf);
        update_from_map(membership_proofs, &map)
    }

    /// Whether the proof shows `leaf_hash` at `data_index` in an accumulator of
    /// `leaf_count` leaves with these peaks: the climb must end at the peak of the
    /// leaf's mountain and give its digest.
    pub fn verify(&self, leaf_hash: &Digest, peaks: &Vec<Digest>, leaf_count: u128) -> (r: bool)
        ensures
            r == proof_verifies(
                self.data_index as nat,
                digests_view(self.authentication_path@),
                leaf_hash@,
                digests_view(peaks@),
                leaf_count as nat,
            ),
    {
        proof {
            lemma_leaf_bound();
        }
        if self.data_index >= leaf_count || leaf_count >= LEAF_BOUND {
            return false;
        }
        let node_index = data_index_to_node_index(self.data_index);
        match climb_path(node_index, leaf_hash, &self.authentication_path) {
            None => false,
            Some((acc_hash, acc_index)) => {
                let (_heights, peak_indices) = get_peak_heights_and_peak_node_indices(leaf_count);
                let (_height, position) = leaf_index_to_mountain(self.data_index, leaf_count);
                if position < peak_indices.len() && position < peaks.len() {
                    peak_indices[position] == acc_index && digest_eq(&peaks[position], &acc_hash)
                } else {
                    false
                }
            },
        }
    }
}

/// A membership proof holds when the leaf is in range and the climb from it ends at the
/// node index and the digest of the peak of its mountain.
pub open spec fn proof_verifies(
    data_index: nat,
    path: Seq<Seq<u8>>,
    leaf: Seq<u8>,
    peaks: Seq<Seq<u8>>,
    leaf_count: nat,
) -> bool {
    &&& data_index < leaf_count < leaf_bound()
    &&& match climb((2 * data_index - popcount(data_index) + 1) as nat, leaf, path) {
        None => false,
        Some((d, n)) => {
            let position = ones_from(
                leaf_count,
                mountain_height(data_index, leaf_count, 118) + 1,
            ) as int;
            let nodes = peak_node_indices(leaf_count, 118, 0);
            &&& position < nodes.len()
            &&& position < peaks.len()
            &&& nodes[position] == n
            &&& peaks[position] == d
        },
    }
}

/// The accumulator after appending each of `leaves` in turn, stopping at the first
/// append that cannot be made.
pub open spec fn appended_all(leaf_count: nat, peaks: Seq<Seq<u8>>, leaves: Seq<Seq<u8>>) -> (
    nat,
    Seq<Seq<u8>>,
)
    decreases leaves.len(),
{
    if leaves.len() == 0 {
        (leaf_count, peaks)
    } else {
        match append_result(leaf_count, peaks, leaves[0]) {
            Some((p, _a)) => appended_all(leaf_count + 1, p, leaves.drop_first()),
            None => (leaf_count, peaks),
        }
    }
}

/// The hashes of the peaks folded from the last one towards the first.
pub open spec fn bag_fold(peaks: Seq<Seq<u8>>, k: nat) -> Seq<u8>
    decreases k,
{
    let n = peaks.len();
    if k <= 2 {
        hash_pair_of(peaks[n - 1], peaks[n - 2])
    } else {
        hash_pair_of(peaks[n - k], bag_fold(peaks, (k - 1) as nat))
    }
}

/// The single digest that commits to all peaks and the node count.
pub open spec fn bag_of(peaks: Seq<Seq<u8>>, node_count: nat) -> Seq<u8> {
    if peaks.len() == 0 {
        digest_of_u128_spec(0)
    } else if peaks.len() == 1 {
        peaks[0]
    } else {
        hash_pair_of(digest_of_u128_spec(node_count), bag_fold(peaks, peaks.len()))
    }
}

/// The peaks after the leaf of a proof becomes `leaf`, where the proof is trusted: the
/// climbed digest replaces the peak of the leaf's mountain. Unchanged where the leaf is
/// out of range or the climb leaves the index range.
pub open spec fn peaks_after_trusted_mutation(
    peaks: Seq<Seq<u8>>,
    leaf: Seq<u8>,
    leaf_count: nat,
    data_index: nat,
    path: Seq<Seq<u8>>,
) -> Seq<Seq<u8>> {
    if data_index >= leaf_count || leaf_count >= leaf_bound() {
        peaks
    } else {
        match climb((2 * data_index - popcount(data_index) + 1) as nat, leaf, path) {
            None => peaks,
            Some((d, _n)) => {
                let position = ones_from(
                    leaf_count,
                    mountain_height(data_index, leaf_count, 118) + 1,
                ) as int;
                if position < peaks.len() {
                    peaks.update(position, d)
                } else {
                    peaks
                }
            },
        }
    }
}

/// A Merkle Mountain Range that keeps only its leaf count and its peaks.
#[derive(Debug, Clone)]
pub struct MmrAccumulator {
    leaf_count: u128,
    peaks: Vec<Digest>,
}

impl View for MmrAccumulator {
    type V = (nat, Seq<Seq<u8>>);

    closed spec fn view(&self) -> (nat, Seq<Seq<u8>>) {
        (self.leaf_count as nat, digests_view(self.peaks@))
    }
}

impl MmrAccumulator {
    pub fn init(peaks: Vec<Digest>, leaf_count: u128) -> (r: Self)
        ensures
            r@ == (leaf_count as nat, digests_view(peaks@)),
    {
        MmrAccumulator { leaf_count, peaks }
    }

    /// The accumulator of the given leaves, appended in order.
    pub fn new(digests: Vec<Digest>) -> (r: Self)
        ensures
            r@ == appended_all(0, Seq::empty(), digests_view(digests@)),
    {
        let mut acc = MmrAccumulator { leaf_count: 0, peaks: Vec::new() };
        let ghost leaves = digests_view(digests@);
        assert(acc@ =~= (0nat, Seq::<Seq<u8>>::empty()));
        assert(leaves.subrange(0, leaves.len() as int) =~= leaves);
        let mut i: usize = 0;
        while i < digests.len()
            invariant
                0 <= i <= digests.len(),
                leaves == digests_view(digests@),
                appended_all(0, Seq::empty(), leaves) == appended_all(
                    acc@.0,
                    acc@.1,
                    leaves.subrange(i as int, leaves.len() as int),
                ),
            decreases digests.len() - i,
        {
            proof {
                lemma_leaf_bound();
            }
            let ghost rest = leaves.subrange(i as int, leaves.len() as int);
            assert(rest.drop_first() =~= leaves.subrange(i + 1, leaves.len() as int));
            match calculate_new_peaks_from_append(acc.leaf_count, copy_digests(&acc.peaks), digests[i]) {
                Some((peaks, _mp)) => {
                    acc = MmrAccumulator { leaf_count: acc.leaf_count + 1, peaks };
                },
                None => {
                    return acc;
                },
            }
            i = i + 1;
        }
        assert(leaves.subrange(i as int, leaves.len() as int) =~= Seq::<Seq<u8>>::empty());
        acc
    }

    /// The digest that commits to the whole accumulator.
    pub fn bag_peaks(&self) -> (r: Digest)
        requires
            self@.0 < leaf_bound(),
        ensures
            r@ == bag_of(self@.1, (2 * self@.0 - popcount(self@.0)) as nat),
    {
        let n = self.peaks.len();
        if n == 0 {
            return digest_of_u128(0);
        }
        if n == 1 {
            return self.peaks[0];
        }
        let mut acc = hash_pair(&self.peaks[n - 1], &self.peaks[n - 2]);
        let mut i: usize = 2;
        while i < n
            invariant
                n == self.peaks.len(),
                2 <= i <= n,
                acc@ == bag_fold(self@.1, i as nat),
            decreases n - i,
        {
            acc = hash_pair(&self.peaks[n - 1 - i], &acc);
            i = i + 1;
        }
        let node_count = leaf_count_to_node_count(self.leaf_count);
        hash_pair(&digest_of_u128(node_count), &acc)
    }

    pub fn get_peaks(&self) -> (r: Vec<Digest>)
        ensures
            digests_view(r@) == self@.1,
    {
        copy_digests(&self.peaks)
    }

    pub fn is_empty(&self) -> (r: bool)
        ensures
            r == (self@.0 == 0),
    {
        self.leaf_count == 0
    }

    pub fn count_leaves(&self) -> (r: u128)
        ensures
            r == self@.0,
    {
        self.leaf_count
    }

    /// Appends a leaf and returns its membership proof; `None`, with the accumulator
    /// unchanged, where its peaks do not allow the append.
    pub fn append(&mut self, new_leaf: Digest) -> (r: Option<MembershipProof>)
        ensures
            match append_result(old(self)@.0, old(self)@.1, new_leaf@) {
                Some((p, a)) => r is Some && final(self)@ == (old(self)@.0 + 1, p) && r->0.data_index
                    == old(self)@.0 && digests_view(r->0.authentication_path@) == a,
                None => r is None && final(self)@ == old(self)@,
            },
    {
        proof {
            lemma_leaf_bound();
        }
        match calculate_new_peaks_from_append(self.leaf_count, copy_digests(&self.peaks), new_leaf) {
            Some((new_peaks, membership_proof)) => {
                self.peaks = new_peaks;
                self.leaf_count = self.leaf_count + 1;
                Some(membership_proof)
            },
            None => None,
        }
    }

    /// Replaces a leaf, trusting its membership proof: the digest climbed from the new
    /// leaf along the proof's path becomes the peak of the leaf's mountain. A wrong proof
    /// leaves the accumulator with a wrong peak.
    pub fn mutate_leaf(&mut self, old_membership_proof: &MembershipProof, new_leaf: &Digest)
        requires
            old_membership_proof.data_index < old(self)@.0,
        ensures
            final(self)@ == (
                old(self)@.0,
                peaks_after_trusted_mutation(
                    old(self)@.1,
                    new_leaf@,
                    old(self)@.0,
                    old_membership_proof.data_index as nat,
                    digests_view(old_membership_proof.authentication_path@),
                ),
            ),
    {
        proof {
            lemma_leaf_bound();
        }
        if old_membership_proof.data_index >= self.leaf_count || self.leaf_count >= LEAF_BOUND {
            return;
        }
        let node_index = data_index_to_node_index(old_membership_proof.data_index);
        match climb_path(node_index, new_leaf, &old_membership_proof.authentication_path) {
            None => {},
            Some((acc_hash, _acc_index)) => {
                let (_height, position) = leaf_index_to_mountain(
                    old_membership_proof.data_index,
                    self.leaf_count,
                );
                if position < self.peaks.len() {
                    let ghost before = digests_view(self.peaks@);
                    self.peaks.set(position, acc_hash);
                    assert(digests_view(self.peaks@) =~= before.update(position as int, acc_hash@));
                }
            },
        }
    }

    /// Whether applying `leaf_mutations` (each a new leaf digest with the membership
    /// proof of the leaf it replaces, in order) and then appending `appended_leafs`
    /// yields `new_peaks`. Repeated or out-of-range mutation indices are refused.
    pub fn verify_batch_update(
        &self,
        new_peaks: &[Digest],
        appended_leafs: &[Digest],
        leaf_mutations: &[(Digest, MembershipProof)],
    ) -> (r: bool)
        ensures
            r == batch_update_holds(
                self@.1,
                self@.0,
                digests_view(new_peaks@),
                digests_view(appended_leafs@),
                leaf_mutations@,
            ),
    {
        let ghost mleaves = leaf_mutations@.map_values(|m: (Digest, MembershipProof)| m.0@);
        let ghost mproofs = leaf_mutations@.map_values(|m: (Digest, MembershipProof)| proof_view(m.1));
        let mut indices: Vec<u128> = Vec::new();
        let mut k: usize = 0;
        while k < leaf_mutations.len()
            invariant
                0 <= k <= leaf_mutations.len(),
                indices.len() == k,
                forall|i: int| 0 <= i < k ==> indices[i] == leaf_mutations[i].1.data_index,
            decreases leaf_mutations.len() - k,
        {
            indices.push(leaf_mutations[k].1.data_index);
            k = k + 1;
        }
        if !has_unique_elements(&indices) {
            return false;
        }
        assert forall|i: int, j: int| 0 <= i < j < leaf_mutations.len() implies leaf_mutations[i].1.data_index
            != leaf_mutations[j].1.data_index by {
            assert(indices[i] == leaf_mutations[i].1.data_index);
            assert(indices[j] == leaf_mutations[j].1.data_index);
        }
        let mut k: usize = 0;
        while k < indices.len()
            invariant
                0 <= k <= indices.len(),
                indices.len() == leaf_mutations.len(),
                forall|i: int| 0 <= i < indices.len() ==> indices[i] == leaf_mutations[i].1.data_index,
                forall|i: int| 0 <= i < k ==> indices[i] < self@.0,
                forall|i: int, j: int|
                    0 <= i < j < leaf_mutations.len() ==> leaf_mutations[i].1.data_index
                        != leaf_mutations[j].1.data_index,
            decreases indices.len() - k,
        {
            if indices[k] >= self.leaf_count {
                return false;
            }
            k = k + 1;
        }
        assert forall|i: int| 0 <= i < leaf_mutations.len() implies leaf_mutations[i].1.data_index < self@.0 by {
            assert(indices[i] == leaf_mutations[i].1.data_index);
        }
        let mut proofs: Vec<MembershipProof> = Vec::new();
        let mut k: usize = 0;
        while k < leaf_mutations.len()
            invariant
                0 <= k <= leaf_mutations.len(),
                proofs.len() == k,
                forall|i: int| 0 <= i < k ==> proof_view(#[trigger] proofs[i]) == proof_view(leaf_mutations[i].1),
                forall|i: int, j: int|
                    0 <= i < j < leaf_mutations.len() ==> leaf_mutations[i].1.data_index
                        != leaf_mutations[j].1.data_index,
                forall|i: int| 0 <= i < leaf_mutations.len() ==> leaf_mutations[i].1.data_index < self@.0,
            decreases leaf_mutations.len() - k,
        {
            proofs.push(copy_proof(&leaf_mutations[k].1));
            k = k + 1;
        }
        let mut running_peaks = copy_digests(&self.peaks);
        let mut k: usize = 0;
        assert(proofs@.map_values(|p: MembershipProof| proof_view(p)) =~= mproofs);
        while k < leaf_mutations.len()
            invariant
                0 <= k <= leaf_mutations.len(),
                proofs.len() == leaf_mutations.len(),
                mleaves == leaf_mutations@.map_values(|m: (Digest, MembershipProof)| m.0@),
                mproofs == leaf_mutations@.map_values(|m: (Digest, MembershipProof)| proof_view(m.1)),
                peaks_after_mutations(self@.1, self@.0, mleaves, mproofs, 0) == peaks_after_mutations(
                    digests_view(running_peaks@),
                    self@.0,
                    mleaves,
                    proofs@.map_values(|p: MembershipProof| proof_view(p)),
                    k as nat,
                ),
                forall|i: int, j: int|
                    0 <= i < j < leaf_mutations.len() ==> leaf_mutations[i].1.data_index
                        != leaf_mutations[j].1.data_index,
                forall|i: int| 0 <= i < leaf_mutations.len() ==> leaf_mutations[i].1.data_index < self@.0,
                leaf_mutations.len() == 0 ==> running_peaks@ == self.peaks@,
            decreases leaf_mutations.len() - k,
        {
            let new_leaf = leaf_mutations[k].0;
            let membership_proof = copy_proof(&proofs[k]);
            let ghost pv = proofs@.map_values(|p: MembershipProof| proof_view(p));
            assert(pv[k as int] == proof_view(membership_proof));
            assert(mleaves[k as int] == new_leaf@);
            match calculate_new_peaks_from_leaf_mutation(
                &running_peaks,
                &new_leaf,
                self.leaf_count,
                &membership_proof,
            ) {
                None => {
                    return false;
                },
                Some(peaks) => {
                    running_peaks = peaks;
                },
            }
            MembershipProof::batch_update_from_leaf_mutation(&mut proofs, &membership_proof, &new_leaf);
            assert(proofs@.map_values(|p: MembershipProof| proof_view(p)) =~= updated_proofs(
                pv,
                proof_view(membership_proof),
                new_leaf@,
            ));
            k = k + 1;
        }
        let ghost start_peaks = digests_view(running_peaks@);
        assert(peaks_after_mutations(self@.1, self@.0, mleaves, mproofs, 0) == Some(start_peaks));
        let ghost leaves = digests_view(appended_leafs@);
        let mut running_leaf_count = self.leaf_count;
        let mut k: usize = 0;
        assert(leaves.subrange(0, leaves.len() as int) =~= leaves);
        while k < appended_leafs.len()
            invariant
                0 <= k <= appended_leafs.len(),
                leaves == digests_view(appended_leafs@),
                forall|i: int, j: int|
                    0 <= i < j < leaf_mutations.len() ==> leaf_mutations[i].1.data_index
                        != leaf_mutations[j].1.data_index,
                forall|i: int| 0 <= i < leaf_mutations.len() ==> leaf_mutations[i].1.data_index < self@.0,
                peaks_after_mutations(self@.1, self@.0, mleaves, mproofs, 0) == Some(start_peaks),
                mleaves == leaf_mutations@.map_values(|m: (Digest, MembershipProof)| m.0@),
                mproofs == leaf_mutations@.map_values(|m: (Digest, MembershipProof)| proof_view(m.1)),
                peaks_after_appends(self@.0, start_peaks, leaves)
                    == peaks_after_appends(
                    running_leaf_count as nat,
                    digests_view(running_peaks@),
                    leaves.subrange(k as int, leaves.len() as int),
                ),
            decreases appended_leafs.len() - k,
        {
            proof {
                lemma_leaf_bound();
                assert(leaves.subrange(k as int, leaves.len() as int).drop_first() =~= leaves.subrange(
                    k + 1,
                    leaves.len() as int,
                ));
            }
            match calculate_new_peaks_from_append(running_leaf_count, running_peaks, appended_leafs[k]) {
                None => {
                    return false;
                },
                Some((peaks, _membership_proof)) => {
                    running_peaks = peaks;
                    running_leaf_count = running_leaf_count + 1;
                },
            }
            k = k + 1;
        }
        assert(leaves.subrange(k as int, leaves.len() as int) =~= Seq::<Seq<u8>>::empty());
        digests_eq(&running_peaks, new_peaks)
    }

    /// Applies the mutations (each the membership proof of a leaf with its new digest)
    /// and brings `membership_proofs` up to date. The proofs of the mutations are taken as
    /// valid before any of them is applied; a shared map from node index to new digest
    /// lets each climb use the siblings that the mutations before it changed. The
    /// mutations are applied from the last one to the first. Returns the positions of
    /// the supplied proofs whose paths changed, each once, in order.
    pub fn batch_mutate_leaf_and_update_mps(
        &mut self,
        membership_proofs: &mut Vec<MembershipProof>,
        mutation_data: Vec<(MembershipProof, Digest)>,
    ) -> (r: Vec<u128>)
        requires
            forall|i: int, j: int|
                0 <= i < j < mutation_data.len() ==> mutation_data[i].0.data_index
                    != mutation_data[j].0.data_index,
        ensures
            ({
                let (peaks, map) = batch_mutation(
                    old(self)@.1,
                    old(self)@.0,
                    Map::empty(),
                    mutation_data@.map_values(|m: (MembershipProof, Digest)| (proof_view(m.0), m.1@)),
                    mutation_data.len() as nat,
                );
                &&& final(self)@ == (old(self)@.0, peaks)
                &&& final(membership_proofs).len() == old(membership_proofs).len()
                &&& forall|i: int|
                    0 <= i < old(membership_proofs).len() ==> (#[trigger] final(membership_proofs)[i]).data_index
                        == old(membership_proofs)[i].data_index && digests_view(
                        final(membership_proofs)[i].authentication_path@,
                    ) == updated_path(
                        digests_view(old(membership_proofs)[i].authentication_path@),
                        proof_sibling_indices(
                            old(membership_proofs)[i].data_index as nat,
                            old(membership_proofs)[i].authentication_path.len() as nat,
                        ),
                        map,
                    )
                &&& forall|i: int|
                    0 <= i < old(membership_proofs).len() ==> (r@.contains(i as u128) <==> path_touched(
                        old(membership_proofs)[i].authentication_path.len() as nat,
                        proof_sibling_indices(
                            old(membership_proofs)[i].data_index as nat,
                            old(membership_proofs)[i].authentication_path.len() as nat,
                        ),
                        map,
                    ))
            }),
            forall|k: int| 0 <= k < r.len() ==> r[k] < old(membership_proofs).len(),
            forall|a: int, b: int| 0 <= a < b < r.len() ==> r[a] < r[b],
    {
        let mut new_ap_digests: HashMap<u128, Digest> = HashMap::new();
        let ghost mv = mutation_data@.map_values(|m: (MembershipProof, Digest)| (proof_view(m.0), m.1@));
        let mut m: usize = mutation_data.len();
        proof {
            lemma_leaf_bound();
        }
        assert(node_map(new_ap_digests@) =~= Map::<nat, Seq<u8>>::empty());
        while m > 0
            invariant
                m <= mutation_data.len(),
                mv == mutation_data@.map_values(|m: (MembershipProof, Digest)| (proof_view(m.0), m.1@)),
                self.leaf_count == old(self).leaf_count,
                batch_mutation(old(self)@.1, old(self)@.0, Map::empty(), mv, mutation_data.len() as nat)
                    == batch_mutation(self@.1, self@.0, node_map(new_ap_digests@), mv, m as nat),
            decreases m,
        {
            m = m - 1;
            let ap = &mutation_data[m].0;
            let new_leaf = mutation_data[m].1;
            let ghost pv = digests_view(ap.authentication_path@);
            assert(mv[m as int] == (proof_view(*ap), new_leaf@));
            proof {
                lemma_leaf_bound();
            }
            if ap.data_index < self.leaf_count && self.leaf_count < LEAF_BOUND {
                let mut node_index = data_index_to_node_index(ap.data_index);
                proof {
                    lemma_node_map_insert(new_ap_digests@, node_index, new_leaf);
                }
                new_ap_digests.insert(node_index, new_leaf);
                let mut acc_hash: Digest = new_leaf;
                let path_len = ap.authentication_path.len();
                let mut count: usize = 0;
                let mut in_range = true;
                let ghost target = mutation_climb(
                    node_map(new_ap_digests@),
                    node_index as nat,
                    new_leaf@,
                    pv,
                );
                assert(pv.subrange(0, path_len as int) =~= pv);
                while count < path_len
                    invariant_except_break
                        in_range,
                    invariant
                        0 <= count <= path_len,
                        path_len == ap.authentication_path.len(),
                        pv == digests_view(ap.authentication_path@),
                        1 <= node_index,
                        target == mutation_climb(
                            node_map(new_ap_digests@),
                            node_index as nat,
                            acc_hash@,
                            pv.subrange(count as int, path_len as int),
                        ),
                    ensures
                        in_range ==> target == (node_map(new_ap_digests@), acc_hash@, true),
                        !in_range ==> target == (node_map(new_ap_digests@), acc_hash@, false),
                    decreases path_len - count,
                {
                    proof {
                        lemma_leaf_bound();
                        vstd::arithmetic::power2::lemma_pow2_unfold(119);
                        vstd::arithmetic::power2::lemma_pow2_unfold(120);
                        vstd::arithmetic::power2::lemma_pow2_unfold(121);
                        vstd::arithmetic::power2::lemma_pow2_unfold(122);
                    }
                    if node_index >= LEAF_BOUND * 4 {
                        in_range = false;
                        break;
                    }
                    let ghost rest = pv.subrange(count as int, path_len as int);
                    assert(rest.drop_first() =~= pv.subrange(count + 1, path_len as int));
                    let hash = ap.authentication_path[count];
                    let (right, height) = right_child_and_height(node_index);
                    proof {
                        vstd::arithmetic::power2::lemma_pow2_pos(height as nat + 1);
                        if height + 1 < 121 {
                            vstd::arithmetic::power2::lemma_pow2_strictly_increases(height as nat + 1, 121);
                        }
                    }
                    if right {
                        let sibling = left_sibling(node_index, height);
                        let sibling_hash = match lookup(&new_ap_digests, sibling) {
                            Some(h) => h,
                            None => hash,
                        };
                        acc_hash = hash_pair(&sibling_hash, &acc_hash);
                        node_index = node_index + 1;
                    } else {
                        let sibling = right_sibling(node_index, height);
                        let sibling_hash = match lookup(&new_ap_digests, sibling) {
                            Some(h) => h,
                            None => hash,
                        };
                        acc_hash = hash_pair(&acc_hash, &sibling_hash);
                        node_index = node_index + pow2_u128(height + 1);
                    }
                    if count + 1 < path_len {
                        proof {
                            lemma_node_map_insert(new_ap_digests@, node_index, acc_hash);
                        }
                        new_ap_digests.insert(node_index, acc_hash);
                    }
                    count = count + 1;
                }
                if count == path_len && in_range {
                    assert(pv.subrange(count as int, path_len as int) =~= Seq::<Seq<u8>>::empty());
                }
                if in_range {
                    let (_height, peak_position) = leaf_index_to_mountain(ap.data_index, self.leaf_count);
                    if peak_position < self.peaks.len() {
                        let ghost before = self@.1;
                        self.peaks.set(peak_position, acc_hash);
                        assert(self@.1 =~= before.update(peak_position as int, acc_hash@));
                    }
                }
            }
        }
        let changed = update_from_map(membership_proofs, &new_ap_digests);
        let mut modified: Vec<u128> = Vec::new();
        let mut k: usize = 0;
        while k < changed.len()
            invariant
                0 <= k <= changed.len(),
                modified.len() == k,
                forall|q: int| 0 <= q < k ==> modified[q] == changed[q] as u128,
            decreases changed.len() - k,
        {
            modified.push(changed[k] as u128);
            k = k + 1;
        }
        proof {
            assert forall|i: int| 0 <= i < membership_proofs.len() implies (#[trigger] modified@.contains(
                i as u128,
            ) <==> changed@.contains(i as usize)) by {
                if modified@.contains(i as u128) {
                    let j = choose|j: int| 0 <= j < modified.len() && modified@[j] == i as u128;
                    assert(changed@[j] == i as usize);
                }
                if changed@.contains(i as usize) {
                    let j = choose|j: int| 0 <= j < changed.len() && changed@[j] == i as usize;
                    assert(modified@[j] == i as u128);
                }
            }
        }
        modified
    }
}

/// `m` with the digest of node `key` set to `value`.
pub open spec fn map_set(m: Map<nat, Seq<u8>>, key: nat, value: Seq<u8>) -> Map<nat, Seq<u8>> {
    m.insert(key, value)
}

/// The climb of one mutation in a batch, from `node` holding `acc`: each sibling comes
/// from the map where it holds one, else from the path; every node reached but the last
/// is recorded in the map. Gives the map, the digest reached, and whether the climb
/// stayed in the covered index range.
pub open spec fn mutation_climb(
    m: Map<nat, Seq<u8>>,
    node: nat,
    acc: Seq<u8>,
    path: Seq<Seq<u8>>,
) -> (Map<nat, Seq<u8>>, Seq<u8>, bool)
    decreases path.len(),
{
    if path.len() == 0 {
        (m, acc, true)
    } else if !(1 <= node < index_bound()) {
        (m, acc, false)
    } else {
        let (right, h) = right_child_and_height_of(node);
        let sibling_index = if right {
            node + 1 - pow2(h + 1)
        } else {
            node + pow2(h + 1) - 1
        };
        let sibling = match map_get(m, sibling_index as nat) {
            Some(d) => d,
            None => path[0],
        };
        let next = if right {
            hash_pair_of(sibling, acc)
        } else {
            hash_pair_of(acc, sibling)
        };
        let up = parent_of(node);
        let m2 = if path.len() > 1 {
            map_set(m, up, next)
        } else {
            m
        };
        mutation_climb(m2, up, next, path.drop_first())
    }
}

/// The peaks and the node map after applying mutations `k - 1` down to `0` of a batch
/// (each a proof view with its new leaf). A mutation of a leaf out of range is skipped;
/// one whose climb leaves the index range changes no peak.
pub open spec fn batch_mutation(
    peaks: Seq<Seq<u8>>,
    leaf_count: nat,
    m: Map<nat, Seq<u8>>,
    mutations: Seq<((nat, Seq<Seq<u8>>), Seq<u8>)>,
    k: nat,
) -> (Seq<Seq<u8>>, Map<nat, Seq<u8>>)
    decreases k,
{
    if k == 0 {
        (peaks, m)
    } else {
        let i = k - 1;
        let data_index = mutations[i].0.0;
        let leaf = mutations[i].1;
        if !(data_index < leaf_count && leaf_count < leaf_bound()) {
            batch_mutation(peaks, leaf_count, m, mutations, (k - 1) as nat)
        } else {
            let node = leaf_node(data_index);
            let (m2, acc, in_range) = mutation_climb(map_set(m, node, leaf), node, leaf, mutations[i].0.1);
            let position = ones_from(leaf_count, mountain_height(data_index, leaf_count, 118) + 1) as int;
            let peaks2 = if in_range && position < peaks.len() {
                peaks.update(position, acc)
            } else {
                peaks
            };
            batch_mutation(peaks2, leaf_count, m2, mutations, (k - 1) as nat)
        }
    }
}

/// The view of a membership proof: its leaf index and its path.
pub open spec fn proof_view(mp: MembershipProof) -> (nat, Seq<Seq<u8>>) {
    (mp.data_index as nat, digests_view(mp.authentication_path@))
}

/// Each proof brought up to date after the leaf of `mp` became `leaf`.
pub open spec fn updated_proofs(
    proofs: Seq<(nat, Seq<Seq<u8>>)>,
    mp: (nat, Seq<Seq<u8>>),
    leaf: Seq<u8>,
) -> Seq<(nat, Seq<Seq<u8>>)> {
    Seq::new(
        proofs.len(),
        |i: int|
            (
                proofs[i].0,
                updated_path(
                    proofs[i].1,
                    proof_sibling_indices(proofs[i].0, proofs[i].1.len()),
                    nodes_to_map(proof_path_nodes(mp.0, mp.1, leaf)),
                ),
            ),
    )
}

/// The peaks after mutations `k..` in turn, where mutation `i` sets leaf `proofs[i].0`
/// to `leaves[i]`; after each, the remaining proofs are brought up to date. `None` if a
/// climb does not end at a peak.
pub open spec fn peaks_after_mutations(
    peaks: Seq<Seq<u8>>,
    leaf_count: nat,
    leaves: Seq<Seq<u8>>,
    proofs: Seq<(nat, Seq<Seq<u8>>)>,
    k: nat,
) -> Option<Seq<Seq<u8>>>
    decreases leaves.len() - k,
{
    if k >= leaves.len() || k >= proofs.len() {
        Some(peaks)
    } else {
        match peaks_after_mutation(peaks, leaves[k as int], leaf_count, proofs[k as int].0, proofs[k as int].1) {
            None => None,
            Some(p) => peaks_after_mutations(
                p,
                leaf_count,
                leaves,
                updated_proofs(proofs, proofs[k as int], leaves[k as int]),
                k + 1,
            ),
        }
    }
}

/// What a batch update claims: the mutated leaves are distinct and in range, the
/// mutations go through, and the appends after them give `new_peaks`.
pub open spec fn batch_update_holds(
    peaks: Seq<Seq<u8>>,
    leaf_count: nat,
    new_peaks: Seq<Seq<u8>>,
    appended: Seq<Seq<u8>>,
    mutations: Seq<(Digest, MembershipProof)>,
) -> bool {
    &&& forall|i: int, j: int|
        0 <= i < j < mutations.len() ==> mutations[i].1.data_index != mutations[j].1.data_index
    &&& forall|i: int| 0 <= i < mutations.len() ==> mutations[i].1.data_index < leaf_count
    &&& match peaks_after_mutations(
        peaks,
        leaf_count,
        mutations.map_values(|m: (Digest, MembershipProof)| m.0@),
        mutations.map_values(|m: (Digest, MembershipProof)| proof_view(m.1)),
        0,
    ) {
        None => false,
        Some(p) => peaks_after_appends(leaf_count, p, appended) == Some(new_peaks),
    }
}

/// The peaks after appending each of `leaves` in turn; `None` if one of the appends
/// cannot be made.
pub open spec fn peaks_after_appends(leaf_count: nat, peaks: Seq<Seq<u8>>, leaves: Seq<Seq<u8>>) -> Option<
    Seq<Seq<u8>>,
>
    decreases leaves.len(),
{
    if leaves.len() == 0 {
        Some(peaks)
    } else {
        match append_result(leaf_count, peaks, leaves[0]) {
            Some((p, _a)) => peaks_after_appends(leaf_count + 1, p, leaves.drop_first()),
            None => None,
        }
    }
}

} // verus!

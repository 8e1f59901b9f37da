//! An append-only Merkle tree of fixed height that keeps only O(height)
//! state, with membership proofs, in-place leaf replacement and the
//! client-side helpers that build proofs and layers from a leaf list.
use vstd::prelude::*;
use vstd::arithmetic::power2::pow2;
use crate::hash;
use crate::hash::{
    blake3_of, concat_parts, hash_eq, hash_left_right, hashes_view, hashv, leaf_hash, node_hash,
    parts_of, Leaf,
};

verus! {

/// Failures of the tree layer.
#[derive(Clone, Copy, PartialEq, Eq, Debug, Structural)]
pub enum TreeError {
    /// Every slot of the tree holds a leaf already.
    TreeFull,
    /// A proof does not have one sibling per level.
    ProofLength,
    /// A proof does not lead from the claimed leaf to the root.
    InvalidProof,
}

/// Outcome of a tree update.
pub type ProgramResult = Result<(), TreeError>;

/// `x` shifted right by `k` bits.
pub open spec fn shr(x: nat, k: nat) -> nat
    decreases k,
{
    if k == 0 {
        x
    } else {
        shr(x, (k - 1) as nat) / 2
    }
}

/// The digest of an empty subtree at `level`, starting from `seed` at level 0.
pub open spec fn zero_chain(seed: Seq<u8>, level: nat) -> Seq<u8>
    decreases level,
{
    if level == 0 {
        seed
    } else {
        let z = zero_chain(seed, (level - 1) as nat);
        node_hash(z, z)
    }
}

/// The running hash at `level` while a leaf is appended at position `idx`:
/// where bit `l` of `idx` is 0 the empty subtree of level `l` is its sibling,
/// else the cached left subtree of level `l` is.
pub open spec fn climb(
    leaf: Seq<u8>,
    idx: nat,
    filled: Seq<Seq<u8>>,
    zeros: Seq<Seq<u8>>,
    level: nat,
) -> Seq<u8>
    decreases level,
{
    if level == 0 {
        leaf
    } else {
        let l = (level - 1) as nat;
        let h = climb(leaf, idx, filled, zeros, l);
        if shr(idx, l) % 2 == 0 {
            node_hash(h, zeros[l as int])
        } else {
            node_hash(filled[l as int], h)
        }
    }
}

/// The cached left subtrees after a leaf is appended at position `idx`: the
/// running hash is cached at each level where bit `i` of `idx` is 0.
pub open spec fn add_filled(filled: Seq<Seq<u8>>, zeros: Seq<Seq<u8>>, idx: nat, leaf: Seq<u8>) -> Seq<Seq<u8>> {
    Seq::new(
        filled.len(),
        |i: int|
            if shr(idx, i as nat) % 2 == 0 {
                climb(leaf, idx, filled, zeros, i as nat)
            } else {
                filled[i]
            },
    )
}

/// A tree state `(cached subtrees, root, leaf count)` after `leaf` is appended.
pub open spec fn add_step(m: (Seq<Seq<u8>>, Seq<u8>, nat), zeros: Seq<Seq<u8>>, leaf: Seq<u8>) -> (
    Seq<Seq<u8>>,
    Seq<u8>,
    nat,
) {
    (add_filled(m.0, zeros, m.2, leaf), climb(leaf, m.2, m.0, zeros, zeros.len()), m.2 + 1)
}

/// A tree state after each of `leaves` is appended in order.
pub open spec fn add_all(m: (Seq<Seq<u8>>, Seq<u8>, nat), zeros: Seq<Seq<u8>>, leaves: Seq<Seq<u8>>) -> (
    Seq<Seq<u8>>,
    Seq<u8>,
    nat,
)
    decreases leaves.len(),
{
    if leaves.len() == 0 {
        m
    } else {
        add_step(add_all(m, zeros, leaves.drop_last()), zeros, leaves.last())
    }
}

/// The digest reached from `leaf` by hashing in each sibling of `proof` in turn.
pub open spec fn path_root(leaf: Seq<u8>, proof: Seq<Seq<u8>>) -> Seq<u8>
    decreases proof.len(),
{
    if proof.len() == 0 {
        leaf
    } else {
        node_hash(path_root(leaf, proof.drop_last()), proof.last())
    }
}

/// The digests that a sequence of leaves holds.
pub open spec fn leaves_view(s: Seq<Leaf>) -> Seq<Seq<u8>> {
    s.map_values(|l: Leaf| l@)
}

/// A layer with an odd number of nodes gets the empty subtree `z` appended.
pub open spec fn pad(layer: Seq<Seq<u8>>, z: Seq<u8>) -> Seq<Seq<u8>> {
    if layer.len() % 2 == 1 {
        layer.push(z)
    } else {
        layer
    }
}

/// The parents of consecutive pairs of nodes.
pub open spec fn parent_layer(layer: Seq<Seq<u8>>) -> Seq<Seq<u8>> {
    Seq::new(layer.len() / 2, |i: int| node_hash(layer[2 * i], layer[2 * i + 1]))
}

/// Layer `k` of the tree over `leaves`: layer 0 holds the leaves, and each
/// layer above holds the parents of the one below, padded with that level's
/// empty subtree.
pub open spec fn layer(leaves: Seq<Seq<u8>>, zeros: Seq<Seq<u8>>, k: nat) -> Seq<Seq<u8>>
    decreases k,
{
    if k == 0 {
        leaves
    } else {
        let below = (k - 1) as nat;
        parent_layer(pad(layer(leaves, zeros, below), zeros[below as int]))
    }
}

/// The node next to position `idx` of a layer.
pub open spec fn sibling(layer: Seq<Seq<u8>>, idx: nat) -> Seq<u8> {
    if idx % 2 == 0 {
        layer[idx + 1 as int]
    } else {
        layer[idx - 1 as int]
    }
}

/// Element `k` of the proof for leaf `idx`: its ancestor's sibling at level `k`.
pub open spec fn proof_element(leaves: Seq<Seq<u8>>, zeros: Seq<Seq<u8>>, idx: nat, k: nat) -> Seq<u8> {
    sibling(pad(layer(leaves, zeros, k), zeros[k as int]), shr(idx, k))
}

/// The whole proof for leaf `idx` in a tree of the given height.
pub open spec fn merkle_proof(
    leaves: Seq<Seq<u8>>,
    zeros: Seq<Seq<u8>>,
    idx: nat,
    height: nat,
) -> Seq<Seq<u8>> {
    Seq::new(height, |k: int| proof_element(leaves, zeros, idx, k as nat))
}

/// The tree after `replace_leaf` with the siblings `proof`, where it succeeds:
/// each cached subtree that lies on the old path takes the new path's node.
pub open spec fn replaced_filled(
    filled: Seq<Seq<u8>>,
    proof: Seq<Seq<u8>>,
    old_leaf: Seq<u8>,
    new_leaf: Seq<u8>,
) -> Seq<Seq<u8>> {
    Seq::new(
        filled.len(),
        |i: int|
            if path_root(old_leaf, proof.take(i)) == filled[i] {
                path_root(new_leaf, proof.take(i))
            } else {
                filled[i]
            },
    )
}

/// The digests that a proof slice holds.
pub open spec fn proof_view(proof: &[hash::Hash]) -> Seq<Seq<u8>> {
    hashes_view(proof@)
}

/// Each step of a path hashes in one more sibling.
pub proof fn lemma_path_step(leaf: Seq<u8>, proof: Seq<Seq<u8>>, i: int)
    requires
        0 <= i < proof.len(),
    ensures
        path_root(leaf, proof.take(i + 1)) == node_hash(path_root(leaf, proof.take(i)), proof[i]),
{
    assert(proof.take(i + 1).drop_last() =~= proof.take(i));
}

/// The path from `leaf` with the siblings `proof`: its node at every level,
/// the leaf first and the root last.
pub fn compute_path(proof: &[hash::Hash], leaf: Leaf) -> (r: Vec<hash::Hash>)
    requires
        proof@.len() < usize::MAX,
    ensures
        r@.len() == proof@.len() + 1,
        forall|i: int|
            0 <= i <= proof@.len() ==> #[trigger] r@[i]@ == path_root(leaf@, proof_view(proof).take(i)),
{
    let ghost pv = proof_view(proof);
    let mut computed_path: Vec<hash::Hash> = Vec::new();
    let mut computed_hash = hash::Hash::from_leaf(leaf);
    assert(pv.take(0) =~= Seq::<Seq<u8>>::empty());
    computed_path.push(computed_hash);
    let mut i: usize = 0;
    while i < proof.len()
        invariant
            i <= proof@.len(),
            pv == proof_view(proof),
            computed_path@.len() == i + 1,
            computed_hash@ == path_root(leaf@, pv.take(i as int)),
            forall|j: int| 0 <= j <= i ==> #[trigger] computed_path@[j]@ == path_root(leaf@, pv.take(j)),
        decreases proof@.len() - i,
    {
        proof { lemma_path_step(leaf@, pv, i as int); }
        computed_hash = hash_left_right(computed_hash, proof[i]);
        computed_path.push(computed_hash);
        i = i + 1;
    }
    computed_path
}

/// The root reached from `leaf` with the siblings `proof`.
fn walk_path(proof: &[hash::Hash], leaf: Leaf) -> (r: hash::Hash)
    ensures
        r@ == path_root(leaf@, proof_view(proof)),
{
    let ghost pv = proof_view(proof);
    let mut computed_hash = hash::Hash::from_leaf(leaf);
    assert(pv.take(0) =~= Seq::<Seq<u8>>::empty());
    let mut i: usize = 0;
    while i < proof.len()
        invariant
            i <= proof@.len(),
            pv == proof_view(proof),
            computed_hash@ == path_root(leaf@, pv.take(i as int)),
        decreases proof@.len() - i,
    {
        proof { lemma_path_step(leaf@, pv, i as int); }
        computed_hash = hash_left_right(computed_hash, proof[i]);
        i = i + 1;
    }
    assert(pv.take(pv.len() as int) =~= pv);
    computed_hash
}

/// The path from `leaf` into a buffer of `MAX_PATH` digests: the count of
/// nodes written, at most `MAX_PATH`, and the buffer, whose unused entries
/// are all-zero digests.
pub fn compute_path_no_std<const MAX_PATH: usize>(
    proof: &[hash::Hash],
    leaf: Leaf,
) -> (r: (usize, [hash::Hash; MAX_PATH]))
    requires
        proof@.len() < usize::MAX,
    ensures
        r.0 == if proof@.len() + 1 <= MAX_PATH { (proof@.len() + 1) as int } else { MAX_PATH as int },
        forall|i: int| 0 <= i < r.0 ==> #[trigger] r.1@[i]@ == path_root(leaf@, proof_view(proof).take(i)),
        forall|i: int| r.0 <= i < MAX_PATH ==> #[trigger] r.1@[i]@ == hash::zero_digest(),
{
    let ghost pv = proof_view(proof);
    let mut path_buffer: [hash::Hash; MAX_PATH] = vstd::array::array_fill_for_copy_types::<hash::Hash, MAX_PATH>(
        hash::Hash::zeroed(),
    );
    let mut computed_hash = hash::Hash::from_leaf(leaf);
    assert(pv.take(0) =~= Seq::<Seq<u8>>::empty());
    let path_len: usize = if proof.len() + 1 <= MAX_PATH { proof.len() + 1 } else { MAX_PATH };
    if path_len > 0 {
        path_buffer[0] = computed_hash;
    }
    let mut i: usize = 0;
    while i < proof.len() && i + 1 < MAX_PATH
        invariant
            i <= proof@.len(),
            pv == proof_view(proof),
            path_len == if proof@.len() + 1 <= MAX_PATH { (proof@.len() + 1) as int } else { MAX_PATH as int },
            computed_hash@ == path_root(leaf@, pv.take(i as int)),
            forall|j: int| 0 <= j <= i && j < MAX_PATH ==> #[trigger] path_buffer@[j]@ == path_root(leaf@, pv.take(j)),
            forall|j: int| path_len <= j < MAX_PATH ==> #[trigger] path_buffer@[j]@ == hash::zero_digest(),
        decreases proof@.len() - i,
    {
        proof { lemma_path_step(leaf@, pv, i as int); }
        computed_hash = hash_left_right(computed_hash, proof[i]);
        path_buffer[i + 1] = computed_hash;
        i = i + 1;
    }
    (path_len, path_buffer)
}

/// Whether `path` ends in `root`.
pub fn is_valid_path(path: &[hash::Hash], root: hash::Hash) -> (r: bool)
    ensures
        r == (path@.len() > 0 && path@.last()@ == root@),
{
    if path.len() == 0 {
        return false;
    }
    hash_eq(&path[path.len() - 1], &root)
}

/// Whether the first `path_count` entries of `path_buffer` form a path that
/// ends in `root`.
pub fn is_valid_path_no_std(path_buffer: &[hash::Hash], path_count: usize, root: hash::Hash) -> (r: bool)
    ensures
        r == (0 < path_count <= path_buffer@.len() && path_buffer@[path_count - 1]@ == root@),
{
    if path_count == 0 {
        return false;
    }
    if path_count > path_buffer.len() {
        return false;
    }
    hash_eq(&path_buffer[path_count - 1], &root)
}

/// Whether `proof` leads from `leaf` to `root`.
pub fn is_valid_leaf(proof: &[hash::Hash], root: hash::Hash, leaf: Leaf) -> (r: bool)
    requires
        proof@.len() < usize::MAX,
    ensures
        r == (path_root(leaf@, proof_view(proof)) == root@),
{
    let computed_path = compute_path(proof, leaf);
    assert(proof_view(proof).take(proof@.len() as int) =~= proof_view(proof));
    is_valid_path(computed_path.as_slice(), root)
}

/// Whether `proof` leads from `leaf` to `root`, without a path buffer.
pub fn is_valid_leaf_no_std(proof: &[hash::Hash], root: hash::Hash, leaf: Leaf) -> (r: bool)
    ensures
        r == (path_root(leaf@, proof_view(proof)) == root@),
{
    let computed_hash = walk_path(proof, leaf);
    hash_eq(&computed_hash, &root)
}

/// Whether the tree with root `root` holds `leaf`, as `proof` shows.
pub fn verify(root: hash::Hash, proof: &[hash::Hash], leaf: Leaf) -> (r: bool)
    requires
        proof@.len() < usize::MAX,
    ensures
        r == (path_root(leaf@, proof_view(proof)) == root@),
{
    let path = compute_path(proof, leaf);
    assert(proof_view(proof).take(proof@.len() as int) =~= proof_view(proof));
    is_valid_path(path.as_slice(), root)
}

/// Whether the tree with root `root` holds `leaf`, as `proof` shows, without
/// a path buffer.
pub fn verify_no_std(root: hash::Hash, proof: &[hash::Hash], leaf: Leaf) -> (r: bool)
    ensures
        r == (path_root(leaf@, proof_view(proof)) == root@),
{
    let computed_hash = walk_path(proof, leaf);
    hash_eq(&computed_hash, &root)
}

/// The digests of the leaves, in order.
fn leaf_hashes(leaves: &[Leaf]) -> (r: Vec<hash::Hash>)
    ensures
        hashes_view(r@) == leaves_view(leaves@),
{
    let mut out: Vec<hash::Hash> = Vec::new();
    let mut i: usize = 0;
    while i < leaves.len()
        invariant
            i <= leaves@.len(),
            out@.len() == i,
            forall|j: int| 0 <= j < i ==> #[trigger] out@[j]@ == leaves@[j]@,
        decreases leaves@.len() - i,
    {
        out.push(hash::Hash::from_leaf(leaves[i]));
        i = i + 1;
    }
    assert(hashes_view(out@) =~= leaves_view(leaves@));
    out
}

/// The parents of consecutive pairs of nodes; `pairs` has an even length.
pub fn hash_pairs(pairs: Vec<hash::Hash>) -> (r: Vec<hash::Hash>)
    requires
        pairs@.len() % 2 == 0,
    ensures
        hashes_view(r@) == parent_layer(hashes_view(pairs@)),
{
    let ghost pv = hashes_view(pairs@);
    let mut res: Vec<hash::Hash> = Vec::new();
    let mut i: usize = 0;
    while i < pairs.len() / 2
        invariant
            i <= pairs@.len() / 2,
            pairs@.len() % 2 == 0,
            pv == hashes_view(pairs@),
            res@.len() == i,
            forall|j: int| 0 <= j < i ==> #[trigger] res@[j]@ == node_hash(pv[2 * j], pv[2 * j + 1]),
        decreases pairs@.len() / 2 - i,
    {
        let left = pairs[2 * i];
        let right = pairs[2 * i + 1];
        res.push(hash_left_right(left, right));
        i = i + 1;
    }
    assert(hashes_view(res@) =~= parent_layer(pv));
    res
}

/// The parents of consecutive pairs of nodes into a buffer of `MAX_PAIRS`
/// digests: the count written, at most `MAX_PAIRS`, and the buffer, whose
/// unused entries are all-zero digests. A last unpaired node is left out.
pub fn hash_pairs_no_std<const MAX_PAIRS: usize>(pairs: &[hash::Hash]) -> (r: (usize, [hash::Hash; MAX_PAIRS]))
    ensures
        r.0 == if pairs@.len() / 2 <= MAX_PAIRS { (pairs@.len() / 2) as int } else { MAX_PAIRS as int },
        forall|i: int| 0 <= i < r.0 ==> #[trigger] r.1@[i]@ == parent_layer(proof_view(pairs))[i],
        forall|i: int| r.0 <= i < MAX_PAIRS ==> #[trigger] r.1@[i]@ == hash::zero_digest(),
{
    let ghost pv = proof_view(pairs);
    let mut result_buffer: [hash::Hash; MAX_PAIRS] = vstd::array::array_fill_for_copy_types::<hash::Hash, MAX_PAIRS>(
        hash::Hash::zeroed(),
    );
    let len = pairs.len();
    let num_pairs = len / 2;
    let result_count: usize = if num_pairs <= MAX_PAIRS { num_pairs } else { MAX_PAIRS };
    assert(num_pairs * 2 <= pairs@.len());
    let mut i: usize = 0;
    while i < result_count
        invariant
            i <= result_count,
            result_count * 2 <= len,
            len == pairs@.len(),
            result_count <= pairs@.len() / 2,
            result_count <= MAX_PAIRS,
            pv == proof_view(pairs),
            forall|j: int| 0 <= j < i ==> #[trigger] result_buffer@[j]@ == parent_layer(pv)[j],
            forall|j: int| result_count <= j < MAX_PAIRS ==> #[trigger] result_buffer@[j]@ == hash::zero_digest(),
        decreases result_count - i,
    {
        assert(i * 2 + 1 < len);
        let left = pairs[i * 2];
        let right = pairs[i * 2 + 1];
        result_buffer[i] = hash_left_right(left, right);
        i = i + 1;
    }
    (result_count, result_buffer)
}

/// The parents of a layer, where a last unpaired node is paired with `z`.
fn parent_nodes(current: &[hash::Hash], z: hash::Hash) -> (r: Vec<hash::Hash>)
    ensures
        hashes_view(r@) == parent_layer(pad(proof_view(current), z@)),
{
    let ghost cv = proof_view(current);
    let ghost padded = pad(cv, z@);
    let mut next: Vec<hash::Hash> = Vec::new();
    let len = current.len();
    let n = len / 2 + len % 2;
    let mut k: usize = 0;
    while k < n
        invariant
            k <= n,
            n == current@.len() / 2 + current@.len() % 2,
            n == padded.len() / 2,
            2 * n <= len + 1,
            len == current@.len(),
            cv == proof_view(current),
            padded == pad(cv, z@),
            next@.len() == k,
            forall|j: int| 0 <= j < k ==> #[trigger] next@[j]@ == parent_layer(padded)[j],
        decreases n - k,
    {
        let i = 2 * k;
        if i + 1 < current.len() {
            next.push(hash_left_right(current[i], current[i + 1]));
        } else {
            next.push(hash_left_right(current[i], z));
        }
        k = k + 1;
    }
    assert(hashes_view(next@) =~= parent_layer(padded));
    next
}

/// The proof for leaf `leaf_index` in the tree of the given height over
/// `leaves`: at each level, the sibling of the leaf's ancestor.
pub fn get_merkle_proof(
    leaves: &[Leaf],
    zero_values: &[hash::Hash],
    leaf_index: usize,
    height: usize,
) -> (r: Vec<hash::Hash>)
    requires
        leaf_index < leaves@.len(),
        height <= zero_values@.len(),
    ensures
        hashes_view(r@) == merkle_proof(leaves_view(leaves@), proof_view(zero_values), leaf_index as nat, height as nat),
{
    let ghost lv = leaves_view(leaves@);
    let ghost zv = proof_view(zero_values);
    let mut current_layer = leaf_hashes(leaves);
    assert(current_layer@.len() == hashes_view(current_layer@).len());
    let mut proof: Vec<hash::Hash> = Vec::new();
    let mut current_index = leaf_index;
    let mut k: usize = 0;
    while k < height
        invariant
            k <= height,
            height <= zero_values@.len(),
            lv == leaves_view(leaves@),
            zv == proof_view(zero_values),
            hashes_view(current_layer@) == layer(lv, zv, k as nat),
            current_index == shr(leaf_index as nat, k as nat),
            current_index < current_layer@.len(),
            proof@.len() == k,
            forall|j: int| 0 <= j < k ==> #[trigger] proof@[j]@ == proof_element(lv, zv, leaf_index as nat, j as nat),
        decreases height - k,
    {
        let ghost before = hashes_view(current_layer@);
        if current_layer.len() % 2 != 0 {
            current_layer.push(zero_values[k]);
        }
        assert(hashes_view(current_layer@) =~= pad(before, zv[k as int]));
        let sibling = if current_index % 2 == 0 {
            current_layer[current_index + 1]
        } else {
            current_layer[current_index - 1]
        };
        assert(sibling@ == proof_element(lv, zv, leaf_index as nat, k as nat));
        proof.push(sibling);
        assert(current_index / 2 < current_layer@.len() / 2);
        current_layer = hash_pairs(current_layer);
        assert(current_layer@.len() == hashes_view(current_layer@).len());
        current_index = current_index / 2;
        k = k + 1;
    }
    assert(hashes_view(proof@) =~= merkle_proof(lv, zv, leaf_index as nat, height as nat));
    proof
}

/// The proof of `get_merkle_proof`, in an array of `N` digests.
pub fn get_merkle_proof_no_std<const N: usize>(
    leaves: &[Leaf],
    zero_values: &[hash::Hash],
    leaf_index: usize,
) -> (r: [hash::Hash; N])
    requires
        leaf_index < leaves@.len(),
        N <= zero_values@.len(),
    ensures
        hashes_view(r@) == merkle_proof(leaves_view(leaves@), proof_view(zero_values), leaf_index as nat, N as nat),
{
    let proof = get_merkle_proof(leaves, zero_values, leaf_index, N);
    assert(hashes_view(proof@).len() == proof@.len());
    let mut result: [hash::Hash; N] = vstd::array::array_fill_for_copy_types::<hash::Hash, N>(
        hash::Hash::zeroed(),
    );
    let mut i: usize = 0;
    while i < N
        invariant
            i <= N,
            proof@.len() == N,
            forall|j: int| 0 <= j < i ==> #[trigger] result@[j] == proof@[j],
        decreases N - i,
    {
        result[i] = proof[i];
        i = i + 1;
    }
    assert(result@ =~= proof@);
    result
}

/// Layer `layer_number` of the tree over the first `valid` leaves, built
/// level by level.
fn build_layer(leaves: &[Leaf], valid: usize, zero_values: &[hash::Hash], layer_number: usize) -> (r: Vec<hash::Hash>)
    requires
        valid <= leaves@.len(),
        layer_number <= zero_values@.len(),
    ensures
        hashes_view(r@) == layer(leaves_view(leaves@.take(valid as int)), proof_view(zero_values), layer_number as nat),
{
    let ghost lv = leaves_view(leaves@.take(valid as int));
    let ghost zv = proof_view(zero_values);
    let mut current_layer: Vec<hash::Hash> = Vec::new();
    let mut i: usize = 0;
    while i < valid
        invariant
            i <= valid,
            valid <= leaves@.len(),
            current_layer@.len() == i,
            forall|j: int| 0 <= j < i ==> #[trigger] current_layer@[j]@ == leaves@[j]@,
        decreases valid - i,
    {
        current_layer.push(hash::Hash::from_leaf(leaves[i]));
        i = i + 1;
    }
    assert(hashes_view(current_layer@) =~= leaves_view(leaves@.take(valid as int)));
    let mut current_level: usize = 0;
    while current_level < layer_number
        invariant
            current_level <= layer_number,
            layer_number <= zero_values@.len(),
            lv == leaves_view(leaves@.take(valid as int)),
            zv == proof_view(zero_values),
            hashes_view(current_layer@) == layer(lv, zv, current_level as nat),
        decreases layer_number - current_level,
    {
        current_layer = parent_nodes(current_layer.as_slice(), zero_values[current_level]);
        current_level = current_level + 1;
    }
    current_layer
}

/// The number of leaves the buffered layer builder reads.
pub open spec fn min_valid(len: int, next_index: int) -> int {
    let v = if len < next_index { len } else { next_index };
    if v > 4096 { 4096 } else { v }
}

/// Layer `layer_number` of the tree over the first `min(leaves.len(),
/// next_index, 4096)` leaves, into a buffer of `MAX_NODES` digests: the count
/// written, at most `MAX_NODES`, and the buffer, whose unused entries are
/// all-zero digests. Above the height `N` the layer is empty.
pub fn get_layer_nodes_no_std<const N: usize, const MAX_NODES: usize>(
    leaves: &[Leaf],
    zero_values: &[hash::Hash],
    layer_number: usize,
    next_index: usize,
) -> (r: (usize, [hash::Hash; MAX_NODES]))
    requires
        N <= zero_values@.len(),
    ensures
        ({
            let valid = min_valid(leaves@.len() as int, next_index as int);
            let l = if layer_number > N {
                Seq::<Seq<u8>>::empty()
            } else {
                layer(leaves_view(leaves@.take(valid)), proof_view(zero_values), layer_number as nat)
            };
            &&& r.0 == if l.len() <= MAX_NODES { l.len() as int } else { MAX_NODES as int }
            &&& forall|i: int| 0 <= i < r.0 ==> #[trigger] r.1@[i]@ == l[i]
            &&& forall|i: int| r.0 <= i < MAX_NODES ==> #[trigger] r.1@[i]@ == hash::zero_digest()
        }),
{
    let mut result_buffer: [hash::Hash; MAX_NODES] = vstd::array::array_fill_for_copy_types::<hash::Hash, MAX_NODES>(
        hash::Hash::zeroed(),
    );
    if layer_number > N {
        return (0, result_buffer);
    }
    let mut valid: usize = if leaves.len() < next_index { leaves.len() } else { next_index };
    if valid > 4096 {
        valid = 4096;
    }
    let nodes = build_layer(leaves, valid, zero_values, layer_number);
    let result_count: usize = if nodes.len() <= MAX_NODES { nodes.len() } else { MAX_NODES };
    let mut i: usize = 0;
    while i < result_count
        invariant
            i <= result_count,
            result_count <= nodes@.len(),
            result_count <= MAX_NODES,
            forall|j: int| 0 <= j < i ==> #[trigger] result_buffer@[j] == nodes@[j],
            forall|j: int| result_count <= j < MAX_NODES ==> #[trigger] result_buffer@[j]@ == hash::zero_digest(),
        decreases result_count - i,
    {
        result_buffer[i] = nodes[i];
        i = i + 1;
    }
    assert(hashes_view(nodes@).len() == nodes@.len());
    (result_count, result_buffer)
}

/// A Merkle tree of height `N` that holds up to `2^N` leaves.
#[derive(Clone, Copy, PartialEq, Debug)]
pub struct MerkleTree<const N: usize> {
    pub root: hash::Hash,
    pub filled_subtrees: [hash::Hash; N],
    pub zero_values: [hash::Hash; N],
    pub next_index: u64,
}

impl<const N: usize> MerkleTree<N> {
    /// The cached left subtrees, as digests.
    pub open spec fn filled(&self) -> Seq<Seq<u8>> {
        hashes_view(self.filled_subtrees@)
    }

    /// The empty-subtree digests, as digests.
    pub open spec fn zeros(&self) -> Seq<Seq<u8>> {
        hashes_view(self.zero_values@)
    }

    /// The height is usable and the leaf count is within capacity.
    pub open spec fn wf(&self) -> bool {
        &&& 1 <= N < 64
        &&& self.next_index <= pow2(N as nat)
    }

    /// An empty tree whose empty subtrees are those of `seed`.
    pub open spec fn is_empty_from(&self, seed: Seq<u8>) -> bool {
        &&& self.wf()
        &&& self.next_index == 0
        &&& forall|i: int| 0 <= i < N ==> #[trigger] self.zeros()[i] == zero_chain(seed, i as nat)
        &&& self.filled() == self.zeros()
        &&& self.root@ == self.zeros()[N - 1]
    }

    /// Appending `leaf` at the next free position succeeded: `self` is `old`
    /// with the new leaf.
    pub open spec fn appended(&self, old: &Self, leaf: Seq<u8>) -> bool {
        &&& self.model() == add_step(old.model(), old.zeros(), leaf)
        &&& self.zero_values == old.zero_values
    }

    /// What the tree holds: the cached left subtrees, the root and the leaf count.
    pub open spec fn model(&self) -> (Seq<Seq<u8>>, Seq<u8>, nat) {
        (self.filled(), self.root@, self.next_index as nat)
    }


    /// The outcome of replacing `old_leaf` by `new_leaf` with the siblings
    /// `proof`: `r` and `self` are what the call returns and leaves, `old`
    /// the tree before it.
    pub open spec fn replace_outcome(
        &self,
        old: &Self,
        r: ProgramResult,
        proof: Seq<Seq<u8>>,
        old_leaf: Seq<u8>,
        new_leaf: Seq<u8>,
    ) -> bool {
        if proof.len() != N {
            r == Err::<(), TreeError>(TreeError::ProofLength) && *self == *old
        } else if path_root(old_leaf, proof) != old.root@ {
            r == Err::<(), TreeError>(TreeError::InvalidProof) && *self == *old
        } else {
            &&& r is Ok
            &&& self.root@ == path_root(new_leaf, proof)
            &&& self.filled() == replaced_filled(old.filled(), proof, old_leaf, new_leaf)
            &&& self.zero_values == old.zero_values
            &&& self.next_index == old.next_index
        }
    }

    fn calc_zeros(seeds: &[&[u8]]) -> (r: [hash::Hash; N])
        ensures
            forall|i: int|
                0 <= i < N ==> #[trigger] r@[i]@ == zero_chain(
                    blake3_of(concat_parts(parts_of(seeds@))),
                    i as nat,
                ),
    {
        let ghost seed = blake3_of(concat_parts(parts_of(seeds@)));
        let mut zeros: [hash::Hash; N] = vstd::array::array_fill_for_copy_types::<hash::Hash, N>(
            hash::Hash { value: [0u8; 32] },
        );
        let mut current = hashv(seeds);
        let mut i: usize = 0;
        while i < N
            invariant
                i <= N,
                current@ == zero_chain(seed, i as nat),
                forall|j: int| 0 <= j < i ==> #[trigger] zeros@[j]@ == zero_chain(seed, j as nat),
            decreases N - i,
        {
            zeros[i] = current;
            current = hash_left_right(current, current);
            i = i + 1;
        }
        zeros
    }

    /// An empty tree whose empty subtrees descend from the digest of `seeds`.
    pub fn new(seeds: &[&[u8]]) -> (r: Self)
        requires
            1 <= N < 64,
        ensures
            r.is_empty_from(blake3_of(concat_parts(parts_of(seeds@)))),
    {
        let zeros = Self::calc_zeros(seeds);
        let r = MerkleTree { next_index: 0, root: zeros[N - 1], filled_subtrees: zeros, zero_values: zeros };
        assert(r.filled() =~= r.zeros());
        r
    }

    /// An empty tree with the given empty-subtree digests.
    pub fn from_zeros(zeros: [hash::Hash; N]) -> (r: Self)
        requires
            1 <= N < 64,
        ensures
            r.wf(),
            r.next_index == 0,
            r.zero_values == zeros,
            r.filled_subtrees == zeros,
            r.root == zeros@[N - 1],
    {
        MerkleTree { next_index: 0, root: zeros[N - 1], filled_subtrees: zeros, zero_values: zeros }
    }

    /// The height of the tree.
    pub fn get_depth(&self) -> (r: u8)
        requires
            N < 256,
        ensures
            r == N,
    {
        N as u8
    }

    /// The number of bytes a tree of this height takes.
    pub fn get_size() -> (r: usize)
        requires
            N < 1024,
        ensures
            r == 64 * N + 40,
    {
        64 * N + 40
    }

    /// The current root.
    pub fn get_root(&self) -> (r: hash::Hash)
        ensures
            r == self.root,
    {
        self.root
    }

    /// The leaf that stands for an empty slot.
    pub fn get_empty_leaf(&self) -> (r: Leaf)
        requires
            N >= 1,
        ensures
            r@ == self.zeros()[0],
    {
        self.zero_values[0].as_leaf()
    }

    /// Resets the tree to the empty tree of `seeds`.
    pub fn init(&mut self, seeds: &[&[u8]])
        requires
            1 <= N < 64,
        ensures
            final(self).is_empty_from(blake3_of(concat_parts(parts_of(seeds@)))),
    {
        let zeros = Self::calc_zeros(seeds);
        self.next_index = 0;
        self.root = zeros[N - 1];
        self.filled_subtrees = zeros;
        self.zero_values = zeros;
        assert(self.filled() =~= self.zeros());
    }

    /// The number of leaves appended so far.
    pub fn get_leaf_count(&self) -> (r: u64)
        ensures
            r == self.next_index,
    {
        self.next_index
    }

    /// The number of leaves the tree can hold.
    pub fn get_capacity(&self) -> (r: u64)
        requires
            N < 64,
        ensures
            r == pow2(N as nat),
    {
        proof {
            vstd::bits::lemma_u64_pow2_no_overflow(N as nat);
            vstd::bits::lemma_u64_shl_is_mul(1, N as u64);
        }
        1u64 << (N as u64)
    }

    /// Appends the leaf over the fields `data`.
    pub fn try_add(&mut self, data: &[&[u8]]) -> (r: ProgramResult)
        requires
            old(self).wf(),
        ensures
            final(self).wf(),
            old(self).next_index == pow2(N as nat) ==> r == Err::<(), TreeError>(TreeError::TreeFull)
                && *final(self) == *old(self),
            old(self).next_index < pow2(N as nat) ==> r is Ok && final(self).appended(
                old(self),
                leaf_hash(parts_of(data@)),
            ),
    {
        let leaf = Leaf::new(data);
        self.try_add_leaf(leaf)
    }

    /// Appends `leaf` at the next free position.
    pub fn try_add_leaf(&mut self, leaf: Leaf) -> (r: ProgramResult)
        requires
            old(self).wf(),
        ensures
            final(self).wf(),
            old(self).next_index == pow2(N as nat) ==> r == Err::<(), TreeError>(TreeError::TreeFull)
                && *final(self) == *old(self),
            old(self).next_index < pow2(N as nat) ==> r is Ok && final(self).appended(
                old(self),
                leaf@,
            ),
    {
        let capacity = self.get_capacity();
        if self.next_index >= capacity {
            return Err(TreeError::TreeFull);
        }
        let ghost idx = self.next_index as nat;
        let ghost filled0 = self.filled();
        let ghost zeros0 = self.zeros();
        let mut current_index = self.next_index;
        let mut current_hash = hash::Hash::from_leaf(leaf);
        let mut i: usize = 0;
        while i < N
            invariant
                i <= N,
                1 <= N < 64,
                self.next_index == idx,
                self.next_index < pow2(N as nat),
                self.zeros() == zeros0,
                current_index == shr(idx, i as nat),
                current_hash@ == climb(leaf@, idx, filled0, zeros0, i as nat),
                forall|j: int|
                    0 <= j < i ==> #[trigger] self.filled()[j] == if shr(idx, j as nat) % 2 == 0 {
                        climb(leaf@, idx, filled0, zeros0, j as nat)
                    } else {
                        filled0[j]
                    },
                forall|j: int| i <= j < N ==> #[trigger] self.filled()[j] == filled0[j],
                self.zero_values == old(self).zero_values,
                filled0.len() == N,
                zeros0.len() == N,
            decreases N - i,
        {
            let left;
            let right;
            assert(self.filled()[i as int] == filled0[i as int]);
            assert(self.zeros()[i as int] == self.zero_values@[i as int]@);
            let ghost before = self.filled();
            if current_index % 2 == 0 {
                left = current_hash;
                right = self.zero_values[i];
                self.filled_subtrees[i] = current_hash;
                assert(self.filled() =~= before.update(i as int, current_hash@));
            } else {
                left = self.filled_subtrees[i];
                right = current_hash;
            }
            assert(climb(leaf@, idx, filled0, zeros0, (i + 1) as nat) == node_hash(left@, right@));
            current_hash = hash_left_right(left, right);
            current_index = current_index / 2;
            i = i + 1;
        }
        let ghost walked = self.filled();
        self.root = current_hash;
        self.next_index = self.next_index + 1;
        assert(self.filled() == walked);
        assert(self.filled() =~= add_filled(filled0, zeros0, idx, leaf@));
        Ok(())
    }
    fn check_length(&self, proof: &[hash::Hash]) -> (r: Result<(), TreeError>)
        ensures
            r == if proof@.len() == N {
                Ok::<(), TreeError>(())
            } else {
                Err::<(), TreeError>(TreeError::ProofLength)
            },
    {
        if proof.len() == N {
            Ok(())
        } else {
            Err(TreeError::ProofLength)
        }
    }

    fn check_length_no_std(&self, proof: &[hash::Hash]) -> (r: Result<(), TreeError>)
        ensures
            r == if proof@.len() == N {
                Ok::<(), TreeError>(())
            } else {
                Err::<(), TreeError>(TreeError::ProofLength)
            },
    {
        self.check_length(proof)
    }

    /// The path from `leaf` below the root, one node per level, and the root
    /// it reaches.
    fn compute_path_no_std(&self, proof: &[hash::Hash], leaf: Leaf) -> (r: ([hash::Hash; N], hash::Hash))
        requires
            proof@.len() == N,
            N >= 1,
        ensures
            forall|i: int| 0 <= i < N ==> #[trigger] r.0@[i]@ == path_root(leaf@, proof_view(proof).take(i)),
            r.1@ == path_root(leaf@, proof_view(proof)),
    {
        let ghost pv = proof_view(proof);
        let mut path_hashes: [hash::Hash; N] = vstd::array::array_fill_for_copy_types::<hash::Hash, N>(
            hash::Hash::zeroed(),
        );
        let mut computed_hash = hash::Hash::from_leaf(leaf);
        assert(pv.take(0) =~= Seq::<Seq<u8>>::empty());
        path_hashes[0] = computed_hash;
        let mut i: usize = 0;
        while i < proof.len()
            invariant
                i <= N,
                proof@.len() == N,
                pv == proof_view(proof),
                computed_hash@ == path_root(leaf@, pv.take(i as int)),
                forall|j: int| 0 <= j <= i && j < N ==> #[trigger] path_hashes@[j]@ == path_root(leaf@, pv.take(j)),
            decreases N - i,
        {
            proof { lemma_path_step(leaf@, pv, i as int); }
            computed_hash = hash_left_right(computed_hash, proof[i]);
            if i + 1 < N {
                path_hashes[i + 1] = computed_hash;
            }
            i = i + 1;
        }
        assert(pv.take(N as int) =~= pv);
        (path_hashes, computed_hash)
    }

    /// Whether `proof` shows that the tree holds the leaf over the fields `data`.
    pub fn contains(&self, proof: &[hash::Hash], data: &[&[u8]]) -> (r: bool)
        requires
            self.wf(),
        ensures
            r == (proof@.len() == N && path_root(leaf_hash(parts_of(data@)), proof_view(proof))
                == self.root@),
    {
        let leaf = Leaf::new(data);
        self.contains_leaf(proof, leaf)
    }

    /// Whether `proof` shows that the tree holds the leaf over the fields
    /// `data`, without a path buffer.
    pub fn contains_no_std(&self, proof: &[hash::Hash], data: &[&[u8]]) -> (r: bool)
        ensures
            r == (proof@.len() == N && path_root(leaf_hash(parts_of(data@)), proof_view(proof))
                == self.root@),
    {
        let leaf = Leaf::new(data);
        self.contains_leaf_no_std(proof, leaf)
    }

    /// Whether `proof` has one sibling per level and leads from `leaf` to the root.
    pub fn contains_leaf(&self, proof: &[hash::Hash], leaf: Leaf) -> (r: bool)
        requires
            self.wf(),
        ensures
            r == (proof@.len() == N && path_root(leaf@, proof_view(proof)) == self.root@),
    {
        if self.check_length(proof).is_err() {
            return false;
        }
        is_valid_leaf(proof, self.root, leaf)
    }

    /// Whether `proof` has one sibling per level and leads from `leaf` to the
    /// root, without a path buffer.
    pub fn contains_leaf_no_std(&self, proof: &[hash::Hash], leaf: Leaf) -> (r: bool)
        ensures
            r == (proof@.len() == N && path_root(leaf@, proof_view(proof)) == self.root@),
    {
        if self.check_length_no_std(proof).is_err() {
            return false;
        }
        is_valid_leaf_no_std(proof, self.root, leaf)
    }

    /// Replaces `original_leaf` by `new_leaf`, where `proof` shows that the
    /// tree holds `original_leaf`.
    pub fn try_replace_leaf(&mut self, proof: &[hash::Hash], original_leaf: Leaf, new_leaf: Leaf) -> (r: ProgramResult)
        requires
            old(self).wf(),
        ensures
            final(self).wf(),
            final(self).replace_outcome(old(self), r, proof_view(proof), original_leaf@, new_leaf@),
    {
        self.check_length(proof)?;
        let original_path = compute_path(proof, original_leaf);
        let new_path = compute_path(proof, new_leaf);
        let ghost pv = proof_view(proof);
        assert(pv.take(N as int) =~= pv);
        if !is_valid_path(original_path.as_slice(), self.root) {
            return Err(TreeError::InvalidProof);
        }
        self.replace_cached(&original_path, &new_path, Ghost(pv), Ghost(original_leaf@), Ghost(new_leaf@));
        self.root = new_path[N];
        Ok(())
    }

    /// Replaces `original_leaf` by `new_leaf`, where `proof` shows that the
    /// tree holds `original_leaf`, without path vectors.
    pub fn try_replace_leaf_no_std(&mut self, proof: &[hash::Hash], original_leaf: Leaf, new_leaf: Leaf) -> (r: ProgramResult)
        requires
            old(self).wf(),
        ensures
            final(self).wf(),
            final(self).replace_outcome(old(self), r, proof_view(proof), original_leaf@, new_leaf@),
    {
        self.check_length_no_std(proof)?;
        let (original_path, original_root) = self.compute_path_no_std(proof, original_leaf);
        let (new_path, new_root) = self.compute_path_no_std(proof, new_leaf);
        if !hash_eq(&original_root, &self.root) {
            return Err(TreeError::InvalidProof);
        }
        self.replace_cached(original_path.as_slice(), new_path.as_slice(), Ghost(proof_view(proof)), Ghost(original_leaf@), Ghost(new_leaf@));
        self.root = new_root;
        Ok(())
    }

    /// Each cached subtree that equals the old path's node at its level takes
    /// the new path's node.
    fn replace_cached(
        &mut self,
        original_path: &[hash::Hash],
        new_path: &[hash::Hash],
        Ghost(proof): Ghost<Seq<Seq<u8>>>,
        Ghost(old_leaf): Ghost<Seq<u8>>,
        Ghost(new_leaf): Ghost<Seq<u8>>,
    )
        requires
            original_path@.len() >= N,
            new_path@.len() >= N,
            forall|i: int| 0 <= i < N ==> #[trigger] original_path@[i]@ == path_root(old_leaf, proof.take(i)),
            forall|i: int| 0 <= i < N ==> #[trigger] new_path@[i]@ == path_root(new_leaf, proof.take(i)),
        ensures
            final(self).filled() == replaced_filled(old(self).filled(), proof, old_leaf, new_leaf),
            final(self).zero_values == old(self).zero_values,
            final(self).next_index == old(self).next_index,
            final(self).root == old(self).root,
    {
        let ghost filled0 = self.filled();
        let mut i: usize = 0;
        while i < N
            invariant
                i <= N,
                filled0 == old(self).filled(),
                filled0.len() == N,
                original_path@.len() >= N,
                new_path@.len() >= N,
                forall|j: int| 0 <= j < N ==> #[trigger] original_path@[j]@ == path_root(old_leaf, proof.take(j)),
                forall|j: int| 0 <= j < N ==> #[trigger] new_path@[j]@ == path_root(new_leaf, proof.take(j)),
                forall|j: int| 0 <= j < i ==> #[trigger] self.filled()[j] == replaced_filled(filled0, proof, old_leaf, new_leaf)[j],
                forall|j: int| i <= j < N ==> #[trigger] self.filled()[j] == filled0[j],
                self.zero_values == old(self).zero_values,
                self.next_index == old(self).next_index,
                self.root == old(self).root,
            decreases N - i,
        {
            assert(self.filled()[i as int] == filled0[i as int]);
            let ghost before = self.filled();
            if hash_eq(&original_path[i], &self.filled_subtrees[i]) {
                self.filled_subtrees[i] = new_path[i];
                assert(self.filled() =~= before.update(i as int, new_path@[i as int]@));
            }
            i = i + 1;
        }
        assert(self.filled() =~= replaced_filled(filled0, proof, old_leaf, new_leaf));
    }

    /// Replaces the leaf over `original_data` by the leaf over `new_data`.
    pub fn try_replace(&mut self, proof: &[hash::Hash], original_data: &[&[u8]], new_data: &[&[u8]]) -> (r: ProgramResult)
        requires
            old(self).wf(),
        ensures
            final(self).wf(),
            final(self).replace_outcome(
                old(self),
                r,
                proof_view(proof),
                leaf_hash(parts_of(original_data@)),
                leaf_hash(parts_of(new_data@)),
            ),
    {
        let original_leaf = Leaf::new(original_data);
        let new_leaf = Leaf::new(new_data);
        self.try_replace_leaf(proof, original_leaf, new_leaf)
    }

    /// Replaces the leaf over `original_data` by the leaf over `new_data`,
    /// without path vectors.
    pub fn try_replace_no_std(&mut self, proof: &[hash::Hash], original_data: &[&[u8]], new_data: &[&[u8]]) -> (r: ProgramResult)
        requires
            old(self).wf(),
        ensures
            final(self).wf(),
            final(self).replace_outcome(
                old(self),
                r,
                proof_view(proof),
                leaf_hash(parts_of(original_data@)),
                leaf_hash(parts_of(new_data@)),
            ),
    {
        let original_leaf = Leaf::new(original_data);
        let new_leaf = Leaf::new(new_data);
        self.try_replace_leaf_no_std(proof, original_leaf, new_leaf)
    }

    /// Replaces `leaf` by the empty leaf.
    pub fn try_remove_leaf(&mut self, proof: &[hash::Hash], leaf: Leaf) -> (r: ProgramResult)
        requires
            old(self).wf(),
        ensures
            final(self).wf(),
            final(self).replace_outcome(old(self), r, proof_view(proof), leaf@, old(self).zeros()[0]),
    {
        self.check_length(proof)?;
        let empty = self.get_empty_leaf();
        self.try_replace_leaf(proof, leaf, empty)
    }

    /// Replaces `leaf` by the empty leaf, without path vectors.
    pub fn try_remove_leaf_no_std(&mut self, proof: &[hash::Hash], leaf: Leaf) -> (r: ProgramResult)
        requires
            old(self).wf(),
        ensures
            final(self).wf(),
            final(self).replace_outcome(old(self), r, proof_view(proof), leaf@, old(self).zeros()[0]),
    {
        self.check_length_no_std(proof)?;
        let empty = self.get_empty_leaf();
        self.try_replace_leaf_no_std(proof, leaf, empty)
    }

    /// Replaces the leaf over `data` by the empty leaf.
    pub fn try_remove(&mut self, proof: &[hash::Hash], data: &[&[u8]]) -> (r: ProgramResult)
        requires
            old(self).wf(),
        ensures
            final(self).wf(),
            final(self).replace_outcome(
                old(self),
                r,
                proof_view(proof),
                leaf_hash(parts_of(data@)),
                old(self).zeros()[0],
            ),
    {
        let original_leaf = Leaf::new(data);
        self.try_remove_leaf(proof, original_leaf)
    }

    /// Replaces the leaf over `data` by the empty leaf, without path vectors.
    pub fn try_remove_no_std(&mut self, proof: &[hash::Hash], data: &[&[u8]]) -> (r: ProgramResult)
        requires
            old(self).wf(),
        ensures
            final(self).wf(),
            final(self).replace_outcome(
                old(self),
                r,
                proof_view(proof),
                leaf_hash(parts_of(data@)),
                old(self).zeros()[0],
            ),
    {
        let original_leaf = Leaf::new(data);
        self.try_remove_leaf_no_std(proof, original_leaf)
    }
    /// The proof for leaf `leaf_index` of `leaves`, with this tree's empty subtrees.
    pub fn get_proof(&self, leaves: &[Leaf], leaf_index: usize) -> (r: Vec<hash::Hash>)
        requires
            leaf_index < leaves@.len(),
        ensures
            hashes_view(r@) == merkle_proof(leaves_view(leaves@), self.zeros(), leaf_index as nat, N as nat),
    {
        get_merkle_proof(leaves, self.zero_values.as_slice(), leaf_index, N)
    }

    /// The proof for leaf `leaf_index` of `leaves`, in an array.
    pub fn get_proof_no_std(&self, leaves: &[Leaf], leaf_index: usize) -> (r: [hash::Hash; N])
        requires
            leaf_index < leaves@.len(),
        ensures
            hashes_view(r@) == merkle_proof(leaves_view(leaves@), self.zeros(), leaf_index as nat, N as nat),
    {
        get_merkle_proof_no_std::<N>(leaves, self.zero_values.as_slice(), leaf_index)
    }

    /// Layer `layer_number` over the leaves appended so far, into a buffer.
    pub fn get_layer_nodes_no_std<const MAX_NODES: usize>(&self, leaves: &[Leaf], layer_number: usize) -> (r: (usize, [hash::Hash; MAX_NODES]))
        ensures
            ({
                let valid = min_valid(leaves@.len() as int, self.next_index as usize as int);
                let l = if layer_number > N {
                    Seq::<Seq<u8>>::empty()
                } else {
                    layer(leaves_view(leaves@.take(valid)), self.zeros(), layer_number as nat)
                };
                &&& r.0 == if l.len() <= MAX_NODES { l.len() as int } else { MAX_NODES as int }
                &&& forall|i: int| 0 <= i < r.0 ==> #[trigger] r.1@[i]@ == l[i]
                &&& forall|i: int| r.0 <= i < MAX_NODES ==> #[trigger] r.1@[i]@ == hash::zero_digest()
            }),
    {
        get_layer_nodes_no_std::<N, MAX_NODES>(leaves, self.zero_values.as_slice(), layer_number, self.next_index as usize)
    }

    /// Layer `layer_number` over the leaves appended so far; empty above the height.
    pub fn get_layer_nodes(&self, leaves: &[Leaf], layer_number: usize) -> (r: Vec<hash::Hash>)
        ensures
            layer_number > N ==> r@.len() == 0,
            layer_number <= N ==> hashes_view(r@) == layer(
                leaves_view(leaves@.take(if leaves@.len() < self.next_index { leaves@.len() as int } else { self.next_index as int })),
                self.zeros(),
                layer_number as nat,
            ),
    {
        if layer_number > N {
            return Vec::new();
        }
        let valid: usize = if (leaves.len() as u64) < self.next_index { leaves.len() } else { self.next_index as usize };
        build_layer(leaves, valid, self.zero_values.as_slice(), layer_number)
    }
}


} // verus!

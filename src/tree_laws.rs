//! Laws of the incremental tree: the root it keeps is the root of the
//! layered tree over its leaves, and the proof built from the leaf list for
//! any appended leaf leads to that root.
use vstd::prelude::*;
use vstd::arithmetic::power2::{lemma_pow2, lemma_pow2_unfold, pow2};
use crate::hash::lemma_node_hash_commutes;
use crate::tree::{
    add_all, add_step, climb, layer, merkle_proof, pad, path_root, shr, MerkleTree, ProgramResult,
};

verus! {

proof fn lemma_pow2_zero()
    ensures
        pow2(0) == 1,
{
    lemma_pow2(0);
    vstd::arithmetic::power::lemma_pow0(2);
}

proof fn lemma_shr_zero(k: nat)
    ensures
        shr(0, k) == 0,
    decreases k,
{
    if k > 0 {
        lemma_shr_zero((k - 1) as nat);
    }
}

proof fn lemma_shr_bound(x: nat, k: nat, j: nat)
    requires
        x < pow2(k + j),
    ensures
        shr(x, k) < pow2(j),
    decreases k,
{
    if k > 0 {
        assert((k - 1) as nat + (j + 1) == k + j);
        lemma_shr_bound(x, (k - 1) as nat, j + 1);
        lemma_pow2_unfold(j + 1);
    }
}

proof fn lemma_shr_succ(m: nat, k: nat)
    ensures
        shr(m + 1, k) == shr(m, k) || shr(m + 1, k) == shr(m, k) + 1,
    decreases k,
{
    if k > 0 {
        lemma_shr_succ(m, (k - 1) as nat);
    }
}

proof fn lemma_shr_mono(a: nat, b: nat, k: nat)
    requires
        a <= b,
    ensures
        shr(a, k) <= shr(b, k),
    decreases k,
{
    if k > 0 {
        lemma_shr_mono(a, b, (k - 1) as nat);
    }
}

proof fn lemma_layer_len(leaves: Seq<Seq<u8>>, zeros: Seq<Seq<u8>>, k: nat)
    requires
        k <= zeros.len(),
    ensures
        shr(leaves.len(), k) <= layer(leaves, zeros, k).len(),
        leaves.len() >= 1 ==> layer(leaves, zeros, k).len() == shr((leaves.len() - 1) as nat, k) + 1,
    decreases k,
{
    if k > 0 {
        lemma_layer_len(leaves, zeros, (k - 1) as nat);
    }
}

proof fn lemma_layer_prefix(short: Seq<Seq<u8>>, long: Seq<Seq<u8>>, zeros: Seq<Seq<u8>>, k: nat, j: int)
    requires
        k <= zeros.len(),
        short.len() <= long.len(),
        short == long.take(short.len() as int),
        0 <= j < shr(short.len(), k),
    ensures
        j < layer(short, zeros, k).len(),
        j < layer(long, zeros, k).len(),
        layer(short, zeros, k)[j] == layer(long, zeros, k)[j],
    decreases k,
{
    lemma_layer_len(short, zeros, k);
    lemma_layer_len(long, zeros, k);
    lemma_shr_mono(short.len(), long.len(), k);
    if k > 0 {
        let k1 = (k - 1) as nat;
        lemma_layer_prefix(short, long, zeros, k1, 2 * j);
        lemma_layer_prefix(short, long, zeros, k1, 2 * j + 1);
    }
}

proof fn lemma_climb(leaves: Seq<Seq<u8>>, x: Seq<u8>, filled: Seq<Seq<u8>>, zeros: Seq<Seq<u8>>, k: nat)
    requires
        k <= zeros.len(),
        filled.len() == zeros.len(),
        forall|l: int|
            0 <= l < zeros.len() && shr(leaves.len(), l as nat) % 2 == 1 ==> #[trigger] filled[l] == layer(
                leaves,
                zeros,
                l as nat,
            )[shr(leaves.len(), l as nat) - 1],
    ensures
        layer(leaves.push(x), zeros, k).len() == shr(leaves.len(), k) + 1,
        climb(x, leaves.len(), filled, zeros, k) == layer(leaves.push(x), zeros, k)[shr(leaves.len(), k) as int],
    decreases k,
{
    let lp = leaves.push(x);
    let m = leaves.len();
    lemma_layer_len(lp, zeros, k);
    if k > 0 {
        let k1 = (k - 1) as nat;
        lemma_climb(leaves, x, filled, zeros, k1);
        let c = shr(m, k1);
        if c % 2 == 1 {
            assert(leaves =~= lp.take(m as int));
            lemma_layer_prefix(leaves, lp, zeros, k1, c - 1);
            assert(filled[k1 as int] == layer(leaves, zeros, k1)[c - 1]);
        }
    }
}

/// The tree state `m` is the incremental state over `leaves`: it counts
/// them, its root is the top of their layered tree, and at every level whose
/// next position is odd it caches the complete node to the left.
pub open spec fn tracks(m: (Seq<Seq<u8>>, Seq<u8>, nat), leaves: Seq<Seq<u8>>, zeros: Seq<Seq<u8>>) -> bool {
    &&& m.2 == leaves.len()
    &&& m.0.len() == zeros.len()
    &&& leaves.len() >= 1 ==> m.1 == layer(leaves, zeros, zeros.len())[0]
    &&& forall|l: int|
        0 <= l < zeros.len() && shr(leaves.len(), l as nat) % 2 == 1 ==> #[trigger] m.0[l] == layer(
            leaves,
            zeros,
            l as nat,
        )[shr(leaves.len(), l as nat) - 1]
}

proof fn lemma_step(m: (Seq<Seq<u8>>, Seq<u8>, nat), leaves: Seq<Seq<u8>>, x: Seq<u8>, zeros: Seq<Seq<u8>>)
    requires
        zeros.len() >= 1,
        tracks(m, leaves, zeros),
        leaves.len() < pow2(zeros.len()),
    ensures
        tracks(add_step(m, zeros, x), leaves.push(x), zeros),
{
    let n = zeros.len();
    let lp = leaves.push(x);
    let len = leaves.len();
    let m2 = add_step(m, zeros, x);
    lemma_climb(leaves, x, m.0, zeros, n);
    lemma_pow2_zero();
    lemma_shr_bound(len, n, 0);
    assert(n + 0 == n);
    assert(leaves =~= lp.take(len as int));
    assert forall|l: int|
        0 <= l < n && shr(lp.len(), l as nat) % 2 == 1 implies #[trigger] m2.0[l] == layer(lp, zeros, l as nat)[shr(
        lp.len(),
        l as nat,
    ) - 1] by {
        lemma_shr_succ(len, l as nat);
        lemma_climb(leaves, x, m.0, zeros, l as nat);
        let c = shr(len, l as nat);
        if c % 2 == 1 {
            lemma_layer_prefix(leaves, lp, zeros, l as nat, c - 1);
        }
    }
}

proof fn lemma_add_all_tracks(m0: (Seq<Seq<u8>>, Seq<u8>, nat), zeros: Seq<Seq<u8>>, leaves: Seq<Seq<u8>>)
    requires
        zeros.len() >= 1,
        m0.2 == 0,
        m0.0.len() == zeros.len(),
        leaves.len() <= pow2(zeros.len()),
    ensures
        tracks(add_all(m0, zeros, leaves), leaves, zeros),
    decreases leaves.len(),
{
    if leaves.len() == 0 {
        assert forall|l: int|
            0 <= l < zeros.len() && shr(leaves.len(), l as nat) % 2 == 1 implies #[trigger] m0.0[l] == layer(
            leaves,
            zeros,
            l as nat,
        )[shr(leaves.len(), l as nat) - 1] by {
            lemma_shr_zero(l as nat);
        }
    } else {
        let prefix = leaves.drop_last();
        lemma_add_all_tracks(m0, zeros, prefix);
        lemma_step(add_all(m0, zeros, prefix), prefix, leaves.last(), zeros);
        assert(prefix.push(leaves.last()) =~= leaves);
    }
}

proof fn lemma_proof_climbs(leaves: Seq<Seq<u8>>, zeros: Seq<Seq<u8>>, i: nat, k: nat)
    requires
        i < leaves.len(),
        k <= zeros.len(),
    ensures
        shr(i, k) < layer(leaves, zeros, k).len(),
        path_root(leaves[i as int], merkle_proof(leaves, zeros, i, k)) == layer(leaves, zeros, k)[shr(i, k) as int],
    decreases k,
{
    if k > 0 {
        let k1 = (k - 1) as nat;
        lemma_proof_climbs(leaves, zeros, i, k1);
        assert(merkle_proof(leaves, zeros, i, k).drop_last() =~= merkle_proof(leaves, zeros, i, k1));
        let c = shr(i, k1);
        let lay = layer(leaves, zeros, k1);
        let p = pad(lay, zeros[k1 as int]);
        if c % 2 == 1 {
            lemma_node_hash_commutes(lay[c as int], p[c - 1]);
        }
    }
}

/// For a tree of any height that starts empty, once leaves are appended
/// (no more than it holds), the proof that `get_proof` builds from the leaf
/// list for each of them has one sibling per level and leads to the root
/// the tree keeps, so `contains_leaf` accepts it.
pub proof fn lemma_appended_leaves_provable<const N: usize>(
    tree: MerkleTree<N>,
    leaves: Seq<Seq<u8>>,
    i: int,
)
    requires
        tree.wf(),
        tree.next_index == 0,
        leaves.len() <= pow2(N as nat),
        0 <= i < leaves.len(),
    ensures
        merkle_proof(leaves, tree.zeros(), i as nat, N as nat).len() == N,
        path_root(leaves[i], merkle_proof(leaves, tree.zeros(), i as nat, N as nat)) == add_all(
            tree.model(),
            tree.zeros(),
            leaves,
        ).1,
{
    let zeros = tree.zeros();
    assert(zeros.len() == N);
    lemma_add_all_tracks(tree.model(), zeros, leaves);
    lemma_proof_climbs(leaves, zeros, i as nat, N as nat);
    lemma_pow2_zero();
    lemma_shr_bound(i as nat, N as nat, 0);
    assert(N as nat + 0 == N as nat);
}

/// Replacing a leaf by another and then the second by the first, with the
/// same proof, restores the root the tree had before.
pub proof fn lemma_replace_round_trip<const N: usize>(
    t0: MerkleTree<N>,
    t1: MerkleTree<N>,
    t2: MerkleTree<N>,
    r1: ProgramResult,
    r2: ProgramResult,
    proof: Seq<Seq<u8>>,
    x: Seq<u8>,
    y: Seq<u8>,
)
    requires
        t1.replace_outcome(&t0, r1, proof, x, y),
        r1 is Ok,
        t2.replace_outcome(&t1, r2, proof, y, x),
    ensures
        r2 is Ok,
        t2.root@ == t0.root@,
{
}

} // verus!

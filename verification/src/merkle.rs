//! Merkle tree over file-content chunks.
//!
//! Leaves are hashed with a 0x00 domain prefix and internal nodes with a
//! 0x01 prefix, via binary-tree reduction; a level with an odd number of
//! nodes promotes its last node unchanged.  The empty chunk list has the
//! all-zero root.  Proof generation and verification follow the same
//! reduction, and verifying a generated proof is proved to succeed.

use vstd::prelude::*;

use crate::hashing::{hash_internal_node, hash_leaf, sha256_of};

verus! {

/// The 32-byte all-zero hash used as the root of an empty tree.
pub open spec fn zero_hash() -> Seq<u8> {
    Seq::new(32, |i: int| 0u8)
}

/// Hash of a leaf carrying `chunk`.
pub open spec fn leaf_hash_of(chunk: Seq<u8>) -> Seq<u8> {
    sha256_of(seq![0u8] + chunk)
}

/// Hash of an internal node with children `l` and `r`.
pub open spec fn node_hash_of(l: Seq<u8>, r: Seq<u8>) -> Seq<u8> {
    sha256_of(seq![1u8] + l + r)
}

/// One reduction step: adjacent nodes are paired and hashed; a trailing
/// unpaired node is promoted unchanged.
pub open spec fn level_up(level: Seq<Seq<u8>>) -> Seq<Seq<u8>> {
    Seq::new(
        ((level.len() + 1) / 2) as nat,
        |j: int|
            if 2 * j + 1 < level.len() {
                node_hash_of(level[2 * j], level[2 * j + 1])
            } else {
                level[2 * j]
            },
    )
}

/// The root obtained by reducing a non-empty level to a single node.
pub open spec fn root_of_level(level: Seq<Seq<u8>>) -> Seq<u8>
    decreases level.len(),
{
    if level.len() == 0 {
        zero_hash()
    } else if level.len() == 1 {
        level[0]
    } else {
        root_of_level(level_up(level))
    }
}

/// The leaf hashes of a chunk list.
pub open spec fn leaves_of(chunks: Seq<Seq<u8>>) -> Seq<Seq<u8>> {
    Seq::new(chunks.len(), |i: int| leaf_hash_of(chunks[i]))
}

/// The Merkle root of a chunk list; the empty list has the all-zero root.
pub open spec fn merkle_root_of(chunks: Seq<Seq<u8>>) -> Seq<u8> {
    if chunks.len() == 0 {
        zero_hash()
    } else {
        root_of_level(leaves_of(chunks))
    }
}

/// The sibling hashes recorded along the path from node `i` to the root.
/// A promoted node contributes no hash at its level.
pub open spec fn proof_of_level(level: Seq<Seq<u8>>, i: int) -> Seq<Seq<u8>>
    decreases level.len(),
{
    if level.len() <= 1 {
        Seq::<Seq<u8>>::empty()
    } else {
        let sib = if i % 2 == 0 {
            i + 1
        } else {
            i - 1
        };
        let here: Seq<Seq<u8>> = if sib < level.len() {
            seq![level[sib]]
        } else {
            Seq::<Seq<u8>>::empty()
        };
        here + proof_of_level(level_up(level), i / 2)
    }
}

/// The proof for chunk `i` of a chunk list.
pub open spec fn merkle_proof_of(chunks: Seq<Seq<u8>>, i: int) -> Seq<Seq<u8>> {
    proof_of_level(leaves_of(chunks), i)
}

/// Replays a proof from a node at index `i` of a level of the given width;
/// yields the root if the proof has exactly the right shape.
pub open spec fn replay_proof(proof: Seq<Seq<u8>>, node: Seq<u8>, i: int, width: int) -> Option<
    Seq<u8>,
>
    decreases width,
{
    if width <= 0 || i < 0 || i >= width {
        Option::None
    } else if width == 1 {
        if proof.len() == 0 {
            Option::Some(node)
        } else {
            Option::None
        }
    } else {
        if i % 2 == 0 {
            if i + 1 < width {
                if proof.len() == 0 {
                    Option::None
                } else {
                    replay_proof(
                        proof.drop_first(),
                        node_hash_of(node, proof.first()),
                        i / 2,
                        (width + 1) / 2,
                    )
                }
            } else {
                replay_proof(proof, node, i / 2, (width + 1) / 2)
            }
        } else {
            if proof.len() == 0 {
                Option::None
            } else {
                replay_proof(
                    proof.drop_first(),
                    node_hash_of(proof.first(), node),
                    i / 2,
                    (width + 1) / 2,
                )
            }
        }
    }
}

/// What it means for a proof to check out against a root.
pub open spec fn merkle_proof_valid(
    proof: Seq<Seq<u8>>,
    root: Seq<u8>,
    leaf_data: Seq<u8>,
    leaf_index: int,
    tree_size: int,
) -> bool {
    replay_proof(proof, leaf_hash_of(leaf_data), leaf_index, tree_size) == Option::Some(root)
}

/// Replaying the recorded siblings from any node reproduces the level's root.
proof fn lemma_replay_roundtrip(level: Seq<Seq<u8>>, i: int)
    requires
        0 <= i < level.len(),
    ensures
        replay_proof(proof_of_level(level, i), level[i], i, level.len() as int) == Option::Some(
            root_of_level(level),
        ),
    decreases level.len(),
{
    let n = level.len() as int;
    if n == 1 {
        assert(proof_of_level(level, i) =~= Seq::<Seq<u8>>::empty());
    } else {
        let up = level_up(level);
        assert(up.len() == (n + 1) / 2);
        assert(0 <= i / 2 < up.len());
        lemma_replay_roundtrip(up, i / 2);
        if i % 2 == 0 {
            if i + 1 < n {
                let pf = proof_of_level(level, i);
                assert(pf =~= seq![level[i + 1]] + proof_of_level(up, i / 2));
                assert(pf.first() == level[i + 1]);
                assert(pf.drop_first() =~= proof_of_level(up, i / 2));
                assert(up[i / 2] == node_hash_of(level[2 * (i / 2)], level[2 * (i / 2) + 1]));
                assert(2 * (i / 2) == i);
            } else {
                assert(proof_of_level(level, i) =~= proof_of_level(up, i / 2));
                assert(!(2 * (i / 2) + 1 < n));
                assert(up[i / 2] == level[2 * (i / 2)]);
            }
        } else {
            let pf = proof_of_level(level, i);
            assert(pf =~= seq![level[i - 1]] + proof_of_level(up, i / 2));
            assert(pf.first() == level[i - 1]);
            assert(pf.drop_first() =~= proof_of_level(up, i / 2));
            assert(2 * (i / 2) == i - 1);
            assert(2 * (i / 2) + 1 == i < n);
            assert(up[i / 2] == node_hash_of(level[i - 1], level[i]));
        }
    }
}

/// Soundness of proof generation: for every chunk list and every index in
/// it, verifying the generated proof against the list's root, the chunk
/// itself, the index and the list's size succeeds.
pub proof fn lemma_merkle_proof_soundness(chunks: Seq<Seq<u8>>, i: int)
    requires
        0 <= i < chunks.len(),
    ensures
        merkle_proof_valid(
            merkle_proof_of(chunks, i),
            merkle_root_of(chunks),
            chunks[i],
            i,
            chunks.len() as int,
        ),
{
    let level = leaves_of(chunks);
    assert(level[i] == leaf_hash_of(chunks[i]));
    lemma_replay_roundtrip(level, i);
}

/// The 32-byte all-zero hash, as a vector.
pub fn zero_hash_vec() -> (r: Vec<u8>)
    ensures
        r@ == zero_hash(),
{
    let mut z: Vec<u8> = Vec::new();
    let mut k: usize = 0;
    while k < 32
        invariant
            0 <= k <= 32,
            z@.len() == k,
            forall|j: int| 0 <= j < k ==> z@[j] == 0u8,
        decreases 32 - k,
    {
        z.push(0u8);
        k += 1;
    }
    assert(z@ =~= zero_hash());
    z
}

fn leaf_hashes(chunks: &Vec<Vec<u8>>) -> (r: Vec<Vec<u8>>)
    ensures
        r.deep_view() == leaves_of(chunks.deep_view()),
        r@.len() == chunks@.len(),
{
    let mut out: Vec<Vec<u8>> = Vec::new();
    let n = chunks.len();
    let mut i: usize = 0;
    while i < n
        invariant
            0 <= i <= n,
            n == chunks@.len(),
            out@.len() == i,
            forall|j: int|
                0 <= j < i ==> out.deep_view()[j] == leaf_hash_of(
                    #[trigger] chunks.deep_view()[j],
                ),
        decreases n - i,
    {
        let h = hash_leaf(chunks[i].as_slice());
        proof {
            assert(chunks.deep_view()[i as int] == chunks@[i as int]@);
        }
        out.push(h);
        i += 1;
    }
    proof {
        assert(out.deep_view() =~= leaves_of(chunks.deep_view()));
    }
    out
}

fn level_up_exec(level: &Vec<Vec<u8>>) -> (r: Vec<Vec<u8>>)
    requires
        level@.len() >= 1,
    ensures
        r.deep_view() == level_up(level.deep_view()),
        r@.len() == (level@.len() + 1) / 2,
{
    let n = level.len();
    let mut out: Vec<Vec<u8>> = Vec::new();
    let mut i: usize = 0;
    while i + 1 < n
        invariant
            n == level@.len(),
            i % 2 == 0,
            0 <= i <= n,
            out@.len() == i / 2,
            forall|j: int|
                0 <= j < i / 2 ==> out.deep_view()[j] == level_up(level.deep_view())[j],
        decreases n - i,
    {
        let ghost out0 = out.deep_view();
        let h = hash_internal_node(level[i].as_slice(), level[i + 1].as_slice());
        proof {
            assert(level.deep_view()[i as int] == level@[i as int]@);
            assert(level.deep_view()[i as int + 1] == level@[i as int + 1]@);
            assert(2 * (i as int / 2) == i as int);
            assert(level_up(level.deep_view())[i as int / 2] == node_hash_of(
                level.deep_view()[i as int],
                level.deep_view()[i as int + 1],
            ));
        }
        out.push(h);
        proof {
            assert(out.deep_view() =~~= out0.push(h@));
        }
        i += 2;
    }
    if i < n {
        // a trailing unpaired node is promoted unchanged
        let ghost out0 = out.deep_view();
        let h = level[i].clone();
        proof {
            assert(h@ == level@[i as int]@);
            assert(level.deep_view()[i as int] == level@[i as int]@);
            assert(2 * (i as int / 2) == i as int);
            assert(!(2 * (i as int / 2) + 1 < n));
            assert(level_up(level.deep_view())[i as int / 2] == level.deep_view()[i as int]);
        }
        out.push(h);
        proof {
            assert(out.deep_view() =~~= out0.push(h@));
        }
    }
    proof {
        assert(out.deep_view() =~= level_up(level.deep_view()));
    }
    out
}

/// Builds the Merkle root of a list of data chunks.  The root of the empty
/// list is the all-zero hash.
pub fn build_merkle_root(data_chunks: &Vec<Vec<u8>>) -> (r: Vec<u8>)
    ensures
        r@ == merkle_root_of(data_chunks.deep_view()),
{
    if data_chunks.len() == 0 {
        return zero_hash_vec();
    }
    let mut level = leaf_hashes(data_chunks);
    while level.len() > 1
        invariant
            level@.len() >= 1,
            root_of_level(level.deep_view()) == root_of_level(leaves_of(data_chunks.deep_view())),
        decreases level@.len(),
    {
        let next = level_up_exec(&level);
        proof {
            assert(root_of_level(level.deep_view()) == root_of_level(
                level_up(level.deep_view()),
            ));
        }
        level = next;
    }
    proof {
        assert(root_of_level(level.deep_view()) == level.deep_view()[0]);
        assert(level.deep_view()[0] == level@[0]@);
    }
    let r = level.remove(0);
    r
}

/// Generates a Merkle inclusion proof for the chunk at `target_index`.
/// Yields nothing when the list is empty or the index is out of range.
pub fn generate_merkle_proof(data_chunks: &Vec<Vec<u8>>, target_index: usize) -> (r: Option<
    Vec<Vec<u8>>,
>)
    ensures
        match r {
            Option::Some(p) => data_chunks@.len() > 0 && target_index < data_chunks@.len()
                && p.deep_view() == merkle_proof_of(data_chunks.deep_view(), target_index as int),
            Option::None => data_chunks@.len() == 0 || target_index >= data_chunks@.len(),
        },
{
    if data_chunks.len() == 0 || target_index >= data_chunks.len() {
        return Option::None;
    }
    let mut level = leaf_hashes(data_chunks);
    let mut idx = target_index;
    let mut acc: Vec<Vec<u8>> = Vec::new();
    proof {
        assert(acc.deep_view() =~= Seq::<Seq<u8>>::empty());
        assert(acc.deep_view() + proof_of_level(level.deep_view(), idx as int) =~= proof_of_level(
            level.deep_view(),
            idx as int,
        ));
    }
    while level.len() > 1
        invariant
            level@.len() >= 1,
            0 <= idx < level@.len(),
            merkle_proof_of(data_chunks.deep_view(), target_index as int) == acc.deep_view()
                + proof_of_level(level.deep_view(), idx as int),
        decreases level@.len(),
    {
        let ghost lv = level.deep_view();
        let ghost acc0 = acc.deep_view();
        let sib = if idx % 2 == 0 {
            idx + 1
        } else {
            idx - 1
        };
        if sib < level.len() {
            let s = level[sib].clone();
            proof {
                assert(s@ == level@[sib as int]@);
                assert(lv[sib as int] == level@[sib as int]@);
            }
            acc.push(s);
            proof {
                assert(acc.deep_view() =~= acc0 + seq![lv[sib as int]]);
                assert(proof_of_level(lv, idx as int) =~= seq![lv[sib as int]] + proof_of_level(
                    level_up(lv),
                    idx as int / 2,
                ));
                assert(acc0 + proof_of_level(lv, idx as int) =~= acc.deep_view() + proof_of_level(
                    level_up(lv),
                    idx as int / 2,
                ));
            }
        } else {
            proof {
                assert(idx % 2 == 0 && idx + 1 >= lv.len());
                assert(proof_of_level(lv, idx as int) =~= proof_of_level(
                    level_up(lv),
                    idx as int / 2,
                ));
            }
        }
        let next = level_up_exec(&level);
        level = next;
        idx = sib / 2;
        proof {
            assert(idx as int == (if sib % 2 == 0 {
                sib as int
            } else {
                sib as int - 1
            }) / 2);
        }
    }
    proof {
        assert(proof_of_level(level.deep_view(), idx as int) =~= Seq::<Seq<u8>>::empty());
        assert(acc.deep_view() + Seq::<Seq<u8>>::empty() =~= acc.deep_view());
    }
    Option::Some(acc)
}

/// Verifies a Merkle inclusion proof against a root hash, the leaf data,
/// the leaf's index and the total number of leaves.
pub fn verify_merkle_proof(
    proof: &Vec<Vec<u8>>,
    root_hash: &[u8],
    leaf_data: &[u8],
    leaf_index: usize,
    tree_size: usize,
) -> (r: bool)
    ensures
        r == merkle_proof_valid(
            proof.deep_view(),
            root_hash@,
            leaf_data@,
            leaf_index as int,
            tree_size as int,
        ),
{
    if tree_size == 0 || leaf_index >= tree_size {
        return false;
    }
    let mut node = hash_leaf(leaf_data);
    let mut idx = leaf_index;
    let mut width = tree_size;
    let mut k: usize = 0;
    proof {
        assert(proof.deep_view().skip(0) =~= proof.deep_view());
    }
    while width > 1
        invariant
            1 <= width <= tree_size,
            0 <= idx < width,
            0 <= k <= proof@.len(),
            replay_proof(
                proof.deep_view(),
                leaf_hash_of(leaf_data@),
                leaf_index as int,
                tree_size as int,
            ) == replay_proof(proof.deep_view().skip(k as int), node@, idx as int, width as int),
        decreases width,
    {
        let ghost rem = proof.deep_view().skip(k as int);
        let consume = !(idx % 2 == 0 && idx + 1 >= width);
        if consume {
            if k == proof.len() {
                proof {
                    assert(rem.len() == 0);
                    assert(replay_proof(rem, node@, idx as int, width as int) is None);
                }
                return false;
            }
            proof {
                assert(rem.first() == proof.deep_view()[k as int]);
                assert(proof.deep_view()[k as int] == proof@[k as int]@);
                assert(rem.drop_first() =~= proof.deep_view().skip(k as int + 1));
            }
            let sibling = &proof[k];
            let combined = if idx % 2 == 0 {
                hash_internal_node(node.as_slice(), sibling.as_slice())
            } else {
                hash_internal_node(sibling.as_slice(), node.as_slice())
            };
            node = combined;
            k += 1;
        }
        idx = idx / 2;
        let new_width = width / 2 + width % 2;
        proof {
            assert(new_width as int == (width as int + 1) / 2);
        }
        width = new_width;
    }
    proof {
        assert(idx == 0);
    }
    if k != proof.len() {
        proof {
            assert(proof.deep_view().skip(k as int).len() != 0);
        }
        return false;
    }
    proof {
        assert(proof.deep_view().skip(k as int).len() == 0);
    }
    crate::bytes::bytes_eq(node.as_slice(), root_hash)
}

} // verus!

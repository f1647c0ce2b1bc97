//! Commit and worktree metadata.
//!
//! A commit is identified by its metadata hash (64 lower-case hex digits)
//! and additionally records a Merkle root, a creation timestamp, an
//! optional parent, file statistics and the Merkle tree shape.  A worktree
//! is a named mutable workspace pinned to a base commit.

use vstd::prelude::*;
use vstd::arithmetic::power::pow;

use crate::errors::StratumError;
use crate::hashing::{hex_decode, hex_decode_spec, hex_encode, hex_of};

verus! {

/// Core commit information.
#[derive(Debug, Clone)]
pub struct CommitInfo {
    /// Merkle root over the file chunks, as 64 hex digits.
    pub merkle_root: String,
    /// The content digest that names the commit, as 64 hex digits.
    pub metadata_hash: String,
    /// Creation time, in seconds since the Unix epoch.
    pub timestamp: u64,
    /// The commit this one was derived from, if any.
    pub parent_commit: Option<String>,
}

/// File statistics of a commit.
#[derive(Debug, Clone, PartialEq, Eq, Structural)]
pub struct FileStats {
    /// Number of files (chunks) in the commit.
    pub count: u64,
    /// Total size of the tree in bytes.
    pub total_size: u64,
}

/// Shape of the commit's Merkle tree.
#[derive(Debug, Clone, PartialEq, Eq, Structural)]
pub struct MerkleInfo {
    /// Number of leaves.
    pub leaf_count: usize,
    /// Ceiling of the base-two logarithm of the leaf count; zero when empty.
    pub tree_depth: u32,
}

/// A commit: the on-disk metadata of one immutable snapshot.
#[derive(Debug, Clone)]
pub struct Commit {
    pub commit: CommitInfo,
    pub files: FileStats,
    pub merkle: MerkleInfo,
}

/// Relies on `chrono::Utc::now`: the current wall-clock time, in seconds
/// since the Unix epoch.  Nothing is assumed of the value.
#[verifier::external_body]
pub fn unix_now() -> i64 {
    chrono::Utc::now().timestamp()
}

/// The current time as an unsigned timestamp; a clock before the epoch
/// reads as zero.
pub fn unix_now_clamped() -> u64 {
    let t = unix_now();
    if t < 0 {
        0u64
    } else {
        t as u64
    }
}

/// Depth of a Merkle tree with `n` leaves: the number of halving steps to
/// reduce `n` nodes to one, which is the ceiling of the base-two logarithm.
pub open spec fn merkle_depth_of(n: int) -> int
    decreases n,
{
    if n <= 1 {
        0
    } else {
        1 + merkle_depth_of((n + 1) / 2)
    }
}

/// Computes the depth of a Merkle tree with `leaf_count` leaves.
pub fn merkle_tree_depth(leaf_count: usize) -> (r: u32)
    ensures
        r as int == merkle_depth_of(leaf_count as int),
{
    let mut n: usize = leaf_count;
    let mut d: u32 = 0;
    proof {
        assert(pow(2, 0) == 1) by {
            reveal(vstd::arithmetic::power::pow);
        }
    }
    while n > 1
        invariant
            1 <= n <= leaf_count || (n == leaf_count && leaf_count == 0),
            merkle_depth_of(leaf_count as int) == d + merkle_depth_of(n as int),
            pow(2, d as nat) * (n - 1) < leaf_count as int || d == 0,
            d <= 64,
        decreases n,
    {
        proof {
            assert(pow(2, d as nat) >= 1) by {
                vstd::arithmetic::power::lemma_pow_positive(2, d as nat);
            }
            if d > 0 {
                assert(pow(2, d as nat) * (n - 1) >= pow(2, d as nat)) by (nonlinear_arith)
                    requires
                        pow(2, d as nat) >= 1,
                        n >= 2,
                ;
            }
            assert(leaf_count as int <= pow(2, 64)) by {
                assert(pow(2, 64) == 0x1_0000_0000_0000_0000) by {
                    reveal_with_fuel(vstd::arithmetic::power::pow, 65);
                }
                assert(leaf_count <= usize::MAX);
            }
            assert(d < 64) by {
                if d >= 64 {
                    assert(pow(2, d as nat) >= pow(2, 64)) by {
                        vstd::arithmetic::power::lemma_pow_increases(2, 64, d as nat);
                    }
                    assert(pow(2, d as nat) * (n - 1) >= pow(2, 64)) by (nonlinear_arith)
                        requires
                            pow(2, d as nat) >= pow(2, 64),
                            n >= 2,
                            pow(2, 64) >= 1,
                    ;
                }
            }
        }
        let ghost n0 = n as int;
        let ghost d0 = d as int;
        let new_n = n / 2 + n % 2;
        proof {
            assert(new_n as int == (n0 + 1) / 2);
            assert(merkle_depth_of(n0) == 1 + merkle_depth_of((n0 + 1) / 2));
            assert(pow(2, (d0 + 1) as nat) == 2 * pow(2, d0 as nat)) by {
                reveal(vstd::arithmetic::power::pow);
            }
            assert((n0 + 1) / 2 - 1 == (n0 - 1) / 2);
            assert(2 * ((n0 - 1) / 2) <= n0 - 1);
            assert(pow(2, (d0 + 1) as nat) * ((n0 + 1) / 2 - 1) <= pow(2, d0 as nat) * (n0 - 1))
                by (nonlinear_arith)
                requires
                    pow(2, (d0 + 1) as nat) == 2 * pow(2, d0 as nat),
                    (n0 + 1) / 2 - 1 == (n0 - 1) / 2,
                    2 * ((n0 - 1) / 2) <= n0 - 1,
                    pow(2, d0 as nat) >= 1,
            ;
            if d0 == 0 {
                assert(pow(2, 0) == 1) by {
                    reveal(vstd::arithmetic::power::pow);
                }
                assert(pow(2, d0 as nat) * (n0 - 1) == n0 - 1) by (nonlinear_arith)
                    requires
                        pow(2, d0 as nat) == 1,
                ;
            }
            assert(pow(2, d0 as nat) * (n0 - 1) < leaf_count as int);
        }
        n = new_n;
        d = d + 1;
    }
    proof {
        assert(merkle_depth_of(n as int) == 0);
    }
    d
}

impl Commit {
    /// Creates commit metadata from the digest, Merkle root and statistics.
    /// The identifiers are stored as lower-case hex; the timestamp is taken
    /// from the clock.
    pub fn new(
        metadata_hash: &Vec<u8>,
        merkle_root: &Vec<u8>,
        file_count: u64,
        total_size: u64,
        leaf_count: usize,
        tree_depth: u32,
        parent_id: Option<String>,
    ) -> (r: Commit)
        ensures
            r.commit.metadata_hash@ == hex_of(metadata_hash@),
            r.commit.merkle_root@ == hex_of(merkle_root@),
            r.commit.parent_commit == parent_id,
            r.files.count == file_count,
            r.files.total_size == total_size,
            r.merkle.leaf_count == leaf_count,
            r.merkle.tree_depth == tree_depth,
    {
        Commit {
            commit: CommitInfo {
                merkle_root: hex_encode(merkle_root.as_slice()),
                metadata_hash: hex_encode(metadata_hash.as_slice()),
                timestamp: unix_now_clamped(),
                parent_commit: parent_id,
            },
            files: FileStats { count: file_count, total_size },
            merkle: MerkleInfo { leaf_count, tree_depth },
        }
    }

    /// The commit id, which is the metadata hash.
    pub fn id(&self) -> (r: &str)
        ensures
            r@ == self.commit.metadata_hash@,
    {
        self.commit.metadata_hash.as_str()
    }

    /// The metadata hash as a hex string.
    pub fn metadata_hash(&self) -> (r: &str)
        ensures
            r@ == self.commit.metadata_hash@,
    {
        self.commit.metadata_hash.as_str()
    }

    /// The Merkle root as a hex string.
    pub fn merkle_root(&self) -> (r: &str)
        ensures
            r@ == self.commit.merkle_root@,
    {
        self.commit.merkle_root.as_str()
    }

    /// The metadata hash decoded to its 32 bytes; fails when the stored
    /// string is not 64 hex digits.
    pub fn metadata_hash_bytes(&self) -> (r: Result<Vec<u8>, StratumError>)
        ensures
            match r {
                Ok(v) => hex_decode_spec(self.commit.metadata_hash@) == Some(v@) && v@.len()
                    == 32,
                Err(_) => !(hex_decode_spec(self.commit.metadata_hash@) matches Some(b)
                    && b.len() == 32),
            },
    {
        decode_hash_field(&self.commit.metadata_hash)
    }

    /// The Merkle root decoded to its 32 bytes; fails when the stored
    /// string is not 64 hex digits.
    pub fn merkle_root_bytes(&self) -> (r: Result<Vec<u8>, StratumError>)
        ensures
            match r {
                Ok(v) => hex_decode_spec(self.commit.merkle_root@) == Some(v@) && v@.len() == 32,
                Err(_) => !(hex_decode_spec(self.commit.merkle_root@) matches Some(b) && b.len()
                    == 32),
            },
    {
        decode_hash_field(&self.commit.merkle_root)
    }
}

/// Decodes a stored hex field that must name exactly 32 bytes.
fn decode_hash_field(field: &String) -> (r: Result<Vec<u8>, StratumError>)
    ensures
        match r {
            Ok(v) => hex_decode_spec(field@) == Some(v@) && v@.len() == 32,
            Err(_) => !(hex_decode_spec(field@) matches Some(b) && b.len() == 32),
        },
{
    match hex_decode(field.as_str()) {
        Ok(v) => {
            if v.len() == 32 {
                Ok(v)
            } else {
                Err(StratumError::InvalidInput(String::from_str("hash is not 32 bytes")))
            }
        },
        Err(e) => Err(e),
    }
}

/// The stored fields of a worktree.
#[derive(Debug, Clone)]
pub struct WorktreeInfo {
    /// The worktree's name.
    pub name: String,
    /// The id of the base commit this worktree overlays.
    pub base_commit: String,
    /// Creation time, seconds since the Unix epoch.
    pub created: u64,
    /// Last modification time.
    pub last_modified: u64,
    /// Last time the worktree was turned into a commit, if ever.
    pub last_committed: Option<u64>,
    /// Free-form description.
    pub description: Option<String>,
}

/// A named mutable workspace pinned to a base commit.
#[derive(Debug, Clone)]
pub struct Worktree {
    pub worktree: WorktreeInfo,
}

impl Worktree {
    /// Creates a fresh worktree record: never committed, with creation and
    /// modification time both set to now.
    pub fn new(name: String, base_commit: String, description: Option<String>) -> (r: Worktree)
        ensures
            r.worktree.name == name,
            r.worktree.base_commit == base_commit,
            r.worktree.description == description,
            r.worktree.last_committed is None,
            r.worktree.created == r.worktree.last_modified,
    {
        let now = unix_now_clamped();
        Worktree {
            worktree: WorktreeInfo {
                name,
                base_commit,
                created: now,
                last_modified: now,
                last_committed: None,
                description,
            },
        }
    }

    /// The worktree's name.
    pub fn name(&self) -> (r: &str)
        ensures
            r@ == self.worktree.name@,
    {
        self.worktree.name.as_str()
    }

    /// The id of the base commit.
    pub fn base_commit(&self) -> (r: &str)
        ensures
            r@ == self.worktree.base_commit@,
    {
        self.worktree.base_commit.as_str()
    }

    /// Repins the worktree to another base commit.
    pub fn set_base_commit(&mut self, base_commit: String)
        ensures
            final(self).worktree.base_commit == base_commit,
            final(self).worktree.name == old(self).worktree.name,
            final(self).worktree.created == old(self).worktree.created,
            final(self).worktree.last_modified == old(self).worktree.last_modified,
            final(self).worktree.last_committed == old(self).worktree.last_committed,
            final(self).worktree.description == old(self).worktree.description,
    {
        self.worktree.base_commit = base_commit;
    }

    /// Records that the worktree was just committed.
    pub fn mark_committed(&mut self)
        ensures
            final(self).worktree.last_committed is Some,
            final(self).worktree.name == old(self).worktree.name,
            final(self).worktree.base_commit == old(self).worktree.base_commit,
            final(self).worktree.created == old(self).worktree.created,
            final(self).worktree.last_modified == old(self).worktree.last_modified,
            final(self).worktree.description == old(self).worktree.description,
    {
        self.worktree.last_committed = Some(unix_now_clamped());
    }

    /// Refreshes the last-modified time.
    pub fn touch(&mut self)
        ensures
            final(self).worktree.name == old(self).worktree.name,
            final(self).worktree.base_commit == old(self).worktree.base_commit,
            final(self).worktree.created == old(self).worktree.created,
            final(self).worktree.last_committed == old(self).worktree.last_committed,
            final(self).worktree.description == old(self).worktree.description,
    {
        self.worktree.last_modified = unix_now_clamped();
    }

    /// Whether the worktree holds uncommitted changes, given what a probe
    /// of its upper directory found: it must exist and contain at least one
    /// entry.
    pub fn has_uncommitted_changes(
        &self,
        upperdir_exists: bool,
        upperdir_has_entries: bool,
    ) -> (r: bool)
        ensures
            r == (upperdir_exists && upperdir_has_entries),
    {
        upperdir_exists && upperdir_has_entries
    }
}

} // verus!

//! The store: commits, tags, worktrees, mounts and objects.
//!
//! The store's decision logic works on an in-memory image of the on-disk
//! layout: a table of commit records, a table of tags, a table of
//! worktrees, the live-mount registry and the object refcount database.
//! The binary around the library reads the disk into these tables, calls
//! the operations here, and mirrors their effects back to disk (directories,
//! symlinks, EROFS images and mounts).
//!
//! Commit identity is where the cryptography lives: a bare import is named
//! by the digest of its directory tree, and a union patch derives its name
//! from the base commit's identity, the patch tree and the combined Merkle
//! data, without re-reading the base.

use vstd::prelude::*;

use crate::bytes::le_bytes_of;
use crate::commit::{merkle_depth_of, merkle_tree_depth, Commit, Worktree};
use crate::errors::StratumError;
use crate::fstree::{tree_digest, file_chunks_of, FsNode};
use crate::hashing::{hex_decode_spec, hex_encode, hex_of, sha256, sha256_of};
use crate::merkle::{build_merkle_root, merkle_root_of};
use crate::objectdb::ObjectDatabase;
use crate::refs::{first_index_of, parse_label, str_eq, StratumRef};
use crate::state::{MountedStratum, StateManager, StratumMountRef, StratumState};
use crate::table::{
    get1, get2, keyed1, keyed2, kv_lookup, kv_unique, remove1, remove2, upsert1, upsert2,
};

verus! {

/// The tag used when a label names none: `latest`.
pub open spec fn default_tag() -> Seq<char> {
    "latest"@
}

/// The tag names filed under a label, in table order.
pub open spec fn tag_names_under(
    rows: Seq<((Seq<char>, Seq<char>), String)>,
    label: Seq<char>,
) -> Seq<Seq<char>>
    decreases rows.len(),
{
    if rows.len() == 0 {
        Seq::<Seq<char>>::empty()
    } else {
        (if rows.first().0.0 == label {
            seq![rows.first().0.1]
        } else {
            Seq::<Seq<char>>::empty()
        }) + tag_names_under(rows.drop_first(), label)
    }
}

/// The id a bare directory import gets: the hex form of the tree digest.
pub open spec fn bare_commit_id_of(tree: FsNode) -> Seq<char> {
    hex_of(tree_digest(tree))
}

/// A bare import's identity is a function of the imported tree alone:
/// importing equal trees yields equal commit ids, whatever store they go
/// into and whatever it already holds.
pub proof fn lemma_bare_commit_id_deterministic(tree1: FsNode, tree2: FsNode)
    requires
        tree1 == tree2,
    ensures
        bare_commit_id_of(tree1) == bare_commit_id_of(tree2),
{
}

/// Domain marker "PATCH_CHUNKS".
pub open spec fn marker_patch_chunks() -> Seq<u8> {
    seq![80u8, 65u8, 84u8, 67u8, 72u8, 95u8, 67u8, 72u8, 85u8, 78u8, 75u8, 83u8]
}

/// Domain marker "COMBINED_MERKLE_ROOT".
pub open spec fn marker_combined_merkle() -> Seq<u8> {
    seq![
        67u8, 79u8, 77u8, 66u8, 73u8, 78u8, 69u8, 68u8, 95u8, 77u8, 69u8, 82u8, 75u8, 76u8,
        69u8, 95u8, 82u8, 79u8, 79u8, 84u8,
    ]
}

/// Domain marker "DERIVED_COMMIT".
pub open spec fn marker_derived_commit() -> Seq<u8> {
    seq![68u8, 69u8, 82u8, 73u8, 86u8, 69u8, 68u8, 95u8, 67u8, 79u8, 77u8, 77u8, 73u8, 84u8]
}

/// The concatenation of a chunk list.
pub open spec fn concat_chunks(chunks: Seq<Seq<u8>>) -> Seq<u8>
    decreases chunks.len(),
{
    if chunks.len() == 0 {
        Seq::<u8>::empty()
    } else {
        chunks.first() + concat_chunks(chunks.drop_first())
    }
}

/// The patch's contribution to the combined Merkle root: a digest of all
/// patch chunks under the "PATCH_CHUNKS" marker.
pub open spec fn patch_contribution_of(chunks: Seq<Seq<u8>>) -> Seq<u8> {
    sha256_of(marker_patch_chunks() + concat_chunks(chunks))
}

/// The combined Merkle root of a base root and a patch chunk list.
pub open spec fn combined_merkle_of(base_merkle: Seq<u8>, chunks: Seq<Seq<u8>>) -> Seq<u8> {
    sha256_of(marker_combined_merkle() + base_merkle + patch_contribution_of(chunks))
}

/// The identity of a union-patch commit.  It is a function of the base
/// commit's id and Merkle root, the base's file count, and the patch tree
/// alone — nothing else about the store enters, which makes the derived id
/// independent of the on-disk object layout.
pub open spec fn derived_commit_id_of(
    base_id_bytes: Seq<u8>,
    base_merkle: Seq<u8>,
    base_count: u64,
    patch: FsNode,
) -> Seq<char> {
    hex_of(
        sha256_of(
            marker_derived_commit() + base_id_bytes + tree_digest(patch) + combined_merkle_of(
                base_merkle,
                file_chunks_of(patch),
            ) + le_bytes_of(base_count + file_chunks_of(patch).len(), 8),
        ),
    )
}

/// Union-patch identity is determined by the base commit's identity, the
/// base's file count and the patch tree alone: two derivations over equal
/// inputs agree, whatever stores, scratch directories or object layouts
/// they ran against.
pub proof fn lemma_union_patch_id_deterministic(
    base_id_bytes: Seq<u8>,
    base_merkle: Seq<u8>,
    base_count: u64,
    patch1: FsNode,
    patch2: FsNode,
)
    requires
        patch1 == patch2,
    ensures
        derived_commit_id_of(base_id_bytes, base_merkle, base_count, patch1)
            == derived_commit_id_of(base_id_bytes, base_merkle, base_count, patch2),
{
}

/// Whether a stored hex field names a full 32-byte digest.
pub open spec fn decodes_to_digest(s: Seq<char>) -> bool {
    hex_decode_spec(s) matches Some(b) && b.len() == 32
}

/// The digest a stored hex field names.
pub open spec fn digest_of_field(s: Seq<char>) -> Seq<u8> {
    hex_decode_spec(s)->Some_0
}

/// The relative symlink target a tag points at: `../../../commits/<id>`.
pub open spec fn tag_link_target_of(commit_id: Seq<char>) -> Seq<char> {
    "../../../commits/"@ + commit_id
}

/// Builds the relative symlink target for a tag.
pub fn tag_link_target(commit_id: &str) -> (r: String)
    ensures
        r@ == tag_link_target_of(commit_id@),
{
    String::from_str("../../../commits/").concat(commit_id)
}

/// The final path component of a link target: everything after the last
/// slash.
pub open spec fn final_component_of(s: Seq<char>) -> Seq<char>
    decreases s.len(),
{
    if first_index_of(s, '/') < 0 || first_index_of(s, '/') >= s.len() {
        s
    } else {
        final_component_of(s.skip(first_index_of(s, '/') + 1))
    }
}

/// Extracts the commit id from a tag's link target, which is its final
/// path component.
pub fn commit_id_from_link_target(target: &str) -> (r: String)
    ensures
        r@ == final_component_of(target@),
{
    let mut rest = String::from_str(target);
    loop
        invariant
            final_component_of(target@) == final_component_of(rest@),
        decreases rest@.len(),
    {
        match crate::refs::find_char(rest.as_str(), '/') {
            Some(i) => {
                proof {
                    crate::refs::lemma_first_index_of(rest@, '/');
                }
                let n = rest.unicode_len();
                let next = String::from_str(rest.as_str().substring_char(i + 1, n));
                proof {
                    assert(next@ =~= rest@.skip(i + 1));
                }
                rest = next;
            },
            None => {
                return rest;
            },
        }
    }
}

/// A planned mount: what to configure and what to record on success.
pub struct MountPlan {
    /// The commit whose image backs the mount.
    pub commit_id: String,
    /// The `source=` string shown in the mount table.
    pub source_name: String,
    /// Whether the mount is read-only.
    pub read_only: bool,
    /// The record to add to the registry once the mount succeeded.
    pub record: MountedStratum,
}

/// The outcome of planning a mount.
pub enum MountAction {
    /// The path already carries a recorded mount; nothing to do.
    AlreadyMounted,
    /// Configure and record this mount.
    Mount(MountPlan),
}

/// The store.
pub struct Store {
    /// Root directory of the store on disk.
    pub base_path: String,
    commits: Vec<(String, Commit)>,
    tags: Vec<((String, String), String)>,
    worktrees: Vec<((String, String), Worktree)>,
    state_manager: StateManager,
    object_database: ObjectDatabase,
}

/// An exact copy of a commit record.
pub fn clone_commit(c: &Commit) -> (r: Commit)
    ensures
        r == *c,
{
    Commit {
        commit: crate::commit::CommitInfo {
            merkle_root: c.commit.merkle_root.clone(),
            metadata_hash: c.commit.metadata_hash.clone(),
            timestamp: c.commit.timestamp,
            parent_commit: match &c.commit.parent_commit {
                Some(p) => Some(p.clone()),
                None => None,
            },
        },
        files: crate::commit::FileStats { count: c.files.count, total_size: c.files.total_size },
        merkle: crate::commit::MerkleInfo {
            leaf_count: c.merkle.leaf_count,
            tree_depth: c.merkle.tree_depth,
        },
    }
}

/// An exact copy of a worktree record.
pub fn clone_worktree(w: &Worktree) -> (r: Worktree)
    ensures
        r == *w,
{
    Worktree {
        worktree: crate::commit::WorktreeInfo {
            name: w.worktree.name.clone(),
            base_commit: w.worktree.base_commit.clone(),
            created: w.worktree.created,
            last_modified: w.worktree.last_modified,
            last_committed: w.worktree.last_committed,
            description: match &w.worktree.description {
                Some(d) => Some(d.clone()),
                None => None,
            },
        },
    }
}

impl Store {
    /// The store's root path, as characters.
    pub closed spec fn spec_base_path(&self) -> Seq<char> {
        self.base_path@
    }

    /// The commit table, keyed by commit id.
    pub closed spec fn commits_keyed(&self) -> Seq<(Seq<char>, Commit)> {
        keyed1(self.commits@)
    }

    /// The tag table, keyed by label and tag; the value is the commit id.
    pub closed spec fn tags_keyed(&self) -> Seq<((Seq<char>, Seq<char>), String)> {
        keyed2(self.tags@)
    }

    /// The worktree table, keyed by label and worktree name.
    pub closed spec fn worktrees_keyed(&self) -> Seq<((Seq<char>, Seq<char>), Worktree)> {
        keyed2(self.worktrees@)
    }

    /// The live-mount registry.
    pub closed spec fn mounts(&self) -> StratumState {
        self.state_manager.view_state()
    }

    /// The object database contents.
    pub closed spec fn objects(&self) -> Map<Seq<u8>, Seq<u8>> {
        self.object_database.contents()
    }

    /// The record of a commit.
    pub open spec fn commit_rec(&self, id: Seq<char>) -> Option<Commit> {
        kv_lookup(self.commits_keyed(), id)
    }

    /// Whether a commit exists.
    pub open spec fn commit_exists_spec(&self, id: Seq<char>) -> bool {
        self.commit_rec(id) is Some
    }

    /// The commit a tag points at.
    pub open spec fn tag_target(&self, label: Seq<char>, tag: Seq<char>) -> Option<String> {
        kv_lookup(self.tags_keyed(), (label, tag))
    }

    /// The record of a worktree.
    pub open spec fn worktree_rec(&self, label: Seq<char>, name: Seq<char>) -> Option<Worktree> {
        kv_lookup(self.worktrees_keyed(), (label, name))
    }

    /// Tables have unique keys and the registry is well formed.
    pub open spec fn wf(&self) -> bool {
        &&& kv_unique(self.commits_keyed())
        &&& kv_unique(self.tags_keyed())
        &&& kv_unique(self.worktrees_keyed())
        &&& self.mounts().wf()
    }

    /// Opens a store rooted at `base_path`: empty tables, an empty mount
    /// registry, and the object database under the root.  The binary
    /// restores the tables from disk afterwards.
    pub fn new(base_path: String) -> (r: Result<Store, StratumError>)
        ensures
            r matches Ok(s) ==> {
                &&& s.wf()
                &&& s.spec_base_path() == base_path@
                &&& s.commits_keyed().len() == 0
                &&& s.tags_keyed().len() == 0
                &&& s.worktrees_keyed().len() == 0
                &&& s.mounts().rows().len() == 0
            },
    {
        let object_database = match ObjectDatabase::new(base_path.as_str()) {
            Ok(db) => db,
            Err(e) => {
                return Err(StratumError::Io(e));
            },
        };
        let state_manager = match StateManager::new() {
            Ok(m) => m,
            Err(e) => {
                return Err(StratumError::Io(e));
            },
        };
        Ok(
            Store {
                base_path,
                commits: Vec::new(),
                tags: Vec::new(),
                worktrees: Vec::new(),
                state_manager,
                object_database,
            },
        )
    }

    /// The store's root path.
    pub fn base_path(&self) -> (r: &str)
        ensures
            r@ == self.spec_base_path(),
    {
        self.base_path.as_str()
    }

    /// `BASE/temp`, the scratch directory.
    pub fn temp_path(&self) -> (r: String)
        ensures
            r@ == self.spec_base_path() + "/temp"@,
    {
        self.base_path.clone().concat("/temp")
    }

    /// `BASE/refs/<label>`.
    pub fn ref_path(&self, label: &str) -> (r: String)
        ensures
            r@ == self.spec_base_path() + "/refs/"@ + label@,
    {
        self.base_path.clone().concat("/refs/").concat(label)
    }

    /// `BASE/commits`.
    pub fn commits_path(&self) -> (r: String)
        ensures
            r@ == self.spec_base_path() + "/commits"@,
    {
        self.base_path.clone().concat("/commits")
    }

    /// `BASE/commits/<commit_id>`.
    pub fn commit_path(&self, commit_id: &str) -> (r: String)
        ensures
            r@ == self.spec_base_path() + "/commits/"@ + commit_id@,
    {
        self.base_path.clone().concat("/commits/").concat(commit_id)
    }

    /// `BASE/commits/<commit_id>/metadata.toml`.
    pub fn commit_meta_path(&self, commit_id: &str) -> (r: String)
        ensures
            r@ == self.spec_base_path() + "/commits/"@ + commit_id@ + "/metadata.toml"@,
    {
        self.commit_path(commit_id).concat("/metadata.toml")
    }

    /// `BASE/commits/<commit_id>/commit.cfs`.
    pub fn commit_file_path(&self, commit_id: &str) -> (r: String)
        ensures
            r@ == self.spec_base_path() + "/commits/"@ + commit_id@ + "/commit.cfs"@,
    {
        self.commit_path(commit_id).concat("/commit.cfs")
    }

    /// `BASE/refs/<label>/tags`.
    pub fn tags_path(&self, label: &str) -> (r: String)
        ensures
            r@ == self.spec_base_path() + "/refs/"@ + label@ + "/tags"@,
    {
        self.ref_path(label).concat("/tags")
    }

    /// `BASE/objects`.
    pub fn objects_path(&self) -> (r: String)
        ensures
            r@ == self.spec_base_path() + "/objects"@,
    {
        self.base_path.clone().concat("/objects")
    }

    /// `BASE/refs/<label>/worktrees`.
    pub fn worktrees_path(&self, label: &str) -> (r: String)
        ensures
            r@ == self.spec_base_path() + "/refs/"@ + label@ + "/worktrees"@,
    {
        self.ref_path(label).concat("/worktrees")
    }

    /// `BASE/refs/<label>/worktrees/<worktree>`.
    pub fn worktree_path(&self, label: &str, worktree: &str) -> (r: String)
        ensures
            r@ == self.spec_base_path() + "/refs/"@ + label@ + "/worktrees/"@ + worktree@,
    {
        self.ref_path(label).concat("/worktrees/").concat(worktree)
    }

    /// `BASE/refs/<label>/worktrees/<worktree>/upperdir`.
    pub fn worktree_upperdir(&self, label: &str, worktree: &str) -> (r: String)
        ensures
            r@ == self.spec_base_path() + "/refs/"@ + label@ + "/worktrees/"@ + worktree@
                + "/upperdir"@,
    {
        self.worktree_path(label, worktree).concat("/upperdir")
    }

    /// `BASE/refs/<label>/worktrees/<worktree>/workdir`.
    pub fn worktree_workdir(&self, label: &str, worktree: &str) -> (r: String)
        ensures
            r@ == self.spec_base_path() + "/refs/"@ + label@ + "/worktrees/"@ + worktree@
                + "/workdir"@,
    {
        self.worktree_path(label, worktree).concat("/workdir")
    }

    /// `BASE/refs/<label>/worktrees/<worktree>/meta.toml`.
    pub fn worktree_meta_path(&self, label: &str, worktree: &str) -> (r: String)
        ensures
            r@ == self.spec_base_path() + "/refs/"@ + label@ + "/worktrees/"@ + worktree@
                + "/meta.toml"@,
    {
        self.worktree_path(label, worktree).concat("/meta.toml")
    }

    /// Restores one commit record read back from disk.
    pub fn restore_commit(&mut self, commit_id: String, commit: Commit)
        requires
            old(self).wf(),
        ensures
            final(self).wf(),
            final(self).commit_rec(commit_id@) == Option::Some(commit),
            forall|k: Seq<char>|
                k != commit_id@ ==> #[trigger] final(self).commit_rec(k) == old(self).commit_rec(
                    k,
                ),
            final(self).tags_keyed() == old(self).tags_keyed(),
            final(self).worktrees_keyed() == old(self).worktrees_keyed(),
            final(self).mounts() == old(self).mounts(),
            final(self).objects() == old(self).objects(),
    {
        upsert1(&mut self.commits, commit_id, commit);
    }

    /// Restores one tag read back from disk.
    pub fn restore_tag(&mut self, label: String, tag: String, commit_id: String)
        requires
            old(self).wf(),
        ensures
            final(self).wf(),
            final(self).tag_target(label@, tag@) == Option::Some(commit_id),
            final(self).commits_keyed() == old(self).commits_keyed(),
            final(self).worktrees_keyed() == old(self).worktrees_keyed(),
            final(self).mounts() == old(self).mounts(),
            final(self).objects() == old(self).objects(),
    {
        upsert2(&mut self.tags, label, tag, commit_id);
    }

    /// Restores one worktree record read back from disk.
    pub fn restore_worktree(&mut self, label: String, worktree: Worktree)
        requires
            old(self).wf(),
        ensures
            final(self).wf(),
            final(self).worktree_rec(label@, worktree.worktree.name@) == Option::Some(worktree),
            final(self).commits_keyed() == old(self).commits_keyed(),
            final(self).tags_keyed() == old(self).tags_keyed(),
            final(self).mounts() == old(self).mounts(),
            final(self).objects() == old(self).objects(),
    {
        let name = worktree.name();
        let name_owned = String::from_str(name);
        upsert2(&mut self.worktrees, label, name_owned, worktree);
    }

    /// Restores one mount record read back from the state file.
    pub fn restore_mount(&mut self, path: String, record: MountedStratum)
        requires
            old(self).wf(),
        ensures
            final(self).wf(),
            final(self).mounts().mount_at(path@) == Option::Some(record),
            final(self).commits_keyed() == old(self).commits_keyed(),
            final(self).tags_keyed() == old(self).tags_keyed(),
            final(self).worktrees_keyed() == old(self).worktrees_keyed(),
            final(self).objects() == old(self).objects(),
    {
        let _ = self.state_manager.add_mount(path, record);
    }

    /// Whether a commit exists.
    pub fn commit_exists(&self, commit_id: &str) -> (r: bool)
        ensures
            r == self.commit_exists_spec(commit_id@),
    {
        match get1(&self.commits, commit_id) {
            Some(_) => true,
            None => false,
        }
    }

    /// The metadata of a commit.
    pub fn load_commit(&self, commit_id: &str) -> (r: Result<Commit, StratumError>)
        ensures
            match r {
                Ok(c) => self.commit_rec(commit_id@) == Option::Some(c),
                Err(e) => !self.commit_exists_spec(commit_id@) && e is NotFound,
            },
    {
        match get1(&self.commits, commit_id) {
            Some(c) => Ok(clone_commit(c)),
            None => Err(
                StratumError::NotFound(
                    String::from_str("commit not found: ").concat(commit_id),
                ),
            ),
        }
    }

    /// Imports a directory tree as a content-addressed commit.  The id is
    /// the hex form of the tree digest, so importing the same tree twice
    /// yields the same id, whatever the store held before.  The commit
    /// record carries the Merkle root of the sorted chunk list, the chunk
    /// count, the tree's total size and the Merkle tree depth.
    pub fn commit_directory_bare(
        &mut self,
        label: &str,
        source: &FsNode,
        parent_commit: Option<&str>,
        transient: bool,
    ) -> (r: Result<String, StratumError>)
        requires
            old(self).wf(),
        ensures
            final(self).wf(),
            final(self).tags_keyed() == old(self).tags_keyed(),
            final(self).worktrees_keyed() == old(self).worktrees_keyed(),
            final(self).mounts() == old(self).mounts(),
            final(self).objects() == old(self).objects(),
            match r {
                Ok(id) => {
                    &&& source is Dir
                    &&& crate::fstree::total_size_of(source->Dir_entries@) <= u64::MAX
                    &&& id@ == bare_commit_id_of(*source)
                    &&& id@.len() == 64
                    &&& final(self).commit_rec(id@) matches Option::Some(c) && ({
                        &&& c.commit.metadata_hash@ == bare_commit_id_of(*source)
                        &&& c.commit.merkle_root@ == hex_of(
                            merkle_root_of(file_chunks_of(*source)),
                        )
                        &&& (match parent_commit {
                            Some(p) => c.commit.parent_commit matches Some(ps) && ps@ == p@,
                            None => c.commit.parent_commit is None,
                        })
                        &&& c.files.count == file_chunks_of(*source).len()
                        &&& c.files.total_size == crate::fstree::total_size_of(
                            source->Dir_entries@,
                        )
                        &&& c.merkle.leaf_count == file_chunks_of(*source).len()
                        &&& c.merkle.tree_depth == merkle_depth_of(
                            file_chunks_of(*source).len() as int,
                        )
                    })
                    &&& forall|k: Seq<char>|
                        k != id@ ==> #[trigger] final(self).commit_rec(k) == old(
                            self,
                        ).commit_rec(k)
                },
                Err(e) => {
                    &&& e is InvalidInput
                    &&& (!(source is Dir) || crate::fstree::total_size_of(source->Dir_entries@)
                        > u64::MAX)
                    &&& final(self).commits_keyed() == old(self).commits_keyed()
                },
            },
    {
        let chunks = match crate::fstree::collect_file_chunks(source) {
            Ok(c) => c,
            Err(e) => {
                return Err(e);
            },
        };
        let merkle_root = build_merkle_root(&chunks);
        let digest = match crate::fstree::hash_directory_tree(source) {
            Ok(d) => d,
            Err(e) => {
                return Err(e);
            },
        };
        let total_size = match crate::fstree::calculate_total_size(source) {
            Ok(s) => s,
            Err(e) => {
                return Err(e);
            },
        };
        let commit_id = hex_encode(digest.as_slice());
        proof {
            crate::hashing::lemma_hex_of_len(digest@);
        }
        let leaf_count = chunks.len();
        let depth = merkle_tree_depth(leaf_count);
        let parent = match parent_commit {
            Some(p) => Some(String::from_str(p)),
            None => None,
        };
        let commit = Commit::new(
            &digest,
            &merkle_root,
            leaf_count as u64,
            total_size,
            leaf_count,
            depth,
            parent,
        );
        let _ = transient;  // object registration is a separate step
        let _ = label;  // the ref directory is the binary's concern
        upsert1(&mut self.commits, commit_id.clone(), commit);
        Ok(commit_id)
    }

    /// Points `refs/<label>/tags/<tag>` at a commit, replacing any previous
    /// target.  The commit must exist.
    pub fn tag_commit(&mut self, label: &str, commit_id: &str, tag: &str) -> (r: Result<
        (),
        StratumError,
    >)
        requires
            old(self).wf(),
        ensures
            final(self).wf(),
            final(self).commits_keyed() == old(self).commits_keyed(),
            final(self).worktrees_keyed() == old(self).worktrees_keyed(),
            final(self).mounts() == old(self).mounts(),
            final(self).objects() == old(self).objects(),
            match r {
                Ok(_) => {
                    &&& old(self).commit_exists_spec(commit_id@)
                    &&& final(self).tag_target(label@, tag@) matches Some(c) && c@ == commit_id@
                    &&& forall|k: (Seq<char>, Seq<char>)|
                        k != (label@, tag@) ==> #[trigger] kv_lookup(final(self).tags_keyed(), k)
                            == kv_lookup(old(self).tags_keyed(), k)
                },
                Err(e) => {
                    &&& e is NotFound
                    &&& !old(self).commit_exists_spec(commit_id@)
                    &&& final(self).tags_keyed() == old(self).tags_keyed()
                },
            },
    {
        if !self.commit_exists(commit_id) {
            return Err(
                StratumError::NotFound(
                    String::from_str("commit does not exist: ").concat(commit_id),
                ),
            );
        }
        upsert2(
            &mut self.tags,
            String::from_str(label),
            String::from_str(tag),
            String::from_str(commit_id),
        );
        Ok(())
    }

    /// Removes a tag.  A missing tag is reported as not found.
    pub fn untag(&mut self, label: &str, tag: &str) -> (r: Result<(), StratumError>)
        requires
            old(self).wf(),
        ensures
            final(self).wf(),
            final(self).commits_keyed() == old(self).commits_keyed(),
            final(self).worktrees_keyed() == old(self).worktrees_keyed(),
            final(self).mounts() == old(self).mounts(),
            final(self).objects() == old(self).objects(),
            match r {
                Ok(_) => {
                    &&& old(self).tag_target(label@, tag@) is Some
                    &&& final(self).tag_target(label@, tag@) is None
                    &&& forall|k: (Seq<char>, Seq<char>)|
                        k != (label@, tag@) ==> #[trigger] kv_lookup(final(self).tags_keyed(), k)
                            == kv_lookup(old(self).tags_keyed(), k)
                },
                Err(e) => {
                    &&& e is NotFound
                    &&& old(self).tag_target(label@, tag@) is None
                    &&& final(self).tags_keyed() == old(self).tags_keyed()
                },
            },
    {
        let removed = remove2(&mut self.tags, label, tag);
        if removed {
            Ok(())
        } else {
            Err(
                StratumError::NotFound(
                    String::from_str("tag does not exist: ").concat(tag),
                ),
            )
        }
    }

    /// Resolves a tag to the commit id it points at.
    pub fn resolve_tag(&self, label: &str, tag: &str) -> (r: Result<String, StratumError>)
        ensures
            match r {
                Ok(id) => self.tag_target(label@, tag@) matches Some(c) && c@ == id@,
                Err(e) => e is NotFound && self.tag_target(label@, tag@) is None,
            },
    {
        match get2(&self.tags, label, tag) {
            Some(id) => Ok(id.clone()),
            None => Err(
                StratumError::NotFound(String::from_str("tag does not exist: ").concat(tag)),
            ),
        }
    }


    /// The tags stored under a label, sorted by name.
    pub fn list_tags(&self, label: &str) -> (r: Result<Vec<String>, StratumError>)
        ensures
            r matches Ok(v) && ({
                &&& crate::refs::strings_sorted(v.deep_view())
                &&& v.deep_view().to_multiset() == tag_names_under(
                    self.tags_keyed(),
                    label@,
                ).to_multiset()
            }),
    {
        let n = self.tags.len();
        let mut out: Vec<String> = Vec::new();
        let mut i: usize = 0;
        proof {
            assert(self.tags_keyed().skip(0) =~= self.tags_keyed());
            assert(out.deep_view() + tag_names_under(self.tags_keyed(), label@)
                =~= tag_names_under(self.tags_keyed(), label@));
        }
        while i < n
            invariant
                0 <= i <= n,
                n == self.tags@.len(),
                tag_names_under(self.tags_keyed(), label@) == out.deep_view() + tag_names_under(
                    self.tags_keyed().skip(i as int),
                    label@,
                ),
            decreases n - i,
        {
            let ghost tail = self.tags_keyed().skip(i as int);
            let ghost out0 = out.deep_view();
            proof {
                assert(tail.first() == self.tags_keyed()[i as int]);
                assert(tail.drop_first() =~= self.tags_keyed().skip(i as int + 1));
            }
            let row = &self.tags[i];
            if str_eq(row.0.0.as_str(), label) {
                out.push(row.0.1.clone());
                proof {
                    assert(out.deep_view() =~~= out0.push(tail.first().0.1));
                    assert(out0.push(tail.first().0.1) =~= out0 + seq![tail.first().0.1]);
                    assert(tag_names_under(tail, label@) == seq![tail.first().0.1]
                        + tag_names_under(tail.drop_first(), label@));
                }
            } else {
                proof {
                    assert(tag_names_under(tail, label@) == tag_names_under(
                        tail.drop_first(),
                        label@,
                    ));
                }
            }
            i += 1;
        }
        proof {
            assert(tag_names_under(self.tags_keyed().skip(n as int), label@)
                == Seq::<Seq<char>>::empty());
            assert(out.deep_view() + Seq::<Seq<char>>::empty() =~= out.deep_view());
            assert(out.deep_view() =~~= tag_names_under(self.tags_keyed(), label@));
        }
        Ok(crate::refs::sort_strings(out))
    }

    /// The record of a worktree, as stored.
    pub fn load_worktree(&self, label: &str, worktree_name: &str) -> (r: Result<
        Worktree,
        StratumError,
    >)
        ensures
            match r {
                Ok(w) => self.worktree_rec(label@, worktree_name@) == Option::Some(w),
                Err(e) => e is NotFound && self.worktree_rec(label@, worktree_name@) is None,
            },
    {
        match get2(&self.worktrees, label, worktree_name) {
            Some(w) => Ok(clone_worktree(w)),
            None => Err(
                StratumError::NotFound(
                    String::from_str("worktree does not exist: ").concat(worktree_name),
                ),
            ),
        }
    }

    /// Whether a worktree exists.
    pub fn worktree_exists(&self, label: &str, worktree_name: &str) -> (r: bool)
        ensures
            r == (self.worktree_rec(label@, worktree_name@) is Some),
    {
        match get2(&self.worktrees, label, worktree_name) {
            Some(_) => true,
            None => false,
        }
    }

    /// Creates a worktree pinned to a base commit.  The base must exist and
    /// the name must be free.
    pub fn create_worktree(
        &mut self,
        label: &str,
        worktree_name: &str,
        base_commit: &str,
        description: Option<String>,
    ) -> (r: Result<(), StratumError>)
        requires
            old(self).wf(),
        ensures
            final(self).wf(),
            final(self).commits_keyed() == old(self).commits_keyed(),
            final(self).tags_keyed() == old(self).tags_keyed(),
            final(self).mounts() == old(self).mounts(),
            final(self).objects() == old(self).objects(),
            match r {
                Ok(_) => {
                    &&& old(self).commit_exists_spec(base_commit@)
                    &&& old(self).worktree_rec(label@, worktree_name@) is None
                    &&& final(self).worktree_rec(label@, worktree_name@) matches Some(w) && ({
                        &&& w.worktree.name@ == worktree_name@
                        &&& w.worktree.base_commit@ == base_commit@
                        &&& w.worktree.description == description
                        &&& w.worktree.last_committed is None
                        &&& w.worktree.created == w.worktree.last_modified
                    })
                    &&& forall|k: (Seq<char>, Seq<char>)|
                        k != (label@, worktree_name@) ==> #[trigger] kv_lookup(
                            final(self).worktrees_keyed(),
                            k,
                        ) == kv_lookup(old(self).worktrees_keyed(), k)
                },
                Err(e) => {
                    &&& final(self).worktrees_keyed() == old(self).worktrees_keyed()
                    &&& (if !old(self).commit_exists_spec(base_commit@) {
                        e is NotFound
                    } else {
                        e is Exists && old(self).worktree_rec(label@, worktree_name@) is Some
                    })
                },
            },
    {
        if !self.commit_exists(base_commit) {
            return Err(
                StratumError::NotFound(
                    String::from_str("base commit does not exist: ").concat(base_commit),
                ),
            );
        }
        if self.worktree_exists(label, worktree_name) {
            return Err(
                StratumError::Exists(
                    String::from_str("worktree already exists: ").concat(worktree_name),
                ),
            );
        }
        let worktree = Worktree::new(
            String::from_str(worktree_name),
            String::from_str(base_commit),
            description,
        );
        upsert2(&mut self.worktrees, String::from_str(label), String::from_str(worktree_name), worktree);
        Ok(())
    }

    /// Creates the `main` worktree on a base commit if it is missing.
    pub fn ensure_main_worktree(&mut self, label: &str, base_commit: &str) -> (r: Result<
        (),
        StratumError,
    >)
        requires
            old(self).wf(),
        ensures
            final(self).wf(),
            final(self).commits_keyed() == old(self).commits_keyed(),
            final(self).tags_keyed() == old(self).tags_keyed(),
            final(self).mounts() == old(self).mounts(),
            final(self).objects() == old(self).objects(),
            r is Ok ==> final(self).worktree_rec(label@, "main"@) is Some,
            r matches Err(e) ==> {
                &&& e is NotFound
                &&& !old(self).commit_exists_spec(base_commit@)
                &&& old(self).worktree_rec(label@, "main"@) is None
                &&& final(self).worktrees_keyed() == old(self).worktrees_keyed()
            },
    {
        if self.worktree_exists(label, "main") {
            return Ok(());
        }
        self.create_worktree(label, "main", base_commit, None)
    }

    /// Writes back a worktree record under its own name.
    pub fn save_worktree_metadata(&mut self, label: &str, worktree: &Worktree) -> (r: Result<
        (),
        StratumError,
    >)
        requires
            old(self).wf(),
        ensures
            final(self).wf(),
            final(self).commits_keyed() == old(self).commits_keyed(),
            final(self).tags_keyed() == old(self).tags_keyed(),
            final(self).mounts() == old(self).mounts(),
            final(self).objects() == old(self).objects(),
            r is Ok,
            final(self).worktree_rec(label@, worktree.worktree.name@) == Option::Some(*worktree),
            forall|k: (Seq<char>, Seq<char>)|
                k != (label@, worktree.worktree.name@) ==> #[trigger] kv_lookup(
                    final(self).worktrees_keyed(),
                    k,
                ) == kv_lookup(old(self).worktrees_keyed(), k),
    {
        let name = String::from_str(worktree.name());
        upsert2(&mut self.worktrees, String::from_str(label), name, clone_worktree(worktree));
        Ok(())
    }

    /// Marks a worktree as committed just now.
    pub fn mark_worktree_committed(&mut self, label: &str, worktree_name: &str) -> (r: Result<
        (),
        StratumError,
    >)
        requires
            old(self).wf(),
        ensures
            final(self).wf(),
            final(self).commits_keyed() == old(self).commits_keyed(),
            final(self).tags_keyed() == old(self).tags_keyed(),
            final(self).mounts() == old(self).mounts(),
            final(self).objects() == old(self).objects(),
            match r {
                Ok(_) => final(self).worktree_rec(label@, worktree_name@) matches Some(w)
                    && w.worktree.last_committed is Some,
                Err(e) => e is NotFound && old(self).worktree_rec(label@, worktree_name@)
                    is None,
            },
    {
        let mut worktree = match self.load_worktree(label, worktree_name) {
            Ok(w) => w,
            Err(e) => {
                return Err(e);
            },
        };
        worktree.mark_committed();
        upsert2(
            &mut self.worktrees,
            String::from_str(label),
            String::from_str(worktree_name),
            worktree,
        );
        Ok(())
    }

    /// Removes a worktree; it must exist and must not be mounted.
    pub fn remove_worktree(&mut self, label: &str, worktree_name: &str) -> (r: Result<
        (),
        StratumError,
    >)
        requires
            old(self).wf(),
        ensures
            final(self).wf(),
            final(self).commits_keyed() == old(self).commits_keyed(),
            final(self).tags_keyed() == old(self).tags_keyed(),
            final(self).mounts() == old(self).mounts(),
            final(self).objects() == old(self).objects(),
            match r {
                Ok(_) => {
                    &&& old(self).worktree_rec(label@, worktree_name@) is Some
                    &&& !old(self).mounts().worktree_mounted(label@, worktree_name@)
                    &&& final(self).worktree_rec(label@, worktree_name@) is None
                    &&& forall|k: (Seq<char>, Seq<char>)|
                        k != (label@, worktree_name@) ==> #[trigger] kv_lookup(
                            final(self).worktrees_keyed(),
                            k,
                        ) == kv_lookup(old(self).worktrees_keyed(), k)
                },
                Err(e) => {
                    &&& final(self).worktrees_keyed() == old(self).worktrees_keyed()
                    &&& (if old(self).worktree_rec(label@, worktree_name@) is None {
                        e is NotFound
                    } else {
                        e is Busy && old(self).mounts().worktree_mounted(
                            label@,
                            worktree_name@,
                        )
                    })
                },
            },
    {
        if !self.worktree_exists(label, worktree_name) {
            return Err(
                StratumError::NotFound(
                    String::from_str("worktree does not exist: ").concat(worktree_name),
                ),
            );
        }
        let mounted = match self.state_manager.is_worktree_mounted(label, worktree_name) {
            Ok(b) => b,
            Err(e) => {
                return Err(StratumError::Io(e));
            },
        };
        if mounted {
            return Err(
                StratumError::Busy(
                    String::from_str("worktree is currently mounted: ").concat(worktree_name),
                ),
            );
        }
        remove2(&mut self.worktrees, label, worktree_name);
        Ok(())
    }

    /// Repins a worktree to a new base commit, given by any reference.  A
    /// worktree reference is rebased onto that worktree's own base; rebasing
    /// a worktree onto itself is refused, and the new base must exist.
    pub fn rebase_worktree(
        &mut self,
        label: &str,
        worktree_name: &str,
        new_base_commit: &StratumRef,
    ) -> (r: Result<String, StratumError>)
        requires
            old(self).wf(),
        ensures
            final(self).wf(),
            final(self).commits_keyed() == old(self).commits_keyed(),
            final(self).tags_keyed() == old(self).tags_keyed(),
            final(self).mounts() == old(self).mounts(),
            final(self).objects() == old(self).objects(),
            match r {
                Ok(id) => {
                    &&& old(self).worktree_rec(label@, worktree_name@) is Some
                    &&& old(self).commit_exists_spec(id@)
                    &&& (match *new_base_commit {
                        StratumRef::Commit(cid) => id@ == cid@,
                        StratumRef::Tag(t) => old(self).tag_target(label@, t@) matches Some(c)
                            && c@ == id@,
                        StratumRef::Worktree { label: l2, worktree: w2 } => !(l2@ == label@
                            && w2@ == worktree_name@) && (old(self).worktree_rec(l2@, w2@)
                            matches Some(w) && w.worktree.base_commit@ == id@),
                    })
                    &&& final(self).worktree_rec(label@, worktree_name@) matches Some(w)
                        && w.worktree.base_commit@ == id@
                    &&& forall|k: (Seq<char>, Seq<char>)|
                        k != (label@, worktree_name@) ==> #[trigger] kv_lookup(
                            final(self).worktrees_keyed(),
                            k,
                        ) == kv_lookup(old(self).worktrees_keyed(), k)
                },
                Err(e) => ({
                    &&& final(self).worktrees_keyed() == old(self).worktrees_keyed()
                    &&& (match old(self).worktree_rec(label@, worktree_name@) {
                        Option::None => e is NotFound,
                        Option::Some(_) => match *new_base_commit {
                            StratumRef::Commit(cid) => e is NotFound && !old(
                                self,
                            ).commit_exists_spec(cid@),
                            StratumRef::Tag(t) => (match old(self).tag_target(label@, t@) {
                                Option::None => e is NotFound,
                                Option::Some(c) => e is NotFound && !old(
                                    self,
                                ).commit_exists_spec(c@),
                            }),
                            StratumRef::Worktree { label: l2, worktree: w2 } => {
                                if l2@ == label@ && w2@ == worktree_name@ {
                                    e is InvalidInput
                                } else {
                                    match old(self).worktree_rec(l2@, w2@) {
                                        Option::None => e is NotFound,
                                        Option::Some(w) => e is NotFound && !old(
                                            self,
                                        ).commit_exists_spec(w.worktree.base_commit@),
                                    }
                                }
                            },
                        },
                    })
                }),
            },
    {
        let mut current = match self.load_worktree(label, worktree_name) {
            Ok(w) => w,
            Err(e) => {
                return Err(e);
            },
        };
        let new_base: String = match new_base_commit {
            StratumRef::Tag(t) => {
                match self.resolve_tag(label, t.as_str()) {
                    Ok(id) => id,
                    Err(e) => {
                        return Err(e);
                    },
                }
            },
            StratumRef::Commit(id) => id.clone(),
            StratumRef::Worktree { label: l2, worktree: w2 } => {
                if str_eq(l2.as_str(), label) && str_eq(w2.as_str(), worktree_name) {
                    return Err(
                        StratumError::InvalidInput(
                            String::from_str("cannot rebase a worktree onto itself"),
                        ),
                    );
                }
                let other = match self.load_worktree(l2.as_str(), w2.as_str()) {
                    Ok(w) => w,
                    Err(e) => {
                        return Err(e);
                    },
                };
                other.worktree.base_commit
            },
        };
        if !self.commit_exists(new_base.as_str()) {
            return Err(
                StratumError::NotFound(
                    String::from_str("new base commit does not exist: ").concat(
                        new_base.as_str(),
                    ),
                ),
            );
        }
        current.set_base_commit(new_base.clone());
        upsert2(
            &mut self.worktrees,
            String::from_str(label),
            String::from_str(worktree_name),
            current,
        );
        Ok(new_base)
    }

    /// Deletes a commit's record.  Deletion is refused exactly when some
    /// live mount still pins the commit.
    pub fn delete_commit(&mut self, commit_id: &str) -> (r: Result<(), StratumError>)
        requires
            old(self).wf(),
        ensures
            final(self).wf(),
            final(self).tags_keyed() == old(self).tags_keyed(),
            final(self).worktrees_keyed() == old(self).worktrees_keyed(),
            final(self).mounts() == old(self).mounts(),
            final(self).objects() == old(self).objects(),
            match r {
                Ok(_) => {
                    &&& !old(self).mounts().commit_mounted(commit_id@)
                    &&& final(self).commit_rec(commit_id@) is None
                    &&& forall|k: Seq<char>|
                        k != commit_id@ ==> #[trigger] final(self).commit_rec(k) == old(
                            self,
                        ).commit_rec(k)
                },
                Err(e) => {
                    &&& e is Busy
                    &&& old(self).mounts().commit_mounted(commit_id@)
                    &&& final(self).commits_keyed() == old(self).commits_keyed()
                },
            },
    {
        let mounted = match self.state_manager.get_commit_mounted(commit_id) {
            Ok(b) => b,
            Err(_) => false,
        };
        if mounted {
            return Err(
                StratumError::Busy(
                    String::from_str("cannot delete commit, it is currently mounted: ").concat(
                        commit_id,
                    ),
                ),
            );
        }
        remove1(&mut self.commits, commit_id);
        Ok(())
    }

    /// Registers one object blob for a commit in the refcount database:
    /// a fresh record is created when none decodes, and the commit id is
    /// added to the record's reference list.
    pub fn register_object(&mut self, commit_id: &str, object_id: &str, size: u64) -> (r: Result<
        (),
        StratumError,
    >)
        requires
            old(self).wf(),
        ensures
            final(self).wf(),
            final(self).commits_keyed() == old(self).commits_keyed(),
            final(self).tags_keyed() == old(self).tags_keyed(),
            final(self).worktrees_keyed() == old(self).worktrees_keyed(),
            final(self).mounts() == old(self).mounts(),
            r is Ok ==> ({
                let key = vstd::utf8::encode_utf8(object_id@);
                let cr = vstd::utf8::encode_utf8(commit_id@);
                match crate::objectdb::stored_meta(old(self).objects(), key) {
                    Option::Some(m) => final(self).objects() == old(self).objects().insert(
                        key,
                        crate::objectdb::encode_meta(
                            m.0,
                            m.1,
                            crate::objectdb::insert_ref(m.2, cr),
                        ),
                    ),
                    Option::None => exists|fresh_ts: u64|
                        #![trigger le_bytes_of(fresh_ts as int, 8)]
                        final(self).objects() == old(self).objects().insert(
                            key,
                            crate::objectdb::encode_meta(
                                size,
                                fresh_ts,
                                crate::objectdb::insert_ref(Seq::<Seq<u8>>::empty(), cr),
                            ),
                        ),
                }
            }),
    {
        match self.object_database.register_object(object_id, size, Some(commit_id)) {
            Ok(_) => Ok(()),
            Err(e) => Err(StratumError::Io(e)),
        }
    }

    /// Registers a list of objects for a commit, as enumerated from its
    /// image: each object id paired with its blob size.  Afterwards every
    /// listed object's record carries the commit in its reference list.
    pub fn register_objects(&mut self, commit_id: &str, objects: &Vec<(String, u64)>) -> (r:
        Result<(), StratumError>)
        requires
            old(self).wf(),
        ensures
            final(self).wf(),
            final(self).commits_keyed() == old(self).commits_keyed(),
            final(self).tags_keyed() == old(self).tags_keyed(),
            final(self).worktrees_keyed() == old(self).worktrees_keyed(),
            final(self).mounts() == old(self).mounts(),
            r is Ok ==> forall|j: int|
                0 <= j < objects@.len() ==> crate::objectdb::registered_with(
                    final(self).objects(),
                    vstd::utf8::encode_utf8((#[trigger] objects@[j]).0@),
                    vstd::utf8::encode_utf8(commit_id@),
                ),
    {
        let ghost cr = vstd::utf8::encode_utf8(commit_id@);
        let n = objects.len();
        let mut i: usize = 0;
        while i < n
            invariant
                0 <= i <= n,
                n == objects@.len(),
                cr == vstd::utf8::encode_utf8(commit_id@),
                self.wf(),
                self.commits_keyed() == old(self).commits_keyed(),
                self.tags_keyed() == old(self).tags_keyed(),
                self.worktrees_keyed() == old(self).worktrees_keyed(),
                self.mounts() == old(self).mounts(),
                forall|j: int|
                    0 <= j < i ==> crate::objectdb::registered_with(
                        self.objects(),
                        vstd::utf8::encode_utf8((#[trigger] objects@[j]).0@),
                        cr,
                    ),
            decreases n - i,
        {
            let ghost pre = self.objects();
            let row = &objects[i];
            match self.register_object(commit_id, row.0.as_str(), row.1) {
                Ok(_) => {},
                Err(e) => {
                    return Err(e);
                },
            }
            proof {
                let key = vstd::utf8::encode_utf8(objects@[i as int].0@);
                match crate::objectdb::stored_meta(pre, key) {
                    Option::Some(m) => {
                        let refs1 = crate::objectdb::insert_ref(m.2, cr);
                        crate::objectdb::lemma_insert_ref_contains(m.2, cr);
                        assert(self.objects()[key] == crate::objectdb::encode_meta(
                            m.0,
                            m.1,
                            refs1,
                        ));
                        assert(crate::objectdb::registered_with(self.objects(), key, cr));
                    },
                    Option::None => {
                        let fresh = choose|fresh_ts: u64|
                            #![trigger le_bytes_of(fresh_ts as int, 8)]
                            self.objects() == pre.insert(
                                key,
                                crate::objectdb::encode_meta(
                                    row.1,
                                    fresh_ts,
                                    crate::objectdb::insert_ref(
                                        Seq::<Seq<u8>>::empty(),
                                        cr,
                                    ),
                                ),
                            );
                        let refs1 = crate::objectdb::insert_ref(Seq::<Seq<u8>>::empty(), cr);
                        crate::objectdb::lemma_insert_ref_contains(
                            Seq::<Seq<u8>>::empty(),
                            cr,
                        );
                        assert(self.objects()[key] == crate::objectdb::encode_meta(
                            row.1,
                            fresh,
                            refs1,
                        ));
                        assert(crate::objectdb::registered_with(self.objects(), key, cr));
                    },
                }
                assert forall|j: int| 0 <= j < i + 1 implies crate::objectdb::registered_with(
                    self.objects(),
                    vstd::utf8::encode_utf8((#[trigger] objects@[j]).0@),
                    cr,
                ) by {
                    let kj = vstd::utf8::encode_utf8(objects@[j].0@);
                    if j < i && kj != key {
                        assert(crate::objectdb::registered_with(pre, kj, cr));
                        assert(self.objects()[kj] == pre[kj]);
                        let (s0, f0, r0) = choose|s0: u64, f0: u64, r0: Seq<Seq<u8>>|
                            #![trigger crate::objectdb::encode_meta(s0, f0, r0)]
                            pre[kj] == crate::objectdb::encode_meta(s0, f0, r0)
                                && r0.contains(cr);
                        assert(self.objects()[kj] == crate::objectdb::encode_meta(
                            s0,
                            f0,
                            r0,
                        ));
                    }
                }
            }
            i += 1;
        }
        Ok(())
    }

    /// Drops a commit's reference from one object's record.
    pub fn unregister_object(&mut self, object_id: &str, commit_id: &str) -> (r: Result<
        (),
        StratumError,
    >)
        requires
            old(self).wf(),
        ensures
            final(self).wf(),
            final(self).commits_keyed() == old(self).commits_keyed(),
            final(self).tags_keyed() == old(self).tags_keyed(),
            final(self).worktrees_keyed() == old(self).worktrees_keyed(),
            final(self).mounts() == old(self).mounts(),
            r is Ok ==> ({
                let key = vstd::utf8::encode_utf8(object_id@);
                if !old(self).objects().contains_key(key) {
                    final(self).objects() == old(self).objects()
                } else {
                    match crate::objectdb::decode_meta(old(self).objects()[key]) {
                        Option::Some(m) => {
                            let refs1 = crate::objectdb::remove_ref(
                                m.2,
                                vstd::utf8::encode_utf8(commit_id@),
                            );
                            if refs1.len() == 0 {
                                final(self).objects() == old(self).objects().remove(key)
                            } else {
                                final(self).objects() == old(self).objects().insert(
                                    key,
                                    crate::objectdb::encode_meta(m.0, m.1, refs1),
                                )
                            }
                        },
                        Option::None => false,
                    }
                }
            }),
    {
        match self.object_database.unregister_object(object_id, commit_id) {
            Ok(_) => Ok(()),
            Err(e) => Err(StratumError::Io(e)),
        }
    }

    /// Drops a commit's reference from each of the given objects' records;
    /// records whose last reference goes away are removed entirely, so
    /// after deleting a commit the objects only it referenced lose their
    /// refcount entries.
    pub fn unregister_objects(&mut self, commit_id: &str, objects: &Vec<String>) -> (r: Result<
        (),
        StratumError,
    >)
        requires
            old(self).wf(),
        ensures
            final(self).wf(),
            final(self).commits_keyed() == old(self).commits_keyed(),
            final(self).tags_keyed() == old(self).tags_keyed(),
            final(self).worktrees_keyed() == old(self).worktrees_keyed(),
            final(self).mounts() == old(self).mounts(),
            r is Ok ==> final(self).objects() == crate::objectdb::unregister_fold(
                old(self).objects(),
                vstd::utf8::encode_utf8(commit_id@),
                object_keys_of(objects@),
            ),
    {
        let ghost cr = vstd::utf8::encode_utf8(commit_id@);
        let ghost keys = object_keys_of(objects@);
        let n = objects.len();
        let mut i: usize = 0;
        proof {
            assert(keys.skip(0) =~= keys);
        }
        while i < n
            invariant
                0 <= i <= n,
                n == objects@.len(),
                keys == object_keys_of(objects@),
                cr == vstd::utf8::encode_utf8(commit_id@),
                self.wf(),
                self.commits_keyed() == old(self).commits_keyed(),
                self.tags_keyed() == old(self).tags_keyed(),
                self.worktrees_keyed() == old(self).worktrees_keyed(),
                self.mounts() == old(self).mounts(),
                crate::objectdb::unregister_fold(self.objects(), cr, keys.skip(i as int))
                    == crate::objectdb::unregister_fold(old(self).objects(), cr, keys),
            decreases n - i,
        {
            let ghost tail = keys.skip(i as int);
            let ghost pre = self.objects();
            proof {
                assert(tail.first() == keys[i as int]);
                assert(tail.drop_first() =~= keys.skip(i as int + 1));
            }
            match self.unregister_object(objects[i].as_str(), commit_id) {
                Ok(_) => {},
                Err(e) => {
                    return Err(e);
                },
            }
            proof {
                assert(self.objects() == crate::objectdb::unregister_step(
                    pre,
                    keys[i as int],
                    cr,
                )) by {
                    if pre.contains_key(keys[i as int]) {
                        if crate::objectdb::decode_meta(pre[keys[i as int]]) is None {
                            assert(false);
                        }
                    }
                }
            }
            i += 1;
        }
        proof {
            assert(keys.skip(n as int).len() == 0);
        }
        Ok(())
    }

    /// The record of one object in the refcount database: `None` for an
    /// absent key, otherwise the decoded size, timestamp and references.
    pub fn get_object_metadata(&self, object_id: &str) -> (r: Result<
        Option<crate::objectdb::ObjectMetadata>,
        StratumError,
    >)
        ensures
            match r {
                Ok(Some(meta)) => ({
                    &&& crate::objectdb::stored_meta(
                        self.objects(),
                        vstd::utf8::encode_utf8(object_id@),
                    ) matches Option::Some(m)
                    &&& meta.size == m.0
                    &&& meta.first_seen == m.1
                    &&& meta.commit_refs@.len() == m.2.len()
                    &&& forall|i: int|
                        0 <= i < m.2.len() ==> vstd::utf8::encode_utf8(
                            (#[trigger] meta.commit_refs@[i])@,
                        ) == m.2[i]
                }),
                Ok(None) => !self.objects().contains_key(
                    vstd::utf8::encode_utf8(object_id@),
                ),
                Err(_) => true,
            },
    {
        match self.object_database.get_object_metadata(object_id) {
            Ok(m) => Ok(m),
            Err(e) => Err(StratumError::Io(e)),
        }
    }

    /// The commit a reference denotes in this store, if it resolves.
    pub open spec fn resolved_commit_of(&self, sref: StratumRef) -> Option<Seq<char>> {
        match sref {
            StratumRef::Commit(c) => Option::Some(c@),
            StratumRef::Tag(t) => {
                let idx = first_index_of(t@, ':');
                let name = if idx < 0 {
                    t@
                } else {
                    t@.subrange(0, idx)
                };
                let tg = if idx < 0 {
                    default_tag()
                } else {
                    t@.subrange(idx + 1, t@.len() as int)
                };
                match self.tag_target(name, tg) {
                    Option::Some(c) => Option::Some(c@),
                    Option::None => Option::None,
                }
            },
            StratumRef::Worktree { label, worktree } => {
                match self.worktree_rec(label@, worktree@) {
                    Option::Some(w) => Option::Some(w.worktree.base_commit@),
                    Option::None => Option::None,
                }
            },
        }
    }

    /// Whether the given commit is pinned by a live mount.
    pub fn get_commit_mounted(&self, commit_id: &str) -> (r: Result<bool, StratumError>)
        ensures
            r matches Ok(b) && b == self.mounts().commit_mounted(commit_id@),
    {
        match self.state_manager.get_commit_mounted(commit_id) {
            Ok(b) => Ok(b),
            Err(e) => Err(StratumError::Io(e)),
        }
    }

    /// Whether the given worktree has a writable mount recorded.
    pub fn is_worktree_mounted(&self, label: &str, worktree_name: &str) -> (r: Result<
        bool,
        StratumError,
    >)
        requires
            self.wf(),
        ensures
            r matches Ok(b) && b == self.mounts().worktree_mounted(label@, worktree_name@),
    {
        match self.state_manager.is_worktree_mounted(label, worktree_name) {
            Ok(b) => Ok(b),
            Err(e) => Err(StratumError::Io(e)),
        }
    }

    /// The path the given worktree is mounted at, if any.
    pub fn get_worktree_mount_path(&self, label: &str, worktree_name: &str) -> (r: Result<
        Option<String>,
        StratumError,
    >)
        requires
            self.wf(),
        ensures
            r matches Ok(o) && (o is Some ==> self.mounts().worktree_mounted(
                label@,
                worktree_name@,
            )) && (o is None ==> !self.mounts().worktree_mounted(label@, worktree_name@)),
    {
        match self.state_manager.find_mount_by_worktree(label, worktree_name) {
            Ok(o) => Ok(o),
            Err(e) => Err(StratumError::Io(e)),
        }
    }

    /// The worktree name mounted at a path under the given label, if any.
    pub fn find_worktree_by_mount(&self, label: &str, mount_path: &str) -> (r: Result<
        Option<String>,
        StratumError,
    >)
        ensures
            r matches Ok(o) && (match o {
                Some(w) => self.mounts().mount_at(mount_path@) matches Some(m)
                    && crate::state::is_worktree_record(m, label@, w@),
                None => match self.mounts().mount_at(mount_path@) {
                    Some(m) => !(m.stratum_ref matches StratumMountRef::Worktree {
                        label: l,
                        worktree: _,
                    } && l@ == label@),
                    None => true,
                },
            }),
    {
        let rec = match self.state_manager.find_mount_by_path(mount_path) {
            Ok(o) => o,
            Err(e) => {
                return Err(StratumError::Io(e));
            },
        };
        match rec {
            Some(m) => {
                match &m.stratum_ref {
                    StratumMountRef::Worktree { label: l, worktree: w } => {
                        if str_eq(l.as_str(), label) {
                            Ok(Some(w.clone()))
                        } else {
                            Ok(None)
                        }
                    },
                    _ => Ok(None),
                }
            },
            None => Ok(None),
        }
    }

    /// Drops the registry record for a path.
    pub fn remove_mount_from_state(&mut self, mountpoint: &str) -> (r: Result<(), StratumError>)
        requires
            old(self).wf(),
        ensures
            final(self).wf(),
            final(self).commits_keyed() == old(self).commits_keyed(),
            final(self).tags_keyed() == old(self).tags_keyed(),
            final(self).worktrees_keyed() == old(self).worktrees_keyed(),
            final(self).objects() == old(self).objects(),
            r is Ok,
            final(self).mounts().mount_at(mountpoint@) is None,
            forall|p: Seq<char>|
                p != mountpoint@ ==> #[trigger] final(self).mounts().mount_at(p) == old(
                    self,
                ).mounts().mount_at(p),
    {
        match self.state_manager.remove_mount(mountpoint) {
            Ok(_) => Ok(()),
            Err(e) => Err(StratumError::Io(e)),
        }
    }

    /// Plans a mount of a reference at a canonical path.  A path that
    /// already carries a recorded mount needs no work.  A writable mount
    /// names a worktree, which must exist and must not already be mounted
    /// writable elsewhere.
    pub fn prepare_mount_ref(
        &self,
        sref: &StratumRef,
        canonical_mountpoint: &str,
        worktree: Option<&str>,
    ) -> (r: Result<MountAction, StratumError>)
        requires
            self.wf(),
        ensures
            match r {
                Ok(MountAction::AlreadyMounted) => self.mounts().mount_at(
                    canonical_mountpoint@,
                ) is Some,
                Ok(MountAction::Mount(plan)) => {
                    &&& self.mounts().mount_at(canonical_mountpoint@) is None
                    &&& self.resolved_commit_of(*sref) matches Some(cid) && plan.commit_id@
                        == cid
                    &&& plan.record.base_commit@ == plan.commit_id@
                    &&& plan.record.mount_point@ == canonical_mountpoint@
                    &&& (match worktree {
                        Some(w) => {
                            &&& !plan.read_only
                            &&& !plan.record.read_only
                            &&& plan.record.stratum_ref matches StratumMountRef::Worktree {
                                label: _,
                                worktree: pw,
                            } && pw@ == w@
                            &&& self.worktree_rec(mount_label_of(*sref), w@) is Some
                            &&& !self.mounts().worktree_mounted(
                                mount_label_of(*sref),
                                w@,
                            )
                        },
                        None => plan.read_only && plan.record.read_only
                            && plan.record.stratum_ref is Snapshot,
                    })
                },
                Err(e) => ({
                    &&& self.mounts().mount_at(canonical_mountpoint@) is None
                    &&& (match self.resolved_commit_of(*sref) {
                        Option::None => !(e is Busy),
                        Option::Some(_) => match worktree {
                            None => false,
                            Some(w) => (match self.worktree_rec(
                                mount_label_of(*sref),
                                w@,
                            ) {
                                Option::None => e is NotFound,
                                Option::Some(_) => e is Busy
                                    && self.mounts().worktree_mounted(
                                    mount_label_of(*sref),
                                    w@,
                                ),
                            }),
                        },
                    })
                }),
            },
    {
        let already = match self.state_manager.find_mount_by_path(canonical_mountpoint) {
            Ok(o) => o,
            Err(e) => {
                return Err(StratumError::Io(e));
            },
        };
        if let Some(_) = already {
            return Ok(MountAction::AlreadyMounted);
        }
        let cid = match self.resolve_commit_id_ref(sref) {
            Ok(c) => c,
            Err(e) => {
                return Err(e);
            },
        };
        let label: String = match sref {
            StratumRef::Worktree { label, .. } => label.clone(),
            _ => sref.to_ref_string(),
        };
        match worktree {
            Some(worktree_name) => {
                if !self.worktree_exists(label.as_str(), worktree_name) {
                    return Err(
                        StratumError::NotFound(
                            String::from_str("worktree does not exist: ").concat(worktree_name),
                        ),
                    );
                }
                let mounted = match self.state_manager.is_worktree_mounted(
                    label.as_str(),
                    worktree_name,
                ) {
                    Ok(b) => b,
                    Err(e) => {
                        return Err(StratumError::Io(e));
                    },
                };
                if mounted {
                    return Err(
                        StratumError::Busy(
                            String::from_str("worktree is already mounted writable: ").concat(
                                worktree_name,
                            ),
                        ),
                    );
                }
                let source_name = String::from_str("stratum:").concat(label.as_str()).concat(
                    "+",
                ).concat(worktree_name);
                let record = MountedStratum {
                    stratum_ref: StratumMountRef::Worktree {
                        label: label.clone(),
                        worktree: String::from_str(worktree_name),
                    },
                    mount_point: String::from_str(canonical_mountpoint),
                    read_only: false,
                    base_commit: cid.clone(),
                };
                Ok(
                    MountAction::Mount(
                        MountPlan { commit_id: cid, source_name, read_only: false, record },
                    ),
                )
            },
            None => {
                let ref_string = sref.to_ref_string();
                let source_name = String::from_str("stratum:").concat(ref_string.as_str());
                let record = MountedStratum {
                    stratum_ref: StratumMountRef::Snapshot(clone_stratum_ref_local(sref)),
                    mount_point: String::from_str(canonical_mountpoint),
                    read_only: true,
                    base_commit: cid.clone(),
                };
                Ok(
                    MountAction::Mount(
                        MountPlan { commit_id: cid, source_name, read_only: true, record },
                    ),
                )
            },
        }
    }

    /// Records a successfully performed mount in the registry.
    pub fn record_mount(&mut self, plan: &MountPlan) -> (r: Result<(), StratumError>)
        requires
            old(self).wf(),
        ensures
            final(self).wf(),
            final(self).commits_keyed() == old(self).commits_keyed(),
            final(self).tags_keyed() == old(self).tags_keyed(),
            final(self).worktrees_keyed() == old(self).worktrees_keyed(),
            final(self).objects() == old(self).objects(),
            r is Ok,
            final(self).mounts().mount_at(plan.record.mount_point@) == Option::Some(plan.record),
            forall|p: Seq<char>|
                p != plan.record.mount_point@ ==> #[trigger] final(self).mounts().mount_at(p)
                    == old(self).mounts().mount_at(p),
    {
        let record = crate::state::clone_record(&plan.record);
        let path = plan.record.mount_point.clone();
        match self.state_manager.add_mount(path, record) {
            Ok(_) => Ok(()),
            Err(e) => Err(StratumError::Io(e)),
        }
    }

    /// Checks that an unmount request targets a path this store manages:
    /// a path without a registry record is refused outright, whatever the
    /// system reports.  On a recorded path the result says whether a
    /// detach call is still needed.
    pub fn prepare_unmount(&self, canonical_mountpoint: &str, system_mounted: bool) -> (r: Result<
        bool,
        StratumError,
    >)
        ensures
            match r {
                Ok(do_unmount) => {
                    &&& self.mounts().mount_at(canonical_mountpoint@) is Some
                    &&& do_unmount == system_mounted
                },
                Err(e) => {
                    &&& e is NotFound
                    &&& self.mounts().mount_at(canonical_mountpoint@) is None
                },
            },
    {
        let rec = match self.state_manager.find_mount_by_path(canonical_mountpoint) {
            Ok(o) => o,
            Err(_) => None,
        };
        match rec {
            Some(_) => Ok(system_mounted),
            None => Err(
                StratumError::NotFound(
                    String::from_str("mount is not managed by this store: ").concat(
                        canonical_mountpoint,
                    ),
                ),
            ),
        }
    }

    /// Removes the registry record after a successful unmount.
    pub fn record_unmount(&mut self, canonical_mountpoint: &str) -> (r: Result<(), StratumError>)
        requires
            old(self).wf(),
        ensures
            final(self).wf(),
            final(self).commits_keyed() == old(self).commits_keyed(),
            final(self).tags_keyed() == old(self).tags_keyed(),
            final(self).worktrees_keyed() == old(self).worktrees_keyed(),
            final(self).objects() == old(self).objects(),
            r is Ok,
            final(self).mounts().mount_at(canonical_mountpoint@) is None,
            forall|p: Seq<char>|
                p != canonical_mountpoint@ ==> #[trigger] final(self).mounts().mount_at(p) == old(
                    self,
                ).mounts().mount_at(p),
    {
        self.remove_mount_from_state(canonical_mountpoint)
    }

    /// All recorded mounts.
    pub fn get_all_mounts(&self) -> (r: Result<Vec<(String, MountedStratum)>, StratumError>)
        ensures
            r matches Ok(v) && v@ == self.mounts().rows(),
    {
        match self.state_manager.get_all_mounts() {
            Ok(v) => Ok(v),
            Err(e) => Err(StratumError::Io(e)),
        }
    }

    /// Whether a commit's metadata is present and plausible: it exists,
    /// carries a Merkle root, and none of its objects is missing.
    pub fn verify_commit(&self, commit_id: &str, missing_objects: &Vec<String>) -> (r: Result<
        bool,
        StratumError,
    >)
        ensures
            match r {
                Ok(b) => b == (self.commit_rec(commit_id@) matches Some(c)
                    && c.commit.merkle_root@.len() > 0 && missing_objects@.len() == 0),
                Err(e) => e is NotFound && !self.commit_exists_spec(commit_id@),
            },
    {
        let commit = match self.load_commit(commit_id) {
            Ok(c) => c,
            Err(e) => {
                return Err(e);
            },
        };
        Ok(commit.commit.merkle_root.unicode_len() > 0 && missing_objects.len() == 0)
    }


    /// Composes a base commit with a patch tree into a new commit.  The
    /// derived id is a function of the base's identity and file count and
    /// of the patch tree alone; the base's contents are never re-read.
    /// The overlay's total size, obtained by walking the composed view, is
    /// supplied by the caller.
    pub fn union_patch_commit(
        &mut self,
        label: &str,
        patch: &FsNode,
        base_commit: &str,
        transient: bool,
        overlay_total_size: u64,
    ) -> (r: Result<String, StratumError>)
        requires
            old(self).wf(),
        ensures
            final(self).wf(),
            final(self).tags_keyed() == old(self).tags_keyed(),
            final(self).worktrees_keyed() == old(self).worktrees_keyed(),
            final(self).mounts() == old(self).mounts(),
            final(self).objects() == old(self).objects(),
            match r {
                Ok(id) => ({
                    &&& old(self).commit_rec(base_commit@) matches Some(base) && ({
                        &&& patch is Dir
                        &&& decodes_to_digest(base.commit.metadata_hash@)
                        &&& decodes_to_digest(base.commit.merkle_root@)
                        &&& base.files.count + file_chunks_of(*patch).len() <= u64::MAX
                        &&& base.files.count + file_chunks_of(*patch).len() <= usize::MAX
                        &&& id@ == derived_commit_id_of(
                            digest_of_field(base.commit.metadata_hash@),
                            digest_of_field(base.commit.merkle_root@),
                            base.files.count,
                            *patch,
                        )
                        &&& id@.len() == 64
                        &&& final(self).commit_rec(id@) matches Some(c) && ({
                            &&& c.commit.metadata_hash@ == id@
                            &&& c.commit.merkle_root@ == hex_of(
                                combined_merkle_of(
                                    digest_of_field(base.commit.merkle_root@),
                                    file_chunks_of(*patch),
                                ),
                            )
                            &&& c.commit.parent_commit matches Some(p) && p@ == base_commit@
                            &&& c.files.count == base.files.count + file_chunks_of(
                                *patch,
                            ).len()
                            &&& c.files.total_size == overlay_total_size
                            &&& c.merkle.leaf_count == c.files.count
                            &&& c.merkle.tree_depth == merkle_depth_of(c.files.count as int)
                        })
                        &&& forall|k: Seq<char>|
                            k != id@ ==> #[trigger] final(self).commit_rec(k) == old(
                                self,
                            ).commit_rec(k)
                    })
                }),
                Err(e) => ({
                    &&& final(self).commits_keyed() == old(self).commits_keyed()
                    &&& (match old(self).commit_rec(base_commit@) {
                        Option::None => e is NotFound,
                        Option::Some(base) => {
                            if !decodes_to_digest(base.commit.metadata_hash@) {
                                e is Integrity
                            } else if !decodes_to_digest(base.commit.merkle_root@) {
                                e is Integrity
                            } else if !(patch is Dir) {
                                e is InvalidInput
                            } else {
                                e is InvalidInput && (base.files.count + file_chunks_of(
                                    *patch,
                                ).len() > u64::MAX || base.files.count + file_chunks_of(
                                    *patch,
                                ).len() > usize::MAX)
                            }
                        },
                    })
                }),
            },
    {
        let base = match get1(&self.commits, base_commit) {
            Some(c) => clone_commit(c),
            None => {
                return Err(
                    StratumError::NotFound(
                        String::from_str("base commit does not exist: ").concat(base_commit),
                    ),
                );
            },
        };
        let base_id_bytes = match base.metadata_hash_bytes() {
            Ok(b) => b,
            Err(_) => {
                return Err(
                    StratumError::Integrity(
                        String::from_str("base commit id is not a valid digest"),
                    ),
                );
            },
        };
        let base_merkle_bytes = match base.merkle_root_bytes() {
            Ok(b) => b,
            Err(_) => {
                return Err(
                    StratumError::Integrity(
                        String::from_str("base commit merkle root is not a valid digest"),
                    ),
                );
            },
        };
        let patch_chunks = match crate::fstree::collect_file_chunks(patch) {
            Ok(c) => c,
            Err(e) => {
                return Err(e);
            },
        };
        let patch_digest = match crate::fstree::hash_directory_tree(patch) {
            Ok(d) => d,
            Err(e) => {
                return Err(e);
            },
        };
        // the patch contribution: a digest over all patch chunks
        let mut contrib_input: Vec<u8> = Vec::new();
        append_marker_patch_chunks(&mut contrib_input);
        let ghost ci0 = contrib_input@;
        append_concat_chunks(&mut contrib_input, &patch_chunks);
        let patch_contribution = sha256(contrib_input.as_slice());
        // the combined Merkle root
        let mut combined_input: Vec<u8> = Vec::new();
        append_marker_combined_merkle(&mut combined_input);
        let ghost cm0 = combined_input@;
        combined_input.extend_from_slice(base_merkle_bytes.as_slice());
        combined_input.extend_from_slice(patch_contribution.as_slice());
        proof {
            assert(combined_input@ =~= marker_combined_merkle() + base_merkle_bytes@
                + patch_contribution@);
        }
        let combined_merkle = sha256(combined_input.as_slice());
        // chunk counts: the base's files stand in as synthetic chunks
        let patch_count = patch_chunks.len() as u64;
        if base.files.count > u64::MAX - patch_count {
            return Err(
                StratumError::InvalidInput(String::from_str("combined chunk count overflows")),
            );
        }
        let total_count: u64 = base.files.count + patch_count;
        if total_count > usize::MAX as u64 {
            return Err(
                StratumError::InvalidInput(String::from_str("combined chunk count overflows")),
            );
        }
        // the derived identity
        let mut id_input: Vec<u8> = Vec::new();
        append_marker_derived_commit(&mut id_input);
        let ghost di0 = id_input@;
        id_input.extend_from_slice(base_id_bytes.as_slice());
        id_input.extend_from_slice(patch_digest.as_slice());
        id_input.extend_from_slice(combined_merkle.as_slice());
        let mut count_bytes = crate::bytes::le64(total_count);
        id_input.append(&mut count_bytes);
        proof {
            assert(id_input@ =~= marker_derived_commit() + base_id_bytes@ + patch_digest@
                + combined_merkle@ + crate::bytes::le64_of(total_count));
            assert(crate::bytes::le64_of(total_count) == le_bytes_of(
                base.files.count + file_chunks_of(*patch).len(),
                8,
            ));
        }
        let id_bytes = sha256(id_input.as_slice());
        let commit_id = hex_encode(id_bytes.as_slice());
        proof {
            crate::hashing::lemma_hex_of_len(id_bytes@);
        }
        let leaf_count: usize = total_count as usize;
        let depth = merkle_tree_depth(leaf_count);
        let commit = Commit::new(
            &id_bytes,
            &combined_merkle,
            total_count,
            overlay_total_size,
            leaf_count,
            depth,
            Some(String::from_str(base_commit)),
        );
        let _ = transient;  // object registration is a separate step
        let _ = label;  // the ref directory is the binary's concern
        upsert1(&mut self.commits, commit_id.clone(), commit);
        Ok(commit_id)
    }

    /// Resolves a reference to a commit id, as `resolved_commit_of`
    /// denotes: a commit id stands for itself, a tag is looked up under its
    /// label (defaulting to `latest`), and a worktree yields its base
    /// commit.
    pub fn resolve_commit_id_ref(&self, sref: &StratumRef) -> (r: Result<String, StratumError>)
        ensures
            match r {
                Ok(id) => self.resolved_commit_of(*sref) == Option::Some(id@),
                Err(e) => self.resolved_commit_of(*sref) is None && !(e is Busy),
            },
    {
        match sref {
            StratumRef::Commit(id) => Ok(id.clone()),
            StratumRef::Tag(t) => {
                proof {
                    crate::refs::lemma_first_index_of(t@, ':');
                }
                let parsed = match parse_label(t.as_str()) {
                    Ok(p) => p,
                    Err(e) => {
                        return Err(StratumError::InvalidInput(e));
                    },
                };
                let (name, tag_opt) = parsed;
                let tag = match tag_opt {
                    Some(tg) => tg,
                    None => String::from_str("latest"),
                };
                self.resolve_tag(name.as_str(), tag.as_str())
            },
            StratumRef::Worktree { label, worktree } => {
                let w = match self.load_worktree(label.as_str(), worktree.as_str()) {
                    Ok(w) => w,
                    Err(e) => {
                        return Err(e);
                    },
                };
                Ok(w.worktree.base_commit)
            },
        }
    }
}

/// Appending a slash-free suffix to a string that is empty or ends with a
/// slash makes the suffix the final path component.
pub proof fn lemma_final_component_append(s: Seq<char>, t: Seq<char>)
    requires
        s.len() == 0 || s.last() == '/',
        forall|i: int| 0 <= i < t.len() ==> t[i] != '/',
    ensures
        final_component_of(s + t) == t,
    decreases s.len(),
{
    crate::refs::lemma_first_index_of(s + t, '/');
    if s.len() == 0 {
        assert(s + t =~= t);
        if first_index_of(t, '/') != -1 {
            crate::refs::lemma_first_index_of(t, '/');
            assert(t[first_index_of(t, '/')] == '/');
            assert(false);
        }
    } else {
        let u = s + t;
        assert(u[s.len() - 1] == '/');
        let idx = first_index_of(u, '/');
        assert(idx != -1);
        assert(0 <= idx < u.len());
        assert(idx <= s.len() - 1) by {
            if idx > s.len() - 1 {
                assert(u[s.len() - 1] != '/');
            }
        }
        assert(u.skip(idx + 1) =~= s.skip(idx + 1) + t);
        let s1 = s.skip(idx + 1);
        assert(s1.len() == 0 || s1.last() == '/') by {
            if s1.len() > 0 {
                assert(s1.last() == s.last());
            }
        }
        lemma_final_component_append(s1, t);
    }
}

/// Tag round trip at the link level: the final path component of the
/// relative link written for a commit id is that id again, for any id free
/// of slashes — resolving a tag is a single read of its link.
pub proof fn lemma_tag_link_round_trip(id: Seq<char>)
    requires
        forall|i: int| 0 <= i < id.len() ==> id[i] != '/',
    ensures
        final_component_of(tag_link_target_of(id)) == id,
{
    reveal_strlit("../../../commits/");
    let s = "../../../commits/"@;
    assert(s.len() == 17);
    assert(s.last() == '/');
    lemma_final_component_append(s, id);
}

/// The database keys of a list of object ids: their UTF-8 bytes.
pub open spec fn object_keys_of(objects: Seq<String>) -> Seq<Seq<u8>> {
    Seq::new(objects.len(), |i: int| vstd::utf8::encode_utf8(objects[i]@))
}

/// The label a writable mount is filed under: the reference's own label
/// for a worktree reference, its textual form otherwise.
pub open spec fn mount_label_of(sref: StratumRef) -> Seq<char> {
    match sref {
        StratumRef::Worktree { label, .. } => label@,
        StratumRef::Commit(id) => id@,
        StratumRef::Tag(t) => t@,
    }
}


fn append_marker_patch_chunks(buf: &mut Vec<u8>)
    ensures
        final(buf)@ == old(buf)@ + marker_patch_chunks(),
{
    let ghost buf0 = buf@;
    buf.push(80u8);
    buf.push(65u8);
    buf.push(84u8);
    buf.push(67u8);
    buf.push(72u8);
    buf.push(95u8);
    buf.push(67u8);
    buf.push(72u8);
    buf.push(85u8);
    buf.push(78u8);
    buf.push(75u8);
    buf.push(83u8);
    assert(buf@ =~= buf0 + marker_patch_chunks());
}

fn append_marker_combined_merkle(buf: &mut Vec<u8>)
    ensures
        final(buf)@ == old(buf)@ + marker_combined_merkle(),
{
    let ghost buf0 = buf@;
    buf.push(67u8);
    buf.push(79u8);
    buf.push(77u8);
    buf.push(66u8);
    buf.push(73u8);
    buf.push(78u8);
    buf.push(69u8);
    buf.push(68u8);
    buf.push(95u8);
    buf.push(77u8);
    buf.push(69u8);
    buf.push(82u8);
    buf.push(75u8);
    buf.push(76u8);
    buf.push(69u8);
    buf.push(95u8);
    buf.push(82u8);
    buf.push(79u8);
    buf.push(79u8);
    buf.push(84u8);
    assert(buf@ =~= buf0 + marker_combined_merkle());
}

fn append_marker_derived_commit(buf: &mut Vec<u8>)
    ensures
        final(buf)@ == old(buf)@ + marker_derived_commit(),
{
    let ghost buf0 = buf@;
    buf.push(68u8);
    buf.push(69u8);
    buf.push(82u8);
    buf.push(73u8);
    buf.push(86u8);
    buf.push(69u8);
    buf.push(68u8);
    buf.push(95u8);
    buf.push(67u8);
    buf.push(79u8);
    buf.push(77u8);
    buf.push(77u8);
    buf.push(73u8);
    buf.push(84u8);
    assert(buf@ =~= buf0 + marker_derived_commit());
}

fn append_concat_chunks(buf: &mut Vec<u8>, chunks: &Vec<Vec<u8>>)
    ensures
        final(buf)@ == old(buf)@ + concat_chunks(chunks.deep_view()),
{
    let n = chunks.len();
    let mut i: usize = 0;
    proof {
        assert(chunks.deep_view().skip(0) =~= chunks.deep_view());
    }
    while i < n
        invariant
            0 <= i <= n,
            n == chunks@.len(),
            old(buf)@ + concat_chunks(chunks.deep_view()) == buf@ + concat_chunks(
                chunks.deep_view().skip(i as int),
            ),
        decreases n - i,
    {
        let ghost tail = chunks.deep_view().skip(i as int);
        let ghost buf0 = buf@;
        proof {
            assert(tail.first() == chunks.deep_view()[i as int]);
            assert(chunks.deep_view()[i as int] =~= chunks@[i as int]@);
            assert(tail.drop_first() =~= chunks.deep_view().skip(i as int + 1));
        }
        buf.extend_from_slice(chunks[i].as_slice());
        proof {
            assert(buf@ =~= buf0 + tail.first());
            assert(concat_chunks(tail) == tail.first() + concat_chunks(tail.drop_first()));
        }
        i += 1;
    }
    proof {
        assert(concat_chunks(chunks.deep_view().skip(n as int)) == Seq::<u8>::empty());
        assert(buf@ + Seq::<u8>::empty() =~= buf@);
    }
}

/// An exact copy of a stratum reference.
fn clone_stratum_ref_local(r: &StratumRef) -> (c: StratumRef)
    ensures
        c == *r,
{
    match r {
        StratumRef::Commit(id) => StratumRef::Commit(id.clone()),
        StratumRef::Tag(t) => StratumRef::Tag(t.clone()),
        StratumRef::Worktree { label, worktree } => StratumRef::Worktree {
            label: label.clone(),
            worktree: worktree.clone(),
        },
    }
}

impl StratumRef {
    /// Resolves this reference to a commit id against a store.
    pub fn resolve_commit_id(&self, store: &Store) -> (r: Result<String, String>)
        ensures
            match r {
                Ok(id) => store.resolved_commit_of(*self) == Option::Some(id@),
                Err(_) => store.resolved_commit_of(*self) is None,
            },
    {
        match store.resolve_commit_id_ref(self) {
            Ok(id) => Ok(id),
            Err(e) => Err(e.message()),
        }
    }
}

} // verus!

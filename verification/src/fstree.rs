//! In-memory model of a directory tree and its content digest.
//!
//! A tree holds, as plain values, exactly what the digest reads: names and
//! symlink targets as byte strings, file contents, and for special files
//! only their metadata.  Symlinks carry their target path and are never
//! followed, and device nodes carry no contents at all, so hashing is total
//! and terminates on every tree, however the links on disk point.
//!
//! The digest feeds, for each entry in order: the entry's path relative to
//! the root, a 0x00 separator, a type marker, and the type's fields; a
//! subdirectory contributes its own digest recursively.  The chunk list
//! pairs each non-directory entry's relative path with a hash of its
//! content (or target, or metadata), sorted lexicographically.

use vstd::prelude::*;

use crate::bytes::{le_bytes, le_bytes_of, lex_le, lex_sorted, sort_byte_strings};
use crate::errors::StratumError;
use crate::hashing::{sha256, sha256_of};

verus! {

/// Ownership and permission metadata common to every entry.
#[derive(Clone, Copy, PartialEq, Eq, Structural, Debug)]
pub struct FsMeta {
    pub mode: u32,
    pub uid: u32,
    pub gid: u32,
}

/// The kinds of special (non-regular, non-directory, non-symlink) files.
#[derive(Clone, Copy, PartialEq, Eq, Structural, Debug)]
pub enum SpecialKind {
    BlockDevice,
    CharDevice,
    Fifo,
    Socket,
    OtherSpecial,
}

/// One node of the tree.  File names on Linux are byte strings, so names
/// and symlink targets are byte vectors.
pub enum FsNode {
    Dir { meta: FsMeta, entries: Vec<FsEntry> },
    File { meta: FsMeta, content: Vec<u8> },
    Symlink { meta: FsMeta, target: Vec<u8> },
    Special { kind: SpecialKind, meta: FsMeta, size: u64, rdev: u64 },
}

/// A named entry of a directory.
pub struct FsEntry {
    pub name: Vec<u8>,
    pub node: FsNode,
}

/// The three metadata fields, each as four little-endian bytes.
pub open spec fn meta_bytes(meta: FsMeta) -> Seq<u8> {
    le_bytes_of(meta.mode as int, 4) + le_bytes_of(meta.uid as int, 4) + le_bytes_of(
        meta.gid as int,
        4,
    )
}

/// Type marker fed into the digest for a directory ("DIR").
pub open spec fn marker_dir() -> Seq<u8> {
    seq![68u8, 73u8, 82u8]
}

/// Type marker for a regular file ("FILE").
pub open spec fn marker_file() -> Seq<u8> {
    seq![70u8, 73u8, 76u8, 69u8]
}

/// Type marker for a symlink ("SYMLINK").
pub open spec fn marker_symlink() -> Seq<u8> {
    seq![83u8, 89u8, 77u8, 76u8, 73u8, 78u8, 75u8]
}

/// Type marker for a special file, by kind ("BLOCK_DEVICE", "CHAR_DEVICE",
/// "FIFO", "SOCKET", "OTHER_SPECIAL").
pub open spec fn marker_special(kind: SpecialKind) -> Seq<u8> {
    match kind {
        SpecialKind::BlockDevice => seq![
            66u8, 76u8, 79u8, 67u8, 75u8, 95u8, 68u8, 69u8, 86u8, 73u8, 67u8, 69u8,
        ],
        SpecialKind::CharDevice => seq![
            67u8, 72u8, 65u8, 82u8, 95u8, 68u8, 69u8, 86u8, 73u8, 67u8, 69u8,
        ],
        SpecialKind::Fifo => seq![70u8, 73u8, 70u8, 79u8],
        SpecialKind::Socket => seq![83u8, 79u8, 67u8, 75u8, 69u8, 84u8],
        SpecialKind::OtherSpecial => seq![
            79u8, 84u8, 72u8, 69u8, 82u8, 95u8, 83u8, 80u8, 69u8, 67u8, 73u8, 65u8, 76u8,
        ],
    }
}

/// Whether a special file carries a device number.
pub open spec fn has_device_number(kind: SpecialKind) -> bool {
    kind == SpecialKind::BlockDevice || kind == SpecialKind::CharDevice
}

/// The path of an entry named `name` under the directory at `prefix`,
/// relative to the root.
pub open spec fn rel_path_of(prefix: Seq<u8>, name: Seq<u8>) -> Seq<u8> {
    if prefix.len() == 0 {
        name
    } else {
        prefix + seq![47u8] + name  // 47 is '/'
    }
}

/// The bytes a node feeds into its parent directory's digest, after the
/// path and separator: marker, metadata, and the node's own data.  A
/// subdirectory contributes the digest of its entries, computed against its
/// own path `rel`.
pub open spec fn node_digest_fields(node: FsNode, rel: Seq<u8>) -> Seq<u8>
    decreases node,
{
    match node {
        FsNode::Dir { meta, entries } => marker_dir() + meta_bytes(meta) + sha256_of(
            dir_digest_input(entries@, rel),
        ),
        FsNode::File { meta, content } => marker_file() + meta_bytes(meta) + le_bytes_of(
            content@.len() as int,
            8,
        ) + content@,
        FsNode::Symlink { meta, target } => marker_symlink() + meta_bytes(meta) + target@,
        FsNode::Special { kind, meta, size, rdev } => marker_special(kind) + meta_bytes(meta)
            + le_bytes_of(size as int, 8) + (if has_device_number(kind) {
            le_bytes_of(rdev as int, 8)
        } else {
            Seq::<u8>::empty()
        }),
    }
}

/// The byte stream hashed for a directory whose path relative to the root
/// is `prefix`: for each entry in order, its relative path, a 0x00
/// separator, and its fields.
pub open spec fn dir_digest_input(entries: Seq<FsEntry>, prefix: Seq<u8>) -> Seq<u8>
    decreases entries,
{
    if entries.len() == 0 {
        Seq::<u8>::empty()
    } else {
        let e = entries.first();
        let rel = rel_path_of(prefix, e.name@);
        rel + seq![0u8] + node_digest_fields(e.node, rel) + dir_digest_input(
            entries.drop_first(),
            prefix,
        )
    }
}

/// The digest of a whole tree rooted at a directory.
pub open spec fn tree_digest(root: FsNode) -> Seq<u8>
    recommends
        root is Dir,
{
    sha256_of(dir_digest_input(root->Dir_entries@, Seq::<u8>::empty()))
}

/// The content hash recorded in the chunk of a non-directory node.
pub open spec fn chunk_content_hash(node: FsNode) -> Seq<u8> {
    match node {
        FsNode::Dir { .. } => Seq::<u8>::empty(),  // directories have no chunk
        FsNode::File { content, .. } => sha256_of(content@),
        FsNode::Symlink { target, .. } => sha256_of(
            marker_symlink() + seq![58u8] + target@,
        ),  // "SYMLINK:"
        FsNode::Special { kind, meta, size, rdev } => sha256_of(
            marker_special(kind) + seq![58u8] + (if has_device_number(kind) {
                le_bytes_of(rdev as int, 8)
            } else {
                Seq::<u8>::empty()
            }) + meta_bytes(meta) + le_bytes_of(size as int, 8),
        ),
    }
}

/// The chunks of a directory's entries in traversal order, before sorting:
/// one chunk per non-directory entry, `relpath ++ 0x00 ++ content-hash`;
/// subdirectories recurse.
pub open spec fn chunks_of_entries(entries: Seq<FsEntry>, prefix: Seq<u8>) -> Seq<Seq<u8>>
    decreases entries,
{
    if entries.len() == 0 {
        Seq::<Seq<u8>>::empty()
    } else {
        let e = entries.first();
        let rel = rel_path_of(prefix, e.name@);
        (match e.node {
            FsNode::Dir { entries: kids, .. } => chunks_of_entries(kids@, rel),
            _ => seq![rel + seq![0u8] + chunk_content_hash(e.node)],
        }) + chunks_of_entries(entries.drop_first(), prefix)
    }
}

/// The unsorted chunk list of a tree rooted at a directory.
pub open spec fn raw_chunks_of(root: FsNode) -> Seq<Seq<u8>>
    recommends
        root is Dir,
{
    chunks_of_entries(root->Dir_entries@, Seq::<u8>::empty())
}

/// The chunk list of a tree: the raw chunks sorted lexicographically.
/// This is the unique sorted permutation of `raw_chunks_of`.
pub open spec fn file_chunks_of(root: FsNode) -> Seq<Seq<u8>> {
    raw_chunks_of(root).sort_by(|a: Seq<u8>, b: Seq<u8>| lex_le(a, b))
}

/// The sorted chunk list is sorted and is a permutation of the raw chunks.
pub proof fn lemma_file_chunks_of_properties(root: FsNode)
    ensures
        lex_sorted(file_chunks_of(root)),
        file_chunks_of(root).to_multiset() == raw_chunks_of(root).to_multiset(),
{
    let leq = |a: Seq<u8>, b: Seq<u8>| lex_le(a, b);
    assert forall|a: Seq<u8>, b: Seq<u8>| #[trigger] leq(a, b) || leq(b, a) by {
        crate::bytes::lemma_lex_le_total(a, b);
    }
    assert(vstd::relations::total_ordering(leq)) by {
        assert(vstd::relations::antisymmetric(leq)) by {
            assert forall|a: Seq<u8>, b: Seq<u8>| #[trigger] leq(a, b) && #[trigger] leq(b, a)
                implies a == b by {
                crate::bytes::lemma_lex_le_antisymmetric(a, b);
            }
        }
        assert(vstd::relations::transitive(leq)) by {
            assert forall|a: Seq<u8>, b: Seq<u8>, c: Seq<u8>|
                #[trigger] leq(a, b) && #[trigger] leq(b, c) implies leq(a, c) by {
                crate::bytes::lemma_lex_le_transitive(a, b, c);
            }
        }
    }
    raw_chunks_of(root).lemma_sort_by_ensures(leq);
    let sorted = file_chunks_of(root);
    assert(vstd::relations::sorted_by(sorted, leq));
    assert forall|i: int, j: int| 0 <= i < j < sorted.len() implies lex_le(
        #[trigger] sorted[i],
        #[trigger] sorted[j],
    ) by {
        assert(leq(sorted[i], sorted[j]));
    }
}

fn append_meta(buf: &mut Vec<u8>, meta: &FsMeta)
    ensures
        final(buf)@ == old(buf)@ + meta_bytes(*meta),
{
    let ghost buf0 = buf@;
    let mut m = le_bytes(meta.mode as u64, 4);
    buf.append(&mut m);
    let mut u = le_bytes(meta.uid as u64, 4);
    buf.append(&mut u);
    let mut g = le_bytes(meta.gid as u64, 4);
    buf.append(&mut g);
    assert(buf@ =~= buf0 + meta_bytes(*meta));
}

fn append_marker_dir(buf: &mut Vec<u8>)
    ensures
        final(buf)@ == old(buf)@ + marker_dir(),
{
    let ghost buf0 = buf@;
    buf.push(68u8);
    buf.push(73u8);
    buf.push(82u8);
    assert(buf@ =~= buf0 + marker_dir());
}

fn append_marker_file(buf: &mut Vec<u8>)
    ensures
        final(buf)@ == old(buf)@ + marker_file(),
{
    let ghost buf0 = buf@;
    buf.push(70u8);
    buf.push(73u8);
    buf.push(76u8);
    buf.push(69u8);
    assert(buf@ =~= buf0 + marker_file());
}

fn append_marker_symlink(buf: &mut Vec<u8>)
    ensures
        final(buf)@ == old(buf)@ + marker_symlink(),
{
    let ghost buf0 = buf@;
    buf.push(83u8);
    buf.push(89u8);
    buf.push(77u8);
    buf.push(76u8);
    buf.push(73u8);
    buf.push(78u8);
    buf.push(75u8);
    assert(buf@ =~= buf0 + marker_symlink());
}

fn append_marker_special(buf: &mut Vec<u8>, kind: &SpecialKind)
    ensures
        final(buf)@ == old(buf)@ + marker_special(*kind),
{
    let ghost buf0 = buf@;
    match kind {
        SpecialKind::BlockDevice => {
            buf.push(66u8);
            buf.push(76u8);
            buf.push(79u8);
            buf.push(67u8);
            buf.push(75u8);
            buf.push(95u8);
            buf.push(68u8);
            buf.push(69u8);
            buf.push(86u8);
            buf.push(73u8);
            buf.push(67u8);
            buf.push(69u8);
        },
        SpecialKind::CharDevice => {
            buf.push(67u8);
            buf.push(72u8);
            buf.push(65u8);
            buf.push(82u8);
            buf.push(95u8);
            buf.push(68u8);
            buf.push(69u8);
            buf.push(86u8);
            buf.push(73u8);
            buf.push(67u8);
            buf.push(69u8);
        },
        SpecialKind::Fifo => {
            buf.push(70u8);
            buf.push(73u8);
            buf.push(70u8);
            buf.push(79u8);
        },
        SpecialKind::Socket => {
            buf.push(83u8);
            buf.push(79u8);
            buf.push(67u8);
            buf.push(75u8);
            buf.push(69u8);
            buf.push(84u8);
        },
        SpecialKind::OtherSpecial => {
            buf.push(79u8);
            buf.push(84u8);
            buf.push(72u8);
            buf.push(69u8);
            buf.push(82u8);
            buf.push(95u8);
            buf.push(83u8);
            buf.push(80u8);
            buf.push(69u8);
            buf.push(67u8);
            buf.push(73u8);
            buf.push(65u8);
            buf.push(76u8);
        },
    }
    assert(buf@ =~= buf0 + marker_special(*kind));
}

/// Builds the relative path of an entry.
fn rel_path_exec(prefix: &Vec<u8>, name: &Vec<u8>) -> (r: Vec<u8>)
    ensures
        r@ == rel_path_of(prefix@, name@),
{
    let mut r: Vec<u8> = Vec::new();
    if prefix.len() == 0 {
        r.extend_from_slice(name.as_slice());
        assert(r@ =~= name@);
    } else {
        r.extend_from_slice(prefix.as_slice());
        r.push(47u8);
        r.extend_from_slice(name.as_slice());
        assert(r@ =~= prefix@ + seq![47u8] + name@);
    }
    r
}

fn node_digest_fields_exec(node: &FsNode, rel: &Vec<u8>) -> (r: Vec<u8>)
    ensures
        r@ == node_digest_fields(*node, rel@),
    decreases *node,
{
    let mut buf: Vec<u8> = Vec::new();
    match node {
        FsNode::Dir { meta, entries } => {
            append_marker_dir(&mut buf);
            append_meta(&mut buf, meta);
            let inner = dir_digest_input_exec(entries, rel);
            let ghost buf0 = buf@;
            let mut digest = sha256(inner.as_slice());
            buf.append(&mut digest);
            assert(buf@ =~= buf0 + sha256_of(dir_digest_input(entries@, rel@)));
        },
        FsNode::File { meta, content } => {
            append_marker_file(&mut buf);
            append_meta(&mut buf, meta);
            let ghost buf0 = buf@;
            let mut sz = le_bytes(content.len() as u64, 8);
            buf.append(&mut sz);
            buf.extend_from_slice(content.as_slice());
            assert(buf@ =~= buf0 + le_bytes_of(content@.len() as int, 8) + content@);
        },
        FsNode::Symlink { meta, target } => {
            append_marker_symlink(&mut buf);
            append_meta(&mut buf, meta);
            let ghost buf0 = buf@;
            buf.extend_from_slice(target.as_slice());
            assert(buf@ =~= buf0 + target@);
        },
        FsNode::Special { kind, meta, size, rdev } => {
            append_marker_special(&mut buf, kind);
            append_meta(&mut buf, meta);
            let ghost buf0 = buf@;
            let mut sz = le_bytes(*size, 8);
            buf.append(&mut sz);
            if matches!(kind, SpecialKind::BlockDevice | SpecialKind::CharDevice) {
                let mut dev = le_bytes(*rdev, 8);
                buf.append(&mut dev);
                assert(buf@ =~= buf0 + le_bytes_of(*size as int, 8) + le_bytes_of(
                    *rdev as int,
                    8,
                ));
            } else {
                assert(buf@ =~= buf0 + le_bytes_of(*size as int, 8) + Seq::<u8>::empty());
            }
        },
    }
    assert(buf@ =~= node_digest_fields(*node, rel@));
    buf
}

fn dir_digest_input_exec(entries: &Vec<FsEntry>, prefix: &Vec<u8>) -> (r: Vec<u8>)
    ensures
        r@ == dir_digest_input(entries@, prefix@),
    decreases entries@,
{
    let mut buf: Vec<u8> = Vec::new();
    let n = entries.len();
    let mut i: usize = 0;
    proof {
        assert(entries@.skip(0) =~= entries@);
    }
    while i < n
        invariant
            0 <= i <= n,
            n == entries@.len(),
            dir_digest_input(entries@, prefix@) == buf@ + dir_digest_input(
                entries@.skip(i as int),
                prefix@,
            ),
        decreases n - i,
    {
        let ghost tail = entries@.skip(i as int);
        let e = &entries[i];
        let rel = rel_path_exec(prefix, &e.name);
        let ghost buf0 = buf@;
        buf.extend_from_slice(rel.as_slice());
        buf.push(0u8);
        let mut fields = node_digest_fields_exec(&e.node, &rel);
        buf.append(&mut fields);
        proof {
            assert(tail.first() == entries@[i as int]);
            assert(tail.drop_first() =~= entries@.skip(i as int + 1));
            assert(dir_digest_input(tail, prefix@) == rel@ + seq![0u8] + node_digest_fields(
                entries@[i as int].node,
                rel@,
            ) + dir_digest_input(tail.drop_first(), prefix@));
            assert(buf@ =~= buf0 + (rel@ + seq![0u8] + node_digest_fields(
                entries@[i as int].node,
                rel@,
            )));
        }
        i += 1;
    }
    proof {
        assert(dir_digest_input(entries@.skip(n as int), prefix@) == Seq::<u8>::empty());
        assert(buf@ + Seq::<u8>::empty() =~= buf@);
    }
    buf
}

/// Computes the digest of the directory tree rooted at `root`.  A root that
/// is not a directory is rejected as invalid input; the digest never reads
/// the contents of devices or the targets of symlinks, which the tree does
/// not even hold.
pub fn hash_directory_tree(root: &FsNode) -> (r: Result<Vec<u8>, StratumError>)
    ensures
        match r {
            Ok(h) => root is Dir && h@ == tree_digest(*root) && h@.len() == 32,
            Err(e) => !(root is Dir) && e is InvalidInput,
        },
{
    match root {
        FsNode::Dir { entries, .. } => {
            let empty_prefix: Vec<u8> = Vec::new();
            let input = dir_digest_input_exec(entries, &empty_prefix);
            Ok(sha256(input.as_slice()))
        },
        _ => Err(
            StratumError::InvalidInput(String::from_str("input path is not a directory")),
        ),
    }
}

fn chunk_content_hash_exec(node: &FsNode) -> (r: Vec<u8>)
    requires
        !(node is Dir),
    ensures
        r@ == chunk_content_hash(*node),
{
    match node {
        FsNode::Dir { .. } => {
            // unreachable under the precondition
            proof {
                assert(false);
            }
            Vec::new()
        },
        FsNode::File { content, .. } => sha256(content.as_slice()),
        FsNode::Symlink { target, .. } => {
            let mut buf: Vec<u8> = Vec::new();
            append_marker_symlink(&mut buf);
            let ghost buf0 = buf@;
            buf.push(58u8);
            buf.extend_from_slice(target.as_slice());
            assert(buf@ =~= marker_symlink() + seq![58u8] + target@);
            sha256(buf.as_slice())
        },
        FsNode::Special { kind, meta, size, rdev } => {
            let mut buf: Vec<u8> = Vec::new();
            append_marker_special(&mut buf, kind);
            let ghost buf0 = buf@;
            buf.push(58u8);
            if matches!(kind, SpecialKind::BlockDevice | SpecialKind::CharDevice) {
                let mut dev = le_bytes(*rdev, 8);
                buf.append(&mut dev);
                assert(buf@ =~= buf0 + seq![58u8] + le_bytes_of(*rdev as int, 8));
            } else {
                assert(buf@ =~= buf0 + seq![58u8] + Seq::<u8>::empty());
            }
            append_meta(&mut buf, meta);
            let ghost buf1 = buf@;
            let mut sz = le_bytes(*size, 8);
            buf.append(&mut sz);
            assert(buf@ =~= buf1 + le_bytes_of(*size as int, 8));
            assert(buf@ =~= marker_special(*kind) + seq![58u8] + (if has_device_number(*kind) {
                le_bytes_of(*rdev as int, 8)
            } else {
                Seq::<u8>::empty()
            }) + meta_bytes(*meta) + le_bytes_of(*size as int, 8));
            sha256(buf.as_slice())
        },
    }
}

fn collect_chunks_exec(entries: &Vec<FsEntry>, prefix: &Vec<u8>, acc: &mut Vec<Vec<u8>>)
    ensures
        final(acc).deep_view() == old(acc).deep_view() + chunks_of_entries(entries@, prefix@),
    decreases entries@,
{
    let n = entries.len();
    let mut i: usize = 0;
    proof {
        assert(entries@.skip(0) =~= entries@);
        assert(acc.deep_view() + Seq::<Seq<u8>>::empty() =~= acc.deep_view());
    }
    while i < n
        invariant
            0 <= i <= n,
            n == entries@.len(),
            old(acc).deep_view() + chunks_of_entries(entries@, prefix@) == acc.deep_view()
                + chunks_of_entries(entries@.skip(i as int), prefix@),
        decreases n - i,
    {
        let ghost tail = entries@.skip(i as int);
        let ghost acc0 = acc.deep_view();
        let e = &entries[i];
        let rel = rel_path_exec(prefix, &e.name);
        proof {
            assert(tail.first() == entries@[i as int]);
            assert(tail.drop_first() =~= entries@.skip(i as int + 1));
        }
        match &e.node {
            FsNode::Dir { entries: kids, .. } => {
                collect_chunks_exec(kids, &rel, acc);
                proof {
                    assert(chunks_of_entries(tail, prefix@) == chunks_of_entries(
                        e.node->Dir_entries@,
                        rel@,
                    ) + chunks_of_entries(tail.drop_first(), prefix@));
                }
            },
            other => {
                let mut chunk = rel;
                chunk.push(0u8);
                let mut h = chunk_content_hash_exec(other);
                chunk.append(&mut h);
                proof {
                    assert(chunk@ =~= rel_path_of(prefix@, entries@[i as int].name@) + seq![0u8]
                        + chunk_content_hash(entries@[i as int].node));
                    assert(chunks_of_entries(tail, prefix@) == seq![chunk@] + chunks_of_entries(
                        tail.drop_first(),
                        prefix@,
                    ));
                }
                acc.push(chunk);
                proof {
                    assert(acc.deep_view() =~~= acc0.push(chunk@));
                    assert(acc0.push(chunk@) =~= acc0 + seq![chunk@]);
                }
            },
        }
        i += 1;
    }
    proof {
        assert(chunks_of_entries(entries@.skip(n as int), prefix@) == Seq::<Seq<u8>>::empty());
        assert(acc.deep_view() + Seq::<Seq<u8>>::empty() =~= acc.deep_view());
    }
}

/// Collects the file-content chunks of the tree rooted at `root`, sorted
/// lexicographically.  A root that is not a directory is invalid input.
pub fn collect_file_chunks(root: &FsNode) -> (r: Result<Vec<Vec<u8>>, StratumError>)
    ensures
        match r {
            Ok(chunks) => root is Dir && chunks.deep_view() == file_chunks_of(*root),
            Err(e) => !(root is Dir) && e is InvalidInput,
        },
{
    match root {
        FsNode::Dir { entries, .. } => {
            let empty_prefix: Vec<u8> = Vec::new();
            let mut raw: Vec<Vec<u8>> = Vec::new();
            collect_chunks_exec(entries, &empty_prefix, &mut raw);
            proof {
                assert(Seq::<Seq<u8>>::empty() + chunks_of_entries(
                    root->Dir_entries@,
                    Seq::<u8>::empty(),
                ) =~= chunks_of_entries(root->Dir_entries@, Seq::<u8>::empty()));
            }
            let sorted = sort_byte_strings(raw);
            proof {
                lemma_file_chunks_of_properties(*root);
                crate::bytes::lemma_lex_sorted_unique(sorted.deep_view(), file_chunks_of(*root));
            }
            Ok(sorted)
        },
        _ => Err(StratumError::InvalidInput(String::from_str("path is not a directory"))),
    }
}

/// The total size of a tree's entries: file contents plus symlink targets;
/// special files are not counted.
pub open spec fn total_size_of(entries: Seq<FsEntry>) -> int
    decreases entries,
{
    if entries.len() == 0 {
        0int
    } else {
        (match entries.first().node {
            FsNode::Dir { entries: kids, .. } => total_size_of(kids@),
            FsNode::File { content, .. } => content@.len() as int,
            FsNode::Symlink { target, .. } => target@.len() as int,
            FsNode::Special { .. } => 0int,
        }) + total_size_of(entries.drop_first())
    }
}

proof fn lemma_total_size_nonneg(entries: Seq<FsEntry>)
    ensures
        total_size_of(entries) >= 0,
    decreases entries,
{
    if entries.len() != 0 {
        lemma_total_size_nonneg(entries.drop_first());
        match entries.first().node {
            FsNode::Dir { entries: kids, .. } => {
                lemma_total_size_nonneg(kids@);
            },
            _ => {},
        }
    }
}

fn total_size_exec(entries: &Vec<FsEntry>) -> (r: Result<u64, StratumError>)
    ensures
        match r {
            Ok(sz) => sz as int == total_size_of(entries@),
            Err(e) => total_size_of(entries@) > u64::MAX && e is InvalidInput,
        },
    decreases entries@,
{
    let n = entries.len();
    let mut i: usize = 0;
    let mut acc: u64 = 0;
    proof {
        assert(entries@.skip(0) =~= entries@);
    }
    while i < n
        invariant
            0 <= i <= n,
            n == entries@.len(),
            total_size_of(entries@) == acc + total_size_of(entries@.skip(i as int)),
        decreases n - i,
    {
        let ghost tail = entries@.skip(i as int);
        proof {
            assert(tail.first() == entries@[i as int]);
            assert(tail.drop_first() =~= entries@.skip(i as int + 1));
            lemma_total_size_nonneg(tail.drop_first());
        }
        let e = &entries[i];
        let part: u64 = match &e.node {
            FsNode::Dir { entries: kids, .. } => {
                proof {
                    lemma_total_size_nonneg(kids@);
                }
                match total_size_exec(kids) {
                    Ok(sz) => sz,
                    Err(err) => {
                        return Err(err);
                    },
                }
            },
            FsNode::File { content, .. } => content.len() as u64,
            FsNode::Symlink { target, .. } => target.len() as u64,
            FsNode::Special { .. } => 0u64,
        };
        if acc > u64::MAX - part {
            return Err(
                StratumError::InvalidInput(String::from_str("directory tree size overflows")),
            );
        }
        acc = acc + part;
        i += 1;
    }
    proof {
        assert(total_size_of(entries@.skip(n as int)) == 0);
    }
    Ok(acc)
}

/// Computes the total size in bytes of the tree rooted at `root`: the sum
/// of all file contents and symlink target lengths.  Rejects a root that is
/// not a directory, and a total that does not fit in 64 bits.
pub fn calculate_total_size(root: &FsNode) -> (r: Result<u64, StratumError>)
    ensures
        match r {
            Ok(sz) => root is Dir && sz as int == total_size_of(root->Dir_entries@),
            Err(e) => e is InvalidInput && (!(root is Dir) || total_size_of(root->Dir_entries@)
                > u64::MAX),
        },
{
    match root {
        FsNode::Dir { entries, .. } => total_size_exec(entries),
        _ => Err(StratumError::InvalidInput(String::from_str("path is not a directory"))),
    }
}

/// The number of chunks (non-directory entries) of a tree.
pub open spec fn file_count_of(root: FsNode) -> int {
    raw_chunks_of(root).len() as int
}

} // verus!

//! Registry of live mounts.
//!
//! The registry maps each canonical mount path to a record of what is
//! mounted there.  It backs the safety rules of the store: unmounting is
//! refused on unrecorded paths, a commit cannot be deleted while a record
//! pins it, and a worktree has at most one writable mount at a time.
//! Persisting the registry to its tmpfs-backed file is the binary's job;
//! the registry itself is plain data.

use vstd::prelude::*;
use vstd::utf8::encode_utf8;

use crate::bytes::{le_bytes, le_bytes_of, le64_read, lemma_le_reencode};
use crate::errors::StratumError;
use crate::refs::{str_eq, StratumRef};

verus! {

/// What a mount record points at.
#[derive(Debug, Clone)]
pub enum StratumMountRef {
    /// A writable worktree of a label.
    Worktree { label: String, worktree: String },
    /// A read-only snapshot of a reference.
    Snapshot(StratumRef),
}

/// One live mount.
#[derive(Debug, Clone)]
pub struct MountedStratum {
    /// What is mounted.
    pub stratum_ref: StratumMountRef,
    /// The canonical path it is mounted at.
    pub mount_point: String,
    /// Whether the mount is read-only; worktree mounts are writable.
    pub read_only: bool,
    /// The commit backing the mount, pinning it against deletion.
    pub base_commit: String,
}

/// Whether a record is a writable mount of the given worktree.
pub open spec fn is_worktree_record(m: MountedStratum, label: Seq<char>, worktree: Seq<char>) -> bool {
    m.stratum_ref matches StratumMountRef::Worktree { label: l, worktree: w } && l@ == label
        && w@ == worktree
}

/// The mount table: canonical path to record, each path at most once.
#[derive(Debug, Clone)]
pub struct StratumState {
    mounts: Vec<(String, MountedStratum)>,
}

/// First record stored under `path`, if any.
pub open spec fn lookup_mount(s: Seq<(String, MountedStratum)>, path: Seq<char>) -> Option<
    MountedStratum,
>
    decreases s.len(),
{
    if s.len() == 0 {
        Option::None
    } else if s.first().0@ == path {
        Option::Some(s.first().1)
    } else {
        lookup_mount(s.drop_first(), path)
    }
}

impl StratumState {
    /// The stored pairs, in insertion order.
    pub closed spec fn rows(&self) -> Seq<(String, MountedStratum)> {
        self.mounts@
    }

    /// Paths are unique.
    pub open spec fn wf(&self) -> bool {
        forall|i: int, j: int|
            0 <= i < j < self.rows().len() ==> (#[trigger] self.rows()[i]).0@ != (
            #[trigger] self.rows()[j]).0@
    }

    /// The record mounted at `path`, if any.
    pub open spec fn mount_at(&self, path: Seq<char>) -> Option<MountedStratum> {
        lookup_mount(self.rows(), path)
    }

    /// Whether some record pins `commit_id` as its base commit.
    pub open spec fn commit_mounted(&self, commit_id: Seq<char>) -> bool {
        exists|i: int|
            0 <= i < self.rows().len() && (#[trigger] self.rows()[i]).1.base_commit@ == commit_id
    }

    /// Whether some record is a writable mount of the worktree.
    pub open spec fn worktree_mounted(&self, label: Seq<char>, worktree: Seq<char>) -> bool {
        exists|i: int|
            0 <= i < self.rows().len() && is_worktree_record(
                (#[trigger] self.rows()[i]).1,
                label,
                worktree,
            )
    }

    /// An empty table.
    pub fn empty() -> (r: StratumState)
        ensures
            r.rows().len() == 0,
            r.wf(),
    {
        StratumState { mounts: Vec::new() }
    }
}

proof fn lemma_lookup_some(s: Seq<(String, MountedStratum)>, path: Seq<char>, i: int)
    requires
        0 <= i < s.len(),
        s[i].0@ == path,
        forall|j: int| 0 <= j < i ==> (#[trigger] s[j]).0@ != path,
    ensures
        lookup_mount(s, path) == Option::Some(s[i].1),
    decreases s.len(),
{
    if i > 0 {
        assert(s.first().0@ != path);
        let rest = s.drop_first();
        assert(forall|j: int| 0 <= j < i - 1 ==> (#[trigger] rest[j]).0@ != path);
        lemma_lookup_some(rest, path, i - 1);
    }
}

proof fn lemma_lookup_none(s: Seq<(String, MountedStratum)>, path: Seq<char>)
    requires
        forall|j: int| 0 <= j < s.len() ==> (#[trigger] s[j]).0@ != path,
    ensures
        lookup_mount(s, path) is None,
    decreases s.len(),
{
    if s.len() > 0 {
        lemma_lookup_none(s.drop_first(), path);
    }
}

proof fn lemma_lookup_none_keys(s: Seq<(String, MountedStratum)>, path: Seq<char>)
    requires
        lookup_mount(s, path) is None,
    ensures
        forall|j: int| 0 <= j < s.len() ==> (#[trigger] s[j]).0@ != path,
    decreases s.len(),
{
    if s.len() > 0 {
        lemma_lookup_none_keys(s.drop_first(), path);
        assert(forall|j: int| 1 <= j < s.len() ==> #[trigger] s[j] == s.drop_first()[j - 1]);
    }
}

proof fn lemma_lookup_mount_witness(s: Seq<(String, MountedStratum)>, path: Seq<char>)
    requires
        lookup_mount(s, path) is Some,
    ensures
        exists|i: int|
            0 <= i < s.len() && (#[trigger] s[i]).0@ == path && s[i].1 == lookup_mount(
                s,
                path,
            )->Some_0,
    decreases s.len(),
{
    if s.len() > 0 {
        if s.first().0@ == path {
            assert(s[0].0@ == path && s[0].1 == lookup_mount(s, path)->Some_0);
        } else {
            lemma_lookup_mount_witness(s.drop_first(), path);
            let i = choose|i: int|
                0 <= i < s.drop_first().len() && (#[trigger] s.drop_first()[i]).0@ == path
                    && s.drop_first()[i].1 == lookup_mount(s.drop_first(), path)->Some_0;
            assert(s[i + 1].0@ == path && s[i + 1].1 == lookup_mount(s, path)->Some_0);
        }
    }
}

/// Worktree exclusion: once a writable mount of a worktree is recorded at
/// some path, the registry reports that worktree as mounted, so a second
/// writable mount of the same worktree is refused while the first record
/// lives.
pub proof fn lemma_recorded_worktree_is_mounted(
    s: StratumState,
    path: Seq<char>,
    label: Seq<char>,
    worktree: Seq<char>,
)
    requires
        s.mount_at(path) matches Some(m) && is_worktree_record(m, label, worktree),
    ensures
        s.worktree_mounted(label, worktree),
{
    lemma_lookup_mount_witness(s.rows(), path);
    let i = choose|i: int|
        0 <= i < s.rows().len() && (#[trigger] s.rows()[i]).0@ == path && s.rows()[i].1
            == s.mount_at(path)->Some_0;
    assert(is_worktree_record(s.rows()[i].1, label, worktree));
}


/// The encoding of one string in the state file: its UTF-8 length, then
/// its UTF-8 bytes.
pub open spec fn enc_str(s: Seq<char>) -> Seq<u8> {
    le_bytes_of(encode_utf8(s).len() as int, 8) + encode_utf8(s)
}

/// The encoding of a reference: a variant byte, then its strings.
pub open spec fn enc_sref(r: StratumRef) -> Seq<u8> {
    match r {
        StratumRef::Commit(id) => seq![0u8] + enc_str(id@),
        StratumRef::Tag(t) => seq![1u8] + enc_str(t@),
        StratumRef::Worktree { label, worktree } => seq![2u8] + enc_str(label@) + enc_str(
            worktree@,
        ),
    }
}

/// The encoding of what a record points at.
pub open spec fn enc_mount_ref(m: StratumMountRef) -> Seq<u8> {
    match m {
        StratumMountRef::Worktree { label, worktree } => seq![0u8] + enc_str(label@) + enc_str(
            worktree@,
        ),
        StratumMountRef::Snapshot(r) => seq![1u8] + enc_sref(r),
    }
}

/// The encoding of one mount record.
pub open spec fn enc_record(m: MountedStratum) -> Seq<u8> {
    enc_mount_ref(m.stratum_ref) + enc_str(m.mount_point@) + seq![
        if m.read_only {
            1u8
        } else {
            0u8
        },
    ] + enc_str(m.base_commit@)
}

/// The encoding of the registry rows, in order.
pub open spec fn enc_rows(rows: Seq<(String, MountedStratum)>) -> Seq<u8>
    decreases rows.len(),
{
    if rows.len() == 0 {
        Seq::<u8>::empty()
    } else {
        enc_str(rows.first().0@) + enc_record(rows.first().1) + enc_rows(rows.drop_first())
    }
}

/// The state file's contents for a registry: the row count, then each
/// path/record pair.
pub open spec fn encode_state(rows: Seq<(String, MountedStratum)>) -> Seq<u8> {
    le_bytes_of(rows.len() as int, 8) + enc_rows(rows)
}

proof fn lemma_enc_rows_snoc(rows: Seq<(String, MountedStratum)>, row: (String, MountedStratum))
    ensures
        enc_rows(rows.push(row)) == enc_rows(rows) + enc_str(row.0@) + enc_record(row.1),
    decreases rows.len(),
{
    if rows.len() == 0 {
        assert(rows.push(row).first() == row);
        assert(rows.push(row).drop_first() =~= Seq::<(String, MountedStratum)>::empty());
        assert(enc_rows(rows) == Seq::<u8>::empty());
        assert(enc_rows(rows.push(row).drop_first()) == Seq::<u8>::empty());
        assert(enc_rows(rows.push(row)) == enc_str(row.0@) + enc_record(row.1) + enc_rows(
            rows.push(row).drop_first(),
        ));
        assert(enc_rows(rows.push(row)) =~= enc_rows(rows) + enc_str(row.0@) + enc_record(row.1));
    } else {
        assert(rows.push(row).first() == rows.first());
        assert(rows.push(row).drop_first() =~= rows.drop_first().push(row));
        lemma_enc_rows_snoc(rows.drop_first(), row);
        assert(enc_rows(rows.push(row)) == enc_str(rows.first().0@) + enc_record(rows.first().1)
            + enc_rows(rows.drop_first().push(row)));
        assert(enc_rows(rows) == enc_str(rows.first().0@) + enc_record(rows.first().1)
            + enc_rows(rows.drop_first()));
        assert(enc_rows(rows.push(row)) =~= enc_rows(rows) + enc_str(row.0@) + enc_record(row.1));
    }
}

fn append_str(buf: &mut Vec<u8>, s: &str)
    ensures
        final(buf)@ == old(buf)@ + enc_str(s@),
{
    let ghost buf0 = buf@;
    let b = s.as_bytes_vec();
    let mut l = le_bytes(b.len() as u64, 8);
    buf.append(&mut l);
    buf.extend_from_slice(b.as_slice());
    proof {
        assert(buf@ =~= buf0 + enc_str(s@));
    }
}

fn append_sref(buf: &mut Vec<u8>, r: &StratumRef)
    ensures
        final(buf)@ == old(buf)@ + enc_sref(*r),
{
    let ghost buf0 = buf@;
    match r {
        StratumRef::Commit(id) => {
            buf.push(0u8);
            append_str(buf, id.as_str());
        },
        StratumRef::Tag(t) => {
            buf.push(1u8);
            append_str(buf, t.as_str());
        },
        StratumRef::Worktree { label, worktree } => {
            buf.push(2u8);
            append_str(buf, label.as_str());
            append_str(buf, worktree.as_str());
        },
    }
    proof {
        assert(buf@ =~= buf0 + enc_sref(*r));
    }
}

fn append_record(buf: &mut Vec<u8>, m: &MountedStratum)
    ensures
        final(buf)@ == old(buf)@ + enc_record(*m),
{
    let ghost buf0 = buf@;
    match &m.stratum_ref {
        StratumMountRef::Worktree { label, worktree } => {
            buf.push(0u8);
            append_str(buf, label.as_str());
            append_str(buf, worktree.as_str());
        },
        StratumMountRef::Snapshot(r) => {
            buf.push(1u8);
            append_sref(buf, r);
        },
    }
    append_str(buf, m.mount_point.as_str());
    buf.push(if m.read_only {
        1u8
    } else {
        0u8
    });
    append_str(buf, m.base_commit.as_str());
    proof {
        assert(buf@ =~= buf0 + enc_record(*m));
    }
}

/// Builds the state file's bytes for a list of registry rows.
pub fn encode_state_file(rows: &Vec<(String, MountedStratum)>) -> (r: Vec<u8>)
    ensures
        r@ == encode_state(rows@),
{
    let mut buf: Vec<u8> = Vec::new();
    let mut head = le_bytes(rows.len() as u64, 8);
    buf.append(&mut head);
    let n = rows.len();
    let mut i: usize = 0;
    proof {
        assert(rows@.skip(0) =~= rows@);
    }
    while i < n
        invariant
            0 <= i <= n,
            n == rows@.len(),
            encode_state(rows@) == buf@ + enc_rows(rows@.skip(i as int)),
        decreases n - i,
    {
        let ghost tail = rows@.skip(i as int);
        let ghost buf0 = buf@;
        proof {
            assert(tail.first() == rows@[i as int]);
            assert(tail.drop_first() =~= rows@.skip(i as int + 1));
        }
        let row = &rows[i];
        append_str(&mut buf, row.0.as_str());
        append_record(&mut buf, &row.1);
        proof {
            assert(buf@ =~= buf0 + (enc_str(rows@[i as int].0@) + enc_record(
                rows@[i as int].1,
            )));
            assert(enc_rows(tail) == enc_str(tail.first().0@) + enc_record(tail.first().1)
                + enc_rows(tail.drop_first()));
        }
        i += 1;
    }
    proof {
        assert(enc_rows(rows@.skip(n as int)) == Seq::<u8>::empty());
        assert(buf@ + Seq::<u8>::empty() =~= buf@);
    }
    buf
}

fn dec_str(bytes: &Vec<u8>, pos: usize) -> (r: Result<(String, usize), StratumError>)
    requires
        pos <= bytes@.len(),
    ensures
        r matches Ok(sp) ==> pos + 8 <= sp.1 <= bytes@.len() && bytes@.subrange(
            pos as int,
            sp.1 as int,
        ) == enc_str(sp.0@),
{
    if bytes.len() - pos < 8 {
        return Err(StratumError::InvalidInput(String::from_str("truncated state file")));
    }
    let len_bytes = vstd::slice::slice_subrange(bytes.as_slice(), pos, pos + 8);
    let l64 = le64_read(len_bytes);
    if l64 > (bytes.len() - pos - 8) as u64 {
        return Err(StratumError::InvalidInput(String::from_str("truncated state file")));
    }
    let l = l64 as usize;
    let chunk = vstd::slice::slice_subrange(bytes.as_slice(), pos + 8, pos + 8 + l);
    let s = match crate::objectdb::bytes_to_string(chunk) {
        Ok(s) => s,
        Err(e) => {
            return Err(e);
        },
    };
    let end = pos + 8 + l;
    proof {
        lemma_le_reencode(bytes@.subrange(pos as int, pos as int + 8));
        assert(le_bytes_of(l64 as int, 8) == bytes@.subrange(pos as int, pos as int + 8));
        assert(encode_utf8(s@) == chunk@);
        assert(encode_utf8(s@).len() == l64 as int);
        assert(bytes@.subrange(pos as int, end as int) =~= bytes@.subrange(
            pos as int,
            pos as int + 8,
        ) + bytes@.subrange(pos as int + 8, end as int));
        assert(bytes@.subrange(pos as int, end as int) =~= enc_str(s@));
    }
    Ok((s, end))
}

fn dec_sref(bytes: &Vec<u8>, pos: usize) -> (r: Result<(StratumRef, usize), StratumError>)
    requires
        pos <= bytes@.len(),
    ensures
        r matches Ok(sp) ==> pos < sp.1 <= bytes@.len() && bytes@.subrange(
            pos as int,
            sp.1 as int,
        ) == enc_sref(sp.0),
{
    if pos >= bytes.len() {
        return Err(StratumError::InvalidInput(String::from_str("truncated state file")));
    }
    let tag = bytes[pos];
    if tag == 0 {
        let (id, p) = match dec_str(bytes, pos + 1) {
            Ok(v) => v,
            Err(e) => {
                return Err(e);
            },
        };
        proof {
            assert(bytes@.subrange(pos as int, p as int) =~= seq![bytes@[pos as int]]
                + bytes@.subrange(pos as int + 1, p as int));
        }
        Ok((StratumRef::Commit(id), p))
    } else if tag == 1 {
        let (t, p) = match dec_str(bytes, pos + 1) {
            Ok(v) => v,
            Err(e) => {
                return Err(e);
            },
        };
        proof {
            assert(bytes@.subrange(pos as int, p as int) =~= seq![bytes@[pos as int]]
                + bytes@.subrange(pos as int + 1, p as int));
        }
        Ok((StratumRef::Tag(t), p))
    } else if tag == 2 {
        let (label, p1) = match dec_str(bytes, pos + 1) {
            Ok(v) => v,
            Err(e) => {
                return Err(e);
            },
        };
        let (worktree, p2) = match dec_str(bytes, p1) {
            Ok(v) => v,
            Err(e) => {
                return Err(e);
            },
        };
        proof {
            assert(bytes@.subrange(pos as int, p2 as int) =~= seq![bytes@[pos as int]]
                + bytes@.subrange(pos as int + 1, p1 as int) + bytes@.subrange(
                p1 as int,
                p2 as int,
            ));
        }
        Ok((StratumRef::Worktree { label, worktree }, p2))
    } else {
        Err(StratumError::InvalidInput(String::from_str("malformed state file")))
    }
}

/// Parses one path/record pair.
#[verifier::rlimit(60)]
fn dec_row(bytes: &Vec<u8>, pos: usize) -> (r: Result<((String, MountedStratum), usize), StratumError>)
    requires
        pos <= bytes@.len(),
    ensures
        r matches Ok(rp) ==> pos < rp.1 <= bytes@.len() && bytes@.subrange(
            pos as int,
            rp.1 as int,
        ) == enc_str(rp.0.0@) + enc_record(rp.0.1),
{
    let (path, p1) = match dec_str(bytes, pos) {
        Ok(v) => v,
        Err(e) => {
            return Err(e);
        },
    };
    if p1 >= bytes.len() {
        return Err(StratumError::InvalidInput(String::from_str("truncated state file")));
    }
    let tag = bytes[p1];
    let (stratum_ref, p2) = if tag == 0 {
        let (label, q1) = match dec_str(bytes, p1 + 1) {
            Ok(v) => v,
            Err(e) => {
                return Err(e);
            },
        };
        let (worktree, q2) = match dec_str(bytes, q1) {
            Ok(v) => v,
            Err(e) => {
                return Err(e);
            },
        };
        proof {
            assert(bytes@.subrange(p1 as int, q2 as int) =~= seq![bytes@[p1 as int]]
                + bytes@.subrange(p1 as int + 1, q1 as int) + bytes@.subrange(
                q1 as int,
                q2 as int,
            ));
        }
        (StratumMountRef::Worktree { label, worktree }, q2)
    } else if tag == 1 {
        let (sr, q) = match dec_sref(bytes, p1 + 1) {
            Ok(v) => v,
            Err(e) => {
                return Err(e);
            },
        };
        proof {
            assert(bytes@.subrange(p1 as int, q as int) =~= seq![bytes@[p1 as int]]
                + bytes@.subrange(p1 as int + 1, q as int));
        }
        (StratumMountRef::Snapshot(sr), q)
    } else {
        return Err(StratumError::InvalidInput(String::from_str("malformed state file")));
    };
    let (mount_point, p3) = match dec_str(bytes, p2) {
        Ok(v) => v,
        Err(e) => {
            return Err(e);
        },
    };
    if p3 >= bytes.len() {
        return Err(StratumError::InvalidInput(String::from_str("truncated state file")));
    }
    let ro_byte = bytes[p3];
    if ro_byte > 1 {
        return Err(StratumError::InvalidInput(String::from_str("malformed state file")));
    }
    let read_only = ro_byte == 1;
    let (base_commit, p4) = match dec_str(bytes, p3 + 1) {
        Ok(v) => v,
        Err(e) => {
            return Err(e);
        },
    };
    let record = MountedStratum { stratum_ref, mount_point, read_only, base_commit };
    proof {
        assert(enc_mount_ref(record.stratum_ref) == bytes@.subrange(p1 as int, p2 as int));
        assert(bytes@.subrange(p3 as int, p3 as int + 1) =~= seq![
            if record.read_only {
                1u8
            } else {
                0u8
            },
        ]);
        assert(enc_record(record) =~= bytes@.subrange(p1 as int, p2 as int) + bytes@.subrange(
            p2 as int,
            p3 as int,
        ) + bytes@.subrange(p3 as int, p3 as int + 1) + bytes@.subrange(
            p3 as int + 1,
            p4 as int,
        ));
        assert(enc_record(record) =~= bytes@.subrange(p1 as int, p4 as int));
        assert(bytes@.subrange(pos as int, p4 as int) =~= bytes@.subrange(pos as int, p1 as int)
            + bytes@.subrange(p1 as int, p4 as int));
        assert(bytes@.subrange(pos as int, p4 as int) =~= enc_str(path@) + enc_record(record));
    }
    Ok(((path, record), p4))
}

/// Parses a state file; whatever it returns re-encodes to exactly the
/// bytes read, so a parsed file is the canonical encoding of its rows.
pub fn decode_state_file(bytes: &Vec<u8>) -> (r: Result<
    Vec<(String, MountedStratum)>,
    StratumError,
>)
    ensures
        r matches Ok(rows) ==> bytes@ == encode_state(rows@),
{
    if bytes.len() < 8 {
        return Err(StratumError::InvalidInput(String::from_str("truncated state file")));
    }
    let head = vstd::slice::slice_subrange(bytes.as_slice(), 0, 8);
    let count = le64_read(head);
    proof {
        lemma_le_reencode(bytes@.subrange(0, 8));
        assert(le_bytes_of(count as int, 8) == bytes@.subrange(0, 8));
    }
    let mut rows: Vec<(String, MountedStratum)> = Vec::new();
    let mut pos: usize = 8;
    let mut remaining: u64 = count;
    proof {
        assert(bytes@.take(8) =~= bytes@.subrange(0, 8));
        assert(bytes@.take(pos as int) =~= le_bytes_of(count as int, 8) + enc_rows(rows@));
    }
    loop
        invariant
            8 <= pos <= bytes@.len(),
            rows@.len() + remaining == count,
            bytes@.take(pos as int) == le_bytes_of(count as int, 8) + enc_rows(rows@),
        decreases remaining,
    {
        if remaining == 0 {
            if pos != bytes.len() {
                return Err(
                    StratumError::InvalidInput(String::from_str("malformed state file")),
                );
            }
            proof {
                assert(bytes@.take(pos as int) =~= bytes@);
                assert(encode_state(rows@) == bytes@);
            }
            return Ok(rows);
        }
        let ghost pos0 = pos as int;
        let (row, p) = match dec_row(bytes, pos) {
            Ok(v) => v,
            Err(e) => {
                return Err(e);
            },
        };
        let ghost rows0 = rows@;
        rows.push(row);
        proof {
            let last = rows@[rows@.len() - 1];
            lemma_enc_rows_snoc(rows0, last);
            assert(bytes@.subrange(pos0, p as int) == enc_str(last.0@) + enc_record(last.1));
            assert(bytes@.take(p as int) =~= bytes@.take(pos0) + bytes@.subrange(
                pos0,
                p as int,
            ));
            assert(bytes@.take(p as int) =~= le_bytes_of(count as int, 8) + enc_rows(rows@));
        }
        pos = p;
        remaining = remaining - 1;
    }
}

/// An exact copy of a stratum reference.
fn clone_stratum_ref(r: &StratumRef) -> (c: StratumRef)
    ensures
        c == *r,
{
    match r {
        StratumRef::Commit(id) => StratumRef::Commit(id.clone()),
        StratumRef::Tag(t) => StratumRef::Tag(t.clone()),
        StratumRef::Worktree { label, worktree } => StratumRef::Worktree {
            label: label.clone(),
            worktree: worktree.clone(),
        },
    }
}

/// An exact copy of a mount record.
pub fn clone_record(m: &MountedStratum) -> (c: MountedStratum)
    ensures
        c == *m,
{
    MountedStratum {
        stratum_ref: match &m.stratum_ref {
            StratumMountRef::Worktree { label, worktree } => StratumMountRef::Worktree {
                label: label.clone(),
                worktree: worktree.clone(),
            },
            StratumMountRef::Snapshot(r) => StratumMountRef::Snapshot(clone_stratum_ref(r)),
        },
        mount_point: m.mount_point.clone(),
        read_only: m.read_only,
        base_commit: m.base_commit.clone(),
    }
}

/// The in-memory mount registry.  The binary loads it from the state file
/// before an operation and writes it back after; the operations themselves
/// are pure table updates and queries.
pub struct StateManager {
    state: StratumState,
}

impl StateManager {
    /// A manager with an empty table.
    pub fn new() -> (r: Result<StateManager, String>)
        ensures
            r matches Ok(m) && m.view_state().rows().len() == 0 && m.view_state().wf(),
    {
        Ok(StateManager { state: StratumState::empty() })
    }

    /// The current table.
    pub closed spec fn view_state(&self) -> StratumState {
        self.state
    }

    /// Whether any record pins the given commit.
    pub fn get_commit_mounted(&self, commit_id: &str) -> (r: Result<bool, String>)
        ensures
            r matches Ok(b) && b == self.view_state().commit_mounted(commit_id@),
    {
        let n = self.state.mounts.len();
        let mut i: usize = 0;
        while i < n
            invariant
                0 <= i <= n,
                n == self.state.mounts@.len(),
                forall|j: int|
                    0 <= j < i ==> (#[trigger] self.state.rows()[j]).1.base_commit@ != commit_id@,
            decreases n - i,
        {
            if str_eq(self.state.mounts[i].1.base_commit.as_str(), commit_id) {
                return Ok(true);
            }
            i += 1;
        }
        Ok(false)
    }

    /// Records a mount at `mount_point`, replacing any previous record
    /// there; every other path is untouched.
    pub fn add_mount(&mut self, mount_point: String, mounted_stratum: MountedStratum) -> (r:
        Result<(), String>)
        requires
            old(self).view_state().wf(),
        ensures
            r is Ok,
            final(self).view_state().wf(),
            final(self).view_state().mount_at(mount_point@) == Option::Some(mounted_stratum),
            forall|p: Seq<char>|
                p != mount_point@ ==> #[trigger] final(self).view_state().mount_at(p) == old(
                    self,
                ).view_state().mount_at(p),
    {
        self.remove_mount_inner(mount_point.as_str());
        let ghost s1 = self.state;
        let ghost mid = self.state.mounts@;
        proof {
            lemma_lookup_none_keys(mid, mount_point@);
        }
        self.state.mounts.push((mount_point, mounted_stratum));
        proof {
            let rows = self.state.rows();
            let k = rows.len() - 1;
            assert(rows =~= mid.push(rows[k]));
            assert(rows[k].0@ == mount_point@);
            assert forall|j: int| 0 <= j < k implies (#[trigger] rows[j]).0@ != mount_point@ by {
                assert(rows[j] == mid[j]);
            }
            lemma_lookup_some(rows, mount_point@, k);
            assert forall|p: Seq<char>| p != mount_point@ implies #[trigger] self.state.mount_at(
                p,
            ) == old(self).view_state().mount_at(p) by {
                lemma_lookup_append_other(mid, rows[k], p);
                assert(self.state.mount_at(p) == lookup_mount(mid, p));
                assert(s1.mount_at(p) == lookup_mount(mid, p));
                assert(s1.mount_at(p) == old(self).view_state().mount_at(p));
            }
        }
        Ok(())
    }

    /// Drops the record at `mount_point`, if any; every other path is
    /// untouched.
    pub fn remove_mount(&mut self, mount_point: &str) -> (r: Result<(), String>)
        requires
            old(self).view_state().wf(),
        ensures
            r is Ok,
            final(self).view_state().wf(),
            final(self).view_state().mount_at(mount_point@) is None,
            forall|p: Seq<char>|
                p != mount_point@ ==> #[trigger] final(self).view_state().mount_at(p) == old(
                    self,
                ).view_state().mount_at(p),
    {
        self.remove_mount_inner(mount_point);
        Ok(())
    }

    fn remove_mount_inner(&mut self, mount_point: &str)
        requires
            old(self).view_state().wf(),
        ensures
            final(self).view_state().wf(),
            final(self).view_state().mount_at(mount_point@) is None,
            forall|p: Seq<char>|
                p != mount_point@ ==> #[trigger] final(self).view_state().mount_at(p) == old(
                    self,
                ).view_state().mount_at(p),
    {
        let ghost rows0 = self.state.rows();
        let n = self.state.mounts.len();
        let mut i: usize = 0;
        while i < n
            invariant
                0 <= i <= n,
                n == self.state.mounts@.len(),
                self.state == old(self).state,
                old(self).view_state().wf(),
                forall|j: int| 0 <= j < i ==> (#[trigger] self.state.rows()[j]).0@ != mount_point@,
            decreases n - i,
        {
            if str_eq(self.state.mounts[i].0.as_str(), mount_point) {
                let ghost pre = self.state.rows();
                self.state.mounts.remove(i);
                proof {
                    let post = self.state.rows();
                    assert(post =~= pre.subrange(0, i as int) + pre.subrange(
                        i as int + 1,
                        pre.len() as int,
                    ));
                    assert(pre =~= old(self).view_state().rows());
                    assert forall|j1: int, j2: int| 0 <= j1 < j2 < pre.len() implies (
                    #[trigger] pre[j1]).0@ != (#[trigger] pre[j2]).0@ by {
                        assert(old(self).view_state().rows()[j1] == pre[j1]);
                        assert(old(self).view_state().rows()[j2] == pre[j2]);
                    }
                    assert forall|a: int, b: int| 0 <= a < b < post.len() implies (
                    #[trigger] post[a]).0@ != (#[trigger] post[b]).0@ by {
                        let a0 = if a < i as int { a } else { a + 1 };
                        let b0 = if b < i as int { b } else { b + 1 };
                        assert(post[a] == pre[a0]);
                        assert(post[b] == pre[b0]);
                    }
                    // every surviving row keeps its key; the removed key was unique
                    assert forall|p: Seq<char>| #[trigger] lookup_mount(post, p) == (if p
                        == mount_point@ {
                        Option::<MountedStratum>::None
                    } else {
                        lookup_mount(pre, p)
                    }) by {
                        lemma_lookup_remove(pre, post, i as int, p);
                    }
                }
                return ;
            }
            i += 1;
        }
        proof {
            lemma_lookup_none(self.state.rows(), mount_point@);
        }
    }

    /// The path of the writable mount of the given worktree, if one is
    /// recorded.
    pub fn find_mount_by_worktree(&self, label: &str, worktree: &str) -> (r: Result<
        Option<String>,
        String,
    >)
        requires
            self.view_state().wf(),
        ensures
            r matches Ok(o) && (match o {
                Option::Some(p) => self.view_state().worktree_mounted(label@, worktree@) && (
                self.view_state().mount_at(p@) matches Option::Some(m) && is_worktree_record(
                    m,
                    label@,
                    worktree@,
                )),
                Option::None => !self.view_state().worktree_mounted(label@, worktree@),
            }),
    {
        let n = self.state.mounts.len();
        let mut i: usize = 0;
        while i < n
            invariant
                0 <= i <= n,
                n == self.state.mounts@.len(),
                self.view_state().wf(),
                forall|j: int|
                    0 <= j < i ==> !is_worktree_record(
                        (#[trigger] self.state.rows()[j]).1,
                        label@,
                        worktree@,
                    ),
            decreases n - i,
        {
            let row = &self.state.mounts[i];
            let hit = match &row.1.stratum_ref {
                StratumMountRef::Worktree { label: l, worktree: w } => {
                    str_eq(l.as_str(), label) && str_eq(w.as_str(), worktree)
                },
                _ => false,
            };
            if hit {
                proof {
                    assert(is_worktree_record(self.state.rows()[i as int].1, label@, worktree@));
                    assert(forall|j: int|
                        0 <= j < i ==> (#[trigger] self.state.rows()[j]).0@
                            != self.state.rows()[i as int].0@);
                    lemma_lookup_some(self.state.rows(), self.state.rows()[i as int].0@, i as int);
                }
            }
            if hit {
                return Ok(Some(row.0.clone()));
            }
            i += 1;
        }
        Ok(None)
    }

    /// The record at a path, if any.
    pub fn find_mount_by_path(&self, mount_point: &str) -> (r: Result<
        Option<MountedStratum>,
        String,
    >)
        ensures
            r matches Ok(o) && o == self.view_state().mount_at(mount_point@),
    {
        let n = self.state.mounts.len();
        let mut i: usize = 0;
        while i < n
            invariant
                0 <= i <= n,
                n == self.state.mounts@.len(),
                forall|j: int| 0 <= j < i ==> (#[trigger] self.state.rows()[j]).0@ != mount_point@,
            decreases n - i,
        {
            if str_eq(self.state.mounts[i].0.as_str(), mount_point) {
                proof {
                    lemma_lookup_some(self.state.rows(), mount_point@, i as int);
                }
                return Ok(Some(clone_record(&self.state.mounts[i].1)));
            }
            i += 1;
        }
        proof {
            lemma_lookup_none(self.state.rows(), mount_point@);
        }
        Ok(None)
    }

    /// Whether the given worktree has a writable mount recorded.
    pub fn is_worktree_mounted(&self, label: &str, worktree: &str) -> (r: Result<bool, String>)
        requires
            self.view_state().wf(),
        ensures
            r matches Ok(b) && b == self.view_state().worktree_mounted(label@, worktree@),
    {
        match self.find_mount_by_worktree(label, worktree) {
            Ok(Some(_)) => Ok(true),
            Ok(None) => Ok(false),
            Err(e) => Err(e),
        }
    }

    /// All recorded mounts, as path/record pairs.
    pub fn get_all_mounts(&self) -> (r: Result<Vec<(String, MountedStratum)>, String>)
        ensures
            r matches Ok(v) && v@ == self.view_state().rows(),
    {
        let n = self.state.mounts.len();
        let mut out: Vec<(String, MountedStratum)> = Vec::new();
        let mut i: usize = 0;
        while i < n
            invariant
                0 <= i <= n,
                n == self.state.mounts@.len(),
                out@.len() == i,
                forall|j: int| 0 <= j < i ==> out@[j] == self.state.rows()[j],
            decreases n - i,
        {
            let row = &self.state.mounts[i];
            out.push((row.0.clone(), clone_record(&row.1)));
            i += 1;
        }
        proof {
            assert(out@ =~= self.state.rows());
        }
        Ok(out)
    }
}

proof fn lemma_lookup_append_other(
    s: Seq<(String, MountedStratum)>,
    row: (String, MountedStratum),
    p: Seq<char>,
)
    requires
        p != row.0@,
    ensures
        lookup_mount(s.push(row), p) == lookup_mount(s, p),
    decreases s.len(),
{
    if s.len() == 0 {
        assert(s.push(row).first() == row);
        assert(s.push(row).drop_first() =~= Seq::<(String, MountedStratum)>::empty());
        assert(lookup_mount(s.push(row).drop_first(), p) is None);
        assert(lookup_mount(s.push(row), p) is None);
        assert(lookup_mount(s, p) is None);
    } else {
        assert(s.push(row).first() == s.first());
        assert(s.push(row).drop_first() =~= s.drop_first().push(row));
        if s.first().0@ == p {
            assert(lookup_mount(s.push(row), p) == Option::Some(s.first().1));
            assert(lookup_mount(s, p) == Option::Some(s.first().1));
        } else {
            lemma_lookup_append_other(s.drop_first(), row, p);
            assert(lookup_mount(s.push(row), p) == lookup_mount(s.drop_first().push(row), p));
            assert(lookup_mount(s, p) == lookup_mount(s.drop_first(), p));
        }
    }
}

proof fn lemma_lookup_remove(
    pre: Seq<(String, MountedStratum)>,
    post: Seq<(String, MountedStratum)>,
    i: int,
    p: Seq<char>,
)
    requires
        0 <= i < pre.len(),
        post == pre.subrange(0, i) + pre.subrange(i + 1, pre.len() as int),
        forall|j: int| 0 <= j < i ==> (#[trigger] pre[j]).0@ != pre[i].0@,
        forall|j1: int, j2: int|
            0 <= j1 < j2 < pre.len() ==> (#[trigger] pre[j1]).0@ != (#[trigger] pre[j2]).0@,
    ensures
        p == pre[i].0@ ==> lookup_mount(post, p) is None,
        p != pre[i].0@ ==> lookup_mount(post, p) == lookup_mount(pre, p),
    decreases pre.len(),
{
    if i == 0 {
        assert(post =~= pre.drop_first());
        if p == pre[0].0@ {
            assert(forall|j: int| 0 <= j < post.len() ==> (#[trigger] post[j]).0@ != p);
            lemma_lookup_none(post, p);
        }
    } else {
        assert(pre.len() > 1);
        assert(post.len() == pre.len() - 1);
        assert(post.first() == pre.first());
        let pre1 = pre.drop_first();
        let post1 = post.drop_first();
        assert(post1 =~= pre1.subrange(0, i - 1) + pre1.subrange(i, pre1.len() as int));
        lemma_lookup_remove(pre1, post1, i - 1, p);
        assert(pre1[i - 1] == pre[i]);
        if p == pre.first().0@ {
            assert(lookup_mount(post, p) == Option::Some(post.first().1));
            assert(lookup_mount(pre, p) == Option::Some(pre.first().1));
            assert(p != pre[i].0@);
        }
    }
}

} // verus!

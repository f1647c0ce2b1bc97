//! Object refcount database.
//!
//! Every content blob in the object store carries a record: its size, the
//! set of commits referencing it, and when it was first seen.  The records
//! live in an embedded `sled` key/value store keyed by the object id; the
//! record bytes themselves are this crate's own canonical encoding, built
//! and parsed by verified code.

use vstd::prelude::*;
use vstd::utf8::{encode_utf8, valid_utf8};

use vstd::slice::slice_subrange;

use crate::bytes::{bytes_eq, le64, le64_read, le_bytes, le_bytes_of, le_val};
use crate::commit::unix_now_clamped;
use crate::errors::StratumError;

verus! {

/// Handle on the embedded key/value store.
#[verifier::external_body]
pub struct ObjectDbHandle {
    db: sled::Db,
}

/// What the embedded store holds on disk: a map from key bytes to value
/// bytes, as maintained by `sled`.
pub uninterp spec fn object_db_contents(db: &ObjectDbHandle) -> Map<Seq<u8>, Seq<u8>>;

/// Relies on `sled::open`: opens (or creates) the database under the given
/// path.  What it holds depends on the disk, so nothing is assumed of the
/// contents.
#[verifier::external_body]
fn db_open(path: &str) -> (r: Result<ObjectDbHandle, String>)
{
    match sled::open(path) {
        Ok(db) => Ok(ObjectDbHandle { db }),
        Err(e) => Err(format!("Failed to open object database: {}", e)),
    }
}

/// Relies on `sled::Tree::get`: returns the value stored under the key,
/// if any.
#[verifier::external_body]
fn db_get(db: &ObjectDbHandle, key: &[u8]) -> (r: Result<Option<Vec<u8>>, String>)
    ensures
        match r {
            Ok(Some(v)) => object_db_contents(db).contains_key(key@)
                && object_db_contents(db).index(key@) == v@,
            Ok(None) => !object_db_contents(db).contains_key(key@),
            Err(_) => true,
        },
{
    match db.db.get(key) {
        Ok(Some(iv)) => Ok(Some(iv.to_vec())),
        Ok(None) => Ok(None),
        Err(e) => Err(format!("Failed to read object database: {}", e)),
    }
}

/// Relies on `sled::Tree::insert`: stores the value under the key; on
/// success every other key is untouched.
#[verifier::external_body]
fn db_insert(db: &mut ObjectDbHandle, key: &[u8], value: &[u8]) -> (r: Result<(), String>)
    ensures
        match r {
            Ok(_) => object_db_contents(final(db)) == object_db_contents(old(db)).insert(
                key@,
                value@,
            ),
            Err(_) => true,
        },
{
    match db.db.insert(key, value) {
        Ok(_) => Ok(()),
        Err(e) => Err(format!("Failed to write object database: {}", e)),
    }
}

/// Relies on `sled::Tree::remove`: drops the key; on success every other
/// key is untouched.
#[verifier::external_body]
fn db_remove(db: &mut ObjectDbHandle, key: &[u8]) -> (r: Result<(), String>)
    ensures
        match r {
            Ok(_) => object_db_contents(final(db)) == object_db_contents(old(db)).remove(key@),
            Err(_) => true,
        },
{
    match db.db.remove(key) {
        Ok(_) => Ok(()),
        Err(e) => Err(format!("Failed to update object database: {}", e)),
    }
}

/// Relies on `String::from_utf8`: succeeds exactly on valid UTF-8 and
/// returns the string whose UTF-8 encoding is the input.
#[verifier::external_body]
pub(crate) fn bytes_to_string(v: &[u8]) -> (r: Result<String, StratumError>)
    ensures
        match r {
            Ok(s) => valid_utf8(v@) && encode_utf8(s@) == v@,
            Err(_) => !valid_utf8(v@),
        },
{
    match std::string::String::from_utf8(v.to_vec()) {
        Ok(s) => Ok(s),
        Err(_) => Err(StratumError::InvalidInput(String::from_str("invalid utf-8"))),
    }
}

/// One object's record: size in bytes, referencing commits, first-seen
/// time.
#[derive(Debug, Clone)]
pub struct ObjectMetadata {
    pub size: u64,
    pub commit_refs: Vec<String>,
    pub first_seen: u64,
}

impl ObjectMetadata {
    /// A fresh record with no referencing commits, first seen now.
    pub fn new(size: u64) -> (r: ObjectMetadata)
        ensures
            r.size == size,
            r.commit_refs@.len() == 0,
    {
        ObjectMetadata { size, commit_refs: Vec::new(), first_seen: unix_now_clamped() }
    }
}

/// Encoding of one commit reference: its length and its UTF-8 bytes.
pub open spec fn enc_ref(r: Seq<u8>) -> Seq<u8> {
    le_bytes_of(r.len() as int, 8) + r
}

/// Encoding of a reference list, in order.
pub open spec fn enc_refs(refs: Seq<Seq<u8>>) -> Seq<u8>
    decreases refs.len(),
{
    if refs.len() == 0 {
        Seq::<u8>::empty()
    } else {
        enc_ref(refs.first()) + enc_refs(refs.drop_first())
    }
}

/// The canonical record encoding: size, first-seen time, reference count,
/// then each reference length-prefixed.
pub open spec fn encode_meta(size: u64, first_seen: u64, refs: Seq<Seq<u8>>) -> Seq<u8> {
    le_bytes_of(size as int, 8) + le_bytes_of(first_seen as int, 8) + le_bytes_of(
        refs.len() as int,
        8,
    ) + enc_refs(refs)
}

/// Decoding of a reference list of known count.
pub open spec fn dec_refs(bytes: Seq<u8>, count: nat) -> Option<Seq<Seq<u8>>>
    decreases count,
{
    if count == 0 {
        if bytes.len() == 0 {
            Option::Some(Seq::<Seq<u8>>::empty())
        } else {
            Option::None
        }
    } else if bytes.len() < 8 {
        Option::None
    } else {
        let l = le_val(bytes.take(8));
        if bytes.len() - 8 < l {
            Option::None
        } else {
            let rb = bytes.subrange(8, 8 + l);
            match dec_refs(bytes.skip(8 + l), (count - 1) as nat) {
                Option::Some(rest) => Option::Some(seq![rb] + rest),
                Option::None => Option::None,
            }
        }
    }
}

/// Decoding of a whole record; the inverse of `encode_meta`.
pub open spec fn decode_meta(bytes: Seq<u8>) -> Option<(u64, u64, Seq<Seq<u8>>)> {
    if bytes.len() < 24 {
        Option::None
    } else {
        let size = le_val(bytes.take(8));
        let fs = le_val(bytes.subrange(8, 16));
        let cnt = le_val(bytes.subrange(16, 24));
        if size < 0 || size > u64::MAX || fs < 0 || fs > u64::MAX || cnt < 0 {
            Option::None
        } else {
            match dec_refs(bytes.skip(24), cnt as nat) {
                Option::Some(refs) => Option::Some((size as u64, fs as u64, refs)),
                Option::None => Option::None,
            }
        }
    }
}

/// A reference list with `r` added, unless already present.
pub open spec fn insert_ref(refs: Seq<Seq<u8>>, r: Seq<u8>) -> Seq<Seq<u8>> {
    if refs.contains(r) {
        refs
    } else {
        refs.push(r)
    }
}

/// The added reference is in the list afterwards.
pub proof fn lemma_insert_ref_contains(refs: Seq<Seq<u8>>, r: Seq<u8>)
    ensures
        insert_ref(refs, r).contains(r),
{
    if !refs.contains(r) {
        assert(refs.push(r)[refs.len() as int] == r);
    }
}

/// Whether the stored map holds, under `key`, a canonical record whose
/// reference list contains `commit_ref`.
pub open spec fn registered_with(
    contents: Map<Seq<u8>, Seq<u8>>,
    key: Seq<u8>,
    commit_ref: Seq<u8>,
) -> bool {
    contents.contains_key(key) && exists|s: u64, f: u64, refs: Seq<Seq<u8>>|
        #![trigger encode_meta(s, f, refs)]
        contents[key] == encode_meta(s, f, refs) && refs.contains(commit_ref)
}

/// A reference list with every occurrence of `r` removed.
pub open spec fn remove_ref(refs: Seq<Seq<u8>>, r: Seq<u8>) -> Seq<Seq<u8>>
    decreases refs.len(),
{
    if refs.len() == 0 {
        Seq::<Seq<u8>>::empty()
    } else if refs.first() == r {
        remove_ref(refs.drop_first(), r)
    } else {
        seq![refs.first()] + remove_ref(refs.drop_first(), r)
    }
}

/// One unregistration step on the stored map: for a present, decodable
/// record the commit reference is removed, and the record is dropped when
/// its reference list empties; otherwise the map is unchanged.
pub open spec fn unregister_step(
    contents: Map<Seq<u8>, Seq<u8>>,
    key: Seq<u8>,
    commit_ref: Seq<u8>,
) -> Map<Seq<u8>, Seq<u8>> {
    if !contents.contains_key(key) {
        contents
    } else {
        match decode_meta(contents[key]) {
            Option::Some(m) => {
                let refs1 = remove_ref(m.2, commit_ref);
                if refs1.len() == 0 {
                    contents.remove(key)
                } else {
                    contents.insert(key, encode_meta(m.0, m.1, refs1))
                }
            },
            Option::None => contents,
        }
    }
}

/// Unregistration steps folded over a list of keys, left to right.
pub open spec fn unregister_fold(
    contents: Map<Seq<u8>, Seq<u8>>,
    commit_ref: Seq<u8>,
    keys: Seq<Seq<u8>>,
) -> Map<Seq<u8>, Seq<u8>>
    decreases keys.len(),
{
    if keys.len() == 0 {
        contents
    } else {
        unregister_fold(
            unregister_step(contents, keys.first(), commit_ref),
            commit_ref,
            keys.drop_first(),
        )
    }
}

/// The record stored for `key`, decoded, when the key is present and its
/// bytes decode.
pub open spec fn stored_meta(contents: Map<Seq<u8>, Seq<u8>>, key: Seq<u8>) -> Option<
    (u64, u64, Seq<Seq<u8>>),
> {
    if contents.contains_key(key) {
        decode_meta(contents[key])
    } else {
        Option::None
    }
}

/// The object refcount database.
pub struct ObjectDatabase {
    handle: ObjectDbHandle,
}

impl ObjectDatabase {
    /// What the database holds.
    pub closed spec fn contents(&self) -> Map<Seq<u8>, Seq<u8>> {
        object_db_contents(&self.handle)
    }

    /// Opens (or creates) the database under `state_dir`.
    pub fn new(state_dir: &str) -> (r: Result<ObjectDatabase, String>)
    {
        let path = String::from_str(state_dir).concat("/objects.db");
        match db_open(path.as_str()) {
            Ok(handle) => Ok(ObjectDatabase { handle }),
            Err(e) => Err(e),
        }
    }

    /// Registers an object: a fresh record is created if none decodes, and
    /// the commit reference, if given, is added to the record's reference
    /// list.  The timestamp of a fresh record is the clock's pick.
    pub fn register_object(
        &mut self,
        object_id: &str,
        size: u64,
        commit_ref: Option<&str>,
    ) -> (r: Result<(), String>)
        ensures
            match r {
                Ok(_) => ({
                    let key = encode_utf8(object_id@);
                    match stored_meta(old(self).contents(), key) {
                        Option::Some(m) => final(self).contents() == old(
                            self,
                        ).contents().insert(
                            key,
                            encode_meta(
                                m.0,
                                m.1,
                                match commit_ref {
                                    Option::Some(cr) => insert_ref(m.2, encode_utf8(cr@)),
                                    Option::None => m.2,
                                },
                            ),
                        ),
                        Option::None => exists|fresh_ts: u64|
                            #![trigger le_bytes_of(fresh_ts as int, 8)]
                            final(self).contents() == old(self).contents().insert(
                                key,
                                encode_meta(
                                    size,
                                    fresh_ts,
                                    match commit_ref {
                                        Option::Some(cr) => insert_ref(
                                            Seq::<Seq<u8>>::empty(),
                                            encode_utf8(cr@),
                                        ),
                                        Option::None => Seq::<Seq<u8>>::empty(),
                                    },
                                ),
                            ),
                    }
                }),
                Err(_) => true,
            },
    {
        let key = str_bytes(object_id);
        let stored = match db_get(&self.handle, key.as_slice()) {
            Ok(v) => v,
            Err(e) => {
                return Err(e);
            },
        };
        let mut meta: RawMeta = match stored {
            Some(bytes) => match decode_raw(&bytes) {
                Some(m) => m,
                None => fresh_raw(size),
            },
            None => fresh_raw(size),
        };
        let ghost base = (meta.size, meta.first_seen, refs_view(meta.refs));
        if let Some(cr) = commit_ref {
            let crb = str_bytes(cr);
            add_ref(&mut meta.refs, crb);
        }
        let value = encode_raw(&meta);
        match db_insert(&mut self.handle, key.as_slice(), value.as_slice()) {
            Ok(_) => Ok(()),
            Err(e) => Err(e),
        }
    }

    /// Removes a commit reference from an object's record; when the last
    /// reference goes, the whole record is dropped.  An absent record is
    /// left absent; one that does not decode is an error.
    pub fn unregister_object(&mut self, object_id: &str, commit_ref: &str) -> (r: Result<
        (),
        String,
    >)
        ensures
            match r {
                Ok(_) => ({
                    let key = encode_utf8(object_id@);
                    if !old(self).contents().contains_key(key) {
                        final(self).contents() == old(self).contents()
                    } else {
                        match decode_meta(old(self).contents()[key]) {
                            Option::Some(m) => {
                                let refs1 = remove_ref(m.2, encode_utf8(commit_ref@));
                                if refs1.len() == 0 {
                                    final(self).contents() == old(self).contents().remove(key)
                                } else {
                                    final(self).contents() == old(self).contents().insert(
                                        key,
                                        encode_meta(m.0, m.1, refs1),
                                    )
                                }
                            },
                            Option::None => false,
                        }
                    }
                }),
                Err(_) => true,
            },
    {
        let key = str_bytes(object_id);
        let stored = match db_get(&self.handle, key.as_slice()) {
            Ok(v) => v,
            Err(e) => {
                return Err(e);
            },
        };
        let bytes = match stored {
            Some(b) => b,
            None => {
                return Ok(());
            },
        };
        let mut meta = match decode_raw(&bytes) {
            Some(m) => m,
            None => {
                return Err(String::from_str("undecodable object record"));
            },
        };
        let crb = str_bytes(commit_ref);
        drop_ref(&mut meta.refs, &crb);
        if meta.refs.len() == 0 {
            match db_remove(&mut self.handle, key.as_slice()) {
                Ok(_) => Ok(()),
                Err(e) => Err(e),
            }
        } else {
            let value = encode_raw(&meta);
            match db_insert(&mut self.handle, key.as_slice(), value.as_slice()) {
                Ok(_) => Ok(()),
                Err(e) => Err(e),
            }
        }
    }

    /// Reads an object's record.  Absent keys give `None`; stored bytes
    /// that do not decode are an error.
    pub fn get_object_metadata(&self, object_id: &str) -> (r: Result<
        Option<ObjectMetadata>,
        String,
    >)
        ensures
            match r {
                Ok(Some(meta)) => ({
                    &&& stored_meta(self.contents(), encode_utf8(object_id@)) matches Option::Some(
                        m,
                    )
                    &&& meta.size == m.0
                    &&& meta.first_seen == m.1
                    &&& meta.commit_refs@.len() == m.2.len()
                    &&& forall|i: int|
                        0 <= i < m.2.len() ==> encode_utf8(
                            (#[trigger] meta.commit_refs@[i])@,
                        ) == m.2[i]
                }),
                Ok(None) => !self.contents().contains_key(encode_utf8(object_id@)),
                Err(_) => true,
            },
    {
        let key = str_bytes(object_id);
        let stored = match db_get(&self.handle, key.as_slice()) {
            Ok(v) => v,
            Err(e) => {
                return Err(e);
            },
        };
        let bytes = match stored {
            Some(b) => b,
            None => {
                return Ok(None);
            },
        };
        let meta = match decode_raw(&bytes) {
            Some(m) => m,
            None => {
                return Err(String::from_str("undecodable object record"));
            },
        };
        let mut refs: Vec<String> = Vec::new();
        let n = meta.refs.len();
        let mut i: usize = 0;
        while i < n
            invariant
                0 <= i <= n,
                n == meta.refs@.len(),
                refs@.len() == i,
                forall|j: int|
                    0 <= j < i ==> encode_utf8((#[trigger] refs@[j])@) == meta.refs@[j]@,
            decreases n - i,
        {
            match bytes_to_string(meta.refs[i].as_slice()) {
                Ok(s) => {
                    refs.push(s);
                },
                Err(_) => {
                    return Err(String::from_str("undecodable commit reference"));
                },
            }
            i += 1;
        }
        proof {
            assert(refs_view(meta.refs) =~~= Seq::new(
                meta.refs@.len(),
                |j: int| meta.refs@[j]@,
            ));
        }
        Ok(Some(ObjectMetadata { size: meta.size, commit_refs: refs, first_seen: meta.first_seen }))
    }

    /// Drops an object's record outright.
    pub fn remove_object(&mut self, object_id: &str) -> (r: Result<(), String>)
        ensures
            match r {
                Ok(_) => final(self).contents() == old(self).contents().remove(
                    encode_utf8(object_id@),
                ),
                Err(_) => true,
            },
    {
        let key = str_bytes(object_id);
        match db_remove(&mut self.handle, key.as_slice()) {
            Ok(_) => Ok(()),
            Err(e) => Err(e),
        }
    }
}

/// The UTF-8 bytes of a string.
fn str_bytes(s: &str) -> (r: Vec<u8>)
    ensures
        r@ == encode_utf8(s@),
{
    s.as_bytes_vec()
}

struct RawMeta {
    size: u64,
    first_seen: u64,
    refs: Vec<Vec<u8>>,
}

spec fn refs_view(refs: Vec<Vec<u8>>) -> Seq<Seq<u8>> {
    refs.deep_view()
}

fn fresh_raw(size: u64) -> (r: RawMeta)
    ensures
        r.size == size,
        refs_view(r.refs) =~= Seq::<Seq<u8>>::empty(),
{
    RawMeta { size, first_seen: unix_now_clamped(), refs: Vec::new() }
}

/// Adds a reference unless it is already present.
fn add_ref(refs: &mut Vec<Vec<u8>>, r: Vec<u8>)
    ensures
        refs_view(*final(refs)) == insert_ref(refs_view(*old(refs)), r@),
{
    let n = refs.len();
    let mut i: usize = 0;
    while i < n
        invariant
            0 <= i <= n,
            n == refs@.len(),
            *refs == *old(refs),
            forall|j: int| 0 <= j < i ==> refs_view(*refs)[j] != r@,
        decreases n - i,
    {
        proof {
            assert(refs_view(*refs)[i as int] =~= refs@[i as int]@);
        }
        if bytes_eq(refs[i].as_slice(), r.as_slice()) {
            proof {
                assert(refs_view(*refs)[i as int] == r@);
                assert(refs_view(*refs).contains(r@));
            }
            return ;
        }
        i += 1;
    }
    proof {
        assert(forall|j: int| 0 <= j < refs_view(*refs).len() ==> refs_view(*refs)[j] != r@);
        assert(!refs_view(*refs).contains(r@));
    }
    let ghost pre = refs_view(*refs);
    refs.push(r);
    proof {
        assert(refs_view(*refs) =~~= pre.push(r@));
    }
}

/// Removes every occurrence of a reference.
fn drop_ref(refs: &mut Vec<Vec<u8>>, r: &Vec<u8>)
    ensures
        refs_view(*final(refs)) == remove_ref(refs_view(*old(refs)), r@),
{
    let mut out: Vec<Vec<u8>> = Vec::new();
    let n = refs.len();
    let mut i: usize = 0;
    proof {
        assert(refs_view(*refs).skip(0) =~= refs_view(*refs));
        assert(refs_view(out) + Seq::<Seq<u8>>::empty() =~= refs_view(out));
    }
    while i < n
        invariant
            0 <= i <= n,
            n == refs@.len(),
            *refs == *old(refs),
            remove_ref(refs_view(*refs), r@) == refs_view(out) + remove_ref(
                refs_view(*refs).skip(i as int),
                r@,
            ),
        decreases n - i,
    {
        let ghost tail = refs_view(*refs).skip(i as int);
        let ghost out0 = refs_view(out);
        proof {
            assert(tail.first() == refs_view(*refs)[i as int]);
            assert(refs_view(*refs)[i as int] =~= refs@[i as int]@);
            assert(tail.drop_first() =~= refs_view(*refs).skip(i as int + 1));
        }
        if !bytes_eq(refs[i].as_slice(), r.as_slice()) {
            let item = refs[i].clone();
            proof {
                assert(item@ == refs_view(*refs)[i as int]);
            }
            out.push(item);
            proof {
                assert(refs_view(out) =~~= out0.push(tail.first()));
                assert(out0.push(tail.first()) =~= out0 + seq![tail.first()]);
            }
        }
        i += 1;
    }
    proof {
        assert(remove_ref(refs_view(*refs).skip(n as int), r@) == Seq::<Seq<u8>>::empty());
        assert(refs_view(out) + Seq::<Seq<u8>>::empty() =~= refs_view(out));
    }
    *refs = out;
}

/// Builds the canonical record bytes.
fn encode_raw(meta: &RawMeta) -> (r: Vec<u8>)
    ensures
        r@ == encode_meta(meta.size, meta.first_seen, refs_view(meta.refs)),
{
    let mut buf: Vec<u8> = Vec::new();
    let mut a = le64(meta.size);
    buf.append(&mut a);
    let mut b = le64(meta.first_seen);
    buf.append(&mut b);
    let mut c = le_bytes(meta.refs.len() as u64, 8);
    buf.append(&mut c);
    let ghost head = buf@;
    let n = meta.refs.len();
    let mut i: usize = 0;
    proof {
        assert(refs_view(meta.refs).skip(0) =~= refs_view(meta.refs));
    }
    while i < n
        invariant
            0 <= i <= n,
            n == meta.refs@.len(),
            head + enc_refs(refs_view(meta.refs)) == buf@ + enc_refs(
                refs_view(meta.refs).skip(i as int),
            ),
        decreases n - i,
    {
        let ghost tail = refs_view(meta.refs).skip(i as int);
        let ghost buf0 = buf@;
        proof {
            assert(tail.first() == refs_view(meta.refs)[i as int]);
            assert(tail.drop_first() =~= refs_view(meta.refs).skip(i as int + 1));
        }
        let mut l = le_bytes(meta.refs[i].len() as u64, 8);
        buf.append(&mut l);
        buf.extend_from_slice(meta.refs[i].as_slice());
        proof {
            assert(refs_view(meta.refs)[i as int] == meta.refs@[i as int]@);
            assert(buf@ =~= buf0 + enc_ref(tail.first()));
            assert(enc_refs(tail) == enc_ref(tail.first()) + enc_refs(tail.drop_first()));
        }
        i += 1;
    }
    proof {
        assert(enc_refs(refs_view(meta.refs).skip(n as int)) == Seq::<u8>::empty());
        assert(buf@ + Seq::<u8>::empty() =~= buf@);
        assert(head + enc_refs(refs_view(meta.refs)) =~= encode_meta(
            meta.size,
            meta.first_seen,
            refs_view(meta.refs),
        ));
    }
    buf
}

/// Parses record bytes; returns exactly what `decode_meta` denotes.
fn decode_raw(bytes: &Vec<u8>) -> (r: Option<RawMeta>)
    ensures
        match r {
            Some(m) => decode_meta(bytes@) == Option::Some(
                (m.size, m.first_seen, refs_view(m.refs)),
            ),
            None => decode_meta(bytes@) is None,
        },
{
    if bytes.len() < 24 {
        return None;
    }
    let size = le64_read(slice_range(bytes, 0, 8));
    let first_seen = le64_read(slice_range(bytes, 8, 16));
    let cnt = le64_read(slice_range(bytes, 16, 24));
    proof {
        assert(slice_view(bytes, 0, 8) =~= bytes@.take(8));
        assert(slice_view(bytes, 8, 16) =~= bytes@.subrange(8, 16));
        assert(slice_view(bytes, 16, 24) =~= bytes@.subrange(16, 24));
    }
    let mut refs: Vec<Vec<u8>> = Vec::new();
    let mut pos: usize = 24;
    let mut remaining: u64 = cnt;
    proof {
        assert(bytes@.skip(24) =~= bytes@.subrange(24, bytes@.len() as int));
    }
    loop
        invariant
            24 <= pos <= bytes@.len(),
            decode_meta(bytes@) == (match dec_refs(bytes@.skip(pos as int), remaining as nat) {
                Option::Some(rest) => Option::Some(
                    (size, first_seen, refs_view(refs) + rest),
                ),
                Option::None => Option::None::<(u64, u64, Seq<Seq<u8>>)>,
            }),
        decreases remaining,
    {
        if remaining == 0 {
            if pos != bytes.len() {
                proof {
                    assert(bytes@.skip(pos as int).len() != 0);
                    assert(dec_refs(bytes@.skip(pos as int), 0) is None);
                }
                return None;
            }
            proof {
                assert(bytes@.skip(pos as int).len() == 0);
                assert(dec_refs(bytes@.skip(pos as int), 0) == Option::Some(
                    Seq::<Seq<u8>>::empty(),
                ));
                assert(refs_view(refs) + Seq::<Seq<u8>>::empty() =~= refs_view(refs));
            }
            return Some(RawMeta { size, first_seen, refs });
        }
        let ghost tail = bytes@.skip(pos as int);
        if bytes.len() - pos < 8 {
            proof {
                assert(tail.len() < 8);
                assert(dec_refs(tail, remaining as nat) is None);
            }
            return None;
        }
        let l64 = le64_read(slice_range(bytes, pos, pos + 8));
        proof {
            assert(slice_view(bytes, pos as int, pos as int + 8) =~= tail.take(8));
        }
        if l64 > (bytes.len() - pos - 8) as u64 {
            proof {
                assert(tail.len() - 8 < le_val(tail.take(8)));
                assert(dec_refs(tail, remaining as nat) is None);
            }
            return None;
        }
        let l = l64 as usize;
        let item = copy_range(bytes, pos + 8, pos + 8 + l);
        proof {
            assert(item@ =~= tail.subrange(8, 8 + l64 as int));
        }
        let ghost refs0 = refs_view(refs);
        refs.push(item);
        proof {
            assert(refs_view(refs) =~~= refs0.push(tail.subrange(8, 8 + l64 as int)));
            assert(dec_refs(tail, remaining as nat) == (match dec_refs(
                tail.skip(8 + l64 as int),
                (remaining - 1) as nat,
            ) {
                Option::Some(rest) => Option::Some(
                    seq![tail.subrange(8, 8 + l64 as int)] + rest,
                ),
                Option::None => Option::None::<Seq<Seq<u8>>>,
            }));
            assert(tail.skip(8 + l64 as int) =~= bytes@.skip(pos as int + 8 + l64 as int));
            assert forall|rest: Seq<Seq<u8>>|
                refs0 + (seq![tail.subrange(8, 8 + l64 as int)] + rest) =~= refs_view(refs)
                    + rest by {}
        }
        pos = pos + 8 + l;
        remaining = remaining - 1;
    }
}

fn slice_range<'a>(v: &'a Vec<u8>, from: usize, to: usize) -> (r: &'a [u8])
    requires
        from <= to <= v@.len(),
    ensures
        r@ == v@.subrange(from as int, to as int),
{
    let s = v.as_slice();
    slice_subrange(s, from, to)
}

spec fn slice_view(v: &Vec<u8>, from: int, to: int) -> Seq<u8> {
    v@.subrange(from, to)
}

fn copy_range(v: &Vec<u8>, from: usize, to: usize) -> (r: Vec<u8>)
    requires
        from <= to <= v@.len(),
    ensures
        r@ == v@.subrange(from as int, to as int),
{
    let mut out: Vec<u8> = Vec::new();
    out.extend_from_slice(slice_range(v, from, to));
    proof {
        assert(out@ =~= v@.subrange(from as int, to as int));
    }
    out
}

} // verus!

//! User-visible references: labels, tags and stratum refs.
//!
//! A label is written `name[:tag]`; a missing tag means `latest`.  A
//! stratum ref is either 64 lower-case hex digits (a commit id), a
//! `label+worktree` pair, or a tag string.

use vstd::prelude::*;
use vstd::utf8::encode_utf8;

use crate::bytes::{lemma_lex_le_total, lemma_lex_le_transitive, lex_le, lex_le_bytes};

verus! {

/// String order as the byte order of the UTF-8 encodings, which is how
/// strings compare on this platform.
pub open spec fn str_le(a: Seq<char>, b: Seq<char>) -> bool {
    lex_le(encode_utf8(a), encode_utf8(b))
}

/// Whether a list of strings is sorted under `str_le`.
pub open spec fn strings_sorted(s: Seq<Seq<char>>) -> bool {
    forall|i: int, j: int| 0 <= i < j < s.len() ==> str_le(#[trigger] s[i], #[trigger] s[j])
}

/// Decides `str_le` on two strings.
pub fn str_le_exec(a: &str, b: &str) -> (r: bool)
    ensures
        r == str_le(a@, b@),
{
    let ab = a.as_bytes_vec();
    let bb = b.as_bytes_vec();
    lex_le_bytes(ab.as_slice(), bb.as_slice())
}

proof fn lemma_string_insert_multiset(s: Seq<Seq<char>>, x: Seq<char>, pos: int)
    requires
        0 <= pos <= s.len(),
    ensures
        (s.subrange(0, pos) + seq![x] + s.subrange(pos, s.len() as int)).to_multiset()
            == s.to_multiset().insert(x),
{
    broadcast use vstd::seq_lib::group_to_multiset_ensures;
    broadcast use vstd::multiset::group_multiset_axioms;

    let left = s.subrange(0, pos);
    let right = s.subrange(pos, s.len() as int);
    vstd::seq_lib::lemma_multiset_commutative(left + seq![x], right);
    vstd::seq_lib::lemma_multiset_commutative(left, seq![x]);
    vstd::seq_lib::lemma_multiset_commutative(left, right);
    assert(left + right =~= s);
    assert(Seq::<Seq<char>>::empty().push(x) =~= seq![x]);
    assert(seq![x].to_multiset() =~= vstd::multiset::Multiset::<Seq<char>>::empty().insert(x));
    assert((left.to_multiset().add(seq![x].to_multiset())).add(right.to_multiset())
        =~= (left.to_multiset().add(right.to_multiset())).insert(x));
}

proof fn lemma_string_multiset_first(s: Seq<Seq<char>>, x: Seq<char>)
    requires
        s.len() > 0,
        s.first() == x,
    ensures
        s.to_multiset() == s.drop_first().to_multiset().insert(x),
{
    broadcast use vstd::seq_lib::group_to_multiset_ensures;
    broadcast use vstd::multiset::group_multiset_axioms;

    assert(s.remove(0) =~= s.drop_first());
    assert(s.remove(0).to_multiset() =~= s.to_multiset().remove(x));
    assert(s.to_multiset().count(x) > 0) by {
        assert(s.contains(x));
    }
    assert(s.drop_first().to_multiset().insert(x) =~= s.to_multiset());
}

proof fn lemma_string_insert_sorted(s: Seq<Seq<char>>, x: Seq<char>, pos: int)
    requires
        strings_sorted(s),
        0 <= pos <= s.len(),
        forall|j: int| 0 <= j < pos ==> str_le(#[trigger] s[j], x),
        pos < s.len() ==> str_le(x, s[pos]),
    ensures
        strings_sorted(s.subrange(0, pos) + seq![x] + s.subrange(pos, s.len() as int)),
{
    let t = s.subrange(0, pos) + seq![x] + s.subrange(pos, s.len() as int);
    assert forall|i: int, j: int| 0 <= i < j < t.len() implies str_le(
        #[trigger] t[i],
        #[trigger] t[j],
    ) by {
        let ti = if i < pos {
            s[i]
        } else if i == pos {
            x
        } else {
            s[i - 1]
        };
        let tj = if j < pos {
            s[j]
        } else if j == pos {
            x
        } else {
            s[j - 1]
        };
        assert(t[i] == ti);
        assert(t[j] == tj);
        if j < pos || i > pos {
            assert(str_le(s[if i < pos { i } else { i - 1 }], s[if j < pos { j } else { j - 1 }]));
        } else if j == pos {
            assert(str_le(s[i], x));
        } else if i == pos {
            if j - 1 == pos {
                assert(str_le(x, s[pos]));
            } else {
                assert(str_le(s[pos], s[j - 1]));
                lemma_lex_le_transitive(encode_utf8(x), encode_utf8(s[pos]), encode_utf8(s[j - 1]));
            }
        } else {
            assert(str_le(s[i], x));
            if j - 1 == pos {
                lemma_lex_le_transitive(encode_utf8(s[i]), encode_utf8(x), encode_utf8(s[pos]));
            } else {
                assert(str_le(s[pos], s[j - 1]));
                lemma_lex_le_transitive(encode_utf8(x), encode_utf8(s[pos]), encode_utf8(s[j - 1]));
                lemma_lex_le_transitive(encode_utf8(s[i]), encode_utf8(x), encode_utf8(s[j - 1]));
            }
        }
    }
}

fn insert_string_sorted(out: &mut Vec<String>, x: String)
    requires
        strings_sorted(old(out).deep_view()),
    ensures
        strings_sorted(final(out).deep_view()),
        final(out).deep_view().to_multiset() == old(out).deep_view().to_multiset().insert(x@),
        final(out)@.len() == old(out)@.len() + 1,
{
    let n = out.len();
    let mut pos: usize = 0;
    while pos < n && str_le_exec(out[pos].as_str(), x.as_str())
        invariant
            n == out@.len(),
            0 <= pos <= n,
            out@ == old(out)@,
            forall|j: int| 0 <= j < pos ==> str_le(#[trigger] out.deep_view()[j], x@),
        decreases n - pos,
    {
        proof {
            assert(out.deep_view()[pos as int] == out@[pos as int]@);
        }
        pos += 1;
    }
    proof {
        if pos < n {
            assert(out.deep_view()[pos as int] == out@[pos as int]@);
            lemma_lex_le_total(encode_utf8(out.deep_view()[pos as int]), encode_utf8(x@));
            assert(str_le(x@, out.deep_view()[pos as int]));
        }
    }
    let ghost pre = out.deep_view();
    out.insert(pos, x);
    proof {
        let after = out.deep_view();
        assert(after =~= pre.subrange(0, pos as int) + seq![x@] + pre.subrange(
            pos as int,
            pre.len() as int,
        ));
        lemma_string_insert_sorted(pre, x@, pos as int);
        lemma_string_insert_multiset(pre, x@, pos as int);
    }
}

/// Sorts strings by their UTF-8 byte order; the result is a sorted
/// permutation of the input.
pub fn sort_strings(input: Vec<String>) -> (r: Vec<String>)
    ensures
        strings_sorted(r.deep_view()),
        r.deep_view().to_multiset() == input.deep_view().to_multiset(),
        r@.len() == input@.len(),
{
    let ghost total: Seq<Seq<char>> = input.deep_view();
    let mut out: Vec<String> = Vec::new();
    let mut rest = input;
    proof {
        broadcast use vstd::seq_lib::group_to_multiset_ensures;
        broadcast use vstd::multiset::group_multiset_axioms;

        assert(out.deep_view() =~= Seq::<Seq<char>>::empty());
        assert(out.deep_view().to_multiset().add(rest.deep_view().to_multiset())
            =~= total.to_multiset());
    }
    while rest.len() > 0
        invariant
            strings_sorted(out.deep_view()),
            out.deep_view().to_multiset().add(rest.deep_view().to_multiset())
                == total.to_multiset(),
            out@.len() + rest@.len() == total.len(),
        decreases rest@.len(),
    {
        let ghost rest0 = rest.deep_view();
        let ghost out0 = out.deep_view();
        let x = rest.remove(0);
        proof {
            broadcast use vstd::multiset::group_multiset_axioms;

            assert(rest.deep_view() =~= rest0.drop_first());
            lemma_string_multiset_first(rest0, x@);
        }
        insert_string_sorted(&mut out, x);
        proof {
            broadcast use vstd::multiset::group_multiset_axioms;

            assert(out.deep_view().to_multiset().add(rest.deep_view().to_multiset())
                =~= out0.to_multiset().add(rest0.to_multiset()));
        }
    }
    proof {
        broadcast use vstd::seq_lib::group_to_multiset_ensures;
        broadcast use vstd::multiset::group_multiset_axioms;

        assert(rest.deep_view() =~= Seq::<Seq<char>>::empty());
        assert(out.deep_view().to_multiset() =~= total.to_multiset());
    }
    out
}

/// String equality, decided on the character views.
pub fn str_eq(a: &str, b: &str) -> (r: bool)
    ensures
        r == (a@ == b@),
{
    let sa = String::from_str(a);
    let sb = String::from_str(b);
    sa == sb
}

/// Index of the first occurrence of `c` in `s`, or -1 when absent.
pub open spec fn first_index_of(s: Seq<char>, c: char) -> int
    decreases s.len(),
{
    if s.len() == 0 {
        -1
    } else if s.first() == c {
        0
    } else {
        let rest = first_index_of(s.drop_first(), c);
        if rest == -1 {
            -1
        } else {
            rest + 1
        }
    }
}

/// The first index is in range and no earlier position holds `c`.
pub proof fn lemma_first_index_of(s: Seq<char>, c: char)
    ensures
        first_index_of(s, c) == -1 ==> forall|i: int| 0 <= i < s.len() ==> s[i] != c,
        first_index_of(s, c) != -1 ==> {
            &&& 0 <= first_index_of(s, c) < s.len()
            &&& s[first_index_of(s, c)] == c
            &&& forall|i: int| 0 <= i < first_index_of(s, c) ==> s[i] != c
        },
    decreases s.len(),
{
    if s.len() != 0 && s.first() != c {
        let rest = s.drop_first();
        lemma_first_index_of(rest, c);
        assert(forall|i: int| 1 <= i < s.len() ==> s[i] == rest[i - 1]);
        if first_index_of(rest, c) == -1 {
            assert forall|i: int| 0 <= i < s.len() implies s[i] != c by {
                if i >= 1 {
                    assert(rest[i - 1] != c);
                }
            }
        } else {
            let r = first_index_of(rest, c);
            assert(first_index_of(s, c) == r + 1);
            assert(s[r + 1] == rest[r]);
            assert forall|i: int| 0 <= i < r + 1 implies s[i] != c by {
                if i >= 1 {
                    assert(rest[i - 1] != c);
                }
            }
        }
    }
}

/// Finds the first occurrence of `c`, scanning left to right.
pub fn find_char(s: &str, c: char) -> (r: Option<usize>)
    ensures
        match r {
            Some(i) => first_index_of(s@, c) == i as int,
            None => first_index_of(s@, c) == -1,
        },
{
    let n = s.unicode_len();
    let mut i: usize = 0;
    while i < n
        invariant
            0 <= i <= n,
            n == s@.len(),
            forall|j: int| 0 <= j < i ==> s@[j] != c,
        decreases n - i,
    {
        if s.get_char(i) == c {
            proof {
                lemma_first_index_of(s@, c);
                assert(first_index_of(s@, c) != -1 ==> first_index_of(s@, c) == i as int);
                if first_index_of(s@, c) == -1 {
                    assert(s@[i as int] != c);
                }
            }
            return Some(i);
        }
        i += 1;
    }
    proof {
        lemma_first_index_of(s@, c);
        if first_index_of(s@, c) != -1 {
            assert(s@[first_index_of(s@, c)] == c);
        }
    }
    None
}

/// Splits an OCI-style label `name[:tag]` at its first colon.  Every input
/// parses: without a colon the whole string is the name and there is no
/// tag.
pub fn parse_label(label: &str) -> (r: Result<(String, Option<String>), String>)
    ensures
        r is Ok,
        ({
            let (name, tag) = r->Ok_0;
            let idx = first_index_of(label@, ':');
            if idx == -1 {
                name@ == label@ && tag is None
            } else {
                name@ == label@.subrange(0, idx) && (tag matches Some(t) && t@
                    == label@.subrange(idx + 1, label@.len() as int))
            }
        }),
{
    match find_char(label, ':') {
        Some(i) => {
            proof {
                lemma_first_index_of(label@, ':');
            }
            let n = label.unicode_len();
            let name = label.substring_char(0, i);
            let tag = label.substring_char(i + 1, n);
            Ok((String::from_str(name), Some(String::from_str(tag))))
        },
        None => Ok((String::from_str(label), None)),
    }
}

/// Whether `c` is a lower-case hex digit.
pub open spec fn is_lower_hex_digit(c: char) -> bool {
    (48 <= c as int && c as int <= 57) || (97 <= c as int && c as int <= 102)
}

/// Whether a string is a commit id: exactly 64 lower-case hex digits.
pub open spec fn spec_is_sha256_hash(s: Seq<char>) -> bool {
    s.len() == 64 && forall|i: int| 0 <= i < s.len() ==> is_lower_hex_digit(#[trigger] s[i])
}

/// Decides whether a string is a commit id (64 lower-case hex digits).
pub fn is_sha256_hash(s: &str) -> (r: bool)
    ensures
        r == spec_is_sha256_hash(s@),
{
    let n = s.unicode_len();
    if n != 64 {
        return false;
    }
    let mut i: usize = 0;
    while i < n
        invariant
            0 <= i <= n,
            n == s@.len(),
            forall|j: int| 0 <= j < i ==> is_lower_hex_digit(#[trigger] s@[j]),
        decreases n - i,
    {
        let c = s.get_char(i);
        let v = c as u32;
        if !((48 <= v && v <= 57) || (97 <= v && v <= 102)) {
            return false;
        }
        i += 1;
    }
    true
}

/// A user-visible reference to a commit, a tag, or a worktree.
#[derive(Debug, Clone)]
pub enum StratumRef {
    /// A commit id: 64 lower-case hex digits.
    Commit(String),
    /// A tag reference in `name[:tag]` form.
    Tag(String),
    /// A worktree of a label.
    Worktree { label: String, worktree: String },
}

/// What parsing a reference string yields: a worktree pair when a plus
/// sign occurs, a commit when the string is a commit id, a tag otherwise.
pub open spec fn ref_parses_to(s: Seq<char>, r: StratumRef) -> bool {
    let plus = first_index_of(s, '+');
    if plus != -1 {
        r matches StratumRef::Worktree { label, worktree } && (label@ == s.subrange(0, plus)
            && worktree@ == s.subrange(plus + 1, s.len() as int))
    } else if spec_is_sha256_hash(s) {
        r matches StratumRef::Commit(id) && id@ == s
    } else {
        r matches StratumRef::Tag(t) && t@ == s
    }
}

impl StratumRef {
    /// Classifies a reference string.
    pub fn parse(s: &str) -> (r: StratumRef)
        ensures
            ref_parses_to(s@, r),
    {
        match find_char(s, '+') {
            Some(i) => {
                proof {
                    lemma_first_index_of(s@, '+');
                }
                let n = s.unicode_len();
                let label = s.substring_char(0, i);
                let worktree = s.substring_char(i + 1, n);
                StratumRef::Worktree {
                    label: String::from_str(label),
                    worktree: String::from_str(worktree),
                }
            },
            None => {
                if is_sha256_hash(s) {
                    StratumRef::Commit(String::from_str(s))
                } else {
                    StratumRef::Tag(String::from_str(s))
                }
            },
        }
    }

    /// The textual form of the reference: the id or tag itself, or
    /// `label+worktree`.
    pub fn to_ref_string(&self) -> (r: String)
        ensures
            match self {
                StratumRef::Commit(id) => r@ == id@,
                StratumRef::Tag(t) => r@ == t@,
                StratumRef::Worktree { label, worktree } => r@ == label@ + "+"@ + worktree@,
            },
    {
        match self {
            StratumRef::Commit(id) => id.clone(),
            StratumRef::Tag(t) => t.clone(),
            StratumRef::Worktree { label, worktree } => label.clone().concat("+").concat(
                worktree.as_str(),
            ),
        }
    }
}

} // verus!

//! Byte-string utilities: comparison, lexicographic ordering and
//! little-endian integer encoding.

use vstd::prelude::*;
use vstd::arithmetic::power::pow;
use vstd::multiset::Multiset;

verus! {

/// Equality test on byte slices.
pub fn bytes_eq(a: &[u8], b: &[u8]) -> (r: bool)
    ensures
        r == (a@ == b@),
{
    if a.len() != b.len() {
        assert(a@ != b@) by {
            assert(a@.len() != b@.len());
        }
        return false;
    }
    let n = a.len();
    let mut i: usize = 0;
    while i < n
        invariant
            n == a@.len() == b@.len(),
            0 <= i <= n,
            forall|j: int| 0 <= j < i ==> a@[j] == b@[j],
        decreases n - i,
    {
        if a[i] != b[i] {
            return false;
        }
        i += 1;
    }
    assert(a@ =~= b@);
    true
}

/// Lexicographic "less than or equal" on byte sequences: a proper prefix
/// comes first, otherwise the first differing byte decides.
pub open spec fn lex_le(a: Seq<u8>, b: Seq<u8>) -> bool
    decreases a.len(),
{
    if a.len() == 0 {
        true
    } else if b.len() == 0 {
        false
    } else if a.first() < b.first() {
        true
    } else if a.first() > b.first() {
        false
    } else {
        lex_le(a.drop_first(), b.drop_first())
    }
}

/// `lex_le` is total: any two byte sequences are comparable.
pub proof fn lemma_lex_le_total(a: Seq<u8>, b: Seq<u8>)
    ensures
        lex_le(a, b) || lex_le(b, a),
    decreases a.len(),
{
    if a.len() != 0 && b.len() != 0 && a.first() == b.first() {
        lemma_lex_le_total(a.drop_first(), b.drop_first());
    }
}

/// `lex_le` is antisymmetric: mutually ordered sequences are equal.
pub proof fn lemma_lex_le_antisymmetric(a: Seq<u8>, b: Seq<u8>)
    requires
        lex_le(a, b),
        lex_le(b, a),
    ensures
        a == b,
    decreases a.len(),
{
    if a.len() != 0 && b.len() != 0 && a.first() == b.first() {
        lemma_lex_le_antisymmetric(a.drop_first(), b.drop_first());
        assert(a =~= seq![a.first()] + a.drop_first());
        assert(b =~= seq![b.first()] + b.drop_first());
    } else {
        if a.len() == 0 {
            assert(b.len() == 0);
            assert(a =~= b);
        }
    }
}

/// `lex_le` is transitive.
pub proof fn lemma_lex_le_transitive(a: Seq<u8>, b: Seq<u8>, c: Seq<u8>)
    requires
        lex_le(a, b),
        lex_le(b, c),
    ensures
        lex_le(a, c),
    decreases a.len(),
{
    if a.len() != 0 && b.len() != 0 && c.len() != 0 {
        if a.first() == b.first() && b.first() == c.first() {
            lemma_lex_le_transitive(a.drop_first(), b.drop_first(), c.drop_first());
        }
    }
}

/// Executable decision procedure for `lex_le`.
pub fn lex_le_bytes(a: &[u8], b: &[u8]) -> (r: bool)
    ensures
        r == lex_le(a@, b@),
{
    let a_len = a.len();
    let b_len = b.len();
    let mut i: usize = 0;
    proof {
        assert(a@.skip(0) =~= a@);
        assert(b@.skip(0) =~= b@);
    }
    loop
        invariant
            i <= a_len,
            i <= b_len,
            a_len == a@.len(),
            b_len == b@.len(),
            lex_le(a@, b@) == lex_le(a@.skip(i as int), b@.skip(i as int)),
        decreases a_len - i,
    {
        if i == a_len {
            return true;
        }
        if i == b_len {
            return false;
        }
        let x = a[i];
        let y = b[i];
        assert(a@.skip(i as int).first() == a@[i as int]);
        assert(b@.skip(i as int).first() == b@[i as int]);
        if x < y {
            return true;
        }
        if x > y {
            return false;
        }
        assert(a@.skip(i as int).drop_first() =~= a@.skip(i + 1));
        assert(b@.skip(i as int).drop_first() =~= b@.skip(i + 1));
        i += 1;
    }
}

/// Whether a sequence of byte strings is sorted under `lex_le`.
pub open spec fn lex_sorted(s: Seq<Seq<u8>>) -> bool {
    forall|i: int, j: int| 0 <= i < j < s.len() ==> lex_le(#[trigger] s[i], #[trigger] s[j])
}

/// Two sorted sequences with the same multiset of elements are equal,
/// so sorting pins the output sequence down completely.
pub proof fn lemma_lex_sorted_unique(x: Seq<Seq<u8>>, y: Seq<Seq<u8>>)
    requires
        lex_sorted(x),
        lex_sorted(y),
        x.to_multiset() == y.to_multiset(),
    ensures
        x == y,
{
    let leq = |a: Seq<u8>, b: Seq<u8>| lex_le(a, b);
    assert forall|a: Seq<u8>, b: Seq<u8>| #[trigger] leq(a, b) || leq(b, a) by {
        lemma_lex_le_total(a, b);
    }
    assert(vstd::relations::reflexive(leq));
    assert(vstd::relations::strongly_connected(leq));
    assert(vstd::relations::antisymmetric(leq)) by {
        assert forall|a: Seq<u8>, b: Seq<u8>| #[trigger] leq(a, b) && #[trigger] leq(b, a)
            implies a == b by {
            lemma_lex_le_antisymmetric(a, b);
        }
    }
    assert(vstd::relations::transitive(leq)) by {
        assert forall|a: Seq<u8>, b: Seq<u8>, c: Seq<u8>|
            #[trigger] leq(a, b) && #[trigger] leq(b, c) implies leq(a, c) by {
            lemma_lex_le_transitive(a, b, c);
        }
    }
    assert(vstd::relations::sorted_by(x, leq)) by {
        assert forall|i: int, j: int| 0 <= i < j < x.len() implies #[trigger] leq(x[i], x[j]) by {
            assert(lex_le(x[i], x[j]));
        }
    }
    assert(vstd::relations::sorted_by(y, leq)) by {
        assert forall|i: int, j: int| 0 <= i < j < y.len() implies #[trigger] leq(y[i], y[j]) by {
            assert(lex_le(y[i], y[j]));
        }
    }
    vstd::seq_lib::lemma_sorted_unique(x, y, leq);
    assert(x =~= y);
}

proof fn lemma_multiset_first(s: Seq<Seq<u8>>, x: Seq<u8>)
    requires
        s.len() > 0,
        s.first() == x,
    ensures
        s.to_multiset() == s.drop_first().to_multiset().insert(x),
{
    broadcast use vstd::seq_lib::group_to_multiset_ensures;
    broadcast use vstd::multiset::group_multiset_axioms;

    assert(s.remove(0) =~= s.drop_first());
    assert(s.remove(0).to_multiset() =~= s.to_multiset().remove(x));
    assert(s.to_multiset().count(x) > 0) by {
        assert(s.contains(x));
    }
    assert(s.drop_first().to_multiset().insert(x) =~= s.to_multiset());
}

/// Sorts byte strings lexicographically by insertion sort; the result is the
/// unique sorted permutation of the input.
pub fn sort_byte_strings(input: Vec<Vec<u8>>) -> (r: Vec<Vec<u8>>)
    ensures
        lex_sorted(r.deep_view()),
        r.deep_view().to_multiset() == input.deep_view().to_multiset(),
        r@.len() == input@.len(),
{
    let ghost total: Seq<Seq<u8>> = input.deep_view();
    let mut out: Vec<Vec<u8>> = Vec::new();
    let mut rest = input;
    proof {
        broadcast use vstd::seq_lib::group_to_multiset_ensures;
        broadcast use vstd::multiset::group_multiset_axioms;

        assert(out.deep_view() =~= Seq::<Seq<u8>>::empty());
        assert(out.deep_view().to_multiset().add(rest.deep_view().to_multiset())
            =~= total.to_multiset());
    }
    while rest.len() > 0
        invariant
            lex_sorted(out.deep_view()),
            out.deep_view().to_multiset().add(rest.deep_view().to_multiset())
                == total.to_multiset(),
            out@.len() + rest@.len() == total.len(),
        decreases rest@.len(),
    {
        let ghost rest0 = rest.deep_view();
        let ghost out0 = out.deep_view();
        let x = rest.remove(0);
        proof {
            broadcast use vstd::multiset::group_multiset_axioms;

            assert(rest.deep_view() =~= rest0.drop_first());
            lemma_multiset_first(rest0, x.deep_view());
        }
        insert_sorted(&mut out, x);
        proof {
            broadcast use vstd::multiset::group_multiset_axioms;

            assert(out.deep_view().to_multiset().add(rest.deep_view().to_multiset())
                =~= out0.to_multiset().add(rest0.to_multiset()));
        }
    }
    proof {
        broadcast use vstd::seq_lib::group_to_multiset_ensures;
        broadcast use vstd::multiset::group_multiset_axioms;

        assert(rest.deep_view() =~= Seq::<Seq<u8>>::empty());
        assert(out.deep_view().to_multiset() =~= total.to_multiset());
    }
    out
}

/// Inserts one byte string into a sorted vector, keeping it sorted.
fn insert_sorted(out: &mut Vec<Vec<u8>>, x: Vec<u8>)
    requires
        lex_sorted(old(out).deep_view()),
    ensures
        lex_sorted(final(out).deep_view()),
        final(out).deep_view().to_multiset() == old(out).deep_view().to_multiset().insert(
            x.deep_view(),
        ),
        final(out)@.len() == old(out)@.len() + 1,
{
    let n = out.len();
    let mut pos: usize = 0;
    while pos < n && lex_le_bytes(out[pos].as_slice(), x.as_slice())
        invariant
            n == out@.len(),
            0 <= pos <= n,
            out@ == old(out)@,
            forall|j: int| 0 <= j < pos ==> lex_le(#[trigger] out.deep_view()[j], x.deep_view()),
        decreases n - pos,
    {
        proof {
            assert(out.deep_view()[pos as int] == out@[pos as int]@);
            assert(x.deep_view() == x@);
        }
        pos += 1;
    }
    proof {
        if pos < n {
            assert(out.deep_view()[pos as int] == out@[pos as int]@);
            assert(x.deep_view() == x@);
            lemma_lex_le_total(out.deep_view()[pos as int], x.deep_view());
            assert(lex_le(x.deep_view(), out.deep_view()[pos as int]));
        }
    }
    let ghost pre = out.deep_view();
    out.insert(pos, x);
    proof {
        let after = out.deep_view();
        assert(after =~= pre.subrange(0, pos as int) + seq![x.deep_view()] + pre.subrange(
            pos as int,
            pre.len() as int,
        ));
        lemma_insert_preserves_sorted(pre, x.deep_view(), pos as int);
        lemma_insert_multiset(pre, x.deep_view(), pos as int);
    }
}

proof fn lemma_insert_preserves_sorted(s: Seq<Seq<u8>>, x: Seq<u8>, pos: int)
    requires
        lex_sorted(s),
        0 <= pos <= s.len(),
        forall|j: int| 0 <= j < pos ==> lex_le(#[trigger] s[j], x),
        pos < s.len() ==> lex_le(x, s[pos]),
    ensures
        lex_sorted(s.subrange(0, pos) + seq![x] + s.subrange(pos, s.len() as int)),
{
    let t = s.subrange(0, pos) + seq![x] + s.subrange(pos, s.len() as int);
    let leq = |a: Seq<u8>, b: Seq<u8>| lex_le(a, b);
    assert forall|i: int, j: int| 0 <= i <= j < t.len() implies leq(t[i], t[j]) by {
        let ti = if i < pos {
            s[i]
        } else if i == pos {
            x
        } else {
            s[i - 1]
        };
        let tj = if j < pos {
            s[j]
        } else if j == pos {
            x
        } else {
            s[j - 1]
        };
        assert(t[i] == ti);
        assert(t[j] == tj);
        if i == j {
            lemma_lex_le_total(ti, ti);
        } else if j < pos || i > pos {
            assert(lex_le(s[if i < pos { i } else { i - 1 }], s[if j < pos { j } else { j - 1 }]));
        } else if j == pos {
            assert(lex_le(s[i], x));
        } else if i == pos {
            // j > pos, so tj == s[j - 1] with pos <= j - 1
            if j - 1 == pos {
                assert(lex_le(x, s[pos]));
            } else {
                assert(lex_le(s[pos], s[j - 1]));
                lemma_lex_le_transitive(x, s[pos], s[j - 1]);
            }
        } else {
            // i < pos < j
            assert(lex_le(s[i], x));
            if j - 1 == pos {
                lemma_lex_le_transitive(s[i], x, s[pos]);
            } else {
                assert(lex_le(s[pos], s[j - 1]));
                lemma_lex_le_transitive(x, s[pos], s[j - 1]);
                lemma_lex_le_transitive(s[i], x, s[j - 1]);
            }
        }
    }
}

proof fn lemma_insert_multiset(s: Seq<Seq<u8>>, x: Seq<u8>, pos: int)
    requires
        0 <= pos <= s.len(),
    ensures
        (s.subrange(0, pos) + seq![x] + s.subrange(pos, s.len() as int)).to_multiset()
            == s.to_multiset().insert(x),
{
    broadcast use vstd::seq_lib::group_to_multiset_ensures;
    broadcast use vstd::multiset::group_multiset_axioms;

    let left = s.subrange(0, pos);
    let right = s.subrange(pos, s.len() as int);
    vstd::seq_lib::lemma_multiset_commutative(left + seq![x], right);
    vstd::seq_lib::lemma_multiset_commutative(left, seq![x]);
    vstd::seq_lib::lemma_multiset_commutative(left, right);
    assert(left + right =~= s);
    assert(Seq::<Seq<u8>>::empty().push(x) =~= seq![x]);
    assert(seq![x].to_multiset() =~= Multiset::<Seq<u8>>::empty().insert(x));
    assert((left.to_multiset().add(seq![x].to_multiset())).add(right.to_multiset())
        =~= (left.to_multiset().add(right.to_multiset())).insert(x));
}

/// Little-endian byte encoding of a non-negative integer in `k` bytes.
pub open spec fn le_bytes_of(x: int, k: nat) -> Seq<u8>
    decreases k,
{
    if k == 0 {
        Seq::<u8>::empty()
    } else {
        seq![(x % 256) as u8] + le_bytes_of(x / 256, (k - 1) as nat)
    }
}

/// The eight-byte little-endian encoding of a `u64`.
pub open spec fn le64_of(n: u64) -> Seq<u8> {
    le_bytes_of(n as int, 8)
}

/// Encodes the low `width` bytes of `n`, little-endian first.
pub fn le_bytes(n: u64, width: usize) -> (r: Vec<u8>)
    ensures
        r@ == le_bytes_of(n as int, width as nat),
        r@.len() == width,
{
    let mut v: Vec<u8> = Vec::new();
    let mut x: u64 = n;
    let mut k: usize = 0;
    while k < width
        invariant
            0 <= k <= width,
            v@.len() == k,
            le_bytes_of(n as int, width as nat) =~= v@ + le_bytes_of(
                x as int,
                (width - k) as nat,
            ),
        decreases width - k,
    {
        let ghost x0 = x as int;
        let b: u8 = (x % 256) as u8;
        v.push(b);
        x = x / 256;
        k += 1;
        proof {
            assert(le_bytes_of(x0, (width - k + 1) as nat) =~= seq![(x0 % 256) as u8]
                + le_bytes_of(x0 / 256, (width - k) as nat));
        }
    }
    proof {
        assert(le_bytes_of(x as int, 0) =~= Seq::<u8>::empty());
        assert(v@ + Seq::<u8>::empty() =~= v@);
    }
    v
}

/// Encodes a `u64` as eight little-endian bytes.
pub fn le64(n: u64) -> (r: Vec<u8>)
    ensures
        r@ == le64_of(n),
        r@.len() == 8,
{
    le_bytes(n, 8)
}

/// The integer denoted by a little-endian byte sequence.
pub open spec fn le_val(s: Seq<u8>) -> int
    decreases s.len(),
{
    if s.len() == 0 {
        0
    } else {
        s.first() + 256 * le_val(s.drop_first())
    }
}

proof fn lemma_pow256_u64(k: nat)
    requires
        k <= 8,
    ensures
        pow(256, k) <= 0x1_0000_0000_0000_0000,
        pow(256, k) >= 1,
{
    vstd::arithmetic::power::lemma_pow_positive(256, k);
    vstd::arithmetic::power::lemma_pow_increases(256, k, 8);
    assert(pow(256, 8) == 0x1_0000_0000_0000_0000) by {
        reveal_with_fuel(vstd::arithmetic::power::pow, 9);
    }
}

/// A little-endian value is non-negative and below the base raised to the
/// width.
pub proof fn lemma_le_val_bounds(s: Seq<u8>)
    ensures
        0 <= le_val(s) < pow(256, s.len()),
    decreases s.len(),
{
    if s.len() == 0 {
        assert(pow(256, 0) == 1) by {
            reveal(vstd::arithmetic::power::pow);
        }
    } else {
        lemma_le_val_bounds(s.drop_first());
        assert(pow(256, s.len()) == 256 * pow(256, (s.len() - 1) as nat)) by {
            reveal(vstd::arithmetic::power::pow);
        }
        assert(s.first() + 256 * le_val(s.drop_first()) < 256 * pow(
            256,
            (s.len() - 1) as nat,
        )) by (nonlinear_arith)
            requires
                s.first() < 256,
                0 <= le_val(s.drop_first()) < pow(256, (s.len() - 1) as nat),
        ;
    }
}

/// Re-encoding the value of a byte sequence reproduces the sequence.
pub proof fn lemma_le_reencode(s: Seq<u8>)
    ensures
        le_bytes_of(le_val(s), s.len()) == s,
    decreases s.len(),
{
    if s.len() > 0 {
        let v = le_val(s);
        let rest = s.drop_first();
        lemma_le_val_bounds(rest);
        assert(v == s.first() + 256 * le_val(rest));
        assert(v % 256 == s.first() && v / 256 == le_val(rest)) by (nonlinear_arith)
            requires
                v == s.first() + 256 * le_val(rest),
                0 <= s.first() < 256,
                0 <= le_val(rest),
        ;
        lemma_le_reencode(rest);
        assert(le_bytes_of(v, s.len()) =~= seq![(v % 256) as u8] + le_bytes_of(
            v / 256,
            (s.len() - 1) as nat,
        ));
        assert(le_bytes_of(le_val(s), s.len()) =~= s);
    } else {
        assert(le_bytes_of(le_val(s), 0) =~= s);
    }
}

/// Reads a `u64` from eight little-endian bytes.
pub fn le64_read(s: &[u8]) -> (r: u64)
    requires
        s@.len() == 8,
    ensures
        r as int == le_val(s@),
{
    let mut acc: u64 = 0;
    let mut k: usize = 8;
    proof {
        assert(pow(256, 0) == 1) by {
            reveal(vstd::arithmetic::power::pow);
        }
        assert(s@.skip(8).len() == 0);
    }
    while k > 0
        invariant
            0 <= k <= 8,
            s@.len() == 8,
            acc as int == le_val(s@.skip(k as int)),
            acc < pow(256, (8 - k) as nat),
        decreases k,
    {
        proof {
            lemma_pow256_u64((8 - k) as nat);
            lemma_pow256_u64((8 - k + 1) as nat);
            assert(pow(256, (8 - k + 1) as nat) == 256 * pow(256, (8 - k) as nat)) by {
                reveal(vstd::arithmetic::power::pow);
            }
            assert(256 * (acc as int) + 255 < 256 * pow(256, (8 - k) as nat)) by (nonlinear_arith)
                requires
                    (acc as int) < pow(256, (8 - k) as nat),
            ;
        }
        k -= 1;
        let b = s[k];
        proof {
            assert(s@.skip(k as int).first() == s@[k as int]);
            assert(s@.skip(k as int).drop_first() =~= s@.skip(k as int + 1));
        }
        acc = b as u64 + 256 * acc;
    }
    proof {
        assert(s@.skip(0) =~= s@);
    }
    acc
}

} // verus!

//! Lexicographic order of strings by Unicode scalar value, the order of
//! `String` keys in a `BTreeMap` (UTF-8 preserves scalar order).
use vstd::prelude::*;

verus! {

/// Whether `a` sorts strictly before `b`.
pub open spec fn lex_less(a: Seq<char>, b: Seq<char>) -> bool {
    exists|k: int| #![trigger a.subrange(0, k)] 0 <= k <= a.len() && k <= b.len()
        && a.subrange(0, k) == b.subrange(0, k)
        && ((k == a.len() && k < b.len()) || (k < a.len() && k < b.len() && a[k] < b[k]))
}

/// Comparison outcome.
#[derive(Clone, Copy, Debug, PartialEq, Eq, Structural)]
pub enum Comparison {
    Less,
    Equal,
    Greater,
}

/// The length of the common prefix of `a` and `b`.
pub open spec fn common_prefix(a: Seq<char>, b: Seq<char>, k: int) -> bool {
    0 <= k <= a.len() && k <= b.len() && a.subrange(0, k) == b.subrange(0, k)
}

proof fn lemma_prefix_extends(a: Seq<char>, b: Seq<char>, k: int)
    requires
        common_prefix(a, b, k),
        k < a.len(),
        k < b.len(),
        a[k] == b[k],
    ensures
        common_prefix(a, b, k + 1),
{
    assert(a.subrange(0, k + 1) =~= a.subrange(0, k).push(a[k]));
    assert(b.subrange(0, k + 1) =~= b.subrange(0, k).push(b[k]));
}

proof fn lemma_prefix_shorter(a: Seq<char>, b: Seq<char>, k: int, j: int)
    requires
        common_prefix(a, b, k),
        0 <= j <= k,
    ensures
        common_prefix(a, b, j),
        forall|i: int| 0 <= i < k ==> a[i] == b[i],
{
    assert(a.subrange(0, j) =~= a.subrange(0, k).subrange(0, j));
    assert(b.subrange(0, j) =~= b.subrange(0, k).subrange(0, j));
    assert forall|i: int| 0 <= i < k implies a[i] == b[i] by {
        assert(a.subrange(0, k)[i] == b.subrange(0, k)[i]);
    }
}

proof fn lemma_first_difference(a: Seq<char>, b: Seq<char>, k: int) -> (d: int)
    requires
        common_prefix(a, b, k),
    ensures
        common_prefix(a, b, d),
        d == a.len() || d == b.len() || a[d] != b[d],
    decreases a.len() - k,
{
    if k < a.len() && k < b.len() && a[k] == b[k] {
        lemma_prefix_extends(a, b, k);
        lemma_first_difference(a, b, k + 1)
    } else {
        k
    }
}

/// `lex_less` is irreflexive and asymmetric, and exactly one of less, equal
/// and greater holds.
pub proof fn lemma_lex_trichotomy(a: Seq<char>, b: Seq<char>)
    ensures
        !(lex_less(a, b) && lex_less(b, a)),
        !lex_less(a, a),
        a == b || lex_less(a, b) || lex_less(b, a),
{
    if lex_less(a, b) && lex_less(b, a) {
        let k1 = choose|k: int| #![trigger a.subrange(0, k)] 0 <= k <= a.len() && k <= b.len()
            && a.subrange(0, k) == b.subrange(0, k)
            && ((k == a.len() && k < b.len()) || (k < a.len() && k < b.len() && a[k] < b[k]));
        let k2 = choose|k: int| #![trigger b.subrange(0, k)] 0 <= k <= b.len() && k <= a.len()
            && b.subrange(0, k) == a.subrange(0, k)
            && ((k == b.len() && k < a.len()) || (k < b.len() && k < a.len() && b[k] < a[k]));
        if k1 < k2 {
            lemma_prefix_shorter(b, a, k2, k2);
        } else if k2 < k1 {
            lemma_prefix_shorter(a, b, k1, k1);
        }
    }
    if lex_less(a, a) {
        let k = choose|k: int| #![trigger a.subrange(0, k)] 0 <= k <= a.len() && k <= a.len()
            && a.subrange(0, k) == a.subrange(0, k)
            && ((k == a.len() && k < a.len()) || (k < a.len() && k < a.len() && a[k] < a[k]));
    }
    if a != b {
        assert(a.subrange(0, 0) =~= b.subrange(0, 0));
        let k = lemma_first_difference(a, b, 0);
        if k == a.len() && k == b.len() {
            assert(a =~= a.subrange(0, k));
            assert(b =~= b.subrange(0, k));
        } else if k == a.len() {
            assert(lex_less(a, b));
        } else if k == b.len() {
            assert(b.subrange(0, k) == a.subrange(0, k));
            assert(lex_less(b, a));
        } else {
            assert(a[k] != b[k]);

            if a[k] < b[k] {
                assert(lex_less(a, b));
            } else {
                assert(b.subrange(0, k) == a.subrange(0, k));
                assert(lex_less(b, a));
            }
        }
    }
}

/// `lex_less` is transitive.
pub proof fn lemma_lex_transitive(a: Seq<char>, b: Seq<char>, c: Seq<char>)
    requires
        lex_less(a, b),
        lex_less(b, c),
    ensures
        lex_less(a, c),
{
    let k1 = choose|k: int| #![trigger a.subrange(0, k)] 0 <= k <= a.len() && k <= b.len()
        && a.subrange(0, k) == b.subrange(0, k)
        && ((k == a.len() && k < b.len()) || (k < a.len() && k < b.len() && a[k] < b[k]));
    let k2 = choose|k: int| #![trigger b.subrange(0, k)] 0 <= k <= b.len() && k <= c.len()
        && b.subrange(0, k) == c.subrange(0, k)
        && ((k == b.len() && k < c.len()) || (k < b.len() && k < c.len() && b[k] < c[k]));
    lemma_prefix_shorter(a, b, k1, k1);
    lemma_prefix_shorter(b, c, k2, k2);
    let k = if k1 < k2 { k1 } else { k2 };
    lemma_prefix_shorter(a, b, k1, k);
    lemma_prefix_shorter(b, c, k2, k);
    assert(a.subrange(0, k) =~= c.subrange(0, k));
    if k1 < k2 {
        assert(k == k1);
        if k1 == a.len() {
            assert(lex_less(a, c));
        } else {
            assert(b[k1] == c[k1]);
            assert(lex_less(a, c));
        }
    } else if k2 < k1 {
        assert(k == k2);
        assert(a[k2] == b[k2]);
        assert(lex_less(a, c));
    } else {
        assert(k == k1);
        if k1 == a.len() {
            assert(lex_less(a, c));
        } else {
            assert(lex_less(a, c));
        }
    }
}

/// Compares two strings in [`lex_less`] order.
pub fn compare_str(a: &str, b: &str) -> (r: Comparison)
    ensures
        r == Comparison::Less <==> lex_less(a@, b@),
        r == Comparison::Equal <==> a@ == b@,
        r == Comparison::Greater <==> lex_less(b@, a@),
{
    let n = a.unicode_len();
    let m = b.unicode_len();
    let mut k: usize = 0;
    proof {
        assert(a@.subrange(0, 0) =~= b@.subrange(0, 0));
        lemma_lex_trichotomy(a@, b@);
    }
    while k < n && k < m
        invariant
            n == a@.len(),
            m == b@.len(),
            common_prefix(a@, b@, k as int),
        decreases n - k,
    {
        let x = a.get_char(k);
        let y = b.get_char(k);
        if x < y {
            assert(lex_less(a@, b@));
            proof { lemma_lex_trichotomy(a@, b@); }
            return Comparison::Less;
        }
        if y < x {
            assert(b@.subrange(0, k as int) == a@.subrange(0, k as int));
            assert(lex_less(b@, a@));
            proof { lemma_lex_trichotomy(a@, b@); }
            return Comparison::Greater;
        }
        proof {
            assert(x == y);
            lemma_prefix_extends(a@, b@, k as int);
        }
        k += 1;
    }
    proof { lemma_lex_trichotomy(a@, b@); }
    if n == m {
        assert(a@ =~= a@.subrange(0, k as int));
        assert(b@ =~= b@.subrange(0, k as int));
        Comparison::Equal
    } else if k == n {
        assert(lex_less(a@, b@));
        Comparison::Less
    } else {
        assert(b@.subrange(0, k as int) == a@.subrange(0, k as int));
        assert(lex_less(b@, a@));
        Comparison::Greater
    }
}

} // verus!

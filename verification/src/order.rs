//! Ordering of strings (`String`'s `Ord`: lexicographic by code point, which
//! is the byte order of UTF-8) and a stable sort into descending order.
use vstd::prelude::*;

verus! {

/// `a < b` in the order of `String`.
pub open spec fn lex_lt(a: Seq<char>, b: Seq<char>) -> bool
    decreases a.len(),
{
    if a.len() == 0 {
        b.len() > 0
    } else if b.len() == 0 {
        false
    } else if a[0] != b[0] {
        (a[0] as u32) < (b[0] as u32)
    } else {
        lex_lt(a.drop_first(), b.drop_first())
    }
}

/// The order is irreflexive.
pub proof fn lemma_lex_irreflexive(a: Seq<char>)
    ensures
        !lex_lt(a, a),
    decreases a.len(),
{
    if a.len() > 0 {
        lemma_lex_irreflexive(a.drop_first());
    }
}

/// The order is transitive.
pub proof fn lemma_lex_transitive(a: Seq<char>, b: Seq<char>, c: Seq<char>)
    requires
        lex_lt(a, b),
        lex_lt(b, c),
    ensures
        lex_lt(a, c),
    decreases a.len(),
{
    if a.len() > 0 && b.len() > 0 && c.len() > 0 {
        if a[0] == b[0] && b[0] == c[0] {
            lemma_lex_transitive(a.drop_first(), b.drop_first(), c.drop_first());
        }
    }
}

/// Distinct strings are ordered one way or the other, and never both.
pub proof fn lemma_lex_total(a: Seq<char>, b: Seq<char>)
    ensures
        a != b ==> (lex_lt(a, b) || lex_lt(b, a)),
        !(lex_lt(a, b) && lex_lt(b, a)),
    decreases a.len(),
{
    if a.len() > 0 && b.len() > 0 {
        lemma_lex_total(a.drop_first(), b.drop_first());
        if a[0] == b[0] && a != b {
            assert(a =~= seq![a[0]] + a.drop_first());
            assert(b =~= seq![b[0]] + b.drop_first());
            assert(a.drop_first() != b.drop_first());
        }
        if a[0] != b[0] {
            vstd::utf8::char_u32_cast(a[0], a[0] as u32);
            vstd::utf8::char_u32_cast(b[0], b[0] as u32);
            assert((a[0] as u32) != (b[0] as u32));
        }
    } else if a.len() == 0 && b.len() == 0 {
        assert(a =~= b);
    }
}

/// Compares two strings in the order of `String`.
pub fn lex_less(a: &[char], b: &[char]) -> (r: bool)
    ensures
        r == lex_lt(a@, b@),
{
    let na = a.len();
    let nb = b.len();
    let mut i: usize = 0;
    assert(a@.skip(0) =~= a@);
    assert(b@.skip(0) =~= b@);
    while i < na && i < nb && a[i] == b[i]
        invariant
            na == a@.len(),
            nb == b@.len(),
            i <= na,
            i <= nb,
            lex_lt(a@, b@) == lex_lt(a@.skip(i as int), b@.skip(i as int)),
        decreases na - i,
    {
        assert(a@.skip(i as int).drop_first() =~= a@.skip(i + 1));
        assert(b@.skip(i as int).drop_first() =~= b@.skip(i + 1));
        i = i + 1;
    }
    if i == na {
        i < nb
    } else if i == nb {
        false
    } else {
        (a[i] as u32) < (b[i] as u32)
    }
}

/// Position `x` comes before position `y` when sorting `keys` into descending
/// order stably: a greater key first, and equal keys in their original order.
pub open spec fn before(keys: Seq<Seq<char>>, x: int, y: int) -> bool {
    lex_lt(keys[y], keys[x]) || (keys[x] == keys[y] && x < y)
}

/// `p` lists the positions of `keys` in stable descending order of their keys.
pub open spec fn is_sorted_perm(keys: Seq<Seq<char>>, p: Seq<usize>) -> bool {
    &&& p.len() == keys.len()
    &&& forall|i: int| 0 <= i < p.len() ==> (#[trigger] p[i]) < keys.len()
    &&& forall|i: int, j: int| 0 <= i < j < p.len() ==> before(keys, #[trigger] p[i] as int, #[trigger] p[j] as int)
}

/// A stable descending order lists every position: each `x` below
/// `keys.len()` appears in `p`.
pub proof fn lemma_sorted_perm_onto(keys: Seq<Seq<char>>, p: Seq<usize>, x: int)
    requires
        is_sorted_perm(keys, p),
        0 <= x < keys.len(),
    ensures
        exists|k: int| 0 <= k < p.len() && #[trigger] p[k] as int == x,
{
    let n = keys.len() as int;
    let s = p.map_values(|v: usize| v as int);
    assert forall|i: int, j: int| 0 <= i < s.len() && 0 <= j < s.len() && i != j implies s[i] != s[j] by {
        if i < j {
            assert(before(keys, p[i] as int, p[j] as int));
        } else {
            assert(before(keys, p[j] as int, p[i] as int));
        }
        if s[i] == s[j] {
            lemma_lex_irreflexive(keys[p[i] as int]);
        }
    }
    assert(s.no_duplicates());
    s.unique_seq_to_set();
    let range = vstd::set_lib::set_int_range(0, n);
    vstd::set_lib::lemma_int_range(0, n);
    if !s.to_set().contains(x) {
        assert(s.to_set().subset_of(range.remove(x))) by {
            assert forall|v: int| s.to_set().contains(v) implies range.remove(x).contains(v) by {
                let k = choose|k: int| 0 <= k < s.len() && s[k] == v;
                assert(p[k] < keys.len());
            }
        }
        vstd::set_lib::lemma_len_subset(s.to_set(), range.remove(x));
        assert(false);
    }
    let k = choose|k: int| 0 <= k < s.len() && s[k] == x;
    assert(p[k] as int == x);
}

/// The positions `0..keys.len()` in stable descending order of their keys
/// (what `sort_by(|a, b| b.cmp(a))` gives).
pub fn sort_desc_indices(keys: &Vec<Vec<char>>) -> (p: Vec<usize>)
    ensures
        is_sorted_perm(keys@.map_values(|k: Vec<char>| k@), p@),
{
    let ghost ks = keys@.map_values(|k: Vec<char>| k@);
    let n = keys.len();
    let mut p: Vec<usize> = Vec::new();
    let mut k: usize = 0;
    while k < n
        invariant
            n == keys@.len(),
            ks == keys@.map_values(|k: Vec<char>| k@),
            k <= n,
            p@.len() == k,
            forall|i: int| 0 <= i < p@.len() ==> (#[trigger] p@[i]) < k,
            forall|i: int, j: int| 0 <= i < j < p@.len() ==> before(ks, #[trigger] p@[i] as int, #[trigger] p@[j] as int),
        decreases n - k,
    {
        // find the first position whose key is smaller than key k
        let mut q: usize = 0;
        while q < k && !lex_less(keys[p[q]].as_slice(), keys[k].as_slice())
            invariant
                n == keys@.len(),
                ks == keys@.map_values(|k: Vec<char>| k@),
                k < n,
                p@.len() == k,
                q <= k,
                forall|i: int| 0 <= i < p@.len() ==> (#[trigger] p@[i]) < k,
                forall|i: int| 0 <= i < q ==> !lex_lt(ks[#[trigger] p@[i] as int], ks[k as int]),
            decreases k - q,
        {
            q = q + 1;
        }
        let ghost old_p = p@;
        proof {
            // everything from q on has a key smaller than key k
            assert forall|i: int| q <= i < k implies lex_lt(ks[#[trigger] old_p[i] as int], ks[k as int]) by {
                if i > q {
                    assert(before(ks, old_p[q as int] as int, old_p[i] as int));
                    if lex_lt(ks[old_p[i] as int], ks[old_p[q as int] as int]) {
                        lemma_lex_transitive(ks[old_p[i] as int], ks[old_p[q as int] as int], ks[k as int]);
                    }
                }
            }
            assert forall|i: int| 0 <= i < q implies before(ks, #[trigger] old_p[i] as int, k as int) by {
                lemma_lex_total(ks[old_p[i] as int], ks[k as int]);
            }
        }
        p.insert(q, k);
        proof {
            assert forall|i: int, j: int| 0 <= i < j < p@.len() implies before(ks, #[trigger] p@[i] as int, #[trigger] p@[j] as int) by {
                if j < q {
                    assert(p@[i] == old_p[i] && p@[j] == old_p[j]);
                } else if j == q {
                    assert(p@[i] == old_p[i]);
                } else if i < q {
                    assert(p@[i] == old_p[i] && p@[j] == old_p[j - 1]);
                    assert(before(ks, old_p[i] as int, k as int));
                    assert(lex_lt(ks[old_p[j - 1] as int], ks[k as int]));
                    if lex_lt(ks[k as int], ks[old_p[i] as int]) {
                        lemma_lex_transitive(ks[old_p[j - 1] as int], ks[k as int], ks[old_p[i] as int]);
                    }
                } else if i == q {
                    assert(p@[j] == old_p[j - 1]);
                } else {
                    assert(p@[i] == old_p[i - 1] && p@[j] == old_p[j - 1]);
                }
            }
        }
        k = k + 1;
    }
    p
}

} // verus!

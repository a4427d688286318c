//! Stable ordering by a key, largest key first.  The result is a list of
//! positions: for positions `0..n` with keys `keys[0..n]`, the unique
//! arrangement in which a larger key comes first and equal keys keep their
//! original relative order (what a stable `sort_by(|a, b| b.cmp(a))` does).

use vstd::prelude::*;

verus! {

/// `a` comes before `b`: its key is larger, or the keys are equal and `a`
/// was earlier.
pub open spec fn before(keys: Seq<i128>, a: int, b: int) -> bool {
    keys[a] > keys[b] || (keys[a] == keys[b] && a < b)
}

/// Where a new element with key `k` goes into `s`: in front of the first
/// element with a smaller key.
pub open spec fn insert_pos(s: Seq<usize>, keys: Seq<i128>, k: i128) -> int
    decreases s.len(),
{
    if s.len() == 0 {
        0
    } else if keys[s[0] as int] < k {
        0
    } else {
        1 + insert_pos(s.drop_first(), keys, k)
    }
}

/// The stable largest-first arrangement of positions `0..n`.
pub open spec fn ordering(keys: Seq<i128>, n: nat) -> Seq<usize>
    decreases n,
{
    if n == 0 {
        Seq::empty()
    } else {
        let s = ordering(keys, (n - 1) as nat);
        s.insert(insert_pos(s, keys, keys[n - 1]), (n - 1) as usize)
    }
}

/// `s` holds each of `0..n` exactly once.
pub open spec fn is_perm(s: Seq<usize>, n: nat) -> bool {
    &&& s.len() == n
    &&& forall|i: int| 0 <= i < s.len() ==> (s[i] as int) < n
    &&& forall|i: int, j: int| 0 <= i < j < s.len() ==> s[i] != s[j]
}

/// Every element of `s` comes before the elements that follow it.
pub open spec fn is_ordered(s: Seq<usize>, keys: Seq<i128>) -> bool {
    forall|i: int, j: int| 0 <= i < j < s.len() ==> before(keys, s[i] as int, s[j] as int)
}

proof fn lemma_insert_pos(s: Seq<usize>, keys: Seq<i128>, k: i128)
    requires
        forall|i: int| 0 <= i < s.len() ==> (s[i] as int) < keys.len(),
    ensures
        0 <= insert_pos(s, keys, k) <= s.len(),
        forall|j: int| 0 <= j < insert_pos(s, keys, k) ==> keys[s[j] as int] >= k,
        insert_pos(s, keys, k) < s.len() ==> keys[s[insert_pos(s, keys, k)] as int] < k,
    decreases s.len(),
{
    if s.len() > 0 && keys[s[0] as int] >= k {
        lemma_insert_pos(s.drop_first(), keys, k);
        assert forall|j: int| 0 <= j < insert_pos(s, keys, k) implies keys[s[j] as int] >= k by {
            if j > 0 {
                assert(s[j] == s.drop_first()[j - 1]);
            }
        }
    }
}

/// The arrangement holds each position once, in the stable largest-first
/// order.
pub proof fn lemma_ordering(keys: Seq<i128>, n: nat)
    requires
        n <= keys.len(),
        n <= usize::MAX,
    ensures
        is_perm(ordering(keys, n), n),
        is_ordered(ordering(keys, n), keys),
    decreases n,
{
    if n > 0 {
        let m = (n - 1) as nat;
        lemma_ordering(keys, m);
        let s = ordering(keys, m);
        let k = keys[m as int];
        lemma_insert_pos(s, keys, k);
        let p = insert_pos(s, keys, k);
        let t = s.insert(p, m as usize);
        assert(t == ordering(keys, n));
        assert forall|i: int| 0 <= i < t.len() implies (t[i] as int) < n by {
            if i < p {
                assert(t[i] == s[i]);
            } else if i > p {
                assert(t[i] == s[i - 1]);
            }
        }
        assert forall|i: int, j: int| 0 <= i < j < t.len() implies t[i] != t[j] by {
            if i < p && j < p {
                assert(t[i] == s[i] && t[j] == s[j]);
            } else if i < p && j == p {
                assert(t[i] == s[i]);
            } else if i < p && j > p {
                assert(t[i] == s[i] && t[j] == s[j - 1]);
            } else if i == p {
                assert(t[j] == s[j - 1]);
            } else {
                assert(t[i] == s[i - 1] && t[j] == s[j - 1]);
            }
        }
        assert forall|i: int, j: int| 0 <= i < j < t.len() implies before(
            keys,
            t[i] as int,
            t[j] as int,
        ) by {
            if i < p && j < p {
                assert(t[i] == s[i] && t[j] == s[j]);
            } else if i < p && j == p {
                assert(t[i] == s[i]);
            } else if i < p && j > p {
                assert(t[i] == s[i] && t[j] == s[j - 1]);
            } else if i == p {
                assert(t[j] == s[j - 1]);
                if j - 1 > p {
                    assert(before(keys, s[p] as int, s[j - 1] as int));
                }
            } else {
                assert(t[i] == s[i - 1] && t[j] == s[j - 1]);
            }
        }
    }
}

/// The positions `0..keys.len()` in stable largest-key-first order.
pub fn order_by_key_desc(keys: &Vec<i128>) -> (r: Vec<usize>)
    ensures
        r@ == ordering(keys@, keys@.len()),
        is_perm(r@, keys@.len()),
        is_ordered(r@, keys@),
{
    let n = keys.len();
    let mut out: Vec<usize> = Vec::new();
    let mut i: usize = 0;
    while i < n
        invariant
            n == keys.len(),
            i <= n,
            out@ == ordering(keys@, i as nat),
        decreases n - i,
    {
        proof {
            lemma_ordering(keys@, i as nat);
        }
        let k = keys[i];
        let mut p: usize = 0;
        assert(out@.skip(0) =~= out@);
        while p < out.len() && keys[out[p]] >= k
            invariant
                n == keys.len(),
                i < n,
                is_perm(out@, i as nat),
                p <= out.len(),
                insert_pos(out@, keys@, k) == p + insert_pos(out@.skip(p as int), keys@, k),
            decreases out.len() - p,
        {
            assert(out@.skip(p as int).drop_first() =~= out@.skip(p + 1));
            p = p + 1;
        }
        proof {
            if p < out.len() {
                assert(out@.skip(p as int)[0] == out@[p as int]);
            }
        }
        out.insert(p, i);
        i = i + 1;
    }
    proof {
        lemma_ordering(keys@, n as nat);
    }
    out
}

/// A permutation of `0..n` holds each of `0..n` somewhere.
pub proof fn lemma_perm_covers(s: Seq<usize>, n: nat, v: int)
    requires
        is_perm(s, n),
        0 <= v < n,
    ensures
        exists|q: int| 0 <= q < s.len() && s[q] as int == v,
{
    let si = s.map_values(|x: usize| x as int);
    assert(si.no_duplicates()) by {
        assert forall|i: int, j: int| 0 <= i < si.len() && 0 <= j < si.len() && i != j implies si[i]
            != si[j] by {
            if i < j {
                assert(s[i] != s[j]);
            } else {
                assert(s[j] != s[i]);
            }
        }
    }
    si.unique_seq_to_set();
    let range = vstd::set_lib::set_int_range(0, n as int);
    vstd::set_lib::lemma_int_range(0, n as int);
    assert(si.to_set().subset_of(range)) by {
        assert forall|x: int| si.to_set().contains(x) implies range.contains(x) by {
            assert(si.contains(x));
            let q = choose|q: int| 0 <= q < si.len() && si[q] == x;
            assert(s[q] < n);
        }
    }
    vstd::seq_lib::seq_to_set_is_finite(si);
    vstd::set_lib::lemma_subset_equality(si.to_set(), range);
    assert(range.contains(v));
    assert(si.to_set().contains(v));
    assert(si.contains(v));
    let q = choose|q: int| 0 <= q < si.len() && si[q] == v;
    assert(s[q] as int == v);
}

} // verus!

//! Ordering strings as `String`'s `Ord` does (lexicographically by
//! character; UTF-8 keeps the order of code points, so this is also the
//! byte order), and sorting lists of strings.

use vstd::prelude::*;
use crate::model::strs;
use crate::text::chars_of;

verus! {

/// `a <= b` lexicographically by character.
pub open spec fn lex_le(a: Seq<char>, b: Seq<char>) -> bool
    decreases a.len(),
{
    if a.len() == 0 {
        true
    } else if b.len() == 0 {
        false
    } else if a[0] < b[0] {
        true
    } else if a[0] > b[0] {
        false
    } else {
        lex_le(a.drop_first(), b.drop_first())
    }
}

/// `a < b` lexicographically by character.
pub open spec fn lex_lt(a: Seq<char>, b: Seq<char>) -> bool {
    lex_le(a, b) && a != b
}

/// Whether `a <= b`.
pub fn str_le(a: &str, b: &str) -> (r: bool)
    ensures
        r == lex_le(a@, b@),
{
    let x = chars_of(a);
    let y = chars_of(b);
    let mut i: usize = 0;
    assert(x@.skip(0) =~= x@);
    assert(y@.skip(0) =~= y@);
    while i < x.len() && i < y.len() && x[i] == y[i]
        invariant
            i <= x.len(),
            i <= y.len(),
            lex_le(x@, y@) == lex_le(x@.skip(i as int), y@.skip(i as int)),
        decreases x.len() - i,
    {
        assert(x@.skip(i as int).drop_first() =~= x@.skip(i + 1));
        assert(y@.skip(i as int).drop_first() =~= y@.skip(i + 1));
        i = i + 1;
    }
    if i == x.len() {
        true
    } else if i == y.len() {
        false
    } else {
        assert(x@.skip(i as int)[0] == x@[i as int]);
        assert(y@.skip(i as int)[0] == y@[i as int]);
        x[i] < y[i]
    }
}

/// Where `x` goes into the sorted `s`: in front of the first element that
/// is not at most `x`.
pub open spec fn str_insert_pos(s: Seq<Seq<char>>, x: Seq<char>) -> int
    decreases s.len(),
{
    if s.len() == 0 {
        0
    } else if !lex_le(s[0], x) {
        0
    } else {
        1 + str_insert_pos(s.drop_first(), x)
    }
}

/// `s` in ascending order; equal strings keep their order.
pub open spec fn sorted_strs(s: Seq<Seq<char>>) -> Seq<Seq<char>>
    decreases s.len(),
{
    if s.len() == 0 {
        s
    } else {
        let t = sorted_strs(s.drop_last());
        t.insert(str_insert_pos(t, s.last()), s.last())
    }
}

proof fn lemma_str_insert_pos_bound(s: Seq<Seq<char>>, x: Seq<char>)
    ensures
        0 <= str_insert_pos(s, x) <= s.len(),
    decreases s.len(),
{
    if s.len() > 0 {
        lemma_str_insert_pos_bound(s.drop_first(), x);
    }
}

proof fn lemma_sorted_len(s: Seq<Seq<char>>)
    ensures
        sorted_strs(s).len() == s.len(),
    decreases s.len(),
{
    if s.len() > 0 {
        lemma_sorted_len(s.drop_last());
        lemma_str_insert_pos_bound(sorted_strs(s.drop_last()), s.last());
    }
}

/// The strings of `v` in ascending order.
pub fn sort_strings(v: &Vec<String>) -> (r: Vec<String>)
    ensures
        strs(r@) == sorted_strs(strs(v@)),
{
    let mut out: Vec<String> = Vec::new();
    let mut i: usize = 0;
    let ghost sv = strs(v@);
    while i < v.len()
        invariant
            i <= v.len(),
            sv == strs(v@),
            strs(out@) == sorted_strs(sv.take(i as int)),
        decreases v.len() - i,
    {
        let x = &v[i];
        let mut p: usize = 0;
        let ghost t = strs(out@);
        assert(t.skip(0) =~= t);
        proof {
            lemma_sorted_len(sv.take(i as int));
        }
        while p < out.len() && str_le(out[p].as_str(), x.as_str())
            invariant
                p <= out.len(),
                t == strs(out@),
                str_insert_pos(t, x@) == p + str_insert_pos(t.skip(p as int), x@),
            decreases out.len() - p,
        {
            assert(t.skip(p as int)[0] == t[p as int]);
            assert(t.skip(p as int).drop_first() =~= t.skip(p + 1));
            p = p + 1;
        }
        proof {
            if p < out.len() {
                assert(t.skip(p as int)[0] == t[p as int]);
            }
            assert(sv.take(i + 1).drop_last() =~= sv.take(i as int));
            assert(sv.take(i + 1).last() == x@);
        }
        out.insert(p, x.clone());
        assert(strs(out@) =~= t.insert(p as int, x@));
        i = i + 1;
    }
    assert(sv.take(v.len() as int) =~= sv);
    out
}

// ---------------------------------------------------------------------------
// The order of strings, and why sorting forgets the original order
// ---------------------------------------------------------------------------

/// Any two strings compare one way or the other.
pub proof fn lemma_lex_total(a: Seq<char>, b: Seq<char>)
    ensures
        lex_le(a, b) || lex_le(b, a),
    decreases a.len(),
{
    if a.len() > 0 && b.len() > 0 && a[0] == b[0] {
        lemma_lex_total(a.drop_first(), b.drop_first());
    }
}

/// Every string is at most itself.
pub proof fn lemma_lex_reflexive(a: Seq<char>)
    ensures
        lex_le(a, a),
    decreases a.len(),
{
    if a.len() > 0 {
        lemma_lex_reflexive(a.drop_first());
    }
}

/// Strings that compare both ways are equal.
pub proof fn lemma_lex_antisymmetric(a: Seq<char>, b: Seq<char>)
    requires
        lex_le(a, b),
        lex_le(b, a),
    ensures
        a == b,
    decreases a.len(),
{
    if a.len() > 0 && b.len() > 0 {
        lemma_lex_antisymmetric(a.drop_first(), b.drop_first());
        assert(a =~= seq![a[0]] + a.drop_first());
        assert(b =~= seq![b[0]] + b.drop_first());
    } else if a.len() == 0 && b.len() == 0 {
        assert(a =~= b);
    }
}

/// The order of strings is transitive.
pub proof fn lemma_lex_transitive(a: Seq<char>, b: Seq<char>, c: Seq<char>)
    requires
        lex_le(a, b),
        lex_le(b, c),
    ensures
        lex_le(a, c),
    decreases a.len(),
{
    if a.len() > 0 && b.len() > 0 && c.len() > 0 && a[0] == b[0] && b[0] == c[0] {
        lemma_lex_transitive(a.drop_first(), b.drop_first(), c.drop_first());
    }
}

/// The strings are in ascending order.
pub open spec fn ascending(s: Seq<Seq<char>>) -> bool {
    forall|i: int, j: int| 0 <= i < j < s.len() ==> lex_le(#[trigger] s[i], #[trigger] s[j])
}

proof fn lemma_insert_pos_facts(t: Seq<Seq<char>>, x: Seq<char>)
    ensures
        0 <= str_insert_pos(t, x) <= t.len(),
        forall|k: int| 0 <= k < str_insert_pos(t, x) ==> lex_le(#[trigger] t[k], x),
        str_insert_pos(t, x) < t.len() ==> !lex_le(t[str_insert_pos(t, x)], x),
    decreases t.len(),
{
    if t.len() > 0 && lex_le(t[0], x) {
        lemma_insert_pos_facts(t.drop_first(), x);
        assert forall|k: int| 0 <= k < str_insert_pos(t, x) implies lex_le(#[trigger] t[k], x) by {
            if k > 0 {
                assert(t[k] == t.drop_first()[k - 1]);
            }
        }
    }
}

proof fn lemma_insert_ascending(t: Seq<Seq<char>>, x: Seq<char>)
    requires
        ascending(t),
    ensures
        ascending(t.insert(str_insert_pos(t, x), x)),
{
    lemma_insert_pos_facts(t, x);
    let p = str_insert_pos(t, x);
    let u = t.insert(p, x);
    if p < t.len() {
        lemma_lex_total(t[p], x);
    }
    assert forall|i: int, j: int| 0 <= i < j < u.len() implies lex_le(#[trigger] u[i], #[trigger] u[j]) by {
        if j < p {
        } else if j == p {
            assert(u[i] == t[i]);
        } else if i < p {
            assert(u[i] == t[i] && u[j] == t[j - 1]);
            lemma_lex_transitive(t[i], x, t[p]);
            if j - 1 > p {
                lemma_lex_transitive(t[i], t[p], t[j - 1]);
            }
        } else if i == p {
            assert(u[j] == t[j - 1]);
            if j - 1 > p {
                lemma_lex_transitive(x, t[p], t[j - 1]);
            }
        } else {
            assert(u[i] == t[i - 1] && u[j] == t[j - 1]);
        }
    }
}

/// Sorting gives ascending strings, the same strings as before.
pub proof fn lemma_sorted_strs(s: Seq<Seq<char>>)
    ensures
        ascending(sorted_strs(s)),
        sorted_strs(s).to_multiset() == s.to_multiset(),
    decreases s.len(),
{
    broadcast use vstd::seq_lib::to_multiset_build, vstd::seq_lib::to_multiset_insert;

    if s.len() == 0 {
        assert(sorted_strs(s) =~= s);
    } else {
        let t = sorted_strs(s.drop_last());
        lemma_sorted_strs(s.drop_last());
        lemma_insert_ascending(t, s.last());
        lemma_insert_pos_facts(t, s.last());
        assert(s =~= s.drop_last().push(s.last()));
    }
}

proof fn lemma_ascending_unique(a: Seq<Seq<char>>, b: Seq<Seq<char>>)
    requires
        ascending(a),
        ascending(b),
        a.to_multiset() == b.to_multiset(),
    ensures
        a == b,
    decreases a.len(),
{
    broadcast use vstd::seq_lib::to_multiset_remove, vstd::seq_lib::to_multiset_contains, vstd::seq_lib::to_multiset_len;

    if a.len() == 0 {
        assert(b.to_multiset().len() == 0);
        assert(b =~= a);
    } else {
        assert(a.to_multiset().count(a[0]) > 0);
        assert(b.contains(a[0]));
        let k = choose|k: int| 0 <= k < b.len() && b[k] == a[0];
        assert(b.len() > 0);
        assert(b.to_multiset().count(b[0]) > 0);
        assert(a.contains(b[0]));
        let m = choose|m: int| 0 <= m < a.len() && a[m] == b[0];
        if k > 0 {
            assert(lex_le(b[0], b[k]));
        } else {
            lemma_lex_reflexive(b[0]);
        }
        if m > 0 {
            assert(lex_le(a[0], a[m]));
        } else {
            lemma_lex_reflexive(a[0]);
        }
        lemma_lex_antisymmetric(a[0], b[0]);
        assert(a.remove(0) =~= a.drop_first());
        assert(b.remove(0) =~= b.drop_first());
        assert(a.drop_first().to_multiset() == b.drop_first().to_multiset());
        assert(ascending(a.drop_first())) by {
            assert forall|i: int, j: int| 0 <= i < j < a.drop_first().len() implies lex_le(
                #[trigger] a.drop_first()[i],
                #[trigger] a.drop_first()[j],
            ) by {
                assert(a.drop_first()[i] == a[i + 1] && a.drop_first()[j] == a[j + 1]);
            }
        }
        assert(ascending(b.drop_first())) by {
            assert forall|i: int, j: int| 0 <= i < j < b.drop_first().len() implies lex_le(
                #[trigger] b.drop_first()[i],
                #[trigger] b.drop_first()[j],
            ) by {
                assert(b.drop_first()[i] == b[i + 1] && b.drop_first()[j] == b[j + 1]);
            }
        }
        lemma_ascending_unique(a.drop_first(), b.drop_first());
        assert(a =~= seq![a[0]] + a.drop_first());
        assert(b =~= seq![b[0]] + b.drop_first());
    }
}

/// Sorting forgets the original order: lists that hold the same strings
/// (each as often) sort to the same list.
pub proof fn law_sort_ignores_order(s1: Seq<Seq<char>>, s2: Seq<Seq<char>>)
    requires
        s1.to_multiset() == s2.to_multiset(),
    ensures
        sorted_strs(s1) == sorted_strs(s2),
{
    lemma_sorted_strs(s1);
    lemma_sorted_strs(s2);
    lemma_ascending_unique(sorted_strs(s1), sorted_strs(s2));
}

} // verus!

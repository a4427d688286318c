//! Lists of strings: membership and removal of repeats, keeping the first
//! occurrence of each string in place.

use vstd::prelude::*;
use crate::model::strs;
use crate::text::str_eq;

verus! {

/// `s` without repeats: each string at the place of its first occurrence.
pub open spec fn firsts(s: Seq<Seq<char>>) -> Seq<Seq<char>>
    decreases s.len(),
{
    if s.len() == 0 {
        s
    } else {
        let t = firsts(s.drop_last());
        if t.contains(s.last()) {
            t
        } else {
            t.push(s.last())
        }
    }
}

/// Whether `v` holds the string `s`.
pub fn contains_str(v: &Vec<String>, s: &str) -> (r: bool)
    ensures
        r == strs(v@).contains(s@),
{
    let mut i: usize = 0;
    while i < v.len()
        invariant
            i <= v.len(),
            forall|j: int| 0 <= j < i ==> v@[j]@ != s@,
        decreases v.len() - i,
    {
        if str_eq(v[i].as_str(), s) {
            assert(strs(v@)[i as int] == s@);
            return true;
        }
        i = i + 1;
    }
    proof {
        if strs(v@).contains(s@) {
            let k = choose|k: int| 0 <= k < strs(v@).len() && strs(v@)[k] == s@;
            assert(v@[k]@ == s@);
        }
    }
    false
}

/// Appends `s` to `v` unless `v` holds it already.
pub fn push_unique(v: &mut Vec<String>, s: String)
    ensures
        strs(final(v)@) == (if strs(old(v)@).contains(s@) {
            strs(old(v)@)
        } else {
            strs(old(v)@).push(s@)
        }),
{
    if !contains_str(v, s.as_str()) {
        v.push(s);
        assert(strs(v@) =~= strs(old(v)@).push(s@));
    }
}

/// The strings of `items` without repeats, in order of first occurrence.
pub fn dedupe_preserve_order(items: Vec<String>) -> (r: Vec<String>)
    ensures
        strs(r@) == firsts(strs(items@)),
{
    let ghost si = strs(items@);
    let mut seen: Vec<String> = Vec::new();
    let mut i: usize = 0;
    while i < items.len()
        invariant
            i <= items.len(),
            si == strs(items@),
            strs(seen@) == firsts(si.take(i as int)),
        decreases items.len() - i,
    {
        assert(si.take(i + 1).drop_last() =~= si.take(i as int));
        assert(si.take(i + 1).last() == items@[i as int]@);
        push_unique(&mut seen, items[i].clone());
        i = i + 1;
    }
    assert(si.take(items.len() as int) =~= si);
    seen
}

/// No string occurs twice in `firsts(s)`.
pub proof fn lemma_firsts_distinct(s: Seq<Seq<char>>)
    ensures
        forall|i: int, j: int|
            0 <= i < j < firsts(s).len() ==> firsts(s)[i] != firsts(s)[j],
    decreases s.len(),
{
    if s.len() > 0 {
        lemma_firsts_distinct(s.drop_last());
        let t = firsts(s.drop_last());
        if !t.contains(s.last()) {
            assert forall|i: int, j: int| 0 <= i < j < firsts(s).len() implies firsts(s)[i]
                != firsts(s)[j] by {
                if j == t.len() {
                    assert(firsts(s)[i] == t[i]);
                    if t[i] == s.last() {
                        assert(t.contains(s.last()));
                    }
                }
            }
        }
    }
}

/// Removing repeats keeps exactly the strings that were there.
pub proof fn law_firsts_keeps_members(s: Seq<Seq<char>>, x: Seq<char>)
    ensures
        firsts(s).contains(x) <==> s.contains(x),
    decreases s.len(),
{
    if s.len() > 0 {
        law_firsts_keeps_members(s.drop_last(), x);
        let t = firsts(s.drop_last());
        if s.contains(x) && !s.drop_last().contains(x) {
            assert(s.last() == x) by {
                let k = choose|k: int| 0 <= k < s.len() && s[k] == x;
                if k < s.len() - 1 {
                    assert(s.drop_last()[k] == x);
                }
            }
            if !t.contains(x) {
                assert(t.push(x)[t.len() as int] == x);
            }
        }
        if s.drop_last().contains(x) {
            let k = choose|k: int| 0 <= k < s.drop_last().len() && s.drop_last()[k] == x;
            assert(s[k] == x);
            if !t.contains(s.last()) {
                let m = choose|m: int| 0 <= m < t.len() && t[m] == x;
                assert(t.push(s.last())[m] == x);
            }
        }
        if firsts(s).contains(x) && !t.contains(x) {
            let m = choose|m: int| 0 <= m < firsts(s).len() && firsts(s)[m] == x;
            assert(x == s.last());
            assert(s[s.len() - 1] == x);
        }
    }
}

} // verus!

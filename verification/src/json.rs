//! A plain model of JSON documents, used for the free-form `extra` metadata
//! that plugins attach to stored entries.  Objects keep their members in
//! order; a lookup finds the first member with the key.

use vstd::prelude::*;
use crate::text::str_eq;

verus! {

/// A JSON value.  Numbers keep their textual form.
pub enum Json {
    Null,
    Bool(bool),
    Number(String),
    Str(String),
    Array(Vec<Json>),
    Object(Vec<(String, Json)>),
}

/// The first member of `entries` named `key`.
pub open spec fn member(entries: Seq<(String, Json)>, key: Seq<char>) -> Option<Json>
    decreases entries.len(),
{
    if entries.len() == 0 {
        None
    } else if entries[0].0@ == key {
        Some(entries[0].1)
    } else {
        member(entries.drop_first(), key)
    }
}

/// `v.get(key)`: the member `key` of an object, `None` for anything else.
pub open spec fn get_spec(v: Json, key: Seq<char>) -> Option<Json> {
    match v {
        Json::Object(entries) => member(entries@, key),
        _ => None,
    }
}

/// The names of an object's members, in order.
pub open spec fn keys_of(entries: Seq<(String, Json)>) -> Seq<Seq<char>> {
    Seq::new(entries.len(), |j: int| entries[j].0@)
}

/// The strings among the elements of an array, in order
/// (`filter_map(Value::as_str)`).
pub open spec fn strings_of(items: Seq<Json>) -> Seq<Seq<char>>
    decreases items.len(),
{
    if items.len() == 0 {
        Seq::empty()
    } else {
        let rest = strings_of(items.drop_last());
        match items.last() {
            Json::Str(s) => rest.push(s@),
            _ => rest,
        }
    }
}

impl Json {
    /// `Value::get`: the member `key` of an object.
    pub fn get(&self, key: &str) -> (r: Option<&Json>)
        ensures
            r matches Some(x) ==> get_spec(*self, key@) == Some(*x),
            r is None ==> get_spec(*self, key@) is None,
    {
        match self {
            Json::Object(entries) => {
                let mut i: usize = 0;
                assert(entries@.skip(0) =~= entries@);
                while i < entries.len()
                    invariant
                        i <= entries.len(),
                        *self == Json::Object(*entries),
                        member(entries@, key@) == member(entries@.skip(i as int), key@),
                    decreases entries.len() - i,
                {
                    assert(entries@.skip(i as int).drop_first() =~= entries@.skip(i + 1));
                    assert(entries@.skip(i as int)[0] == entries@[i as int]);
                    if str_eq(entries[i].0.as_str(), key) {
                        assert(entries@.skip(i as int)[0].0@ == key@);
                        assert(member(entries@.skip(i as int), key@) == Some(entries@[i as int].1));
                        return Some(&entries[i].1);
                    }
                    i = i + 1;
                }
                None
            },
            _ => None,
        }
    }

    /// `Value::as_str`.
    pub fn as_str(&self) -> (r: Option<&String>)
        ensures
            r matches Some(s) ==> *self == Json::Str(*s),
            r is None ==> !(*self is Str),
    {
        match self {
            Json::Str(s) => Some(s),
            _ => None,
        }
    }

    /// `Value::as_array`.
    pub fn as_array(&self) -> (r: Option<&Vec<Json>>)
        ensures
            r matches Some(a) ==> *self == Json::Array(*a),
            r is None ==> !(*self is Array),
    {
        match self {
            Json::Array(a) => Some(a),
            _ => None,
        }
    }

    /// `Value::as_object`.
    pub fn as_object(&self) -> (r: Option<&Vec<(String, Json)>>)
        ensures
            r matches Some(o) ==> *self == Json::Object(*o),
            r is None ==> !(*self is Object),
    {
        match self {
            Json::Object(o) => Some(o),
            _ => None,
        }
    }
}

/// The strings of an array, in order.
pub fn array_strings(items: &Vec<Json>) -> (r: Vec<String>)
    ensures
        r@.map_values(|s: String| s@) == strings_of(items@),
{
    let mut r: Vec<String> = Vec::new();
    let mut i: usize = 0;
    while i < items.len()
        invariant
            i <= items.len(),
            r@.map_values(|s: String| s@) == strings_of(items@.take(i as int)),
        decreases items.len() - i,
    {
        assert(items@.take(i + 1).drop_last() =~= items@.take(i as int));
        match &items[i] {
            Json::Str(s) => {
                r.push(s.clone());
            },
            _ => {},
        }
        i = i + 1;
        assert(r@.map_values(|s: String| s@) =~= strings_of(items@.take(i as int)));
    }
    assert(items@.take(items.len() as int) =~= items@);
    r
}

/// The names of an object's members, in order.
pub fn object_keys(entries: &Vec<(String, Json)>) -> (r: Vec<String>)
    ensures
        r@.len() == entries@.len(),
        forall|j: int| 0 <= j < r@.len() ==> #[trigger] r@[j]@ == entries@[j].0@,
{
    let mut r: Vec<String> = Vec::new();
    let mut i: usize = 0;
    while i < entries.len()
        invariant
            i <= entries.len(),
            r@.len() == i,
            forall|j: int| 0 <= j < i ==> #[trigger] r@[j]@ == entries@[j].0@,
        decreases entries.len() - i,
    {
        let k = entries[i].0.clone();
        r.push(k);
        i = i + 1;
    }
    r
}

proof fn lemma_member_update(s: Seq<(String, Json)>, i: int, key: String, value: Json, k: Seq<char>)
    requires
        0 <= i < s.len(),
        s[i].0@ == key@,
        forall|j: int| 0 <= j < i ==> s[j].0@ != key@,
    ensures
        member(s.update(i, (key, value)), k) == (if k == key@ {
            Some(value)
        } else {
            member(s, k)
        }),
    decreases i,
{
    let u = s.update(i, (key, value));
    if i > 0 {
        assert(u.drop_first() =~= s.drop_first().update(i - 1, (key, value)));
        assert(u[0] == s[0]);
        lemma_member_update(s.drop_first(), i - 1, key, value, k);
    } else {
        assert(u.drop_first() =~= s.drop_first());
        assert(u[0] == (key, value));
    }
}

proof fn lemma_member_push(s: Seq<(String, Json)>, key: String, value: Json, k: Seq<char>)
    requires
        forall|j: int| 0 <= j < s.len() ==> s[j].0@ != key@,
    ensures
        member(s.push((key, value)), k) == (if k == key@ {
            Some(value)
        } else {
            member(s, k)
        }),
    decreases s.len(),
{
    let u = s.push((key, value));
    if s.len() > 0 {
        assert(u.drop_first() =~= s.drop_first().push((key, value)));
        assert(u[0] == s[0]);
        lemma_member_push(s.drop_first(), key, value, k);
    } else {
        assert(u.drop_first() =~= Seq::<(String, Json)>::empty());
        assert(u[0] == (key, value));
        assert(member(u.drop_first(), k) is None);
    }
}

/// Sets the member `key` of an object to `value` (`Map::insert`): an
/// existing member keeps its place and takes the new value, a new one goes
/// last.
pub fn object_insert(entries: &mut Vec<(String, Json)>, key: String, value: Json)
    ensures
        forall|k: Seq<char>|
            #[trigger] member(final(entries)@, k) == (if k == key@ {
                Some(value)
            } else {
                member(old(entries)@, k)
            }),
{
    let mut i: usize = 0;
    while i < entries.len()
        invariant
            i <= entries.len(),
            entries@ == old(entries)@,
            forall|j: int| 0 <= j < i ==> entries@[j].0@ != key@,
        decreases entries.len() - i,
    {
        if str_eq(entries[i].0.as_str(), key.as_str()) {
            let ghost s = entries@;
            let ghost kk = key;
            let ghost vv = value;
            entries.set(i, (key, value));
            assert forall|k: Seq<char>|
                #[trigger] member(entries@, k) == (if k == kk@ {
                    Some(vv)
                } else {
                    member(s, k)
                }) by {
                lemma_member_update(s, i as int, kk, vv, k);
            }
            return;
        }
        i = i + 1;
    }
    let ghost s = entries@;
    let ghost kk = key;
    let ghost vv = value;
    entries.push((key, value));
    assert forall|k: Seq<char>|
        #[trigger] member(entries@, k) == (if k == kk@ {
            Some(vv)
        } else {
            member(s, k)
        }) by {
        lemma_member_push(s, kk, vv, k);
    }
}

/// The first member of `entries` named `key` (`Map::get`).
pub fn object_member<'a>(entries: &'a Vec<(String, Json)>, key: &str) -> (r: Option<&'a Json>)
    ensures
        r matches Some(x) ==> member(entries@, key@) == Some(*x),
        r is None ==> member(entries@, key@) is None,
{
    let mut i: usize = 0;
    assert(entries@.skip(0) =~= entries@);
    while i < entries.len()
        invariant
            i <= entries.len(),
            member(entries@, key@) == member(entries@.skip(i as int), key@),
        decreases entries.len() - i,
    {
        assert(entries@.skip(i as int).drop_first() =~= entries@.skip(i + 1));
        assert(entries@.skip(i as int)[0] == entries@[i as int]);
        if str_eq(entries[i].0.as_str(), key) {
            return Some(&entries[i].1);
        }
        i = i + 1;
    }
    None
}

} // verus!

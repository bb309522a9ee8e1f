//! A JSON document as plain values, and the lookup of object members.

use vstd::prelude::*;

use crate::text::str_eq;

verus! {

/// A JSON value. A number is held as its text, so that it is carried through
/// unchanged.
#[derive(Debug, PartialEq)]
pub enum Json {
    Null,
    Bool(bool),
    Number(String),
    Str(String),
    Array(Vec<Json>),
    Object(Vec<(String, Json)>),
}

/// The value of member `key` of an object: the last member of that name.
pub open spec fn obj_get(es: Seq<(String, Json)>, key: Seq<char>) -> Option<Json>
    decreases es.len(),
{
    if es.len() == 0 {
        None
    } else if es.last().0@ == key {
        Some(es.last().1)
    } else {
        obj_get(es.drop_last(), key)
    }
}

/// The views of a list of member names.
pub open spec fn names_view(keys: Seq<&str>) -> Seq<Seq<char>> {
    keys.map_values(|k: &str| k@)
}

/// The members of an object whose names are not among `keys`, in order.
pub open spec fn unknown_entries(es: Seq<(String, Json)>, keys: Seq<Seq<char>>) -> Seq<
    (String, Json),
>
    decreases es.len(),
{
    if es.len() == 0 {
        Seq::empty()
    } else if keys.contains(es.last().0@) {
        unknown_entries(es.drop_last(), keys)
    } else {
        unknown_entries(es.drop_last(), keys).push(es.last())
    }
}

/// Dropping the members with listed names changes no other member's value,
/// and leaves no member with a listed name.
pub proof fn lemma_unknown_entries(es: Seq<(String, Json)>, keys: Seq<Seq<char>>, k: Seq<char>)
    ensures
        !keys.contains(k) ==> obj_get(unknown_entries(es, keys), k) == obj_get(es, k),
        keys.contains(k) ==> obj_get(unknown_entries(es, keys), k) is None,
    decreases es.len(),
{
    if es.len() > 0 {
        lemma_unknown_entries(es.drop_last(), keys, k);
        let u = unknown_entries(es, keys);
        if !keys.contains(es.last().0@) {
            assert(u.drop_last() =~= unknown_entries(es.drop_last(), keys));
        }
    }
}

/// No name is listed twice.
pub open spec fn names_distinct(keys: Seq<&str>) -> bool {
    forall|a: int, b: int| 0 <= a < b < keys.len() ==> (#[trigger] keys[a])@ != (#[trigger] keys[b])@
}

/// The position of `k` among `keys`, if it is listed.
pub fn name_index(keys: &[&str], k: &str) -> (r: Option<usize>)
    ensures
        match r {
            Some(a) => a < keys@.len() && keys@[a as int]@ == k@,
            None => !names_view(keys@).contains(k@),
        },
{
    let mut i: usize = 0;
    while i < keys.len()
        invariant
            i <= keys@.len(),
            forall|j: int| 0 <= j < i ==> keys@[j]@ != k@,
        decreases keys@.len() - i,
    {
        if str_eq(keys[i], k) {
            return Some(i);
        }
        i += 1;
    }
    proof {
        if names_view(keys@).contains(k@) {
            let j = choose|j: int| 0 <= j < names_view(keys@).len() && names_view(keys@)[j] == k@;
            assert(keys@[j]@ == k@);
        }
    }
    None
}

/// Takes an object apart: for each of `keys`, the value of the member of that
/// name, and the members of other names, in order.
pub fn collect_fields(entries: Vec<(String, Json)>, keys: &[&str]) -> (r: (
    Vec<Option<Json>>,
    Vec<(String, Json)>,
))
    requires
        names_distinct(keys@),
    ensures
        r.0@.len() == keys@.len(),
        forall|j: int| 0 <= j < keys@.len() ==> r.0@[j] == obj_get(entries@, #[trigger] keys@[j]@),
        r.1@ == unknown_entries(entries@, names_view(keys@)),
{
    let ghost orig = entries@;
    let ghost names = names_view(keys@);
    let mut slots: Vec<Option<Json>> = Vec::new();
    let mut j: usize = 0;
    while j < keys.len()
        invariant
            j <= keys@.len(),
            slots@.len() == j,
            forall|a: int| 0 <= a < j ==> slots@[a] is None,
        decreases keys@.len() - j,
    {
        slots.push(None);
        j += 1;
    }
    let mut rest: Vec<(String, Json)> = Vec::new();
    let mut entries = entries;
    let n = entries.len();
    let mut i: usize = 0;
    assert(orig.subrange(0, 0) =~= Seq::<(String, Json)>::empty());
    assert(orig.subrange(0, n as int) =~= orig);
    while i < n
        invariant
            n == orig.len(),
            i <= n,
            names == names_view(keys@),
            names_distinct(keys@),
            entries@ == orig.subrange(i as int, n as int),
            slots@.len() == keys@.len(),
            forall|a: int|
                0 <= a < keys@.len() ==> slots@[a] == obj_get(
                    orig.subrange(0, i as int),
                    #[trigger] keys@[a]@,
                ),
            rest@ == unknown_entries(orig.subrange(0, i as int), names),
        decreases n - i,
    {
        let ghost before = slots@;
        let (k, v) = entries.remove(0);
        let ghost next = orig.subrange(0, i + 1);
        proof {
            assert(orig[i as int] == (k, v));
            assert(next.drop_last() =~= orig.subrange(0, i as int));
            assert(next.last() == (k, v));
            assert(entries@ =~= orig.subrange(i + 1, n as int));
        }
        match name_index(keys, k.as_str()) {
            Some(a) => {
                slots.set(a, Some(v));
                proof {
                    assert(names[a as int] == k@);
                    assert forall|b: int| 0 <= b < keys@.len() implies slots@[b] == obj_get(
                        next,
                        #[trigger] keys@[b]@,
                    ) by {
                        if b != a {
                            assert(keys@[b]@ != keys@[a as int]@);
                        }
                    }
                }
            },
            None => {
                rest.push((k, v));
                proof {
                    assert forall|b: int| 0 <= b < keys@.len() implies slots@[b] == obj_get(
                        next,
                        #[trigger] keys@[b]@,
                    ) by {
                        assert(names[b] == keys@[b]@);
                    }
                }
            },
        }
        i += 1;
    }
    (slots, rest)
}

/// Appends a member to an object.
pub fn push_member(out: &mut Vec<(String, Json)>, key: &str, value: Json)
    ensures
        final(out)@.len() == old(out)@.len() + 1,
        forall|k: Seq<char>|
            #![trigger obj_get(final(out)@, k)]
            obj_get(final(out)@, k) == if k == key@ {
                Some(value)
            } else {
                obj_get(old(out)@, k)
            },
{
    let ghost before = out@;
    out.push((key.to_owned(), value));
    assert(out@.drop_last() =~= before);
}

} // verus!

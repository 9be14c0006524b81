//! JSON documents, through `serde_json`. A JSON value is a
//! `serde_json::Value`, carried as it is; a JSON object is held as its
//! members: (key, value) pairs.

use vstd::prelude::*;

verus! {

#[verifier::external_type_specification]
#[verifier::external_body]
pub struct ExJsonValue(serde_json::Value);

/// `serde_json::Value`'s `Clone`, which is derived: the copy is the same value.
pub assume_specification[ <serde_json::Value as Clone>::clone ](v: &serde_json::Value) -> (r: serde_json::Value)
    ensures
        r == *v,
;

/// What `serde_json::from_str` makes of `text`: its error message, or, for a
/// document whose top level is an object, its members in the map's order
/// (`None` for any other top level).
pub uninterp spec fn json_object_of(text: Seq<char>) -> Result<Option<Seq<(Seq<char>, serde_json::Value)>>, Seq<char>>;

/// What `serde_json::to_string_pretty` prints for the object with these
/// members.
pub uninterp spec fn json_pretty_object(members: Seq<(Seq<char>, serde_json::Value)>) -> Seq<char>;

/// Whether `Value`'s `==` finds `a` and `b` equal (so `0.0` and `-0.0` are
/// equal numbers).
pub uninterp spec fn json_equal(a: serde_json::Value, b: serde_json::Value) -> bool;

/// What `Value`'s `Display` prints for `v`: its compact JSON text.
pub uninterp spec fn json_text(v: serde_json::Value) -> Seq<char>;

pub open spec fn member_views(v: Seq<(String, serde_json::Value)>) -> Seq<(Seq<char>, serde_json::Value)> {
    v.map_values(|p: (String, serde_json::Value)| (p.0@, p.1))
}

pub open spec fn members_result_view(r: Result<Option<Vec<(String, serde_json::Value)>>, String>) -> Result<
    Option<Seq<(Seq<char>, serde_json::Value)>>,
    Seq<char>,
> {
    match r {
        Err(e) => Err(e@),
        Ok(None) => Ok(None),
        Ok(Some(m)) => Ok(Some(member_views(m@))),
    }
}

/// No two members share a key.
pub open spec fn distinct_keys(m: Seq<(Seq<char>, serde_json::Value)>) -> bool {
    forall|i: int, j: int| 0 <= i < j < m.len() ==> (#[trigger] m[i]).0 != (#[trigger] m[j]).0
}

/// Calls `serde_json::from_str::<serde_json::Value>` on `text`. An error is
/// handed back as its message; an object as its members in the map's order.
/// The map is a `BTreeMap`, so keys are distinct.
#[verifier::external_body]
pub(crate) fn parse_json_object(text: &str) -> (r: Result<Option<Vec<(String, serde_json::Value)>>, String>)
    ensures
        members_result_view(r) == json_object_of(text@),
        r matches Ok(Some(m)) ==> distinct_keys(member_views(m@)),
{
    match serde_json::from_str::<serde_json::Value>(text) {
        Err(e) => Err(e.to_string()),
        Ok(serde_json::Value::Object(m)) => Ok(Some(m.into_iter().collect())),
        Ok(_) => Ok(None),
    }
}

/// Calls `serde_json::to_string_pretty` on the object with these members.
/// For a `Value` it cannot fail: its documentation names only a failing
/// `Serialize` impl and non-string map keys, neither of which a `Value`
/// object has.
#[verifier::external_body]
pub(crate) fn render_json_object(members: &Vec<(String, serde_json::Value)>) -> (r: String)
    ensures
        r@ == json_pretty_object(member_views(members@)),
{
    let object: serde_json::Map<String, serde_json::Value> = members.iter().cloned().collect();
    serde_json::to_string_pretty(&serde_json::Value::Object(object)).unwrap_or_default()
}

/// Calls `Value`'s `==` (derived; a `Value` holds only finite numbers, so
/// it is an equivalence, and a value equals itself).
#[verifier::external_body]
pub(crate) fn json_values_equal(a: &serde_json::Value, b: &serde_json::Value) -> (r: bool)
    ensures
        r == json_equal(*a, *b),
        *a == *b ==> r,
{
    *a == *b
}

/// Calls `Value`'s `Display`.
#[verifier::external_body]
pub(crate) fn json_value_text(v: &serde_json::Value) -> (r: String)
    ensures
        r@ == json_text(*v),
{
    v.to_string()
}

/// The values are the same, or `Value`'s `==` finds them equal.
pub open spec fn json_values_match(a: serde_json::Value, b: serde_json::Value) -> bool {
    a == b || json_equal(a, b)
}

/// Index of the member with key `k`.
pub open spec fn member_index(m: Seq<(Seq<char>, serde_json::Value)>, k: Seq<char>) -> Option<int> {
    if exists|i: int| 0 <= i < m.len() && m[i].0 == k {
        Some(choose|i: int| 0 <= i < m.len() && m[i].0 == k)
    } else {
        None
    }
}

/// The value of member `k`, if there is one.
pub open spec fn member_get(m: Seq<(Seq<char>, serde_json::Value)>, k: Seq<char>) -> Option<serde_json::Value> {
    match member_index(m, k) {
        Some(i) => Some(m[i].1),
        None => None,
    }
}

/// The members with `k` set to `v`: updated in place, or added at the end.
pub open spec fn member_set(m: Seq<(Seq<char>, serde_json::Value)>, k: Seq<char>, v: serde_json::Value) -> Seq<(Seq<char>, serde_json::Value)> {
    match member_index(m, k) {
        Some(i) => m.update(i, (k, v)),
        None => m.push((k, v)),
    }
}

/// The members without `k`.
pub open spec fn member_remove(m: Seq<(Seq<char>, serde_json::Value)>, k: Seq<char>) -> Seq<(Seq<char>, serde_json::Value)> {
    match member_index(m, k) {
        Some(i) => m.remove(i),
        None => m,
    }
}

/// The members as a map from key to value.
pub open spec fn members_map(m: Seq<(Seq<char>, serde_json::Value)>) -> Map<Seq<char>, serde_json::Value> {
    Map::new(|k: Seq<char>| member_index(m, k) is Some, |k: Seq<char>| member_get(m, k)->0)
}

pub fn find_member(m: &Vec<(String, serde_json::Value)>, k: &str) -> (r: Option<usize>)
    ensures
        match r {
            Some(i) => i < m.len() && member_index(member_views(m@), k@) is Some && member_views(m@)[i as int].0 == k@,
            None => member_index(member_views(m@), k@) is None,
        },
{
    let ghost mv = member_views(m@);
    let mut i: usize = 0;
    while i < m.len()
        invariant
            i <= m.len(),
            mv == member_views(m@),
            forall|j: int| 0 <= j < i ==> (#[trigger] mv[j]).0 != k@,
        decreases m.len() - i,
    {
        if m[i].0 == k.to_owned() {
            assert(mv[i as int].0 == k@);
            return Some(i);
        }
        i = i + 1;
    }
    None
}

proof fn lemma_member_index_unique(m: Seq<(Seq<char>, serde_json::Value)>, k: Seq<char>, i: int)
    requires
        distinct_keys(m),
        0 <= i < m.len(),
        m[i].0 == k,
    ensures
        member_index(m, k) == Some(i),
{
    let j = choose|j: int| 0 <= j < m.len() && m[j].0 == k;
    if j != i {
        if j < i {
            assert(m[j].0 != m[i].0);
        } else {
            assert(m[i].0 != m[j].0);
        }
    }
}

/// The value of member `k`.
pub fn get_member(m: &Vec<(String, serde_json::Value)>, k: &str) -> (r: Option<serde_json::Value>)
    requires
        distinct_keys(member_views(m@)),
    ensures
        r == member_get(member_views(m@), k@),
{
    match find_member(m, k) {
        Some(i) => {
            proof {
                lemma_member_index_unique(member_views(m@), k@, i as int);
            }
            Some(m[i].1.clone())
        },
        None => None,
    }
}

/// Sets member `k` to `v`.
pub fn set_member(m: &mut Vec<(String, serde_json::Value)>, k: &str, v: &serde_json::Value)
    requires
        distinct_keys(member_views(old(m)@)),
    ensures
        member_views(final(m)@) == member_set(member_views(old(m)@), k@, *v),
        distinct_keys(member_views(final(m)@)),
{
    let ghost before = member_views(m@);
    match find_member(m, k) {
        Some(i) => {
            proof {
                lemma_member_index_unique(before, k@, i as int);
            }
            m.set(i, (k.to_owned(), v.clone()));
            assert(member_views(m@) =~= before.update(i as int, (k@, *v)));
            assert forall|a: int, b: int| 0 <= a < b < member_views(m@).len() implies (
            #[trigger] member_views(m@)[a]).0 != (#[trigger] member_views(m@)[b]).0 by {
                if a == i as int {
                    assert(before[a].0 != before[b].0);
                } else if b == i as int {
                    assert(before[a].0 != before[b].0);
                } else {
                    assert(before[a].0 != before[b].0);
                }
            }
        },
        None => {
            m.push((k.to_owned(), v.clone()));
            assert(member_views(m@) =~= before.push((k@, *v)));
            assert forall|a: int, b: int| 0 <= a < b < member_views(m@).len() implies (
            #[trigger] member_views(m@)[a]).0 != (#[trigger] member_views(m@)[b]).0 by {
                if b < before.len() {
                    assert(before[a].0 != before[b].0);
                } else {
                    if before[a].0 == k@ {
                        assert(member_index(before, k@) is Some);
                    }
                }
            }
        },
    }
}

/// Removes member `k`, if present.
pub fn remove_member(m: &mut Vec<(String, serde_json::Value)>, k: &str)
    requires
        distinct_keys(member_views(old(m)@)),
    ensures
        member_views(final(m)@) == member_remove(member_views(old(m)@), k@),
        distinct_keys(member_views(final(m)@)),
{
    let ghost before = member_views(m@);
    match find_member(m, k) {
        Some(i) => {
            proof {
                lemma_member_index_unique(before, k@, i as int);
            }
            m.remove(i);
            assert(member_views(m@) =~= before.remove(i as int));
            assert forall|a: int, b: int| 0 <= a < b < member_views(m@).len() implies (
            #[trigger] member_views(m@)[a]).0 != (#[trigger] member_views(m@)[b]).0 by {
                let a0 = if a < i { a } else { a + 1 };
                let b0 = if b < i { b } else { b + 1 };
                assert(before[a0].0 != before[b0].0);
            }
        },
        None => {},
    }
}

/// Setting a member and then putting back what it held before (removing it
/// if it was absent) leaves the object's members as they were.
pub proof fn law_member_restore(m: Seq<(Seq<char>, serde_json::Value)>, k: Seq<char>, v: serde_json::Value)
    requires
        distinct_keys(m),
    ensures
        match member_get(m, k) {
            Some(p) => member_set(member_set(m, k, v), k, p),
            None => member_remove(member_set(m, k, v), k),
        } == m,
{
    let s = member_set(m, k, v);
    match member_index(m, k) {
        Some(i) => {
            lemma_member_index_unique(m, k, i);
            let p = m[i].1;
            assert(s == m.update(i, (k, v)));
            assert forall|a: int, b: int| 0 <= a < b < s.len() implies (#[trigger] s[a]).0 != (#[trigger] s[b]).0 by {
                assert(m[a].0 != m[b].0);
            }
            lemma_member_index_unique(s, k, i);
            let back = member_set(s, k, p);
            assert(back =~= m);
        },
        None => {
            assert(s == m.push((k, v)));
            let n = m.len() as int;
            assert(s[n].0 == k);
            assert forall|a: int, b: int| 0 <= a < b < s.len() implies (#[trigger] s[a]).0 != (#[trigger] s[b]).0 by {
                if b < n {
                    assert(m[a].0 != m[b].0);
                } else {
                    if m[a].0 == k {
                        assert(member_index(m, k) is Some);
                    }
                }
            }
            lemma_member_index_unique(s, k, n);
            let back = member_remove(s, k);
            assert(back =~= m);
        },
    }
}

} // verus!

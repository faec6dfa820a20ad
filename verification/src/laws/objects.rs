//! Objects and their fields.

use crate::json::JsonView;
use vstd::prelude::*;

verus! {

/// Whether an object has this field, once, with this value.
pub open spec fn holds(j: JsonView, key: Seq<char>, value: JsonView) -> bool {
    j matches JsonView::Object(f) && exists|i: int|
        #![trigger f[i]]
        0 <= i < f.len() && f[i] == (key, value) && forall|k: int|
            0 <= k < f.len() && k != i ==> (#[trigger] f[k]).0 != key
}

/// Whether an object has no such field.
pub open spec fn lacks(j: JsonView, key: Seq<char>) -> bool {
    j matches JsonView::Object(f) && forall|k: int|
        0 <= k < f.len() ==> (#[trigger] f[k]).0 != key
}

/// A field that is there once is what asking for it gives, and one that is not
/// there is not given.
pub proof fn law_a_field_is_found(j: JsonView, key: Seq<char>, value: JsonView)
    ensures
        holds(j, key, value) ==> j.get(key) == Some(value),
        lacks(j, key) ==> j.get(key) is None,
        !(j is Object) ==> j.get(key) is None,
{
    if let JsonView::Object(f) = j {
        crate::json::lemma_field_at(f, key, 0);
    }
}

/// Of a field that is given, the object has at least one, and of several it is
/// the first.
pub proof fn law_what_is_found_is_there(j: JsonView, key: Seq<char>)
    ensures
        match j.get(key) {
            Some(v) => j matches JsonView::Object(f) && exists|i: int|
                #![trigger f[i]]
                0 <= i < f.len() && f[i] == (key, v) && forall|k: int|
                    0 <= k < i ==> (#[trigger] f[k]).0 != key,
            None => !(j is Object) || lacks(j, key),
        },
{
    if let JsonView::Object(f) = j {
        crate::json::lemma_field_at(f, key, 0);
        let i = crate::json::field_at(f, key, 0);
        if i < f.len() {
            assert(f[i] == (key, f[i].1));
        }
    }
}

/// A field that is set has its new value, there is none more of it, and all
/// other fields are as they were and where they were.
pub proof fn law_setting_a_field_touches_no_other(
    f: Seq<(Seq<char>, JsonView)>,
    key: Seq<char>,
    value: JsonView,
)
    ensures
        ({
            let g = crate::json::with_field(f, key, value);
            &&& JsonView::Object(g).get(key) == Some(value)
            &&& f.len() <= g.len() <= f.len() + 1
            &&& g.len() == f.len() + 1 <==> lacks(JsonView::Object(f), key)
            &&& forall|k: int|
                0 <= k < f.len() && (#[trigger] f[k]).0 != key ==> g[k] == f[k]
            &&& forall|k: int| 0 <= k < f.len() ==> (#[trigger] g[k]).0 == f[k].0
            &&& g.len() > f.len() ==> g.last() == (key, value)
        }),
{
    crate::json::lemma_field_at(f, key, 0);
    crate::json::lemma_with_field(f, key, value, key);
    let i = crate::json::field_at(f, key, 0);
    let j = JsonView::Object(f);
    assert(j->Object_0 == f);
    if i < f.len() {
        assert(j->Object_0[i].0 == key);
        assert(!lacks(j, key));
    } else {
        assert(lacks(j, key));
    }
}

pub broadcast proof fn lemma_field_push(
    f: Seq<(Seq<char>, JsonView)>,
    x: (Seq<char>, JsonView),
    key: Seq<char>,
)
    ensures
        #[trigger] crate::json::field(f.push(x), key) == (match crate::json::field(f, key) {
            Some(v) => Some(v),
            None => if x.0 == key {
                Some(x.1)
            } else {
                None
            },
        }),
{
    let g = f.push(x);
    crate::json::lemma_field_at(f, key, 0);
    crate::json::lemma_field_at(g, key, 0);
    let a = crate::json::field_at(f, key, 0);
    let b = crate::json::field_at(g, key, 0);
    assert(forall|k: int| 0 <= k < f.len() ==> g[k] == f[k]);
    if a < f.len() {
        assert(g[a].0 == key);
        if b < a {
            assert(f[b].0 != key);
        }
    } else {
        assert forall|k: int| 0 <= k < f.len() implies (#[trigger] g[k]).0 != key by {
            assert(f[k].0 != key);
        }
        assert(g[f.len() as int] == x);
    }
}

pub broadcast proof fn lemma_field_add(
    a: Seq<(Seq<char>, JsonView)>,
    b: Seq<(Seq<char>, JsonView)>,
    key: Seq<char>,
)
    ensures
        #[trigger] crate::json::field(a + b, key) == (match crate::json::field(a, key) {
            Some(v) => Some(v),
            None => crate::json::field(b, key),
        }),
    decreases b.len(),
{
    if b.len() == 0 {
        assert(a + b =~= a);
        crate::json::lemma_field_at(b, key, 0);
    } else {
        assert(a + b =~= (a + b.drop_last()).push(b.last()));
        assert(b =~= b.drop_last().push(b.last()));
        lemma_field_add(a, b.drop_last(), key);
        lemma_field_push(a + b.drop_last(), b.last(), key);
        lemma_field_push(b.drop_last(), b.last(), key);
    }
}

pub broadcast proof fn lemma_field_empty(key: Seq<char>)
    ensures
        #[trigger] crate::json::field(Seq::<(Seq<char>, JsonView)>::empty(), key) is None,
{
}

pub broadcast proof fn lemma_field_maybe(name: Seq<char>, value: Option<JsonView>, key: Seq<char>)
    ensures
        #[trigger] crate::json::field(crate::json::maybe(name, value), key) == (if name == key {
            value
        } else {
            None
        }),
{
    if let Some(v) = value {
        lemma_field_push(Seq::empty(), (name, v), key);
    }
}

pub broadcast group group_fields {
    lemma_field_push,
    lemma_field_add,
    lemma_field_empty,
    lemma_field_maybe,
}

} // verus!

//! A minimal model of a JSON value, just rich enough to carry an encoded
//! document tree: strings, booleans, arrays and objects, plus null and
//! numbers so that any incoming JSON document can be represented (the tree
//! codec itself never produces a null or a number, and rejects them on
//! decode).  An object keeps its members as an ordered list of key/value
//! pairs; a lookup returns the first member with the given key.

use vstd::prelude::*;

verus! {

/// An executable JSON value.  A number carries its textual form only: the
/// tree codec never reads one, it only needs to see that a number stood
/// where something else was expected.
#[derive(Debug, PartialEq, Eq)]
pub enum Json {
    Null,
    Bool(bool),
    Str(String),
    Num(String),
    Arr(Vec<Json>),
    Obj(Vec<(String, Json)>),
}

/// The mathematical model of a JSON value: the same shape over `Seq`.
#[verifier::ext_equal]
pub enum JsonView {
    Null,
    Bool(bool),
    Str(Seq<char>),
    Num(Seq<char>),
    Arr(Seq<JsonView>),
    Obj(Seq<(Seq<char>, JsonView)>),
}

/// The model of a JSON value.
pub open spec fn json_view(j: Json) -> JsonView
    decreases j,
{
    match j {
        Json::Null => JsonView::Null,
        Json::Bool(b) => JsonView::Bool(b),
        Json::Str(s) => JsonView::Str(s@),
        Json::Num(s) => JsonView::Num(s@),
        Json::Arr(v) => JsonView::Arr(arr_view(v@)),
        Json::Obj(v) => JsonView::Obj(fields_view(v@)),
    }
}

/// The model of a list of JSON values.
pub open spec fn arr_view(s: Seq<Json>) -> Seq<JsonView>
    decreases s,
{
    if s.len() == 0 {
        Seq::empty()
    } else {
        seq![json_view(s[0])] + arr_view(s.drop_first())
    }
}

/// The model of an object's member list.
pub open spec fn fields_view(s: Seq<(String, Json)>) -> Seq<(Seq<char>, JsonView)>
    decreases s,
{
    if s.len() == 0 {
        Seq::empty()
    } else {
        seq![(s[0].0@, json_view(s[0].1))] + fields_view(s.drop_first())
    }
}

impl View for Json {
    type V = JsonView;

    open spec fn view(&self) -> JsonView {
        json_view(*self)
    }
}

/// `arr_view` maps the list elementwise.
pub proof fn lemma_arr_view(s: Seq<Json>)
    ensures
        arr_view(s).len() == s.len(),
        forall|i: int| 0 <= i < s.len() ==> #[trigger] arr_view(s)[i] == json_view(s[i]),
    decreases s,
{
    if s.len() > 0 {
        lemma_arr_view(s.drop_first());
        assert forall|i: int| 0 <= i < s.len() implies #[trigger] arr_view(s)[i] == json_view(
            s[i],
        ) by {
            if i > 0 {
                assert(s.drop_first()[i - 1] == s[i]);
            }
        }
    }
}

/// `fields_view` maps the member list elementwise.
pub proof fn lemma_fields_view(s: Seq<(String, Json)>)
    ensures
        fields_view(s).len() == s.len(),
        forall|i: int| 0 <= i < s.len() ==> #[trigger] fields_view(s)[i] == (
            s[i].0@,
            json_view(s[i].1),
        ),
    decreases s,
{
    if s.len() > 0 {
        lemma_fields_view(s.drop_first());
        assert forall|i: int| 0 <= i < s.len() implies #[trigger] fields_view(s)[i] == (
            s[i].0@,
            json_view(s[i].1),
        ) by {
            if i > 0 {
                assert(s.drop_first()[i - 1] == s[i]);
            }
        }
    }
}

/// The first member of `fields` whose key is `key`, if any.
pub open spec fn obj_lookup(fields: Seq<(Seq<char>, JsonView)>, key: Seq<char>) -> Option<JsonView>
    decreases fields,
{
    if fields.len() == 0 {
        None
    } else if fields[0].0 == key {
        Some(fields[0].1)
    } else {
        obj_lookup(fields.drop_first(), key)
    }
}

/// A lookup over a member list whose keys all differ from `key` finds
/// nothing.
pub proof fn lemma_obj_lookup_absent(fields: Seq<(Seq<char>, JsonView)>, key: Seq<char>)
    requires
        forall|i: int| 0 <= i < fields.len() ==> (#[trigger] fields[i].0) != key,
    ensures
        obj_lookup(fields, key) == None::<JsonView>,
    decreases fields,
{
    if fields.len() > 0 {
        assert(fields[0].0 != key);
        lemma_obj_lookup_absent(fields.drop_first(), key);
    }
}

/// A lookup finds the first member whose key matches.
pub proof fn lemma_obj_lookup_found(fields: Seq<(Seq<char>, JsonView)>, key: Seq<char>, at: int)
    requires
        0 <= at < fields.len(),
        fields[at].0 == key,
        forall|i: int| 0 <= i < at ==> (#[trigger] fields[i].0) != key,
    ensures
        obj_lookup(fields, key) == Some(fields[at].1),
    decreases at,
{
    if at > 0 {
        lemma_obj_lookup_found(fields.drop_first(), key, at - 1);
    }
}

/// A lookup skips a leading run of members whose keys all differ from `key`.
pub proof fn lemma_obj_lookup_skip(
    pre: Seq<(Seq<char>, JsonView)>,
    rest: Seq<(Seq<char>, JsonView)>,
    key: Seq<char>,
)
    requires
        forall|i: int| 0 <= i < pre.len() ==> (#[trigger] pre[i].0) != key,
    ensures
        obj_lookup(pre + rest, key) == obj_lookup(rest, key),
    decreases pre,
{
    if pre.len() == 0 {
        assert(pre + rest =~= rest);
    } else {
        assert((pre + rest)[0] == pre[0]);
        assert((pre + rest).drop_first() =~= pre.drop_first() + rest);
        lemma_obj_lookup_skip(pre.drop_first(), rest, key);
    }
}

/// Finds the first member of `fields` named `key`, matching `obj_lookup` on
/// the member list's model.
pub fn obj_get<'a>(fields: &'a Vec<(String, Json)>, key: &String) -> (r: Option<&'a Json>)
    ensures
        match r {
            Some(v) => obj_lookup(fields_view(fields@), key@) == Some(v@),
            None => obj_lookup(fields_view(fields@), key@) == None::<JsonView>,
        },
{
    proof {
        lemma_fields_view(fields@);
    }
    let mut i: usize = 0;
    while i < fields.len()
        invariant
            0 <= i <= fields.len(),
            forall|j: int| 0 <= j < i ==> (#[trigger] fields@[j].0@) != key@,
        decreases fields.len() - i,
    {
        if fields[i].0 == *key {
            proof {
                lemma_fields_view(fields@);
                assert(fields_view(fields@)[i as int].0 == key@);
                assert forall|j: int| 0 <= j < i implies (#[trigger] fields_view(fields@)[j].0)
                    != key@ by {
                    assert(fields@[j].0@ != key@);
                }
                lemma_obj_lookup_found(fields_view(fields@), key@, i as int);
            }
            return Some(&fields[i].1);
        }
        i = i + 1;
    }
    proof {
        lemma_fields_view(fields@);
        assert forall|j: int| 0 <= j < fields_view(fields@).len() implies (
        #[trigger] fields_view(fields@)[j].0) != key@ by {
            assert(fields@[j].0@ != key@);
        }
        lemma_obj_lookup_absent(fields_view(fields@), key@);
    }
    None
}

/// Finds the position of the first member of `fields` named `key`, matching
/// `obj_lookup` on the member list's model.  Callers that must recurse into
/// the found value use this form: it hands back the place of the member
/// itself rather than a view of it.
pub fn obj_get_idx(fields: &Vec<(String, Json)>, key: &String) -> (r: Option<usize>)
    ensures
        match r {
            Some(i) => 0 <= i < fields@.len() && fields@[i as int].0@ == key@ && obj_lookup(
                fields_view(fields@),
                key@,
            ) == Some(json_view(fields@[i as int].1)),
            None => obj_lookup(fields_view(fields@), key@) == None::<JsonView>,
        },
{
    let mut i: usize = 0;
    while i < fields.len()
        invariant
            0 <= i <= fields.len(),
            forall|j: int| 0 <= j < i ==> (#[trigger] fields@[j].0@) != key@,
        decreases fields.len() - i,
    {
        if fields[i].0 == *key {
            proof {
                lemma_fields_view(fields@);
                assert(fields_view(fields@)[i as int].0 == key@);
                assert forall|j: int| 0 <= j < i implies (#[trigger] fields_view(fields@)[j].0)
                    != key@ by {
                    assert(fields@[j].0@ != key@);
                }
                lemma_obj_lookup_found(fields_view(fields@), key@, i as int);
            }
            return Some(i);
        }
        i = i + 1;
    }
    proof {
        lemma_fields_view(fields@);
        assert forall|j: int| 0 <= j < fields_view(fields@).len() implies (
        #[trigger] fields_view(fields@)[j].0) != key@ by {
            assert(fields@[j].0@ != key@);
        }
        lemma_obj_lookup_absent(fields_view(fields@), key@);
    }
    None
}

} // verus!

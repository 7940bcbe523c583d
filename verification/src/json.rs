//! A JSON-shaped value tree: the form in which wire messages and the request
//! payload are produced, together with its mathematical model.

use vstd::prelude::*;

verus! {

broadcast use vstd::std_specs::vec::group_vec_axioms;

/// Mathematical model of a JSON-shaped value.
pub enum JsonV {
    Null,
    Bool(bool),
    Num(Seq<char>),
    Str(Seq<char>),
    Arr(Seq<JsonV>),
    Obj(Seq<(Seq<char>, JsonV)>),
}

/// Executable JSON-shaped value. A number is carried as its canonical
/// decimal text, which the assembly never reads, only passes through.
/// Objects keep their fields in insertion order; the assembly below never
/// inserts the same key twice.
pub enum JsonValue {
    Null,
    Bool(bool),
    Num(String),
    Str(String),
    Arr(Vec<JsonValue>),
    Obj(Vec<(String, JsonValue)>),
}

pub open spec fn json_view(v: JsonValue) -> JsonV
    decreases v,
{
    match v {
        JsonValue::Null => JsonV::Null,
        JsonValue::Bool(b) => JsonV::Bool(b),
        JsonValue::Num(s) => JsonV::Num(s@),
        JsonValue::Str(s) => JsonV::Str(s@),
        JsonValue::Arr(a) => JsonV::Arr(arr_views(a@)),
        JsonValue::Obj(fields) => JsonV::Obj(field_views(fields@)),
    }
}

/// Models of the elements of an array.
pub open spec fn arr_views(s: Seq<JsonValue>) -> Seq<JsonV>
    decreases s,
{
    if s.len() == 0 {
        Seq::empty()
    } else {
        seq![json_view(s[0])] + arr_views(s.drop_first())
    }
}

/// Models of the fields of an object.
pub open spec fn field_views(s: Seq<(String, JsonValue)>) -> Seq<(Seq<char>, JsonV)>
    decreases s,
{
    if s.len() == 0 {
        Seq::empty()
    } else {
        seq![(s[0].0@, json_view(s[0].1))] + field_views(s.drop_first())
    }
}

impl View for JsonValue {
    type V = JsonV;

    open spec fn view(&self) -> JsonV {
        json_view(*self)
    }
}

/// The model of an array has one entry per element: the element's model.
pub broadcast proof fn lemma_arr_views(s: Seq<JsonValue>)
    ensures
        (#[trigger] arr_views(s)).len() == s.len(),
        forall|i: int| 0 <= i < s.len() ==> arr_views(s)[i] == json_view(s[i]),
    decreases s,
{
    if s.len() > 0 {
        lemma_arr_views(s.drop_first());
    }
}

/// The model of an object has one entry per field: its key's characters and
/// its value's model.
pub broadcast proof fn lemma_field_views(s: Seq<(String, JsonValue)>)
    ensures
        (#[trigger] field_views(s)).len() == s.len(),
        forall|i: int| 0 <= i < s.len() ==> field_views(s)[i] == (s[i].0@, json_view(s[i].1)),
    decreases s,
{
    if s.len() > 0 {
        lemma_field_views(s.drop_first());
    }
}

/// Appending an element appends its model.
pub proof fn lemma_arr_views_push(s: Seq<JsonValue>, e: JsonValue)
    ensures
        arr_views(s.push(e)) == arr_views(s).push(json_view(e)),
{
    lemma_arr_views(s.push(e));
    lemma_arr_views(s);
    assert(arr_views(s.push(e)) =~= arr_views(s).push(json_view(e)));
}

/// Appending a field appends its model.
pub proof fn lemma_field_views_push(s: Seq<(String, JsonValue)>, p: (String, JsonValue))
    ensures
        field_views(s.push(p)) == field_views(s).push((p.0@, json_view(p.1))),
{
    lemma_field_views(s.push(p));
    lemma_field_views(s);
    assert(field_views(s.push(p)) =~= field_views(s).push((p.0@, json_view(p.1))));
}

/// Concatenating element lists concatenates their models.
pub proof fn lemma_arr_views_concat(s1: Seq<JsonValue>, s2: Seq<JsonValue>)
    ensures
        arr_views(s1 + s2) == arr_views(s1) + arr_views(s2),
{
    lemma_arr_views(s1 + s2);
    lemma_arr_views(s1);
    lemma_arr_views(s2);
    assert(arr_views(s1 + s2) =~= arr_views(s1) + arr_views(s2));
}

/// Appends one field to a field list under construction.
pub fn push_field(fields: &mut Vec<(String, JsonValue)>, key: &str, value: JsonValue)
    ensures
        field_views(final(fields)@) == field_views(old(fields)@).push((key@, value@)),
{
    let ghost before = fields@;
    let ghost v = value@;
    let owned_key = key.to_owned();
    proof {
        assert(owned_key@ == key@);
    }
    fields.push((owned_key, value));
    proof {
        lemma_field_views_push(before, fields@.last());
    }
}

/// First binding of `key` among `fields`, if any.
pub open spec fn fields_get(fields: Seq<(Seq<char>, JsonV)>, key: Seq<char>) -> Option<JsonV>
    decreases fields.len(),
{
    if fields.len() == 0 {
        None
    } else if fields[0].0 == key {
        Some(fields[0].1)
    } else {
        fields_get(fields.drop_first(), key)
    }
}

/// Looks a key up in an object value; `None` on any other kind of value.
pub open spec fn obj_get(v: JsonV, key: Seq<char>) -> Option<JsonV> {
    match v {
        JsonV::Obj(fields) => fields_get(fields, key),
        _ => None,
    }
}

/// A deep copy of a JSON value; the copy has the same model.
pub fn clone_json(v: &JsonValue) -> (r: JsonValue)
    ensures
        r@ == v@,
    decreases v,
{
    match v {
        JsonValue::Null => JsonValue::Null,
        JsonValue::Bool(b) => JsonValue::Bool(*b),
        JsonValue::Num(s) => JsonValue::Num(s.clone()),
        JsonValue::Str(s) => JsonValue::Str(s.clone()),
        JsonValue::Arr(a) => JsonValue::Arr(clone_elems(a)),
        JsonValue::Obj(fields) => JsonValue::Obj(clone_fields(fields)),
    }
}

fn clone_elems(a: &Vec<JsonValue>) -> (r: Vec<JsonValue>)
    ensures
        arr_views(r@) == arr_views(a@),
    decreases a,
{
    broadcast use {lemma_arr_views, lemma_field_views};

    let mut out: Vec<JsonValue> = Vec::new();
    let n = a.len();
    for i in 0..n
        invariant
            n == a.len(),
            out.len() == i,
            forall|j: int| 0 <= j < i ==> out@[j]@ == #[trigger] a@[j]@,
        decreases n - i,
    {
        proof {
            assert(decreases_to!(*a => a@));
            assert(decreases_to!(a@ => a@[i as int]));
        }
        let e = clone_json(&a[i]);
        out.push(e);
    }
    proof {
        lemma_arr_views(out@);
        lemma_arr_views(a@);
        assert forall|k: int| 0 <= k < a@.len() implies arr_views(out@)[k] == arr_views(a@)[k] by {
            assert(out@[k]@ == a@[k]@);
        }
        assert(arr_views(out@) =~= arr_views(a@));
    }
    out
}

fn clone_fields(fields: &Vec<(String, JsonValue)>) -> (r: Vec<(String, JsonValue)>)
    ensures
        field_views(r@) == field_views(fields@),
    decreases fields,
{
    broadcast use {lemma_arr_views, lemma_field_views};

    let mut out: Vec<(String, JsonValue)> = Vec::new();
    let n = fields.len();
    for i in 0..n
        invariant
            n == fields.len(),
            out.len() == i,
            forall|j: int|
                #![trigger out@[j]]
                0 <= j < i ==> out@[j].0 == fields@[j].0 && (out@[j].1)@ == (fields@[j].1)@,
        decreases n - i,
    {
        proof {
            assert(decreases_to!(*fields => fields@));
            assert(decreases_to!(fields@ => fields@[i as int]));
            assert(decreases_to!(fields@[i as int] => fields@[i as int].1));
        }
        let pair = &fields[i];
        let key = pair.0.clone();
        let v2 = clone_json(&pair.1);
        out.push((key, v2));
        proof {
            assert(out@[i as int].0 == fields@[i as int].0);
            assert((out@[i as int].1)@ == (fields@[i as int].1)@);
        }
    }
    proof {
        lemma_field_views(out@);
        lemma_field_views(fields@);
        assert forall|k: int| 0 <= k < fields@.len() implies field_views(out@)[k] == field_views(
            fields@,
        )[k] by {
            assert(out@[k].0 == fields@[k].0 && (out@[k].1)@ == (fields@[k].1)@);
        }
        assert(field_views(out@) =~= field_views(fields@));
    }
    out
}

/// A JSON string built from a string slice.
pub fn jstr(s: &str) -> (r: JsonValue)
    ensures
        r@ == JsonV::Str(s@),
{
    JsonValue::Str(s.to_owned())
}

/// Looks a key up in an object value, for callers that inspect a finished
/// payload.
pub fn get<'a>(v: &'a JsonValue, key: &str) -> (r: Option<&'a JsonValue>)
    ensures
        match r {
            Some(found) => obj_get(v@, key@) == Some(found@),
            None => obj_get(v@, key@) is None,
        },
{
    broadcast use lemma_field_views;

    match v {
        JsonValue::Obj(fields) => {
            let n = fields.len();
            proof {
                assert(field_views(fields@).skip(0) =~= field_views(fields@));
            }
            for i in 0..n
                invariant
                    n == fields@.len(),
                    v matches JsonValue::Obj(f) && f == fields,
                    obj_get(v@, key@) == fields_get(field_views(fields@).skip(i as int), key@),
                    field_views(fields@).skip(i as int).len() == n - i,
                decreases n - i,
            {
                let ghost all = field_views(fields@);
                proof {
                    lemma_field_views(fields@);
                    assert(all.skip(i as int)[0] == all[i as int]);
                    assert(all.skip(i as int).drop_first() =~= all.skip(i as int + 1));
                }
                if crate::text::str_eq(fields[i].0.as_str(), key) {
                    return Some(&fields[i].1);
                }
            }
            proof {
                assert(field_views(fields@).skip(n as int) =~= Seq::<(Seq<char>, JsonV)>::empty());
            }
            None
        },
        _ => None,
    }
}

} // verus!

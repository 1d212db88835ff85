//! Reading typed payloads out of parsed JSON: object field lookup, typed
//! field access, and the capability a payload type offers for moving
//! between itself and the JSON value model.

use vstd::prelude::*;
use crate::json::{lemma_list_view, lemma_obj_view, list_view, obj_view, JsonVal, JsonValue};
use crate::text::str_eq;

verus! {

/// The value of the first field with this key, if any.
pub open spec fn obj_lookup(fields: Seq<(Seq<char>, JsonVal)>, key: Seq<char>) -> Option<JsonVal>
    decreases fields.len(),
{
    if fields.len() == 0 {
        None
    } else if fields[0].0 == key {
        Some(fields[0].1)
    } else {
        obj_lookup(fields.drop_first(), key)
    }
}

/// The integer under this key, if the key holds one.
pub open spec fn lookup_int(fields: Seq<(Seq<char>, JsonVal)>, key: Seq<char>) -> Option<int> {
    match obj_lookup(fields, key) {
        Some(JsonVal::Int(n)) => Some(n),
        _ => None,
    }
}

/// The string under this key, if the key holds one.
pub open spec fn lookup_str(fields: Seq<(Seq<char>, JsonVal)>, key: Seq<char>) -> Option<
    Seq<char>,
> {
    match obj_lookup(fields, key) {
        Some(JsonVal::Str(s)) => Some(s),
        _ => None,
    }
}

/// The boolean under this key, if the key holds one.
pub open spec fn lookup_bool(fields: Seq<(Seq<char>, JsonVal)>, key: Seq<char>) -> Option<bool> {
    match obj_lookup(fields, key) {
        Some(JsonVal::Bool(b)) => Some(b),
        _ => None,
    }
}

/// The array under this key, if the key holds one.
pub open spec fn lookup_arr(fields: Seq<(Seq<char>, JsonVal)>, key: Seq<char>) -> Option<
    Seq<JsonVal>,
> {
    match obj_lookup(fields, key) {
        Some(JsonVal::Arr(elems)) => Some(elems),
        _ => None,
    }
}

/// The object under this key, if the key holds one.
pub open spec fn lookup_obj(fields: Seq<(Seq<char>, JsonVal)>, key: Seq<char>) -> Option<
    Seq<(Seq<char>, JsonVal)>,
> {
    match obj_lookup(fields, key) {
        Some(JsonVal::Obj(inner)) => Some(inner),
        _ => None,
    }
}

/// Finds the first field with this key.
pub fn obj_get<'a>(fields: &'a Vec<(String, JsonValue)>, key: &str) -> (r: Option<&'a JsonValue>)
    ensures
        match r {
            Some(v) => obj_lookup(obj_view(fields@), key@) == Some(v@),
            None => obj_lookup(obj_view(fields@), key@) is None,
        },
{
    proof {
        lemma_obj_view(fields@);
    }
    let ghost ov: Seq<(Seq<char>, JsonVal)> = obj_view(fields@);
    let mut i: usize = 0;
    proof {
        assert(ov.subrange(0, ov.len() as int) =~= ov);
    }
    while i < fields.len()
        invariant
            i <= fields@.len(),
            ov == obj_view(fields@),
            ov.len() == fields@.len(),
            forall|k: int| 0 <= k < fields@.len() ==> ov[k] == (
                fields@[k].0@,
                value_view_of(fields@[k].1),
            ),
            obj_lookup(ov, key@) == obj_lookup(ov.subrange(i as int, ov.len() as int), key@),
        decreases fields@.len() - i,
    {
        proof {
            assert(ov.subrange(i as int, ov.len() as int)[0] == ov[i as int]);
            assert(ov.subrange(i as int, ov.len() as int).drop_first() =~= ov.subrange(
                i as int + 1,
                ov.len() as int,
            ));
        }
        if str_eq(fields[i].0.as_str(), key) {
            return Some(&fields[i].1);
        }
        i += 1;
    }
    proof {
        assert(ov.subrange(ov.len() as int, ov.len() as int) =~= Seq::<(Seq<char>, JsonVal)>::empty());
    }
    None
}

/// The mathematical content of one executable JSON value (a synonym kept
/// for readability at use sites).
pub open spec fn value_view_of(v: JsonValue) -> JsonVal {
    v@
}

/// The integer under this key, if the key holds one within `i64`.
pub fn get_i64(fields: &Vec<(String, JsonValue)>, key: &str) -> (r: Option<i64>)
    ensures
        match r {
            Some(n) => lookup_int(obj_view(fields@), key@) == Some(n as int),
            None => lookup_int(obj_view(fields@), key@) is None,
        },
{
    match obj_get(fields, key) {
        Some(JsonValue::Int(n)) => Some(*n),
        _ => None,
    }
}

/// The string under this key, if the key holds one.
pub fn get_string(fields: &Vec<(String, JsonValue)>, key: &str) -> (r: Option<String>)
    ensures
        match r {
            Some(s) => lookup_str(obj_view(fields@), key@) == Some(s@),
            None => lookup_str(obj_view(fields@), key@) is None,
        },
{
    match obj_get(fields, key) {
        Some(JsonValue::Str(s)) => Some(s.clone()),
        _ => None,
    }
}

/// The boolean under this key, if the key holds one.
pub fn get_bool(fields: &Vec<(String, JsonValue)>, key: &str) -> (r: Option<bool>)
    ensures
        match r {
            Some(b) => lookup_bool(obj_view(fields@), key@) == Some(b),
            None => lookup_bool(obj_view(fields@), key@) is None,
        },
{
    match obj_get(fields, key) {
        Some(JsonValue::Bool(b)) => Some(*b),
        _ => None,
    }
}

/// The array under this key, if the key holds one.
pub fn get_arr<'a>(fields: &'a Vec<(String, JsonValue)>, key: &str) -> (r: Option<
    &'a Vec<JsonValue>,
>)
    ensures
        match r {
            Some(elems) => lookup_arr(obj_view(fields@), key@) == Some(list_view(elems@)),
            None => lookup_arr(obj_view(fields@), key@) is None,
        },
{
    match obj_get(fields, key) {
        Some(JsonValue::Arr(elems)) => Some(elems),
        _ => None,
    }
}

/// The object under this key, if the key holds one.
pub fn get_obj<'a>(fields: &'a Vec<(String, JsonValue)>, key: &str) -> (r: Option<
    &'a Vec<(String, JsonValue)>,
>)
    ensures
        match r {
            Some(inner) => lookup_obj(obj_view(fields@), key@) == Some(obj_view(inner@)),
            None => lookup_obj(obj_view(fields@), key@) is None,
        },
{
    match obj_get(fields, key) {
        Some(JsonValue::Obj(inner)) => Some(inner),
        _ => None,
    }
}

/// Every element of a JSON array read as a string; nothing when any
/// element is not one.
pub open spec fn spec_decode_strings(elems: Seq<JsonVal>) -> Option<Seq<Seq<char>>>
    decreases elems.len(),
{
    if elems.len() == 0 {
        Some(Seq::empty())
    } else {
        match elems[0] {
            JsonVal::Str(s) => match spec_decode_strings(elems.drop_first()) {
                Some(rest) => Some(seq![s] + rest),
                None => None,
            },
            _ => None,
        }
    }
}

/// Reads every element of a JSON array as a string, in order.
pub fn decode_string_list(elems: &Vec<JsonValue>) -> (r: Option<Vec<String>>)
    ensures
        match r {
            Some(ss) => spec_decode_strings(list_view(elems@)) == Some(
                ss@.map_values(|s: String| s@),
            ),
            None => spec_decode_strings(list_view(elems@)) is None,
        },
{
    proof {
        lemma_list_view(elems@);
    }
    let ghost lv: Seq<JsonVal> = list_view(elems@);
    let mut out: Vec<String> = Vec::new();
    let mut i: usize = 0;
    proof {
        assert(out@.map_values(|s: String| s@) =~= Seq::<Seq<char>>::empty());
        assert(lv.subrange(0, lv.len() as int) =~= lv);
        match spec_decode_strings(lv) {
            Some(rest) => {
                assert(Seq::<Seq<char>>::empty() + rest =~= rest);
            },
            None => {},
        }
    }
    while i < elems.len()
        invariant
            i <= elems@.len(),
            lv == list_view(elems@),
            lv.len() == elems@.len(),
            forall|k: int| 0 <= k < elems@.len() ==> lv[k] == value_view_of(elems@[k]),
            (match spec_decode_strings(lv.subrange(i as int, lv.len() as int)) {
                Some(rest) => spec_decode_strings(lv) == Some(
                    out@.map_values(|s: String| s@) + rest,
                ),
                None => spec_decode_strings(lv) is None,
            }),
        decreases elems@.len() - i,
    {
        proof {
            assert(lv.subrange(i as int, lv.len() as int)[0] == lv[i as int]);
            assert(lv.subrange(i as int, lv.len() as int).drop_first() =~= lv.subrange(
                i as int + 1,
                lv.len() as int,
            ));
        }
        match &elems[i] {
            JsonValue::Str(s) => {
                let ghost out_before: Seq<Seq<char>> = out@.map_values(|s: String| s@);
                let ghost sv: Seq<char> = s@;
                out.push(s.clone());
                proof {
                    assert(out@.map_values(|s: String| s@) =~= out_before.push(sv));
                    match spec_decode_strings(lv.subrange(i as int + 1, lv.len() as int)) {
                        Some(rest) => {
                            assert(out_before + (seq![sv] + rest) =~= out_before.push(sv) + rest);
                        },
                        None => {},
                    }
                }
            },
            _ => {
                return None;
            },
        }
        i += 1;
    }
    proof {
        assert(lv.subrange(lv.len() as int, lv.len() as int) =~= Seq::<JsonVal>::empty());
        assert(spec_decode_strings(Seq::<JsonVal>::empty()) == Some(Seq::<Seq<char>>::empty()));
        assert(out@.map_values(|s: String| s@) + Seq::<Seq<char>>::empty() =~= out@.map_values(
            |s: String| s@,
        ));
    }
    Some(out)
}

/// A payload shape that can be read out of a JSON value. What the reading
/// returns is fixed, value for value, by `spec_decode` on the mathematical
/// content.
pub trait JsonPayload: View + Sized {
    /// What this payload type reads out of a JSON value: the content of the
    /// decoded value, or nothing when the value does not have the shape.
    spec fn spec_decode(v: JsonVal) -> Option<Self::V>;

    /// Reads the payload out of a JSON value: exactly what `spec_decode`
    /// says.
    fn decode_json(v: &JsonValue) -> (r: Option<Self>)
        ensures
            match r {
                Some(t) => Self::spec_decode(v@) == Some(t@),
                None => Self::spec_decode(v@) is None,
            },
    ;
}

/// A payload shape that can be written as a JSON value. The value written
/// is fixed, value for value, by `spec_encode` on the mathematical content.
pub trait JsonEncode: View + Sized {
    /// The JSON content this payload writes.
    spec fn spec_encode(v: Self::V) -> JsonVal;

    /// Writes the payload as a JSON value: exactly what `spec_encode` says.
    fn encode_json(&self) -> (r: JsonValue)
        ensures
            r@ == Self::spec_encode(self@),
    ;
}

/// Decodes every element of a JSON array as one payload type; `None` when
/// any element fails.
pub open spec fn spec_decode_list<T: JsonPayload>(elems: Seq<JsonVal>) -> Option<Seq<T::V>>
    decreases elems.len(),
{
    if elems.len() == 0 {
        Some(Seq::empty())
    } else {
        match T::spec_decode(elems[0]) {
            None => None,
            Some(tv) => match spec_decode_list::<T>(elems.drop_first()) {
                None => None,
                Some(rest) => Some(seq![tv] + rest),
            },
        }
    }
}

/// When a whole array decodes, every element decodes to the matching entry
/// of the result.
pub proof fn lemma_decode_list_each<T: JsonPayload>(elems: Seq<JsonVal>, tvs: Seq<T::V>)
    requires
        spec_decode_list::<T>(elems) == Some(tvs),
    ensures
        tvs.len() == elems.len(),
        forall|k: int| 0 <= k < elems.len() ==> #[trigger] T::spec_decode(elems[k]) == Some(
            tvs[k],
        ),
    decreases elems.len(),
{
    if elems.len() == 0 {
        assert(tvs =~= Seq::<T::V>::empty());
    } else {
        match T::spec_decode(elems[0]) {
            Some(tv) => {
                match spec_decode_list::<T>(elems.drop_first()) {
                    Some(rest) => {
                        lemma_decode_list_each::<T>(elems.drop_first(), rest);
                        assert(tvs == seq![tv] + rest);
                        assert forall|k: int| 0 <= k < elems.len() implies #[trigger] T::spec_decode(
                            elems[k],
                        ) == Some(tvs[k]) by {
                            if k > 0 {
                                assert(elems.drop_first()[k - 1] == elems[k]);
                                assert(tvs[k] == rest[k - 1]);
                            }
                        }
                    },
                    None => {
                        assert(false);
                    },
                }
            },
            None => {
                assert(false);
            },
        }
    }
}

/// Decodes every element of a JSON array, in order.
pub fn decode_list<T: JsonPayload>(elems: &Vec<JsonValue>) -> (r: Option<Vec<T>>)
    ensures
        match r {
            Some(ts) => spec_decode_list::<T>(list_view(elems@)) == Some(
                ts@.map_values(|t: T| t@),
            ),
            None => spec_decode_list::<T>(list_view(elems@)) is None,
        },
{
    proof {
        lemma_list_view(elems@);
    }
    let ghost lv: Seq<JsonVal> = list_view(elems@);
    let mut out: Vec<T> = Vec::new();
    let mut i: usize = 0;
    proof {
        assert(out@.map_values(|t: T| t@) =~= Seq::<T::V>::empty());
        assert(lv.subrange(0, lv.len() as int) =~= lv);
        match spec_decode_list::<T>(lv) {
            Some(rest) => {
                assert(Seq::<T::V>::empty() + rest =~= rest);
            },
            None => {},
        }
    }
    while i < elems.len()
        invariant
            i <= elems@.len(),
            lv == list_view(elems@),
            lv.len() == elems@.len(),
            forall|k: int| 0 <= k < elems@.len() ==> lv[k] == value_view_of(elems@[k]),
            (match spec_decode_list::<T>(lv.subrange(i as int, lv.len() as int)) {
                Some(rest) => spec_decode_list::<T>(lv) == Some(
                    out@.map_values(|t: T| t@) + rest,
                ),
                None => spec_decode_list::<T>(lv) is None,
            }),
        decreases elems@.len() - i,
    {
        proof {
            assert(lv.subrange(i as int, lv.len() as int)[0] == lv[i as int]);
            assert(lv.subrange(i as int, lv.len() as int).drop_first() =~= lv.subrange(
                i as int + 1,
                lv.len() as int,
            ));
        }
        match T::decode_json(&elems[i]) {
            None => {
                return None;
            },
            Some(t) => {
                let ghost out_before: Seq<T::V> = out@.map_values(|t: T| t@);
                let ghost tv: T::V = t@;
                out.push(t);
                proof {
                    assert(out@.map_values(|t: T| t@) =~= out_before.push(tv));
                    match spec_decode_list::<T>(lv.subrange(i as int + 1, lv.len() as int)) {
                        Some(rest) => {
                            assert(out_before + (seq![tv] + rest) =~= out_before.push(tv) + rest);
                        },
                        None => {},
                    }
                }
            },
        }
        i += 1;
    }
    proof {
        assert(lv.subrange(lv.len() as int, lv.len() as int) =~= Seq::<JsonVal>::empty());
        assert(spec_decode_list::<T>(Seq::<JsonVal>::empty()) == Some(Seq::<T::V>::empty()));
        assert(out@.map_values(|t: T| t@) + Seq::<T::V>::empty() =~= out@.map_values(|t: T| t@));
    }
    Some(out)
}

} // verus!

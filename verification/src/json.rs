//! The JSON wire format the library speaks with the remote API: an
//! executable value model with a mathematical mirror, and a verified writer
//! that produces the exact canonical text of a value.

use vstd::prelude::*;
use crate::text::{digit_char, int_text, i64_to_chars};

verus! {

broadcast use vstd::std_specs::vec::group_vec_axioms;

/// A JSON document: the payload shapes of the API are built from these.
pub enum JsonValue {
    /// The literal `null`.
    Null,
    /// `true` or `false`.
    Bool(bool),
    /// An integer number. The API's payloads carry no fractional numbers.
    Int(i64),
    /// A string.
    Str(String),
    /// An array of values.
    Arr(Vec<JsonValue>),
    /// An object: fields in writing order, keys first.
    Obj(Vec<(String, JsonValue)>),
}

/// The mathematical content of a [`JsonValue`]: strings as character
/// sequences, collections as sequences, integers unbounded.
pub enum JsonVal {
    /// The literal `null`.
    Null,
    /// `true` or `false`.
    Bool(bool),
    /// An integer number.
    Int(int),
    /// A string.
    Str(Seq<char>),
    /// An array of values.
    Arr(Seq<JsonVal>),
    /// An object: fields in writing order, keys first.
    Obj(Seq<(Seq<char>, JsonVal)>),
}

/// The mathematical content of an executable JSON value.
pub open spec fn value_view(v: JsonValue) -> JsonVal
    decreases v, 0int,
{
    match v {
        JsonValue::Null => JsonVal::Null,
        JsonValue::Bool(b) => JsonVal::Bool(b),
        JsonValue::Int(n) => JsonVal::Int(n as int),
        JsonValue::Str(s) => JsonVal::Str(s@),
        JsonValue::Arr(elems) => JsonVal::Arr(list_view(elems@)),
        JsonValue::Obj(fields) => JsonVal::Obj(obj_view(fields@)),
    }
}

/// The element-wise mathematical content of a sequence of JSON values.
pub open spec fn list_view(s: Seq<JsonValue>) -> Seq<JsonVal>
    decreases s, 1int,
{
    if s.len() == 0 {
        Seq::empty()
    } else {
        seq![value_view(s[0])] + list_view(s.drop_first())
    }
}

/// The field-wise mathematical content of a sequence of JSON object fields.
pub open spec fn obj_view(s: Seq<(String, JsonValue)>) -> Seq<(Seq<char>, JsonVal)>
    decreases s, 1int,
{
    if s.len() == 0 {
        Seq::empty()
    } else {
        seq![(s[0].0@, value_view(s[0].1))] + obj_view(s.drop_first())
    }
}

impl View for JsonValue {
    type V = JsonVal;

    open spec fn view(&self) -> JsonVal {
        value_view(*self)
    }
}

/// `list_view` keeps length and maps each element to its content.
pub proof fn lemma_list_view(s: Seq<JsonValue>)
    ensures
        list_view(s).len() == s.len(),
        forall|k: int| 0 <= k < s.len() ==> list_view(s)[k] == value_view(s[k]),
    decreases s.len(),
{
    if s.len() > 0 {
        lemma_list_view(s.drop_first());
        assert forall|k: int| 0 <= k < s.len() implies list_view(s)[k] == value_view(s[k]) by {
            if k > 0 {
                assert(list_view(s)[k] == list_view(s.drop_first())[k - 1]);
                assert(s.drop_first()[k - 1] == s[k]);
            }
        }
    }
}

/// `obj_view` keeps length and maps each field to its content.
pub proof fn lemma_obj_view(s: Seq<(String, JsonValue)>)
    ensures
        obj_view(s).len() == s.len(),
        forall|k: int| 0 <= k < s.len() ==> obj_view(s)[k] == (s[k].0@, value_view(s[k].1)),
    decreases s.len(),
{
    if s.len() > 0 {
        lemma_obj_view(s.drop_first());
        assert forall|k: int| 0 <= k < s.len() implies obj_view(s)[k] == (
            s[k].0@,
            value_view(s[k].1),
        ) by {
            if k > 0 {
                assert(obj_view(s)[k] == obj_view(s.drop_first())[k - 1]);
                assert(s.drop_first()[k - 1] == s[k]);
            }
        }
    }
}

/// The lowercase hexadecimal digit character for `d` (`0 <= d <= 15`).
pub open spec fn hex_char(d: int) -> char {
    if d < 10 {
        digit_char(d)
    } else {
        ((87 + d) as u8) as char
    }
}

/// How one character is written inside a JSON string literal: quote and
/// backslash get a backslash escape, common control characters get their
/// short escapes, other control characters are written as `\u00XX`, and
/// everything else stands for itself.
pub open spec fn escaped_char(c: char) -> Seq<char> {
    if c == '"' {
        seq!['\\', '"']
    } else if c == '\\' {
        seq!['\\', '\\']
    } else if c == '\u{8}' {
        seq!['\\', 'b']
    } else if c == '\u{c}' {
        seq!['\\', 'f']
    } else if c == '\n' {
        seq!['\\', 'n']
    } else if c == '\r' {
        seq!['\\', 'r']
    } else if c == '\t' {
        seq!['\\', 't']
    } else if (c as u32) < 32 {
        seq!['\\', 'u', '0', '0', hex_char((c as u32 / 16) as int), hex_char((c as u32 % 16) as int)]
    } else {
        seq![c]
    }
}

/// The escaped body of a JSON string literal.
pub open spec fn escaped(s: Seq<char>) -> Seq<char>
    decreases s.len(),
{
    if s.len() == 0 {
        Seq::empty()
    } else {
        escaped_char(s[0]) + escaped(s.drop_first())
    }
}

/// A complete JSON string literal: quotes around the escaped body.
pub open spec fn string_text(s: Seq<char>) -> Seq<char> {
    seq!['"'] + escaped(s) + seq!['"']
}

/// The canonical text of a JSON value: no whitespace, object fields in
/// their stored order. This is the exact text the writer produces.
pub open spec fn json_text(v: JsonVal) -> Seq<char>
    decreases v, 0int,
{
    match v {
        JsonVal::Null => seq!['n', 'u', 'l', 'l'],
        JsonVal::Bool(b) => if b {
            seq!['t', 'r', 'u', 'e']
        } else {
            seq!['f', 'a', 'l', 's', 'e']
        },
        JsonVal::Int(n) => int_text(n),
        JsonVal::Str(s) => string_text(s),
        JsonVal::Arr(elems) => seq!['['] + elems_text(elems) + seq![']'],
        JsonVal::Obj(fields) => seq!['{'] + fields_text(fields) + seq!['}'],
    }
}

/// The comma-separated texts of an array's elements.
pub open spec fn elems_text(elems: Seq<JsonVal>) -> Seq<char>
    decreases elems, 2int,
{
    if elems.len() == 0 {
        Seq::empty()
    } else {
        json_text(elems[0]) + elems_text_rest(elems.drop_first())
    }
}

/// The texts of the elements after the first, each preceded by a comma.
pub open spec fn elems_text_rest(elems: Seq<JsonVal>) -> Seq<char>
    decreases elems, 1int,
{
    if elems.len() == 0 {
        Seq::empty()
    } else {
        seq![','] + json_text(elems[0]) + elems_text_rest(elems.drop_first())
    }
}

/// The text of one object field: quoted key, colon, value.
pub open spec fn field_text(f: (Seq<char>, JsonVal)) -> Seq<char>
    decreases f, 3int,
{
    string_text(f.0) + seq![':'] + json_text(f.1)
}

/// The comma-separated texts of an object's fields.
pub open spec fn fields_text(fields: Seq<(Seq<char>, JsonVal)>) -> Seq<char>
    decreases fields, 2int,
{
    if fields.len() == 0 {
        Seq::empty()
    } else {
        field_text(fields[0]) + fields_text_rest(fields.drop_first())
    }
}

/// The texts of the fields after the first, each preceded by a comma.
pub open spec fn fields_text_rest(fields: Seq<(Seq<char>, JsonVal)>) -> Seq<char>
    decreases fields, 1int,
{
    if fields.len() == 0 {
        Seq::empty()
    } else {
        seq![','] + field_text(fields[0]) + fields_text_rest(fields.drop_first())
    }
}

pub proof fn lemma_escaped_push(s: Seq<char>, c: char)
    ensures
        escaped(s.push(c)) == escaped(s) + escaped_char(c),
    decreases s.len(),
{
    if s.len() == 0 {
        assert(s.push(c)[0] == c);
        assert(s.push(c).drop_first() =~= Seq::<char>::empty());
        assert(escaped(Seq::<char>::empty()) == Seq::<char>::empty());
        assert(escaped(s.push(c)) =~= escaped(s) + escaped_char(c));
    } else {
        assert(s.push(c)[0] == s[0]);
        assert(s.push(c).drop_first() =~= s.drop_first().push(c));
        lemma_escaped_push(s.drop_first(), c);
        assert(escaped(s.push(c)) == escaped_char(s[0]) + escaped(s.drop_first().push(c)));
        assert(escaped(s) == escaped_char(s[0]) + escaped(s.drop_first()));
        assert(escaped_char(s[0]) + (escaped(s.drop_first()) + escaped_char(c)) =~= (escaped_char(
            s[0],
        ) + escaped(s.drop_first())) + escaped_char(c));
        assert(escaped(s.push(c)) == escaped(s) + escaped_char(c));
    }
}

pub proof fn lemma_elems_text_rest_push(s: Seq<JsonVal>, x: JsonVal)
    ensures
        elems_text_rest(s.push(x)) == elems_text_rest(s) + seq![','] + json_text(x),
    decreases s.len(),
{
    if s.len() == 0 {
        assert(s.push(x)[0] == x);
        assert(s.push(x).drop_first() =~= Seq::<JsonVal>::empty());
        assert(elems_text_rest(Seq::<JsonVal>::empty()) == Seq::<char>::empty());
        assert(elems_text_rest(s.push(x)) =~= elems_text_rest(s) + seq![','] + json_text(x));
    } else {
        assert(s.push(x)[0] == s[0]);
        assert(s.push(x).drop_first() =~= s.drop_first().push(x));
        lemma_elems_text_rest_push(s.drop_first(), x);
        assert(elems_text_rest(s.push(x)) == seq![','] + json_text(s[0]) + elems_text_rest(
            s.drop_first().push(x),
        ));
        assert(elems_text_rest(s) == seq![','] + json_text(s[0]) + elems_text_rest(s.drop_first()));
        assert(seq![','] + json_text(s[0]) + (elems_text_rest(s.drop_first()) + seq![',']
            + json_text(x)) =~= (seq![','] + json_text(s[0]) + elems_text_rest(s.drop_first()))
            + seq![','] + json_text(x));
        assert(elems_text_rest(s.push(x)) == elems_text_rest(s) + seq![','] + json_text(x));
    }
}

pub proof fn lemma_fields_text_rest_push(s: Seq<(Seq<char>, JsonVal)>, x: (Seq<char>, JsonVal))
    ensures
        fields_text_rest(s.push(x)) == fields_text_rest(s) + seq![','] + field_text(x),
    decreases s.len(),
{
    if s.len() == 0 {
        assert(s.push(x)[0] == x);
        assert(s.push(x).drop_first() =~= Seq::<(Seq<char>, JsonVal)>::empty());
        assert(fields_text_rest(Seq::<(Seq<char>, JsonVal)>::empty()) == Seq::<char>::empty());
        assert(fields_text_rest(s.push(x)) =~= fields_text_rest(s) + seq![','] + field_text(x));
    } else {
        assert(s.push(x)[0] == s[0]);
        assert(s.push(x).drop_first() =~= s.drop_first().push(x));
        lemma_fields_text_rest_push(s.drop_first(), x);
        assert(fields_text_rest(s.push(x)) == seq![','] + field_text(s[0]) + fields_text_rest(
            s.drop_first().push(x),
        ));
        assert(fields_text_rest(s) == seq![','] + field_text(s[0]) + fields_text_rest(
            s.drop_first(),
        ));
        assert(seq![','] + field_text(s[0]) + (fields_text_rest(s.drop_first()) + seq![',']
            + field_text(x)) =~= (seq![','] + field_text(s[0]) + fields_text_rest(s.drop_first()))
            + seq![','] + field_text(x));
        assert(fields_text_rest(s.push(x)) == fields_text_rest(s) + seq![','] + field_text(x));
    }
}

/// Appends the characters of `v` to `out`.
fn push_chars(out: &mut Vec<char>, v: &Vec<char>)
    ensures
        final(out)@ == old(out)@ + v@,
{
    let mut i: usize = 0;
    while i < v.len()
        invariant
            i <= v@.len(),
            out@ =~= old(out)@ + v@.subrange(0, i as int),
        decreases v@.len() - i,
    {
        out.push(v[i]);
        i += 1;
        proof {
            assert(out@ =~= old(out)@ + v@.subrange(0, i as int));
        }
    }
    proof {
        assert(out@ =~= old(out)@ + v@);
    }
}

/// Appends the escape sequence of one string character to `out`.
fn write_escaped_char(c: char, out: &mut Vec<char>)
    ensures
        final(out)@ == old(out)@ + escaped_char(c),
{
    if c == '"' {
        out.push('\\');
        out.push('"');
    } else if c == '\\' {
        out.push('\\');
        out.push('\\');
    } else if c == '\u{8}' {
        out.push('\\');
        out.push('b');
    } else if c == '\u{c}' {
        out.push('\\');
        out.push('f');
    } else if c == '\n' {
        out.push('\\');
        out.push('n');
    } else if c == '\r' {
        out.push('\\');
        out.push('r');
    } else if c == '\t' {
        out.push('\\');
        out.push('t');
    } else if (c as u32) < 32 {
        let hi: u8 = ((c as u32) / 16) as u8;
        let lo: u8 = ((c as u32) % 16) as u8;
        let hi_c: char = if hi < 10 { (48 + hi) as char } else { (87 + hi) as char };
        let lo_c: char = if lo < 10 { (48 + lo) as char } else { (87 + lo) as char };
        out.push('\\');
        out.push('u');
        out.push('0');
        out.push('0');
        out.push(hi_c);
        out.push(lo_c);
    } else {
        out.push(c);
    }
    proof {
        assert(out@ =~= old(out)@ + escaped_char(c));
    }
}

/// Appends the JSON string literal for `s` (quotes and escapes) to `out`.
fn write_string_literal(s: &str, out: &mut Vec<char>)
    ensures
        final(out)@ == old(out)@ + string_text(s@),
{
    let chars = crate::text::string_to_chars(s);
    out.push('"');
    let mut i: usize = 0;
    while i < chars.len()
        invariant
            i <= chars@.len(),
            chars@ == s@,
            out@ =~= old(out)@ + seq!['"'] + escaped(s@.subrange(0, i as int)),
        decreases chars@.len() - i,
    {
        write_escaped_char(chars[i], out);
        i += 1;
        proof {
            assert(s@.subrange(0, i as int) =~= s@.subrange(0, i as int - 1).push(s@[i as int - 1]));
            lemma_escaped_push(s@.subrange(0, i as int - 1), s@[i as int - 1]);
            assert(out@ =~= old(out)@ + seq!['"'] + escaped(s@.subrange(0, i as int)));
        }
    }
    out.push('"');
    proof {
        assert(s@.subrange(0, s@.len() as int) =~= s@);
        assert(out@ =~= old(out)@ + string_text(s@));
    }
}

/// Appends the canonical text of `v` to `out`.
pub fn write_json_value(v: &JsonValue, out: &mut Vec<char>)
    ensures
        final(out)@ == old(out)@ + json_text(v@),
    decreases *v,
{
    match v {
        JsonValue::Null => {
            out.push('n');
            out.push('u');
            out.push('l');
            out.push('l');
            proof {
                assert(out@ =~= old(out)@ + json_text(v@));
            }
        },
        JsonValue::Bool(b) => {
            if *b {
                out.push('t');
                out.push('r');
                out.push('u');
                out.push('e');
            } else {
                out.push('f');
                out.push('a');
                out.push('l');
                out.push('s');
                out.push('e');
            }
            proof {
                assert(out@ =~= old(out)@ + json_text(v@));
            }
        },
        JsonValue::Int(n) => {
            let digits = i64_to_chars(*n);
            push_chars(out, &digits);
            proof {
                assert(out@ =~= old(out)@ + json_text(v@));
            }
        },
        JsonValue::Str(s) => {
            write_string_literal(s.as_str(), out);
            proof {
                assert(out@ =~= old(out)@ + json_text(v@));
            }
        },
        JsonValue::Arr(elems) => {
            let ghost lv: Seq<JsonVal> = list_view(elems@);
            proof {
                lemma_list_view(elems@);
            }
            out.push('[');
            let mut i: usize = 0;
            while i < elems.len()
                invariant
                    i <= elems@.len(),
                    *v == JsonValue::Arr(*elems),
                    lv == list_view(elems@),
                    lv.len() == elems@.len(),
                    forall|k: int| 0 <= k < elems@.len() ==> lv[k] == value_view(elems@[k]),
                    i == 0 ==> out@ =~= old(out)@ + seq!['['],
                    i > 0 ==> out@ =~= old(out)@ + seq!['['] + json_text(lv[0]) + elems_text_rest(
                        lv.subrange(1, i as int),
                    ),
                decreases elems@.len() - i,
            {
                proof {
                    assert(decreases_to!(*v => v->Arr_0));
                    assert(decreases_to!(*elems => elems@[i as int]));
                    assert(decreases_to!(*v => elems@[i as int]));
                }
                if i > 0 {
                    out.push(',');
                    write_json_value(&elems[i], out);
                    proof {
                        assert(lv.subrange(1, i as int + 1) =~= lv.subrange(1, i as int).push(
                            lv[i as int],
                        ));
                        lemma_elems_text_rest_push(lv.subrange(1, i as int), lv[i as int]);
                        assert(out@ =~= old(out)@ + seq!['['] + json_text(lv[0]) + elems_text_rest(
                            lv.subrange(1, i as int + 1),
                        ));
                    }
                } else {
                    write_json_value(&elems[i], out);
                    proof {
                        assert(lv.subrange(1, 1) =~= Seq::<JsonVal>::empty());
                        assert(elems_text_rest(Seq::<JsonVal>::empty()) == Seq::<char>::empty());
                        assert(out@ =~= old(out)@ + seq!['['] + json_text(lv[0]) + elems_text_rest(
                            lv.subrange(1, 1),
                        ));
                    }
                }
                i += 1;
            }
            out.push(']');
            proof {
                if lv.len() > 0 {
                    assert(lv.subrange(1, lv.len() as int) =~= lv.drop_first());
                }
                assert(out@ =~= old(out)@ + json_text(v@));
            }
        },
        JsonValue::Obj(fields) => {
            let ghost ov: Seq<(Seq<char>, JsonVal)> = obj_view(fields@);
            proof {
                lemma_obj_view(fields@);
            }
            out.push('{');
            let mut i: usize = 0;
            while i < fields.len()
                invariant
                    i <= fields@.len(),
                    *v == JsonValue::Obj(*fields),
                    ov == obj_view(fields@),
                    ov.len() == fields@.len(),
                    forall|k: int| 0 <= k < fields@.len() ==> ov[k] == (
                        fields@[k].0@,
                        value_view(fields@[k].1),
                    ),
                    i == 0 ==> out@ =~= old(out)@ + seq!['{'],
                    i > 0 ==> out@ =~= old(out)@ + seq!['{'] + field_text(ov[0]) + fields_text_rest(
                        ov.subrange(1, i as int),
                    ),
                decreases fields@.len() - i,
            {
                if i > 0 {
                    out.push(',');
                }
                let ghost out_before: Seq<char> = out@;
                write_string_literal(fields[i].0.as_str(), out);
                out.push(':');
                proof {
                    assert(decreases_to!(*v => v->Obj_0));
                    assert(decreases_to!(*fields => fields@[i as int]));
                    assert(decreases_to!(fields@[i as int] => fields@[i as int].1));
                    assert(decreases_to!(*v => fields@[i as int].1));
                }
                write_json_value(&fields[i].1, out);
                proof {
                    assert(out@ =~= out_before + field_text(ov[i as int]));
                    if i > 0 {
                        assert(ov.subrange(1, i as int + 1) =~= ov.subrange(1, i as int).push(
                            ov[i as int],
                        ));
                        lemma_fields_text_rest_push(ov.subrange(1, i as int), ov[i as int]);
                        assert(out@ =~= old(out)@ + seq!['{'] + field_text(ov[0])
                            + fields_text_rest(ov.subrange(1, i as int + 1)));
                    } else {
                        assert(ov.subrange(1, 1) =~= Seq::<(Seq<char>, JsonVal)>::empty());
                        assert(fields_text_rest(Seq::<(Seq<char>, JsonVal)>::empty())
                            == Seq::<char>::empty());
                        assert(out@ =~= old(out)@ + seq!['{'] + field_text(ov[0])
                            + fields_text_rest(ov.subrange(1, 1)));
                    }
                }
                i += 1;
            }
            out.push('}');
            proof {
                if ov.len() > 0 {
                    assert(ov.subrange(1, ov.len() as int) =~= ov.drop_first());
                }
                assert(out@ =~= old(out)@ + json_text(v@));
            }
        },
    }
}

/// The canonical text of a JSON value, as a string: no whitespace, fields
/// in their stored order.
pub fn write_json(v: &JsonValue) -> (r: String)
    ensures
        r@ == json_text(v@),
{
    let mut out: Vec<char> = Vec::new();
    write_json_value(v, &mut out);
    crate::text::chars_to_string(&out)
}

} // verus!

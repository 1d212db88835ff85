//! A JSON parser: a functional reference parser in specification land, and a
//! verified executable parser that returns exactly what the reference says.
//!
//! The reference parser is total and deterministic. Guarded recursion keeps
//! its termination measure obvious; the guarded branches are never taken on
//! real input (the scan position only moves right), which the bounds lemmas
//! below establish.

use vstd::prelude::*;
use crate::json::{
    elems_text, elems_text_rest, escaped, escaped_char, field_text, fields_text, fields_text_rest,
    hex_char, json_text, list_view, obj_view, string_text, JsonVal, JsonValue,
};
use crate::text::{
    chars_to_string, int_text, lemma_digit_char, lemma_nat_text_digits, nat_text, pow10,
    string_to_chars,
};

verus! {

/// JSON insignificant whitespace.
pub open spec fn is_ws(c: char) -> bool {
    c == ' ' || c == '\t' || c == '\n' || c == '\r'
}

/// The first position at or after `i` that does not hold whitespace.
pub open spec fn skip_ws(s: Seq<char>, i: int) -> int
    decreases s.len() - i,
{
    if 0 <= i && i < s.len() && is_ws(s[i]) {
        skip_ws(s, i + 1)
    } else {
        i
    }
}

pub proof fn lemma_skip_ws_bounds(s: Seq<char>, i: int)
    requires
        0 <= i <= s.len(),
    ensures
        i <= skip_ws(s, i) <= s.len(),
        skip_ws(s, i) < s.len() ==> !is_ws(s[skip_ws(s, i)]),
    decreases s.len() - i,
{
    if i < s.len() && is_ws(s[i]) {
        lemma_skip_ws_bounds(s, i + 1);
    }
}

/// A decimal digit.
pub open spec fn is_digit(c: char) -> bool {
    '0' <= c && c <= '9'
}

/// The value of a decimal digit character.
pub open spec fn digit_val(c: char) -> int {
    (c as u32) - 48
}

/// Scans a run of decimal digits starting at `i`, folding them onto `acc`;
/// returns the folded value and the position after the run.
pub open spec fn parse_digits(s: Seq<char>, i: int, acc: int) -> (int, int)
    decreases s.len() - i,
{
    if 0 <= i && i < s.len() && is_digit(s[i]) {
        parse_digits(s, i + 1, acc * 10 + digit_val(s[i]))
    } else {
        (acc, i)
    }
}

pub proof fn lemma_parse_digits_bounds(s: Seq<char>, i: int, acc: int)
    requires
        0 <= i <= s.len(),
    ensures
        i <= parse_digits(s, i, acc).1 <= s.len(),
        parse_digits(s, i, acc).1 < s.len() ==> !is_digit(s[parse_digits(s, i, acc).1]),
        0 <= i && i < s.len() && is_digit(s[i]) ==> parse_digits(s, i, acc).1 > i,
    decreases s.len() - i,
{
    if i < s.len() && is_digit(s[i]) {
        lemma_parse_digits_bounds(s, i + 1, acc * 10 + digit_val(s[i]));
    }
}

/// The folded value only grows when the accumulator is non-negative.
pub proof fn lemma_parse_digits_lower(s: Seq<char>, i: int, acc: int)
    requires
        acc >= 0,
    ensures
        parse_digits(s, i, acc).0 >= acc,
    decreases s.len() - i,
{
    if 0 <= i && i < s.len() && is_digit(s[i]) {
        lemma_parse_digits_lower(s, i + 1, acc * 10 + digit_val(s[i]));
    }
}

/// A number starting with `'0'` followed by another digit is malformed.
pub open spec fn has_leading_zero(s: Seq<char>, i: int) -> bool {
    s[i] == '0' && i + 1 < s.len() && is_digit(s[i + 1])
}

/// Parses a JSON integer at `i`: an optional minus sign and a digit run with
/// no leading zero, the value within the range of `i64`. Fractions and
/// exponents are not part of the API's payloads and are rejected.
pub open spec fn spec_parse_number(s: Seq<char>, i: int) -> Option<(JsonVal, int)> {
    if 0 <= i && i < s.len() && s[i] == '-' {
        if i + 1 < s.len() && is_digit(s[i + 1]) && !has_leading_zero(s, i + 1) {
            let (m, j) = parse_digits(s, i + 1, 0);
            if m <= 0x8000_0000_0000_0000 {
                Some((JsonVal::Int(-m), j))
            } else {
                None
            }
        } else {
            None
        }
    } else if 0 <= i && i < s.len() && is_digit(s[i]) {
        if has_leading_zero(s, i) {
            None
        } else {
            let (m, j) = parse_digits(s, i, 0);
            if m <= 0x7fff_ffff_ffff_ffff {
                Some((JsonVal::Int(m), j))
            } else {
                None
            }
        }
    } else {
        None
    }
}

/// The character a single-letter escape stands for, if the letter is one.
pub open spec fn unescaped_char(c: char) -> Option<char> {
    if c == '"' {
        Some('"')
    } else if c == '\\' {
        Some('\\')
    } else if c == '/' {
        Some('/')
    } else if c == 'b' {
        Some('\u{8}')
    } else if c == 'f' {
        Some('\u{c}')
    } else if c == 'n' {
        Some('\n')
    } else if c == 'r' {
        Some('\r')
    } else if c == 't' {
        Some('\t')
    } else {
        None
    }
}

/// A hexadecimal digit, either case.
pub open spec fn is_hex_digit(c: char) -> bool {
    is_digit(c) || ('a' <= c && c <= 'f') || ('A' <= c && c <= 'F')
}

/// The value of a hexadecimal digit character.
pub open spec fn hex_val(c: char) -> int {
    if is_digit(c) {
        digit_val(c)
    } else if 'a' <= c && c <= 'f' {
        (c as u32) - 87
    } else {
        (c as u32) - 55
    }
}

/// Whether four hexadecimal digits stand at `i`.
pub open spec fn hex4_ok(s: Seq<char>, i: int) -> bool {
    &&& i + 4 <= s.len()
    &&& is_hex_digit(s[i])
    &&& is_hex_digit(s[i + 1])
    &&& is_hex_digit(s[i + 2])
    &&& is_hex_digit(s[i + 3])
}

/// The value of the four hexadecimal digits at `i`.
pub open spec fn hex4_val(s: Seq<char>, i: int) -> int {
    hex_val(s[i]) * 4096 + hex_val(s[i + 1]) * 256 + hex_val(s[i + 2]) * 16 + hex_val(s[i + 3])
}

/// A code in the surrogate range, which no `\uXXXX` escape may carry.
pub open spec fn is_surrogate_code(c: int) -> bool {
    0xD800 <= c < 0xE000
}

/// Parses the body of a JSON string literal starting just after the opening
/// quote; returns the unescaped characters and the position after the
/// closing quote.
pub open spec fn spec_parse_string_body(s: Seq<char>, i: int) -> Option<(Seq<char>, int)>
    decreases s.len() - i,
{
    if !(0 <= i && i < s.len()) {
        None
    } else if s[i] == '"' {
        Some((Seq::empty(), i + 1))
    } else if s[i] == '\\' {
        if i + 1 < s.len() {
            if s[i + 1] == 'u' {
                if hex4_ok(s, i + 2) && !is_surrogate_code(hex4_val(s, i + 2)) {
                    match spec_parse_string_body(s, i + 6) {
                        Some((rest, j)) => Some(
                            (seq![((hex4_val(s, i + 2) as u32) as char)] + rest, j),
                        ),
                        None => None,
                    }
                } else {
                    None
                }
            } else {
                match unescaped_char(s[i + 1]) {
                    Some(c) => match spec_parse_string_body(s, i + 2) {
                        Some((rest, j)) => Some((seq![c] + rest, j)),
                        None => None,
                    },
                    None => None,
                }
            }
        } else {
            None
        }
    } else if (s[i] as u32) < 32 {
        None
    } else {
        match spec_parse_string_body(s, i + 1) {
            Some((rest, j)) => Some((seq![s[i]] + rest, j)),
            None => None,
        }
    }
}

pub proof fn lemma_parse_string_body_bounds(s: Seq<char>, i: int)
    requires
        0 <= i,
    ensures
        spec_parse_string_body(s, i) matches Some((r, j)) ==> i < j <= s.len(),
    decreases s.len() - i,
{
    if 0 <= i && i < s.len() {
        if s[i] == '\\' && i + 1 < s.len() {
            if s[i + 1] == 'u' {
                if hex4_ok(s, i + 2) {
                    lemma_parse_string_body_bounds(s, i + 6);
                }
            } else {
                lemma_parse_string_body_bounds(s, i + 2);
            }
        } else {
            lemma_parse_string_body_bounds(s, i + 1);
        }
    }
}

/// Parses one JSON value at `i` (no leading whitespace); returns the value
/// and the position just after it.
pub open spec fn spec_parse_value(s: Seq<char>, i: int) -> Option<(JsonVal, int)>
    decreases s.len() - i, 0int,
{
    if !(0 <= i && i < s.len()) {
        None
    } else if s[i] == 'n' {
        if i + 4 <= s.len() && s[i + 1] == 'u' && s[i + 2] == 'l' && s[i + 3] == 'l' {
            Some((JsonVal::Null, i + 4))
        } else {
            None
        }
    } else if s[i] == 't' {
        if i + 4 <= s.len() && s[i + 1] == 'r' && s[i + 2] == 'u' && s[i + 3] == 'e' {
            Some((JsonVal::Bool(true), i + 4))
        } else {
            None
        }
    } else if s[i] == 'f' {
        if i + 5 <= s.len() && s[i + 1] == 'a' && s[i + 2] == 'l' && s[i + 3] == 's' && s[i + 4]
            == 'e' {
            Some((JsonVal::Bool(false), i + 5))
        } else {
            None
        }
    } else if s[i] == '"' {
        match spec_parse_string_body(s, i + 1) {
            Some((str_chars, j)) => Some((JsonVal::Str(str_chars), j)),
            None => None,
        }
    } else if s[i] == '[' {
        let j = skip_ws(s, i + 1);
        if j < s.len() && s[j] == ']' {
            Some((JsonVal::Arr(Seq::empty()), j + 1))
        } else if i < j && j <= s.len() {
            match spec_parse_elems(s, j) {
                Some((elems, k)) => Some((JsonVal::Arr(elems), k)),
                None => None,
            }
        } else {
            // never reached: the scan position only moves right
            None
        }
    } else if s[i] == '{' {
        let j = skip_ws(s, i + 1);
        if j < s.len() && s[j] == '}' {
            Some((JsonVal::Obj(Seq::empty()), j + 1))
        } else if i < j && j <= s.len() {
            match spec_parse_fields(s, j) {
                Some((fields, k)) => Some((JsonVal::Obj(fields), k)),
                None => None,
            }
        } else {
            // never reached: the scan position only moves right
            None
        }
    } else {
        spec_parse_number(s, i)
    }
}

/// Parses the elements of a non-empty array, the first standing at `i`;
/// returns the elements and the position after the closing bracket.
pub open spec fn spec_parse_elems(s: Seq<char>, i: int) -> Option<(Seq<JsonVal>, int)>
    decreases s.len() - i, 1int,
{
    match spec_parse_value(s, i) {
        None => None,
        Some((v, j)) => {
            let k = if 0 <= j <= s.len() {
                skip_ws(s, j)
            } else {
                j
            };
            if k < s.len() && s[k] == ',' {
                let m = skip_ws(s, k + 1);
                if i < m && m <= s.len() {
                    match spec_parse_elems(s, m) {
                        Some((rest, e)) => Some((seq![v] + rest, e)),
                        None => None,
                    }
                } else {
                    // never reached: the scan position only moves right
                    None
                }
            } else if k < s.len() && s[k] == ']' {
                Some((seq![v], k + 1))
            } else {
                None
            }
        },
    }
}

/// Parses the fields of a non-empty object, the first key standing at `i`;
/// returns the fields and the position after the closing brace.
pub open spec fn spec_parse_fields(s: Seq<char>, i: int) -> Option<
    (Seq<(Seq<char>, JsonVal)>, int),
>
    decreases s.len() - i, 1int,
{
    if !(0 <= i && i < s.len() && s[i] == '"') {
        None
    } else {
        match spec_parse_string_body(s, i + 1) {
            None => None,
            Some((key, j)) => {
                let k = if 0 <= j <= s.len() {
                    skip_ws(s, j)
                } else {
                    j
                };
                if k < s.len() && s[k] == ':' {
                    let m = skip_ws(s, k + 1);
                    if i < m && m <= s.len() {
                        match spec_parse_value(s, m) {
                            None => None,
                            Some((v, e)) => {
                                let p = if 0 <= e <= s.len() {
                                    skip_ws(s, e)
                                } else {
                                    e
                                };
                                if p < s.len() && s[p] == ',' {
                                    let q = skip_ws(s, p + 1);
                                    if i < q && q <= s.len() {
                                        match spec_parse_fields(s, q) {
                                            Some((rest, z)) => Some((seq![(key, v)] + rest, z)),
                                            None => None,
                                        }
                                    } else {
                                        // never reached: the scan position only moves right
                                        None
                                    }
                                } else if p < s.len() && s[p] == '}' {
                                    Some((seq![(key, v)], p + 1))
                                } else {
                                    None
                                }
                            },
                        }
                    } else {
                        // never reached: the scan position only moves right
                        None
                    }
                } else {
                    None
                }
            },
        }
    }
}

/// Parses a complete JSON document: one value, optionally surrounded by
/// whitespace, with nothing after it.
pub open spec fn spec_parse_json(s: Seq<char>) -> Option<JsonVal> {
    let i = skip_ws(s, 0);
    match spec_parse_value(s, i) {
        Some((v, j)) => if 0 <= j <= s.len() && skip_ws(s, j) == s.len() {
            Some(v)
        } else {
            None
        },
        None => None,
    }
}

/// Relies on `core::char::from_u32`: for a code below `0x10000` it returns
/// `Some` exactly when the code is not a surrogate, and the character it
/// returns carries that code.
#[verifier::external_body]
fn char_from_u32(c: u32) -> (r: Option<char>)
    requires
        c < 0x10000,
    ensures
        r is Some <==> !is_surrogate_code(c as int),
        r matches Some(ch) ==> ch as u32 == c,
{
    char::from_u32(c)
}

/// Whether `c` is JSON whitespace.
fn ws_char(c: char) -> (r: bool)
    ensures
        r == is_ws(c),
{
    c == ' ' || c == '\t' || c == '\n' || c == '\r'
}

/// The first position at or after `i` without whitespace.
fn ws_end(s: &Vec<char>, i: usize) -> (r: usize)
    requires
        i <= s@.len(),
    ensures
        r as int == skip_ws(s@, i as int),
        i <= r <= s@.len(),
{
    let mut cur = i;
    while cur < s.len() && ws_char(s[cur])
        invariant
            i <= cur <= s@.len(),
            skip_ws(s@, i as int) == skip_ws(s@, cur as int),
        decreases s@.len() - cur,
    {
        cur += 1;
    }
    proof {
        assert(skip_ws(s@, cur as int) == cur as int);
        lemma_skip_ws_bounds(s@, i as int);
    }
    cur
}

/// The value of a hexadecimal digit character, if it is one.
fn hex_digit(c: char) -> (r: Option<u8>)
    ensures
        r is Some <==> is_hex_digit(c),
        r matches Some(v) ==> v as int == hex_val(c),
{
    if '0' <= c && c <= '9' {
        Some((c as u8) - 48)
    } else if 'a' <= c && c <= 'f' {
        Some((c as u8) - 87)
    } else if 'A' <= c && c <= 'F' {
        Some((c as u8) - 55)
    } else {
        None
    }
}

/// The character a single-letter escape stands for, if the letter is one.
fn unescape(c: char) -> (r: Option<char>)
    ensures
        r == unescaped_char(c),
{
    if c == '"' {
        Some('"')
    } else if c == '\\' {
        Some('\\')
    } else if c == '/' {
        Some('/')
    } else if c == 'b' {
        Some('\u{8}')
    } else if c == 'f' {
        Some('\u{c}')
    } else if c == 'n' {
        Some('\n')
    } else if c == 'r' {
        Some('\r')
    } else if c == 't' {
        Some('\t')
    } else {
        None
    }
}

/// Parses a string literal body starting just after the opening quote.
fn parse_string_body(s: &Vec<char>, i: usize) -> (r: Option<(Vec<char>, usize)>)
    requires
        i <= s@.len(),
    ensures
        match r {
            Some(p) => spec_parse_string_body(s@, i as int) == Some((p.0@, p.1 as int)) && i
                < p.1 <= s@.len(),
            None => spec_parse_string_body(s@, i as int) is None,
        },
{
    let mut cur = i;
    let mut buf: Vec<char> = Vec::new();
    loop
        invariant
            i <= cur <= s@.len(),
            (match spec_parse_string_body(s@, cur as int) {
                Some((r2, j2)) => spec_parse_string_body(s@, i as int) == Some((buf@ + r2, j2)),
                None => spec_parse_string_body(s@, i as int) is None,
            }),
        decreases s@.len() - cur,
    {
        if cur >= s.len() {
            return None;
        }
        let c = s[cur];
        if c == '"' {
            proof {
                assert(spec_parse_string_body(s@, cur as int) == Some(
                    (Seq::<char>::empty(), cur as int + 1),
                ));
                assert(buf@ + Seq::<char>::empty() =~= buf@);
                lemma_parse_string_body_bounds(s@, i as int);
            }
            return Some((buf, cur + 1));
        } else if c == '\\' {
            if cur + 1 >= s.len() {
                return None;
            }
            let c2 = s[cur + 1];
            if c2 == 'u' {
                if s.len() - cur < 6 {
                    proof {
                        assert(!hex4_ok(s@, cur as int + 2));
                    }
                    return None;
                }
                let h0 = hex_digit(s[cur + 2]);
                let h1 = hex_digit(s[cur + 3]);
                let h2 = hex_digit(s[cur + 4]);
                let h3 = hex_digit(s[cur + 5]);
                match (h0, h1, h2, h3) {
                    (Some(v0), Some(v1), Some(v2), Some(v3)) => {
                        let code: u32 = (v0 as u32) * 4096 + (v1 as u32) * 256 + (v2 as u32) * 16
                            + (v3 as u32);
                        proof {
                            assert(hex4_ok(s@, cur as int + 2));
                            assert(code as int == hex4_val(s@, cur as int + 2));
                        }
                        match char_from_u32(code) {
                            Some(ch) => {
                                proof {
                                    vstd::utf8::char_u32_cast(ch, code);
                                }
                                let ghost buf_old: Seq<char> = buf@;
                                let ghost cur_old: int = cur as int;
                                buf.push(ch);
                                cur = cur + 6;
                                proof {
                                    assert(buf@ =~= buf_old + seq![ch]);
                                    match spec_parse_string_body(s@, cur as int) {
                                        Some((r3, j3)) => {
                                            assert(spec_parse_string_body(s@, cur_old) == Some(
                                                (seq![ch] + r3, j3),
                                            ));
                                            assert(buf_old + (seq![ch] + r3) =~= buf@ + r3);
                                        },
                                        None => {},
                                    }
                                }
                            },
                            None => {
                                return None;
                            },
                        }
                    },
                    _ => {
                        proof {
                            assert(!hex4_ok(s@, cur as int + 2));
                        }
                        return None;
                    },
                }
            } else {
                match unescape(c2) {
                    Some(u) => {
                        let ghost buf_old: Seq<char> = buf@;
                        let ghost cur_old: int = cur as int;
                        buf.push(u);
                        cur = cur + 2;
                        proof {
                            assert(buf@ =~= buf_old + seq![u]);
                            match spec_parse_string_body(s@, cur as int) {
                                Some((r3, j3)) => {
                                    assert(spec_parse_string_body(s@, cur_old) == Some(
                                        (seq![u] + r3, j3),
                                    ));
                                    assert(buf_old + (seq![u] + r3) =~= buf@ + r3);
                                },
                                None => {},
                            }
                        }
                    },
                    None => {
                        return None;
                    },
                }
            }
        } else if (c as u32) < 32 {
            return None;
        } else {
            let ghost buf_old: Seq<char> = buf@;
            let ghost cur_old: int = cur as int;
            buf.push(c);
            cur = cur + 1;
            proof {
                assert(buf@ =~= buf_old + seq![c]);
                match spec_parse_string_body(s@, cur as int) {
                    Some((r3, j3)) => {
                        assert(spec_parse_string_body(s@, cur_old) == Some((seq![c] + r3, j3)));
                        assert(buf_old + (seq![c] + r3) =~= buf@ + r3);
                    },
                    None => {},
                }
            }
        }
    }
}

/// Scans a run of decimal digits, folding their value into a `u64`. `None`
/// means the value exceeds `2^63` and can fit no JSON integer of this API.
fn scan_digits(s: &Vec<char>, i: usize) -> (r: Option<(u64, usize)>)
    requires
        i <= s@.len(),
    ensures
        match r {
            Some(p) => parse_digits(s@, i as int, 0) == (p.0 as int, p.1 as int) && i <= p.1
                <= s@.len(),
            None => parse_digits(s@, i as int, 0).0 > 0x8000_0000_0000_0000,
        },
{
    let mut cur = i;
    let mut acc: u64 = 0;
    loop
        invariant
            i <= cur <= s@.len(),
            parse_digits(s@, i as int, 0) == parse_digits(s@, cur as int, acc as int),
        decreases s@.len() - cur,
    {
        if cur >= s.len() {
            return Some((acc, cur));
        }
        let c = s[cur];
        if !('0' <= c && c <= '9') {
            return Some((acc, cur));
        }
        let d: u64 = ((c as u8) - 48) as u64;
        if acc > 922337203685477580 {
            proof {
                assert(parse_digits(s@, cur as int, acc as int) == parse_digits(
                    s@,
                    cur as int + 1,
                    acc as int * 10 + digit_val(c),
                ));
                lemma_parse_digits_lower(s@, cur as int + 1, acc as int * 10 + digit_val(c));
            }
            return None;
        }
        acc = acc * 10 + d;
        cur += 1;
    }
}

/// Parses a JSON integer at `i`.
fn parse_number(s: &Vec<char>, i: usize) -> (r: Option<(JsonValue, usize)>)
    requires
        i <= s@.len(),
    ensures
        match r {
            Some(p) => spec_parse_number(s@, i as int) == Some((p.0@, p.1 as int)) && i < p.1
                <= s@.len(),
            None => spec_parse_number(s@, i as int) is None,
        },
{
    if i >= s.len() {
        return None;
    }
    let c = s[i];
    if c == '-' {
        if i + 1 >= s.len() || !('0' <= s[i + 1] && s[i + 1] <= '9') {
            return None;
        }
        if s[i + 1] == '0' && i + 2 < s.len() && '0' <= s[i + 2] && s[i + 2] <= '9' {
            return None;
        }
        proof {
            lemma_parse_digits_bounds(s@, i as int + 1, 0);
            lemma_parse_digits_lower(s@, i as int + 1, 0);
        }
        match scan_digits(s, i + 1) {
            Some((mag, j)) => {
                if mag > 0x8000_0000_0000_0000u64 {
                    return None;
                }
                let n: i64 = if mag == 0x8000_0000_0000_0000u64 {
                    i64::MIN
                } else {
                    -(mag as i64)
                };
                Some((JsonValue::Int(n), j))
            },
            None => None,
        }
    } else if '0' <= c && c <= '9' {
        if c == '0' && i + 1 < s.len() && '0' <= s[i + 1] && s[i + 1] <= '9' {
            return None;
        }
        proof {
            lemma_parse_digits_bounds(s@, i as int, 0);
            lemma_parse_digits_lower(s@, i as int, 0);
        }
        match scan_digits(s, i) {
            Some((mag, j)) => {
                if mag > 0x7fff_ffff_ffff_ffffu64 {
                    return None;
                }
                Some((JsonValue::Int(mag as i64), j))
            },
            None => None,
        }
    } else {
        None
    }
}

/// Parses one JSON value at `i` (no leading whitespace): exactly what the
/// reference parser returns.
pub fn parse_value_exec(s: &Vec<char>, i: usize) -> (r: Option<(JsonValue, usize)>)
    requires
        i <= s@.len(),
    ensures
        match r {
            Some(p) => spec_parse_value(s@, i as int) == Some((p.0@, p.1 as int)) && i < p.1
                <= s@.len(),
            None => spec_parse_value(s@, i as int) is None,
        },
    decreases s@.len() - i, 0int,
{
    if i >= s.len() {
        return None;
    }
    let c = s[i];
    if c == 'n' {
        if s.len() - i >= 4 && s[i + 1] == 'u' && s[i + 2] == 'l' && s[i + 3] == 'l' {
            Some((JsonValue::Null, i + 4))
        } else {
            None
        }
    } else if c == 't' {
        if s.len() - i >= 4 && s[i + 1] == 'r' && s[i + 2] == 'u' && s[i + 3] == 'e' {
            Some((JsonValue::Bool(true), i + 4))
        } else {
            None
        }
    } else if c == 'f' {
        if s.len() - i >= 5 && s[i + 1] == 'a' && s[i + 2] == 'l' && s[i + 3] == 's' && s[i + 4]
            == 'e' {
            Some((JsonValue::Bool(false), i + 5))
        } else {
            None
        }
    } else if c == '"' {
        match parse_string_body(s, i + 1) {
            Some((buf, j)) => {
                let text = chars_to_string(&buf);
                Some((JsonValue::Str(text), j))
            },
            None => None,
        }
    } else if c == '[' {
        let j = ws_end(s, i + 1);
        if j < s.len() && s[j] == ']' {
            let ev: Vec<JsonValue> = Vec::new();
            proof {
                assert(list_view(ev@) =~= Seq::<JsonVal>::empty());
            }
            Some((JsonValue::Arr(ev), j + 1))
        } else {
            match parse_elems_exec(s, j) {
                Some((ev, k)) => Some((JsonValue::Arr(ev), k)),
                None => None,
            }
        }
    } else if c == '{' {
        let j = ws_end(s, i + 1);
        if j < s.len() && s[j] == '}' {
            let fv: Vec<(String, JsonValue)> = Vec::new();
            proof {
                assert(obj_view(fv@) =~= Seq::<(Seq<char>, JsonVal)>::empty());
            }
            Some((JsonValue::Obj(fv), j + 1))
        } else {
            match parse_fields_exec(s, j) {
                Some((fv, k)) => Some((JsonValue::Obj(fv), k)),
                None => None,
            }
        }
    } else {
        parse_number(s, i)
    }
}

/// Parses the elements of a non-empty array, the first standing at `i`.
fn parse_elems_exec(s: &Vec<char>, i: usize) -> (r: Option<(Vec<JsonValue>, usize)>)
    requires
        i <= s@.len(),
    ensures
        match r {
            Some(p) => spec_parse_elems(s@, i as int) == Some((list_view(p.0@), p.1 as int)) && i
                < p.1 <= s@.len(),
            None => spec_parse_elems(s@, i as int) is None,
        },
    decreases s@.len() - i, 1int,
{
    match parse_value_exec(s, i) {
        None => None,
        Some((v, j)) => {
            let k = ws_end(s, j);
            if k < s.len() && s[k] == ',' {
                let m = ws_end(s, k + 1);
                match parse_elems_exec(s, m) {
                    Some((mut ev, e)) => {
                        let ghost tail: Seq<JsonValue> = ev@;
                        ev.insert(0, v);
                        proof {
                            assert(ev@[0] == v);
                            assert(ev@.drop_first() =~= tail);
                            assert(list_view(ev@) =~= seq![v@] + list_view(tail));
                        }
                        Some((ev, e))
                    },
                    None => None,
                }
            } else if k < s.len() && s[k] == ']' {
                let mut ev: Vec<JsonValue> = Vec::new();
                ev.push(v);
                proof {
                    assert(ev@.drop_first() =~= Seq::<JsonValue>::empty());
                    assert(list_view(ev@.drop_first()) =~= Seq::<JsonVal>::empty());
                    assert(list_view(ev@) =~= seq![v@]);
                }
                Some((ev, k + 1))
            } else {
                None
            }
        },
    }
}

/// Parses the fields of a non-empty object, the first key standing at `i`.
fn parse_fields_exec(s: &Vec<char>, i: usize) -> (r: Option<(Vec<(String, JsonValue)>, usize)>)
    requires
        i <= s@.len(),
    ensures
        match r {
            Some(p) => spec_parse_fields(s@, i as int) == Some((obj_view(p.0@), p.1 as int)) && i
                < p.1 <= s@.len(),
            None => spec_parse_fields(s@, i as int) is None,
        },
    decreases s@.len() - i, 1int,
{
    if i >= s.len() || s[i] != '"' {
        return None;
    }
    match parse_string_body(s, i + 1) {
        None => None,
        Some((key_buf, j)) => {
            let key = chars_to_string(&key_buf);
            let k = ws_end(s, j);
            if k < s.len() && s[k] == ':' {
                let m = ws_end(s, k + 1);
                match parse_value_exec(s, m) {
                    None => None,
                    Some((v, e)) => {
                        let p = ws_end(s, e);
                        if p < s.len() && s[p] == ',' {
                            let q = ws_end(s, p + 1);
                            match parse_fields_exec(s, q) {
                                Some((mut fv, z)) => {
                                    let ghost tail: Seq<(String, JsonValue)> = fv@;
                                    fv.insert(0, (key, v));
                                    proof {
                                        assert(fv@[0] == (key, v));
                                        assert(fv@.drop_first() =~= tail);
                                        assert(obj_view(fv@) =~= seq![(key_buf@, v@)] + obj_view(
                                            tail,
                                        ));
                                    }
                                    Some((fv, z))
                                },
                                None => None,
                            }
                        } else if p < s.len() && s[p] == '}' {
                            let mut fv: Vec<(String, JsonValue)> = Vec::new();
                            fv.push((key, v));
                            proof {
                                assert(fv@.drop_first() =~= Seq::<(String, JsonValue)>::empty());
                                assert(obj_view(fv@.drop_first()) =~= Seq::<
                                    (Seq<char>, JsonVal),
                                >::empty());
                                assert(obj_view(fv@) =~= seq![(key_buf@, v@)]);
                            }
                            Some((fv, p + 1))
                        } else {
                            None
                        }
                    },
                }
            } else {
                None
            }
        },
    }
}

/// Parses a complete JSON document: one value, optionally surrounded by
/// whitespace, with nothing after it. Returns exactly what the reference
/// parser says, `None` on any malformed input.
pub fn parse_json(s: &str) -> (r: Option<JsonValue>)
    ensures
        match r {
            Some(v) => spec_parse_json(s@) == Some(v@),
            None => spec_parse_json(s@) is None,
        },
{
    let chars = string_to_chars(s);
    let i = ws_end(&chars, 0);
    match parse_value_exec(&chars, i) {
        None => None,
        Some((v, j)) => {
            let k = ws_end(&chars, j);
            if k == chars.len() {
                Some(v)
            } else {
                None
            }
        },
    }
}

/// A parsed value ends strictly right of where it began and within the
/// text: the guarded branches of the reference parser are never taken.
pub proof fn lemma_parse_value_bounds(s: Seq<char>, i: int)
    requires
        0 <= i,
    ensures
        spec_parse_value(s, i) matches Some((v, j)) ==> i < j <= s.len(),
    decreases s.len() - i, 0int,
{
    if 0 <= i && i < s.len() {
        if s[i] == '"' {
            lemma_parse_string_body_bounds(s, i + 1);
        } else if s[i] == '[' {
            lemma_skip_ws_bounds(s, i + 1);
            let j = skip_ws(s, i + 1);
            if j < s.len() && s[j] == ']' {
            } else if i < j && j <= s.len() {
                lemma_parse_elems_bounds(s, j);
            }
        } else if s[i] == '{' {
            lemma_skip_ws_bounds(s, i + 1);
            let j = skip_ws(s, i + 1);
            if j < s.len() && s[j] == '}' {
            } else if i < j && j <= s.len() {
                lemma_parse_fields_bounds(s, j);
            }
        } else if s[i] == '-' {
            lemma_parse_digits_bounds(s, i + 1, 0);
        } else if is_digit(s[i]) {
            lemma_parse_digits_bounds(s, i, 0);
        }
    }
}

/// Parsed array elements end strictly right of where they began and within
/// the text.
pub proof fn lemma_parse_elems_bounds(s: Seq<char>, i: int)
    requires
        0 <= i,
    ensures
        spec_parse_elems(s, i) matches Some((elems, j)) ==> i < j <= s.len(),
    decreases s.len() - i, 1int,
{
    lemma_parse_value_bounds(s, i);
    match spec_parse_value(s, i) {
        None => {},
        Some((v, j)) => {
            lemma_skip_ws_bounds(s, j);
            let k = skip_ws(s, j);
            if k < s.len() && s[k] == ',' {
                lemma_skip_ws_bounds(s, k + 1);
                let m = skip_ws(s, k + 1);
                if i < m && m <= s.len() {
                    lemma_parse_elems_bounds(s, m);
                }
            }
        },
    }
}

/// Parsed object fields end strictly right of where they began and within
/// the text.
pub proof fn lemma_parse_fields_bounds(s: Seq<char>, i: int)
    requires
        0 <= i,
    ensures
        spec_parse_fields(s, i) matches Some((fields, j)) ==> i < j <= s.len(),
    decreases s.len() - i, 1int,
{
    if 0 <= i && i < s.len() && s[i] == '"' {
        lemma_parse_string_body_bounds(s, i + 1);
        match spec_parse_string_body(s, i + 1) {
            None => {},
            Some((key, j)) => {
                lemma_skip_ws_bounds(s, j);
                let k = skip_ws(s, j);
                if k < s.len() && s[k] == ':' {
                    lemma_skip_ws_bounds(s, k + 1);
                    let m = skip_ws(s, k + 1);
                    if i < m && m <= s.len() {
                        lemma_parse_value_bounds(s, m);
                        match spec_parse_value(s, m) {
                            None => {},
                            Some((v, e)) => {
                                lemma_skip_ws_bounds(s, e);
                                let p = skip_ws(s, e);
                                if p < s.len() && s[p] == ',' {
                                    lemma_skip_ws_bounds(s, p + 1);
                                    let q = skip_ws(s, p + 1);
                                    if i < q && q <= s.len() {
                                        lemma_parse_fields_bounds(s, q);
                                    }
                                }
                            },
                        }
                    }
                }
            },
        }
    }
}

} // verus!

verus! {

// ---------------------------------------------------------------------
// The parser inverts the writer: the canonical text of a well-formed
// document parses back to exactly that document.
// ---------------------------------------------------------------------

/// A scalar JSON value: anything but an array or an object, the integers
/// within the range of `i64`.
pub open spec fn scalar_json(v: JsonVal) -> bool {
    match v {
        JsonVal::Null => true,
        JsonVal::Bool(_) => true,
        JsonVal::Int(n) => -0x8000_0000_0000_0000 <= n <= 0x7fff_ffff_ffff_ffff,
        JsonVal::Str(_) => true,
        JsonVal::Arr(_) => false,
        JsonVal::Obj(_) => false,
    }
}

/// An object whose fields all hold scalar values.
pub open spec fn flat_fields(fields: Seq<(Seq<char>, JsonVal)>) -> bool {
    forall|k: int| 0 <= k < fields.len() ==> scalar_json(#[trigger] fields[k].1)
}

/// The hexadecimal digit characters carry their values.
proof fn lemma_hex_char(d: int)
    requires
        0 <= d <= 15,
    ensures
        is_hex_digit(hex_char(d)),
        hex_val(hex_char(d)) == d,
{
}

/// Scanning the digit run of a rendered number folds the number onto the
/// accumulator and lands just after the run.
pub proof fn lemma_parse_digits_of_text(n: nat, s: Seq<char>, i: int, acc: int)
    requires
        0 <= i,
        i + nat_text(n).len() <= s.len(),
        s.subrange(i, i + nat_text(n).len() as int) == nat_text(n),
        acc >= 0,
    ensures
        parse_digits(s, i, acc) == parse_digits(
            s,
            i + nat_text(n).len() as int,
            acc * pow10(nat_text(n).len() as nat) + n,
        ),
    decreases n,
{
    lemma_nat_text_digits(n);
    if n < 10 {
        lemma_digit_char(n as int);
        assert(s.subrange(i, i + 1)[0] == s[i]);
        assert(s[i] == nat_text(n)[0]);
        assert(is_digit(s[i]));
        assert(digit_val(s[i]) == n);
        assert(parse_digits(s, i, acc) == parse_digits(s, i + 1, acc * 10 + digit_val(s[i])));
        assert(pow10(0) == 1);
        assert(pow10(1) == 10 * pow10(0));
        assert(acc * 10 + n == acc * pow10(1) + n) by (nonlinear_arith)
            requires
                pow10(1) == 10,
        {
        }
    } else {
        let prefix = nat_text(n / 10);
        let len = nat_text(n).len() as int;
        assert(nat_text(n) == prefix + seq![crate::text::digit_char((n % 10) as int)]);
        assert(prefix.len() + 1 == len);
        assert(s.subrange(i, i + prefix.len() as int) =~= prefix) by {
            assert forall|k: int| 0 <= k < prefix.len() implies s.subrange(
                i,
                i + prefix.len() as int,
            )[k] == prefix[k] by {
                assert(s.subrange(i, i + prefix.len() as int)[k] == s[i + k]);
                assert(s.subrange(i, i + len)[k] == s[i + k]);
                assert(nat_text(n)[k] == prefix[k]);
            }
        }
        lemma_parse_digits_of_text(n / 10, s, i, acc);
        let j = i + prefix.len() as int;
        let acc2 = acc * pow10(prefix.len() as nat) + n / 10;
        assert(s.subrange(i, i + len)[prefix.len() as int] == s[j]);
        assert(s[j] == crate::text::digit_char((n % 10) as int));
        lemma_digit_char((n % 10) as int);
        assert(is_digit(s[j]));
        assert(digit_val(s[j]) == n % 10);
        assert(acc2 >= 0) by (nonlinear_arith)
            requires
                acc >= 0,
                acc2 == acc * pow10(prefix.len() as nat) + n / 10,
                pow10(prefix.len() as nat) >= 0,
                n / 10 >= 0,
        {
        }
        assert(parse_digits(s, j, acc2) == parse_digits(s, j + 1, acc2 * 10 + digit_val(s[j])));
        assert(pow10(len as nat) == 10 * pow10(prefix.len() as nat));
        assert(acc2 * 10 + n % 10 == acc * pow10(len as nat) + n) by (nonlinear_arith)
            requires
                acc2 == acc * pow10(prefix.len() as nat) + n / 10,
                pow10(len as nat) == 10 * pow10(prefix.len() as nat),
                n == 10 * (n / 10) + n % 10,
        {
        }
    }
}

/// The rendered text of an integer within `i64`, followed by anything but a
/// digit, parses back to exactly that integer.
pub proof fn lemma_parse_number_of_text(n: int, s: Seq<char>, i: int)
    requires
        -0x8000_0000_0000_0000 <= n <= 0x7fff_ffff_ffff_ffff,
        0 <= i,
        i + int_text(n).len() <= s.len(),
        s.subrange(i, i + int_text(n).len() as int) == int_text(n),
        i + int_text(n).len() == s.len() || !is_digit(s[i + int_text(n).len()]),
    ensures
        spec_parse_number(s, i) == Some((JsonVal::Int(n), i + int_text(n).len() as int)),
{
    let len = int_text(n).len() as int;
    if n < 0 {
        let mag = (-n) as nat;
        lemma_nat_text_digits(mag);
        assert(int_text(n) == seq!['-'] + nat_text(mag));
        assert(s.subrange(i, i + len)[0] == s[i]);
        assert(s[i] == '-');
        assert(s.subrange(i + 1, i + len) =~= nat_text(mag)) by {
            assert forall|k: int| 0 <= k < nat_text(mag).len() implies s.subrange(i + 1, i + len)[k]
                == nat_text(mag)[k] by {
                assert(s.subrange(i + 1, i + len)[k] == s[i + 1 + k]);
                assert(s.subrange(i, i + len)[k + 1] == s[i + 1 + k]);
                assert(int_text(n)[k + 1] == nat_text(mag)[k]);
            }
        }
        assert(s[i + 1] == nat_text(mag)[0]);
        assert(is_digit(s[i + 1]));
        assert(mag > 0);
        assert(s[i + 1] != '0');
        assert(!has_leading_zero(s, i + 1));
        lemma_parse_digits_of_text(mag, s, i + 1, 0);
        let end = i + len;
        assert(parse_digits(s, end, 0int * pow10(nat_text(mag).len() as nat) + mag) == (
        0int * pow10(nat_text(mag).len() as nat) + mag,
        end,
        ));
        assert(0int * pow10(nat_text(mag).len() as nat) == 0) by (nonlinear_arith) {}
        assert(parse_digits(s, i + 1, 0) == (mag as int, end));
        assert(mag <= 0x8000_0000_0000_0000);
        assert(-(mag as int) == n);
    } else {
        let mag = n as nat;
        lemma_nat_text_digits(mag);
        assert(int_text(n) == nat_text(mag));
        assert(s.subrange(i, i + len)[0] == s[i]);
        assert(s[i] == nat_text(mag)[0]);
        assert(is_digit(s[i]));
        if n == 0 {
            assert(nat_text(mag).len() == 1);
            assert(!has_leading_zero(s, i));
        } else {
            assert(s[i] != '0');
            assert(!has_leading_zero(s, i));
        }
        assert(s[i] != '-');
        lemma_parse_digits_of_text(mag, s, i, 0);
        let end = i + len;
        assert(parse_digits(s, end, 0int * pow10(nat_text(mag).len() as nat) + mag) == (
        0int * pow10(nat_text(mag).len() as nat) + mag,
        end,
        ));
        assert(0int * pow10(nat_text(mag).len() as nat) == 0) by (nonlinear_arith) {}
        assert(parse_digits(s, i, 0) == (mag as int, end));
        assert(mag <= 0x7fff_ffff_ffff_ffff);
    }
}

/// The escaped body of a string literal, up to and including the closing
/// quote, parses back to exactly the original characters.
pub proof fn lemma_parse_escaped_text(t: Seq<char>, s: Seq<char>, i: int)
    requires
        0 <= i,
        i + escaped(t).len() + 1 <= s.len(),
        s.subrange(i, i + escaped(t).len() + 1) == escaped(t) + seq!['"'],
    ensures
        spec_parse_string_body(s, i) == Some((t, i + escaped(t).len() + 1)),
    decreases t.len(),
{
    let total = escaped(t).len() + 1;
    if t.len() == 0 {
        assert(escaped(t) == Seq::<char>::empty());
        assert(s.subrange(i, i + 1)[0] == s[i]);
        assert(s[i] == '"');
        assert(spec_parse_string_body(s, i) == Some((Seq::<char>::empty(), i + 1)));
        assert(t =~= Seq::<char>::empty());
    } else {
        let c = t[0];
        let e = escaped_char(c);
        let rest = t.drop_first();
        assert(escaped(t) == e + escaped(rest));
        assert forall|k: int| 0 <= k < e.len() implies s[i + k] == e[k] by {
            assert(s.subrange(i, i + total as int)[k] == s[i + k]);
            assert((escaped(t) + seq!['"'])[k] == e[k]);
        }
        let j = i + e.len() as int;
        assert(s.subrange(j, j + escaped(rest).len() + 1) =~= escaped(rest) + seq!['"']) by {
            assert forall|k: int| 0 <= k < escaped(rest).len() + 1 implies s.subrange(
                j,
                j + escaped(rest).len() + 1,
            )[k] == (escaped(rest) + seq!['"'])[k] by {
                assert(s.subrange(j, j + escaped(rest).len() + 1)[k] == s[j + k]);
                assert(s.subrange(i, i + total as int)[e.len() + k] == s[j + k]);
                assert((escaped(t) + seq!['"'])[e.len() + k] == (escaped(rest) + seq!['"'])[k]);
            }
        }
        lemma_parse_escaped_text(rest, s, j);
        let end = i + total as int;
        assert(spec_parse_string_body(s, j) == Some((rest, end)));
        assert(seq![c] + rest =~= t);
        if c == '"' || c == '\\' {
            assert(s[i] == '\\');
            assert(s[i + 1] == c);
            assert(unescaped_char(c) == Some(c));
            assert(spec_parse_string_body(s, i) == Some((seq![c] + rest, end)));
        } else if c == '\u{8}' {
            assert(s[i] == '\\' && s[i + 1] == 'b');
            assert(spec_parse_string_body(s, i) == Some((seq![c] + rest, end)));
        } else if c == '\u{c}' {
            assert(s[i] == '\\' && s[i + 1] == 'f');
            assert(spec_parse_string_body(s, i) == Some((seq![c] + rest, end)));
        } else if c == '\n' {
            assert(s[i] == '\\' && s[i + 1] == 'n');
            assert(spec_parse_string_body(s, i) == Some((seq![c] + rest, end)));
        } else if c == '\r' {
            assert(s[i] == '\\' && s[i + 1] == 'r');
            assert(spec_parse_string_body(s, i) == Some((seq![c] + rest, end)));
        } else if c == '\t' {
            assert(s[i] == '\\' && s[i + 1] == 't');
            assert(spec_parse_string_body(s, i) == Some((seq![c] + rest, end)));
        } else if (c as u32) < 32 {
            let code = c as u32;
            assert(s[i] == '\\' && s[i + 1] == 'u' && s[i + 2] == '0' && s[i + 3] == '0');
            assert(s[i + 4] == hex_char(code as int / 16));
            assert(s[i + 5] == hex_char(code as int % 16));
            lemma_hex_char(code as int / 16);
            lemma_hex_char(code as int % 16);
            assert(is_hex_digit('0') && hex_val('0') == 0);
            assert(hex4_ok(s, i + 2));
            assert(hex4_val(s, i + 2) == (code as int / 16) * 16 + code as int % 16);
            assert((code as int / 16) * 16 + code as int % 16 == code as int);
            assert(!is_surrogate_code(code as int));
            vstd::utf8::char_u32_cast(c, code);
            assert(((hex4_val(s, i + 2) as u32) as char) == c);
            assert(spec_parse_string_body(s, i) == Some((seq![c] + rest, end)));
        } else {
            assert(e == seq![c]);
            assert(s[i] == c);
            assert(c != '"' && c != '\\' && !((c as u32) < 32));
            assert(spec_parse_string_body(s, i) == Some((seq![c] + rest, end)));
        }
    }
}

/// A whole string literal parses back to exactly its characters.
pub proof fn lemma_parse_string_of_text(t: Seq<char>, s: Seq<char>, i: int)
    requires
        0 <= i,
        i + string_text(t).len() <= s.len(),
        s.subrange(i, i + string_text(t).len() as int) == string_text(t),
    ensures
        s[i] == '"',
        spec_parse_string_body(s, i + 1) == Some((t, i + string_text(t).len() as int)),
{
    let len = string_text(t).len() as int;
    assert(s.subrange(i, i + len)[0] == s[i]);
    assert(s[i] == '"');
    assert(s.subrange(i + 1, i + len) =~= escaped(t) + seq!['"']) by {
        assert forall|k: int| 0 <= k < escaped(t).len() + 1 implies s.subrange(i + 1, i + len)[k]
            == (escaped(t) + seq!['"'])[k] by {
            assert(s.subrange(i + 1, i + len)[k] == s[i + 1 + k]);
            assert(s.subrange(i, i + len)[k + 1] == s[i + 1 + k]);
            assert(string_text(t)[k + 1] == (escaped(t) + seq!['"'])[k]);
        }
    }
    lemma_parse_escaped_text(t, s, i + 1);
}

/// A well-formed document: every integer within the range of `i64`. The
/// writer renders exactly these faithfully.
pub open spec fn wf_json(v: JsonVal) -> bool
    decreases v, 0int,
{
    match v {
        JsonVal::Null => true,
        JsonVal::Bool(_) => true,
        JsonVal::Int(n) => -0x8000_0000_0000_0000 <= n <= 0x7fff_ffff_ffff_ffff,
        JsonVal::Str(_) => true,
        JsonVal::Arr(elems) => wf_elems(elems),
        JsonVal::Obj(fields) => wf_fields(fields),
    }
}

/// Array elements that are all well-formed.
pub open spec fn wf_elems(elems: Seq<JsonVal>) -> bool
    decreases elems, 1int,
{
    if elems.len() == 0 {
        true
    } else {
        wf_json(elems[0]) && wf_elems(elems.drop_first())
    }
}

/// Object fields whose values are all well-formed.
pub open spec fn wf_fields(fields: Seq<(Seq<char>, JsonVal)>) -> bool
    decreases fields, 1int,
{
    if fields.len() == 0 {
        true
    } else {
        wf_json(fields[0].1) && wf_fields(fields.drop_first())
    }
}

/// A scalar value is a well-formed document.
proof fn lemma_scalar_wf(v: JsonVal)
    requires
        scalar_json(v),
    ensures
        wf_json(v),
{
    match v {
        JsonVal::Null => {},
        JsonVal::Bool(_) => {},
        JsonVal::Int(_) => {},
        JsonVal::Str(_) => {},
        JsonVal::Arr(_) => {},
        JsonVal::Obj(_) => {},
    }
}

/// An object of scalar fields is a well-formed document.
pub proof fn lemma_flat_fields_wf(fields: Seq<(Seq<char>, JsonVal)>)
    requires
        flat_fields(fields),
    ensures
        wf_fields(fields),
    decreases fields.len(),
{
    if fields.len() > 0 {
        assert(scalar_json(fields[0].1));
        lemma_scalar_wf(fields[0].1);
        assert(flat_fields(fields.drop_first())) by {
            assert(forall|k: int| 0 <= k < fields.drop_first().len() ==> fields.drop_first()[k]
                == fields[k + 1]);
        }
        lemma_flat_fields_wf(fields.drop_first());
    }
}

/// The first character of a value's text is never whitespace and never a
/// closing or separator character.
proof fn lemma_json_text_first(v: JsonVal)
    ensures
        json_text(v).len() >= 1,
        !is_ws(json_text(v)[0]),
        json_text(v)[0] != ']',
        json_text(v)[0] != '}',
    decreases v,
{
    match v {
        JsonVal::Int(n) => {
            lemma_nat_text_digits(if n < 0 {
                (-n) as nat
            } else {
                n as nat
            });
        },
        _ => {},
    }
}

/// The rendered text of a well-formed value, followed by anything but a
/// digit, parses back to exactly that value.
pub proof fn lemma_parse_value_of_text(v: JsonVal, s: Seq<char>, i: int)
    requires
        wf_json(v),
        0 <= i,
        i + json_text(v).len() <= s.len(),
        s.subrange(i, i + json_text(v).len() as int) == json_text(v),
        i + json_text(v).len() == s.len() || !is_digit(s[i + json_text(v).len()]),
    ensures
        spec_parse_value(s, i) == Some((v, i + json_text(v).len() as int)),
    decreases v, 0int,
{
    let len = json_text(v).len() as int;
    assert forall|k: int| 0 <= k < len implies s[i + k] == json_text(v)[k] by {
        assert(s.subrange(i, i + len)[k] == s[i + k]);
    }
    match v {
        JsonVal::Null => {
            assert(s[i] == 'n' && s[i + 1] == 'u' && s[i + 2] == 'l' && s[i + 3] == 'l');
        },
        JsonVal::Bool(b) => {
            if b {
                assert(s[i] == 't' && s[i + 1] == 'r' && s[i + 2] == 'u' && s[i + 3] == 'e');
            } else {
                assert(s[i] == 'f' && s[i + 1] == 'a' && s[i + 2] == 'l' && s[i + 3] == 's' && s[i
                    + 4] == 'e');
            }
        },
        JsonVal::Int(n) => {
            lemma_nat_text_digits(if n < 0 {
                (-n) as nat
            } else {
                n as nat
            });
            assert(s[i] == int_text(n)[0]);
            assert(s[i] == '-' || is_digit(s[i]));
            lemma_parse_number_of_text(n, s, i);
        },
        JsonVal::Str(t) => {
            lemma_parse_string_of_text(t, s, i);
        },
        JsonVal::Arr(elems) => {
            let et = elems_text(elems);
            assert(json_text(v) == seq!['['] + et + seq![']']);
            assert(json_text(v)[0] == '[') by {
                assert((seq!['['] + et + seq![']'])[0] == '[');
            }
            assert(s[i + 0] == json_text(v)[0]);
            assert(s[i] == '[');
            if elems.len() == 0 {
                assert(et =~= Seq::<char>::empty());
                assert(json_text(v)[1] == ']') by {
                    assert((seq!['['] + et + seq![']'])[1] == ']');
                }
                assert(s[i + 1] == ']');
                assert(skip_ws(s, i + 1) == i + 1);
                assert(elems =~= Seq::<JsonVal>::empty());
                assert(spec_parse_value(s, i) == Some((JsonVal::Arr(Seq::<JsonVal>::empty()), i
                    + 2)));
            } else {
                assert(et == json_text(elems[0]) + elems_text_rest(elems.drop_first()));
                lemma_json_text_first(elems[0]);
                assert(et[0] == json_text(elems[0])[0]) by {
                    assert((json_text(elems[0]) + elems_text_rest(elems.drop_first()))[0]
                        == json_text(elems[0])[0]);
                }
                assert(json_text(v)[1] == et[0]) by {
                    assert((seq!['['] + et + seq![']'])[1] == et[0]);
                }
                assert(s[i + 1] == et[0]);
                assert(!is_ws(s[i + 1]));
                assert(skip_ws(s, i + 1) == i + 1);
                assert(s[i + 1] != ']');
                assert(s.subrange(i + 1, i + 1 + et.len() as int + 1) =~= et + seq![']']) by {
                    assert forall|k: int| 0 <= k < et.len() + 1 implies s.subrange(
                        i + 1,
                        i + 1 + et.len() as int + 1,
                    )[k] == (et + seq![']'])[k] by {
                        assert(s.subrange(i + 1, i + 1 + et.len() as int + 1)[k] == s[i + 1 + k]);
                        assert(json_text(v)[1 + k] == (et + seq![']'])[k]) by {
                            if k < et.len() {
                                assert((seq!['['] + et + seq![']'])[1 + k] == et[k]);
                            } else {
                                assert((seq!['['] + et + seq![']'])[1 + k] == ']');
                            }
                        }
                        assert(s[i + 1 + k] == json_text(v)[1 + k]);
                    }
                }
                assert(decreases_to!(v => v->Arr_0));
                lemma_parse_elems_of_text(elems, s, i + 1);
                assert(spec_parse_elems(s, i + 1) == Some((elems, i + len)));
                assert(spec_parse_value(s, i) == Some((v, i + len)));
            }
        },
        JsonVal::Obj(fields) => {
            let ft = fields_text(fields);
            assert(json_text(v) == seq!['{'] + ft + seq!['}']);
            assert(json_text(v)[0] == '{') by {
                assert((seq!['{'] + ft + seq!['}'])[0] == '{');
            }
            assert(s[i + 0] == json_text(v)[0]);
            assert(s[i] == '{');
            if fields.len() == 0 {
                assert(ft =~= Seq::<char>::empty());
                assert(json_text(v)[1] == '}') by {
                    assert((seq!['{'] + ft + seq!['}'])[1] == '}');
                }
                assert(s[i + 1] == '}');
                assert(skip_ws(s, i + 1) == i + 1);
                assert(fields =~= Seq::<(Seq<char>, JsonVal)>::empty());
                assert(spec_parse_value(s, i) == Some(
                    (JsonVal::Obj(Seq::<(Seq<char>, JsonVal)>::empty()), i + 2),
                ));
            } else {
                assert(ft == field_text(fields[0]) + fields_text_rest(fields.drop_first()));
                assert(ft[0] == '"') by {
                    assert((field_text(fields[0]) + fields_text_rest(fields.drop_first()))[0]
                        == field_text(fields[0])[0]);
                    assert((string_text(fields[0].0) + seq![':'] + json_text(fields[0].1))[0]
                        == string_text(fields[0].0)[0]);
                    assert((seq!['"'] + crate::json::escaped(fields[0].0) + seq!['"'])[0] == '"');
                }
                assert(json_text(v)[1] == ft[0]) by {
                    assert((seq!['{'] + ft + seq!['}'])[1] == ft[0]);
                }
                assert(s[i + 1] == ft[0]);
                assert(skip_ws(s, i + 1) == i + 1);
                assert(s[i + 1] != '}');
                assert(s.subrange(i + 1, i + 1 + ft.len() as int + 1) =~= ft + seq!['}']) by {
                    assert forall|k: int| 0 <= k < ft.len() + 1 implies s.subrange(
                        i + 1,
                        i + 1 + ft.len() as int + 1,
                    )[k] == (ft + seq!['}'])[k] by {
                        assert(s.subrange(i + 1, i + 1 + ft.len() as int + 1)[k] == s[i + 1 + k]);
                        assert(json_text(v)[1 + k] == (ft + seq!['}'])[k]) by {
                            if k < ft.len() {
                                assert((seq!['{'] + ft + seq!['}'])[1 + k] == ft[k]);
                            } else {
                                assert((seq!['{'] + ft + seq!['}'])[1 + k] == '}');
                            }
                        }
                        assert(s[i + 1 + k] == json_text(v)[1 + k]);
                    }
                }
                assert(decreases_to!(v => v->Obj_0));
                lemma_parse_fields_of_text(fields, s, i + 1);
                assert(spec_parse_fields(s, i + 1) == Some((fields, i + len)));
                assert(spec_parse_value(s, i) == Some((v, i + len)));
            }
        },
    }
}

/// The rendered elements of a non-empty array, up to and including the
/// closing bracket, parse back to exactly those elements.
pub proof fn lemma_parse_elems_of_text(elems: Seq<JsonVal>, s: Seq<char>, i: int)
    requires
        elems.len() >= 1,
        wf_elems(elems),
        0 <= i,
        i + elems_text(elems).len() + 1 <= s.len(),
        s.subrange(i, i + elems_text(elems).len() + 1) == elems_text(elems) + seq![']'],
    ensures
        spec_parse_elems(s, i) == Some((elems, i + elems_text(elems).len() + 1)),
    decreases elems, 1int,
{
    let head = elems[0];
    let rest = elems.drop_first();
    let et = elems_text(elems);
    let end = i + et.len() as int + 1;
    assert(et == json_text(head) + elems_text_rest(rest));
    assert forall|k: int| 0 <= k < et.len() implies s[i + k] == et[k] by {
        assert(s.subrange(i, end)[k] == s[i + k]);
    }
    assert(s[end - 1] == ']') by {
        assert(s.subrange(i, end)[et.len() as int] == s[end - 1]);
    }
    let vl = json_text(head).len() as int;
    assert(s.subrange(i, i + vl) =~= json_text(head)) by {
        assert forall|k: int| 0 <= k < vl implies s.subrange(i, i + vl)[k] == json_text(head)[k]
            by {
            assert(s.subrange(i, i + vl)[k] == s[i + k]);
            assert(et[k] == json_text(head)[k]);
        }
    }
    let e = i + vl;
    assert(decreases_to!(elems => elems[0]));
    if rest.len() == 0 {
        assert(elems_text_rest(rest) == Seq::<char>::empty());
        assert(et =~= json_text(head));
        assert(e == end - 1);
        assert(s[e] == ']');
        assert(!is_digit(']'));
        lemma_parse_value_of_text(head, s, i);
        assert(spec_parse_value(s, i) == Some((head, e)));
        assert(skip_ws(s, e) == e);
        assert(spec_parse_elems(s, i) == Some((seq![head], e + 1)));
        assert(seq![head] =~= elems);
    } else {
        assert(elems_text_rest(rest) == seq![','] + elems_text(rest)) by {
            assert(elems_text_rest(rest) == seq![','] + json_text(rest[0]) + elems_text_rest(
                rest.drop_first(),
            ));
            assert(elems_text(rest) == json_text(rest[0]) + elems_text_rest(rest.drop_first()));
            assert(seq![','] + json_text(rest[0]) + elems_text_rest(rest.drop_first()) =~= seq![
                ','
            ] + (json_text(rest[0]) + elems_text_rest(rest.drop_first())));
        }
        assert(s[e] == ',') by {
            assert(et[vl] == ',');
        }
        assert(!is_digit(','));
        lemma_parse_value_of_text(head, s, i);
        assert(spec_parse_value(s, i) == Some((head, e)));
        assert(skip_ws(s, e) == e);
        let q = e + 1;
        assert(s.subrange(q, end) =~= elems_text(rest) + seq![']']) by {
            assert forall|k: int| 0 <= k < elems_text(rest).len() + 1 implies s.subrange(q, end)[k]
                == (elems_text(rest) + seq![']'])[k] by {
                assert(s.subrange(q, end)[k] == s[q + k]);
                assert(s.subrange(i, end)[(q - i) + k] == s[q + k]);
                assert((et + seq![']'])[(q - i) + k] == (elems_text(rest) + seq![']'])[k]) by {
                    assert(et[vl + 1 + k] == elems_text(rest)[k] || k == elems_text(rest).len());
                }
            }
        }
        lemma_parse_elems_of_text(rest, s, q);
        assert(spec_parse_elems(s, q) == Some((rest, end)));
        assert(s[q] == elems_text(rest)[0]) by {
            assert(s.subrange(q, end)[0] == s[q]);
        }
        lemma_json_text_first(rest[0]);
        assert(elems_text(rest)[0] == json_text(rest[0])[0]);
        assert(!is_ws(s[q]));
        assert(skip_ws(s, q) == q);
        assert(i < q && q <= s.len());
        assert(spec_parse_elems(s, i) == Some((seq![head] + rest, end)));
        assert(seq![head] + rest =~= elems);
    }
}

/// The rendered fields of a non-empty object, up to and including the
/// closing brace, parse back to exactly those fields.
pub proof fn lemma_parse_fields_of_text(fields: Seq<(Seq<char>, JsonVal)>, s: Seq<char>, i: int)
    requires
        fields.len() >= 1,
        wf_fields(fields),
        0 <= i,
        i + fields_text(fields).len() + 1 <= s.len(),
        s.subrange(i, i + fields_text(fields).len() + 1) == fields_text(fields) + seq!['}'],
    ensures
        spec_parse_fields(s, i) == Some((fields, i + fields_text(fields).len() + 1)),
    decreases fields, 1int,
{
    let head = fields[0];
    let rest = fields.drop_first();
    let ft = fields_text(fields);
    let total = ft.len() + 1;
    let end = i + total as int;
    assert(ft == field_text(head) + fields_text_rest(rest));
    assert(field_text(head) == string_text(head.0) + seq![':'] + json_text(head.1));
    assert forall|k: int| 0 <= k < ft.len() implies s[i + k] == ft[k] by {
        assert(s.subrange(i, end)[k] == s[i + k]);
    }
    assert(s[end - 1] == '}') by {
        assert(s.subrange(i, end)[total - 1] == s[end - 1]);
    }
    // the key string
    let sl = string_text(head.0).len() as int;
    assert(s.subrange(i, i + sl) =~= string_text(head.0)) by {
        assert forall|k: int| 0 <= k < sl implies s.subrange(i, i + sl)[k] == string_text(head.0)[k]
            by {
            assert(s.subrange(i, i + sl)[k] == s[i + k]);
            assert(ft[k] == string_text(head.0)[k]);
        }
    }
    lemma_parse_string_of_text(head.0, s, i);
    let j = i + sl;
    assert(s[i] == '"');
    assert(spec_parse_string_body(s, i + 1) == Some((head.0, j)));
    // the colon
    assert(s[j] == ':') by {
        assert(ft[sl] == ':');
    }
    assert(skip_ws(s, j) == j);
    let m = j + 1;
    // the value
    let vl = json_text(head.1).len() as int;
    lemma_json_text_first(head.1);
    assert(s[m] == json_text(head.1)[0]) by {
        assert(ft[sl + 1] == json_text(head.1)[0]);
    }
    assert(!is_ws(s[m]));
    assert(skip_ws(s, m) == m);
    let e = m + vl;
    assert(s.subrange(m, e) =~= json_text(head.1)) by {
        assert forall|k: int| 0 <= k < vl implies s.subrange(m, e)[k] == json_text(head.1)[k] by {
            assert(s.subrange(m, e)[k] == s[m + k]);
            assert(ft[sl + 1 + k] == json_text(head.1)[k]);
        }
    }
    assert(decreases_to!(fields => fields[0]));
    assert(decreases_to!(fields[0] => fields[0].1));
    // what follows the value: the closing brace or the comma of the next field
    if rest.len() == 0 {
        assert(fields_text_rest(rest) == Seq::<char>::empty());
        assert(ft =~= field_text(head));
        assert(e == end - 1);
        assert(s[e] == '}');
        assert(!is_digit('}'));
        lemma_parse_value_of_text(head.1, s, m);
        assert(skip_ws(s, e) == e);
        assert(spec_parse_fields(s, i) == Some((seq![head], e + 1)));
        assert(seq![head] =~= fields);
    } else {
        assert(fields_text_rest(rest) == seq![','] + fields_text(rest)) by {
            assert(fields_text_rest(rest) == seq![','] + field_text(rest[0]) + fields_text_rest(
                rest.drop_first(),
            ));
            assert(fields_text(rest) == field_text(rest[0]) + fields_text_rest(rest.drop_first()));
            assert(seq![','] + field_text(rest[0]) + fields_text_rest(rest.drop_first()) =~= seq![
                ','
            ] + (field_text(rest[0]) + fields_text_rest(rest.drop_first())));
        }
        assert(s[e] == ',') by {
            assert(ft[field_text(head).len() as int] == ',');
            assert(e - i == field_text(head).len());
        }
        assert(!is_digit(','));
        lemma_parse_value_of_text(head.1, s, m);
        assert(skip_ws(s, e) == e);
        let q = e + 1;
        assert(s.subrange(q, end) =~= fields_text(rest) + seq!['}']) by {
            assert forall|k: int| 0 <= k < fields_text(rest).len() + 1 implies s.subrange(q, end)[k]
                == (fields_text(rest) + seq!['}'])[k] by {
                assert(s.subrange(q, end)[k] == s[q + k]);
                assert(s.subrange(i, end)[(q - i) + k] == s[q + k]);
                assert((ft + seq!['}'])[(q - i) + k] == (fields_text(rest) + seq!['}'])[k]) by {
                    assert(ft[field_text(head).len() + 1 + k] == fields_text(rest)[k] || k
                        == fields_text(rest).len());
                }
            }
        }
        lemma_parse_fields_of_text(rest, s, q);
        assert(spec_parse_fields(s, q) == Some((rest, end)));
        assert(s[q] == fields_text(rest)[0]) by {
            assert(s.subrange(q, end)[0] == s[q]);
        }
        assert(fields_text(rest)[0] == '"') by {
            assert(fields_text(rest) == field_text(rest[0]) + fields_text_rest(rest.drop_first()));
            assert(field_text(rest[0])[0] == string_text(rest[0].0)[0]);
        }
        assert(skip_ws(s, q) == q);
        assert(i < q && q <= s.len());
        assert(spec_parse_fields(s, i) == Some((seq![head] + rest, end)));
        assert(seq![head] + rest =~= fields);
    }
}

/// The parser inverts the writer: the canonical text of any well-formed
/// document parses back to exactly that document.
pub proof fn lemma_parse_json_of_text(v: JsonVal)
    requires
        wf_json(v),
    ensures
        spec_parse_json(json_text(v)) == Some(v),
{
    let s = json_text(v);
    lemma_json_text_first(v);
    assert(skip_ws(s, 0) == 0);
    assert(s.subrange(0, s.len() as int) =~= s);
    lemma_parse_value_of_text(v, s, 0);
    assert(spec_parse_value(s, 0) == Some((v, s.len() as int)));
    assert(skip_ws(s, s.len() as int) == s.len());
}

} // verus!

//! Query-string composition: `application/x-www-form-urlencoded`
//! serialization of an ordered list of key/value parameters.

use vstd::prelude::*;
use vstd::string::*;
use vstd::utf8::encode_utf8;
use crate::text::digit_char;

verus! {

/// A byte the form encoding writes as itself: `*`, `-`, `.`, `_`, digits
/// and ASCII letters.
pub open spec fn unchanged_byte(b: u8) -> bool {
    ||| b == 42
    ||| b == 45
    ||| b == 46
    ||| b == 95
    ||| (48 <= b && b <= 57)
    ||| (65 <= b && b <= 90)
    ||| (97 <= b && b <= 122)
}

/// The uppercase hexadecimal digit character for `d` (`0 <= d <= 15`).
pub open spec fn hex_upper(d: int) -> char {
    if d < 10 {
        digit_char(d)
    } else {
        ((55 + d) as u8) as char
    }
}

/// How the form encoding writes one byte: a space becomes `+`, a safe byte
/// stands for itself, anything else becomes `%XX` with uppercase digits.
pub open spec fn encoded_byte(b: u8) -> Seq<char> {
    if b == 32 {
        seq!['+']
    } else if unchanged_byte(b) {
        seq![b as char]
    } else {
        seq!['%', hex_upper(b as int / 16), hex_upper(b as int % 16)]
    }
}

/// The form encoding of a byte string.
pub open spec fn form_encoded(bytes: Seq<u8>) -> Seq<char>
    decreases bytes.len(),
{
    if bytes.len() == 0 {
        Seq::empty()
    } else {
        encoded_byte(bytes[0]) + form_encoded(bytes.drop_first())
    }
}

/// One query parameter: the encoded UTF-8 bytes of the key and of the
/// value, joined by `=`.
pub open spec fn pair_text(k: Seq<char>, v: Seq<char>) -> Seq<char> {
    form_encoded(encode_utf8(k)) + seq!['='] + form_encoded(encode_utf8(v))
}

/// The mathematical content of a parameter list: keys and values as
/// character sequences, in caller order.
pub open spec fn params_view(params: Seq<(String, String)>) -> Seq<(Seq<char>, Seq<char>)> {
    params.map_values(|p: (String, String)| (p.0@, p.1@))
}

/// The query string of a parameter list: the pairs in caller order, joined
/// by `&`; empty exactly when the list is empty.
pub open spec fn query_text(params: Seq<(Seq<char>, Seq<char>)>) -> Seq<char>
    decreases params.len(),
{
    if params.len() == 0 {
        Seq::empty()
    } else {
        pair_text(params[0].0, params[0].1) + query_text_rest(params.drop_first())
    }
}

/// The pairs after the first, each preceded by `&`.
pub open spec fn query_text_rest(params: Seq<(Seq<char>, Seq<char>)>) -> Seq<char>
    decreases params.len(),
{
    if params.len() == 0 {
        Seq::empty()
    } else {
        seq!['&'] + pair_text(params[0].0, params[0].1) + query_text_rest(params.drop_first())
    }
}

pub proof fn lemma_form_encoded_push(bytes: Seq<u8>, b: u8)
    ensures
        form_encoded(bytes.push(b)) == form_encoded(bytes) + encoded_byte(b),
    decreases bytes.len(),
{
    if bytes.len() == 0 {
        assert(bytes.push(b)[0] == b);
        assert(bytes.push(b).drop_first() =~= Seq::<u8>::empty());
        assert(form_encoded(Seq::<u8>::empty()) == Seq::<char>::empty());
        assert(form_encoded(bytes.push(b)) =~= form_encoded(bytes) + encoded_byte(b));
    } else {
        assert(bytes.push(b)[0] == bytes[0]);
        assert(bytes.push(b).drop_first() =~= bytes.drop_first().push(b));
        lemma_form_encoded_push(bytes.drop_first(), b);
        assert(form_encoded(bytes.push(b)) == encoded_byte(bytes[0]) + form_encoded(
            bytes.drop_first().push(b),
        ));
        assert(form_encoded(bytes) == encoded_byte(bytes[0]) + form_encoded(bytes.drop_first()));
        assert(encoded_byte(bytes[0]) + (form_encoded(bytes.drop_first()) + encoded_byte(b)) =~= (
        encoded_byte(bytes[0]) + form_encoded(bytes.drop_first())) + encoded_byte(b));
        assert(form_encoded(bytes.push(b)) == form_encoded(bytes) + encoded_byte(b));
    }
}

pub proof fn lemma_query_text_rest_push(
    params: Seq<(Seq<char>, Seq<char>)>,
    p: (Seq<char>, Seq<char>),
)
    ensures
        query_text_rest(params.push(p)) == query_text_rest(params) + seq!['&'] + pair_text(
            p.0,
            p.1,
        ),
    decreases params.len(),
{
    if params.len() == 0 {
        assert(params.push(p)[0] == p);
        assert(params.push(p).drop_first() =~= Seq::<(Seq<char>, Seq<char>)>::empty());
        assert(query_text_rest(Seq::<(Seq<char>, Seq<char>)>::empty()) == Seq::<char>::empty());
        assert(query_text_rest(params.push(p)) =~= query_text_rest(params) + seq!['&'] + pair_text(
            p.0,
            p.1,
        ));
    } else {
        assert(params.push(p)[0] == params[0]);
        assert(params.push(p).drop_first() =~= params.drop_first().push(p));
        lemma_query_text_rest_push(params.drop_first(), p);
        assert(query_text_rest(params.push(p)) == seq!['&'] + pair_text(
            params[0].0,
            params[0].1,
        ) + query_text_rest(params.drop_first().push(p)));
        assert(query_text_rest(params) == seq!['&'] + pair_text(params[0].0, params[0].1)
            + query_text_rest(params.drop_first()));
        assert(seq!['&'] + pair_text(params[0].0, params[0].1) + (query_text_rest(
            params.drop_first(),
        ) + seq!['&'] + pair_text(p.0, p.1)) =~= (seq!['&'] + pair_text(params[0].0, params[0].1)
            + query_text_rest(params.drop_first())) + seq!['&'] + pair_text(p.0, p.1));
        assert(query_text_rest(params.push(p)) == query_text_rest(params) + seq!['&'] + pair_text(
            p.0,
            p.1,
        ));
    }
}

/// The query string preserves the caller's parameter order — pair by pair,
/// each new pair goes to the end — and is empty exactly for the empty list.
pub proof fn lemma_query_text_order(params: Seq<(Seq<char>, Seq<char>)>, p: (Seq<char>, Seq<char>))
    ensures
        query_text(Seq::<(Seq<char>, Seq<char>)>::empty()) == Seq::<char>::empty(),
        query_text(params.push(p)) == if params.len() == 0 {
            pair_text(p.0, p.1)
        } else {
            query_text(params) + seq!['&'] + pair_text(p.0, p.1)
        },
{
    if params.len() == 0 {
        assert(params.push(p)[0] == p);
        assert(params.push(p).drop_first() =~= Seq::<(Seq<char>, Seq<char>)>::empty());
        assert(query_text_rest(Seq::<(Seq<char>, Seq<char>)>::empty()) == Seq::<char>::empty());
        assert(query_text(params.push(p)) =~= pair_text(p.0, p.1));
    } else {
        assert(params.push(p)[0] == params[0]);
        assert(params.push(p).drop_first() =~= params.drop_first().push(p));
        lemma_query_text_rest_push(params.drop_first(), p);
        assert(query_text(params.push(p)) == pair_text(params[0].0, params[0].1)
            + query_text_rest(params.drop_first().push(p)));
        assert(query_text(params) == pair_text(params[0].0, params[0].1) + query_text_rest(
            params.drop_first(),
        ));
        assert(pair_text(params[0].0, params[0].1) + (query_text_rest(params.drop_first())
            + seq!['&'] + pair_text(p.0, p.1)) =~= (pair_text(params[0].0, params[0].1)
            + query_text_rest(params.drop_first())) + seq!['&'] + pair_text(p.0, p.1));
        assert(query_text(params.push(p)) == query_text(params) + seq!['&'] + pair_text(
            p.0,
            p.1,
        ));
    }
}

/// Appends the form encoding of these bytes to `out`.
fn push_encoded_bytes(out: &mut Vec<char>, bytes: &Vec<u8>)
    ensures
        final(out)@ == old(out)@ + form_encoded(bytes@),
{
    let mut i: usize = 0;
    proof {
        assert(bytes@.subrange(0, 0) =~= Seq::<u8>::empty());
        assert(form_encoded(Seq::<u8>::empty()) == Seq::<char>::empty());
        assert(out@ =~= old(out)@ + form_encoded(bytes@.subrange(0, 0)));
    }
    while i < bytes.len()
        invariant
            i <= bytes@.len(),
            out@ =~= old(out)@ + form_encoded(bytes@.subrange(0, i as int)),
        decreases bytes@.len() - i,
    {
        let b = bytes[i];
        if b == 32 {
            out.push('+');
        } else if b == 42 || b == 45 || b == 46 || b == 95 || (48 <= b && b <= 57) || (65 <= b && b
            <= 90) || (97 <= b && b <= 122) {
            out.push(b as char);
        } else {
            let hi: u8 = b / 16;
            let lo: u8 = b % 16;
            let hi_c: char = if hi < 10 { (48 + hi) as char } else { (55 + hi) as char };
            let lo_c: char = if lo < 10 { (48 + lo) as char } else { (55 + lo) as char };
            out.push('%');
            out.push(hi_c);
            out.push(lo_c);
        }
        i += 1;
        proof {
            assert(bytes@.subrange(0, i as int) =~= bytes@.subrange(0, i as int - 1).push(
                bytes@[i as int - 1],
            ));
            lemma_form_encoded_push(bytes@.subrange(0, i as int - 1), bytes@[i as int - 1]);
            assert(out@ =~= old(out)@ + form_encoded(bytes@.subrange(0, i as int)));
        }
    }
    proof {
        assert(bytes@.subrange(0, bytes@.len() as int) =~= bytes@);
    }
}

/// Appends the form encoding of the UTF-8 bytes of `s` to `out`.
fn push_encoded_str(out: &mut Vec<char>, s: &str)
    ensures
        final(out)@ == old(out)@ + form_encoded(encode_utf8(s@)),
{
    let bytes = s.as_bytes_vec();
    push_encoded_bytes(out, &bytes);
}

/// The query string of a parameter list, in caller order: empty for no
/// parameters, otherwise `k1=v1&k2=v2&...` with each key and value
/// form-encoded.
pub fn query_string(params: &Vec<(String, String)>) -> (r: Vec<char>)
    ensures
        r@ == query_text(params_view(params@)),
{
    let ghost pv: Seq<(Seq<char>, Seq<char>)> = params_view(params@);
    let mut out: Vec<char> = Vec::new();
    let mut i: usize = 0;
    while i < params.len()
        invariant
            i <= params@.len(),
            pv == params_view(params@),
            pv.len() == params@.len(),
            forall|k: int| 0 <= k < params@.len() ==> pv[k] == (params@[k].0@, params@[k].1@),
            i == 0 ==> out@ =~= Seq::<char>::empty(),
            i > 0 ==> out@ =~= pair_text(pv[0].0, pv[0].1) + query_text_rest(
                pv.subrange(1, i as int),
            ),
        decreases params@.len() - i,
    {
        if i > 0 {
            out.push('&');
        }
        push_encoded_str(&mut out, params[i].0.as_str());
        out.push('=');
        push_encoded_str(&mut out, params[i].1.as_str());
        proof {
            if i > 0 {
                assert(pv.subrange(1, i as int + 1) =~= pv.subrange(1, i as int).push(
                    pv[i as int],
                ));
                lemma_query_text_rest_push(pv.subrange(1, i as int), pv[i as int]);
                assert(out@ =~= pair_text(pv[0].0, pv[0].1) + query_text_rest(
                    pv.subrange(1, i as int + 1),
                ));
            } else {
                assert(pv.subrange(1, 1) =~= Seq::<(Seq<char>, Seq<char>)>::empty());
                assert(query_text_rest(Seq::<(Seq<char>, Seq<char>)>::empty())
                    == Seq::<char>::empty());
                assert(out@ =~= pair_text(pv[0].0, pv[0].1) + query_text_rest(pv.subrange(1, 1)));
            }
        }
        i += 1;
    }
    proof {
        if pv.len() > 0 {
            assert(pv.subrange(1, pv.len() as int) =~= pv.drop_first());
        }
        assert(out@ =~= query_text(pv));
    }
    out
}

} // verus!

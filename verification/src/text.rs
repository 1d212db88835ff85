//! Small text utilities the pipeline is built on: slash stripping for URL
//! composition, decimal rendering of integers, ASCII case folding for header
//! names, and conversions between `String` and `Vec<char>`.

use vstd::prelude::*;
use vstd::string::*;

verus! {

/// Removes one trailing `'/'`, if present.
pub open spec fn strip_trailing_slash_spec(s: Seq<char>) -> Seq<char> {
    if s.len() > 0 && s.last() == '/' {
        s.drop_last()
    } else {
        s
    }
}

/// Removes one leading `'/'`, if present.
pub open spec fn strip_leading_slash_spec(s: Seq<char>) -> Seq<char> {
    if s.len() > 0 && s.first() == '/' {
        s.drop_first()
    } else {
        s
    }
}

/// Strips a single trailing slash from a string: `"/a/"` becomes `"/a"`,
/// a string without a trailing slash is returned unchanged.
pub fn strip_trailing_slash(s: &str) -> (r: String)
    ensures
        r@ == strip_trailing_slash_spec(s@),
{
    let n = s.unicode_len();
    if n > 0 && s.get_char(n - 1) == '/' {
        let t = s.substring_char(0, n - 1);
        let r = t.to_owned();
        proof {
            assert(r@ =~= strip_trailing_slash_spec(s@));
        }
        r
    } else {
        s.to_owned()
    }
}

/// Strips a single leading slash from a string: `"/a/"` becomes `"a/"`,
/// a string without a leading slash is returned unchanged.
pub fn strip_leading_slash(s: &str) -> (r: String)
    ensures
        r@ == strip_leading_slash_spec(s@),
{
    let n = s.unicode_len();
    if n > 0 && s.get_char(0) == '/' {
        let t = s.substring_char(1, n);
        let r = t.to_owned();
        proof {
            assert(r@ =~= strip_leading_slash_spec(s@));
        }
        r
    } else {
        s.to_owned()
    }
}

/// Stripping is a no-op on strings that are already clean, the empty string
/// stays empty, and a lone `"/"` becomes the empty string — at both ends.
pub proof fn lemma_strip_slash_clean(s: Seq<char>)
    ensures
        s.len() == 0 || s.last() != '/' ==> strip_trailing_slash_spec(s) == s,
        s.len() == 0 || s.first() != '/' ==> strip_leading_slash_spec(s) == s,
        s.len() == 0 ==> strip_trailing_slash_spec(s) == s && strip_leading_slash_spec(s) == s,
        s =~= seq!['/'] ==> strip_trailing_slash_spec(s) =~= Seq::<char>::empty()
            && strip_leading_slash_spec(s) =~= Seq::<char>::empty(),
{
}

/// Collects the characters of a string into a vector, in order.
pub fn string_to_chars(s: &str) -> (v: Vec<char>)
    ensures
        v@ == s@,
{
    let n = s.unicode_len();
    let mut v: Vec<char> = Vec::new();
    let mut i: usize = 0;
    while i < n
        invariant
            i <= n,
            n == s@.len(),
            v@ =~= s@.subrange(0, i as int),
        decreases n - i,
    {
        v.push(s.get_char(i));
        i += 1;
    }
    proof {
        assert(v@ =~= s@);
    }
    v
}

/// Relies on `String` as `FromIterator<char>`: collecting an iterator of
/// characters yields the string of exactly those characters, in order.
#[verifier::external_body]
pub fn chars_to_string(v: &Vec<char>) -> (s: String)
    ensures
        s@ == v@,
{
    v.iter().collect()
}

/// The decimal digit character for `d` (`0 <= d <= 9`).
pub open spec fn digit_char(d: int) -> char {
    ((48 + d) as u8) as char
}

/// The decimal rendering of a non-negative integer, without sign.
pub open spec fn nat_text(n: nat) -> Seq<char>
    decreases n,
{
    if n < 10 {
        seq![digit_char(n as int)]
    } else {
        nat_text(n / 10) + seq![digit_char((n % 10) as int)]
    }
}

/// The decimal rendering of an integer: a `'-'` sign for negative values,
/// then the digits of the magnitude.
pub open spec fn int_text(n: int) -> Seq<char> {
    if n < 0 {
        seq!['-'] + nat_text((-n) as nat)
    } else {
        nat_text(n as nat)
    }
}

/// Ten to the `n`.
pub open spec fn pow10(n: nat) -> nat
    decreases n,
{
    if n == 0 {
        1nat
    } else {
        10 * pow10((n - 1) as nat)
    }
}

/// The digit characters carry their values: `digit_char(d)` is a decimal
/// digit with code `48 + d`.
pub proof fn lemma_digit_char(d: int)
    requires
        0 <= d <= 9,
    ensures
        '0' <= digit_char(d) <= '9',
        digit_char(d) as u32 == 48 + d,
        d > 0 ==> digit_char(d) != '0',
{
}

/// The decimal rendering of a non-negative integer is at least one
/// character, all of them digits, and starts with `'0'` only for zero
/// itself.
pub proof fn lemma_nat_text_digits(n: nat)
    ensures
        nat_text(n).len() >= 1,
        forall|k: int| 0 <= k < nat_text(n).len() ==> '0' <= #[trigger] nat_text(n)[k]
            && nat_text(n)[k] <= '9',
        n > 0 ==> nat_text(n)[0] != '0',
    decreases n,
{
    if n < 10 {
        lemma_digit_char(n as int);
    } else {
        lemma_nat_text_digits(n / 10);
        lemma_digit_char((n % 10) as int);
        assert(nat_text(n)[0] == nat_text(n / 10)[0]);
        assert forall|k: int| 0 <= k < nat_text(n).len() implies '0' <= #[trigger] nat_text(n)[k]
            && nat_text(n)[k] <= '9' by {
            if k < nat_text(n / 10).len() {
                assert(nat_text(n)[k] == nat_text(n / 10)[k]);
            } else {
                assert(nat_text(n)[k] == digit_char((n % 10) as int));
            }
        }
    }
}

/// Renders a non-negative integer in decimal.
pub fn u64_to_chars(n: u64) -> (v: Vec<char>)
    ensures
        v@ == nat_text(n as nat),
    decreases n,
{
    if n < 10 {
        let c: char = ((48 + (n as u8)) as char);
        let mut v: Vec<char> = Vec::new();
        v.push(c);
        proof {
            assert(v@ =~= nat_text(n as nat));
        }
        v
    } else {
        let mut v = u64_to_chars(n / 10);
        let d: u8 = (n % 10) as u8;
        v.push((48 + d) as char);
        proof {
            assert(v@ =~= nat_text(n as nat));
        }
        v
    }
}

/// Renders an integer in decimal, with a `'-'` sign when negative.
pub fn i64_to_chars(n: i64) -> (v: Vec<char>)
    ensures
        v@ == int_text(n as int),
{
    if n >= 0 {
        u64_to_chars(n as u64)
    } else {
        let mag: u64 = ((-(n as i128)) as u64);
        let digits = u64_to_chars(mag);
        let mut v: Vec<char> = Vec::new();
        v.push('-');
        let mut j: usize = 0;
        while j < digits.len()
            invariant
                j <= digits@.len(),
                digits@ == nat_text(mag as nat),
                v@ =~= seq!['-'] + digits@.subrange(0, j as int),
            decreases digits@.len() - j,
        {
            v.push(digits[j]);
            j += 1;
        }
        proof {
            assert(digits@.subrange(0, digits@.len() as int) =~= digits@);
            assert(v@ =~= int_text(n as int));
        }
        v
    }
}

/// Renders an `i32` as a decimal string; resource identifiers in request
/// paths are written with this.
pub fn i32_to_string(n: i32) -> (r: String)
    ensures
        r@ == int_text(n as int),
{
    let v = i64_to_chars(n as i64);
    chars_to_string(&v)
}

/// ASCII lower-casing of one character.
pub open spec fn lower_char(c: char) -> char {
    if 'A' <= c && c <= 'Z' {
        (((c as u8) + 32) as char)
    } else {
        c
    }
}

/// ASCII lower-casing of a character sequence; header names compare equal
/// under this folding.
pub open spec fn lower_chars(s: Seq<char>) -> Seq<char> {
    s.map_values(|c: char| lower_char(c))
}

/// Compares two strings for equality, character by character.
pub fn str_eq(a: &str, b: &str) -> (r: bool)
    ensures
        r == (a@ == b@),
{
    let na = a.unicode_len();
    let nb = b.unicode_len();
    if na != nb {
        return false;
    }
    let mut i: usize = 0;
    while i < na
        invariant
            i <= na,
            na == a@.len(),
            na == b@.len(),
            forall|k: int| 0 <= k < i ==> a@[k] == b@[k],
        decreases na - i,
    {
        if a.get_char(i) != b.get_char(i) {
            return false;
        }
        i += 1;
    }
    proof {
        assert(a@ =~= b@);
    }
    true
}

/// Compares two strings for equality ignoring ASCII case.
pub fn eq_ignore_ascii_case(a: &str, b: &str) -> (r: bool)
    ensures
        r == (lower_chars(a@) == lower_chars(b@)),
{
    let na = a.unicode_len();
    let nb = b.unicode_len();
    if na != nb {
        proof {
            assert(lower_chars(a@).len() == a@.len());
            assert(lower_chars(b@).len() == b@.len());
        }
        return false;
    }
    let mut i: usize = 0;
    while i < na
        invariant
            i <= na,
            na == a@.len(),
            na == b@.len(),
            forall|k: int| 0 <= k < i ==> lower_char(a@[k]) == lower_char(b@[k]),
        decreases na - i,
    {
        let ca = a.get_char(i);
        let cb = b.get_char(i);
        let la: char = if 'A' <= ca && ca <= 'Z' {
            ((ca as u8) + 32) as char
        } else {
            ca
        };
        let lb: char = if 'A' <= cb && cb <= 'Z' {
            ((cb as u8) + 32) as char
        } else {
            cb
        };
        if la != lb {
            proof {
                assert(lower_chars(a@)[i as int] != lower_chars(b@)[i as int]);
            }
            return false;
        }
        i += 1;
    }
    proof {
        assert(lower_chars(a@) =~= lower_chars(b@));
    }
    true
}

} // verus!

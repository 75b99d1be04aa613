//! Literal parsing: the fallback applied to a token that resolves to no
//! word. Unsigned and signed decimal integers are parsed and specified here
//! in full; a token shaped like a decimal float numeral — and only such a
//! token — is handed to the software float implementation for its value;
//! the named special-value spellings (`inf`, `infinity`, `nan`, optionally
//! signed, in any case mix) denote fixed bit patterns produced right here.

use vstd::prelude::*;

use crate::float_bits::f64_literal_bits;
use crate::float_bits::parse_f64_bits;
use crate::object::Object;
use vstd::string::StrSliceExecFns;

verus! {

/// Whether `c` is a decimal digit.
pub open spec fn spec_is_digit(c: char) -> bool {
    48 <= c as u32 <= 57
}

/// Whether every character of `s` is a decimal digit.
pub open spec fn spec_all_digits(s: Seq<char>) -> bool {
    forall|i: int| 0 <= i < s.len() ==> spec_is_digit(#[trigger] s[i])
}

/// The number a digit string denotes, most significant digit first.
pub open spec fn spec_digits_val(s: Seq<char>) -> int
    decreases s.len(),
{
    if s.len() == 0 {
        0
    } else {
        spec_digits_val(s.drop_last()) * 10 + (s.last() as u32 - 48)
    }
}

/// A digit string denotes a number no smaller than any of its prefixes
/// denote (and never a negative one).
proof fn lemma_digits_val_prefix(s: Seq<char>, k: int)
    requires
        spec_all_digits(s),
        0 <= k <= s.len(),
    ensures
        0 <= spec_digits_val(s.take(k)) <= spec_digits_val(s),
    decreases s.len(),
{
    if k == s.len() {
        assert(s.take(k) =~= s);
        if s.len() > 0 {
            assert(spec_all_digits(s.drop_last())) by {
                assert(forall|i: int|
                    0 <= i < s.drop_last().len() ==> #[trigger] s.drop_last()[i] == s[i]);
            }
            lemma_digits_val_prefix(s.drop_last(), s.drop_last().len() as int);
            assert(spec_is_digit(s.last()));
        }
    } else {
        assert(s.len() > 0);
        assert(spec_all_digits(s.drop_last())) by {
            assert(forall|i: int|
                0 <= i < s.drop_last().len() ==> #[trigger] s.drop_last()[i] == s[i]);
        }
        lemma_digits_val_prefix(s.drop_last(), k);
        assert(s.drop_last().take(k) =~= s.take(k));
        assert(spec_is_digit(s.last()));
        assert(spec_digits_val(s.drop_last()) * 10 + (s.last() as u32 - 48) >= spec_digits_val(
            s.drop_last(),
        ));
    }
}

/// The digits of an unsigned literal: an optional leading `+` is accepted.
pub open spec fn spec_unsigned_body(s: Seq<char>) -> Seq<char> {
    if s.len() > 0 && s[0] == '+' {
        s.skip(1)
    } else {
        s
    }
}

/// Whether `s` is an unsigned decimal literal whose value fits in 64 bits.
pub open spec fn spec_is_uint_literal(s: Seq<char>) -> bool {
    let body = spec_unsigned_body(s);
    body.len() > 0 && spec_all_digits(body) && spec_digits_val(body) <= u64::MAX
}

/// The value of an unsigned decimal literal.
pub open spec fn spec_uint_literal_val(s: Seq<char>) -> u64
    recommends
        spec_is_uint_literal(s),
{
    spec_digits_val(spec_unsigned_body(s)) as u64
}

/// The digits of a signed literal: an optional leading `+` or `-`.
pub open spec fn spec_signed_body(s: Seq<char>) -> Seq<char> {
    if s.len() > 0 && (s[0] == '+' || s[0] == '-') {
        s.skip(1)
    } else {
        s
    }
}

/// Whether `s` denotes a negated number.
pub open spec fn spec_is_negative(s: Seq<char>) -> bool {
    s.len() > 0 && s[0] == '-'
}

/// Whether `s` is a signed decimal literal whose value fits in a signed
/// 64-bit integer.
pub open spec fn spec_is_int_literal(s: Seq<char>) -> bool {
    let body = spec_signed_body(s);
    body.len() > 0 && spec_all_digits(body) && (if spec_is_negative(s) {
        spec_digits_val(body) <= 0x8000_0000_0000_0000
    } else {
        spec_digits_val(body) <= i64::MAX
    })
}

/// The value of a signed decimal literal.
pub open spec fn spec_int_literal_val(s: Seq<char>) -> i64
    recommends
        spec_is_int_literal(s),
{
    if spec_is_negative(s) {
        (-spec_digits_val(spec_signed_body(s))) as i64
    } else {
        spec_digits_val(spec_signed_body(s)) as i64
    }
}

/// The first position at or after `i` that does not hold a decimal digit
/// (the string's end if the digits run out).
pub open spec fn spec_digits_end(s: Seq<char>, i: int) -> int
    recommends
        0 <= i <= s.len(),
    decreases s.len() - i,
{
    if i < s.len() && spec_is_digit(s[i]) {
        spec_digits_end(s, i + 1)
    } else {
        i
    }
}

/// Whether the string from position `i` on is a well-formed literal ending:
/// either nothing, or a decimal exponent — `e` or `E`, an optional sign,
/// and at least one digit reaching the end.
pub open spec fn spec_exponent_ok(s: Seq<char>, i: int) -> bool
    recommends
        0 <= i <= s.len(),
{
    let n = s.len() as int;
    if i == n {
        true
    } else if s[i] == 'e' || s[i] == 'E' {
        let e0 = if i + 1 < n && (s[i + 1] == '+' || s[i + 1] == '-') {
            i + 2
        } else {
            i + 1
        };
        let de = spec_digits_end(s, e0);
        de > e0 && de == n
    } else {
        false
    }
}

/// The float numerals this core accepts: an optional sign, then digits
/// with an optional fraction (`12`, `12.`, `12.5`, `.5`), then an optional
/// decimal exponent. The named special-value spellings are handled apart
/// (`spec_named_float_bits`); hexadecimal forms are no literals at all and
/// are left to word resolution.
pub open spec fn spec_is_float_shape(s: Seq<char>) -> bool {
    let n = s.len() as int;
    let start: int = if n > 0 && (s[0] == '+' || s[0] == '-') {
        1
    } else {
        0
    };
    let d1 = spec_digits_end(s, start);
    if d1 > start {
        let mant_end = if d1 < n && s[d1] == '.' {
            spec_digits_end(s, d1 + 1)
        } else {
            d1
        };
        spec_exponent_ok(s, mant_end)
    } else if start < n && s[start] == '.' {
        let d2 = spec_digits_end(s, start + 1);
        d2 > start + 1 && spec_exponent_ok(s, d2)
    } else {
        false
    }
}

/// The bit pattern of positive infinity in a 64-bit float.
pub const F64_INFINITY_BITS: u64 = 0x7ff0_0000_0000_0000;

/// The bit pattern of the quiet NaN a parsed `nan` spelling denotes.
pub const F64_NAN_BITS: u64 = 0x7ff8_0000_0000_0000;

/// The sign bit of a 64-bit float.
pub const F64_SIGN_BIT: u64 = 0x8000_0000_0000_0000;

/// The codepoint of `c` with an ASCII uppercase letter lowered; every other
/// character passes unchanged.
pub open spec fn spec_lower_ascii(c: char) -> u32 {
    let v = c as u32;
    if 'A' as u32 <= v <= 'Z' as u32 {
        (v + 32) as u32
    } else {
        v
    }
}

/// Whether `b` spells `inf`, in any case mix.
pub open spec fn spec_is_inf_spelling(b: Seq<char>) -> bool {
    &&& b.len() == 3
    &&& spec_lower_ascii(b[0]) == 'i' as u32
    &&& spec_lower_ascii(b[1]) == 'n' as u32
    &&& spec_lower_ascii(b[2]) == 'f' as u32
}

/// Whether `b` spells `infinity`, in any case mix.
pub open spec fn spec_is_infinity_spelling(b: Seq<char>) -> bool {
    &&& b.len() == 8
    &&& spec_lower_ascii(b[0]) == 'i' as u32
    &&& spec_lower_ascii(b[1]) == 'n' as u32
    &&& spec_lower_ascii(b[2]) == 'f' as u32
    &&& spec_lower_ascii(b[3]) == 'i' as u32
    &&& spec_lower_ascii(b[4]) == 'n' as u32
    &&& spec_lower_ascii(b[5]) == 'i' as u32
    &&& spec_lower_ascii(b[6]) == 't' as u32
    &&& spec_lower_ascii(b[7]) == 'y' as u32
}

/// Whether `b` spells `nan`, in any case mix.
pub open spec fn spec_is_nan_spelling(b: Seq<char>) -> bool {
    &&& b.len() == 3
    &&& spec_lower_ascii(b[0]) == 'n' as u32
    &&& spec_lower_ascii(b[1]) == 'a' as u32
    &&& spec_lower_ascii(b[2]) == 'n' as u32
}

/// The named special values a float literal may spell: sign-prefixed,
/// case-insensitive `inf`, `infinity` or `nan`, denoting the fixed bit
/// patterns above with the sign applied. These are constants of the
/// language, not parser calls.
pub open spec fn spec_named_float_bits(s: Seq<char>) -> Option<u64> {
    let b = spec_signed_body(s);
    let sign: u64 = if spec_is_negative(s) {
        F64_SIGN_BIT
    } else {
        0
    };
    if spec_is_inf_spelling(b) || spec_is_infinity_spelling(b) {
        Some(F64_INFINITY_BITS | sign)
    } else if spec_is_nan_spelling(b) {
        Some(F64_NAN_BITS | sign)
    } else {
        None
    }
}

/// What literal parsing makes of a token, in the fixed order: unsigned
/// integer, then signed integer, then floating point; the first successful
/// parse decides. A decimal numeral's value comes from the floating-point
/// parse; the named special spellings denote their fixed bit patterns; any
/// other token is no literal.
pub open spec fn spec_parse_literal(s: Seq<char>) -> Option<Object> {
    if spec_is_uint_literal(s) {
        Some(Object::UnsignedInt(spec_uint_literal_val(s)))
    } else if spec_is_int_literal(s) {
        Some(Object::SignedInt(spec_int_literal_val(s)))
    } else if spec_is_float_shape(s) {
        match f64_literal_bits(s) {
            Some(bits) => Some(Object::Float64(bits)),
            None => None,
        }
    } else {
        match spec_named_float_bits(s) {
            Some(bits) => Some(Object::Float64(bits)),
            None => None,
        }
    }
}

/// Accumulates the decimal digits `token[start..]`, or reports that they
/// are not all digits or denote more than `u64` holds.
fn parse_digits(token: &str, start: usize) -> (r: Option<u64>)
    requires
        start <= token@.len(),
    ensures
        ({
            let body = token@.skip(start as int);
            match r {
                Some(v) => body.len() > 0 && spec_all_digits(body) && v == spec_digits_val(body)
                    && spec_digits_val(body) <= u64::MAX,
                None => body.len() == 0 || !spec_all_digits(body) || spec_digits_val(body)
                    > u64::MAX,
            }
        }),
{
    let ghost body = token@.skip(start as int);
    let n = token.unicode_len();
    if start >= n {
        return None;
    }
    let mut acc: u64 = 0;
    let mut j = start;
    while j < n
        invariant
            start <= j <= n,
            n == token@.len(),
            body == token@.skip(start as int),
            spec_all_digits(token@.subrange(start as int, j as int)),
            acc == spec_digits_val(token@.subrange(start as int, j as int)),
        decreases n - j,
    {
        let c = token.get_char(j);
        let cv = c as u32;
        proof {
            assert(token@.subrange(start as int, j as int + 1).drop_last() =~= token@.subrange(
                start as int,
                j as int,
            ));
            assert(token@.subrange(start as int, j as int + 1).last() == token@[j as int]);
        }
        if cv < 48 || cv > 57 {
            proof {
                assert(body[j - start] == token@[j as int]);
                assert(!spec_is_digit(body[j - start]));
            }
            return None;
        }
        let d = (cv - 48) as u64;
        let widened = match acc.checked_mul(10) {
            Some(t) => t.checked_add(d),
            None => None,
        };
        match widened {
            Some(v) => {
                acc = v;
            },
            None => {
                // The prefix up to and including this digit already denotes
                // more than u64 holds; if the rest are digits too, the whole
                // body does, and if they are not, the body is no literal.
                proof {
                    let upto = token@.subrange(start as int, j as int + 1);
                    assert(spec_digits_val(upto) > u64::MAX);
                    if spec_all_digits(body) {
                        lemma_digits_val_prefix(body, j + 1 - start);
                        assert(body.take(j + 1 - start) =~= upto);
                    }
                }
                return None;
            },
        }
        j = j + 1;
    }
    proof {
        assert(token@.subrange(start as int, n as int) =~= body);
    }
    Some(acc)
}

/// Parses `token` as an unsigned 64-bit decimal literal (an optional
/// leading `+`, then digits), exactly when it is one.
pub fn parse_uint_literal(token: &str) -> (r: Option<u64>)
    ensures
        spec_is_uint_literal(token@) ==> r == Some(spec_uint_literal_val(token@)),
        !spec_is_uint_literal(token@) ==> r is None,
{
    let n = token.unicode_len();
    let start: usize = if n > 0 && token.get_char(0) == '+' {
        1
    } else {
        0
    };
    proof {
        if start == 1 {
            assert(spec_unsigned_body(token@) == token@.skip(1));
        } else {
            assert(spec_unsigned_body(token@) =~= token@.skip(0));
        }
    }
    parse_digits(token, start)
}

/// Parses `token` as a signed 64-bit decimal literal (an optional leading
/// `+` or `-`, then digits), exactly when it is one.
pub fn parse_int_literal(token: &str) -> (r: Option<i64>)
    ensures
        spec_is_int_literal(token@) ==> r == Some(spec_int_literal_val(token@)),
        !spec_is_int_literal(token@) ==> r is None,
{
    let n = token.unicode_len();
    let mut negative = false;
    let mut start: usize = 0;
    if n > 0 {
        let c0 = token.get_char(0);
        if c0 == '-' {
            negative = true;
            start = 1;
        } else if c0 == '+' {
            start = 1;
        }
    }
    proof {
        if start == 1 {
            assert(spec_signed_body(token@) == token@.skip(1));
        } else {
            assert(spec_signed_body(token@) =~= token@.skip(0));
        }
    }
    let mag = match parse_digits(token, start) {
        Some(v) => v,
        None => {
            return None;
        },
    };
    if negative {
        if mag > 0x8000_0000_0000_0000u64 {
            return None;
        }
        if mag == 0x8000_0000_0000_0000u64 {
            Some(i64::MIN)
        } else {
            Some(-(mag as i64))
        }
    } else {
        if mag > 0x7fff_ffff_ffff_ffffu64 {
            return None;
        }
        Some(mag as i64)
    }
}

/// The first position at or after `i` whose character is not a decimal
/// digit.
fn digits_end(token: &str, i: usize) -> (r: usize)
    requires
        i <= token@.len(),
    ensures
        r == spec_digits_end(token@, i as int),
        i <= r <= token@.len(),
{
    let n = token.unicode_len();
    let mut j = i;
    while j < n
        invariant
            i <= j <= n,
            n == token@.len(),
            spec_digits_end(token@, i as int) == spec_digits_end(token@, j as int),
        decreases n - j,
    {
        let c = token.get_char(j);
        let cv = c as u32;
        if cv < 48 || cv > 57 {
            return j;
        }
        j = j + 1;
    }
    n
}

/// Whether the token from position `i` on is empty or a decimal exponent.
fn exponent_ok(token: &str, i: usize) -> (r: bool)
    requires
        i <= token@.len(),
    ensures
        r == spec_exponent_ok(token@, i as int),
{
    let n = token.unicode_len();
    if i == n {
        return true;
    }
    let c = token.get_char(i);
    if !(c == 'e' || c == 'E') {
        return false;
    }
    let e0: usize = if i + 1 < n {
        let c1 = token.get_char(i + 1);
        if c1 == '+' || c1 == '-' {
            i + 2
        } else {
            i + 1
        }
    } else {
        i + 1
    };
    let de = digits_end(token, e0);
    de > e0 && de == n
}

/// Whether `token` is shaped like a decimal float numeral
/// (`spec_is_float_shape`).
fn is_float_literal_shape(token: &str) -> (r: bool)
    ensures
        r == spec_is_float_shape(token@),
{
    let n = token.unicode_len();
    let start: usize = if n > 0 {
        let c0 = token.get_char(0);
        if c0 == '+' || c0 == '-' {
            1
        } else {
            0
        }
    } else {
        0
    };
    let d1 = digits_end(token, start);
    if d1 > start {
        let mant_end: usize = if d1 < n && token.get_char(d1) == '.' {
            digits_end(token, d1 + 1)
        } else {
            d1
        };
        exponent_ok(token, mant_end)
    } else if start < n && token.get_char(start) == '.' {
        let d2 = digits_end(token, start + 1);
        d2 > start + 1 && exponent_ok(token, d2)
    } else {
        false
    }
}

/// The codepoint of `c`, ASCII-lowered.
fn lower_ascii(c: char) -> (r: u32)
    ensures
        r == spec_lower_ascii(c),
{
    let v = c as u32;
    if v >= 'A' as u32 && v <= 'Z' as u32 {
        v + 32
    } else {
        v
    }
}

/// The fixed bit pattern `token` denotes when it is a sign-prefixed,
/// case-insensitive `inf`, `infinity` or `nan` spelling
/// (`spec_named_float_bits`).
fn named_float_bits(token: &str) -> (r: Option<u64>)
    ensures
        r == spec_named_float_bits(token@),
{
    let n = token.unicode_len();
    let mut negative = false;
    let mut start: usize = 0;
    if n > 0 {
        let c0 = token.get_char(0);
        if c0 == '-' {
            negative = true;
            start = 1;
        } else if c0 == '+' {
            start = 1;
        }
    }
    let ghost body = spec_signed_body(token@);
    proof {
        if start == 1 {
            assert(body == token@.skip(1));
        } else {
            assert(body =~= token@.skip(0));
        }
        assert(negative == spec_is_negative(token@));
    }
    let sign: u64 = if negative {
        F64_SIGN_BIT
    } else {
        0
    };
    let len_body = n - start;
    if len_body == 3 {
        proof {
            assert(body[0] == token@[start as int]);
            assert(body[1] == token@[start + 1]);
            assert(body[2] == token@[start + 2]);
        }
        let b0 = lower_ascii(token.get_char(start));
        let b1 = lower_ascii(token.get_char(start + 1));
        let b2 = lower_ascii(token.get_char(start + 2));
        if b0 == 'i' as u32 && b1 == 'n' as u32 && b2 == 'f' as u32 {
            Some(F64_INFINITY_BITS | sign)
        } else if b0 == 'n' as u32 && b1 == 'a' as u32 && b2 == 'n' as u32 {
            Some(F64_NAN_BITS | sign)
        } else {
            None
        }
    } else if len_body == 8 {
        proof {
            assert(forall|i: int| 0 <= i < 8 ==> body[i] == token@[start + i]);
        }
        let b0 = lower_ascii(token.get_char(start));
        let b1 = lower_ascii(token.get_char(start + 1));
        let b2 = lower_ascii(token.get_char(start + 2));
        let b3 = lower_ascii(token.get_char(start + 3));
        let b4 = lower_ascii(token.get_char(start + 4));
        let b5 = lower_ascii(token.get_char(start + 5));
        let b6 = lower_ascii(token.get_char(start + 6));
        let b7 = lower_ascii(token.get_char(start + 7));
        if b0 == 'i' as u32 && b1 == 'n' as u32 && b2 == 'f' as u32 && b3 == 'i' as u32 && b4
            == 'n' as u32 && b5 == 'i' as u32 && b6 == 't' as u32 && b7 == 'y' as u32 {
            Some(F64_INFINITY_BITS | sign)
        } else {
            None
        }
    } else {
        None
    }
}

/// Parses `token` as a literal, in the fixed fallback order (unsigned, then
/// signed, then float), returning the object to push. Only a decimal
/// numeral reaches the floating-point parser; the named special spellings
/// are produced as constants.
pub fn parse_literal(token: &str) -> (r: Option<Object>)
    ensures
        r == spec_parse_literal(token@),
{
    match parse_uint_literal(token) {
        Some(v) => Some(Object::UnsignedInt(v)),
        None => match parse_int_literal(token) {
            Some(v) => Some(Object::SignedInt(v)),
            None => if is_float_literal_shape(token) {
                match parse_f64_bits(token) {
                    Some(bits) => Some(Object::Float64(bits)),
                    None => None,
                }
            } else {
                match named_float_bits(token) {
                    Some(bits) => Some(Object::Float64(bits)),
                    None => None,
                }
            },
        },
    }
}

} // verus!

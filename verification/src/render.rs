//! Rendering of numbers, characters and strings as Rust source text.
//!
//! All text in this crate is handled as UTF-8 bytes; the spec-level image of
//! a string literal is [`lit`], the encoding of its characters.  Codepoints
//! are rendered either as decimal `u32` literals (with the all-ones pattern
//! written `!0`) or as `char` literals.  Both `char` literals and quoted
//! strings are rendered with Rust's own `Debug` formatting, behind trusted
//! wrappers whose results are named ([`char_debug_text`],
//! [`str_debug_text`]): the escaping rules rest on the printability tables
//! of the standard library, which are called, not rebuilt.

use vstd::prelude::*;
use vstd::utf8::{
    decode_utf8, decode_first_codepoint, encode_utf8, is_continuation_byte,
    is_leading_byte_width_1, is_leading_byte_width_2, is_leading_byte_width_3,
    length_of_first_codepoint, length_of_first_scalar, partial_valid_utf8,
    partial_valid_utf8_extend_ascii_block, pop_first_scalar, valid_first_scalar,
    valid_leading_and_continuation_bytes_first_codepoint, valid_utf8,
};

verus! {

/// A sequence of bytes below 0x80 is valid UTF-8.
pub proof fn lemma_ascii_bytes_valid_utf8(bytes: Seq<u8>)
    requires
        forall|i: int| 0 <= i < bytes.len() ==> bytes[i] < 0x80,
    ensures
        valid_utf8(bytes),
{
    assert forall|i: int| 0 <= i < bytes.len() implies is_leading_byte_width_1(bytes[i]) by {
        let b = bytes[i];
        assert(b < 0x80 ==> b & 0b1000_0000 == 0) by (bit_vector);
    }
    assert(bytes.subrange(0, 0) =~= Seq::<u8>::empty());
    assert(valid_utf8(Seq::<u8>::empty()));
    assert(partial_valid_utf8(bytes, 0));
    partial_valid_utf8_extend_ascii_block(bytes, 0, bytes.len() as int);
    assert(bytes.subrange(0, bytes.len() as int) =~= bytes);
}

/// A byte-wise map that keeps ASCII bytes ASCII and leaves every other
/// byte unchanged preserves UTF-8 validity: ASCII bytes encode scalars
/// of their own, and the multi-byte encodings pass through untouched.
pub proof fn lemma_ascii_map_valid_utf8(b: Seq<u8>, b2: Seq<u8>)
    requires
        valid_utf8(b),
        b2.len() == b.len(),
        forall|i: int|
            0 <= i < b.len() ==> ((#[trigger] b[i]) < 0x80 ==> b2[i] < 0x80) && (b[i] >= 0x80
                ==> b2[i] == b[i]),
    ensures
        valid_utf8(b2),
    decreases b.len(),
{
    if b.len() != 0 {
        assert(valid_first_scalar(b));
        let len = length_of_first_scalar(b);
        if b[0] < 0x80 {
            assert(is_leading_byte_width_1(b[0]));
            assert(len == 1);
            assert(is_leading_byte_width_1(b2[0]));
            assert(valid_leading_and_continuation_bytes_first_codepoint(b2));
            assert(length_of_first_codepoint(b2) == 1);
            let x0 = b2[0];
            assert(x0 & 0x7f < 0x80) by (bit_vector);
            assert(decode_first_codepoint(b2) < 0xD800);
            assert(valid_first_scalar(b2));
            let t = b.subrange(1, b.len() as int);
            let t2 = b2.subrange(1, b2.len() as int);
            assert(pop_first_scalar(b) == t);
            assert(pop_first_scalar(b2) =~= t2);
            assert(forall|i: int|
                0 <= i < t.len() ==> ((#[trigger] t[i]) < 0x80 ==> t2[i] < 0x80) && (t[i] >= 0x80
                    ==> t2[i] == t[i]));
            lemma_ascii_map_valid_utf8(t, t2);
        } else {
            assert(!is_leading_byte_width_1(b[0]));
            assert(b2[0] == b[0]);
            if is_leading_byte_width_2(b[0]) {
                assert(len == 2);
                assert(is_continuation_byte(b[1]));
                assert(b2[1] == b[1]);
            } else if is_leading_byte_width_3(b[0]) {
                assert(len == 3);
                assert(is_continuation_byte(b[1]) && is_continuation_byte(b[2]));
                assert(b2[1] == b[1] && b2[2] == b[2]);
            } else {
                assert(len == 4);
                assert(is_continuation_byte(b[1]) && is_continuation_byte(b[2])
                    && is_continuation_byte(b[3]));
                assert(b2[1] == b[1] && b2[2] == b[2] && b2[3] == b[3]);
            }
            assert(valid_leading_and_continuation_bytes_first_codepoint(b2));
            assert(decode_first_codepoint(b2) == decode_first_codepoint(b));
            assert(length_of_first_codepoint(b2) == len);
            assert(valid_first_scalar(b2));
            let t = b.subrange(len, b.len() as int);
            let t2 = b2.subrange(len, b2.len() as int);
            assert(pop_first_scalar(b) == t);
            assert(pop_first_scalar(b2) =~= t2);
            assert(forall|i: int|
                0 <= i < t.len() ==> ((#[trigger] t[i]) < 0x80 ==> t2[i] < 0x80) && (t[i] >= 0x80
                    ==> t2[i] == t[i]));
            lemma_ascii_map_valid_utf8(t, t2);
        }
    }
}

/// Relies on `String::from_utf8`: on input that is valid UTF-8 it returns
/// `Ok` with the string holding exactly those bytes.
#[verifier::external_body]
pub fn string_from_bytes(v: Vec<u8>) -> (r: String)
    requires
        valid_utf8(v@),
    ensures
        r@ == decode_utf8(v@),
{
    match String::from_utf8(v) {
        Ok(s) => s,
        Err(_) => String::new(),
    }
}

/// The UTF-8 bytes of a piece of text.
pub open spec fn lit(s: Seq<char>) -> Seq<u8> {
    encode_utf8(s)
}

/// The ASCII digit for `d`, for `0 <= d <= 9`.
pub open spec fn dec_digit(d: int) -> u8 {
    (0x30 + d) as u8
}

/// The decimal rendering of `n`, most significant digit first, no leading
/// zeros (except for `n == 0` itself).
pub open spec fn spec_dec(n: int) -> Seq<u8>
    recommends
        n >= 0,
    decreases n,
{
    if n < 10 {
        seq![dec_digit(n)]
    } else {
        spec_dec(n / 10) + seq![dec_digit(n % 10)]
    }
}

/// The decimal rendering of a possibly negative number.
pub open spec fn spec_dec_i(n: int) -> Seq<u8> {
    if n < 0 {
        lit("-"@) + spec_dec(-n)
    } else {
        spec_dec(n)
    }
}

/// The ASCII uppercase hex digit for `d`, for `0 <= d <= 15`.
pub open spec fn hex_digit(d: int) -> u8 {
    if d < 10 {
        (0x30 + d) as u8
    } else {
        (0x41 + (d - 10)) as u8
    }
}

/// The uppercase hexadecimal rendering of `n`, no prefix, no leading zeros.
pub open spec fn spec_hex(n: int) -> Seq<u8>
    recommends
        n >= 0,
    decreases n,
{
    if n < 16 {
        seq![hex_digit(n)]
    } else {
        spec_hex(n / 16) + seq![hex_digit(n % 16)]
    }
}

/// Render `n` in decimal.
pub fn dec_u64(n: u64) -> (r: Vec<u8>)
    ensures
        r@ == spec_dec(n as int),
{
    let mut digits: Vec<u8> = Vec::new();
    digits.push((n % 10) as u8 + 0x30);
    let mut x = n / 10;
    while x > 0
        invariant
            x == 0 ==> spec_dec(n as int) == digits@.reverse(),
            x > 0 ==> spec_dec(n as int) == spec_dec(x as int) + digits@.reverse(),
        decreases x,
    {
        let ghost before = digits@;
        digits.push((x % 10) as u8 + 0x30);
        proof {
            assert(digits@.reverse() =~= seq![dec_digit(x as int % 10)] + before.reverse());
        }
        x = x / 10;
    }
    let mut out: Vec<u8> = Vec::new();
    while digits.len() > 0
        invariant
            out@ + digits@.reverse() == spec_dec(n as int),
        decreases digits@.len(),
    {
        let ghost before = digits@;
        let b = digits.pop().unwrap();
        out.push(b);
        proof {
            assert(before.reverse() =~= seq![before.last()] + digits@.reverse());
            assert(out@ + digits@.reverse() =~= (out@.drop_last() + before.reverse()));
        }
    }
    proof {
        assert(out@ + digits@.reverse() =~= out@);
    }
    out
}

/// Render a signed number in decimal, with a leading minus sign when
/// negative.
pub fn dec_isize(n: isize) -> (r: Vec<u8>)
    ensures
        r@ == spec_dec_i(n as int),
{
    if n >= 0 {
        let r = dec_u64(n as u64);
        r
    } else {
        let m: u64 = (-(n as i128)) as u64;
        let mut out: Vec<u8> = Vec::new();
        extend_bytes(&mut out, "-".as_bytes());
        let digits = dec_u64(m);
        extend_bytes_vec(&mut out, &digits);
        proof {
            assert(out@ =~= lit("-"@) + spec_dec(-(n as int)));
        }
        out
    }
}

/// Render `n` in uppercase hexadecimal, without a prefix.
pub fn hex_u64(n: u64) -> (r: Vec<u8>)
    ensures
        r@ == spec_hex(n as int),
{
    let mut digits: Vec<u8> = Vec::new();
    digits.push(hex_digit_u8((n % 16) as u8));
    let mut x = n / 16;
    while x > 0
        invariant
            x == 0 ==> spec_hex(n as int) == digits@.reverse(),
            x > 0 ==> spec_hex(n as int) == spec_hex(x as int) + digits@.reverse(),
        decreases x,
    {
        let ghost before = digits@;
        digits.push(hex_digit_u8((x % 16) as u8));
        proof {
            assert(digits@.reverse() =~= seq![hex_digit(x as int % 16)] + before.reverse());
        }
        x = x / 16;
    }
    let mut out: Vec<u8> = Vec::new();
    while digits.len() > 0
        invariant
            out@ + digits@.reverse() == spec_hex(n as int),
        decreases digits@.len(),
    {
        let ghost before = digits@;
        let b = digits.pop().unwrap();
        out.push(b);
        proof {
            assert(before.reverse() =~= seq![before.last()] + digits@.reverse());
            assert(out@ + digits@.reverse() =~= (out@.drop_last() + before.reverse()));
        }
    }
    proof {
        assert(out@ + digits@.reverse() =~= out@);
    }
    out
}

/// The uppercase hex digit byte for `d`, for `d <= 15`.
fn hex_digit_u8(d: u8) -> (r: u8)
    requires
        d <= 15,
    ensures
        r == hex_digit(d as int),
{
    if d < 10 {
        0x30 + d
    } else {
        0x41 + (d - 10)
    }
}

/// Append `src` to `dst`.
pub fn extend_bytes(dst: &mut Vec<u8>, src: &[u8])
    ensures
        final(dst)@ == old(dst)@ + src@,
{
    let mut i: usize = 0;
    while i < src.len()
        invariant
            i <= src@.len(),
            dst@ == old(dst)@ + src@.take(i as int),
        decreases src@.len() - i,
    {
        let ghost before = dst@;
        dst.push(src[i]);
        proof {
            assert(dst@ =~= old(dst)@ + src@.take(i as int + 1));
        }
        i = i + 1;
    }
    proof {
        assert(old(dst)@ + src@.take(src@.len() as int) =~= old(dst)@ + src@);
    }
}

/// Append `src` to `dst`.
pub fn extend_bytes_vec(dst: &mut Vec<u8>, src: &Vec<u8>)
    ensures
        final(dst)@ == old(dst)@ + src@,
{
    extend_bytes(dst, src.as_slice())
}

/// Whether a codepoint is a Unicode scalar value, that is, not in the
/// surrogate range and at most 0x10FFFF.
pub open spec fn is_scalar_cp(cp: u32) -> bool {
    (cp < 0xD800 || 0xE000 <= cp) && cp <= 0x10FFFF
}

/// The rendering of a codepoint under the writer's literal style: the
/// `char` literal Debug formatting writes (absent for non-scalar
/// codepoints, which cannot be written as `char`), or a decimal `u32`
/// literal with the all-ones pattern written `!0`.
pub open spec fn spec_codepoint(char_literals: bool, cp: u32) -> Option<Seq<u8>> {
    if char_literals {
        if is_scalar_cp(cp) {
            Some(char_debug_text(cp))
        } else {
            None
        }
    } else if cp == 0xFFFFFFFFu32 {
        Some(lit("!0"@))
    } else {
        Some(spec_dec(cp as int))
    }
}

/// The text that Rust's `Debug` formatting writes for the character of a
/// scalar codepoint: a quoted `char` literal, escaped as `escape_debug`
/// escapes.  It depends on the codepoint alone.
pub uninterp spec fn char_debug_text(cp: u32) -> Seq<u8>;

/// The text that Rust's `Debug` formatting writes for a string with
/// these UTF-8 bytes: a double-quoted literal, each character escaped as
/// `escape_debug` escapes.  It depends on the bytes alone.
pub uninterp spec fn str_debug_text(s: Seq<u8>) -> Seq<u8>;

/// Relies on the `Debug` formatting of `char` (std's `escape_debug`): a
/// deterministic function of the character, here of the scalar
/// codepoint that forms it.
#[verifier::external_body]
pub(crate) fn char_debug(cp: u32) -> (r: Vec<u8>)
    requires
        is_scalar_cp(cp),
    ensures
        r@ == char_debug_text(cp),
{
    match char::from_u32(cp) {
        Some(c) => format!("{:?}", c).into_bytes(),
        None => Vec::new(),
    }
}

/// Relies on the `Debug` formatting of `str`: a deterministic function
/// of the string, here of its UTF-8 bytes.
#[verifier::external_body]
pub(crate) fn str_debug(bs: &[u8]) -> (r: Vec<u8>)
    requires
        valid_utf8(bs@),
    ensures
        r@ == str_debug_text(bs@),
{
    match core::str::from_utf8(bs) {
        Ok(s) => format!("{:?}", s).into_bytes(),
        Err(_) => Vec::new(),
    }
}

/// Whether an optional rendered token matches an optional spec rendering.
pub open spec fn opt_bytes_match(r: Option<Vec<u8>>, s: Option<Seq<u8>>) -> bool {
    match r {
        Some(v) => s matches Some(t) && v@ == t,
        None => s is None,
    }
}

/// Render a codepoint under the chosen literal style; `None` when the
/// style is `char` literals and the codepoint is not a scalar value.
pub fn rust_codepoint_bytes(char_literals: bool, cp: u32) -> (r: Option<Vec<u8>>)
    ensures
        opt_bytes_match(r, spec_codepoint(char_literals, cp)),
{
    if char_literals {
        if (cp < 0xD800 || 0xE000 <= cp) && cp <= 0x10FFFF {
            Some(char_debug(cp))
        } else {
            None
        }
    } else if cp == 0xFFFFFFFFu32 {
        let mut out: Vec<u8> = Vec::new();
        extend_bytes(&mut out, "!0".as_bytes());
        proof {
            assert(out@ =~= lit("!0"@));
        }
        Some(out)
    } else {
        Some(dec_u64(cp as u64))
    }
}

} // verus!

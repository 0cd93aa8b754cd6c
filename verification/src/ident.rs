//! The identifier policy: canonical constant, type, module and function
//! names derived from property names.
//!
//! The transforms work on the UTF-8 bytes of the name and only ever change
//! ASCII bytes, so a valid UTF-8 name stays valid UTF-8.  Separators are
//! the ASCII whitespace bytes together with `.`, `_` and `-`, and case
//! mapping covers the ASCII letters: this is the crate's defined policy,
//! chosen because property names are ASCII.  Bytes above the ASCII range
//! pass through untouched, neither split on nor case-mapped.

use vstd::prelude::*;
use vstd::string::StringSliceAdditionalSpecFns;
use vstd::utf8::{
    decode_first_codepoint, decode_utf8, encode_utf8_valid_utf8, is_continuation_byte,
    is_leading_byte_width_1, is_leading_byte_width_2, is_leading_byte_width_3,
    length_of_first_codepoint, length_of_first_scalar, pop_first_scalar, valid_first_scalar,
    valid_leading_and_continuation_bytes_first_codepoint, valid_utf8, valid_utf8_concat,
};

use crate::render::{lemma_ascii_bytes_valid_utf8, lemma_ascii_map_valid_utf8, string_from_bytes};

verus! {

/// Whether `b` is an ASCII uppercase letter.
pub open spec fn is_upper_byte(b: u8) -> bool {
    0x41 <= b <= 0x5A
}

/// Whether `b` is an ASCII lowercase letter.
pub open spec fn is_lower_byte(b: u8) -> bool {
    0x61 <= b <= 0x7A
}

/// Whether `b` is an ASCII digit.
pub open spec fn is_digit_byte(b: u8) -> bool {
    0x30 <= b <= 0x39
}

/// The ASCII uppercase image of `b`.
pub open spec fn upper_byte(b: u8) -> u8 {
    if is_lower_byte(b) {
        (b - 0x20) as u8
    } else {
        b
    }
}

/// The ASCII lowercase image of `b`.
pub open spec fn lower_byte(b: u8) -> u8 {
    if is_upper_byte(b) {
        (b + 0x20) as u8
    } else {
        b
    }
}

/// Whether `b` separates words of a name: ASCII whitespace, `.`, `_`
/// or `-`.
pub open spec fn is_sep_byte(b: u8) -> bool {
    b == 0x20 || b == 0x09 || b == 0x0A || b == 0x0B || b == 0x0C || b == 0x0D || b == 0x2E || b
        == 0x5F || b == 0x2D
}

/// A constant name: `.` becomes `_`, and every ASCII letter is upper case.
pub open spec fn spec_const_name(bs: Seq<u8>) -> Seq<u8> {
    bs.map_values(
        |b: u8|
            upper_byte(
                if b == 0x2E {
                    0x5F
                } else {
                    b
                },
            ),
    )
}

/// A module name: every ASCII letter is lower case.
pub open spec fn spec_module_name(bs: Seq<u8>) -> Seq<u8> {
    bs.map_values(|b: u8| lower_byte(b))
}

/// A function name: every ASCII letter is lower case, and whitespace, `.`
/// and `-` become `_`.
pub open spec fn spec_fn_name(bs: Seq<u8>) -> Seq<u8> {
    bs.map_values(
        |b: u8|
            (
            {
                let l = lower_byte(b);
                if l == 0x20 || l == 0x09 || l == 0x0A || l == 0x0B || l == 0x0C || l == 0x0D || l
                    == 0x2E || l == 0x2D {
                    0x5F
                } else {
                    l
                }
            }),
    )
}

/// Whether every byte is an ASCII uppercase letter or digit.
pub open spec fn all_upper_or_digit(bs: Seq<u8>) -> bool {
    forall|i: int| 0 <= i < bs.len() ==> is_upper_byte(#[trigger] bs[i]) || is_digit_byte(bs[i])
}

/// The Pascal-case image of a name: separators are dropped, the first byte
/// of each word is upper-cased, and the rest are lower-cased.
pub open spec fn spec_pascal(bs: Seq<u8>, at_start: bool) -> Seq<u8>
    decreases bs.len(),
{
    if bs.len() == 0 {
        Seq::empty()
    } else {
        let b = bs[0];
        if is_sep_byte(b) {
            spec_pascal(bs.skip(1), true)
        } else if at_start {
            seq![upper_byte(b)] + spec_pascal(bs.skip(1), false)
        } else {
            seq![lower_byte(b)] + spec_pascal(bs.skip(1), false)
        }
    }
}

/// A type name: a name that is all ASCII uppercase letters and digits
/// passes through unchanged; any other name is turned into Pascal case.
pub open spec fn spec_type_name(bs: Seq<u8>) -> Seq<u8> {
    if all_upper_or_digit(bs) {
        bs
    } else {
        spec_pascal(bs, true)
    }
}

/// Compute the constant name of `bs`.
pub fn const_name_bytes(bs: &[u8]) -> (r: Vec<u8>)
    ensures
        r@ == spec_const_name(bs@),
{
    let mut out: Vec<u8> = Vec::new();
    let mut i: usize = 0;
    while i < bs.len()
        invariant
            i <= bs@.len(),
            out@ == spec_const_name(bs@.take(i as int)),
        decreases bs@.len() - i,
    {
        let b = bs[i];
        let c = if b == 0x2E {
            0x5F
        } else {
            b
        };
        let u = if 0x61 <= c && c <= 0x7A {
            c - 0x20
        } else {
            c
        };
        out.push(u);
        proof {
            assert(out@ =~= spec_const_name(bs@.take(i as int + 1)));
        }
        i = i + 1;
    }
    proof {
        assert(bs@.take(bs@.len() as int) =~= bs@);
    }
    out
}

/// Compute the module name of `bs`.
pub fn module_name_bytes(bs: &[u8]) -> (r: Vec<u8>)
    ensures
        r@ == spec_module_name(bs@),
{
    let mut out: Vec<u8> = Vec::new();
    let mut i: usize = 0;
    while i < bs.len()
        invariant
            i <= bs@.len(),
            out@ == spec_module_name(bs@.take(i as int)),
        decreases bs@.len() - i,
    {
        let b = bs[i];
        let l = if 0x41 <= b && b <= 0x5A {
            b + 0x20
        } else {
            b
        };
        out.push(l);
        proof {
            assert(out@ =~= spec_module_name(bs@.take(i as int + 1)));
        }
        i = i + 1;
    }
    proof {
        assert(bs@.take(bs@.len() as int) =~= bs@);
    }
    out
}

/// Compute the function name of `bs`.
pub fn fn_name_bytes(bs: &[u8]) -> (r: Vec<u8>)
    ensures
        r@ == spec_fn_name(bs@),
{
    let mut out: Vec<u8> = Vec::new();
    let mut i: usize = 0;
    while i < bs.len()
        invariant
            i <= bs@.len(),
            out@ == spec_fn_name(bs@.take(i as int)),
        decreases bs@.len() - i,
    {
        let b = bs[i];
        let l = if 0x41 <= b && b <= 0x5A {
            b + 0x20
        } else {
            b
        };
        let m = if l == 0x20 || l == 0x09 || l == 0x0A || l == 0x0B || l == 0x0C || l == 0x0D || l
            == 0x2E || l == 0x2D {
            0x5F
        } else {
            l
        };
        out.push(m);
        proof {
            assert(out@ =~= spec_fn_name(bs@.take(i as int + 1)));
        }
        i = i + 1;
    }
    proof {
        assert(bs@.take(bs@.len() as int) =~= bs@);
    }
    out
}

/// Compute the type name of `bs`.
pub fn type_name_bytes(bs: &[u8]) -> (r: Vec<u8>)
    ensures
        r@ == spec_type_name(bs@),
{
    let mut all_ud = true;
    let mut i: usize = 0;
    while i < bs.len()
        invariant
            i <= bs@.len(),
            all_ud == all_upper_or_digit(bs@.take(i as int)),
        decreases bs@.len() - i,
    {
        let b = bs[i];
        let this_ud = (0x41 <= b && b <= 0x5A) || (0x30 <= b && b <= 0x39);
        proof {
            if all_ud && this_ud {
                assert forall|j: int| 0 <= j < i + 1 implies is_upper_byte(
                    #[trigger] bs@.take(i as int + 1)[j],
                ) || is_digit_byte(bs@.take(i as int + 1)[j]) by {
                    if j < i {
                        assert(bs@.take(i as int)[j] == bs@.take(i as int + 1)[j]);
                    }
                }
            }
            if !this_ud {
                assert(!(is_upper_byte(bs@.take(i as int + 1)[i as int]) || is_digit_byte(
                    bs@.take(i as int + 1)[i as int],
                )));
            }
            if !all_ud {
                let w = choose|j: int|
                    0 <= j < i && !(is_upper_byte(#[trigger] bs@.take(i as int)[j])
                        || is_digit_byte(bs@.take(i as int)[j]));
                assert(bs@.take(i as int + 1)[w] == bs@.take(i as int)[w]);
                assert(!all_upper_or_digit(bs@.take(i as int + 1)));
            }
        }
        all_ud = all_ud && this_ud;
        i = i + 1;
    }
    proof {
        assert(bs@.take(bs@.len() as int) =~= bs@);
    }
    if all_ud {
        let mut out: Vec<u8> = Vec::new();
        crate::render::extend_bytes(&mut out, bs);
        return out;
    }
    let mut out: Vec<u8> = Vec::new();
    let mut at_start = true;
    let mut i: usize = 0;
    while i < bs.len()
        invariant
            i <= bs@.len(),
            spec_pascal(bs@, true) == out@ + spec_pascal(bs@.skip(i as int), at_start),
        decreases bs@.len() - i,
    {
        let b = bs[i];
        proof {
            assert(bs@.skip(i as int)[0] == bs@[i as int]);
            assert(bs@.skip(i as int).skip(1) =~= bs@.skip(i as int + 1));
        }
        if b == 0x20 || b == 0x09 || b == 0x0A || b == 0x0B || b == 0x0C || b == 0x0D || b == 0x2E
            || b == 0x5F || b == 0x2D {
            at_start = true;
        } else if at_start {
            let u = if 0x61 <= b && b <= 0x7A {
                b - 0x20
            } else {
                b
            };
            out.push(u);
            proof {
                assert(out@ + spec_pascal(bs@.skip(i as int + 1), false) =~= out@.drop_last() + (
                seq![upper_byte(b)] + spec_pascal(bs@.skip(i as int + 1), false)));
            }
            at_start = false;
        } else {
            let l = if 0x41 <= b && b <= 0x5A {
                b + 0x20
            } else {
                b
            };
            out.push(l);
            proof {
                assert(out@ + spec_pascal(bs@.skip(i as int + 1), false) =~= out@.drop_last() + (
                seq![lower_byte(b)] + spec_pascal(bs@.skip(i as int + 1), false)));
            }
            at_start = false;
        }
        i = i + 1;
    }
    proof {
        assert(bs@.skip(bs@.len() as int) =~= Seq::<u8>::empty());
        assert(out@ + Seq::<u8>::empty() =~= out@);
    }
    out
}

/// The Pascal transform leaves a run of bytes above the ASCII range
/// untouched at the front.
proof fn lemma_pascal_high_prefix(bs: Seq<u8>, at_start: bool, l: int)
    requires
        0 <= l <= bs.len(),
        forall|k: int| 0 <= k < l ==> bs[k] >= 0x80,
    ensures
        spec_pascal(bs, at_start) == bs.take(l) + spec_pascal(
            bs.skip(l),
            if l == 0 {
                at_start
            } else {
                false
            },
        ),
    decreases l,
{
    if l == 0 {
        assert(bs.skip(0) =~= bs);
        assert(bs.take(0) + spec_pascal(bs, at_start) =~= spec_pascal(bs, at_start));
    } else {
        let b = bs[0];
        assert(!is_sep_byte(b));
        assert(upper_byte(b) == b && lower_byte(b) == b);
        assert(forall|k: int| 0 <= k < l - 1 ==> bs.skip(1)[k] >= 0x80);
        lemma_pascal_high_prefix(bs.skip(1), false, l - 1);
        assert(bs.skip(1).skip(l - 1) =~= bs.skip(l));
        assert(seq![b] + (bs.skip(1).take(l - 1) + spec_pascal(bs.skip(l), false)) =~= bs.take(l)
            + spec_pascal(bs.skip(l), false));
    }
}

/// The Pascal transform of valid UTF-8 is valid UTF-8: ASCII bytes map
/// to ASCII bytes or are dropped, and multi-byte encodings pass through
/// whole.
proof fn lemma_pascal_valid_utf8(bs: Seq<u8>, at_start: bool)
    requires
        valid_utf8(bs),
    ensures
        valid_utf8(spec_pascal(bs, at_start)),
    decreases bs.len(),
{
    if bs.len() != 0 {
        assert(valid_first_scalar(bs));
        let b = bs[0];
        if b < 0x80 {
            assert(is_leading_byte_width_1(b));
            assert(length_of_first_scalar(bs) == 1);
            assert(bs.skip(1) =~= pop_first_scalar(bs));
            lemma_pascal_valid_utf8(bs.skip(1), true);
            lemma_pascal_valid_utf8(bs.skip(1), false);
            if !is_sep_byte(b) {
                let m = if at_start {
                    upper_byte(b)
                } else {
                    lower_byte(b)
                };
                assert(m < 0x80);
                lemma_ascii_bytes_valid_utf8(seq![m]);
                valid_utf8_concat(seq![m], spec_pascal(bs.skip(1), false));
            }
        } else {
            let l = length_of_first_scalar(bs);
            assert(!is_leading_byte_width_1(b));
            if is_leading_byte_width_2(b) {
                assert(l == 2);
                assert(is_continuation_byte(bs[1]));
            } else if is_leading_byte_width_3(b) {
                assert(l == 3);
                assert(is_continuation_byte(bs[1]) && is_continuation_byte(bs[2]));
            } else {
                assert(l == 4);
                assert(is_continuation_byte(bs[1]) && is_continuation_byte(bs[2])
                    && is_continuation_byte(bs[3]));
            }
            assert(forall|k: int| 0 <= k < l ==> bs[k] >= 0x80);
            lemma_pascal_high_prefix(bs, at_start, l);
            assert(valid_leading_and_continuation_bytes_first_codepoint(bs.take(l)));
            assert(decode_first_codepoint(bs.take(l)) == decode_first_codepoint(bs));
            assert(length_of_first_codepoint(bs.take(l)) == l);
            assert(valid_first_scalar(bs.take(l)));
            assert(length_of_first_scalar(bs.take(l)) == l);
            assert(pop_first_scalar(bs.take(l)) =~= Seq::<u8>::empty());
            assert(pop_first_scalar(bs.take(l)) == Seq::<u8>::empty());
            assert(valid_utf8(Seq::<u8>::empty()));
            assert(valid_utf8(bs.take(l)));
            assert(bs.skip(l) =~= pop_first_scalar(bs));
            lemma_pascal_valid_utf8(bs.skip(l), false);
            valid_utf8_concat(bs.take(l), spec_pascal(bs.skip(l), false));
        }
    }
}

/// The constant-name transform preserves UTF-8 validity: it changes
/// only ASCII bytes and keeps them ASCII.
pub proof fn lemma_const_name_valid_utf8(bs: Seq<u8>)
    requires
        valid_utf8(bs),
    ensures
        valid_utf8(spec_const_name(bs)),
{
    let out = spec_const_name(bs);
    assert forall|i: int|
        0 <= i < bs.len() implies ((#[trigger] bs[i]) < 0x80 ==> out[i] < 0x80) && (bs[i] >= 0x80
        ==> out[i] == bs[i]) by {
        assert(out[i] == upper_byte(
            if bs[i] == 0x2E {
                0x5F
            } else {
                bs[i]
            },
        ));
    }
    lemma_ascii_map_valid_utf8(bs, out);
}

/// The module-name transform preserves UTF-8 validity.
pub proof fn lemma_module_name_valid_utf8(bs: Seq<u8>)
    requires
        valid_utf8(bs),
    ensures
        valid_utf8(spec_module_name(bs)),
{
    let out = spec_module_name(bs);
    assert forall|i: int|
        0 <= i < bs.len() implies ((#[trigger] bs[i]) < 0x80 ==> out[i] < 0x80) && (bs[i] >= 0x80
        ==> out[i] == bs[i]) by {
        assert(out[i] == lower_byte(bs[i]));
    }
    lemma_ascii_map_valid_utf8(bs, out);
}

/// The canonical constant name of a property name.
pub fn rust_const_name(s: &str) -> (r: String)
    ensures
        r@ == decode_utf8(spec_const_name(s.spec_bytes())),
{
    let out = const_name_bytes(s.as_bytes());
    proof {
        encode_utf8_valid_utf8(s@);
        lemma_const_name_valid_utf8(s.spec_bytes());
    }
    string_from_bytes(out)
}

/// The canonical module (or file stem) name of a property name.
pub fn rust_module_name(s: &str) -> (r: String)
    ensures
        r@ == decode_utf8(spec_module_name(s.spec_bytes())),
{
    let out = module_name_bytes(s.as_bytes());
    proof {
        encode_utf8_valid_utf8(s@);
        lemma_module_name_valid_utf8(s.spec_bytes());
    }
    string_from_bytes(out)
}

/// The canonical function name of a property name.
pub fn rust_fn_name(s: &str) -> (r: String)
    ensures
        r@ == decode_utf8(spec_fn_name(s.spec_bytes())),
{
    let out = fn_name_bytes(s.as_bytes());
    proof {
        encode_utf8_valid_utf8(s@);
        let bs = s.spec_bytes();
        assert forall|i: int|
            0 <= i < bs.len() implies ((#[trigger] bs[i]) < 0x80 ==> out@[i] < 0x80) && (bs[i]
            >= 0x80 ==> out@[i] == bs[i]) by {
            assert(bs[i] >= 0x80 ==> lower_byte(bs[i]) == bs[i]);
        }
        lemma_ascii_map_valid_utf8(bs, out@);
    }
    string_from_bytes(out)
}

/// The canonical type name of a property name.
pub fn rust_type_name(s: &str) -> (r: String)
    ensures
        r@ == decode_utf8(spec_type_name(s.spec_bytes())),
{
    let out = type_name_bytes(s.as_bytes());
    proof {
        encode_utf8_valid_utf8(s@);
        if !all_upper_or_digit(s.spec_bytes()) {
            lemma_pascal_valid_utf8(s.spec_bytes(), true);
        }
    }
    string_from_bytes(out)
}

} // verus!

//! Packing of short strings into 64-bit integers.
//!
//! A string of at most 8 bytes that contains no zero byte fits in one `u64`:
//! byte `i` of the string occupies bits `8*i .. 8*i + 8` of the value, so the
//! first byte of the string is the least significant byte of the value.  A
//! zero byte would be indistinguishable from the end of the string, and a
//! ninth byte has no room, so both are rejected.

use vstd::arithmetic::div_mod::lemma_fundamental_div_mod_converse;
use vstd::prelude::*;
use vstd::string::StringSliceAdditionalSpecFns;
use vstd::utf8::{decode_utf8, encode_utf8, is_ascii_chars, is_ascii_chars_encode_utf8};

use crate::errors::Error;

verus! {

/// `256^n`, the number of byte strings of length `n`.
pub open spec fn pow256(n: nat) -> int
    decreases n,
{
    if n == 0 {
        1
    } else {
        256 * pow256((n - 1) as nat)
    }
}

/// The integer that packs `bytes`, least-significant byte first.
pub open spec fn spec_pack(bytes: Seq<u8>) -> int
    decreases bytes.len(),
{
    if bytes.len() == 0 {
        0
    } else {
        bytes[0] + 256 * spec_pack(bytes.skip(1))
    }
}

/// The bytes unpacked from `v`, low byte first, ending before the first
/// zero byte.
pub open spec fn spec_unpack(v: int) -> Seq<u8>
    decreases v,
{
    if v <= 0 {
        Seq::empty()
    } else {
        seq![(v % 256) as u8] + spec_unpack(v / 256)
    }
}

/// A packed value is bounded by `256^len`.
pub proof fn lemma_pack_bound(bytes: Seq<u8>)
    ensures
        0 <= spec_pack(bytes) < pow256(bytes.len()),
    decreases bytes.len(),
{
    if bytes.len() != 0 {
        lemma_pack_bound(bytes.skip(1));
    }
}

/// Unpacking is the exact left inverse of packing, for byte strings of at
/// most 8 bytes that contain no zero byte.
pub proof fn lemma_pack_round_trip(bytes: Seq<u8>)
    requires
        bytes.len() <= 8,
        forall|i: int| 0 <= i < bytes.len() ==> bytes[i] != 0,
    ensures
        spec_unpack(spec_pack(bytes)) == bytes,
    decreases bytes.len(),
{
    if bytes.len() == 0 {
        assert(spec_unpack(spec_pack(bytes)) =~= bytes);
    } else {
        let tail = bytes.skip(1);
        let k = spec_pack(tail);
        let v = spec_pack(bytes);
        lemma_pack_bound(tail);
        lemma_fundamental_div_mod_converse(v, 256, k, bytes[0] as int);
        lemma_pack_round_trip(tail);
        assert(spec_unpack(v) =~= bytes);
    }
}

/// The same law at the level of strings: an ASCII string of at most 8
/// bytes without a zero byte is recovered exactly by unpacking its packed
/// value.  (A non-ASCII string is not: unpacking maps each byte to one
/// character, so a multi-byte character would come back as several.)
pub proof fn lemma_pack_str_round_trip(s: Seq<char>)
    requires
        is_ascii_chars(s),
        s.len() <= 8,
        forall|i: int| 0 <= i < s.len() ==> s[i] != '\0',
    ensures
        decode_utf8(spec_unpack(spec_pack(encode_utf8(s)))) == s,
{
    let bytes = encode_utf8(s);
    is_ascii_chars_encode_utf8(s);
    assert forall|i: int| 0 <= i < bytes.len() implies bytes[i] != 0 by {
        assert(bytes[i] == s[i] as u8);
        assert(s[i] as u32 != 0);
        assert('\0' <= s[i] <= '\u{7f}');
    }
    lemma_pack_round_trip(bytes);
    vstd::utf8::encode_utf8_decode_utf8(s);
}

/// Pack a byte slice of at most 8 bytes into a `u64`, first byte lowest.
pub fn pack_bytes(bytes: &[u8]) -> (r: u64)
    requires
        bytes@.len() <= 8,
    ensures
        r as int == spec_pack(bytes@),
{
    let n = bytes.len();
    let mut value: u64 = 0;
    let mut i: usize = n;
    proof {
        assert(bytes@.skip(n as int) =~= Seq::<u8>::empty());
    }
    while i > 0
        invariant
            i <= n,
            n == bytes@.len(),
            n <= 8,
            value as int == spec_pack(bytes@.skip(i as int)),
            value < pow256((n - i) as nat),
        decreases i,
    {
        i = i - 1;
        proof {
            reveal_with_fuel(pow256, 9);
            assert(pow256(7nat) == 0x100000000000000);
            lemma_pow256_increases((n - i - 1) as nat, 7nat);
            assert(value < 0x100000000000000);
            assert(bytes@.skip(i as int)[0] == bytes@[i as int]);
            assert(bytes@.skip(i as int).skip(1) =~= bytes@.skip(i as int + 1));
        }
        value = value * 256 + (bytes[i] as u64);
    }
    proof {
        assert(bytes@.skip(0) =~= bytes@);
    }
    value
}

/// `pow256` does not decrease.
proof fn lemma_pow256_increases(a: nat, b: nat)
    requires
        a <= b,
    ensures
        pow256(a) <= pow256(b),
    decreases b,
{
    if a < b {
        lemma_pow256_increases(a, (b - 1) as nat);
        lemma_pow256_positive((b - 1) as nat);
    }
}

/// `pow256` is positive.
proof fn lemma_pow256_positive(n: nat)
    ensures
        pow256(n) >= 1,
    decreases n,
{
    if n > 0 {
        lemma_pow256_positive((n - 1) as nat);
    }
}

/// Pack a string of at most 8 bytes containing no zero byte into a `u64`,
/// first byte of the string in the least significant byte of the value.
pub fn pack_str(s: &str) -> (r: Result<u64, Error>)
    ensures
        s.spec_bytes().len() > 8 ==> r == Err::<u64, Error>(Error::StringTooLong),
        s.spec_bytes().len() <= 8 && s.spec_bytes().contains(0u8) ==> r == Err::<u64, Error>(
            Error::StringContainsNul,
        ),
        s.spec_bytes().len() <= 8 && !s.spec_bytes().contains(0u8) ==> (r matches Ok(v) && v
            as int == spec_pack(s.spec_bytes())),
{
    let bytes = s.as_bytes();
    if bytes.len() > 8 {
        return Err(Error::StringTooLong);
    }
    let n = bytes.len();
    let mut i: usize = 0;
    while i < n
        invariant
            i <= n,
            n <= 8,
            n == bytes@.len(),
            bytes@ == s.spec_bytes(),
            forall|j: int| 0 <= j < i ==> bytes@[j] != 0,
        decreases n - i,
    {
        if bytes[i] == 0 {
            return Err(Error::StringContainsNul);
        }
        i = i + 1;
    }
    Ok(pack_bytes(bytes))
}

/// Unpack the bytes of a packed value, low byte first, stopping before the
/// first zero byte.
pub fn unpack_bytes(v: u64) -> (r: Vec<u8>)
    ensures
        r@ == spec_unpack(v as int),
{
    let mut out: Vec<u8> = Vec::new();
    let mut x = v;
    while x != 0
        invariant
            spec_unpack(v as int) == out@ + spec_unpack(x as int),
        decreases x,
    {
        let ghost prev = out@;
        out.push((x % 256) as u8);
        proof {
            assert(out@ + spec_unpack(x as int / 256) =~= prev + spec_unpack(x as int));
        }
        x = x / 256;
    }
    proof {
        assert(out@ + spec_unpack(0int) =~= out@);
    }
    out
}

} // verus!

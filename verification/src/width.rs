//! The width selector: the narrowest fixed-width unsigned integer type
//! that holds a given maximum value.

use vstd::prelude::*;

use crate::errors::Error;

verus! {

/// The number of bits of the narrowest unsigned type holding `n`.
pub open spec fn spec_width_bits(n: u64) -> int {
    if n <= 0xFF {
        8
    } else if n <= 0xFFFF {
        16
    } else if n <= 0xFFFFFFFF {
        32
    } else {
        64
    }
}

/// The largest value of the unsigned type of `bits` bits.
pub open spec fn spec_width_max(bits: int) -> int {
    if bits == 8 {
        0xFF
    } else if bits == 16 {
        0xFFFF
    } else if bits == 32 {
        0xFFFFFFFF
    } else {
        0xFFFFFFFFFFFFFFFF
    }
}

/// The Rust name of the unsigned type of `bits` bits.
pub open spec fn spec_width_name(bits: int) -> Seq<char> {
    if bits == 8 {
        "u8"@
    } else if bits == 16 {
        "u16"@
    } else if bits == 32 {
        "u32"@
    } else {
        "u64"@
    }
}

/// The selected width holds the value, no narrower selectable width does,
/// and the selection grows with the value.
pub proof fn lemma_width_selection(n: u64, m: u64)
    ensures
        n <= spec_width_max(spec_width_bits(n)),
        spec_width_bits(n) == 16 ==> n > 0xFF,
        spec_width_bits(n) == 32 ==> n > 0xFFFF,
        spec_width_bits(n) == 64 ==> n > 0xFFFFFFFF,
        n <= m ==> spec_width_bits(n) <= spec_width_bits(m),
{
}

/// The name of the narrowest unsigned type whose maximum value is at
/// least `n`.
pub fn smallest_unsigned_type(n: u64) -> (r: &'static str)
    ensures
        r@ == spec_width_name(spec_width_bits(n)),
{
    if n <= 0xFF {
        "u8"
    } else if n <= 0xFFFF {
        "u16"
    } else if n <= 0xFFFFFFFF {
        "u32"
    } else {
        "u64"
    }
}

/// The name of the unsigned type of an automaton's state identifier, from
/// its width in bytes; a width outside 1, 2, 4, 8 is a configuration
/// error.
pub fn rust_uint_type(size_bytes: u8) -> (r: Result<&'static str, Error>)
    ensures
        size_bytes == 1 ==> (r matches Ok(s) && s@ == "u8"@),
        size_bytes == 2 ==> (r matches Ok(s) && s@ == "u16"@),
        size_bytes == 4 ==> (r matches Ok(s) && s@ == "u32"@),
        size_bytes == 8 ==> (r matches Ok(s) && s@ == "u64"@),
        size_bytes != 1 && size_bytes != 2 && size_bytes != 4 && size_bytes != 8 ==> r == Err::<
            &'static str,
            Error,
        >(Error::UnsupportedStateIdSize),
{
    if size_bytes == 1 {
        Ok("u8")
    } else if size_bytes == 2 {
        Ok("u16")
    } else if size_bytes == 4 {
        Ok("u32")
    } else if size_bytes == 8 {
        Ok("u64")
    } else {
        Err(Error::UnsupportedStateIdSize)
    }
}

} // verus!

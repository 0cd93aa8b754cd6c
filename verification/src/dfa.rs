//! The automaton artifacts the byte framer works on.
//!
//! An automaton is opaque to this crate: all it exposes is its big-endian
//! and little-endian serializations and the width in bytes of its state
//! identifiers.  A matching pair for regex export adds the reverse
//! automaton.

use vstd::prelude::*;

verus! {

/// The two serializations of one automaton, and its state identifier
/// width in bytes.
pub struct DfaBytes {
    pub big_endian: Vec<u8>,
    pub little_endian: Vec<u8>,
    pub state_id_bytes: u8,
}

/// A forward/reverse automaton pair, as used for regex export.  The two
/// automata share one state identifier width.
pub struct RegexBytes {
    pub forward: DfaBytes,
    pub reverse: DfaBytes,
}

} // verus!

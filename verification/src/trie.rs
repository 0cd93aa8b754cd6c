//! Trusted interface to the ucd_trie crate, and the flattened form of its
//! three-level bitmap trie.
//!
//! The trie layout alternates three 64-bit bitmap levels with two 8-bit
//! index levels; a reader reconstructs the trie positionally, so the six
//! arrays must be kept in exactly this order.

use vstd::prelude::*;

use crate::errors::Error;

verus! {

/// The six flat arrays of a three-level bitmap trie, in the fixed
/// positional order a reader expects.
pub struct TrieLevels {
    pub tree1_level1: Vec<u64>,
    pub tree2_level1: Vec<u8>,
    pub tree2_level2: Vec<u64>,
    pub tree3_level1: Vec<u8>,
    pub tree3_level2: Vec<u8>,
    pub tree3_level3: Vec<u64>,
}

/// The arrays that the ucd_trie crate builds from a set of codepoints;
/// they depend on the set alone.
pub uninterp spec fn trie_levels_of(cps: Set<u32>) -> (Seq<u64>, Seq<u8>, Seq<u64>, Seq<u8>, Seq<
    u8,
>, Seq<u64>);

/// Whether the ucd_trie crate can represent this codepoint set: every
/// codepoint is at most 0x10FFFF and the set compresses into the trie's
/// fixed index widths.  Like the arrays, this depends on the set alone.
pub uninterp spec fn trie_builds(cps: Set<u32>) -> bool;

/// Relies on `ucd_trie::TrieSetOwned::from_codepoints` (with `as_slice`
/// to read the arrays out): builds the bitmap trie of a codepoint set; a
/// codepoint above 0x10FFFF is refused, and a set the crate cannot
/// compress into a trie is refused too.  Whether the build succeeds is a
/// function of the set, named [`trie_builds`].
#[verifier::external_body]
pub fn build_trie(cps: &Vec<u32>) -> (r: Result<TrieLevels, Error>)
    ensures
        r is Ok <==> trie_builds(cps@.to_set()),
        r matches Ok(t) ==> (
            t.tree1_level1@,
            t.tree2_level1@,
            t.tree2_level2@,
            t.tree3_level1@,
            t.tree3_level2@,
            t.tree3_level3@,
        ) == trie_levels_of(cps@.to_set()),
        (exists|i: int| 0 <= i < cps@.len() && cps@[i] > 0x10FFFF) ==> r is Err,
        r matches Err(e) ==> e == Error::TrieBuild,
{
    match ucd_trie::TrieSetOwned::from_codepoints(cps.iter().cloned()) {
        Ok(t) => {
            let s = t.as_slice();
            Ok(TrieLevels {
                tree1_level1: s.tree1_level1.to_vec(),
                tree2_level1: s.tree2_level1.to_vec(),
                tree2_level2: s.tree2_level2.to_vec(),
                tree3_level1: s.tree3_level1.to_vec(),
                tree3_level2: s.tree3_level2.to_vec(),
                tree3_level3: s.tree3_level3.to_vec(),
            })
        },
        Err(_) => Err(Error::TrieBuild),
    }
}

} // verus!

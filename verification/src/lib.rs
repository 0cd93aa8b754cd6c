use vstd::prelude::*;

pub mod errors;
pub mod pack;
pub mod fstio;
pub mod ident;
pub mod intervals;
pub mod line;
pub mod trie;
pub mod writer;
pub mod writer_maps;
pub mod writer_dfa;
pub mod writer_enum;
pub mod writer_multi;
pub mod writer_sets;
pub mod dfa;
pub mod render;
pub mod width;

verus! {

} // verus!

//! Emission of codepoint sets: literal range tables, bitmap tries,
//! transducer artifacts, and the sorted name list.

use vstd::prelude::*;
use vstd::string::StringSliceAdditionalSpecFns;
use vstd::utf8::encode_utf8;

use crate::errors::Error;
use crate::fstio::{
    fst_set_builder, fst_set_bytes, fst_set_finish, fst_set_insert, fst_set_keys, lex_lt,
    lex_lt_bytes, lemma_lex_lt_irrefl, lemma_lex_lt_trans, lemma_u32_key_lt, spec_u32_key,
    u32_key_vec,
};
use crate::ident::{const_name_bytes, module_name_bytes, spec_const_name, spec_module_name};
use crate::intervals::{expand_runs, runs_wf, strictly_increasing, to_ranges};
use crate::line::{lw_line, lw_token, LwState};
use crate::render::{
    extend_bytes, extend_bytes_vec, lit, rust_codepoint_bytes, spec_codepoint, spec_dec, spec_hex,
    str_debug, str_debug_text,
};
use crate::trie::{build_trie, trie_builds, trie_levels_of, TrieLevels};
use crate::writer::{spec_cp_type, spec_start, OptState, Writer, WriterState};

verus! {

/// The token for one 64-bit bitmap word: zero stays `0`, anything else is
/// written in hex.
pub open spec fn spec_u64_token(x: u64) -> Seq<u8> {
    if x == 0 {
        lit("0, "@)
    } else {
        lit("0x"@) + spec_hex(x as int) + lit(", "@)
    }
}

/// The token for one 8-bit index entry.
pub open spec fn spec_u8_token(x: u8) -> Seq<u8> {
    spec_dec(x as int) + lit(", "@)
}

/// The fold step writing one 64-bit bitmap word.
pub open spec fn step_u64() -> spec_fn(LwState, u64) -> LwState {
    |s: LwState, x: u64| lw_token(s, spec_u64_token(x))
}

/// The fold step writing one 8-bit index entry.
pub open spec fn step_u8() -> spec_fn(LwState, u8) -> LwState {
    |s: LwState, x: u8| lw_token(s, spec_u8_token(x))
}

/// The token for one codepoint range entry, absent when either endpoint
/// cannot be rendered under the chosen literal style.
pub open spec fn spec_range_entry(cl: bool, e: (u32, u32)) -> Option<Seq<u8>> {
    match (spec_codepoint(cl, e.0), spec_codepoint(cl, e.1)) {
        (Some(a), Some(b)) => Some(lit("("@) + a + lit(", "@) + b + lit("), "@)),
        _ => None,
    }
}

/// The fold step writing one range entry, skipping unrenderable ones.
pub open spec fn step_range(cl: bool) -> spec_fn(LwState, (u32, u32)) -> LwState {
    |s: LwState, e: (u32, u32)|
        match spec_range_entry(cl, e) {
            Some(t) => lw_token(s, t),
            None => s,
        }
}

/// The text of a literal range table: its declaration line, one token
/// per renderable range, and the closing line.
pub open spec fn spec_ranges_slice(
    st: LwState,
    name: Seq<u8>,
    table: Seq<(u32, u32)>,
    cl: bool,
) -> LwState {
    let ty = spec_cp_type(cl);
    let st1 = lw_line(
        st,
        lit("pub const "@) + name + lit(": &'static [("@) + ty + lit(", "@) + ty + lit(
            ")] = &["@,
        ),
    );
    let st2 = table.fold_left(st1, step_range(cl));
    lw_line(st2, lit("];"@))
}

/// The token for one entry of the name list.
pub open spec fn spec_name_entry(name: Seq<u8>) -> Seq<u8> {
    lit("("@) + str_debug_text(name) + lit(", "@) + spec_const_name(name) + lit("), "@)
}

/// The fold step writing one name entry.
pub open spec fn step_name() -> spec_fn(LwState, Seq<u8>) -> LwState {
    |s: LwState, n: Seq<u8>| lw_token(s, spec_name_entry(n))
}

/// The type of the per-name table value under the chosen backend.
pub open spec fn spec_names_ty(opts: OptState) -> Seq<u8> {
    if opts.fst {
        lit("::fst::Set<&'static [u8]>"@)
    } else if opts.trie_set {
        lit("&'static ::ucd_trie::TrieSet"@)
    } else {
        lit("&'static [("@) + spec_cp_type(opts.char_literals) + lit(", "@) + spec_cp_type(
            opts.char_literals,
        ) + lit(")]"@)
    }
}

/// The text of the name list: its declaration line, one token per name,
/// and the closing line.
pub open spec fn spec_names_emit(st: LwState, opts: OptState, names: Seq<Seq<u8>>) -> LwState {
    let st1 = lw_line(
        st,
        lit("pub const BY_NAME: &'static [(&'static str, "@) + spec_names_ty(opts) + lit(
            ")] = &["@,
        ),
    );
    let st2 = names.fold_left(st1, step_name());
    lw_line(st2, lit("];"@))
}

/// The byte images of a sequence of strings.
pub open spec fn strs_bytes(names: Seq<String>) -> Seq<Seq<u8>> {
    Seq::new(names.len(), |i: int| encode_utf8(names[i]@))
}

/// Whether a sequence of byte strings is sorted, weakly, in
/// lexicographic order.
pub open spec fn lex_sorted(s: Seq<Seq<u8>>) -> bool {
    forall|i: int, j: int| 0 <= i < j < s.len() ==> !lex_lt(#[trigger] s[j], #[trigger] s[i])
}

/// The text of a flattened trie table: the declaration, the six arrays
/// in their fixed order, and the closing line.  The indent is set to four
/// spaces for the array tokens and stays so, as the table writer leaves
/// it.
pub open spec fn spec_trie_emit(
    st: LwState,
    name: Seq<u8>,
    levels: (Seq<u64>, Seq<u8>, Seq<u64>, Seq<u8>, Seq<u8>, Seq<u64>),
) -> LwState {
    let s1 = lw_line(
        st,
        lit("pub const "@) + name + lit(
            ": &'static ::ucd_trie::TrieSet = &::ucd_trie::TrieSet {"@,
        ),
    );
    let s2 = LwState { indent: lit("    "@), ..s1 };
    let s3 = lw_line(s2, lit("  tree1_level1: &["@));
    let s4 = levels.0.fold_left(s3, step_u64());
    let s5 = lw_line(s4, lit("  ],"@));
    let s6 = lw_line(s5, lit("  tree2_level1: &["@));
    let s7 = levels.1.fold_left(s6, step_u8());
    let s8 = lw_line(s7, lit("  ],"@));
    let s9 = lw_line(s8, lit("  tree2_level2: &["@));
    let s10 = levels.2.fold_left(s9, step_u64());
    let s11 = lw_line(s10, lit("  ],"@));
    let s12 = lw_line(s11, lit("  tree3_level1: &["@));
    let s13 = levels.3.fold_left(s12, step_u8());
    let s14 = lw_line(s13, lit("  ],"@));
    let s15 = lw_line(s14, lit("  tree3_level2: &["@));
    let s16 = levels.4.fold_left(s15, step_u8());
    let s17 = lw_line(s16, lit("  ],"@));
    let s18 = lw_line(s17, lit("  tree3_level3: &["@));
    let s19 = levels.5.fold_left(s18, step_u64());
    let s20 = lw_line(s19, lit("  ],"@));
    lw_line(s20, lit("};"@))
}

/// The text of a transducer loader: the lazy static that reads the
/// artifact back at first use.
pub open spec fn spec_fst_decl(st: LwState, name: Seq<u8>, is_map: bool, fname: Seq<u8>) -> LwState {
    let ty = if is_map {
        lit("Map"@)
    } else {
        lit("Set"@)
    };
    let st1 = lw_line(
        st,
        lit("pub static "@) + name + lit(": ::once_cell::sync::Lazy<::fst::"@) + ty + lit(
            "<&'static [u8]>> ="@,
        ),
    );
    let st2 = lw_line(st1, lit("  ::once_cell::sync::Lazy::new(|| {"@));
    let st3 = lw_line(st2, lit("    ::fst::"@) + ty + lit("::from(::fst::raw::Fst::new("@));
    let st4 = lw_line(
        st3,
        lit("      &include_bytes!("@) + str_debug_text(fname) + lit(")[..]).unwrap())"@),
    );
    lw_line(st4, lit("  });"@))
}

/// The artifact file name of a transducer: the constant name lowered,
/// with the transducer suffix.
pub open spec fn spec_fst_fname(cname: Seq<u8>) -> Seq<u8> {
    spec_module_name(cname) + lit(".fst"@)
}

/// The writer after emitting a transducer: the loader text and the
/// recorded artifact.
pub open spec fn spec_after_fst(s: WriterState, cname: Seq<u8>, bytes: Seq<u8>, is_map: bool) -> WriterState {
    let s1 = spec_start(s);
    WriterState {
        lw: spec_fst_decl(s1.lw, cname, is_map, spec_fst_fname(cname)),
        artifacts: s1.artifacts.push((spec_fst_fname(cname), bytes)),
        ..s1
    }
}

/// The big-endian key images of a sorted codepoint sequence.
pub open spec fn spec_set_keys(cps: Seq<u32>) -> Seq<Seq<u8>> {
    Seq::new(cps.len(), |i: int| spec_u32_key(cps[i]))
}

/// Sort names into ascending lexicographic byte order, duplicates kept:
/// the normalization the name list applies before emission.
fn sort_names(names: &Vec<String>) -> (r: Vec<String>)
    ensures
        lex_sorted(strs_bytes(r@)),
        strs_bytes(r@).to_multiset() == strs_bytes(names@).to_multiset(),
{
    let mut out: Vec<String> = Vec::new();
    let mut i: usize = 0;
    proof {
        assert(strs_bytes(out@) =~= strs_bytes(names@.take(0)));
    }
    while i < names.len()
        invariant
            i <= names@.len(),
            lex_sorted(strs_bytes(out@)),
            strs_bytes(out@).to_multiset() == strs_bytes(names@.take(i as int)).to_multiset(),
        decreases names@.len() - i,
    {
        let x = names[i].clone();
        let ghost xb = encode_utf8(names@[i as int]@);
        let mut j: usize = 0;
        while j < out.len() && !lex_lt_bytes(x.as_str().as_bytes(), out[j].as_str().as_bytes())
            invariant
                j <= out@.len(),
                x@ == names@[i as int]@,
                xb == encode_utf8(x@),
                forall|q: int| 0 <= q < j ==> !lex_lt(xb, encode_utf8((#[trigger] out@[q])@)),
            decreases out@.len() - j,
        {
            j = j + 1;
        }
        let ghost sb = strs_bytes(out@);
        proof {
            assert(forall|q: int| 0 <= q < sb.len() ==> #[trigger] sb[q] == encode_utf8(out@[q]@));
            if j < out@.len() {
                assert(lex_lt(xb, sb[j as int]));
            }
        }
        out.insert(j, x);
        proof {
            let nb = strs_bytes(out@);
            assert(nb =~= sb.insert(j as int, xb));
            vstd::seq_lib::to_multiset_insert(sb, j as int, xb);
            assert(strs_bytes(names@.take(i as int + 1)) =~= strs_bytes(
                names@.take(i as int),
            ).push(xb));
            vstd::seq_lib::to_multiset_build(strs_bytes(names@.take(i as int)), xb);
            assert forall|p: int, q: int| 0 <= p < q < nb.len() implies !lex_lt(nb[q], nb[p]) by {
                if q < j {
                    assert(nb[p] == sb[p] && nb[q] == sb[q]);
                } else if p > j {
                    assert(nb[p] == sb[p - 1] && nb[q] == sb[q - 1]);
                } else if p < j && q == j as int {
                    assert(nb[q] == xb && nb[p] == sb[p]);
                } else if p == j as int && q > j {
                    assert(nb[p] == xb && nb[q] == sb[q - 1]);
                    if lex_lt(sb[q - 1], xb) {
                        assert(lex_lt(xb, sb[j as int]));
                        lemma_lex_lt_trans(sb[q - 1], xb, sb[j as int]);
                        if q - 1 == j as int {
                            lemma_lex_lt_irrefl(sb[j as int]);
                        } else {
                            assert(!lex_lt(sb[q - 1], sb[j as int]));
                        }
                        assert(false);
                    }
                } else {
                    assert(p < j && q > j);
                    assert(nb[p] == sb[p] && nb[q] == sb[q - 1]);
                    assert(!lex_lt(sb[q - 1], sb[p]));
                }
            }
        }
        i = i + 1;
    }
    proof {
        assert(names@.take(names@.len() as int) =~= names@);
    }
    out
}

/// Build the token for one entry of the name list.
fn name_entry_token(nb: &[u8]) -> (tok: Vec<u8>)
    requires
        vstd::utf8::valid_utf8(nb@),
    ensures
        tok@ == spec_name_entry(nb@),
{
    let mut tok: Vec<u8> = Vec::new();
    extend_bytes(&mut tok, "(".as_bytes());
    let q = str_debug(nb);
    extend_bytes_vec(&mut tok, &q);
    extend_bytes(&mut tok, ", ".as_bytes());
    let cn = const_name_bytes(nb);
    extend_bytes_vec(&mut tok, &cn);
    extend_bytes(&mut tok, "), ".as_bytes());
    proof {
        assert(tok@ =~= spec_name_entry(nb@));
    }
    tok
}

impl Writer {
    /// Write the tokens for a slice of 64-bit bitmap words.
    pub(crate) fn write_slice_u64(&mut self, xs: &Vec<u64>)
        ensures
            final(self)@ == (WriterState {
                lw: xs@.fold_left(old(self)@.lw, step_u64()),
                ..old(self)@
            }),
    {
        let ghost st0 = self@.lw;
        let mut i: usize = 0;
        proof {
            assert(xs@.take(0) =~= Seq::<u64>::empty());
        }
        while i < xs.len()
            invariant
                i <= xs@.len(),
                self.wrote_header == old(self).wrote_header,
                self.opts == old(self).opts,
                self.artifacts == old(self).artifacts,
                self@.lw == xs@.take(i as int).fold_left(st0, step_u64()),
                st0 == old(self)@.lw,
            decreases xs@.len() - i,
        {
            let x = xs[i];
            let mut tok: Vec<u8> = Vec::new();
            if x == 0 {
                extend_bytes(&mut tok, "0, ".as_bytes());
            } else {
                extend_bytes(&mut tok, "0x".as_bytes());
                let h = crate::render::hex_u64(x);
                extend_bytes_vec(&mut tok, &h);
                extend_bytes(&mut tok, ", ".as_bytes());
            }
            proof {
                assert(tok@ =~= spec_u64_token(x));
            }
            self.wtr.write_str(tok.as_slice());
            proof {
                assert(xs@.take(i as int + 1).drop_last() =~= xs@.take(i as int));
                assert(xs@.take(i as int + 1).fold_left(st0, step_u64()) == step_u64()(
                    xs@.take(i as int).fold_left(st0, step_u64()),
                    x,
                ));
            }
            i = i + 1;
        }
        proof {
            assert(xs@.take(xs@.len() as int) =~= xs@);
        }
    }

    /// Write the tokens for a slice of 8-bit index entries.
    pub(crate) fn write_slice_u8(&mut self, xs: &Vec<u8>)
        ensures
            final(self)@ == (WriterState {
                lw: xs@.fold_left(old(self)@.lw, step_u8()),
                ..old(self)@
            }),
    {
        let ghost st0 = self@.lw;
        let mut i: usize = 0;
        proof {
            assert(xs@.take(0) =~= Seq::<u8>::empty());
        }
        while i < xs.len()
            invariant
                i <= xs@.len(),
                self.wrote_header == old(self).wrote_header,
                self.opts == old(self).opts,
                self.artifacts == old(self).artifacts,
                self@.lw == xs@.take(i as int).fold_left(st0, step_u8()),
                st0 == old(self)@.lw,
            decreases xs@.len() - i,
        {
            let x = xs[i];
            let mut tok = crate::render::dec_u64(x as u64);
            extend_bytes(&mut tok, ", ".as_bytes());
            proof {
                assert(tok@ =~= spec_u8_token(x));
            }
            self.wtr.write_str(tok.as_slice());
            proof {
                assert(xs@.take(i as int + 1).drop_last() =~= xs@.take(i as int));
                assert(xs@.take(i as int + 1).fold_left(st0, step_u8()) == step_u8()(
                    xs@.take(i as int).fold_left(st0, step_u8()),
                    x,
                ));
            }
            i = i + 1;
        }
        proof {
            assert(xs@.take(xs@.len() as int) =~= xs@);
        }
    }

    /// Write a literal range table under the given constant name.
    pub(crate) fn ranges_slice(&mut self, name: &Vec<u8>, table: &Vec<(u32, u32)>)
        ensures
            final(self)@ == (WriterState {
                lw: spec_ranges_slice(
                    old(self)@.lw,
                    name@,
                    table@,
                    old(self)@.opts.char_literals,
                ),
                ..old(self)@
            }),
    {
        let cl = self.opts.char_literals;
        let ty = self.rust_codepoint_type();
        let mut decl: Vec<u8> = Vec::new();
        extend_bytes(&mut decl, "pub const ".as_bytes());
        extend_bytes_vec(&mut decl, name);
        extend_bytes(&mut decl, ": &'static [(".as_bytes());
        extend_bytes(&mut decl, ty.as_bytes());
        extend_bytes(&mut decl, ", ".as_bytes());
        extend_bytes(&mut decl, ty.as_bytes());
        extend_bytes(&mut decl, ")] = &[".as_bytes());
        self.wtr.write_line(decl.as_slice());
        let ghost st1 = self@.lw;
        let mut i: usize = 0;
        proof {
            assert(table@.take(0) =~= Seq::<(u32, u32)>::empty());
        }
        while i < table.len()
            invariant
                i <= table@.len(),
                cl == old(self)@.opts.char_literals,
                self.wrote_header == old(self).wrote_header,
                self.opts == old(self).opts,
                self.artifacts == old(self).artifacts,
                self@.lw == table@.take(i as int).fold_left(st1, step_range(cl)),
            decreases table@.len() - i,
        {
            let (s, e) = table[i];
            let sa = rust_codepoint_bytes(cl, s);
            let sb = rust_codepoint_bytes(cl, e);
            proof {
                assert(table@[i as int] == (s, e));
            }
            if let (Some(a), Some(b)) = (sa, sb) {
                let mut tok: Vec<u8> = Vec::new();
                extend_bytes(&mut tok, "(".as_bytes());
                extend_bytes_vec(&mut tok, &a);
                extend_bytes(&mut tok, ", ".as_bytes());
                extend_bytes_vec(&mut tok, &b);
                extend_bytes(&mut tok, "), ".as_bytes());
                proof {
                    assert(tok@ =~= spec_range_entry(cl, (s, e)).unwrap());
                }
                self.wtr.write_str(tok.as_slice());
            }
            proof {
                assert(table@.take(i as int + 1).drop_last() =~= table@.take(i as int));
                assert(table@.take(i as int + 1).fold_left(st1, step_range(cl)) == step_range(cl)(
                    table@.take(i as int).fold_left(st1, step_range(cl)),
                    (s, e),
                ));
            }
            i = i + 1;
        }
        proof {
            assert(table@.take(table@.len() as int) =~= table@);
        }
        self.wtr.write_line("];".as_bytes());
    }

    /// Write the list of set names, each with the constant it names.
    /// The names are sorted into ascending lexicographic order before
    /// emission, whatever order they arrive in.
    #[verifier::rlimit(60)]
    pub fn names(&mut self, names: &Vec<String>) -> (r: Result<(), Error>)
        ensures
            r == Ok::<(), Error>(()),
            exists|sorted: Seq<Seq<u8>>|
                #![trigger lex_sorted(sorted)]
                lex_sorted(sorted) && sorted.to_multiset() == strs_bytes(names@).to_multiset()
                    && final(self)@ == (WriterState {
                    lw: spec_names_emit(spec_start(old(self)@).lw, old(self)@.opts, sorted),
                    wrote_header: true,
                    ..spec_start(old(self)@)
                }),
    {
        let sorted_names = sort_names(names);
        self.start();
        let ghost bnames = strs_bytes(sorted_names@);
        let mut decl: Vec<u8> = Vec::new();
        extend_bytes(&mut decl, "pub const BY_NAME: &'static [(&'static str, ".as_bytes());
        if self.opts.fst {
            extend_bytes(&mut decl, "::fst::Set<&'static [u8]>".as_bytes());
        } else if self.opts.trie_set {
            extend_bytes(&mut decl, "&'static ::ucd_trie::TrieSet".as_bytes());
        } else {
            let ty = self.rust_codepoint_type();
            extend_bytes(&mut decl, "&'static [(".as_bytes());
            extend_bytes(&mut decl, ty.as_bytes());
            extend_bytes(&mut decl, ", ".as_bytes());
            extend_bytes(&mut decl, ty.as_bytes());
            extend_bytes(&mut decl, ")]".as_bytes());
        }
        extend_bytes(&mut decl, ")] = &[".as_bytes());
        proof {
            assert(decl@ =~= lit("pub const BY_NAME: &'static [(&'static str, "@) + spec_names_ty(
                self@.opts,
            ) + lit(")] = &["@));
        }
        self.wtr.write_line(decl.as_slice());
        let ghost s0 = spec_start(old(self)@);
        let ghost st1 = self@.lw;
        let mut i: usize = 0;
        proof {
            assert(bnames.take(0) =~= Seq::<Seq<u8>>::empty());
        }
        while i < sorted_names.len()
            invariant
                i <= sorted_names@.len(),
                bnames == strs_bytes(sorted_names@),
                self@.wrote_header == true,
                self@.opts == s0.opts,
                self@.artifacts == s0.artifacts,
                s0 == spec_start(old(self)@),
                st1 == lw_line(s0.lw, lit("pub const BY_NAME: &'static [(&'static str, "@) + spec_names_ty(s0.opts) + lit(")] = &["@)),
                self@.lw == bnames.take(i as int).fold_left(st1, step_name()),
            decreases sorted_names@.len() - i,
        {
            let nb = sorted_names[i].as_str().as_bytes();
            proof {
                vstd::utf8::encode_utf8_valid_utf8(sorted_names@[i as int]@);
            }
            let tok = name_entry_token(nb);
            proof {
                assert(nb@ == bnames[i as int]);
            }
            self.wtr.write_str(tok.as_slice());
            proof {
                assert(bnames.take(i as int + 1).drop_last() =~= bnames.take(i as int));
                assert(bnames.take(i as int + 1).fold_left(st1, step_name()) == step_name()(
                    bnames.take(i as int).fold_left(st1, step_name()),
                    bnames[i as int],
                ));
            }
            i = i + 1;
        }
        proof {
            assert(bnames.take(bnames.len() as int) =~= bnames);
        }
        self.wtr.write_line("];".as_bytes());
        Ok(())
    }

    /// Write a flattened bitmap trie under the given constant name.
    pub(crate) fn trie_set(&mut self, name: &Vec<u8>, trie: &TrieLevels)
        ensures
            final(self)@ == (WriterState {
                lw: spec_trie_emit(
                    old(self)@.lw,
                    name@,
                    (
                        trie.tree1_level1@,
                        trie.tree2_level1@,
                        trie.tree2_level2@,
                        trie.tree3_level1@,
                        trie.tree3_level2@,
                        trie.tree3_level3@,
                    ),
                ),
                ..old(self)@
            }),
    {
        let mut decl: Vec<u8> = Vec::new();
        extend_bytes(&mut decl, "pub const ".as_bytes());
        extend_bytes_vec(&mut decl, name);
        extend_bytes(&mut decl, ": &'static ::ucd_trie::TrieSet = &::ucd_trie::TrieSet {".as_bytes());
        self.wtr.write_line(decl.as_slice());
        self.wtr.indent("    ".as_bytes());
        self.wtr.write_line("  tree1_level1: &[".as_bytes());
        self.write_slice_u64(&trie.tree1_level1);
        self.wtr.write_line("  ],".as_bytes());
        self.wtr.write_line("  tree2_level1: &[".as_bytes());
        self.write_slice_u8(&trie.tree2_level1);
        self.wtr.write_line("  ],".as_bytes());
        self.wtr.write_line("  tree2_level2: &[".as_bytes());
        self.write_slice_u64(&trie.tree2_level2);
        self.wtr.write_line("  ],".as_bytes());
        self.wtr.write_line("  tree3_level1: &[".as_bytes());
        self.write_slice_u8(&trie.tree3_level1);
        self.wtr.write_line("  ],".as_bytes());
        self.wtr.write_line("  tree3_level2: &[".as_bytes());
        self.write_slice_u8(&trie.tree3_level2);
        self.wtr.write_line("  ],".as_bytes());
        self.wtr.write_line("  tree3_level3: &[".as_bytes());
        self.write_slice_u64(&trie.tree3_level3);
        self.wtr.write_line("  ],".as_bytes());
        self.wtr.write_line("};".as_bytes());
    }

    /// Record a transducer artifact and write its loader text.
    pub(crate) fn fst_emit(&mut self, cname: &Vec<u8>, bytes: Vec<u8>, is_map: bool)
        requires
            vstd::utf8::valid_utf8(cname@),
        ensures
            final(self)@ == (WriterState {
                lw: spec_fst_decl(old(self)@.lw, cname@, is_map, spec_fst_fname(cname@)),
                artifacts: old(self)@.artifacts.push((spec_fst_fname(cname@), bytes@)),
                ..old(self)@
            }),
    {
        let mut fname = module_name_bytes(cname.as_slice());
        extend_bytes(&mut fname, ".fst".as_bytes());
        proof {
            crate::ident::lemma_module_name_valid_utf8(cname@);
            vstd::utf8::encode_utf8_valid_utf8(".fst"@);
            vstd::utf8::valid_utf8_concat(spec_module_name(cname@), lit(".fst"@));
        }
        let q = str_debug(fname.as_slice());
        let ghost bv = bytes@;
        self.artifacts.push((fname, bytes));
        proof {
            assert(self@.artifacts =~= old(self)@.artifacts.push((spec_fst_fname(cname@), bv)));
        }
        let mut l1: Vec<u8> = Vec::new();
        extend_bytes(&mut l1, "pub static ".as_bytes());
        extend_bytes_vec(&mut l1, cname);
        extend_bytes(&mut l1, ": ::once_cell::sync::Lazy<::fst::".as_bytes());
        if is_map {
            extend_bytes(&mut l1, "Map".as_bytes());
        } else {
            extend_bytes(&mut l1, "Set".as_bytes());
        }
        extend_bytes(&mut l1, "<&'static [u8]>> =".as_bytes());
        self.wtr.write_line(l1.as_slice());
        self.wtr.write_line("  ::once_cell::sync::Lazy::new(|| {".as_bytes());
        let mut l3: Vec<u8> = Vec::new();
        extend_bytes(&mut l3, "    ::fst::".as_bytes());
        if is_map {
            extend_bytes(&mut l3, "Map".as_bytes());
        } else {
            extend_bytes(&mut l3, "Set".as_bytes());
        }
        extend_bytes(&mut l3, "::from(::fst::raw::Fst::new(".as_bytes());
        self.wtr.write_line(l3.as_slice());
        let mut l4: Vec<u8> = Vec::new();
        extend_bytes(&mut l4, "      &include_bytes!(".as_bytes());
        extend_bytes_vec(&mut l4, &q);
        extend_bytes(&mut l4, ")[..]).unwrap())".as_bytes());
        self.wtr.write_line(l4.as_slice());
        self.wtr.write_line("  });".as_bytes());
    }

    /// Write a sorted codepoint set under the configured backend: a
    /// transducer artifact, a bitmap trie, or a literal range table.  The
    /// table path compresses the set into its unique minimal run cover.
    pub fn ranges(&mut self, name: &str, codepoints: &Vec<u32>) -> (r: Result<(), Error>)
        requires
            strictly_increasing(codepoints@),
        ensures
            !old(self)@.opts.fst && !old(self)@.opts.trie_set ==> r == Ok::<(), Error>(())
                && (exists|runs: Seq<(u32, u32)>|
                runs_wf(runs) && expand_runs(runs) == codepoints@ && final(self)@ == (WriterState {
                    lw: spec_ranges_slice(
                        spec_start(old(self)@).lw,
                        spec_const_name(name.spec_bytes()),
                        runs,
                        old(self)@.opts.char_literals,
                    ),
                    ..spec_start(old(self)@)
                })),
            old(self)@.opts.fst ==> r == Ok::<(), Error>(()) && final(self)@ == spec_after_fst(
                old(self)@,
                spec_const_name(name.spec_bytes()),
                fst_set_bytes(spec_set_keys(codepoints@)),
                false,
            ),
            !old(self)@.opts.fst && old(self)@.opts.trie_set && trie_builds(codepoints@.to_set())
                ==> r == Ok::<(), Error>(()) && final(self)@ == (WriterState {
                lw: spec_trie_emit(
                    spec_start(old(self)@).lw,
                    spec_const_name(name.spec_bytes()),
                    trie_levels_of(codepoints@.to_set()),
                ),
                ..spec_start(old(self)@)
            }),
            !old(self)@.opts.fst && old(self)@.opts.trie_set && !trie_builds(codepoints@.to_set())
                ==> r == Err::<(), Error>(Error::TrieBuild) && final(self)@ == spec_start(
                old(self)@,
            ),
        {
        self.start();
        let cname = const_name_bytes(name.as_bytes());
        proof {
            vstd::utf8::encode_utf8_valid_utf8(name@);
            crate::ident::lemma_const_name_valid_utf8(name.spec_bytes());
        }
        if self.opts.fst {
            let mut b = fst_set_builder();
            let n = codepoints.len();
            let mut i: usize = 0;
            while i < n
                invariant
                    i <= n,
                    n == codepoints@.len(),
                    strictly_increasing(codepoints@),
                    fst_set_keys(b) == spec_set_keys(codepoints@.take(i as int)),
                decreases n - i,
            {
                let cp = codepoints[i];
                let key = u32_key_vec(cp);
                proof {
                    if i > 0 {
                        assert(codepoints@[i - 1] < codepoints@[i as int]);
                        lemma_u32_key_lt(codepoints@[i - 1], cp);
                        assert(fst_set_keys(b).last() == spec_u32_key(codepoints@[i - 1]));
                    }
                }
                let res = fst_set_insert(&mut b, &key);
                match res {
                    Ok(()) => {},
                    Err(_) => {
                        proof {
                            assert(false);
                        }
                    },
                }
                proof {
                    assert(fst_set_keys(b) =~= spec_set_keys(codepoints@.take(i as int + 1)));
                }
                i = i + 1;
            }
            proof {
                assert(codepoints@.take(n as int) =~= codepoints@);
            }
            let bytes = fst_set_finish(b);
            self.fst_emit(&cname, bytes, false);
            Ok(())
        } else if self.opts.trie_set {
            match build_trie(codepoints) {
                Ok(t) => {
                    self.trie_set(&cname, &t);
                    Ok(())
                },
                Err(e) => Err(e),
            }
        } else {
            let runs = to_ranges(codepoints);
            self.ranges_slice(&cname, &runs);
            Ok(())
        }
    }
}

} // verus!

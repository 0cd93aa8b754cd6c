//! Emission of enumerated range tables: a map from enum variants to
//! codepoint sets becomes an enumeration plus a range table over the
//! variant tags.

use vstd::prelude::*;
use vstd::string::StringSliceAdditionalSpecFns;
use vstd::utf8::encode_utf8;

use crate::errors::Error;
use crate::fstio::fst_map_bytes;
use crate::ident::{
    const_name_bytes, spec_const_name, spec_type_name, type_name_bytes,
};
use crate::intervals::{
    all_increasing, expand_runs_val, keys_increasing, merge_sets, runs_val_wf, sets_disjoint,
    strictly_increasing, to_range_values,
};
use crate::line::{lw_line, lw_token, LwState};
use crate::render::{
    dec_isize, extend_bytes, extend_bytes_vec, lit, rust_codepoint_bytes, spec_codepoint,
    spec_dec_i, str_debug, str_debug_text,
};
use crate::writer::{spec_cp_type, spec_start, Writer, WriterState};
use crate::writer_maps::{spec_cp_pairs, spec_uint_slice, str_keys_sorted};
use crate::writer_sets::spec_after_fst;

verus! {

/// The merged form of a variant-to-set map: the key-sorted union of all
/// sets, each codepoint tagged with the index of its variant.  Sorted
/// disjoint sets have exactly one such merge.
pub open spec fn merged_rel<T>(sets: Seq<(T, Vec<u32>)>, m: Seq<(u32, u64)>) -> bool {
    keys_increasing(m) && (forall|idx: int|
        0 <= idx < m.len() ==> (#[trigger] m[idx]).1 < sets.len() && sets[m[idx].1 as int].1@.contains(
            m[idx].0,
        )) && (forall|j: int, t: int|
        0 <= j < sets.len() && 0 <= t < sets[j].1@.len() ==> m.contains(
            ((#[trigger] sets[j].1@[t]), j as u64),
        ))
}

/// The fold step writing one quoted variant name of the tag list.
pub open spec fn step_variant() -> spec_fn(LwState, (String, Vec<u32>)) -> LwState {
    |s: LwState, e: (String, Vec<u32>)| lw_token(s, str_debug_text(encode_utf8(e.0@)) + lit(", "@))
}

/// The writer after the variant tag list of an enumerated table.
pub open spec fn spec_after_enum_list(
    s: WriterState,
    cname: Seq<u8>,
    entries: Seq<(String, Vec<u32>)>,
) -> WriterState {
    let s1 = spec_start(s);
    let st1 = lw_line(
        s1.lw,
        lit("pub const "@) + cname + lit("_ENUM: &'static [&'static str] = &["@),
    );
    let st2 = entries.fold_left(st1, step_variant());
    WriterState { lw: lw_line(st2, lit("];"@)), ..s1 }
}

/// The fold step writing one variant of a Rust enum declaration.
pub open spec fn step_rust_variant() -> spec_fn(LwState, String) -> LwState {
    |s: LwState, v: String| lw_token(s, spec_type_name(encode_utf8(v@)) + lit(", "@))
}

/// The fold step writing one variant with its explicit discriminant.
pub open spec fn step_disc_variant() -> spec_fn(LwState, (isize, String)) -> LwState {
    |s: LwState, v: (isize, String)|
        lw_token(
            s,
            spec_type_name(encode_utf8(v.1@)) + lit(" = "@) + spec_dec_i(v.0 as int) + lit(", "@),
        )
}

/// The writer after a Rust enum declaration with implicit discriminants.
pub open spec fn spec_after_rust_enum_decl(
    s: WriterState,
    ename: Seq<u8>,
    variants: Seq<String>,
) -> WriterState {
    let s1 = spec_start(s);
    let st1 = lw_line(s1.lw, lit("#[derive(Clone, Copy, Debug, Hash, Eq, PartialEq)]"@));
    let st2 = lw_line(st1, lit("pub enum "@) + ename + lit(" {"@));
    let st3 = variants.fold_left(st2, step_rust_variant());
    WriterState { lw: lw_line(st3, lit("}\n"@)), ..s1 }
}

/// The writer after a Rust enum declaration with explicit discriminants.
pub open spec fn spec_after_disc_enum_decl(
    s: WriterState,
    ename: Seq<u8>,
    variants: Seq<(isize, String)>,
) -> WriterState {
    let s1 = spec_start(s);
    let st1 = lw_line(
        s1.lw,
        lit("#[derive(Clone, Copy, Debug, Hash, Eq, PartialEq, Ord, PartialOrd)]"@),
    );
    let st2 = lw_line(st1, lit("pub enum "@) + ename + lit(" {"@));
    let st3 = variants.fold_left(st2, step_disc_variant());
    WriterState { lw: lw_line(st3, lit("}\n"@)), ..s1 }
}

/// The token of one run of an enum-valued range table, absent when an
/// endpoint cannot be rendered.
pub open spec fn spec_enumval_entry(
    cl: bool,
    ty: Seq<u8>,
    names: Seq<Seq<u8>>,
    e: (u32, u32, u64),
) -> Option<Seq<u8>> {
    match (spec_codepoint(cl, e.0), spec_codepoint(cl, e.1)) {
        (Some(a), Some(b)) => Some(
            lit("("@) + a + lit(", "@) + b + lit(", "@) + ty + lit("::"@) + names[e.2 as int]
                + lit("), "@),
        ),
        _ => None,
    }
}

/// The fold step writing one run of an enum-valued range table.
pub open spec fn step_enumval(cl: bool, ty: Seq<u8>, names: Seq<Seq<u8>>) -> spec_fn(
    LwState,
    (u32, u32, u64),
) -> LwState {
    |s: LwState, e: (u32, u32, u64)|
        match spec_enumval_entry(cl, ty, names, e) {
            Some(t) => lw_token(s, t),
            None => s,
        }
}

/// The text of an enum-valued range table.
pub open spec fn spec_enum_slice(
    st: LwState,
    name: Seq<u8>,
    ty: Seq<u8>,
    table: Seq<(u32, u32, u64)>,
    names: Seq<Seq<u8>>,
    cl: bool,
) -> LwState {
    let cpty = spec_cp_type(cl);
    let st1 = lw_line(
        st,
        lit("pub const "@) + name + lit(": &'static [("@) + cpty + lit(", "@) + cpty + lit(", "@)
            + ty + lit(")] = &["@),
    );
    let st2 = table.fold_left(st1, step_enumval(cl, ty, names));
    lw_line(st2, lit("];"@))
}

/// The rendered type names of the variant keys of a map.
pub open spec fn rendered_names<T>(sets: Seq<(String, T)>) -> Seq<Seq<u8>> {
    Seq::new(sets.len(), |i: int| spec_type_name(encode_utf8(sets[i].0@)))
}

/// Whether the rendered type names of the variant keys are pairwise
/// distinct, as the variants of one Rust enum must be.
pub open spec fn rendered_distinct<T>(sets: Seq<(String, T)>) -> bool {
    forall|i: int, j: int|
        0 <= i < j < sets.len() ==> spec_type_name(encode_utf8((#[trigger] sets[i]).0@))
            != spec_type_name(encode_utf8((#[trigger] sets[j]).0@))
}

impl Writer {
    /// Write an enum-valued range table under the given constant name.
    pub(crate) fn ranges_to_enum_slice(
        &mut self,
        name: &Vec<u8>,
        enum_ty: &Vec<u8>,
        table: &Vec<(u32, u32, u64)>,
        names: &Vec<Vec<u8>>,
    )
        requires
            forall|i: int| 0 <= i < table@.len() ==> (#[trigger] table@[i]).2 < names@.len(),
        ensures
            final(self)@ == (WriterState {
                lw: spec_enum_slice(
                    old(self)@.lw,
                    name@,
                    enum_ty@,
                    table@,
                    Seq::new(names@.len(), |q: int| names@[q]@),
                    old(self)@.opts.char_literals,
                ),
                ..old(self)@
            }),
    {
        let ghost nview = Seq::new(names@.len(), |q: int| names@[q]@);
        let cl = self.opts.char_literals;
        let ty = self.rust_codepoint_type();
        let mut decl: Vec<u8> = Vec::new();
        extend_bytes(&mut decl, "pub const ".as_bytes());
        extend_bytes_vec(&mut decl, name);
        extend_bytes(&mut decl, ": &'static [(".as_bytes());
        extend_bytes(&mut decl, ty.as_bytes());
        extend_bytes(&mut decl, ", ".as_bytes());
        extend_bytes(&mut decl, ty.as_bytes());
        extend_bytes(&mut decl, ", ".as_bytes());
        extend_bytes_vec(&mut decl, enum_ty);
        extend_bytes(&mut decl, ")] = &[".as_bytes());
        self.wtr.write_line(decl.as_slice());
        let ghost st1 = self@.lw;
        let ghost stp = step_enumval(cl, enum_ty@, nview);
        let mut i: usize = 0;
        proof {
            assert(table@.take(0) =~= Seq::<(u32, u32, u64)>::empty());
        }
        while i < table.len()
            invariant
                i <= table@.len(),
                cl == old(self)@.opts.char_literals,
                forall|q: int| 0 <= q < table@.len() ==> (#[trigger] table@[q]).2 < names@.len(),
                nview == Seq::new(names@.len(), |q: int| names@[q]@),
                stp == step_enumval(cl, enum_ty@, nview),
                self.wrote_header == old(self).wrote_header,
                self.opts == old(self).opts,
                self.artifacts == old(self).artifacts,
                self@.lw == table@.take(i as int).fold_left(st1, stp),
            decreases table@.len() - i,
        {
            let (s, e, v) = table[i];
            let sa = rust_codepoint_bytes(cl, s);
            let sb = rust_codepoint_bytes(cl, e);
            proof {
                assert(table@[i as int] == (s, e, v));
            }
            if let (Some(a), Some(b)) = (sa, sb) {
                let nlen = names.len();
                proof {
                    assert(v < nlen);
                }
                let mut tok: Vec<u8> = Vec::new();
                extend_bytes(&mut tok, "(".as_bytes());
                extend_bytes_vec(&mut tok, &a);
                extend_bytes(&mut tok, ", ".as_bytes());
                extend_bytes_vec(&mut tok, &b);
                extend_bytes(&mut tok, ", ".as_bytes());
                extend_bytes_vec(&mut tok, enum_ty);
                extend_bytes(&mut tok, "::".as_bytes());
                extend_bytes_vec(&mut tok, &names[v as usize]);
                extend_bytes(&mut tok, "), ".as_bytes());
                proof {
                    assert(nview[v as int] == names@[v as int]@);
                    assert(tok@ =~= spec_enumval_entry(cl, enum_ty@, nview, (s, e, v)).unwrap());
                }
                self.wtr.write_str(tok.as_slice());
            }
            proof {
                assert(table@.take(i as int + 1).drop_last() =~= table@.take(i as int));
                assert(table@.take(i as int + 1).fold_left(st1, stp) == stp(
                    table@.take(i as int).fold_left(st1, stp),
                    (s, e, v),
                ));
            }
            i = i + 1;
        }
        proof {
            assert(table@.take(table@.len() as int) =~= table@);
        }
        self.wtr.write_line("];".as_bytes());
    }

    /// Write an enumerated range table: the sorted list of variant
    /// names, then a map from codepoint ranges to the variant index,
    /// merged from the variant sets and compressed into minimal runs.
    pub fn ranges_to_enum(&mut self, name: &str, enum_map: &Vec<(String, Vec<u32>)>) -> (r: Result<
        (),
        Error,
    >)
        requires
            str_keys_sorted(enum_map@),
            all_increasing(enum_map@),
            sets_disjoint(enum_map@),
        ensures
            exists|m: Seq<(u32, u64)>|
                {
                    let mid = spec_after_enum_list(
                        old(self)@,
                        spec_const_name(name.spec_bytes()),
                        enum_map@,
                    );
                    #[trigger] merged_rel(enum_map@, m) && (!old(self)@.opts.fst ==> r == Ok::<
                        (),
                        Error,
                    >(()) && (exists|runs: Seq<(u32, u32, u64)>|
                        runs_val_wf(runs) && expand_runs_val(runs) == m && final(self)@
                            == (WriterState {
                            lw: spec_uint_slice(
                                spec_start(mid).lw,
                                spec_const_name(name.spec_bytes()),
                                runs,
                                old(self)@.opts.char_literals,
                            ),
                            ..spec_start(mid)
                        }))) && (old(self)@.opts.fst ==> r == Ok::<(), Error>(())
                        && final(self)@ == spec_after_fst(
                        mid,
                        spec_const_name(name.spec_bytes()),
                        fst_map_bytes(spec_cp_pairs(m)),
                        true,
                    ))
                },
    {
        self.start();
        let cname = const_name_bytes(name.as_bytes());
        let mut decl: Vec<u8> = Vec::new();
        extend_bytes(&mut decl, "pub const ".as_bytes());
        extend_bytes_vec(&mut decl, &cname);
        extend_bytes(&mut decl, "_ENUM: &'static [&'static str] = &[".as_bytes());
        self.wtr.write_line(decl.as_slice());
        let ghost s0 = spec_start(old(self)@);
        let ghost st1 = self@.lw;
        let mut i: usize = 0;
        proof {
            assert(enum_map@.take(0) =~= Seq::<(String, Vec<u32>)>::empty());
        }
        while i < enum_map.len()
            invariant
                i <= enum_map@.len(),
                self@.wrote_header == s0.wrote_header,
                self@.opts == s0.opts,
                self@.artifacts == s0.artifacts,
                self@.lw == enum_map@.take(i as int).fold_left(st1, step_variant()),
            decreases enum_map@.len() - i,
        {
            proof {
                vstd::utf8::encode_utf8_valid_utf8(enum_map@[i as int].0@);
            }
            let mut tok = str_debug(enum_map[i].0.as_str().as_bytes());
            extend_bytes(&mut tok, ", ".as_bytes());
            proof {
                assert(tok@ =~= str_debug_text(encode_utf8(enum_map@[i as int].0@)) + lit(", "@));
            }
            self.wtr.write_str(tok.as_slice());
            proof {
                assert(enum_map@.take(i as int + 1).drop_last() =~= enum_map@.take(i as int));
                assert(enum_map@.take(i as int + 1).fold_left(st1, step_variant()) == step_variant()(
                    enum_map@.take(i as int).fold_left(st1, step_variant()),
                    enum_map@[i as int],
                ));
            }
            i = i + 1;
        }
        proof {
            assert(enum_map@.take(enum_map@.len() as int) =~= enum_map@);
        }
        self.wtr.write_line("];".as_bytes());
        let merged = merge_sets(enum_map);
        let r = self.ranges_to_unsigned_integer(name, &merged);
        proof {
            assert(merged_rel(enum_map@, merged@));
        }
        r
    }

    /// Write a map from codepoint ranges to the variants of a Rust
    /// enum: the enum declaration, then a range table over the variant,
    /// with adjacent ranges of the same variant merged.
    pub fn ranges_to_rust_enum(
        &mut self,
        name: &str,
        variants: &Vec<String>,
        enum_map: &Vec<(String, Vec<u32>)>,
    ) -> (r: Result<(), Error>)
        requires
            str_keys_sorted(enum_map@),
            all_increasing(enum_map@),
            sets_disjoint(enum_map@),
            rendered_distinct(enum_map@),
        ensures
            r == Ok::<(), Error>(()),
            exists|m: Seq<(u32, u64)>, runs: Seq<(u32, u32, u64)>|
                #![trigger merged_rel(enum_map@, m), runs_val_wf(runs)]
                {
                    let mid = spec_after_rust_enum_decl(
                        old(self)@,
                        spec_type_name(name.spec_bytes()),
                        variants@,
                    );
                    merged_rel(enum_map@, m) && runs_val_wf(runs) && expand_runs_val(
                        runs,
                    ) == m && (forall|q: int|
                        0 <= q < runs.len() ==> (#[trigger] runs[q]).2 < enum_map@.len())
                        && final(self)@ == (WriterState {
                        lw: spec_enum_slice(
                            mid.lw,
                            name.spec_bytes(),
                            spec_type_name(name.spec_bytes()),
                            runs,
                            rendered_names(enum_map@),
                            old(self)@.opts.char_literals,
                        ),
                        ..mid
                    })
                },
    {
        self.start();
        self.wtr.write_line("#[derive(Clone, Copy, Debug, Hash, Eq, PartialEq)]".as_bytes());
        let ename = type_name_bytes(name.as_bytes());
        let mut decl: Vec<u8> = Vec::new();
        extend_bytes(&mut decl, "pub enum ".as_bytes());
        extend_bytes_vec(&mut decl, &ename);
        extend_bytes(&mut decl, " {".as_bytes());
        self.wtr.write_line(decl.as_slice());
        let ghost s0 = spec_start(old(self)@);
        let ghost st1 = self@.lw;
        let mut i: usize = 0;
        proof {
            assert(variants@.take(0) =~= Seq::<String>::empty());
        }
        while i < variants.len()
            invariant
                i <= variants@.len(),
                self@.wrote_header == s0.wrote_header,
                self@.opts == s0.opts,
                self@.artifacts == s0.artifacts,
                self@.lw == variants@.take(i as int).fold_left(st1, step_rust_variant()),
            decreases variants@.len() - i,
        {
            let mut tok = type_name_bytes(variants[i].as_str().as_bytes());
            extend_bytes(&mut tok, ", ".as_bytes());
            proof {
                assert(tok@ =~= spec_type_name(encode_utf8(variants@[i as int]@)) + lit(", "@));
            }
            self.wtr.write_str(tok.as_slice());
            proof {
                assert(variants@.take(i as int + 1).drop_last() =~= variants@.take(i as int));
                assert(variants@.take(i as int + 1).fold_left(st1, step_rust_variant())
                    == step_rust_variant()(
                    variants@.take(i as int).fold_left(st1, step_rust_variant()),
                    variants@[i as int],
                ));
            }
            i = i + 1;
        }
        proof {
            assert(variants@.take(variants@.len() as int) =~= variants@);
        }
        self.wtr.write_line("}\n".as_bytes());
        let merged = merge_sets(enum_map);
        let runs = to_range_values(&merged);
        let names = self.rendered_name_table(enum_map);
        proof {
            assert forall|q: int| 0 <= q < runs@.len() implies (#[trigger] runs@[q]).2
                < enum_map@.len() by {
                crate::intervals::lemma_expand_val_value(runs@, q);
                assert(merged@.contains((runs@[q].0, runs@[q].2)));
                let w = choose|w: int|
                    0 <= w < merged@.len() && merged@[w] == (runs@[q].0, runs@[q].2);
                assert(merged@[w].1 < enum_map@.len());
            }
            assert(merged_rel(enum_map@, merged@));
        }
        let mut cname: Vec<u8> = Vec::new();
        extend_bytes(&mut cname, name.as_bytes());
        proof {
            assert(Seq::new(names@.len(), |q: int| names@[q]@) =~= rendered_names(enum_map@));
        }
        self.ranges_to_enum_slice(&cname, &ename, &runs, &names);
        Ok(())
    }

    /// Write a map from codepoint ranges to the variants of a Rust enum
    /// with caller-supplied explicit discriminants.
    pub fn ranges_to_rust_enum_with_custom_discriminants(
        &mut self,
        name: &str,
        variants_map: &Vec<(isize, String)>,
        enum_map: &Vec<(String, Vec<u32>)>,
    ) -> (r: Result<(), Error>)
        requires
            forall|i: int, j: int|
                0 <= i < j < variants_map@.len() ==> (#[trigger] variants_map@[i]).0 < (
                #[trigger] variants_map@[j]).0,
            str_keys_sorted(enum_map@),
            all_increasing(enum_map@),
            sets_disjoint(enum_map@),
            rendered_distinct(enum_map@),
        ensures
            r == Ok::<(), Error>(()),
            exists|m: Seq<(u32, u64)>, runs: Seq<(u32, u32, u64)>|
                #![trigger merged_rel(enum_map@, m), runs_val_wf(runs)]
                {
                    let mid = spec_after_disc_enum_decl(
                        old(self)@,
                        spec_type_name(name.spec_bytes()),
                        variants_map@,
                    );
                    merged_rel(enum_map@, m) && runs_val_wf(runs) && expand_runs_val(
                        runs,
                    ) == m && (forall|q: int|
                        0 <= q < runs.len() ==> (#[trigger] runs[q]).2 < enum_map@.len())
                        && final(self)@ == (WriterState {
                        lw: spec_enum_slice(
                            mid.lw,
                            name.spec_bytes(),
                            spec_type_name(name.spec_bytes()),
                            runs,
                            rendered_names(enum_map@),
                            old(self)@.opts.char_literals,
                        ),
                        ..mid
                    })
                },
    {
        self.start();
        self.wtr.write_line(
            "#[derive(Clone, Copy, Debug, Hash, Eq, PartialEq, Ord, PartialOrd)]".as_bytes(),
        );
        let ename = type_name_bytes(name.as_bytes());
        let mut decl: Vec<u8> = Vec::new();
        extend_bytes(&mut decl, "pub enum ".as_bytes());
        extend_bytes_vec(&mut decl, &ename);
        extend_bytes(&mut decl, " {".as_bytes());
        self.wtr.write_line(decl.as_slice());
        let ghost s0 = spec_start(old(self)@);
        let ghost st1 = self@.lw;
        let mut i: usize = 0;
        proof {
            assert(variants_map@.take(0) =~= Seq::<(isize, String)>::empty());
        }
        while i < variants_map.len()
            invariant
                i <= variants_map@.len(),
                self@.wrote_header == s0.wrote_header,
                self@.opts == s0.opts,
                self@.artifacts == s0.artifacts,
                self@.lw == variants_map@.take(i as int).fold_left(st1, step_disc_variant()),
            decreases variants_map@.len() - i,
        {
            let mut tok = type_name_bytes(variants_map[i].1.as_str().as_bytes());
            extend_bytes(&mut tok, " = ".as_bytes());
            let d = dec_isize(variants_map[i].0);
            extend_bytes_vec(&mut tok, &d);
            extend_bytes(&mut tok, ", ".as_bytes());
            proof {
                assert(tok@ =~= spec_type_name(encode_utf8(variants_map@[i as int].1@)) + lit(
                    " = "@,
                ) + spec_dec_i(variants_map@[i as int].0 as int) + lit(", "@));
            }
            self.wtr.write_str(tok.as_slice());
            proof {
                assert(variants_map@.take(i as int + 1).drop_last() =~= variants_map@.take(
                    i as int,
                ));
                assert(variants_map@.take(i as int + 1).fold_left(st1, step_disc_variant())
                    == step_disc_variant()(
                    variants_map@.take(i as int).fold_left(st1, step_disc_variant()),
                    variants_map@[i as int],
                ));
            }
            i = i + 1;
        }
        proof {
            assert(variants_map@.take(variants_map@.len() as int) =~= variants_map@);
        }
        self.wtr.write_line("}\n".as_bytes());
        let merged = merge_sets(enum_map);
        let runs = to_range_values(&merged);
        let names = self.rendered_name_table(enum_map);
        proof {
            assert forall|q: int| 0 <= q < runs@.len() implies (#[trigger] runs@[q]).2
                < enum_map@.len() by {
                crate::intervals::lemma_expand_val_value(runs@, q);
                assert(merged@.contains((runs@[q].0, runs@[q].2)));
                let w = choose|w: int|
                    0 <= w < merged@.len() && merged@[w] == (runs@[q].0, runs@[q].2);
                assert(merged@[w].1 < enum_map@.len());
            }
            assert(merged_rel(enum_map@, merged@));
        }
        let mut cname: Vec<u8> = Vec::new();
        extend_bytes(&mut cname, name.as_bytes());
        proof {
            assert(Seq::new(names@.len(), |q: int| names@[q]@) =~= rendered_names(enum_map@));
        }
        self.ranges_to_enum_slice(&cname, &ename, &runs, &names);
        Ok(())
    }

    /// The rendered type names of the variant keys, as a table the run
    /// values index into.
    fn rendered_name_table(&self, enum_map: &Vec<(String, Vec<u32>)>) -> (r: Vec<Vec<u8>>)
        ensures
            r@.len() == enum_map@.len(),
            forall|q: int|
                0 <= q < enum_map@.len() ==> (#[trigger] r@[q])@ == spec_type_name(
                    encode_utf8(enum_map@[q].0@),
                ),
    {
        let mut names: Vec<Vec<u8>> = Vec::new();
        let mut i: usize = 0;
        while i < enum_map.len()
            invariant
                i <= enum_map@.len(),
                names@.len() == i,
                forall|q: int|
                    0 <= q < i ==> (#[trigger] names@[q])@ == spec_type_name(
                        encode_utf8(enum_map@[q].0@),
                    ),
            decreases enum_map@.len() - i,
        {
            let n = type_name_bytes(enum_map[i].0.as_str().as_bytes());
            names.push(n);
            i = i + 1;
        }
        names
    }

    /// Write the combined codepoint set of all variants: the ordered,
    /// duplicate-free union, under the configured set backend.
    pub fn ranges_to_combined(&mut self, name: &str, enum_map: &Vec<(String, Vec<u32>)>) -> (r:
        Result<(), Error>)
        requires
            all_increasing(enum_map@),
            sets_disjoint(enum_map@),
        ensures
            exists|u: Seq<u32>|
                #![trigger strictly_increasing(u)]
                {
                    strictly_increasing(u) && (forall|cp: u32|
                        #[trigger] u.contains(cp) <==> exists|j: int|
                            0 <= j < enum_map@.len() && (#[trigger] enum_map@[j]).1@.contains(cp))
                        && (!old(self)@.opts.fst && !old(self)@.opts.trie_set ==> r == Ok::<
                        (),
                        Error,
                    >(()) && (exists|runs: Seq<(u32, u32)>|
                        crate::intervals::runs_wf(runs) && crate::intervals::expand_runs(runs) == u
                            && final(self)@ == (WriterState {
                            lw: crate::writer_sets::spec_ranges_slice(
                                spec_start(old(self)@).lw,
                                spec_const_name(name.spec_bytes()),
                                runs,
                                old(self)@.opts.char_literals,
                            ),
                            ..spec_start(old(self)@)
                        }))) && (old(self)@.opts.fst ==> r == Ok::<(), Error>(())
                        && final(self)@ == spec_after_fst(
                        old(self)@,
                        spec_const_name(name.spec_bytes()),
                        crate::fstio::fst_set_bytes(crate::writer_sets::spec_set_keys(u)),
                        false,
                    )) && (!old(self)@.opts.fst && old(self)@.opts.trie_set
                        && crate::trie::trie_builds(u.to_set()) ==> r == Ok::<(), Error>(())
                        && final(self)@ == (WriterState {
                        lw: crate::writer_sets::spec_trie_emit(
                            spec_start(old(self)@).lw,
                            spec_const_name(name.spec_bytes()),
                            crate::trie::trie_levels_of(u.to_set()),
                        ),
                        ..spec_start(old(self)@)
                    })) && (!old(self)@.opts.fst && old(self)@.opts.trie_set
                        && !crate::trie::trie_builds(u.to_set()) ==> r == Err::<(), Error>(
                        Error::TrieBuild,
                    ) && final(self)@ == spec_start(old(self)@))
                },
    {
        let merged = merge_sets(enum_map);
        let mut union: Vec<u32> = Vec::new();
        let mut i: usize = 0;
        while i < merged.len()
            invariant
                i <= merged@.len(),
                union@.len() == i,
                forall|q: int| 0 <= q < i ==> #[trigger] union@[q] == merged@[q].0,
            decreases merged@.len() - i,
        {
            union.push(merged[i].0);
            i = i + 1;
        }
        proof {
            assert(strictly_increasing(union@));
            assert forall|cp: u32| #[trigger] union@.contains(cp) implies exists|j: int|
                0 <= j < enum_map@.len() && (#[trigger] enum_map@[j]).1@.contains(cp) by {
                let q = choose|q: int| 0 <= q < union@.len() && union@[q] == cp;
                assert(merged@[q].0 == cp);
                assert(merged@[q].1 < enum_map@.len() && enum_map@[merged@[q].1 as int].1@.contains(
                    cp,
                ));
            }
            assert forall|cp: u32|
                (exists|j: int| 0 <= j < enum_map@.len() && (#[trigger] enum_map@[j]).1@.contains(
                    cp,
                )) implies #[trigger] union@.contains(cp) by {
                let j = choose|j: int|
                    0 <= j < enum_map@.len() && (#[trigger] enum_map@[j]).1@.contains(cp);
                let t = choose|t: int|
                    0 <= t < enum_map@[j].1@.len() && enum_map@[j].1@[t] == cp;
                assert(merged@.contains((enum_map@[j].1@[t], j as u64)));
                let w = choose|w: int|
                    0 <= w < merged@.len() && merged@[w] == (enum_map@[j].1@[t], j as u64);
                assert(union@[w] == cp);
            }
        }
        self.ranges(name, &union)
    }
}

} // verus!

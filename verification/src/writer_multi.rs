//! Emission of one-to-many codepoint maps, the function-style
//! codepoint map, and the nested string map.

use vstd::prelude::*;
use vstd::string::StringSliceAdditionalSpecFns;
use vstd::utf8::encode_utf8;

use crate::errors::Error;
use crate::ident::{const_name_bytes, fn_name_bytes, spec_const_name, spec_fn_name};
use crate::intervals::keys_increasing;
use crate::line::{lw_flush, lw_line, lw_token, LwState};
use crate::render::{
    extend_bytes, extend_bytes_vec, lit, rust_codepoint_bytes, spec_codepoint, spec_dec,
    str_debug, str_debug_text,
};
use crate::writer::{spec_cp_type, spec_start, Writer, WriterState};
use crate::writer_maps::step_s2s;

verus! {

/// The padding codepoint of the flat fixed-width table: NUL under
/// `char` literals, the all-ones pattern otherwise.
pub open spec fn spec_padding(cl: bool) -> u32 {
    if cl {
        0
    } else {
        0xFFFFFFFFu32
    }
}

/// A value list padded (or cut) to exactly three entries.
pub open spec fn spec_padded(s: Seq<u32>, p: u32) -> Seq<u32> {
    if s.len() >= 3 {
        s.take(3)
    } else {
        s + Seq::new((3 - s.len()) as nat, |i: int| p)
    }
}

/// The error that the flat fixed-width form reports for one entry, if
/// any: too many values, or a value colliding with the padding sentinel.
/// An entry whose key cannot be rendered is skipped and reports none.
pub open spec fn spec_flat_err(cl: bool, e: (u32, Vec<u32>)) -> Option<Error> {
    if spec_codepoint(cl, e.0) is None {
        None
    } else if e.1@.len() > 3 {
        Some(Error::FlatTableTooManyValues)
    } else if e.1@.contains(spec_padding(cl)) {
        Some(Error::FlatTableSentinel)
    } else {
        None
    }
}

/// Whether every value of a list is renderable under the chosen style.
pub open spec fn all_renderable(cl: bool, vs: Seq<u32>) -> bool {
    forall|i: int| 0 <= i < vs.len() ==> spec_codepoint(cl, #[trigger] vs[i]) is Some
}

/// The fold step for one value token of a multi-value entry.
pub open spec fn step_c2cs_val(cl: bool) -> spec_fn(LwState, u32) -> LwState {
    |s: LwState, v: u32| lw_token(s, spec_codepoint(cl, v).unwrap() + lit(", "@))
}

/// The writer state after one entry of a one-to-many table: the key, the
/// (possibly padded) value list, and the closing bracket; an entry whose
/// key or values cannot be rendered is skipped whole.
pub open spec fn spec_c2cs_entry(cl: bool, flat: bool, s: LwState, e: (u32, Vec<u32>)) -> LwState {
    match spec_codepoint(cl, e.0) {
        None => s,
        Some(k) => {
            let vs = if flat {
                spec_padded(e.1@, spec_padding(cl))
            } else {
                e.1@
            };
            if !all_renderable(cl, vs) {
                s
            } else {
                let prefix = if flat {
                    Seq::<u8>::empty()
                } else {
                    lit("&"@)
                };
                let s1 = lw_token(s, lit("("@) + k + lit(", "@) + prefix + lit("["@));
                let s2 = if vs.len() == 1 {
                    lw_token(s1, spec_codepoint(cl, vs[0]).unwrap())
                } else {
                    vs.fold_left(s1, step_c2cs_val(cl))
                };
                lw_token(s2, lit("]), "@))
            }
        },
    }
}

/// The fold step for one entry of a one-to-many table.
pub open spec fn step_c2cs(cl: bool, flat: bool) -> spec_fn(LwState, (u32, Vec<u32>)) -> LwState {
    |s: LwState, e: (u32, Vec<u32>)| spec_c2cs_entry(cl, flat, s, e)
}

/// The declaration line of a one-to-many table: slice-valued, or flat
/// three-wide arrays.
pub open spec fn spec_c2cs_decl(name: Seq<u8>, cl: bool, flat: bool) -> Seq<u8> {
    if flat {
        lit("pub const "@) + name + lit(": &'static [("@) + spec_cp_type(cl) + lit(", ["@)
            + spec_cp_type(cl) + lit("; 3])] = &["@)
    } else {
        lit("pub const "@) + name + lit(": &'static [("@) + spec_cp_type(cl) + lit(
            ", &'static ["@,
        ) + spec_cp_type(cl) + lit("])] = &["@)
    }
}

/// The full text of a one-to-many table.
pub open spec fn spec_c2cs_emit(
    st: LwState,
    name: Seq<u8>,
    entries: Seq<(u32, Vec<u32>)>,
    cl: bool,
    flat: bool,
) -> LwState {
    let st1 = lw_line(st, spec_c2cs_decl(name, cl, flat));
    let st2 = entries.fold_left(st1, step_c2cs(cl, flat));
    lw_line(st2, lit("];"@))
}

/// The token of one arm of the function-style map, flushed onto its own
/// line.
pub open spec fn step_cpfn() -> spec_fn(LwState, (u32, u32)) -> LwState {
    |s: LwState, p: (u32, u32)|
        lw_flush(
            lw_token(
                s,
                spec_dec(p.0 as int) + lit(" => Some(NonZeroU32::new_unchecked("@) + spec_dec(
                    p.1 as int,
                ) + lit(")),"@),
            ),
        )
}

/// The full text of the function-style codepoint map: a `match` from
/// codepoint to non-zero codepoint, `None` on the fallback arm.
pub open spec fn spec_cpfn_emit(st: LwState, fname: Seq<u8>, pairs: Seq<(u32, u32)>) -> LwState {
    let s1 = lw_line(st, lit("use std::num::NonZeroU32;"@));
    let s2 = lw_line(s1, Seq::<u8>::empty());
    let s3 = lw_line(s2, lit("pub fn "@) + fname + lit("(cp: u32) -> Option<NonZeroU32> {"@));
    let s4 = LwState { indent: lit("    "@), ..s3 };
    let s5 = lw_flush(
        lw_token(
            s4,
            lit("// new_unchecked is safe: the generator checks that the destination"@),
        ),
    );
    let s6 = lw_flush(lw_token(s5, lit("// codepoint is non-zero at code generation time."@)));
    let s7 = lw_flush(lw_token(s6, lit("unsafe {"@)));
    let s8 = LwState { indent: lit("        "@), ..s7 };
    let s9 = lw_flush(lw_token(s8, lit("match cp {"@)));
    let s10 = LwState { indent: lit("            "@), ..s9 };
    let s11 = pairs.fold_left(s10, step_cpfn());
    let s12 = lw_flush(lw_token(s11, lit("_ => None,"@)));
    let s13 = LwState { indent: lit("        "@), ..s12 };
    let s14 = lw_flush(lw_token(s13, lit("}"@)));
    let s15 = LwState { indent: lit("    "@), ..s14 };
    let s16 = lw_flush(lw_token(s15, lit("}"@)));
    lw_line(s16, lit("}"@))
}

/// The writer state after one outer entry of the nested string map: a
/// blank line between entries, the outer key, its inner table, and the
/// closing bracket.
pub open spec fn spec_s3_entries(
    st: LwState,
    entries: Seq<(String, Vec<(String, String)>)>,
) -> LwState
    decreases entries.len(),
{
    if entries.len() == 0 {
        st
    } else {
        let st1 = spec_s3_entries(st, entries.drop_last());
        let st2 = if entries.len() > 1 {
            lw_line(st1, Seq::<u8>::empty())
        } else {
            st1
        };
        let e = entries.last();
        let st3 = lw_token(st2, lit("("@) + str_debug_text(encode_utf8(e.0@)) + lit(", &["@));
        let st4 = e.1@.fold_left(st3, step_s2s());
        lw_token(st4, lit("]), "@))
    }
}

/// The declaration line of the nested string map.
pub open spec fn spec_s3_decl(name: Seq<u8>) -> Seq<u8> {
    lit("pub const "@) + name + lit(
        ": &'static [(&'static str, &'static [(&'static str, &'static str)])] = &["@,
    )
}

/// Render every value of a list, or nothing if any value cannot be
/// rendered.
fn render_values(cl: bool, vs: &Vec<u32>) -> (r: Option<Vec<Vec<u8>>>)
    ensures
        r is Some <==> all_renderable(cl, vs@),
        r matches Some(ts) ==> ts@.len() == vs@.len() && forall|i: int|
            0 <= i < vs@.len() ==> (#[trigger] ts@[i])@ == spec_codepoint(cl, vs@[i]).unwrap(),
{
    let mut ts: Vec<Vec<u8>> = Vec::new();
    let mut i: usize = 0;
    while i < vs.len()
        invariant
            i <= vs@.len(),
            ts@.len() == i,
            forall|j: int| 0 <= j < i ==> spec_codepoint(cl, #[trigger] vs@[j]) is Some,
            forall|j: int|
                0 <= j < i ==> (#[trigger] ts@[j])@ == spec_codepoint(cl, vs@[j]).unwrap(),
        decreases vs@.len() - i,
    {
        match rust_codepoint_bytes(cl, vs[i]) {
            Some(t) => {
                ts.push(t);
            },
            None => {
                proof {
                    assert(spec_codepoint(cl, vs@[i as int]) is None);
                }
                return None;
            },
        }
        i = i + 1;
    }
    Some(ts)
}

/// Pad (or cut) a value list to exactly three entries.
fn padded_values(vs: &Vec<u32>, p: u32) -> (r: Vec<u32>)
    ensures
        r@ == spec_padded(vs@, p),
{
    let mut out: Vec<u32> = Vec::new();
    let mut i: usize = 0;
    while i < vs.len() && i < 3
        invariant
            i <= vs@.len(),
            i <= 3,
            out@ == vs@.take(i as int),
        decreases vs@.len() - i,
    {
        let ghost before = out@;
        out.push(vs[i]);
        proof {
            assert(out@ =~= vs@.take(i as int + 1));
        }
        i = i + 1;
    }
    while out.len() < 3
        invariant
            out@.len() <= 3,
            vs@.len() >= 3 ==> out@ == vs@.take(3),
            vs@.len() < 3 ==> out@.len() >= vs@.len() && out@ == vs@ + Seq::new(
                (out@.len() - vs@.len()) as nat,
                |k: int| p,
            ),
        decreases 3 - out@.len(),
    {
        let ghost before = out@;
        out.push(p);
        proof {
            if vs@.len() < 3 {
                assert(out@ =~= vs@ + Seq::new((out@.len() - vs@.len()) as nat, |k: int| p));
            }
        }
    }
    proof {
        if vs@.len() >= 3 {
            assert(out@ == spec_padded(vs@, p));
        } else {
            assert(out@ =~= spec_padded(vs@, p));
        }
    }
    out
}

impl Writer {
    /// Write a one-to-many codepoint map as a literal table: each key
    /// with a slice of its values, or, in flat mode, with a fixed
    /// three-wide array padded by the reserved sentinel.  Flat mode is
    /// refused, before anything is written, for a value list of more
    /// than three entries or one that contains the sentinel itself; the
    /// transducer backend cannot hold a one-to-many map at all.
    pub fn codepoint_to_codepoints(
        &mut self,
        name: &str,
        map: &Vec<(u32, Vec<u32>)>,
        emit_flat_table: bool,
    ) -> (r: Result<(), Error>)
        requires
            keys_increasing(map@),
        ensures
            old(self)@.opts.fst ==> r == Err::<(), Error>(Error::FstCodepointsMap) && *final(self)
                == *old(self),
            !old(self)@.opts.fst && emit_flat_table && (exists|i: int|
                0 <= i < map@.len() && spec_flat_err(
                    old(self)@.opts.char_literals,
                    #[trigger] map@[i],
                ) is Some) ==> (exists|i: int|
                0 <= i < map@.len() && (#[trigger] spec_flat_err(
                    old(self)@.opts.char_literals,
                    map@[i],
                )) is Some && (forall|j: int|
                    0 <= j < i ==> spec_flat_err(
                        old(self)@.opts.char_literals,
                        #[trigger] map@[j],
                    ) is None) && r == Err::<(), Error>(
                    spec_flat_err(old(self)@.opts.char_literals, map@[i]).unwrap(),
                )) && *final(self) == *old(self),
            !old(self)@.opts.fst && (!emit_flat_table || (forall|i: int|
                0 <= i < map@.len() ==> spec_flat_err(
                    old(self)@.opts.char_literals,
                    #[trigger] map@[i],
                ) is None)) ==> r == Ok::<(), Error>(()) && final(self)@ == (WriterState {
                lw: spec_c2cs_emit(
                    spec_start(old(self)@).lw,
                    spec_const_name(name.spec_bytes()),
                    map@,
                    old(self)@.opts.char_literals,
                    emit_flat_table,
                ),
                ..spec_start(old(self)@)
            }),
    {
        if self.opts.fst {
            return Err(Error::FstCodepointsMap);
        }
        let cl = self.opts.char_literals;
        if emit_flat_table {
            let mut i: usize = 0;
            while i < map.len()
                invariant
                    i <= map@.len(),
                    cl == self@.opts.char_literals,
                    !old(self)@.opts.fst,
                    emit_flat_table,
                    *self == *old(self),
                    forall|j: int| 0 <= j < i ==> spec_flat_err(cl, #[trigger] map@[j]) is None,
                decreases map@.len() - i,
            {
                let keyable = rust_codepoint_bytes(cl, map[i].0);
                if keyable.is_some() {
                    let vs = &map[i].1;
                    if vs.len() > 3 {
                        proof {
                            let ocl = old(self)@.opts.char_literals;
                            assert(ocl == cl);
                            assert(spec_codepoint(ocl, map@[i as int].0) is Some);
                            assert(spec_flat_err(ocl, map@[i as int]) == Some(
                                Error::FlatTableTooManyValues,
                            ));
                            assert(forall|j: int|
                                0 <= j < i ==> spec_flat_err(ocl, #[trigger] map@[j]) is None);
                        }
                        return Err(Error::FlatTableTooManyValues);
                    }
                    let pad = if cl {
                        0u32
                    } else {
                        0xFFFFFFFFu32
                    };
                    let mut j: usize = 0;
                    let mut hit = false;
                    while j < vs.len()
                        invariant
                            j <= vs@.len(),
                            vs@ == map@[i as int].1@,
                            pad == spec_padding(cl),
                            hit == exists|k: int| 0 <= k < j && vs@[k] == spec_padding(cl),
                        decreases vs@.len() - j,
                    {
                        if vs[j] == pad {
                            hit = true;
                        }
                        j = j + 1;
                    }
                    if hit {
                        proof {
                            let ocl = old(self)@.opts.char_literals;
                            assert(ocl == cl);
                            assert(vs@.contains(spec_padding(ocl)));
                            assert(spec_codepoint(ocl, map@[i as int].0) is Some);
                            assert(spec_flat_err(ocl, map@[i as int]) == Some(
                                Error::FlatTableSentinel,
                            ));
                            assert(forall|j: int|
                                0 <= j < i ==> spec_flat_err(ocl, #[trigger] map@[j]) is None);
                        }
                        return Err(Error::FlatTableSentinel);
                    }
                    proof {
                        assert(!map@[i as int].1@.contains(spec_padding(cl)));
                        assert(spec_flat_err(cl, map@[i as int]) is None);
                    }
                } else {
                    proof {
                        assert(spec_flat_err(cl, map@[i as int]) is None);
                    }
                }
                i = i + 1;
            }
        }
        self.start();
        let cname = const_name_bytes(name.as_bytes());
        let ty = self.rust_codepoint_type();
        let mut decl: Vec<u8> = Vec::new();
        extend_bytes(&mut decl, "pub const ".as_bytes());
        extend_bytes_vec(&mut decl, &cname);
        extend_bytes(&mut decl, ": &'static [(".as_bytes());
        extend_bytes(&mut decl, ty.as_bytes());
        if emit_flat_table {
            extend_bytes(&mut decl, ", [".as_bytes());
            extend_bytes(&mut decl, ty.as_bytes());
            extend_bytes(&mut decl, "; 3])] = &[".as_bytes());
        } else {
            extend_bytes(&mut decl, ", &'static [".as_bytes());
            extend_bytes(&mut decl, ty.as_bytes());
            extend_bytes(&mut decl, "])] = &[".as_bytes());
        }
        proof {
            assert(decl@ =~= spec_c2cs_decl(spec_const_name(name.spec_bytes()), cl, emit_flat_table));
        }
        self.wtr.write_line(decl.as_slice());
        let ghost s0 = spec_start(old(self)@);
        let ghost st1 = self@.lw;
        let mut i: usize = 0;
        proof {
            assert(map@.take(0) =~= Seq::<(u32, Vec<u32>)>::empty());
        }
        while i < map.len()
            invariant
                i <= map@.len(),
                cl == old(self)@.opts.char_literals,
                self@.wrote_header == s0.wrote_header,
                self@.opts == s0.opts,
                self@.artifacts == s0.artifacts,
                s0 == spec_start(old(self)@),
                self@.lw == map@.take(i as int).fold_left(st1, step_c2cs(cl, emit_flat_table)),
            decreases map@.len() - i,
        {
            let k = map[i].0;
            let kr = rust_codepoint_bytes(cl, k);
            if let Some(kb) = kr {
                let padded: Vec<u32>;
                if emit_flat_table {
                    let pad = if cl {
                        0u32
                    } else {
                        0xFFFFFFFFu32
                    };
                    padded = padded_values(&map[i].1, pad);
                } else {
                    let mut c: Vec<u32> = Vec::new();
                    let vs = &map[i].1;
                    let mut j: usize = 0;
                    while j < vs.len()
                        invariant
                            j <= vs@.len(),
                            vs@ == map@[i as int].1@,
                            c@ == vs@.take(j as int),
                        decreases vs@.len() - j,
                    {
                        c.push(vs[j]);
                        proof {
                            assert(c@ =~= vs@.take(j as int + 1));
                        }
                        j = j + 1;
                    }
                    proof {
                        assert(vs@.take(vs@.len() as int) =~= vs@);
                    }
                    padded = c;
                }
                let ghost vsv = if emit_flat_table {
                    spec_padded(map@[i as int].1@, spec_padding(cl))
                } else {
                    map@[i as int].1@
                };
                proof {
                    assert(padded@ == vsv);
                }
                if let Some(ts) = render_values(cl, &padded) {
                    let mut tok: Vec<u8> = Vec::new();
                    extend_bytes(&mut tok, "(".as_bytes());
                    extend_bytes_vec(&mut tok, &kb);
                    extend_bytes(&mut tok, ", ".as_bytes());
                    if !emit_flat_table {
                        extend_bytes(&mut tok, "&".as_bytes());
                    }
                    extend_bytes(&mut tok, "[".as_bytes());
                    proof {
                        let prefix = if emit_flat_table {
                            Seq::<u8>::empty()
                        } else {
                            lit("&"@)
                        };
                        assert(tok@ =~= lit("("@) + spec_codepoint(cl, k).unwrap() + lit(", "@)
                            + prefix + lit("["@));
                    }
                    self.wtr.write_str(tok.as_slice());
                    let ghost sv1 = self@.lw;
                    if ts.len() == 1 {
                        self.wtr.write_str(ts[0].as_slice());
                        proof {
                            assert(ts@[0]@ == spec_codepoint(cl, vsv[0]).unwrap());
                        }
                    } else {
                        let mut j: usize = 0;
                        proof {
                            assert(vsv.take(0) =~= Seq::<u32>::empty());
                        }
                        while j < ts.len()
                            invariant
                                j <= ts@.len(),
                                ts@.len() == vsv.len(),
                                all_renderable(cl, vsv),
                                forall|q: int|
                                    0 <= q < vsv.len() ==> (#[trigger] ts@[q])@ == spec_codepoint(
                                        cl,
                                        vsv[q],
                                    ).unwrap(),
                                cl == old(self)@.opts.char_literals,
                                self@.wrote_header == s0.wrote_header,
                                self@.opts == s0.opts,
                                self@.artifacts == s0.artifacts,
                                self@.lw == vsv.take(j as int).fold_left(sv1, step_c2cs_val(cl)),
                            decreases ts@.len() - j,
                        {
                            let mut vt: Vec<u8> = Vec::new();
                            extend_bytes_vec(&mut vt, &ts[j]);
                            extend_bytes(&mut vt, ", ".as_bytes());
                            proof {
                                assert(vt@ =~= spec_codepoint(cl, vsv[j as int]).unwrap() + lit(
                                    ", "@,
                                ));
                            }
                            self.wtr.write_str(vt.as_slice());
                            proof {
                                assert(vsv.take(j as int + 1).drop_last() =~= vsv.take(j as int));
                                assert(vsv.take(j as int + 1).fold_left(sv1, step_c2cs_val(cl))
                                    == step_c2cs_val(cl)(
                                    vsv.take(j as int).fold_left(sv1, step_c2cs_val(cl)),
                                    vsv[j as int],
                                ));
                            }
                            j = j + 1;
                        }
                        proof {
                            assert(vsv.take(vsv.len() as int) =~= vsv);
                        }
                    }
                    self.wtr.write_str("]), ".as_bytes());
                }
            }
            proof {
                assert(map@.take(i as int + 1).drop_last() =~= map@.take(i as int));
                assert(map@.take(i as int + 1).fold_left(st1, step_c2cs(cl, emit_flat_table))
                    == step_c2cs(cl, emit_flat_table)(
                    map@.take(i as int).fold_left(st1, step_c2cs(cl, emit_flat_table)),
                    map@[i as int],
                ));
            }
            i = i + 1;
        }
        proof {
            assert(map@.take(map@.len() as int) =~= map@);
        }
        self.wtr.write_line("];".as_bytes());
        Ok(())
    }

    /// Write a one-to-many codepoint map given with ordered,
    /// duplicate-free value sets; the transducer backend is rejected
    /// before anything is written.
    pub fn multi_codepoint_to_codepoint(
        &mut self,
        name: &str,
        map: &Vec<(u32, Vec<u32>)>,
        emit_flat_table: bool,
    ) -> (r: Result<(), Error>)
        requires
            keys_increasing(map@),
        ensures
            old(self)@.opts.fst ==> r == Err::<(), Error>(Error::FstMultiMap) && *final(self)
                == *old(self),
            !old(self)@.opts.fst && emit_flat_table && (exists|i: int|
                0 <= i < map@.len() && spec_flat_err(
                    old(self)@.opts.char_literals,
                    #[trigger] map@[i],
                ) is Some) ==> (exists|i: int|
                0 <= i < map@.len() && (#[trigger] spec_flat_err(
                    old(self)@.opts.char_literals,
                    map@[i],
                )) is Some && (forall|j: int|
                    0 <= j < i ==> spec_flat_err(
                        old(self)@.opts.char_literals,
                        #[trigger] map@[j],
                    ) is None) && r == Err::<(), Error>(
                    spec_flat_err(old(self)@.opts.char_literals, map@[i]).unwrap(),
                )) && *final(self) == *old(self),
            !old(self)@.opts.fst && (!emit_flat_table || (forall|i: int|
                0 <= i < map@.len() ==> spec_flat_err(
                    old(self)@.opts.char_literals,
                    #[trigger] map@[i],
                ) is None)) ==> r == Ok::<(), Error>(()) && final(self)@ == (WriterState {
                lw: spec_c2cs_emit(
                    spec_start(old(self)@).lw,
                    spec_const_name(name.spec_bytes()),
                    map@,
                    old(self)@.opts.char_literals,
                    emit_flat_table,
                ),
                ..spec_start(old(self)@)
            }),
    {
        if self.opts.fst {
            return Err(Error::FstMultiMap);
        }
        self.codepoint_to_codepoints(name, map, emit_flat_table)
    }

    /// Write a function from codepoint to codepoint as a Rust `match`
    /// over non-zero destinations.  A zero destination cannot be
    /// represented and fails the call before anything is written.
    pub fn codepoint_to_codepoint_fn(&mut self, name: &str, map: &Vec<(u32, u32)>) -> (r: Result<
        (),
        Error,
    >)
        requires
            keys_increasing(map@),
        ensures
            (exists|i: int| 0 <= i < map@.len() && (#[trigger] map@[i]).1 == 0) ==> r == Err::<
                (),
                Error,
            >(Error::ZeroDestination) && *final(self) == *old(self),
            (forall|i: int| 0 <= i < map@.len() ==> (#[trigger] map@[i]).1 != 0) ==> r == Ok::<
                (),
                Error,
            >(()) && final(self)@ == (WriterState {
                lw: spec_cpfn_emit(
                    spec_start(old(self)@).lw,
                    spec_fn_name(name.spec_bytes()),
                    map@,
                ),
                ..spec_start(old(self)@)
            }),
    {
        let mut i: usize = 0;
        while i < map.len()
            invariant
                i <= map@.len(),
                *self == *old(self),
                forall|j: int| 0 <= j < i ==> (#[trigger] map@[j]).1 != 0,
            decreases map@.len() - i,
        {
            if map[i].1 == 0 {
                return Err(Error::ZeroDestination);
            }
            i = i + 1;
        }
        self.start();
        self.wtr.write_line("use std::num::NonZeroU32;".as_bytes());
        self.separator();
        let fname = fn_name_bytes(name.as_bytes());
        let mut decl: Vec<u8> = Vec::new();
        extend_bytes(&mut decl, "pub fn ".as_bytes());
        extend_bytes_vec(&mut decl, &fname);
        extend_bytes(&mut decl, "(cp: u32) -> Option<NonZeroU32> {".as_bytes());
        self.wtr.write_line(decl.as_slice());
        self.wtr.indent("    ".as_bytes());
        self.wtr.write_str(
            "// new_unchecked is safe: the generator checks that the destination".as_bytes(),
        );
        self.wtr.flush_line();
        self.wtr.write_str("// codepoint is non-zero at code generation time.".as_bytes());
        self.wtr.flush_line();
        self.wtr.write_str("unsafe {".as_bytes());
        self.wtr.flush_line();
        self.wtr.indent("        ".as_bytes());
        self.wtr.write_str("match cp {".as_bytes());
        self.wtr.flush_line();
        self.wtr.indent("            ".as_bytes());
        let ghost s0 = spec_start(old(self)@);
        let ghost st1 = self@.lw;
        let mut k: usize = 0;
        proof {
            assert(map@.take(0) =~= Seq::<(u32, u32)>::empty());
        }
        while k < map.len()
            invariant
                k <= map@.len(),
                self@.wrote_header == s0.wrote_header,
                self@.opts == s0.opts,
                self@.artifacts == s0.artifacts,
                self@.lw == map@.take(k as int).fold_left(st1, step_cpfn()),
            decreases map@.len() - k,
        {
            let (from, to) = map[k];
            let mut tok = crate::render::dec_u64(from as u64);
            extend_bytes(&mut tok, " => Some(NonZeroU32::new_unchecked(".as_bytes());
            let d = crate::render::dec_u64(to as u64);
            extend_bytes_vec(&mut tok, &d);
            extend_bytes(&mut tok, ")),".as_bytes());
            proof {
                assert(map@[k as int] == (from, to));
                assert(tok@ =~= spec_dec(from as int) + lit(
                    " => Some(NonZeroU32::new_unchecked("@,
                ) + spec_dec(to as int) + lit(")),"@));
            }
            self.wtr.write_str(tok.as_slice());
            self.wtr.flush_line();
            proof {
                assert(map@.take(k as int + 1).drop_last() =~= map@.take(k as int));
                assert(map@.take(k as int + 1).fold_left(st1, step_cpfn()) == step_cpfn()(
                    map@.take(k as int).fold_left(st1, step_cpfn()),
                    (from, to),
                ));
            }
            k = k + 1;
        }
        proof {
            assert(map@.take(map@.len() as int) =~= map@);
        }
        self.wtr.write_str("_ => None,".as_bytes());
        self.wtr.flush_line();
        self.wtr.indent("        ".as_bytes());
        self.wtr.write_str("}".as_bytes());
        self.wtr.flush_line();
        self.wtr.indent("    ".as_bytes());
        self.wtr.write_str("}".as_bytes());
        self.wtr.flush_line();
        self.wtr.write_line("}".as_bytes());
        Ok(())
    }

    /// Write a map from strings to string-to-string maps, as nested
    /// sorted literal tables separated by blank lines; the transducer
    /// backend has no binary encoding for a string value and is rejected
    /// before anything is written.
    pub fn string_to_string_to_string(
        &mut self,
        name: &str,
        map: &Vec<(String, Vec<(String, String)>)>,
    ) -> (r: Result<(), Error>)
        requires
            crate::writer_maps::str_keys_sorted(map@),
        ensures
            old(self)@.opts.fst ==> r == Err::<(), Error>(Error::FstStringMap) && *final(self)
                == *old(self),
            !old(self)@.opts.fst ==> r == Ok::<(), Error>(()) && final(self)@ == (WriterState {
                lw: lw_line(
                    spec_s3_entries(
                        lw_line(
                            spec_start(old(self)@).lw,
                            spec_s3_decl(spec_const_name(name.spec_bytes())),
                        ),
                        map@,
                    ),
                    lit("];"@),
                ),
                ..spec_start(old(self)@)
            }),
    {
        if self.opts.fst {
            return Err(Error::FstStringMap);
        }
        self.start();
        let cname = const_name_bytes(name.as_bytes());
        let mut decl: Vec<u8> = Vec::new();
        extend_bytes(&mut decl, "pub const ".as_bytes());
        extend_bytes_vec(&mut decl, &cname);
        extend_bytes(
            &mut decl,
            ": &'static [(&'static str, &'static [(&'static str, &'static str)])] = &[".as_bytes(),
        );
        self.wtr.write_line(decl.as_slice());
        let ghost s0 = spec_start(old(self)@);
        let ghost st1 = self@.lw;
        let mut i: usize = 0;
        proof {
            assert(map@.take(0) =~= Seq::<(String, Vec<(String, String)>)>::empty());
        }
        while i < map.len()
            invariant
                i <= map@.len(),
                self@.wrote_header == s0.wrote_header,
                self@.opts == s0.opts,
                self@.artifacts == s0.artifacts,
                self@.lw == spec_s3_entries(st1, map@.take(i as int)),
            decreases map@.len() - i,
        {
            if i > 0 {
                self.separator();
            }
            let mut tok: Vec<u8> = Vec::new();
            extend_bytes(&mut tok, "(".as_bytes());
            proof {
                vstd::utf8::encode_utf8_valid_utf8(map@[i as int].0@);
            }
            let q = str_debug(map[i].0.as_str().as_bytes());
            extend_bytes_vec(&mut tok, &q);
            extend_bytes(&mut tok, ", &[".as_bytes());
            proof {
                assert(tok@ =~= lit("("@) + str_debug_text(encode_utf8(map@[i as int].0@)) + lit(
                    ", &["@,
                ));
            }
            self.wtr.write_str(tok.as_slice());
            let ghost sv1 = self@.lw;
            let inner = &map[i].1;
            let mut j: usize = 0;
            proof {
                assert(inner@.take(0) =~= Seq::<(String, String)>::empty());
            }
            while j < inner.len()
                invariant
                    j <= inner@.len(),
                    inner@ == map@[i as int].1@,
                    self@.wrote_header == s0.wrote_header,
                    self@.opts == s0.opts,
                    self@.artifacts == s0.artifacts,
                    self@.lw == inner@.take(j as int).fold_left(sv1, step_s2s()),
                decreases inner@.len() - j,
            {
                let mut t2: Vec<u8> = Vec::new();
                extend_bytes(&mut t2, "(".as_bytes());
                proof {
                    vstd::utf8::encode_utf8_valid_utf8(inner@[j as int].0@);
                    vstd::utf8::encode_utf8_valid_utf8(inner@[j as int].1@);
                }
                let q1 = str_debug(inner[j].0.as_str().as_bytes());
                extend_bytes_vec(&mut t2, &q1);
                extend_bytes(&mut t2, ", ".as_bytes());
                let q2 = str_debug(inner[j].1.as_str().as_bytes());
                extend_bytes_vec(&mut t2, &q2);
                extend_bytes(&mut t2, "), ".as_bytes());
                proof {
                    assert(t2@ =~= lit("("@) + str_debug_text(encode_utf8(inner@[j as int].0@)) + lit(
                        ", "@,
                    ) + str_debug_text(encode_utf8(inner@[j as int].1@)) + lit("), "@));
                }
                self.wtr.write_str(t2.as_slice());
                proof {
                    assert(inner@.take(j as int + 1).drop_last() =~= inner@.take(j as int));
                    assert(inner@.take(j as int + 1).fold_left(sv1, step_s2s()) == step_s2s()(
                        inner@.take(j as int).fold_left(sv1, step_s2s()),
                        inner@[j as int],
                    ));
                }
                j = j + 1;
            }
            proof {
                assert(inner@.take(inner@.len() as int) =~= inner@);
            }
            self.wtr.write_str("]), ".as_bytes());
            proof {
                assert(map@.take(i as int + 1).drop_last() =~= map@.take(i as int));
                assert(map@.take(i as int + 1).last() == map@[i as int]);
            }
            i = i + 1;
        }
        proof {
            assert(map@.take(map@.len() as int) =~= map@);
        }
        self.wtr.write_line("];".as_bytes());
        Ok(())
    }
}

} // verus!

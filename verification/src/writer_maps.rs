//! Emission of maps: codepoint-to-integer range tables, and the
//! string-keyed and string-valued tables.

use vstd::prelude::*;
use vstd::string::StringSliceAdditionalSpecFns;
use vstd::utf8::encode_utf8;

use crate::errors::Error;
use crate::fstio::{
    fst_map_builder, fst_map_bytes, fst_map_finish, fst_map_insert, fst_map_pairs, lex_lt,
    lemma_u32_key_lt, spec_u32_key, u32_key_vec,
};
use crate::ident::{const_name_bytes, spec_const_name};
use crate::intervals::{
    expand_runs_val, keys_increasing, runs_val_wf, spec_runs_max, to_range_values,
};
use crate::line::{lw_line, lw_token, LwState};
use crate::pack::{pack_str, spec_pack};
use crate::render::{
    extend_bytes, extend_bytes_vec, lit, rust_codepoint_bytes, spec_codepoint, spec_dec, str_debug,
    str_debug_text,
};
use crate::width::{smallest_unsigned_type, spec_width_bits, spec_width_name};
use crate::writer::{spec_cp_type, spec_start, Writer, WriterState};
use crate::writer_sets::{spec_after_fst, spec_fst_decl, spec_fst_fname};

verus! {

/// The token for one valued range entry, absent when either endpoint
/// cannot be rendered under the chosen literal style.
pub open spec fn spec_rangeval_entry(cl: bool, e: (u32, u32, u64)) -> Option<Seq<u8>> {
    match (spec_codepoint(cl, e.0), spec_codepoint(cl, e.1)) {
        (Some(a), Some(b)) => Some(
            lit("("@) + a + lit(", "@) + b + lit(", "@) + spec_dec(e.2 as int) + lit("), "@),
        ),
        _ => None,
    }
}

/// The fold step writing one valued range entry.
pub open spec fn step_rangeval(cl: bool) -> spec_fn(LwState, (u32, u32, u64)) -> LwState {
    |s: LwState, e: (u32, u32, u64)|
        match spec_rangeval_entry(cl, e) {
            Some(t) => lw_token(s, t),
            None => s,
        }
}

/// The text of a valued range table: the declaration with the narrowest
/// sufficient value type, one token per renderable run, the closing line.
pub open spec fn spec_uint_slice(
    st: LwState,
    name: Seq<u8>,
    table: Seq<(u32, u32, u64)>,
    cl: bool,
) -> LwState {
    let ty = spec_cp_type(cl);
    let num_ty = encode_utf8(spec_width_name(spec_width_bits(spec_runs_max(table))));
    let st1 = lw_line(
        st,
        lit("pub const "@) + name + lit(": &'static [("@) + ty + lit(", "@) + ty + lit(", "@)
            + num_ty + lit(")] = &["@),
    );
    let st2 = table.fold_left(st1, step_rangeval(cl));
    lw_line(st2, lit("];"@))
}

/// The pairs of a codepoint-to-integer map in transducer key form.
pub open spec fn spec_cp_pairs(map: Seq<(u32, u64)>) -> Seq<(Seq<u8>, u64)> {
    Seq::new(map.len(), |i: int| (spec_u32_key(map[i].0), map[i].1))
}

/// Whether the string keys of a map are strictly sorted in byte order.
pub open spec fn str_keys_sorted<V>(map: Seq<(String, V)>) -> bool {
    forall|i: int, j: int|
        0 <= i < j < map.len() ==> lex_lt(
            encode_utf8((#[trigger] map[i]).0@),
            encode_utf8((#[trigger] map[j]).0@),
        )
}

/// Whether a byte string fits the 64-bit packed form.
pub open spec fn packable(s: Seq<u8>) -> bool {
    s.len() <= 8 && !s.contains(0u8)
}

/// The error that packing an unfit byte string reports.
pub open spec fn spec_pack_err(s: Seq<u8>) -> Error {
    if s.len() > 8 {
        Error::StringTooLong
    } else {
        Error::StringContainsNul
    }
}

/// The packed value of a fit byte string.
pub open spec fn pack64(s: Seq<u8>) -> u64 {
    spec_pack(s) as u64
}

/// The fold step writing one string-to-integer entry.
pub open spec fn step_s2u() -> spec_fn(LwState, (String, u64)) -> LwState {
    |s: LwState, p: (String, u64)|
        lw_token(
            s,
            lit("("@) + str_debug_text(encode_utf8(p.0@)) + lit(", "@) + spec_dec(p.1 as int) + lit(
                "), "@,
            ),
        )
}

/// The fold step writing one string-to-codepoint entry, skipping keys
/// whose codepoint cannot be rendered.
pub open spec fn step_s2cp(cl: bool) -> spec_fn(LwState, (String, u32)) -> LwState {
    |s: LwState, p: (String, u32)|
        match spec_codepoint(cl, p.1) {
            Some(c) => lw_token(
                s,
                lit("("@) + str_debug_text(encode_utf8(p.0@)) + lit(", "@) + c + lit("), "@),
            ),
            None => s,
        }
}

/// The fold step writing one codepoint-to-string entry, skipping keys
/// that cannot be rendered.
pub open spec fn step_cp2s(cl: bool) -> spec_fn(LwState, (u32, String)) -> LwState {
    |s: LwState, p: (u32, String)|
        match spec_codepoint(cl, p.0) {
            Some(c) => lw_token(
                s,
                lit("("@) + c + lit(", "@) + str_debug_text(encode_utf8(p.1@)) + lit("), "@),
            ),
            None => s,
        }
}

/// The fold step writing one string-to-string entry.
pub open spec fn step_s2s() -> spec_fn(LwState, (String, String)) -> LwState {
    |s: LwState, p: (String, String)|
        lw_token(
            s,
            lit("("@) + str_debug_text(encode_utf8(p.0@)) + lit(", "@) + str_debug_text(
                encode_utf8(p.1@),
            ) + lit("), "@),
        )
}

/// The pairs of a codepoint-to-string map in transducer form: big-endian
/// keys, packed values.
pub open spec fn spec_cp2s_pairs(map: Seq<(u32, String)>) -> Seq<(Seq<u8>, u64)> {
    Seq::new(map.len(), |i: int| (spec_u32_key(map[i].0), pack64(encode_utf8(map[i].1@))))
}

/// The pairs of a string-keyed integer map in transducer form.
pub open spec fn spec_s2u_pairs(map: Seq<(String, u64)>) -> Seq<(Seq<u8>, u64)> {
    Seq::new(map.len(), |i: int| (encode_utf8(map[i].0@), map[i].1))
}

/// The pairs of a string-to-codepoint map in transducer form.
pub open spec fn spec_s2cp_pairs(map: Seq<(String, u32)>) -> Seq<(Seq<u8>, u64)> {
    Seq::new(map.len(), |i: int| (encode_utf8(map[i].0@), map[i].1 as u64))
}

/// The text of a simple two-column table: a declaration, one token per
/// entry by the given step, and the closing line.
pub open spec fn spec_pair_table<T>(
    st: LwState,
    decl: Seq<u8>,
    entries: Seq<T>,
    step: spec_fn(LwState, T) -> LwState,
) -> LwState {
    let st1 = lw_line(st, decl);
    let st2 = entries.fold_left(st1, step);
    lw_line(st2, lit("];"@))
}

/// The declaration line of a string-to-integer table.
pub open spec fn spec_s2u_decl(name: Seq<u8>) -> Seq<u8> {
    lit("pub const "@) + name + lit(": &'static [(&'static str, u64)] = &["@)
}

/// The declaration line of a string-to-codepoint table.
pub open spec fn spec_s2cp_decl(name: Seq<u8>, cl: bool) -> Seq<u8> {
    lit("pub const "@) + name + lit(": &'static [(&'static str, "@) + spec_cp_type(cl) + lit(
        ")] = &["@,
    )
}

/// The declaration line of a codepoint-to-string table.
pub open spec fn spec_cp2s_decl(name: Seq<u8>, cl: bool) -> Seq<u8> {
    lit("pub const "@) + name + lit(": &'static [("@) + spec_cp_type(cl) + lit(
        ", &'static str)] = &["@,
    )
}

/// The declaration line of a string-to-string table.
pub open spec fn spec_s2s_decl(name: Seq<u8>) -> Seq<u8> {
    lit("pub const "@) + name + lit(": &'static [(&'static str, &'static str)] = &["@)
}

/// Pack each string of a codepoint-to-string map and insert it into a
/// fresh transducer builder; a string that cannot be packed reports its
/// packing error, for the first such string.
fn pack_cp2s(map: &Vec<(u32, String)>) -> (r: Result<fst::MapBuilder<Vec<u8>>, Error>)
    requires
        keys_increasing(map@),
    ensures
        r matches Ok(b) ==> fst_map_pairs(b) == spec_cp2s_pairs(map@),
        r matches Err(e) ==> exists|i: int|
            0 <= i < map@.len() && !packable(encode_utf8((#[trigger] map@[i]).1@)) && (forall|
                j: int,
            |
                0 <= j < i ==> packable(encode_utf8((#[trigger] map@[j]).1@))) && e
                == spec_pack_err(encode_utf8(map@[i].1@)),
        r is Ok ==> forall|i: int|
            0 <= i < map@.len() ==> packable(encode_utf8((#[trigger] map@[i]).1@)),
{
    let mut b = fst_map_builder();
    let n = map.len();
    let mut i: usize = 0;
    proof {
        assert(fst_map_pairs(b) =~= spec_cp2s_pairs(map@.take(0)));
    }
    while i < n
        invariant
            i <= n,
            n == map@.len(),
            keys_increasing(map@),
            fst_map_pairs(b) == spec_cp2s_pairs(map@.take(i as int)),
            forall|j: int| 0 <= j < i ==> packable(encode_utf8((#[trigger] map@[j]).1@)),
        decreases n - i,
    {
        let p = match pack_str(map[i].1.as_str()) {
            Ok(p) => p,
            Err(e) => {
                proof {
                    assert(!packable(encode_utf8(map@[i as int].1@)));
                    assert(e == spec_pack_err(encode_utf8(map@[i as int].1@)));
                }
                return Err(e);
            },
        };
        let key = u32_key_vec(map[i].0);
        proof {
            assert(p == pack64(encode_utf8(map@[i as int].1@)));
            if i > 0 {
                assert(map@[i - 1].0 < map@[i as int].0);
                lemma_u32_key_lt(map@[i - 1].0, map@[i as int].0);
                assert(fst_map_pairs(b).last() == spec_cp2s_pairs(map@.take(i as int))[i - 1]);
            }
        }
        let res = fst_map_insert(&mut b, &key, p);
        match res {
            Ok(()) => {},
            Err(_) => {
                proof {
                    assert(false);
                }
            },
        }
        proof {
            assert(fst_map_pairs(b) =~= spec_cp2s_pairs(map@.take(i as int + 1)));
        }
        i = i + 1;
    }
    proof {
        assert(map@.take(n as int) =~= map@);
    }
    Ok(b)
}

impl Writer {
    /// Write a valued range table, choosing the narrowest value type
    /// that holds the largest value.
    pub(crate) fn ranges_to_unsigned_integer_slice(
        &mut self,
        name: &Vec<u8>,
        table: &Vec<(u32, u32, u64)>,
    )
        ensures
            final(self)@ == (WriterState {
                lw: spec_uint_slice(old(self)@.lw, name@, table@, old(self)@.opts.char_literals),
                ..old(self)@
            }),
    {
        let cl = self.opts.char_literals;
        let ty = self.rust_codepoint_type();
        let m = crate::intervals::runs_max(table);
        let num_ty = smallest_unsigned_type(m);
        let mut decl: Vec<u8> = Vec::new();
        extend_bytes(&mut decl, "pub const ".as_bytes());
        extend_bytes_vec(&mut decl, name);
        extend_bytes(&mut decl, ": &'static [(".as_bytes());
        extend_bytes(&mut decl, ty.as_bytes());
        extend_bytes(&mut decl, ", ".as_bytes());
        extend_bytes(&mut decl, ty.as_bytes());
        extend_bytes(&mut decl, ", ".as_bytes());
        extend_bytes(&mut decl, num_ty.as_bytes());
        extend_bytes(&mut decl, ")] = &[".as_bytes());
        self.wtr.write_line(decl.as_slice());
        let ghost st1 = self@.lw;
        let mut i: usize = 0;
        proof {
            assert(table@.take(0) =~= Seq::<(u32, u32, u64)>::empty());
        }
        while i < table.len()
            invariant
                i <= table@.len(),
                cl == old(self)@.opts.char_literals,
                self.wrote_header == old(self).wrote_header,
                self.opts == old(self).opts,
                self.artifacts == old(self).artifacts,
                self@.lw == table@.take(i as int).fold_left(st1, step_rangeval(cl)),
            decreases table@.len() - i,
        {
            let (s, e, n) = table[i];
            let sa = rust_codepoint_bytes(cl, s);
            let sb = rust_codepoint_bytes(cl, e);
            proof {
                assert(table@[i as int] == (s, e, n));
            }
            if let (Some(a), Some(b)) = (sa, sb) {
                let mut tok: Vec<u8> = Vec::new();
                extend_bytes(&mut tok, "(".as_bytes());
                extend_bytes_vec(&mut tok, &a);
                extend_bytes(&mut tok, ", ".as_bytes());
                extend_bytes_vec(&mut tok, &b);
                extend_bytes(&mut tok, ", ".as_bytes());
                let d = crate::render::dec_u64(n);
                extend_bytes_vec(&mut tok, &d);
                extend_bytes(&mut tok, "), ".as_bytes());
                proof {
                    assert(tok@ =~= spec_rangeval_entry(cl, (s, e, n)).unwrap());
                }
                self.wtr.write_str(tok.as_slice());
            }
            proof {
                assert(table@.take(i as int + 1).drop_last() =~= table@.take(i as int));
                assert(table@.take(i as int + 1).fold_left(st1, step_rangeval(cl)) == step_rangeval(
                    cl,
                )(table@.take(i as int).fold_left(st1, step_rangeval(cl)), (s, e, n)));
            }
            i = i + 1;
        }
        proof {
            assert(table@.take(table@.len() as int) =~= table@);
        }
        self.wtr.write_line("];".as_bytes());
    }

    /// Write a codepoint-to-integer map: a transducer artifact, or a
    /// valued range table compressed into minimal runs, with the
    /// narrowest sufficient value type.
    pub fn ranges_to_unsigned_integer(&mut self, name: &str, map: &Vec<(u32, u64)>) -> (r: Result<
        (),
        Error,
    >)
        requires
            keys_increasing(map@),
        ensures
            !old(self)@.opts.fst ==> r == Ok::<(), Error>(()) && (exists|runs: Seq<(u32, u32, u64)>|
                runs_val_wf(runs) && expand_runs_val(runs) == map@ && final(self)@ == (WriterState {
                    lw: spec_uint_slice(
                        spec_start(old(self)@).lw,
                        spec_const_name(name.spec_bytes()),
                        runs,
                        old(self)@.opts.char_literals,
                    ),
                    ..spec_start(old(self)@)
                })),
            old(self)@.opts.fst ==> r == Ok::<(), Error>(()) && final(self)@ == spec_after_fst(
                old(self)@,
                spec_const_name(name.spec_bytes()),
                fst_map_bytes(spec_cp_pairs(map@)),
                true,
            ),
    {
        self.start();
        let cname = const_name_bytes(name.as_bytes());
        proof {
            vstd::utf8::encode_utf8_valid_utf8(name@);
            crate::ident::lemma_const_name_valid_utf8(name.spec_bytes());
        }
        if self.opts.fst {
            let mut b = fst_map_builder();
            let n = map.len();
            let mut i: usize = 0;
            while i < n
                invariant
                    i <= n,
                    n == map@.len(),
                    keys_increasing(map@),
                    fst_map_pairs(b) == spec_cp_pairs(map@.take(i as int)),
                decreases n - i,
            {
                let (k, v) = map[i];
                let key = u32_key_vec(k);
                proof {
                    assert(map@[i as int] == (k, v));
                    if i > 0 {
                        assert(map@[i - 1].0 < map@[i as int].0);
                        lemma_u32_key_lt(map@[i - 1].0, k);
                        assert(fst_map_pairs(b).last() == (
                            spec_u32_key(map@[i - 1].0),
                            map@[i - 1].1,
                        ));
                    }
                }
                let res = fst_map_insert(&mut b, &key, v);
                match res {
                    Ok(()) => {},
                    Err(_) => {
                        proof {
                            assert(false);
                        }
                    },
                }
                proof {
                    assert(fst_map_pairs(b) =~= spec_cp_pairs(map@.take(i as int + 1)));
                }
                i = i + 1;
            }
            proof {
                assert(map@.take(n as int) =~= map@);
            }
            let bytes = fst_map_finish(b);
            self.fst_emit(&cname, bytes, true);
            Ok(())
        } else {
            let runs = to_range_values(map);
            self.ranges_to_unsigned_integer_slice(&cname, &runs);
            Ok(())
        }
    }

    /// Write a codepoint-to-codepoint map: a transducer artifact, or a
    /// literal table of pairs (uncompressed, as each key maps to its own
    /// value).
    pub fn codepoint_to_codepoint(&mut self, name: &str, map: &Vec<(u32, u32)>) -> (r: Result<
        (),
        Error,
    >)
        requires
            keys_increasing(map@),
        ensures
            !old(self)@.opts.fst ==> r == Ok::<(), Error>(()) && final(self)@ == (WriterState {
                lw: crate::writer_sets::spec_ranges_slice(
                    spec_start(old(self)@).lw,
                    spec_const_name(name.spec_bytes()),
                    map@,
                    old(self)@.opts.char_literals,
                ),
                ..spec_start(old(self)@)
            }),
            old(self)@.opts.fst ==> r == Ok::<(), Error>(()) && final(self)@ == spec_after_fst(
                old(self)@,
                spec_const_name(name.spec_bytes()),
                fst_map_bytes(
                    Seq::new(map@.len(), |i: int| (spec_u32_key(map@[i].0), map@[i].1 as u64)),
                ),
                true,
            ),
    {
        self.start();
        let cname = const_name_bytes(name.as_bytes());
        proof {
            vstd::utf8::encode_utf8_valid_utf8(name@);
            crate::ident::lemma_const_name_valid_utf8(name.spec_bytes());
        }
        if self.opts.fst {
            let ghost pairs = Seq::new(
                map@.len(),
                |i: int| (spec_u32_key(map@[i].0), map@[i].1 as u64),
            );
            let mut b = fst_map_builder();
            let n = map.len();
            let mut i: usize = 0;
            proof {
                assert(fst_map_pairs(b) =~= pairs.take(0));
            }
            while i < n
                invariant
                    i <= n,
                    n == map@.len(),
                    keys_increasing(map@),
                    pairs == Seq::new(
                        map@.len(),
                        |i: int| (spec_u32_key(map@[i].0), map@[i].1 as u64),
                    ),
                    fst_map_pairs(b) == pairs.take(i as int),
                decreases n - i,
            {
                let (k, v) = map[i];
                let key = u32_key_vec(k);
                proof {
                    assert(map@[i as int] == (k, v));
                    if i > 0 {
                        assert(map@[i - 1].0 < map@[i as int].0);
                        lemma_u32_key_lt(map@[i - 1].0, k);
                        assert(fst_map_pairs(b).last() == pairs[i - 1]);
                    }
                }
                let res = fst_map_insert(&mut b, &key, v as u64);
                match res {
                    Ok(()) => {},
                    Err(_) => {
                        proof {
                            assert(false);
                        }
                    },
                }
                proof {
                    assert(fst_map_pairs(b) =~= pairs.take(i as int + 1));
                }
                i = i + 1;
            }
            proof {
                assert(pairs.take(n as int) =~= pairs);
            }
            let bytes = fst_map_finish(b);
            self.fst_emit(&cname, bytes, true);
            Ok(())
        } else {
            self.ranges_slice(&cname, map);
            Ok(())
        }
    }

    /// Write a string-to-integer table under the given constant name.
    pub(crate) fn string_to_u64_slice(&mut self, name: &Vec<u8>, table: &Vec<(String, u64)>)
        ensures
            final(self)@ == (WriterState {
                lw: spec_pair_table(old(self)@.lw, spec_s2u_decl(name@), table@, step_s2u()),
                ..old(self)@
            }),
    {
        let mut decl: Vec<u8> = Vec::new();
        extend_bytes(&mut decl, "pub const ".as_bytes());
        extend_bytes_vec(&mut decl, name);
        extend_bytes(&mut decl, ": &'static [(&'static str, u64)] = &[".as_bytes());
        self.wtr.write_line(decl.as_slice());
        let ghost st1 = self@.lw;
        let mut i: usize = 0;
        proof {
            assert(table@.take(0) =~= Seq::<(String, u64)>::empty());
        }
        while i < table.len()
            invariant
                i <= table@.len(),
                self.wrote_header == old(self).wrote_header,
                self.opts == old(self).opts,
                self.artifacts == old(self).artifacts,
                self@.lw == table@.take(i as int).fold_left(st1, step_s2u()),
            decreases table@.len() - i,
        {
            let mut tok: Vec<u8> = Vec::new();
            extend_bytes(&mut tok, "(".as_bytes());
            proof {
                vstd::utf8::encode_utf8_valid_utf8(table@[i as int].0@);
            }
            let q = str_debug(table[i].0.as_str().as_bytes());
            extend_bytes_vec(&mut tok, &q);
            extend_bytes(&mut tok, ", ".as_bytes());
            let d = crate::render::dec_u64(table[i].1);
            extend_bytes_vec(&mut tok, &d);
            extend_bytes(&mut tok, "), ".as_bytes());
            proof {
                assert(tok@ =~= lit("("@) + str_debug_text(encode_utf8(table@[i as int].0@)) + lit(
                    ", "@,
                ) + spec_dec(table@[i as int].1 as int) + lit("), "@));
            }
            self.wtr.write_str(tok.as_slice());
            proof {
                assert(table@.take(i as int + 1).drop_last() =~= table@.take(i as int));
                assert(table@.take(i as int + 1).fold_left(st1, step_s2u()) == step_s2u()(
                    table@.take(i as int).fold_left(st1, step_s2u()),
                    table@[i as int],
                ));
            }
            i = i + 1;
        }
        proof {
            assert(table@.take(table@.len() as int) =~= table@);
        }
        self.wtr.write_line("];".as_bytes());
    }

    /// Write a string-to-integer map: a transducer artifact, or a sorted
    /// literal table fit for binary search.
    pub fn string_to_u64(&mut self, name: &str, map: &Vec<(String, u64)>) -> (r: Result<(), Error>)
        requires
            str_keys_sorted(map@),
        ensures
            !old(self)@.opts.fst ==> r == Ok::<(), Error>(()) && final(self)@ == (WriterState {
                lw: spec_pair_table(
                    spec_start(old(self)@).lw,
                    spec_s2u_decl(spec_const_name(name.spec_bytes())),
                    map@,
                    step_s2u(),
                ),
                ..spec_start(old(self)@)
            }),
            old(self)@.opts.fst ==> r == Ok::<(), Error>(()) && final(self)@ == spec_after_fst(
                old(self)@,
                spec_const_name(name.spec_bytes()),
                fst_map_bytes(spec_s2u_pairs(map@)),
                true,
            ),
    {
        self.start();
        let cname = const_name_bytes(name.as_bytes());
        proof {
            vstd::utf8::encode_utf8_valid_utf8(name@);
            crate::ident::lemma_const_name_valid_utf8(name.spec_bytes());
        }
        if self.opts.fst {
            let mut b = fst_map_builder();
            let n = map.len();
            let mut i: usize = 0;
            proof {
                assert(fst_map_pairs(b) =~= spec_s2u_pairs(map@.take(0)));
            }
            while i < n
                invariant
                    i <= n,
                    n == map@.len(),
                    str_keys_sorted(map@),
                    fst_map_pairs(b) == spec_s2u_pairs(map@.take(i as int)),
                decreases n - i,
            {
                let mut key: Vec<u8> = Vec::new();
                extend_bytes(&mut key, map[i].0.as_str().as_bytes());
                proof {
                    if i > 0 {
                        assert(lex_lt(
                            encode_utf8(map@[i - 1].0@),
                            encode_utf8(map@[i as int].0@),
                        ));
                        assert(fst_map_pairs(b).last() == spec_s2u_pairs(map@.take(i as int))[i
                            - 1]);
                    }
                }
                let res = fst_map_insert(&mut b, &key, map[i].1);
                match res {
                    Ok(()) => {},
                    Err(_) => {
                        proof {
                            assert(false);
                        }
                    },
                }
                proof {
                    assert(fst_map_pairs(b) =~= spec_s2u_pairs(map@.take(i as int + 1)));
                }
                i = i + 1;
            }
            proof {
                assert(map@.take(n as int) =~= map@);
            }
            let bytes = fst_map_finish(b);
            self.fst_emit(&cname, bytes, true);
            Ok(())
        } else {
            self.string_to_u64_slice(&cname, map);
            Ok(())
        }
    }

    /// Write a string-to-codepoint table under the given constant name.
    pub(crate) fn string_to_codepoint_slice(&mut self, name: &Vec<u8>, table: &Vec<(String, u32)>)
        ensures
            final(self)@ == (WriterState {
                lw: spec_pair_table(
                    old(self)@.lw,
                    spec_s2cp_decl(name@, old(self)@.opts.char_literals),
                    table@,
                    step_s2cp(old(self)@.opts.char_literals),
                ),
                ..old(self)@
            }),
    {
        let cl = self.opts.char_literals;
        let ty = self.rust_codepoint_type();
        let mut decl: Vec<u8> = Vec::new();
        extend_bytes(&mut decl, "pub const ".as_bytes());
        extend_bytes_vec(&mut decl, name);
        extend_bytes(&mut decl, ": &'static [(&'static str, ".as_bytes());
        extend_bytes(&mut decl, ty.as_bytes());
        extend_bytes(&mut decl, ")] = &[".as_bytes());
        self.wtr.write_line(decl.as_slice());
        let ghost st1 = self@.lw;
        let mut i: usize = 0;
        proof {
            assert(table@.take(0) =~= Seq::<(String, u32)>::empty());
        }
        while i < table.len()
            invariant
                i <= table@.len(),
                cl == old(self)@.opts.char_literals,
                self.wrote_header == old(self).wrote_header,
                self.opts == old(self).opts,
                self.artifacts == old(self).artifacts,
                self@.lw == table@.take(i as int).fold_left(st1, step_s2cp(cl)),
            decreases table@.len() - i,
        {
            let cp = table[i].1;
            let rc = rust_codepoint_bytes(cl, cp);
            if let Some(c) = rc {
                let mut tok: Vec<u8> = Vec::new();
                extend_bytes(&mut tok, "(".as_bytes());
                proof {
                    vstd::utf8::encode_utf8_valid_utf8(table@[i as int].0@);
                }
                let q = str_debug(table[i].0.as_str().as_bytes());
                extend_bytes_vec(&mut tok, &q);
                extend_bytes(&mut tok, ", ".as_bytes());
                extend_bytes_vec(&mut tok, &c);
                extend_bytes(&mut tok, "), ".as_bytes());
                proof {
                    assert(tok@ =~= lit("("@) + str_debug_text(encode_utf8(table@[i as int].0@)) + lit(
                        ", "@,
                    ) + spec_codepoint(cl, cp).unwrap() + lit("), "@));
                }
                self.wtr.write_str(tok.as_slice());
            }
            proof {
                assert(table@.take(i as int + 1).drop_last() =~= table@.take(i as int));
                assert(table@.take(i as int + 1).fold_left(st1, step_s2cp(cl)) == step_s2cp(cl)(
                    table@.take(i as int).fold_left(st1, step_s2cp(cl)),
                    table@[i as int],
                ));
            }
            i = i + 1;
        }
        proof {
            assert(table@.take(table@.len() as int) =~= table@);
        }
        self.wtr.write_line("];".as_bytes());
    }

    /// Write a string-to-codepoint map: a transducer artifact, or a
    /// sorted literal table.
    pub fn string_to_codepoint(&mut self, name: &str, map: &Vec<(String, u32)>) -> (r: Result<
        (),
        Error,
    >)
        requires
            str_keys_sorted(map@),
        ensures
            !old(self)@.opts.fst ==> r == Ok::<(), Error>(()) && final(self)@ == (WriterState {
                lw: spec_pair_table(
                    spec_start(old(self)@).lw,
                    spec_s2cp_decl(
                        spec_const_name(name.spec_bytes()),
                        old(self)@.opts.char_literals,
                    ),
                    map@,
                    step_s2cp(old(self)@.opts.char_literals),
                ),
                ..spec_start(old(self)@)
            }),
            old(self)@.opts.fst ==> r == Ok::<(), Error>(()) && final(self)@ == spec_after_fst(
                old(self)@,
                spec_const_name(name.spec_bytes()),
                fst_map_bytes(spec_s2cp_pairs(map@)),
                true,
            ),
    {
        self.start();
        let cname = const_name_bytes(name.as_bytes());
        proof {
            vstd::utf8::encode_utf8_valid_utf8(name@);
            crate::ident::lemma_const_name_valid_utf8(name.spec_bytes());
        }
        if self.opts.fst {
            let mut b = fst_map_builder();
            let n = map.len();
            let mut i: usize = 0;
            proof {
                assert(fst_map_pairs(b) =~= spec_s2cp_pairs(map@.take(0)));
            }
            while i < n
                invariant
                    i <= n,
                    n == map@.len(),
                    str_keys_sorted(map@),
                    fst_map_pairs(b) == spec_s2cp_pairs(map@.take(i as int)),
                decreases n - i,
            {
                let mut key: Vec<u8> = Vec::new();
                extend_bytes(&mut key, map[i].0.as_str().as_bytes());
                proof {
                    if i > 0 {
                        assert(lex_lt(
                            encode_utf8(map@[i - 1].0@),
                            encode_utf8(map@[i as int].0@),
                        ));
                        assert(fst_map_pairs(b).last() == spec_s2cp_pairs(map@.take(i as int))[i
                            - 1]);
                    }
                }
                let res = fst_map_insert(&mut b, &key, map[i].1 as u64);
                match res {
                    Ok(()) => {},
                    Err(_) => {
                        proof {
                            assert(false);
                        }
                    },
                }
                proof {
                    assert(fst_map_pairs(b) =~= spec_s2cp_pairs(map@.take(i as int + 1)));
                }
                i = i + 1;
            }
            proof {
                assert(map@.take(n as int) =~= map@);
            }
            let bytes = fst_map_finish(b);
            self.fst_emit(&cname, bytes, true);
            Ok(())
        } else {
            self.string_to_codepoint_slice(&cname, map);
            Ok(())
        }
    }

    /// Write a codepoint-to-string table under the given constant name.
    pub(crate) fn codepoint_to_string_slice(&mut self, name: &Vec<u8>, table: &Vec<(u32, String)>)
        ensures
            final(self)@ == (WriterState {
                lw: spec_pair_table(
                    old(self)@.lw,
                    spec_cp2s_decl(name@, old(self)@.opts.char_literals),
                    table@,
                    step_cp2s(old(self)@.opts.char_literals),
                ),
                ..old(self)@
            }),
    {
        let cl = self.opts.char_literals;
        let ty = self.rust_codepoint_type();
        let mut decl: Vec<u8> = Vec::new();
        extend_bytes(&mut decl, "pub const ".as_bytes());
        extend_bytes_vec(&mut decl, name);
        extend_bytes(&mut decl, ": &'static [(".as_bytes());
        extend_bytes(&mut decl, ty.as_bytes());
        extend_bytes(&mut decl, ", &'static str)] = &[".as_bytes());
        self.wtr.write_line(decl.as_slice());
        let ghost st1 = self@.lw;
        let mut i: usize = 0;
        proof {
            assert(table@.take(0) =~= Seq::<(u32, String)>::empty());
        }
        while i < table.len()
            invariant
                i <= table@.len(),
                cl == old(self)@.opts.char_literals,
                self.wrote_header == old(self).wrote_header,
                self.opts == old(self).opts,
                self.artifacts == old(self).artifacts,
                self@.lw == table@.take(i as int).fold_left(st1, step_cp2s(cl)),
            decreases table@.len() - i,
        {
            let cp = table[i].0;
            let rc = rust_codepoint_bytes(cl, cp);
            if let Some(c) = rc {
                let mut tok: Vec<u8> = Vec::new();
                extend_bytes(&mut tok, "(".as_bytes());
                extend_bytes_vec(&mut tok, &c);
                extend_bytes(&mut tok, ", ".as_bytes());
                proof {
                    vstd::utf8::encode_utf8_valid_utf8(table@[i as int].1@);
                }
                let q = str_debug(table[i].1.as_str().as_bytes());
                extend_bytes_vec(&mut tok, &q);
                extend_bytes(&mut tok, "), ".as_bytes());
                proof {
                    assert(tok@ =~= lit("("@) + spec_codepoint(cl, cp).unwrap() + lit(", "@)
                        + str_debug_text(encode_utf8(table@[i as int].1@)) + lit("), "@));
                }
                self.wtr.write_str(tok.as_slice());
            }
            proof {
                assert(table@.take(i as int + 1).drop_last() =~= table@.take(i as int));
                assert(table@.take(i as int + 1).fold_left(st1, step_cp2s(cl)) == step_cp2s(cl)(
                    table@.take(i as int).fold_left(st1, step_cp2s(cl)),
                    table@[i as int],
                ));
            }
            i = i + 1;
        }
        proof {
            assert(table@.take(table@.len() as int) =~= table@);
        }
        self.wtr.write_line("];".as_bytes());
    }

    /// Write a codepoint-to-string map.  Under the transducer backend
    /// each string is packed whole into the 64-bit value slot, and a
    /// string that cannot be packed fails the call before any table text
    /// is committed; otherwise a literal quoted-string table is written.
    pub fn codepoint_to_string(&mut self, name: &str, map: &Vec<(u32, String)>) -> (r: Result<
        (),
        Error,
    >)
        requires
            keys_increasing(map@),
        ensures
            !old(self)@.opts.fst ==> r == Ok::<(), Error>(()) && final(self)@ == (WriterState {
                lw: spec_pair_table(
                    spec_start(old(self)@).lw,
                    spec_cp2s_decl(
                        spec_const_name(name.spec_bytes()),
                        old(self)@.opts.char_literals,
                    ),
                    map@,
                    step_cp2s(old(self)@.opts.char_literals),
                ),
                ..spec_start(old(self)@)
            }),
            old(self)@.opts.fst && (forall|i: int|
                0 <= i < map@.len() ==> packable(
                    encode_utf8((#[trigger] map@[i]).1@),
                )) ==> r == Ok::<(), Error>(()) && final(self)@ == spec_after_fst(
                old(self)@,
                spec_const_name(name.spec_bytes()),
                fst_map_bytes(spec_cp2s_pairs(map@)),
                true,
            ),
            old(self)@.opts.fst && (exists|i: int|
                0 <= i < map@.len() && !packable(encode_utf8((#[trigger] map@[i]).1@))) ==> (exists|
                i: int,
            |
                0 <= i < map@.len() && !packable(encode_utf8((#[trigger] map@[i]).1@)) && (forall|
                    j: int,
                |
                    0 <= j < i ==> packable(encode_utf8((#[trigger] map@[j]).1@))) && r == Err::<
                    (),
                    Error,
                >(spec_pack_err(encode_utf8(map@[i].1@)))) && final(self)@ == spec_start(
                old(self)@,
            ),
    {
        self.start();
        let cname = const_name_bytes(name.as_bytes());
        proof {
            vstd::utf8::encode_utf8_valid_utf8(name@);
            crate::ident::lemma_const_name_valid_utf8(name.spec_bytes());
        }
        if self.opts.fst {
            match pack_cp2s(map) {
                Ok(b) => {
                    let bytes = fst_map_finish(b);
                    self.fst_emit(&cname, bytes, true);
                    Ok(())
                },
                Err(e) => Err(e),
            }
        } else {
            self.codepoint_to_string_slice(&cname, map);
            Ok(())
        }
    }

    /// Write a string-to-string map as a sorted literal table; the
    /// transducer backend has no binary encoding for a string value and
    /// is rejected before anything is written.
    pub fn string_to_string(&mut self, name: &str, map: &Vec<(String, String)>) -> (r: Result<
        (),
        Error,
    >)
        requires
            str_keys_sorted(map@),
        ensures
            old(self)@.opts.fst ==> r == Err::<(), Error>(Error::FstStringMap) && *final(self)
                == *old(self),
            !old(self)@.opts.fst ==> r == Ok::<(), Error>(()) && final(self)@ == (WriterState {
                lw: spec_pair_table(
                    spec_start(old(self)@).lw,
                    spec_s2s_decl(spec_const_name(name.spec_bytes())),
                    map@,
                    step_s2s(),
                ),
                ..spec_start(old(self)@)
            }),
    {
        if self.opts.fst {
            return Err(Error::FstStringMap);
        }
        self.start();
        let cname = const_name_bytes(name.as_bytes());
        let mut decl: Vec<u8> = Vec::new();
        extend_bytes(&mut decl, "pub const ".as_bytes());
        extend_bytes_vec(&mut decl, &cname);
        extend_bytes(&mut decl, ": &'static [(&'static str, &'static str)] = &[".as_bytes());
        self.wtr.write_line(decl.as_slice());
        let ghost st1 = self@.lw;
        let ghost s0 = spec_start(old(self)@);
        let mut i: usize = 0;
        proof {
            assert(map@.take(0) =~= Seq::<(String, String)>::empty());
        }
        while i < map.len()
            invariant
                i <= map@.len(),
                self@.wrote_header == s0.wrote_header,
                self@.opts == s0.opts,
                self@.artifacts == s0.artifacts,
                s0 == spec_start(old(self)@),
                st1 == lw_line(s0.lw, spec_s2s_decl(spec_const_name(name.spec_bytes()))),
                self@.lw == map@.take(i as int).fold_left(st1, step_s2s()),
            decreases map@.len() - i,
        {
            let mut tok: Vec<u8> = Vec::new();
            extend_bytes(&mut tok, "(".as_bytes());
            proof {
                vstd::utf8::encode_utf8_valid_utf8(map@[i as int].0@);
                vstd::utf8::encode_utf8_valid_utf8(map@[i as int].1@);
            }
            let q = str_debug(map[i].0.as_str().as_bytes());
            extend_bytes_vec(&mut tok, &q);
            extend_bytes(&mut tok, ", ".as_bytes());
            let q2 = str_debug(map[i].1.as_str().as_bytes());
            extend_bytes_vec(&mut tok, &q2);
            extend_bytes(&mut tok, "), ".as_bytes());
            proof {
                assert(tok@ =~= lit("("@) + str_debug_text(encode_utf8(map@[i as int].0@)) + lit(", "@)
                    + str_debug_text(encode_utf8(map@[i as int].1@)) + lit("), "@));
            }
            self.wtr.write_str(tok.as_slice());
            proof {
                assert(map@.take(i as int + 1).drop_last() =~= map@.take(i as int));
                assert(map@.take(i as int + 1).fold_left(st1, step_s2s()) == step_s2s()(
                    map@.take(i as int).fold_left(st1, step_s2s()),
                    map@[i as int],
                ));
            }
            i = i + 1;
        }
        proof {
            assert(map@.take(map@.len() as int) =~= map@);
        }
        self.wtr.write_line("];".as_bytes());
        Ok(())
    }
}

} // verus!

//! Emission of automaton artifacts: serialized automata in both byte
//! orders, and the loader text that reads them back.
//!
//! The loader text is split into two mutually exclusive branches, one per
//! native byte order, and each branch wraps the raw bytes in a framing
//! struct aligned to the automaton's state identifier width before
//! reinterpreting them.

use vstd::prelude::*;
use vstd::string::StringSliceAdditionalSpecFns;

use crate::errors::Error;
use crate::dfa::{DfaBytes, RegexBytes};
use crate::ident::{module_name_bytes, spec_module_name};
use crate::line::{lw_line, LwState};
use crate::render::{extend_bytes, extend_bytes_vec, lit, str_debug, str_debug_text};
use crate::width::rust_uint_type;
use crate::writer::{spec_start, Writer, WriterState};

verus! {

/// The loader text that reinterprets an embedded artifact as an
/// automaton, behind an alignment guard of the state identifier type.
pub open spec fn spec_dfa_deser(
    st: LwState,
    short_ty: Seq<u8>,
    align: Seq<u8>,
    fname: Seq<u8>,
) -> LwState {
    let s1 = lw_line(st, lit("    #[repr(C)]"@));
    let s2 = lw_line(s1, lit("    struct Aligned<B: ?Sized> {"@));
    let s3 = lw_line(s2, lit("        _align: ["@) + align + lit("; 0],"@));
    let s4 = lw_line(s3, lit("        bytes: B,"@));
    let s5 = lw_line(s4, lit("    }"@));
    let s6 = lw_line(s5, lit("    "@));
    let s7 = lw_line(s6, lit("    static ALIGNED: &'static Aligned<[u8]> = &Aligned {"@));
    let s8 = lw_line(s7, lit("        _align: [],"@));
    let s9 = lw_line(s8, lit("        bytes: *include_bytes!("@) + str_debug_text(fname) + lit("),"@));
    let s10 = lw_line(s9, lit("    };"@));
    let s11 = lw_line(s10, lit("    "@));
    let s12 = lw_line(s11, lit("    unsafe {"@));
    let s13 = lw_line(s12, lit("      ::regex_automata::"@) + short_ty + lit(
        "::from_bytes(&ALIGNED.bytes)"@,
    ));
    lw_line(s13, lit("    }"@))
}

/// The loader text of a lazy static holding one automaton.
pub open spec fn spec_dfa_static(
    st: LwState,
    cname: Seq<u8>,
    full_ty: Seq<u8>,
    short_ty: Seq<u8>,
    align: Seq<u8>,
    fname: Seq<u8>,
) -> LwState {
    let s1 = lw_line(
        st,
        lit("pub static "@) + cname + lit(": ::once_cell::sync::Lazy<::regex_automata::"@)
            + full_ty + lit("> ="@),
    );
    let s2 = lw_line(s1, lit("  ::once_cell::sync::Lazy::new(|| {"@));
    let s3 = spec_dfa_deser(s2, short_ty, align, fname);
    lw_line(s3, lit("  });"@))
}

/// The loader text of a lazy static holding a forward/reverse pair.
pub open spec fn spec_regex_static(
    st: LwState,
    cname: Seq<u8>,
    full_ty: Seq<u8>,
    short_ty: Seq<u8>,
    align: Seq<u8>,
    fname_fwd: Seq<u8>,
    fname_rev: Seq<u8>,
) -> LwState {
    let s1 = lw_line(
        st,
        lit("pub static "@) + cname + lit(": ::once_cell::sync::Lazy<::regex_automata::"@)
            + full_ty + lit("> ="@),
    );
    let s2 = lw_line(s1, lit("  ::once_cell::sync::Lazy::new(|| {"@));
    let s3 = lw_line(s2, lit("    let fwd ="@));
    let s4 = spec_dfa_deser(s3, short_ty, align, fname_fwd);
    let s5 = lw_line(s4, lit("    ;"@));
    let s6 = lw_line(s5, lit("    let rev ="@));
    let s7 = spec_dfa_deser(s6, short_ty, align, fname_rev);
    let s8 = lw_line(s7, lit("    ;"@));
    let s9 = lw_line(s8, lit("    ::regex_automata::Regex::from_dfas(fwd, rev)"@));
    lw_line(s9, lit("  });"@))
}

/// The name of the unsigned type of `bytes` bytes, as emitted text.
pub open spec fn spec_idty(bytes: u8) -> Seq<u8> {
    if bytes == 1 {
        lit("u8"@)
    } else if bytes == 2 {
        lit("u16"@)
    } else if bytes == 4 {
        lit("u32"@)
    } else {
        lit("u64"@)
    }
}

/// Whether a state identifier width is one of the supported widths.
pub open spec fn valid_width(bytes: u8) -> bool {
    bytes == 1 || bytes == 2 || bytes == 4 || bytes == 8
}

/// The artifact file names of a regex export, and the recorded
/// artifacts: forward and reverse, in big- and little-endian order.
pub open spec fn spec_regex_artifacts(
    arts: Seq<(Seq<u8>, Seq<u8>)>,
    name: Seq<u8>,
    re: &RegexBytes,
) -> Seq<(Seq<u8>, Seq<u8>)> {
    let rust_name = spec_module_name(name);
    arts.push((rust_name + lit(".fwd.bigendian.dfa"@), re.forward.big_endian@)).push(
        (rust_name + lit(".rev.bigendian.dfa"@), re.reverse.big_endian@),
    ).push((rust_name + lit(".fwd.littleendian.dfa"@), re.forward.little_endian@)).push(
        (rust_name + lit(".rev.littleendian.dfa"@), re.reverse.little_endian@),
    )
}

/// The recorded artifacts of a single-automaton export, one per byte
/// order.
pub open spec fn spec_dfa_artifacts(
    arts: Seq<(Seq<u8>, Seq<u8>)>,
    name: Seq<u8>,
    dfa: &DfaBytes,
) -> Seq<(Seq<u8>, Seq<u8>)> {
    let rust_name = spec_module_name(name);
    arts.push((rust_name + lit(".bigendian.dfa"@), dfa.big_endian@)).push(
        (rust_name + lit(".littleendian.dfa"@), dfa.little_endian@),
    )
}

/// The two conditional loader branches of a regex export, one per
/// native byte order.
pub open spec fn spec_regex_branches(
    st: LwState,
    name: Seq<u8>,
    full_ty: Seq<u8>,
    short_ty: Seq<u8>,
    align: Seq<u8>,
) -> LwState {
    let rust_name = spec_module_name(name);
    let s1 = lw_line(st, lit("#[cfg(target_endian = \"big\")]"@));
    let s2 = spec_regex_static(
        s1,
        name,
        full_ty,
        short_ty,
        align,
        rust_name + lit(".fwd.bigendian.dfa"@),
        rust_name + lit(".rev.bigendian.dfa"@),
    );
    let s3 = lw_line(s2, Seq::<u8>::empty());
    let s4 = lw_line(s3, lit("#[cfg(target_endian = \"little\")]"@));
    spec_regex_static(
        s4,
        name,
        full_ty,
        short_ty,
        align,
        rust_name + lit(".fwd.littleendian.dfa"@),
        rust_name + lit(".rev.littleendian.dfa"@),
    )
}

/// The two conditional loader branches of a single-automaton export.
pub open spec fn spec_dfa_branches(
    st: LwState,
    name: Seq<u8>,
    full_ty: Seq<u8>,
    short_ty: Seq<u8>,
    align: Seq<u8>,
) -> LwState {
    let rust_name = spec_module_name(name);
    let s1 = lw_line(st, lit("#[cfg(target_endian = \"big\")]"@));
    let s2 = spec_dfa_static(
        s1,
        name,
        full_ty,
        short_ty,
        align,
        rust_name + lit(".bigendian.dfa"@),
    );
    let s3 = lw_line(s2, Seq::<u8>::empty());
    let s4 = lw_line(s3, lit("#[cfg(target_endian = \"little\")]"@));
    spec_dfa_static(s4, name, full_ty, short_ty, align, rust_name + lit(".littleendian.dfa"@))
}

/// The dense or sparse full regex loader text.
pub open spec fn spec_regex_pair_emit(
    st: LwState,
    name: Seq<u8>,
    idty: Seq<u8>,
    dense: bool,
) -> LwState {
    if dense {
        spec_regex_branches(
            st,
            name,
            lit("Regex<::regex_automata::DenseDFA<&'static ["@) + idty + lit("], "@) + idty + lit(
                ">>"@,
            ),
            lit("DenseDFA"@),
            idty,
        )
    } else {
        spec_regex_branches(
            st,
            name,
            lit("Regex<::regex_automata::SparseDFA<&'static [u8], "@) + idty + lit(">>"@),
            lit("SparseDFA"@),
            lit("u8"@),
        )
    }
}

/// The dense or sparse single-automaton loader text.
pub open spec fn spec_dfa_pair_emit(
    st: LwState,
    name: Seq<u8>,
    idty: Seq<u8>,
    dense: bool,
) -> LwState {
    if dense {
        spec_dfa_branches(
            st,
            name,
            lit("DenseDFA<&'static ["@) + idty + lit("], "@) + idty + lit(">"@),
            lit("DenseDFA"@),
            idty,
        )
    } else {
        spec_dfa_branches(
            st,
            name,
            lit("SparseDFA<&'static [u8], "@) + idty + lit(">"@),
            lit("SparseDFA"@),
            lit("u8"@),
        )
    }
}

/// A copy of a byte vector.
fn bytes_of(v: &Vec<u8>) -> (r: Vec<u8>)
    ensures
        r@ == v@,
{
    let mut o: Vec<u8> = Vec::new();
    extend_bytes(&mut o, v.as_slice());
    o
}

/// A copy of a byte slice as a vector.
fn bytes_of_slice(v: &[u8]) -> (r: Vec<u8>)
    ensures
        r@ == v@,
{
    let mut o: Vec<u8> = Vec::new();
    extend_bytes(&mut o, v);
    o
}

impl Writer {
    /// Write the loader text of one automaton static.
    pub(crate) fn write_dfa_deserialize(
        &mut self,
        short_ty: &str,
        align: &str,
        fname: &Vec<u8>,
    )
        requires
            vstd::utf8::valid_utf8(fname@),
        ensures
            final(self)@ == (WriterState {
                lw: spec_dfa_deser(old(self)@.lw, short_ty.spec_bytes(), align.spec_bytes(), fname@),
                ..old(self)@
            }),
    {
        self.wtr.write_line("    #[repr(C)]".as_bytes());
        self.wtr.write_line("    struct Aligned<B: ?Sized> {".as_bytes());
        let mut l3: Vec<u8> = Vec::new();
        extend_bytes(&mut l3, "        _align: [".as_bytes());
        extend_bytes(&mut l3, align.as_bytes());
        extend_bytes(&mut l3, "; 0],".as_bytes());
        self.wtr.write_line(l3.as_slice());
        self.wtr.write_line("        bytes: B,".as_bytes());
        self.wtr.write_line("    }".as_bytes());
        self.wtr.write_line("    ".as_bytes());
        self.wtr.write_line("    static ALIGNED: &'static Aligned<[u8]> = &Aligned {".as_bytes());
        self.wtr.write_line("        _align: [],".as_bytes());
        let mut l9: Vec<u8> = Vec::new();
        extend_bytes(&mut l9, "        bytes: *include_bytes!(".as_bytes());
        let q = str_debug(fname.as_slice());
        extend_bytes_vec(&mut l9, &q);
        extend_bytes(&mut l9, "),".as_bytes());
        self.wtr.write_line(l9.as_slice());
        self.wtr.write_line("    };".as_bytes());
        self.wtr.write_line("    ".as_bytes());
        self.wtr.write_line("    unsafe {".as_bytes());
        let mut l13: Vec<u8> = Vec::new();
        extend_bytes(&mut l13, "      ::regex_automata::".as_bytes());
        extend_bytes(&mut l13, short_ty.as_bytes());
        extend_bytes(&mut l13, "::from_bytes(&ALIGNED.bytes)".as_bytes());
        self.wtr.write_line(l13.as_slice());
        self.wtr.write_line("    }".as_bytes());
    }

    /// Write the lazy static loading one automaton.
    pub(crate) fn write_dfa_static(
        &mut self,
        cname: &Vec<u8>,
        full_ty: &Vec<u8>,
        short_ty: &str,
        align: &str,
        fname: &Vec<u8>,
    )
        requires
            vstd::utf8::valid_utf8(fname@),
        ensures
            final(self)@ == (WriterState {
                lw: spec_dfa_static(
                    old(self)@.lw,
                    cname@,
                    full_ty@,
                    short_ty.spec_bytes(),
                    align.spec_bytes(),
                    fname@,
                ),
                ..old(self)@
            }),
    {
        let mut l1: Vec<u8> = Vec::new();
        extend_bytes(&mut l1, "pub static ".as_bytes());
        extend_bytes_vec(&mut l1, cname);
        extend_bytes(&mut l1, ": ::once_cell::sync::Lazy<::regex_automata::".as_bytes());
        extend_bytes_vec(&mut l1, full_ty);
        extend_bytes(&mut l1, "> =".as_bytes());
        self.wtr.write_line(l1.as_slice());
        self.wtr.write_line("  ::once_cell::sync::Lazy::new(|| {".as_bytes());
        self.write_dfa_deserialize(short_ty, align, fname);
        self.wtr.write_line("  });".as_bytes());
    }

    /// Write the lazy static loading a forward/reverse automaton pair.
    pub(crate) fn write_regex_static(
        &mut self,
        cname: &Vec<u8>,
        full_ty: &Vec<u8>,
        short_ty: &str,
        align: &str,
        fname_fwd: &Vec<u8>,
        fname_rev: &Vec<u8>,
    )
        requires
            vstd::utf8::valid_utf8(fname_fwd@),
            vstd::utf8::valid_utf8(fname_rev@),
        ensures
            final(self)@ == (WriterState {
                lw: spec_regex_static(
                    old(self)@.lw,
                    cname@,
                    full_ty@,
                    short_ty.spec_bytes(),
                    align.spec_bytes(),
                    fname_fwd@,
                    fname_rev@,
                ),
                ..old(self)@
            }),
    {
        let mut l1: Vec<u8> = Vec::new();
        extend_bytes(&mut l1, "pub static ".as_bytes());
        extend_bytes_vec(&mut l1, cname);
        extend_bytes(&mut l1, ": ::once_cell::sync::Lazy<::regex_automata::".as_bytes());
        extend_bytes_vec(&mut l1, full_ty);
        extend_bytes(&mut l1, "> =".as_bytes());
        self.wtr.write_line(l1.as_slice());
        self.wtr.write_line("  ::once_cell::sync::Lazy::new(|| {".as_bytes());
        self.wtr.write_line("    let fwd =".as_bytes());
        self.write_dfa_deserialize(short_ty, align, fname_fwd);
        self.wtr.write_line("    ;".as_bytes());
        self.wtr.write_line("    let rev =".as_bytes());
        self.write_dfa_deserialize(short_ty, align, fname_rev);
        self.wtr.write_line("    ;".as_bytes());
        self.wtr.write_line("    ::regex_automata::Regex::from_dfas(fwd, rev)".as_bytes());
        self.wtr.write_line("  });".as_bytes());
    }

    /// Write a forward/reverse automaton pair: four artifacts (two byte
    /// orders per direction) and the two-branch loader text, under the
    /// dense representation.
    pub fn dense_regex(&mut self, name: &str, re: &RegexBytes) -> (r: Result<(), Error>)
        requires
            old(self)@.opts.dfa,
            re.forward.state_id_bytes == re.reverse.state_id_bytes,
        ensures
            !valid_width(re.forward.state_id_bytes) ==> r == Err::<(), Error>(
                Error::UnsupportedStateIdSize,
            ) && final(self)@ == spec_start(old(self)@),
            valid_width(re.forward.state_id_bytes) ==> r == Ok::<(), Error>(()) && final(self)@
                == (WriterState {
                lw: spec_regex_pair_emit(
                    spec_start(old(self)@).lw,
                    name.spec_bytes(),
                    spec_idty(re.forward.state_id_bytes),
                    true,
                ),
                artifacts: spec_regex_artifacts(
                    spec_start(old(self)@).artifacts,
                    name.spec_bytes(),
                    re,
                ),
                ..spec_start(old(self)@)
            }),
    {
        self.start();
        let idty = match rust_uint_type(re.forward.state_id_bytes) {
            Ok(t) => t,
            Err(e) => {
                return Err(e);
            },
        };
        let mut full_ty: Vec<u8> = Vec::new();
        extend_bytes(&mut full_ty, "Regex<::regex_automata::DenseDFA<&'static [".as_bytes());
        extend_bytes(&mut full_ty, idty.as_bytes());
        extend_bytes(&mut full_ty, "], ".as_bytes());
        extend_bytes(&mut full_ty, idty.as_bytes());
        extend_bytes(&mut full_ty, ">>".as_bytes());
        proof {
            assert(idty.spec_bytes() == spec_idty(re.forward.state_id_bytes));
            assert(full_ty@ =~= lit("Regex<::regex_automata::DenseDFA<&'static ["@) + spec_idty(
                re.forward.state_id_bytes,
            ) + lit("], "@) + spec_idty(re.forward.state_id_bytes) + lit(">>"@));
        }
        self.regex_emit(name, re, &full_ty, "DenseDFA", idty, idty);
        Ok(())
    }

    /// Write a forward/reverse automaton pair under the sparse (byte
    /// addressed) representation.
    pub fn sparse_regex(&mut self, name: &str, re: &RegexBytes) -> (r: Result<(), Error>)
        requires
            old(self)@.opts.dfa,
            re.forward.state_id_bytes == re.reverse.state_id_bytes,
        ensures
            !valid_width(re.forward.state_id_bytes) ==> r == Err::<(), Error>(
                Error::UnsupportedStateIdSize,
            ) && final(self)@ == spec_start(old(self)@),
            valid_width(re.forward.state_id_bytes) ==> r == Ok::<(), Error>(()) && final(self)@
                == (WriterState {
                lw: spec_regex_pair_emit(
                    spec_start(old(self)@).lw,
                    name.spec_bytes(),
                    spec_idty(re.forward.state_id_bytes),
                    false,
                ),
                artifacts: spec_regex_artifacts(
                    spec_start(old(self)@).artifacts,
                    name.spec_bytes(),
                    re,
                ),
                ..spec_start(old(self)@)
            }),
    {
        self.start();
        let idty = match rust_uint_type(re.forward.state_id_bytes) {
            Ok(t) => t,
            Err(e) => {
                return Err(e);
            },
        };
        let mut full_ty: Vec<u8> = Vec::new();
        extend_bytes(&mut full_ty, "Regex<::regex_automata::SparseDFA<&'static [u8], ".as_bytes());
        extend_bytes(&mut full_ty, idty.as_bytes());
        extend_bytes(&mut full_ty, ">>".as_bytes());
        proof {
            assert(idty.spec_bytes() == spec_idty(re.forward.state_id_bytes));
            assert(full_ty@ =~= lit("Regex<::regex_automata::SparseDFA<&'static [u8], "@)
                + spec_idty(re.forward.state_id_bytes) + lit(">>"@));
        }
        self.regex_emit(name, re, &full_ty, "SparseDFA", "u8", idty);
        Ok(())
    }

    /// The shared artifact recording and two-branch loader emission of
    /// the regex exporters.
    #[verifier::rlimit(100)]
    fn regex_emit(
        &mut self,
        name: &str,
        re: &RegexBytes,
        full_ty: &Vec<u8>,
        short_ty: &str,
        align: &str,
        idty: &str,
    )
        ensures
            final(self)@ == (WriterState {
                lw: spec_regex_branches(
                    old(self)@.lw,
                    name.spec_bytes(),
                    full_ty@,
                    short_ty.spec_bytes(),
                    align.spec_bytes(),
                ),
                artifacts: spec_regex_artifacts(
                    old(self)@.artifacts,
                    name.spec_bytes(),
                    re,
                ),
                ..old(self)@
            }),
    {
        let rust_name = module_name_bytes(name.as_bytes());
        proof {
            vstd::utf8::encode_utf8_valid_utf8(name@);
            crate::ident::lemma_module_name_valid_utf8(name.spec_bytes());
        }
        let mut fwd_be = bytes_of(&rust_name);
        extend_bytes(&mut fwd_be, ".fwd.bigendian.dfa".as_bytes());
        let mut rev_be = bytes_of(&rust_name);
        extend_bytes(&mut rev_be, ".rev.bigendian.dfa".as_bytes());
        let mut fwd_le = bytes_of(&rust_name);
        extend_bytes(&mut fwd_le, ".fwd.littleendian.dfa".as_bytes());
        let mut rev_le = bytes_of(&rust_name);
        extend_bytes(&mut rev_le, ".rev.littleendian.dfa".as_bytes());
        proof {
            vstd::utf8::encode_utf8_valid_utf8(".fwd.bigendian.dfa"@);
            vstd::utf8::encode_utf8_valid_utf8(".rev.bigendian.dfa"@);
            vstd::utf8::encode_utf8_valid_utf8(".fwd.littleendian.dfa"@);
            vstd::utf8::encode_utf8_valid_utf8(".rev.littleendian.dfa"@);
            vstd::utf8::valid_utf8_concat(spec_module_name(name.spec_bytes()), lit(".fwd.bigendian.dfa"@));
            vstd::utf8::valid_utf8_concat(spec_module_name(name.spec_bytes()), lit(".rev.bigendian.dfa"@));
            vstd::utf8::valid_utf8_concat(spec_module_name(name.spec_bytes()), lit(".fwd.littleendian.dfa"@));
            vstd::utf8::valid_utf8_concat(spec_module_name(name.spec_bytes()), lit(".rev.littleendian.dfa"@));
        }
        let ghost arts0 = self@.artifacts;
        self.artifacts.push((bytes_of(&fwd_be), bytes_of(&re.forward.big_endian)));
        self.artifacts.push((bytes_of(&rev_be), bytes_of(&re.reverse.big_endian)));
        self.artifacts.push((bytes_of(&fwd_le), bytes_of(&re.forward.little_endian)));
        self.artifacts.push((bytes_of(&rev_le), bytes_of(&re.reverse.little_endian)));
        proof {
            assert(self@.artifacts =~= spec_regex_artifacts(arts0, name.spec_bytes(), re));
        }
        let cname = bytes_of_slice(name.as_bytes());
        self.wtr.write_line("#[cfg(target_endian = \"big\")]".as_bytes());
        self.write_regex_static(&cname, full_ty, short_ty, align, &fwd_be, &rev_be);
        self.separator();
        self.wtr.write_line("#[cfg(target_endian = \"little\")]".as_bytes());
        self.write_regex_static(&cname, full_ty, short_ty, align, &fwd_le, &rev_le);
    }

    /// Write a single automaton: two artifacts (one per byte order) and
    /// the two-branch loader text, under the dense representation.
    pub fn dense_dfa(&mut self, name: &str, dfa: &DfaBytes) -> (r: Result<(), Error>)
        requires
            old(self)@.opts.dfa,
        ensures
            !valid_width(dfa.state_id_bytes) ==> r == Err::<(), Error>(
                Error::UnsupportedStateIdSize,
            ) && final(self)@ == spec_start(old(self)@),
            valid_width(dfa.state_id_bytes) ==> r == Ok::<(), Error>(()) && final(self)@
                == (WriterState {
                lw: spec_dfa_pair_emit(
                    spec_start(old(self)@).lw,
                    name.spec_bytes(),
                    spec_idty(dfa.state_id_bytes),
                    true,
                ),
                artifacts: spec_dfa_artifacts(
                    spec_start(old(self)@).artifacts,
                    name.spec_bytes(),
                    dfa,
                ),
                ..spec_start(old(self)@)
            }),
    {
        self.start();
        let idty = match rust_uint_type(dfa.state_id_bytes) {
            Ok(t) => t,
            Err(e) => {
                return Err(e);
            },
        };
        let mut full_ty: Vec<u8> = Vec::new();
        extend_bytes(&mut full_ty, "DenseDFA<&'static [".as_bytes());
        extend_bytes(&mut full_ty, idty.as_bytes());
        extend_bytes(&mut full_ty, "], ".as_bytes());
        extend_bytes(&mut full_ty, idty.as_bytes());
        extend_bytes(&mut full_ty, ">".as_bytes());
        proof {
            assert(idty.spec_bytes() == spec_idty(dfa.state_id_bytes));
            assert(full_ty@ =~= lit("DenseDFA<&'static ["@) + spec_idty(dfa.state_id_bytes) + lit(
                "], "@,
            ) + spec_idty(dfa.state_id_bytes) + lit(">"@));
        }
        self.dfa_emit(name, dfa, &full_ty, "DenseDFA", idty);
        Ok(())
    }

    /// Write a single automaton under the sparse representation.
    pub fn sparse_dfa(&mut self, name: &str, dfa: &DfaBytes) -> (r: Result<(), Error>)
        requires
            old(self)@.opts.dfa,
        ensures
            !valid_width(dfa.state_id_bytes) ==> r == Err::<(), Error>(
                Error::UnsupportedStateIdSize,
            ) && final(self)@ == spec_start(old(self)@),
            valid_width(dfa.state_id_bytes) ==> r == Ok::<(), Error>(()) && final(self)@
                == (WriterState {
                lw: spec_dfa_pair_emit(
                    spec_start(old(self)@).lw,
                    name.spec_bytes(),
                    spec_idty(dfa.state_id_bytes),
                    false,
                ),
                artifacts: spec_dfa_artifacts(
                    spec_start(old(self)@).artifacts,
                    name.spec_bytes(),
                    dfa,
                ),
                ..spec_start(old(self)@)
            }),
    {
        self.start();
        let idty = match rust_uint_type(dfa.state_id_bytes) {
            Ok(t) => t,
            Err(e) => {
                return Err(e);
            },
        };
        let mut full_ty: Vec<u8> = Vec::new();
        extend_bytes(&mut full_ty, "SparseDFA<&'static [u8], ".as_bytes());
        extend_bytes(&mut full_ty, idty.as_bytes());
        extend_bytes(&mut full_ty, ">".as_bytes());
        proof {
            assert(idty.spec_bytes() == spec_idty(dfa.state_id_bytes));
            assert(full_ty@ =~= lit("SparseDFA<&'static [u8], "@) + spec_idty(dfa.state_id_bytes)
                + lit(">"@));
        }
        self.dfa_emit(name, dfa, &full_ty, "SparseDFA", "u8");
        Ok(())
    }

    /// The shared artifact recording and two-branch loader emission of
    /// the single-automaton exporters.
    fn dfa_emit(&mut self, name: &str, dfa: &DfaBytes, full_ty: &Vec<u8>, short_ty: &str, align: &str)
        ensures
            final(self)@ == (WriterState {
                lw: spec_dfa_branches(
                    old(self)@.lw,
                    name.spec_bytes(),
                    full_ty@,
                    short_ty.spec_bytes(),
                    align.spec_bytes(),
                ),
                artifacts: spec_dfa_artifacts(
                    old(self)@.artifacts,
                    name.spec_bytes(),
                    dfa,
                ),
                ..old(self)@
            }),
    {
        let rust_name = module_name_bytes(name.as_bytes());
        proof {
            vstd::utf8::encode_utf8_valid_utf8(name@);
            crate::ident::lemma_module_name_valid_utf8(name.spec_bytes());
        }
        let mut f_be = bytes_of(&rust_name);
        extend_bytes(&mut f_be, ".bigendian.dfa".as_bytes());
        let mut f_le = bytes_of(&rust_name);
        extend_bytes(&mut f_le, ".littleendian.dfa".as_bytes());
        proof {
            vstd::utf8::encode_utf8_valid_utf8(".bigendian.dfa"@);
            vstd::utf8::encode_utf8_valid_utf8(".littleendian.dfa"@);
            vstd::utf8::valid_utf8_concat(spec_module_name(name.spec_bytes()), lit(".bigendian.dfa"@));
            vstd::utf8::valid_utf8_concat(spec_module_name(name.spec_bytes()), lit(".littleendian.dfa"@));
        }
        let ghost arts0 = self@.artifacts;
        self.artifacts.push((bytes_of(&f_be), bytes_of(&dfa.big_endian)));
        self.artifacts.push((bytes_of(&f_le), bytes_of(&dfa.little_endian)));
        proof {
            assert(self@.artifacts =~= spec_dfa_artifacts(arts0, name.spec_bytes(), dfa));
        }
        let cname = bytes_of_slice(name.as_bytes());
        self.wtr.write_line("#[cfg(target_endian = \"big\")]".as_bytes());
        self.write_dfa_static(&cname, full_ty, short_ty, align, &f_be);
        self.separator();
        self.wtr.write_line("#[cfg(target_endian = \"little\")]".as_bytes());
        self.write_dfa_static(&cname, full_ty, short_ty, align, &f_le);
    }
}

} // verus!

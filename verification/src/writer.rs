//! The table writer: the orchestrator that turns sets and maps into
//! emitted Rust source text and auxiliary binary artifacts.
//!
//! A writer owns a [`LineWriter`] whose output is an in-memory byte
//! buffer, and a list of named binary artifacts (transducer and automaton
//! serializations) that a caller writes to disk.  The one piece of
//! cross-call state is the provenance header, written exactly once per
//! writer, before the first table.

use vstd::prelude::*;
use vstd::string::StringSliceAdditionalSpecFns;
use vstd::utf8::encode_utf8;

use crate::line::{lw_line, LineWriter, LwState};
use crate::render::{extend_bytes, extend_bytes_vec, lit, spec_dec};

verus! {

/// The configuration of a writer: immutable once emission begins.
pub struct WriterOptions {
    /// The logical module name of the output.
    pub name: Vec<u8>,
    /// The column budget for emitted lines.
    pub columns: u64,
    /// Whether codepoints are emitted as `char` literals instead of `u32`
    /// literals.
    pub char_literals: bool,
    /// Whether tables are emitted as finite-state transducer artifacts.
    pub fst: bool,
    /// Whether codepoint sets are emitted as bitmap tries.
    pub trie_set: bool,
    /// Whether automaton artifacts may be written.
    pub dfa: bool,
    /// The version stamp of the data source, if configured.
    pub ucd_version: Option<(u64, u64, u64)>,
    /// The invoking command line, for the provenance header.
    pub argv: Vec<Vec<u8>>,
}

/// The spec-level image of a writer configuration.
pub struct OptState {
    pub name: Seq<u8>,
    pub columns: u64,
    pub char_literals: bool,
    pub fst: bool,
    pub trie_set: bool,
    pub dfa: bool,
    pub ucd_version: Option<(u64, u64, u64)>,
    pub argv: Seq<Seq<u8>>,
}

impl View for WriterOptions {
    type V = OptState;

    open spec fn view(&self) -> OptState {
        OptState {
            name: self.name@,
            columns: self.columns,
            char_literals: self.char_literals,
            fst: self.fst,
            trie_set: self.trie_set,
            dfa: self.dfa,
            ucd_version: self.ucd_version,
            argv: Seq::new(self.argv@.len(), |i: int| self.argv@[i]@),
        }
    }
}

impl WriterOptions {
    /// An identical copy of this configuration.
    fn dup(&self) -> (r: WriterOptions)
        ensures
            r@ == self@,
    {
        let mut argv: Vec<Vec<u8>> = Vec::new();
        let mut i: usize = 0;
        while i < self.argv.len()
            invariant
                i <= self.argv@.len(),
                argv@.len() == i,
                forall|j: int| 0 <= j < i ==> (#[trigger] argv@[j])@ == self.argv@[j]@,
            decreases self.argv@.len() - i,
        {
            let mut a: Vec<u8> = Vec::new();
            extend_bytes(&mut a, self.argv[i].as_slice());
            argv.push(a);
            i = i + 1;
        }
        let mut name: Vec<u8> = Vec::new();
        extend_bytes(&mut name, self.name.as_slice());
        let r = WriterOptions {
            name,
            columns: self.columns,
            char_literals: self.char_literals,
            fst: self.fst,
            trie_set: self.trie_set,
            dfa: self.dfa,
            ucd_version: self.ucd_version,
            argv,
        };
        proof {
            assert(r@.argv =~= self@.argv);
            assert(r@.name =~= self@.name);
        }
        r
    }
}

/// A builder of writers: collects the configuration, then creates
/// writers from it.
pub struct WriterBuilder {
    pub opts: WriterOptions,
}

impl View for WriterBuilder {
    type V = OptState;

    open spec fn view(&self) -> OptState {
        self.opts@
    }
}

impl WriterBuilder {
    /// A fresh builder for output of the given logical name, with the
    /// default configuration: 79 columns, numeric codepoint literals,
    /// range tables rather than tries, no transducer or automaton output,
    /// no version stamp and an empty command line.
    pub fn new(name: &str) -> (r: WriterBuilder)
        ensures
            r@ == (OptState {
                name: name.spec_bytes(),
                columns: 79,
                char_literals: false,
                fst: false,
                trie_set: false,
                dfa: false,
                ucd_version: None,
                argv: Seq::empty(),
            }),
    {
        let mut n: Vec<u8> = Vec::new();
        extend_bytes(&mut n, name.as_bytes());
        let r = WriterBuilder {
            opts: WriterOptions {
                name: n,
                columns: 79,
                char_literals: false,
                fst: false,
                trie_set: false,
                dfa: false,
                ucd_version: None,
                argv: Vec::new(),
            },
        };
        proof {
            assert(r@.argv =~= Seq::<Seq<u8>>::empty());
            assert(r@.name =~= name.spec_bytes());
        }
        r
    }

    /// Set the column budget for emitted lines.
    pub fn columns(&mut self, columns: u64)
        ensures
            final(self)@ == (OptState { columns, ..old(self)@ }),
    {
        self.opts.columns = columns;
    }

    /// Emit `char` literals instead of `u32` literals; codepoints that
    /// are not scalar values are then dropped from emitted tables.
    pub fn char_literals(&mut self, yes: bool)
        ensures
            final(self)@ == (OptState { char_literals: yes, ..old(self)@ }),
    {
        self.opts.char_literals = yes;
    }

    /// Emit codepoint sets as bitmap tries instead of range tables.
    pub fn trie_set(&mut self, yes: bool)
        ensures
            final(self)@ == (OptState { trie_set: yes, ..old(self)@ }),
    {
        self.opts.trie_set = yes;
    }

    /// Emit tables as finite-state transducer artifacts.
    pub fn fst_output(&mut self, yes: bool)
        ensures
            final(self)@ == (OptState { fst: yes, ..old(self)@ }),
    {
        self.opts.fst = yes;
    }

    /// Allow automaton artifacts to be written.
    pub fn dfa_output(&mut self, yes: bool)
        ensures
            final(self)@ == (OptState { dfa: yes, ..old(self)@ }),
    {
        self.opts.dfa = yes;
    }

    /// Set the version of the data source the output is generated from.
    pub fn ucd_version(&mut self, major: u64, minor: u64, patch: u64)
        ensures
            final(self)@ == (OptState {
                ucd_version: Some((major, minor, patch)),
                ..old(self)@
            }),
    {
        self.opts.ucd_version = Some((major, minor, patch));
    }

    /// Set the invoking command line recorded in the provenance header.
    pub fn command(&mut self, argv: &Vec<String>)
        ensures
            final(self)@ == (OptState {
                argv: Seq::new(argv@.len(), |i: int| encode_utf8(argv@[i]@)),
                ..old(self)@
            }),
    {
        let mut v: Vec<Vec<u8>> = Vec::new();
        let mut i: usize = 0;
        while i < argv.len()
            invariant
                i <= argv@.len(),
                v@.len() == i,
                forall|j: int| 0 <= j < i ==> (#[trigger] v@[j])@ == encode_utf8(argv@[j]@),
            decreases argv@.len() - i,
        {
            let mut a: Vec<u8> = Vec::new();
            extend_bytes(&mut a, argv[i].as_str().as_bytes());
            v.push(a);
            i = i + 1;
        }
        self.opts.argv = v;
        proof {
            assert(self@.argv =~= Seq::new(argv@.len(), |i: int| encode_utf8(argv@[i]@)));
        }
    }

    /// A fresh writer over an empty in-memory output, carrying this
    /// builder's configuration.
    pub fn from_writer(&self) -> (r: Writer)
        ensures
            r@ == (WriterState {
                lw: LwState {
                    out: Seq::empty(),
                    line: Seq::empty(),
                    indent: lit("  "@),
                    columns: self@.columns,
                },
                wrote_header: false,
                opts: self@,
                artifacts: Seq::empty(),
            }),
    {
        let r = Writer {
            wtr: LineWriter::new(self.opts.columns),
            wrote_header: false,
            opts: self.opts.dup(),
            artifacts: Vec::new(),
        };
        proof {
            assert(r@.artifacts =~= Seq::<(Seq<u8>, Seq<u8>)>::empty());
        }
        r
    }
}

/// The spec-level image of a writer: its line writer, the one-shot
/// header flag, its configuration and its recorded artifacts.
pub struct WriterState {
    pub lw: LwState,
    pub wrote_header: bool,
    pub opts: OptState,
    pub artifacts: Seq<(Seq<u8>, Seq<u8>)>,
}

/// A writer of tables: emits Rust source text into an in-memory buffer
/// and records named binary artifacts for the caller to store.
pub struct Writer {
    pub wtr: LineWriter,
    pub wrote_header: bool,
    pub opts: WriterOptions,
    pub artifacts: Vec<(Vec<u8>, Vec<u8>)>,
}

impl View for Writer {
    type V = WriterState;

    open spec fn view(&self) -> WriterState {
        WriterState {
            lw: self.wtr@,
            wrote_header: self.wrote_header,
            opts: self.opts@,
            artifacts: Seq::new(
                self.artifacts@.len(),
                |i: int| (self.artifacts@[i].0@, self.artifacts@[i].1@),
            ),
        }
    }
}

/// An argument of the provenance header: one holding a line break is
/// replaced by a fixed note.
pub open spec fn spec_redact(arg: Seq<u8>) -> Seq<u8> {
    if arg.contains(0x0Au8) {
        lit("[snip (arg too long)]"@)
    } else {
        arg
    }
}

/// The arguments joined by single spaces.
pub open spec fn spec_join_space(args: Seq<Seq<u8>>) -> Seq<u8>
    decreases args.len(),
{
    if args.len() == 0 {
        Seq::empty()
    } else if args.len() == 1 {
        args[0]
    } else {
        spec_join_space(args.drop_last()) + lit(" "@) + args.last()
    }
}

/// The provenance header lines: the note, the redacted command line and,
/// when configured, the version stamp.
pub open spec fn spec_header_lines(st: LwState, opts: OptState) -> LwState {
    let st1 = lw_line(st, lit("// DO NOT EDIT THIS FILE. IT WAS AUTOMATICALLY GENERATED BY:"@));
    let st2 = lw_line(st1, lit("//"@));
    let st3 = lw_line(
        st2,
        lit("//   "@) + spec_join_space(opts.argv.map_values(|a: Seq<u8>| spec_redact(a))),
    );
    let st4 = lw_line(st3, lit("//"@));
    match opts.ucd_version {
        Some(v) => {
            let st5 = lw_line(
                st4,
                lit("// Unicode version: "@) + spec_dec(v.0 as int) + lit("."@) + spec_dec(
                    v.1 as int,
                ) + lit("."@) + spec_dec(v.2 as int) + lit("."@),
            );
            lw_line(st5, lit("//"@))
        },
        None => st4,
    }
}

/// The writer after the one-shot header: unchanged if it was already
/// written, else the header lines are emitted and the flag set.
pub open spec fn spec_header(s: WriterState) -> WriterState {
    if s.wrote_header {
        s
    } else {
        WriterState {
            lw: spec_header_lines(s.lw, s.opts),
            wrote_header: true,
            opts: s.opts,
            artifacts: s.artifacts,
        }
    }
}

/// The writer after the header and the blank separator line that starts
/// every table.
pub open spec fn spec_start(s: WriterState) -> WriterState {
    let s1 = spec_header(s);
    WriterState {
        lw: lw_line(s1.lw, Seq::empty()),
        wrote_header: s1.wrote_header,
        opts: s1.opts,
        artifacts: s1.artifacts,
    }
}

/// The Rust type of emitted codepoints under the chosen literal style.
pub open spec fn spec_cp_type(char_literals: bool) -> Seq<u8> {
    if char_literals {
        lit("char"@)
    } else {
        lit("u32"@)
    }
}

impl Writer {
    /// The emitted text so far.
    pub fn output(&self) -> (r: &Vec<u8>)
        ensures
            r@ == self@.lw.out,
    {
        &self.wtr.out
    }

    /// The binary artifacts recorded so far, each a file name with its
    /// contents.
    pub fn artifacts(&self) -> (r: &Vec<(Vec<u8>, Vec<u8>)>)
        ensures
            r@.len() == self@.artifacts.len(),
            forall|i: int|
                0 <= i < r@.len() ==> (#[trigger] r@[i]).0@ == self@.artifacts[i].0 && r@[i].1@
                    == self@.artifacts[i].1,
    {
        &self.artifacts
    }

    /// The logical module name this writer was built for.
    pub fn name(&self) -> (r: &Vec<u8>)
        ensures
            r@ == self@.opts.name,
    {
        &self.opts.name
    }

    /// Write the provenance header if it has not been written yet.
    pub(crate) fn header(&mut self)
        ensures
            final(self)@ == spec_header(old(self)@),
    {
        if self.wrote_header {
            return ;
        }
        self.wtr.write_line(
            "// DO NOT EDIT THIS FILE. IT WAS AUTOMATICALLY GENERATED BY:".as_bytes(),
        );
        self.wtr.write_line("//".as_bytes());
        let ghost margv = self@.opts.argv.map_values(|a: Seq<u8>| spec_redact(a));
        let mut line: Vec<u8> = Vec::new();
        extend_bytes(&mut line, "//   ".as_bytes());
        let mut i: usize = 0;
        let ghost snap = *self;
        proof {
            assert(margv.take(0) =~= Seq::<Seq<u8>>::empty());
        }
        while i < self.opts.argv.len()
            invariant
                i <= self.opts.argv@.len(),
                *self == snap,
                margv == self@.opts.argv.map_values(|a: Seq<u8>| spec_redact(a)),
                line@ == lit("//   "@) + spec_join_space(margv.take(i as int)),
            decreases self.opts.argv@.len() - i,
        {
            if i > 0 {
                extend_bytes(&mut line, " ".as_bytes());
            }
            let arg = &self.opts.argv[i];
            let mut snip = false;
            let mut j: usize = 0;
            while j < arg.len()
                invariant
                    j <= arg@.len(),
                    arg@ == self.opts.argv@[i as int]@,
                    snip == exists|k: int| 0 <= k < j && arg@[k] == 0x0Au8,
                decreases arg@.len() - j,
            {
                if arg[j] == 0x0A {
                    snip = true;
                }
                j = j + 1;
            }
            proof {
                assert(snip == arg@.contains(0x0Au8));
            }
            if snip {
                extend_bytes(&mut line, "[snip (arg too long)]".as_bytes());
            } else {
                let ghost before = line@;
                extend_bytes(&mut line, self.opts.argv[i].as_slice());
            }
            proof {
                assert(margv[i as int] == spec_redact(self@.opts.argv[i as int]));
                assert(margv.take(i as int + 1).drop_last() =~= margv.take(i as int));
                if i == 0 {
                    assert(spec_join_space(margv.take(1)) == margv[0]);
                } else {
                    assert(spec_join_space(margv.take(i as int + 1)) == spec_join_space(
                        margv.take(i as int),
                    ) + lit(" "@) + margv[i as int]);
                }
                assert(line@ =~= lit("//   "@) + spec_join_space(margv.take(i as int + 1)));
            }
            i = i + 1;
        }
        proof {
            assert(margv.take(margv.len() as int) =~= margv);
        }
        self.wtr.write_line(line.as_slice());
        self.wtr.write_line("//".as_bytes());
        if let Some(v) = self.opts.ucd_version {
            let mut vline: Vec<u8> = Vec::new();
            extend_bytes(&mut vline, "// Unicode version: ".as_bytes());
            let d0 = crate::render::dec_u64(v.0);
            extend_bytes_vec(&mut vline, &d0);
            extend_bytes(&mut vline, ".".as_bytes());
            let d1 = crate::render::dec_u64(v.1);
            extend_bytes_vec(&mut vline, &d1);
            extend_bytes(&mut vline, ".".as_bytes());
            let d2 = crate::render::dec_u64(v.2);
            extend_bytes_vec(&mut vline, &d2);
            extend_bytes(&mut vline, ".".as_bytes());
            proof {
                assert(vline@ =~= lit("// Unicode version: "@) + spec_dec(v.0 as int) + lit("."@)
                    + spec_dec(v.1 as int) + lit("."@) + spec_dec(v.2 as int) + lit("."@));
            }
            self.wtr.write_line(vline.as_slice());
            self.wtr.write_line("//".as_bytes());
        }
        self.wrote_header = true;
    }

    /// Write the blank line that separates tables.
    pub(crate) fn separator(&mut self)
        ensures
            final(self)@ == (WriterState {
                lw: lw_line(old(self)@.lw, Seq::empty()),
                ..old(self)@
            }),
    {
        let e: Vec<u8> = Vec::new();
        self.wtr.write_line(e.as_slice());
    }

    /// The header followed by the separator, as every table emission
    /// begins.
    pub(crate) fn start(&mut self)
        ensures
            final(self)@ == spec_start(old(self)@),
    {
        self.header();
        self.separator();
    }

    /// The Rust source name of the codepoint type this writer emits.
    pub fn rust_codepoint_type(&self) -> (r: &'static str)
        ensures
            r.spec_bytes() == spec_cp_type(self@.opts.char_literals),
    {
        if self.opts.char_literals {
            "char"
        } else {
            "u32"
        }
    }
}

} // verus!

//! The line-wrapping emitter: a column-limited text sink.
//!
//! Tokens accumulate into a pending line; a token that would push the
//! pending line past the column budget flushes the line first.  Tokens are
//! atomic: a single token longer than the budget is still emitted whole,
//! on a line of its own, so the budget is advisory.  Each flushed line is
//! prefixed by the configured indent (applied once per line, not per
//! token) and trimmed of trailing whitespace.

use vstd::prelude::*;

use crate::render::{extend_bytes, lit};

verus! {

/// The spec-level state of a [`LineWriter`]: the flushed output, the
/// pending line, the indent prefix and the column budget.
pub struct LwState {
    pub out: Seq<u8>,
    pub line: Seq<u8>,
    pub indent: Seq<u8>,
    pub columns: u64,
}

/// Whether `b` is trailing whitespace to be trimmed from a flushed line.
pub open spec fn is_trim_byte(b: u8) -> bool {
    b == 0x20 || b == 0x09 || b == 0x0A || b == 0x0B || b == 0x0C || b == 0x0D
}

/// `s` without its trailing whitespace bytes.
pub open spec fn spec_trim_end(s: Seq<u8>) -> Seq<u8>
    decreases s.len(),
{
    if s.len() > 0 && is_trim_byte(s.last()) {
        spec_trim_end(s.drop_last())
    } else {
        s
    }
}

/// The newline byte.
pub open spec fn nl() -> Seq<u8> {
    seq![0x0Au8]
}

/// Flushing: a non-empty pending line is trimmed and emitted with a
/// newline; an empty pending line is left alone.
pub open spec fn lw_flush(st: LwState) -> LwState {
    if st.line.len() == 0 {
        st
    } else {
        LwState {
            out: st.out + spec_trim_end(st.line) + nl(),
            line: Seq::empty(),
            indent: st.indent,
            columns: st.columns,
        }
    }
}

/// Writing a token: flush first if the token would push the pending line
/// past the budget; then append the token, after the indent if the line
/// was empty.
pub open spec fn lw_token(st: LwState, s: Seq<u8>) -> LwState {
    let st1 = if st.line.len() + s.len() > st.columns {
        lw_flush(st)
    } else {
        st
    };
    let base = if st1.line.len() == 0 {
        st1.indent
    } else {
        st1.line
    };
    LwState { out: st1.out, line: base + s, indent: st1.indent, columns: st1.columns }
}

/// Writing a whole line: flush the pending line, then emit `s` and a
/// newline directly, bypassing the budget.
pub open spec fn lw_line(st: LwState, s: Seq<u8>) -> LwState {
    let st1 = lw_flush(st);
    LwState { out: st1.out + s + nl(), line: st1.line, indent: st1.indent, columns: st1.columns }
}

/// The budget law: after a token is written, a pending line that exceeds
/// the column budget consists of the indent and that one token, whole.
/// Wrapping never splits a token, and a line only ever exceeds the budget
/// by carrying a single oversized token.
pub proof fn lemma_token_budget(st: LwState, s: Seq<u8>)
    ensures
        lw_token(st, s).line.len() > st.columns ==> lw_token(st, s).line == st.indent + s,
{
}

/// Whether `b` is trailing whitespace to be trimmed.
fn trim_byte(b: u8) -> (r: bool)
    ensures
        r == is_trim_byte(b),
{
    b == 0x20 || b == 0x09 || b == 0x0A || b == 0x0B || b == 0x0C || b == 0x0D
}

/// A column-limited text sink that accumulates whole tokens into lines.
pub struct LineWriter {
    pub out: Vec<u8>,
    pub line: Vec<u8>,
    pub indent: Vec<u8>,
    pub columns: u64,
}

impl View for LineWriter {
    type V = LwState;

    open spec fn view(&self) -> LwState {
        LwState { out: self.out@, line: self.line@, indent: self.indent@, columns: self.columns }
    }
}

impl LineWriter {
    /// A fresh writer with the given column budget, an empty output and a
    /// two-space indent.
    pub fn new(columns: u64) -> (r: LineWriter)
        ensures
            r@ == (LwState {
                out: Seq::<u8>::empty(),
                line: Seq::<u8>::empty(),
                indent: lit("  "@),
                columns,
            }),
    {
        let mut ind: Vec<u8> = Vec::new();
        extend_bytes(&mut ind, "  ".as_bytes());
        let r = LineWriter { out: Vec::new(), line: Vec::new(), indent: ind, columns };
        proof {
            assert(r@.indent =~= lit("  "@));
        }
        r
    }

    /// Emit the pending line, trimmed, followed by a newline; a no-op on
    /// an empty pending line.
    pub fn flush_line(&mut self)
        ensures
            final(self)@ == lw_flush(old(self)@),
    {
        if self.line.len() == 0 {
            return ;
        }
        let mut end = self.line.len();
        proof {
            assert(self.line@.take(self.line@.len() as int) =~= self.line@);
        }
        while end > 0 && trim_byte(self.line[end - 1])
            invariant
                end <= self.line@.len(),
                spec_trim_end(self.line@) == spec_trim_end(self.line@.take(end as int)),
                *self == *old(self),
            decreases end,
        {
            proof {
                assert(self.line@.take(end as int).drop_last() =~= self.line@.take(end as int - 1));
            }
            end = end - 1;
        }
        proof {
            if end > 0 {
                assert(spec_trim_end(self.line@.take(end as int)) == self.line@.take(end as int));
            } else {
                assert(self.line@.take(0) =~= Seq::<u8>::empty());
            }
        }
        let mut i: usize = 0;
        while i < end
            invariant
                i <= end <= self.line@.len(),
                self.line@ == old(self).line@,
                self.indent@ == old(self).indent@,
                self.columns == old(self).columns,
                self.out@ == old(self).out@ + self.line@.take(end as int).take(i as int),
            decreases end - i,
        {
            let b = self.line[i];
            self.out.push(b);
            proof {
                assert(old(self).out@ + self.line@.take(end as int).take(i as int + 1) =~= (old(
                    self,
                ).out@ + self.line@.take(end as int).take(i as int)).push(b));
            }
            i = i + 1;
        }
        proof {
            assert(old(self).line@.take(end as int).take(end as int) =~= old(self).line@.take(
                end as int,
            ));
        }
        self.out.push(0x0A);
        self.line.clear();
        proof {
            assert(self@.out =~= old(self)@.out + spec_trim_end(old(self)@.line) + nl());
        }
    }

    /// Write one token, flushing first when it would push the pending
    /// line past the budget.
    pub fn write_str(&mut self, s: &[u8])
        ensures
            final(self)@ == lw_token(old(self)@, s@),
    {
        if self.line.len() as u128 + s.len() as u128 > self.columns as u128 {
            self.flush_line();
        }
        if self.line.len() == 0 {
            let ghost before = self@;
            extend_bytes(&mut self.line, self.indent.as_slice());
            proof {
                assert(self.line@ =~= before.indent + before.line);
                assert(self.line@ =~= before.indent);
            }
        }
        extend_bytes(&mut self.line, s);
    }

    /// Write a whole line: flush the pending line, then emit `s` and a
    /// newline directly.
    pub fn write_line(&mut self, s: &[u8])
        ensures
            final(self)@ == lw_line(old(self)@, s@),
    {
        self.flush_line();
        extend_bytes(&mut self.out, s);
        self.out.push(0x0A);
        proof {
            assert(self@.out =~= lw_flush(old(self)@).out + s@ + nl());
        }
    }

    /// Set the indent prefix applied to each flushed line.
    pub fn indent(&mut self, s: &[u8])
        ensures
            final(self)@ == (LwState {
                out: old(self)@.out,
                line: old(self)@.line,
                indent: s@,
                columns: old(self)@.columns,
            }),
    {
        let mut v: Vec<u8> = Vec::new();
        extend_bytes(&mut v, s);
        self.indent = v;
    }
}

} // verus!

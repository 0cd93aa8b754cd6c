//! The interval compressor: collapsing a sorted, duplicate-free sequence
//! of codepoints (or of codepoint/value pairs) into the minimal sequence
//! of inclusive runs.
//!
//! A run sequence is well-formed when every run has `start <= end` and no
//! two adjacent runs could be merged: for plain sets, adjacent runs are
//! separated by a gap; for valued runs, touching runs carry different
//! values.  The compressors below return well-formed runs whose expansion
//! is exactly the input sequence, which pins the result down completely:
//! a sorted duplicate-free sequence has exactly one such run cover.

use vstd::prelude::*;

verus! {

/// Whether a sequence of codepoints is strictly increasing.
pub open spec fn strictly_increasing(s: Seq<u32>) -> bool {
    forall|i: int, j: int| 0 <= i < j < s.len() ==> s[i] < s[j]
}

/// Whether the keys of a key/value sequence are strictly increasing.
pub open spec fn keys_increasing<V>(s: Seq<(u32, V)>) -> bool {
    forall|i: int, j: int| 0 <= i < j < s.len() ==> (#[trigger] s[i]).0 < (#[trigger] s[j]).0
}

/// The codepoints of the inclusive range `start ..= end`, in order.
pub open spec fn run_seq(start: u32, end: u32) -> Seq<u32>
    recommends
        start <= end,
{
    Seq::new((end - start + 1) as nat, |i: int| (start + i) as u32)
}

/// The expansion of a run sequence back into its covered codepoints.
pub open spec fn expand_runs(runs: Seq<(u32, u32)>) -> Seq<u32>
    decreases runs.len(),
{
    if runs.len() == 0 {
        Seq::empty()
    } else {
        expand_runs(runs.drop_last()) + run_seq(runs.last().0, runs.last().1)
    }
}

/// Well-formedness of a set run sequence: ordered runs, each with
/// `start <= end`, and a gap between adjacent runs, so that no two could
/// be merged.
pub open spec fn runs_wf(runs: Seq<(u32, u32)>) -> bool {
    (forall|i: int| 0 <= i < runs.len() ==> (#[trigger] runs[i]).0 <= runs[i].1) && (forall|i: int|
        0 <= i < runs.len() - 1 ==> (#[trigger] runs[i]).1 + 1 < runs[i + 1].0)
}

/// The key/value pairs of the inclusive range `start ..= end`, all with
/// value `v`, in key order.
pub open spec fn run_seq_val<V>(start: u32, end: u32, v: V) -> Seq<(u32, V)>
    recommends
        start <= end,
{
    Seq::new((end - start + 1) as nat, |i: int| ((start + i) as u32, v))
}

/// The expansion of a valued run sequence back into key/value pairs.
pub open spec fn expand_runs_val<V>(runs: Seq<(u32, u32, V)>) -> Seq<(u32, V)>
    decreases runs.len(),
{
    if runs.len() == 0 {
        Seq::empty()
    } else {
        expand_runs_val(runs.drop_last()) + run_seq_val(
            runs.last().0,
            runs.last().1,
            runs.last().2,
        )
    }
}

/// Well-formedness of a valued run sequence: ordered disjoint runs, each
/// with `start <= end`, and no two adjacent runs mergeable: runs that
/// touch carry different values.
pub open spec fn runs_val_wf<V>(runs: Seq<(u32, u32, V)>) -> bool {
    (forall|i: int| 0 <= i < runs.len() ==> (#[trigger] runs[i]).0 <= runs[i].1) && (forall|i: int|
        0 <= i < runs.len() - 1 ==> (#[trigger] runs[i]).1 < runs[i + 1].0) && (forall|i: int|
        0 <= i < runs.len() - 1 ==> ((#[trigger] runs[i]).1 + 1 == runs[i + 1].0 ==> runs[i].2
            != runs[i + 1].2))
}

/// A codepoint lies in the expansion of well-started runs exactly when
/// some run covers it.
pub proof fn lemma_expand_contains(runs: Seq<(u32, u32)>)
    requires
        forall|i: int| 0 <= i < runs.len() ==> (#[trigger] runs[i]).0 <= runs[i].1,
    ensures
        forall|cp: u32|
            expand_runs(runs).contains(cp) <==> exists|i: int|
                0 <= i < runs.len() && (#[trigger] runs[i]).0 <= cp <= runs[i].1,
    decreases runs.len(),
{
    if runs.len() == 0 {
        assert forall|cp: u32| !expand_runs(runs).contains(cp) by {
            assert(expand_runs(runs).len() == 0);
        }
    } else {
        let front = runs.drop_last();
        let last = runs.last();
        lemma_expand_contains(front);
        assert forall|cp: u32| expand_runs(runs).contains(cp) implies exists|i: int|
            0 <= i < runs.len() && (#[trigger] runs[i]).0 <= cp <= runs[i].1 by {
            let k = choose|k: int| 0 <= k < expand_runs(runs).len() && expand_runs(runs)[k] == cp;
            if k < expand_runs(front).len() {
                assert(expand_runs(front)[k] == cp);
                assert(expand_runs(front).contains(cp));
                let i = choose|i: int|
                    0 <= i < front.len() && (#[trigger] front[i]).0 <= cp <= front[i].1;
                assert(runs[i] == front[i]);
            } else {
                let j = k - expand_runs(front).len();
                assert(run_seq(last.0, last.1)[j] == cp);
                assert(runs[runs.len() - 1] == last);
                assert(last.0 <= cp <= last.1);
            }
        }
        assert forall|cp: u32|
            (exists|i: int| 0 <= i < runs.len() && (#[trigger] runs[i]).0 <= cp <= runs[i].1)
            implies expand_runs(runs).contains(cp) by {
            let i = choose|i: int|
                0 <= i < runs.len() && (#[trigger] runs[i]).0 <= cp <= runs[i].1;
            if i < front.len() {
                assert(front[i] == runs[i]);
                assert(expand_runs(front).contains(cp));
                let k = choose|k: int|
                    0 <= k < expand_runs(front).len() && expand_runs(front)[k] == cp;
                assert(expand_runs(runs)[k] == cp);
            } else {
                let j = cp - last.0;
                assert(run_seq(last.0, last.1)[j] == cp);
                assert(expand_runs(runs)[expand_runs(front).len() + j] == cp);
            }
        }
    }
}

/// Compress a strictly increasing sequence of codepoints into the unique
/// minimal well-formed run sequence covering exactly those codepoints.
pub fn to_ranges(cps: &Vec<u32>) -> (r: Vec<(u32, u32)>)
    requires
        strictly_increasing(cps@),
    ensures
        runs_wf(r@),
        expand_runs(r@) == cps@,
{
    let mut runs: Vec<(u32, u32)> = Vec::new();
    if cps.len() == 0 {
        proof {
            assert(expand_runs(runs@) =~= cps@);
        }
        return runs;
    }
    let mut cs = cps[0];
    let mut ce = cps[0];
    let mut i: usize = 1;
    proof {
        assert(run_seq(cs, ce) =~= cps@.take(1));
        assert(expand_runs(runs@) + run_seq(cs, ce) =~= cps@.take(1));
    }
    while i < cps.len()
        invariant
            1 <= i <= cps@.len(),
            strictly_increasing(cps@),
            cs <= ce,
            ce == cps@[i - 1],
            expand_runs(runs@) + run_seq(cs, ce) == cps@.take(i as int),
            forall|k: int| 0 <= k < runs@.len() ==> (#[trigger] runs@[k]).0 <= runs@[k].1,
            forall|k: int| 0 <= k < runs@.len() - 1 ==> (#[trigger] runs@[k]).1 + 1 < runs@[k
                + 1].0,
            runs@.len() > 0 ==> runs@.last().1 + 1 < cs,
        decreases cps@.len() - i,
    {
        let cp = cps[i];
        proof {
            assert(cps@[i - 1] < cps@[i as int]);
            assert(cps@.take(i as int + 1).drop_last() =~= cps@.take(i as int));
        }
        if cp == ce + 1 {
            proof {
                assert(run_seq(cs, (ce + 1) as u32) =~= run_seq(cs, ce).push(cp));
                assert(expand_runs(runs@) + run_seq(cs, (ce + 1) as u32) =~= (expand_runs(runs@)
                    + run_seq(cs, ce)).push(cp));
                assert(cps@.take(i as int + 1) =~= cps@.take(i as int).push(cp));
            }
            ce = cp;
        } else {
            let ghost before = runs@;
            runs.push((cs, ce));
            proof {
                assert(runs@.drop_last() =~= before);
                assert(expand_runs(runs@) == expand_runs(before) + run_seq(cs, ce));
                assert(run_seq(cp, cp) =~= seq![cp]);
                assert(expand_runs(runs@) + run_seq(cp, cp) =~= cps@.take(i as int).push(cp));
                assert(cps@.take(i as int + 1) =~= cps@.take(i as int).push(cp));
            }
            cs = cp;
            ce = cp;
        }
        i = i + 1;
    }
    let ghost before = runs@;
    runs.push((cs, ce));
    proof {
        assert(runs@.drop_last() =~= before);
        assert(expand_runs(runs@) == expand_runs(before) + run_seq(cs, ce));
        assert(cps@.take(cps@.len() as int) =~= cps@);
    }
    runs
}

/// Compress a key-sorted key/value sequence into the unique minimal
/// well-formed valued run sequence whose expansion is exactly the input:
/// adjacent keys merge into one run exactly when they are consecutive and
/// carry equal values.
pub fn to_range_values(pairs: &Vec<(u32, u64)>) -> (r: Vec<(u32, u32, u64)>)
    requires
        keys_increasing(pairs@),
    ensures
        runs_val_wf(r@),
        expand_runs_val(r@) == pairs@,
{
    let mut runs: Vec<(u32, u32, u64)> = Vec::new();
    if pairs.len() == 0 {
        proof {
            assert(expand_runs_val(runs@) =~= pairs@);
        }
        return runs;
    }
    let mut cs = pairs[0].0;
    let mut ce = pairs[0].0;
    let mut cv = pairs[0].1;
    let mut i: usize = 1;
    proof {
        assert(run_seq_val(cs, ce, cv) =~= pairs@.take(1));
        assert(expand_runs_val(runs@) + run_seq_val(cs, ce, cv) =~= pairs@.take(1));
    }
    while i < pairs.len()
        invariant
            1 <= i <= pairs@.len(),
            keys_increasing(pairs@),
            cs <= ce,
            ce == pairs@[i - 1].0,
            cv == pairs@[i - 1].1,
            expand_runs_val(runs@) + run_seq_val(cs, ce, cv) == pairs@.take(i as int),
            forall|k: int| 0 <= k < runs@.len() ==> (#[trigger] runs@[k]).0 <= runs@[k].1,
            forall|k: int| 0 <= k < runs@.len() - 1 ==> (#[trigger] runs@[k]).1 < runs@[k + 1].0,
            forall|k: int|
                0 <= k < runs@.len() - 1 ==> ((#[trigger] runs@[k]).1 + 1 == runs@[k + 1].0
                    ==> runs@[k].2 != runs@[k + 1].2),
            runs@.len() > 0 ==> runs@.last().1 < cs,
            runs@.len() > 0 ==> (runs@.last().1 + 1 == cs ==> runs@.last().2 != cv),
        decreases pairs@.len() - i,
    {
        let (cp, v) = pairs[i];
        proof {
            assert(pairs@[i - 1].0 < pairs@[i as int].0);
            assert(pairs@.take(i as int + 1).drop_last() =~= pairs@.take(i as int));
            assert(pairs@[i as int] == (cp, v));
        }
        if cp == ce + 1 && v == cv {
            proof {
                assert(run_seq_val(cs, (ce + 1) as u32, cv) =~= run_seq_val(cs, ce, cv).push(
                    (cp, v),
                ));
                assert(expand_runs_val(runs@) + run_seq_val(cs, (ce + 1) as u32, cv) =~= (
                expand_runs_val(runs@) + run_seq_val(cs, ce, cv)).push((cp, v)));
                assert(pairs@.take(i as int + 1) =~= pairs@.take(i as int).push((cp, v)));
            }
            ce = cp;
        } else {
            let ghost before = runs@;
            runs.push((cs, ce, cv));
            proof {
                assert(runs@.drop_last() =~= before);
                assert(expand_runs_val(runs@) == expand_runs_val(before) + run_seq_val(
                    cs,
                    ce,
                    cv,
                ));
                assert(run_seq_val(cp, cp, v) =~= seq![(cp, v)]);
                assert(expand_runs_val(runs@) + run_seq_val(cp, cp, v) =~= pairs@.take(
                    i as int,
                ).push((cp, v)));
                assert(pairs@.take(i as int + 1) =~= pairs@.take(i as int).push((cp, v)));
            }
            cs = cp;
            ce = cp;
            cv = v;
        }
        i = i + 1;
    }
    let ghost before = runs@;
    runs.push((cs, ce, cv));
    proof {
        assert(runs@.drop_last() =~= before);
        assert(expand_runs_val(runs@) == expand_runs_val(before) + run_seq_val(cs, ce, cv));
        assert(pairs@.take(pairs@.len() as int) =~= pairs@);
    }
    runs
}

/// Every run of a well-started valued run sequence contributes its start
/// and value to the expansion.
pub proof fn lemma_expand_val_value<V>(runs: Seq<(u32, u32, V)>, q: int)
    requires
        0 <= q < runs.len(),
        forall|i: int| 0 <= i < runs.len() ==> (#[trigger] runs[i]).0 <= runs[i].1,
    ensures
        expand_runs_val(runs).contains((runs[q].0, runs[q].2)),
    decreases runs.len(),
{
    let front = runs.drop_last();
    let last = runs.last();
    if q == runs.len() - 1 {
        assert(run_seq_val(last.0, last.1, last.2)[0] == (last.0, last.2));
        assert(expand_runs_val(runs)[expand_runs_val(front).len() as int] == (last.0, last.2));
    } else {
        lemma_expand_val_value(front, q);
        let w = choose|w: int|
            0 <= w < expand_runs_val(front).len() && expand_runs_val(front)[w] == (
                front[q].0,
                front[q].2,
            );
        assert(expand_runs_val(runs)[w] == (runs[q].0, runs[q].2));
    }
}

/// The largest value carried by any run, or 0 for an empty sequence.
pub open spec fn spec_runs_max(runs: Seq<(u32, u32, u64)>) -> u64
    decreases runs.len(),
{
    if runs.len() == 0 {
        0
    } else if runs.last().2 >= spec_runs_max(runs.drop_last()) {
        runs.last().2
    } else {
        spec_runs_max(runs.drop_last())
    }
}

/// The largest value carried by any run of `runs`; 0 when there are none.
pub fn runs_max(runs: &Vec<(u32, u32, u64)>) -> (r: u64)
    ensures
        r == spec_runs_max(runs@),
{
    let mut m: u64 = 0;
    let mut i: usize = 0;
    proof {
        assert(runs@.take(0) =~= Seq::<(u32, u32, u64)>::empty());
    }
    while i < runs.len()
        invariant
            i <= runs@.len(),
            m == spec_runs_max(runs@.take(i as int)),
        decreases runs@.len() - i,
    {
        proof {
            assert(runs@.take(i as int + 1).drop_last() =~= runs@.take(i as int));
        }
        let v = runs[i].2;
        if v > m {
            m = v;
        }
        i = i + 1;
    }
    proof {
        assert(runs@.take(runs@.len() as int) =~= runs@);
    }
    m
}

/// The sum of a sequence of counters.
pub open spec fn sum_seq(s: Seq<usize>) -> int
    decreases s.len(),
{
    if s.len() == 0 {
        0
    } else {
        sum_seq(s.drop_last()) + s.last()
    }
}

/// The total number of codepoints over a family of sets.
pub open spec fn total_len<T>(sets: Seq<(T, Vec<u32>)>) -> int
    decreases sets.len(),
{
    if sets.len() == 0 {
        0
    } else {
        total_len(sets.drop_last()) + sets.last().1@.len()
    }
}

/// Updating one counter moves the sum by the difference.
proof fn lemma_sum_seq_update(s: Seq<usize>, i: int, v: usize)
    requires
        0 <= i < s.len(),
    ensures
        sum_seq(s.update(i, v)) == sum_seq(s) - s[i] + v,
    decreases s.len(),
{
    if i == s.len() - 1 {
        assert(s.update(i, v).drop_last() =~= s.drop_last());
        assert(s.update(i, v).last() == v);
    } else {
        lemma_sum_seq_update(s.drop_last(), i, v);
        assert(s.update(i, v).drop_last() =~= s.drop_last().update(i, v));
        assert(s.update(i, v).last() == s.last());
    }
}

/// Counters bounded pointwise by the set lengths sum to at most the
/// total length.
proof fn lemma_sum_seq_bound<T>(sets: Seq<(T, Vec<u32>)>, pos: Seq<usize>)
    requires
        pos.len() == sets.len(),
        forall|j: int| 0 <= j < pos.len() ==> pos[j] <= (#[trigger] sets[j]).1@.len(),
    ensures
        sum_seq(pos) <= total_len(sets),
    decreases pos.len(),
{
    if pos.len() > 0 {
        assert(forall|j: int|
            0 <= j < pos.drop_last().len() ==> pos.drop_last()[j] <= (#[trigger] sets.drop_last()[j]).1@.len());
        lemma_sum_seq_bound(sets.drop_last(), pos.drop_last());
    }
}

/// Whether every set of a family is strictly increasing.
pub open spec fn all_increasing<T>(sets: Seq<(T, Vec<u32>)>) -> bool {
    forall|i: int| 0 <= i < sets.len() ==> strictly_increasing((#[trigger] sets[i]).1@)
}

/// Whether the sets of a family are pairwise disjoint.
pub open spec fn sets_disjoint<T>(sets: Seq<(T, Vec<u32>)>) -> bool {
    forall|i: int, j: int, cp: u32|
        0 <= i < j < sets.len() ==> !(#[trigger] sets[i].1@.contains(cp)
            && #[trigger] sets[j].1@.contains(cp))
}

/// Increment one counter of a vector.
fn vec_inc(v: &mut Vec<usize>, i: usize, bound: usize)
    requires
        i < old(v)@.len(),
        old(v)@[i as int] < bound,
    ensures
        final(v)@ == old(v)@.update(i as int, (old(v)@[i as int] + 1) as usize),
{
    let x = v.remove(i);
    v.insert(i, x + 1);
    proof {
        assert(v@ =~= old(v)@.update(i as int, (old(v)@[i as int] + 1) as usize));
    }
}

/// Merge a family of strictly increasing, pairwise disjoint codepoint
/// sets into one key-sorted sequence of (codepoint, set index) pairs:
/// the ordered, duplicate-free union, each codepoint tagged with the set
/// it came from.
pub fn merge_sets<T>(sets: &Vec<(T, Vec<u32>)>) -> (r: Vec<(u32, u64)>)
    requires
        all_increasing(sets@),
        sets_disjoint(sets@),
    ensures
        keys_increasing(r@),
        forall|idx: int|
            0 <= idx < r@.len() ==> (#[trigger] r@[idx]).1 < sets@.len() && sets@[r@[idx].1 as int].1@.contains(
                r@[idx].0,
            ),
        forall|j: int, t: int|
            0 <= j < sets@.len() && 0 <= t < sets@[j].1@.len() ==> r@.contains(
                ((#[trigger] sets@[j].1@[t]), j as u64),
            ),
{
    let k = sets.len();
    let mut pos: Vec<usize> = Vec::new();
    while pos.len() < k
        invariant
            pos@.len() <= k,
            forall|j: int| 0 <= j < pos@.len() ==> (#[trigger] pos@[j]) == 0,
        decreases k - pos@.len(),
    {
        pos.push(0);
    }
    let mut out: Vec<(u32, u64)> = Vec::new();
    let mut done = false;
    while !done
        invariant
            k == sets@.len(),
            pos@.len() == k,
            all_increasing(sets@),
            sets_disjoint(sets@),
            forall|j: int| 0 <= j < k ==> (#[trigger] pos@[j]) <= sets@[j].1@.len(),
            keys_increasing(out@),
            out@.len() > 0 ==> forall|j: int, t: int|
                0 <= j < k && pos@[j] <= t < sets@[j].1@.len() ==> (#[trigger] sets@[j].1@[t])
                    > out@.last().0,
            forall|idx: int|
                0 <= idx < out@.len() ==> (#[trigger] out@[idx]).1 < k && sets@[out@[idx].1 as int].1@.contains(
                    out@[idx].0,
                ),
            forall|j: int, t: int|
                0 <= j < k && 0 <= t < pos@[j] ==> out@.contains(
                    ((#[trigger] sets@[j].1@[t]), j as u64),
                ),
            done ==> forall|j: int| 0 <= j < k ==> (#[trigger] pos@[j]) == sets@[j].1@.len(),
        decreases total_len(sets@) - sum_seq(pos@), (if done { 0int } else { 1int }),
    {
        let mut best_i: usize = 0;
        let mut best_v: u32 = 0;
        let mut have = false;
        let mut j: usize = 0;
        while j < k
            invariant
                j <= k,
                k == sets@.len(),
                pos@.len() == k,
                forall|q: int| 0 <= q < k ==> (#[trigger] pos@[q]) <= sets@[q].1@.len(),
                !have ==> forall|q: int| 0 <= q < j ==> (#[trigger] pos@[q]) >= sets@[q].1@.len(),
                have ==> best_i < k && pos@[best_i as int] < sets@[best_i as int].1@.len()
                    && best_v == sets@[best_i as int].1@[pos@[best_i as int] as int],
                have ==> forall|q: int|
                    0 <= q < j && pos@[q] < (#[trigger] sets@[q]).1@.len() ==> sets@[q].1@[pos@[q] as int]
                        >= best_v,
            decreases k - j,
        {
            if pos[j] < sets[j].1.len() {
                let h = sets[j].1[pos[j]];
                if !have || h < best_v {
                    have = true;
                    best_i = j;
                    best_v = h;
                }
            }
            j = j + 1;
        }
        if !have {
            done = true;
            proof {
                lemma_sum_seq_bound(sets@, pos@);
            }
        } else {
            let ghost outv = out@;
            let ghost posv = pos@;
            proof {
                assert(best_v == sets@[best_i as int].1@[posv[best_i as int] as int]);
                assert(sets@[best_i as int].1@.contains(best_v));
                if outv.len() > 0 {
                    assert(best_v > outv.last().0);
                }
                assert forall|idx: int| 0 <= idx < outv.len() implies (#[trigger] outv[idx]).0
                    < best_v by {
                    if idx < outv.len() - 1 {
                        assert(outv[idx].0 < outv.last().0);
                    }
                }
            }
            out.push((best_v, best_i as u64));
            proof {
                lemma_sum_seq_update(posv, best_i as int, (posv[best_i as int] + 1) as usize);
            }
            vec_inc(&mut pos, best_i, sets[best_i].1.len());
            proof {
                lemma_sum_seq_bound(sets@, pos@);
                assert(keys_increasing(out@));
                assert forall|idx: int|
                    0 <= idx < out@.len() implies (#[trigger] out@[idx]).1 < k
                    && sets@[out@[idx].1 as int].1@.contains(out@[idx].0) by {
                    if idx < out@.len() - 1 {
                        assert(out@[idx] == outv[idx]);
                    } else {
                        assert(out@[idx] == (best_v, best_i as u64));
                        assert(sets@[best_i as int].1@.contains(best_v));
                    }
                }
                assert forall|j2: int, t: int|
                    0 <= j2 < k && pos@[j2] <= t < sets@[j2].1@.len() implies (
                #[trigger] sets@[j2].1@[t]) > out@.last().0 by {
                    let cp = sets@[j2].1@[t];
                    if j2 == best_i as int {
                        assert(t > posv[j2] as int);
                        assert(cp > sets@[j2].1@[posv[j2] as int]);
                    } else {
                        let h = sets@[j2].1@[posv[j2] as int];
                        assert(h >= best_v);
                        if h == best_v {
                            assert(sets@[j2].1@.contains(best_v));
                            assert(sets@[best_i as int].1@.contains(best_v));
                            assert(false);
                        }
                        if t > posv[j2] as int {
                            assert(cp > h);
                        }
                    }
                }
                assert forall|j2: int, t: int| 0 <= j2 < k && 0 <= t < pos@[j2] implies out@.contains(
                    ((#[trigger] sets@[j2].1@[t]), j2 as u64),
                ) by {
                    if j2 == best_i as int && t == posv[j2] as int {
                        assert(out@[out@.len() - 1] == (sets@[j2].1@[t], j2 as u64));
                    } else {
                        assert(outv.contains((sets@[j2].1@[t], j2 as u64)));
                        let w = choose|w: int|
                            0 <= w < outv.len() && outv[w] == (sets@[j2].1@[t], j2 as u64);
                        assert(out@[w] == (sets@[j2].1@[t], j2 as u64));
                    }
                }
            }
        }
    }
    out
}

} // verus!

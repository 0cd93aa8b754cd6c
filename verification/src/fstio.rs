//! Trusted interface to the fst crate: building finite-state transducers
//! from sorted keys and serializing them to bytes.
//!
//! The construction algorithm itself is the fst crate's business and is
//! not modeled here; what a finished build returns is given a name
//! ([`fst_set_bytes`], [`fst_map_bytes`]), a function of the inserted
//! keys alone, and the builders' contracts track the inserted keys.

use vstd::prelude::*;

use crate::errors::Error;

verus! {

#[verifier::external_type_specification]
#[verifier::external_body]
#[verifier::reject_recursive_types(W)]
pub struct ExSetBuilder<W>(fst::SetBuilder<W>);

#[verifier::external_type_specification]
#[verifier::external_body]
#[verifier::reject_recursive_types(W)]
pub struct ExMapBuilder<W>(fst::MapBuilder<W>);

/// The keys inserted so far into an in-memory set builder, in insertion
/// order.
pub uninterp spec fn fst_set_keys(b: fst::SetBuilder<Vec<u8>>) -> Seq<Seq<u8>>;

/// The key/value pairs inserted so far into an in-memory map builder, in
/// insertion order.
pub uninterp spec fn fst_map_pairs(b: fst::MapBuilder<Vec<u8>>) -> Seq<(Seq<u8>, u64)>;

/// The bytes that the fst crate serializes a set of these keys to.
pub uninterp spec fn fst_set_bytes(keys: Seq<Seq<u8>>) -> Seq<u8>;

/// The bytes that the fst crate serializes a map of these pairs to.
pub uninterp spec fn fst_map_bytes(pairs: Seq<(Seq<u8>, u64)>) -> Seq<u8>;

/// Strict lexicographic order on byte strings, the order in which the
/// fst crate requires keys to be inserted.
pub open spec fn lex_lt(a: Seq<u8>, b: Seq<u8>) -> bool
    decreases a.len(),
{
    if b.len() == 0 {
        false
    } else if a.len() == 0 {
        true
    } else if a[0] < b[0] {
        true
    } else if a[0] > b[0] {
        false
    } else {
        lex_lt(a.skip(1), b.skip(1))
    }
}

/// The order is strict: no byte string is below itself.
pub proof fn lemma_lex_lt_irrefl(a: Seq<u8>)
    ensures
        !lex_lt(a, a),
    decreases a.len(),
{
    if a.len() > 0 {
        lemma_lex_lt_irrefl(a.skip(1));
    }
}

/// The order is transitive.
pub proof fn lemma_lex_lt_trans(a: Seq<u8>, b: Seq<u8>, c: Seq<u8>)
    requires
        lex_lt(a, b),
        lex_lt(b, c),
    ensures
        lex_lt(a, c),
    decreases a.len(),
{
    if a.len() > 0 {
        if a[0] == b[0] && b[0] == c[0] {
            lemma_lex_lt_trans(a.skip(1), b.skip(1), c.skip(1));
        }
    }
}

/// Decide the lexicographic order of two byte strings.
pub fn lex_lt_bytes(a: &[u8], b: &[u8]) -> (r: bool)
    ensures
        r == lex_lt(a@, b@),
{
    let n = if a.len() < b.len() {
        a.len()
    } else {
        b.len()
    };
    let mut i: usize = 0;
    proof {
        assert(a@.skip(0) =~= a@);
        assert(b@.skip(0) =~= b@);
    }
    while i < n
        invariant
            i <= n,
            n == if a@.len() < b@.len() {
                a@.len()
            } else {
                b@.len()
            },
            lex_lt(a@, b@) == lex_lt(a@.skip(i as int), b@.skip(i as int)),
        decreases n - i,
    {
        proof {
            assert(a@.skip(i as int)[0] == a@[i as int]);
            assert(b@.skip(i as int)[0] == b@[i as int]);
            assert(a@.skip(i as int).skip(1) =~= a@.skip(i as int + 1));
            assert(b@.skip(i as int).skip(1) =~= b@.skip(i as int + 1));
        }
        if a[i] < b[i] {
            return true;
        }
        if a[i] > b[i] {
            return false;
        }
        i = i + 1;
    }
    proof {
        if a@.len() < b@.len() {
            assert(a@.skip(n as int).len() == 0);
            assert(b@.skip(n as int).len() > 0);
        } else {
            assert(b@.skip(n as int).len() == 0);
        }
    }
    a.len() < b.len()
}

/// Relies on `fst::SetBuilder::memory`: a fresh in-memory set builder
/// holding no keys.
#[verifier::external_body]
pub fn fst_set_builder() -> (r: fst::SetBuilder<Vec<u8>>)
    ensures
        fst_set_keys(r) == Seq::<Seq<u8>>::empty(),
{
    fst::SetBuilder::memory()
}

/// Relies on `fst::SetBuilder::insert`: a key greater than every earlier
/// key is appended; a key smaller than the last is refused; writing to an
/// in-memory buffer cannot fail.
#[verifier::external_body]
pub fn fst_set_insert(b: &mut fst::SetBuilder<Vec<u8>>, key: &Vec<u8>) -> (r: Result<(), Error>)
    ensures
        (fst_set_keys(*old(b)).len() == 0 || lex_lt(fst_set_keys(*old(b)).last(), key@)) ==> (
        r is Ok && fst_set_keys(*final(b)) == fst_set_keys(*old(b)).push(key@)),
        fst_set_keys(*old(b)).len() > 0 && lex_lt(key@, fst_set_keys(*old(b)).last()) ==> r is Err,
        r matches Err(e) ==> e == Error::FstBuild && fst_set_keys(*final(b)) == fst_set_keys(
            *old(b),
        ),
{
    match b.insert(key) {
        Ok(()) => Ok(()),
        Err(_) => Err(Error::FstBuild),
    }
}

/// Relies on `fst::SetBuilder::into_inner`: finishing the build yields
/// the serialized set, a function of the inserted keys alone.  Every
/// failure path of `into_inner` is a write to the underlying buffer,
/// and writes to an in-memory vector cannot fail, so the build always
/// finishes.
#[verifier::external_body]
pub fn fst_set_finish(b: fst::SetBuilder<Vec<u8>>) -> (r: Vec<u8>)
    ensures
        r@ == fst_set_bytes(fst_set_keys(b)),
{
    b.into_inner().unwrap_or_else(|_| Vec::new())
}

/// Relies on `fst::MapBuilder::memory`: a fresh in-memory map builder
/// holding no pairs.
#[verifier::external_body]
pub fn fst_map_builder() -> (r: fst::MapBuilder<Vec<u8>>)
    ensures
        fst_map_pairs(r) == Seq::<(Seq<u8>, u64)>::empty(),
{
    fst::MapBuilder::memory()
}

/// Relies on `fst::MapBuilder::insert`: a key greater than every earlier
/// key is appended with its value; a key less than or equal to the last
/// is refused; writing to an in-memory buffer cannot fail.
#[verifier::external_body]
pub fn fst_map_insert(b: &mut fst::MapBuilder<Vec<u8>>, key: &Vec<u8>, val: u64) -> (r: Result<
    (),
    Error,
>)
    ensures
        (fst_map_pairs(*old(b)).len() == 0 || lex_lt(fst_map_pairs(*old(b)).last().0, key@)) ==> (
        r is Ok && fst_map_pairs(*final(b)) == fst_map_pairs(*old(b)).push((key@, val))),
        fst_map_pairs(*old(b)).len() > 0 && !lex_lt(fst_map_pairs(*old(b)).last().0, key@)
            ==> r is Err,
        r matches Err(e) ==> e == Error::FstBuild && fst_map_pairs(*final(b)) == fst_map_pairs(
            *old(b),
        ),
{
    match b.insert(key, val) {
        Ok(()) => Ok(()),
        Err(_) => Err(Error::FstBuild),
    }
}

/// Relies on `fst::MapBuilder::into_inner`: finishing the build yields
/// the serialized map, a function of the inserted pairs alone.  As with
/// the set builder, an in-memory build cannot fail to finish.
#[verifier::external_body]
pub fn fst_map_finish(b: fst::MapBuilder<Vec<u8>>) -> (r: Vec<u8>)
    ensures
        r@ == fst_map_bytes(fst_map_pairs(b)),
{
    b.into_inner().unwrap_or_else(|_| Vec::new())
}

/// The big-endian bytes of a codepoint, the key form used for
/// codepoint-keyed transducers.
pub open spec fn spec_u32_key(cp: u32) -> Seq<u8> {
    seq![(cp >> 24) as u8, (cp >> 16) as u8, (cp >> 8) as u8, cp as u8]
}

/// Encode a codepoint as its four big-endian bytes.
pub fn u32_key(cp: u32) -> (r: [u8; 4])
    ensures
        r@ == spec_u32_key(cp),
{
    let r = [(cp >> 24) as u8, (cp >> 16) as u8, (cp >> 8) as u8, cp as u8];
    proof {
        assert(r@ =~= spec_u32_key(cp));
    }
    r
}

/// Encode a codepoint as its four big-endian bytes, as a vector.
pub fn u32_key_vec(cp: u32) -> (r: Vec<u8>)
    ensures
        r@ == spec_u32_key(cp),
{
    let mut v: Vec<u8> = Vec::new();
    v.push((cp >> 24) as u8);
    v.push((cp >> 16) as u8);
    v.push((cp >> 8) as u8);
    v.push(cp as u8);
    proof {
        assert(v@ =~= spec_u32_key(cp));
    }
    v
}

/// Big-endian byte order agrees with numeric order: the key encoding is
/// strictly monotone.
pub proof fn lemma_u32_key_lt(a: u32, b: u32)
    requires
        a < b,
    ensures
        lex_lt(spec_u32_key(a), spec_u32_key(b)),
{
    let ka = spec_u32_key(a);
    let kb = spec_u32_key(b);
    if (a >> 24) != (b >> 24) {
        assert(((a >> 24) as u8) < ((b >> 24) as u8)) by (bit_vector)
            requires
                a < b && (a >> 24) != (b >> 24),
        ;
    } else if (a >> 16) != (b >> 16) {
        assert((a >> 24) as u8 == (b >> 24) as u8 && ((a >> 16) as u8) < ((b >> 16) as u8))
            by (bit_vector)
            requires
                a < b && (a >> 24) == (b >> 24) && (a >> 16) != (b >> 16),
        ;
    } else if (a >> 8) != (b >> 8) {
        assert((a >> 24) as u8 == (b >> 24) as u8 && (a >> 16) as u8 == (b >> 16) as u8 && ((a
            >> 8) as u8) < ((b >> 8) as u8)) by (bit_vector)
            requires
                a < b && (a >> 16) == (b >> 16) && (a >> 8) != (b >> 8),
        ;
    } else {
        assert((a >> 24) as u8 == (b >> 24) as u8 && (a >> 16) as u8 == (b >> 16) as u8 && (a >> 8)
            as u8 == (b >> 8) as u8 && (a as u8) < (b as u8)) by (bit_vector)
            requires
                a < b && (a >> 8) == (b >> 8),
        ;
    }
    let ka1 = ka.skip(1);
    let kb1 = kb.skip(1);
    let ka2 = ka1.skip(1);
    let kb2 = kb1.skip(1);
    let ka3 = ka2.skip(1);
    let kb3 = kb2.skip(1);
    assert(ka1 =~= seq![(a >> 16) as u8, (a >> 8) as u8, a as u8]);
    assert(kb1 =~= seq![(b >> 16) as u8, (b >> 8) as u8, b as u8]);
    assert(ka2 =~= seq![(a >> 8) as u8, a as u8]);
    assert(kb2 =~= seq![(b >> 8) as u8, b as u8]);
    assert(ka3 =~= seq![a as u8]);
    assert(kb3 =~= seq![b as u8]);
    if (a >> 24) != (b >> 24) {
        assert(lex_lt(ka, kb));
    } else if (a >> 16) != (b >> 16) {
        assert(lex_lt(ka1, kb1));
        assert(lex_lt(ka, kb));
    } else if (a >> 8) != (b >> 8) {
        assert(lex_lt(ka2, kb2));
        assert(lex_lt(ka1, kb1));
        assert(lex_lt(ka, kb));
    } else {
        assert(lex_lt(ka3, kb3));
        assert(lex_lt(ka2, kb2));
        assert(lex_lt(ka1, kb1));
        assert(lex_lt(ka, kb));
    }
}

} // verus!

//! Trusted boundary: the host's hash scheme and Unicode case folding.
//!
//! The identity of a resource is a fixed, published 64-bit hash of its
//! canonical path string; reproducing it bit-exactly is a compatibility
//! contract, so the computation is delegated to the archive library and its
//! result is only named here, never restated. Case folding is likewise
//! delegated to the standard library.

use vstd::prelude::*;

verus! {

/// The lowercase equivalent of a string, as Unicode case mapping defines
/// it: a pure function of the characters alone.
pub uninterp spec fn lower_of(s: Seq<char>) -> Seq<char>;

/// The 64-bit identity the host computes for a canonical path string: a
/// pure function of the characters alone, identical in every process and
/// on every machine.
pub uninterp spec fn hash40_of(s: Seq<char>) -> u64;

/// Relies on str::to_lowercase: returns the lowercase equivalent of the
/// string, a function of its characters alone; an empty string stays empty.
#[verifier::external_body]
pub(crate) fn lowercase(s: &str) -> (r: String)
    ensures
        r@ == lower_of(s@),
        s@.len() == 0 ==> r@.len() == 0,
{
    s.to_lowercase()
}

/// Relies on String's FromIterator<char>: collecting characters yields the
/// string of exactly those characters, in order.
#[verifier::external_body]
pub(crate) fn chars_to_string(v: &Vec<char>) -> (r: String)
    ensures
        r@ == v@,
{
    v.iter().collect()
}

/// Relies on smash_arc::hash40: the 64-bit identity of the given string,
/// a function of its characters alone.
#[verifier::external_body]
pub(crate) fn hash40_chars(v: &Vec<char>) -> (r: u64)
    ensures
        r == hash40_of(v@),
{
    let s: String = v.iter().collect();
    smash_arc::hash40(&s).0
}

} // verus!

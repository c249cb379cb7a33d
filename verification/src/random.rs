//! The source of randomness, and the map from a random word to a range.

use vstd::prelude::*;

verus! {

/// A random 64-bit word from `rand::random::<u64>()`, which draws it from the
/// thread-local generator of the `rand` crate.
///
/// Nothing is claimed of the value: every word may come back. The generator
/// itself gives up only where the operating system cannot seed it.
#[verifier::external_body]
pub(crate) fn random_word() -> u64 {
    rand::random::<u64>()
}

/// The part of `bound` that the fraction `word / 2^64` marks off, rounded down.
pub open spec fn fraction_of(bound: int, word: int) -> int {
    bound * word / 0x1_0000_0000_0000_0000
}

/// `fraction_of` stays below a positive bound.
pub proof fn lemma_fraction_of_below(bound: int, word: int)
    requires
        0 < bound,
        0 <= word < 0x1_0000_0000_0000_0000,
    ensures
        0 <= fraction_of(bound, word) < bound,
{
    assert(0 <= bound * word && bound * word < bound * 0x1_0000_0000_0000_0000)
        by (nonlinear_arith)
        requires
            0 < bound,
            0 <= word < 0x1_0000_0000_0000_0000,
    ;
}

/// Maps a random word to `[0, bound)`: the word is read as a fraction of one
/// and scales the bound.
pub fn scale_word(bound: u64, word: u64) -> (r: u64)
    ensures
        r == fraction_of(bound as int, word as int),
        bound > 0 ==> r < bound,
        bound == 0 ==> r == 0,
{
    assert(bound * word <= 0xffff_ffff_ffff_ffff * 0xffff_ffff_ffff_ffff) by (nonlinear_arith)
        requires
            0 <= bound <= 0xffff_ffff_ffff_ffff,
            0 <= word <= 0xffff_ffff_ffff_ffff,
    ;
    let product: u128 = (bound as u128) * (word as u128);
    proof {
        if bound > 0 {
            lemma_fraction_of_below(bound as int, word as int);
        } else {
            assert(bound * word == 0) by (nonlinear_arith)
                requires
                    bound == 0,
            ;
        }
    }
    (product / 0x1_0000_0000_0000_0000) as u64
}

/// A random number in `[0, bound)`, or `0` where `bound` is `0`.
pub fn sample_below(bound: u64) -> (r: u64)
    ensures
        bound > 0 ==> r < bound,
        bound == 0 ==> r == 0,
{
    scale_word(bound, random_word())
}

} // verus!

//! The reflected binary (Gray) code of a byte.

use vstd::prelude::*;

verus! {

/// Gray code of `bin`: each bit is the exclusive or of the bit of `bin` at its
/// place and the one above it.
pub open spec fn grey(bin: u8) -> u8 {
    (bin >> 1) ^ bin
}

/// Whether exactly one bit of `d` is set.
pub open spec fn one_bit(d: u8) -> bool {
    d == 1 || d == 2 || d == 4 || d == 8 || d == 16 || d == 32 || d == 64 || d == 128
}

/// Gray code of `bin`.
pub fn bin_to_grey(bin: u8) -> (g: u8)
    ensures
        g == grey(bin),
{
    (bin >> 1) ^ bin
}

/// Different numbers have different codes.
pub proof fn lemma_grey_distinct(x: u8, y: u8)
    requires
        x != y,
    ensures
        grey(x) != grey(y),
{
    assert(x != y ==> ((x >> 1) ^ x) != ((y >> 1) ^ y)) by (bit_vector);
}

/// The codes of a number and of its predecessor differ in exactly one bit.
pub proof fn lemma_grey_step(x: u8)
    requires
        0 < x,
    ensures
        one_bit(grey(x) ^ grey((x - 1) as u8)),
{
    assert(0 < x ==> {
        let d = ((x >> 1) ^ x) ^ ((((x - 1) as u8) >> 1) ^ ((x - 1) as u8));
        d == 1 || d == 2 || d == 4 || d == 8 || d == 16 || d == 32 || d == 64 || d == 128
    }) by (bit_vector);
}

/// The code of a number below 16 is below 16 as well: it fits in a nibble.
pub proof fn lemma_grey_nibble(x: u8)
    requires
        x < 16,
    ensures
        grey(x) < 16,
{
    assert(x < 16 ==> ((x >> 1) ^ x) < 16) by (bit_vector);
}

} // verus!

//! Bit-field extraction over a 16-bit instruction word.
//!
//! A CHIP-8 instruction word packs up to four 4-bit fields, a low byte and a
//! low 12-bit address; these helpers pull each field out. Every input is
//! valid, so the functions are total, except for the narrowing conversion
//! `to_byte`, which asks for a value that fits in a byte.

use vstd::prelude::*;

verus! {

pub open spec fn spec_first_nibble(b: u16) -> u16 {
    b >> 12
}

pub open spec fn spec_second_nibble(b: u16) -> u16 {
    (b >> 8) & 0xf
}

pub open spec fn spec_third_nibble(b: u16) -> u16 {
    (b >> 4) & 0xf
}

pub open spec fn spec_fourth_nibble(b: u16) -> u16 {
    b & 0xf
}

pub open spec fn spec_lower_half(b: u16) -> u16 {
    b & 0x00ff
}

pub open spec fn spec_lower_three(b: u16) -> u16 {
    b & 0x0fff
}

/// A word assembled from four 4-bit fields, highest field first.
pub open spec fn spec_word(a: u16, b: u16, c: u16, d: u16) -> u16 {
    (a << 12) | (b << 8) | (c << 4) | d
}

pub fn first_nibble(b: u16) -> (r: u16)
    ensures
        r == spec_first_nibble(b),
        r < 16,
{
    proof {
        assert(b >> 12 < 16) by (bit_vector);
    }
    b >> 12
}

pub fn second_nibble(b: u16) -> (r: u16)
    ensures
        r == spec_second_nibble(b),
        r < 16,
{
    proof {
        assert((b >> 8) & 0xf < 16) by (bit_vector);
    }
    (b >> 8) & 0xf
}

pub fn third_nibble(b: u16) -> (r: u16)
    ensures
        r == spec_third_nibble(b),
        r < 16,
{
    proof {
        assert((b >> 4) & 0xf < 16) by (bit_vector);
    }
    (b >> 4) & 0xf
}

pub fn fourth_nibble(b: u16) -> (r: u16)
    ensures
        r == spec_fourth_nibble(b),
        r < 16,
{
    proof {
        assert(b & 0xf < 16) by (bit_vector);
    }
    b & 0xf
}

pub fn lower_half(b: u16) -> (r: u16)
    ensures
        r == spec_lower_half(b),
        r < 256,
{
    proof {
        assert(b & 0x00ff < 256) by (bit_vector);
    }
    b & 0x00ff
}

pub fn lower_three(b: u16) -> (r: u16)
    ensures
        r == spec_lower_three(b),
        r < 4096,
{
    proof {
        assert(b & 0x0fff < 4096) by (bit_vector);
    }
    b & 0x0fff
}

pub fn to_byte(b: u16) -> (r: u8)
    requires
        b < 256,
    ensures
        r == b as u8,
        r as u16 == b,
{
    b as u8
}

pub fn to_usize(b: u16) -> (r: usize)
    ensures
        r == b as usize,
        r as u16 == b,
{
    b as usize
}

/// Law: extracting the four nibble fields, the low byte and the low twelve
/// bits from a word assembled out of in-range fields gives back exactly the
/// fields the word was constructed from.
pub proof fn lemma_field_round_trip(a: u16, b: u16, c: u16, d: u16)
    requires
        a < 16,
        b < 16,
        c < 16,
        d < 16,
    ensures
        spec_first_nibble(spec_word(a, b, c, d)) == a,
        spec_second_nibble(spec_word(a, b, c, d)) == b,
        spec_third_nibble(spec_word(a, b, c, d)) == c,
        spec_fourth_nibble(spec_word(a, b, c, d)) == d,
        spec_lower_half(spec_word(a, b, c, d)) == (c << 4) | d,
        spec_lower_three(spec_word(a, b, c, d)) == (b << 8) | (c << 4) | d,
{
    assert(a < 16 && b < 16 && c < 16 && d < 16 ==> {
        let w = (a << 12) | (b << 8) | (c << 4) | d;
        &&& w >> 12 == a
        &&& (w >> 8) & 0xf == b
        &&& (w >> 4) & 0xf == c
        &&& w & 0xf == d
        &&& w & 0x00ff == (c << 4) | d
        &&& w & 0x0fff == (b << 8) | (c << 4) | d
    }) by (bit_vector);
}

} // verus!

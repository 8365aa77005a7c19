//! The pixel blend: invert the second operand's colour channels, then
//! average each channel with the first operand's.
//!
//! Raster data is kept as a flat sequence of 8-bit samples in RGBA order,
//! four samples per pixel, so a sample's position modulo 4 tells its
//! channel: 0, 1, 2 are red, green, blue; 3 is alpha. Colour samples of
//! the second image are inverted before averaging; alpha samples are not.

use vstd::prelude::*;

verus! {

/// The inverted value of a colour sample.
pub open spec fn invert_sample(c: u8) -> u8 {
    (255 - c) as u8
}

/// The integer average of two samples, truncating towards zero.
pub open spec fn average_sample(c1: u8, c2: u8) -> u8 {
    (((c1 + c2) as int) / 2) as u8
}

/// The blended value of the samples at position `i` of the two inputs:
/// colour samples of the second input are inverted first, alpha samples
/// are averaged as they stand.
pub open spec fn blend_sample(c1: u8, c2: u8, i: int) -> u8 {
    if i % 4 == 3 {
        average_sample(c1, c2)
    } else {
        average_sample(c1, invert_sample(c2))
    }
}

/// The blend of two whole sample buffers of equal length.
pub open spec fn blend_data(d1: Seq<u8>, d2: Seq<u8>) -> Seq<u8> {
    Seq::new(d1.len(), |i: int| blend_sample(d1[i], d2[i], i))
}

/// Blends two sample buffers of equal length, sample by sample.
pub fn blend_buffers(d1: &Vec<u8>, d2: &Vec<u8>) -> (r: Vec<u8>)
    requires
        d1@.len() == d2@.len(),
    ensures
        r@ == blend_data(d1@, d2@),
{
    let n = d1.len();
    let mut out: Vec<u8> = Vec::new();
    let mut i: usize = 0;
    while i < n
        invariant
            n == d1@.len(),
            d1@.len() == d2@.len(),
            i <= n,
            out@.len() == i,
            forall|j: int| 0 <= j < i ==> out@[j] == blend_sample(d1@[j], d2@[j], j),
        decreases n - i,
    {
        let c1 = d1[i];
        let c2 = d2[i];
        let v: u8 = if i % 4 == 3 {
            ((c1 as u16 + c2 as u16) / 2) as u8
        } else {
            ((c1 as u16 + (255 - c2) as u16) / 2) as u8
        };
        out.push(v);
        i = i + 1;
    }
    proof {
        assert(out@ =~= blend_data(d1@, d2@));
    }
    out
}

} // verus!

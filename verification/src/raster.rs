//! Decoded raster images: a width, a height, and a flat RGBA sample
//! buffer, four 8-bit samples per pixel in row-major order.

use vstd::prelude::*;

use crate::blend::average_sample;
use crate::blend::blend_data;
use crate::blend::blend_buffers;
use crate::blend::blend_sample;
use crate::blend::invert_sample;

verus! {

/// A decoded image. The sample at channel `c` of the pixel at `(x, y)`
/// sits at index `4 * (y * width + x) + c` of `data`.
#[derive(Debug)]
pub struct Image {
    pub width: u32,
    pub height: u32,
    pub data: Vec<u8>,
}

/// The dimensions of the two operands of a failed blend: the pair's
/// images did not agree in width and height.
#[derive(Clone, Copy, PartialEq, Eq, Structural, Debug)]
pub struct DimensionMismatch {
    pub width_a: u32,
    pub height_a: u32,
    pub width_b: u32,
    pub height_b: u32,
}

impl Image {
    /// The sample buffer holds exactly four samples per pixel.
    pub open spec fn wf(self) -> bool {
        self.data@.len() == 4 * (self.width as int) * (self.height as int)
    }

    /// The flat index of channel `c` of the pixel at `(x, y)`.
    pub open spec fn sample_index(self, x: int, y: int, c: int) -> int {
        4 * (y * (self.width as int) + x) + c
    }

    /// The sample at channel `c` of the pixel at `(x, y)`.
    pub open spec fn spec_sample(self, x: int, y: int, c: int) -> u8 {
        self.data@[self.sample_index(x, y, c)]
    }

    /// Builds an image from raw RGBA samples; refuses a buffer whose
    /// length does not match the dimensions.
    pub fn from_raw(width: u32, height: u32, data: Vec<u8>) -> (r: Option<Image>)
        ensures
            r is Some <==> data@.len() == 4 * (width as int) * (height as int),
            r is Some ==> ({
                let img = r->0;
                img.wf() && img.width == width && img.height == height && img.data@ == data@
            }),
    {
        proof {
            assert(4 * (width as int) * (height as int) <= 4 * 0xffff_ffff * 0xffff_ffff)
                by (nonlinear_arith)
                requires
                    width <= 0xffff_ffffu32,
                    height <= 0xffff_ffffu32,
            ;
        }
        let need: u128 = 4u128 * (width as u128) * (height as u128);
        if data.len() as u128 == need {
            Some(Image { width, height, data })
        } else {
            None
        }
    }

    /// The four samples of the pixel at `(x, y)`: red, green, blue, alpha.
    pub fn get_pixel(&self, x: u32, y: u32) -> (r: (u8, u8, u8, u8))
        requires
            self.wf(),
            x < self.width,
            y < self.height,
        ensures
            r.0 == self.spec_sample(x as int, y as int, 0),
            r.1 == self.spec_sample(x as int, y as int, 1),
            r.2 == self.spec_sample(x as int, y as int, 2),
            r.3 == self.spec_sample(x as int, y as int, 3),
    {
        proof {
            lemma_sample_index_in_range(*self, x as int, y as int);
            assert(self.data@.len() == vstd::std_specs::vec::spec_vec_len(&self.data));
        }
        let base = 4 * (y as usize * self.width as usize + x as usize);
        (self.data[base], self.data[base + 1], self.data[base + 2], self.data[base + 3])
    }
}

/// Every sample index of a pixel inside the image lies inside the buffer.
proof fn lemma_sample_index_in_range(img: Image, x: int, y: int)
    requires
        img.wf(),
        0 <= x < img.width,
        0 <= y < img.height,
    ensures
        0 <= y * (img.width as int) + x,
        4 * (y * (img.width as int) + x) + 3 < img.data@.len(),
{
    let w = img.width as int;
    let h = img.height as int;
    assert(0 <= y * w + x && y * w + x < h * w) by (nonlinear_arith)
        requires
            0 <= x < w,
            0 <= y < h,
    ;
    assert(4 * (y * w + x) + 3 < 4 * w * h) by (nonlinear_arith)
        requires
            0 <= y * w + x,
            y * w + x < h * w,
    ;
}

/// The blended difference of two images of equal dimensions: the second
/// image's colour channels are inverted, then every channel is averaged
/// with the first image's. A pair whose dimensions differ is refused with
/// both dimensions.
pub fn img_subtract(img1: &Image, img2: &Image) -> (r: Result<Image, DimensionMismatch>)
    requires
        img1.wf(),
        img2.wf(),
    ensures
        r is Ok <==> (img1.width == img2.width && img1.height == img2.height),
        r is Ok ==> ({
            let out = r->Ok_0;
            out.wf() && out.width == img1.width && out.height == img1.height && out.data@
                == blend_data(img1.data@, img2.data@)
        }),
        r is Err ==> r->Err_0 == (DimensionMismatch {
            width_a: img1.width,
            height_a: img1.height,
            width_b: img2.width,
            height_b: img2.height,
        }),
{
    if img1.width != img2.width || img1.height != img2.height {
        return Err(DimensionMismatch {
            width_a: img1.width,
            height_a: img1.height,
            width_b: img2.width,
            height_b: img2.height,
        });
    }
    let data = blend_buffers(&img1.data, &img2.data);
    Ok(Image { width: img1.width, height: img1.height, data })
}

/// The flat blend is the per-pixel blend: at every pixel of a blended
/// image, each colour channel is the average of the first image's
/// channel and the inverted channel of the second image, and alpha is
/// the average of the two alpha channels as they stand.
pub proof fn lemma_subtract_is_pixelwise(img1: Image, img2: Image, out: Image, x: int, y: int)
    requires
        img1.wf(),
        img2.wf(),
        img1.width == img2.width,
        img1.height == img2.height,
        out.width == img1.width,
        out.height == img1.height,
        out.data@ == blend_data(img1.data@, img2.data@),
        0 <= x < out.width,
        0 <= y < out.height,
    ensures
        forall|c: int|
            0 <= c < 3 ==> out.spec_sample(x, y, c) == average_sample(
                img1.spec_sample(x, y, c),
                invert_sample(img2.spec_sample(x, y, c)),
            ),
        out.spec_sample(x, y, 3) == average_sample(
            img1.spec_sample(x, y, 3),
            img2.spec_sample(x, y, 3),
        ),
{
    lemma_sample_index_in_range(img1, x, y);
    let t = y * (img1.width as int) + x;
    assert forall|c: int| 0 <= c < 4 implies out.spec_sample(x, y, c) == blend_sample(
        img1.spec_sample(x, y, c),
        img2.spec_sample(x, y, c),
        c,
    ) by {
        let idx = 4 * t + c;
        assert(out.data@[idx] == blend_sample(img1.data@[idx], img2.data@[idx], idx));
        assert(idx % 4 == c) by (nonlinear_arith)
            requires
                idx == 4 * t + c,
                0 <= t,
                0 <= c < 4,
        ;
    }
}

/// Two images of equal dimensions whose samples are all zero blend to
/// the pixel `(127, 127, 127, 0)` everywhere: each inverted zero colour
/// is 255 and averages with 0 to 127, while the zero alphas average to 0.
pub proof fn lemma_zero_images_blend_to_half_grey(
    img1: Image,
    img2: Image,
    out: Image,
    x: int,
    y: int,
)
    requires
        img1.wf(),
        img2.wf(),
        img1.width == img2.width,
        img1.height == img2.height,
        out.width == img1.width,
        out.height == img1.height,
        out.data@ == blend_data(img1.data@, img2.data@),
        forall|i: int| 0 <= i < img1.data@.len() ==> img1.data@[i] == 0,
        forall|i: int| 0 <= i < img2.data@.len() ==> img2.data@[i] == 0,
        0 <= x < out.width,
        0 <= y < out.height,
    ensures
        forall|c: int| 0 <= c < 3 ==> out.spec_sample(x, y, c) == 127,
        out.spec_sample(x, y, 3) == 0,
{
    lemma_subtract_is_pixelwise(img1, img2, out, x, y);
    lemma_sample_index_in_range(img1, x, y);
}

/// Wherever the two images agree in a colour channel — whatever their
/// alpha — the blended image holds 127 in that channel: any value
/// averaged with its own inverse gives 127.
pub proof fn lemma_equal_colour_blends_to_127(
    img1: Image,
    img2: Image,
    out: Image,
    x: int,
    y: int,
    c: int,
)
    requires
        img1.wf(),
        img2.wf(),
        img1.width == img2.width,
        img1.height == img2.height,
        out.width == img1.width,
        out.height == img1.height,
        out.data@ == blend_data(img1.data@, img2.data@),
        0 <= x < out.width,
        0 <= y < out.height,
        0 <= c < 3,
        img1.spec_sample(x, y, c) == img2.spec_sample(x, y, c),
    ensures
        out.spec_sample(x, y, c) == 127,
{
    lemma_subtract_is_pixelwise(img1, img2, out, x, y);
}

} // verus!

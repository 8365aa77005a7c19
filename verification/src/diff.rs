//! The per-pair differencer: decode two files' bytes, blend them, and
//! encode the blend as PNG.

use vstd::prelude::*;

use crate::blend::blend_data;
use crate::codec::decode_image;
use crate::codec::decoded_rgba;
use crate::codec::encode_png;
use crate::codec::png_encoding;
use crate::names::diff_output_path;
use crate::names::spec_diff_path;
use crate::raster::DimensionMismatch;
use crate::raster::img_subtract;
use crate::scan::file_stem;
use crate::scan::spec_stem;

verus! {

/// Why a pair produced no output file.
#[derive(Debug, PartialEq, Eq)]
pub enum DiffError {
    /// The named input file could not be decoded as an image.
    Decode { name: Vec<u8> },
    /// The pair's images differ in width or height; both names and both
    /// dimensions are reported.
    DimensionMismatch { name_a: Vec<u8>, name_b: Vec<u8>, dims: DimensionMismatch },
    /// The blended image could not be encoded; the output path that was
    /// to be written is reported.
    Encode { path: Vec<u8> },
}

/// Computes the difference image of one pair: decodes both byte
/// buffers, inverts the second image's colour channels, averages the
/// two images channel by channel, and encodes the result as PNG.
///
/// The first buffer that fails to decode is reported by its name; a
/// decoded pair of unequal dimensions is reported with both names and
/// both dimensions, and nothing is encoded for it. A pair that decodes
/// to equal, nonzero dimensions always yields its PNG.
pub fn diff_pair(
    folder: &Vec<u8>,
    name_a: &Vec<u8>,
    name_b: &Vec<u8>,
    bytes_a: &Vec<u8>,
    bytes_b: &Vec<u8>,
) -> (r: Result<Vec<u8>, DiffError>)
    ensures
        decoded_rgba(bytes_a@) is None ==> (r matches Err(DiffError::Decode { name }) && name@
            == name_a@),
        decoded_rgba(bytes_a@) is Some && decoded_rgba(bytes_b@) is None ==> (r matches Err(
            DiffError::Decode { name },
        ) && name@ == name_b@),
        ({
            let da = decoded_rgba(bytes_a@);
            let db = decoded_rgba(bytes_b@);
            da is Some && db is Some && (da->Some_0.0 != db->Some_0.0 || da->Some_0.1
                != db->Some_0.1) ==> (r matches Err(
                DiffError::DimensionMismatch { name_a: na, name_b: nb, dims },
            ) && na@ == name_a@ && nb@ == name_b@ && dims == (DimensionMismatch {
                width_a: da->Some_0.0,
                height_a: da->Some_0.1,
                width_b: db->Some_0.0,
                height_b: db->Some_0.1,
            }))
        }),
        ({
            let da = decoded_rgba(bytes_a@);
            let db = decoded_rgba(bytes_b@);
            da is Some && db is Some && da->Some_0.0 == db->Some_0.0 && da->Some_0.1
                == db->Some_0.1 ==> {
                &&& (da->Some_0.0 > 0 && da->Some_0.1 > 0 ==> r is Ok)
                &&& (r is Ok ==> r->Ok_0@ == png_encoding(
                    da->Some_0.0,
                    da->Some_0.1,
                    blend_data(da->Some_0.2, db->Some_0.2),
                ))
                &&& (r is Err ==> (r matches Err(DiffError::Encode { path }) && path@
                    == spec_diff_path(folder@, spec_stem(name_a@), spec_stem(name_b@))))
            }
        }),
{
    let img_a = match decode_image(bytes_a) {
        Ok(img) => img,
        Err(_) => {
            let name = name_a.clone();
            proof {
                assert(name@ =~= name_a@);
            }
            return Err(DiffError::Decode { name });
        },
    };
    let img_b = match decode_image(bytes_b) {
        Ok(img) => img,
        Err(_) => {
            let name = name_b.clone();
            proof {
                assert(name@ =~= name_b@);
            }
            return Err(DiffError::Decode { name });
        },
    };
    let blended = match img_subtract(&img_a, &img_b) {
        Ok(img) => img,
        Err(dims) => {
            let na = name_a.clone();
            let nb = name_b.clone();
            proof {
                assert(na@ =~= name_a@);
                assert(nb@ =~= name_b@);
            }
            return Err(DiffError::DimensionMismatch { name_a: na, name_b: nb, dims });
        },
    };
    match encode_png(&blended) {
        Ok(bytes) => Ok(bytes),
        Err(_) => {
            let stem_a = file_stem(name_a);
            let stem_b = file_stem(name_b);
            let path = diff_output_path(folder, &stem_a, &stem_b);
            Err(DiffError::Encode { path })
        },
    }
}

} // verus!

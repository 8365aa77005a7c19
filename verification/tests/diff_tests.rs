use imgdiff::diff::DiffError;
use imgdiff::diff::diff_pair;
use imgdiff::raster::DimensionMismatch;

fn solid_png(width: u32, height: u32, pixel: [u8; 4]) -> Vec<u8> {
    let mut data: Vec<u8> = Vec::new();
    for _ in 0..(width * height) {
        data.extend_from_slice(&pixel);
    }
    let img = image::RgbaImage::from_raw(width, height, data).unwrap();
    let mut out = std::io::Cursor::new(Vec::new());
    img.write_to(&mut out, image::ImageFormat::Png).unwrap();
    out.into_inner()
}

#[test]
fn diff_pair_writes_the_expected_blend() {
    let folder = b"out".to_vec();
    let name_a = b"a.png".to_vec();
    let name_b = b"b.png".to_vec();
    let bytes_a = solid_png(2, 2, [10, 20, 30, 255]);
    let bytes_b = solid_png(2, 2, [245, 235, 225, 255]);
    let png = diff_pair(&folder, &name_a, &name_b, &bytes_a, &bytes_b).unwrap();
    let decoded = image::load_from_memory(&png).unwrap().to_rgba8();
    assert_eq!(decoded.width(), 2);
    assert_eq!(decoded.height(), 2);
    for x in 0..2 {
        for y in 0..2 {
            assert_eq!(decoded.get_pixel(x, y).0, [10, 20, 30, 255]);
        }
    }
}

#[test]
fn diff_pair_blends_zero_images_to_half_grey() {
    let folder = b"out".to_vec();
    let name_a = b"a.png".to_vec();
    let name_b = b"b.png".to_vec();
    let bytes_a = solid_png(1, 1, [0, 0, 0, 0]);
    let bytes_b = solid_png(1, 1, [0, 0, 0, 0]);
    let png = diff_pair(&folder, &name_a, &name_b, &bytes_a, &bytes_b).unwrap();
    let decoded = image::load_from_memory(&png).unwrap().to_rgba8();
    assert_eq!(decoded.get_pixel(0, 0).0, [127, 127, 127, 0]);
}

#[test]
fn an_undecodable_first_file_is_reported_by_name() {
    let folder = b"out".to_vec();
    let name_a = b"junk.png".to_vec();
    let name_b = b"b.png".to_vec();
    let bytes_a = b"not an image at all".to_vec();
    let bytes_b = solid_png(1, 1, [0, 0, 0, 0]);
    let err = diff_pair(&folder, &name_a, &name_b, &bytes_a, &bytes_b).unwrap_err();
    assert_eq!(err, DiffError::Decode { name: b"junk.png".to_vec() });
}

#[test]
fn an_undecodable_second_file_is_reported_by_name() {
    let folder = b"out".to_vec();
    let name_a = b"a.png".to_vec();
    let name_b = b"junk.png".to_vec();
    let bytes_a = solid_png(1, 1, [0, 0, 0, 0]);
    let bytes_b = Vec::new();
    let err = diff_pair(&folder, &name_a, &name_b, &bytes_a, &bytes_b).unwrap_err();
    assert_eq!(err, DiffError::Decode { name: b"junk.png".to_vec() });
}

#[test]
fn mismatched_widths_are_reported_with_names_and_dimensions() {
    let folder = b"out".to_vec();
    let name_a = b"a.png".to_vec();
    let name_b = b"b.png".to_vec();
    let bytes_a = solid_png(2, 2, [1, 2, 3, 4]);
    let bytes_b = solid_png(3, 2, [1, 2, 3, 4]);
    let err = diff_pair(&folder, &name_a, &name_b, &bytes_a, &bytes_b).unwrap_err();
    assert_eq!(
        err,
        DiffError::DimensionMismatch {
            name_a: b"a.png".to_vec(),
            name_b: b"b.png".to_vec(),
            dims: DimensionMismatch { width_a: 2, height_a: 2, width_b: 3, height_b: 2 },
        }
    );
}

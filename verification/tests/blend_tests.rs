use imgdiff::raster::DimensionMismatch;
use imgdiff::raster::Image;
use imgdiff::raster::img_subtract;

fn solid_image(width: u32, height: u32, pixel: [u8; 4]) -> Image {
    let mut data: Vec<u8> = Vec::new();
    for _ in 0..(width * height) {
        data.extend_from_slice(&pixel);
    }
    Image::from_raw(width, height, data).unwrap()
}

#[test]
fn blend_of_all_zero_images_is_half_grey_with_zero_alpha() {
    let a = solid_image(2, 2, [0, 0, 0, 0]);
    let b = solid_image(2, 2, [0, 0, 0, 0]);
    let out = img_subtract(&a, &b).unwrap();
    assert_eq!(out.width, 2);
    assert_eq!(out.height, 2);
    for x in 0..2 {
        for y in 0..2 {
            assert_eq!(out.get_pixel(x, y), (127, 127, 127, 0));
        }
    }
}

#[test]
fn blending_a_colour_with_itself_gives_127_per_colour_channel() {
    // Equal colour channels on both sides, alpha differing: every colour
    // channel averages with its own inverse to 127; alpha is averaged
    // without inversion.
    let a = solid_image(3, 1, [10, 200, 77, 40]);
    let b = solid_image(3, 1, [10, 200, 77, 200]);
    let out = img_subtract(&a, &b).unwrap();
    for x in 0..3 {
        assert_eq!(out.get_pixel(x, 0), (127, 127, 127, 120));
    }
}

#[test]
fn blend_example_two_by_two() {
    // Inverted second image colour = (10, 20, 30), alpha stays 255;
    // averaging with the first image gives the first image back.
    let a = solid_image(2, 2, [10, 20, 30, 255]);
    let b = solid_image(2, 2, [245, 235, 225, 255]);
    let out = img_subtract(&a, &b).unwrap();
    for x in 0..2 {
        for y in 0..2 {
            assert_eq!(out.get_pixel(x, y), (10, 20, 30, 255));
        }
    }
}

#[test]
fn blend_truncates_the_average() {
    // Colour channel: (1 + (255 - 254)) / 2 = 1; alpha: (1 + 2) / 2 = 1.
    let a = solid_image(1, 1, [1, 1, 1, 1]);
    let b = solid_image(1, 1, [254, 254, 254, 2]);
    let out = img_subtract(&a, &b).unwrap();
    assert_eq!(out.get_pixel(0, 0), (1, 1, 1, 1));
}

#[test]
fn mismatched_dimensions_are_refused_with_both_dimensions() {
    let a = solid_image(2, 2, [0, 0, 0, 0]);
    let b = solid_image(3, 2, [0, 0, 0, 0]);
    let err = img_subtract(&a, &b).unwrap_err();
    assert_eq!(
        err,
        DimensionMismatch { width_a: 2, height_a: 2, width_b: 3, height_b: 2 }
    );
}

#[test]
fn from_raw_refuses_a_buffer_of_the_wrong_length() {
    assert!(Image::from_raw(2, 2, vec![0u8; 16]).is_some());
    assert!(Image::from_raw(2, 2, vec![0u8; 15]).is_none());
    assert!(Image::from_raw(2, 2, vec![0u8; 17]).is_none());
    assert!(Image::from_raw(0, 0, Vec::new()).is_some());
}

use imgdiff::names::diff_output_name;
use imgdiff::names::diff_output_path;
use imgdiff::names::plan_outputs;
use imgdiff::scan::extension_of;
use imgdiff::scan::file_stem;
use imgdiff::scan::filter_image_names;
use imgdiff::scan::is_image_name;

fn names(list: &[&str]) -> Vec<Vec<u8>> {
    list.iter().map(|s| s.as_bytes().to_vec()).collect()
}

#[test]
fn recognised_extensions_are_kept_case_insensitively() {
    assert!(is_image_name(&b"a.jpg".to_vec()));
    assert!(is_image_name(&b"a.jpeg".to_vec()));
    assert!(is_image_name(&b"a.png".to_vec()));
    assert!(is_image_name(&b"a.bmp".to_vec()));
    assert!(is_image_name(&b"a.gif".to_vec()));
    assert!(is_image_name(&b"a.PNG".to_vec()));
    assert!(is_image_name(&b"a.JpEg".to_vec()));
    assert!(is_image_name(&b"shot.tar.GIF".to_vec()));
}

#[test]
fn other_names_are_dropped() {
    assert!(!is_image_name(&b"a.txt".to_vec()));
    assert!(!is_image_name(&b"a.pngx".to_vec()));
    assert!(!is_image_name(&b"a.jp".to_vec()));
    assert!(!is_image_name(&b"apng".to_vec()));
    assert!(!is_image_name(&b".png".to_vec()));
    assert!(!is_image_name(&b"a.".to_vec()));
    assert!(!is_image_name(&b"".to_vec()));
}

#[test]
fn filtering_keeps_image_names_in_listing_order() {
    let listing = names(&["b.txt", "a.png", "notes", "c.JPG", ".gif", "d.bmp"]);
    let kept = filter_image_names(&listing);
    assert_eq!(kept, names(&["a.png", "c.JPG", "d.bmp"]));
}

#[test]
fn filtering_twice_yields_the_same_sequence() {
    let listing = names(&["x.PNG", "y.doc", "z.jpeg", "w.gif.txt"]);
    let once = filter_image_names(&listing);
    let twice = filter_image_names(&once);
    assert_eq!(once, twice);
}

#[test]
fn stems_and_extensions() {
    assert_eq!(file_stem(&b"a.png".to_vec()), b"a".to_vec());
    assert_eq!(file_stem(&b"a.tar.gz".to_vec()), b"a.tar".to_vec());
    assert_eq!(file_stem(&b"noext".to_vec()), b"noext".to_vec());
    assert_eq!(file_stem(&b".hidden".to_vec()), b".hidden".to_vec());
    assert_eq!(file_stem(&b"a.".to_vec()), b"a".to_vec());
    assert_eq!(extension_of(&b"a.png".to_vec()), Some(b"png".to_vec()));
    assert_eq!(extension_of(&b"a.tar.gz".to_vec()), Some(b"gz".to_vec()));
    assert_eq!(extension_of(&b"noext".to_vec()), None);
    assert_eq!(extension_of(&b".hidden".to_vec()), None);
    assert_eq!(extension_of(&b"a.".to_vec()), Some(b"".to_vec()));
}

#[test]
fn output_names_follow_the_pattern() {
    assert_eq!(
        diff_output_name(&b"a".to_vec(), &b"b".to_vec()),
        b"diff_a_b.png".to_vec()
    );
    assert_eq!(
        diff_output_path(&b"out".to_vec(), &b"a".to_vec(), &b"b".to_vec()),
        b"out/diff_a_b.png".to_vec()
    );
}

#[test]
fn a_listing_of_n_images_plans_n_minus_one_outputs() {
    let folder = b"out".to_vec();
    let listing = names(&["a.png", "b.png", "c.png", "d.png"]);
    let plan = plan_outputs(&folder, &listing);
    assert_eq!(
        plan,
        vec![
            b"out/diff_a_b.png".to_vec(),
            b"out/diff_b_c.png".to_vec(),
            b"out/diff_c_d.png".to_vec(),
        ]
    );
}

#[test]
fn fewer_than_two_images_plan_nothing() {
    let folder = b"out".to_vec();
    assert_eq!(plan_outputs(&folder, &names(&[])), Vec::<Vec<u8>>::new());
    assert_eq!(plan_outputs(&folder, &names(&["only.png"])), Vec::<Vec<u8>>::new());
}

use file_explorer::display::{
    size_text, bulk_should_describe, csv_header, csv_record, generated_image_filename, overlay_badge,
    overlay_progress, scan_status_text, shorten_middle,
};
use file_explorer::metadata::MediaKind;

#[test]
fn long_names_shortened_in_the_middle() {
    assert_eq!(shorten_middle("short.png", 20), "short.png");
    assert_eq!(shorten_middle("abcdefghijklmnop", 10), "abc...mnop");
    assert_eq!(shorten_middle("abcdefghij", 3), "abc");
    assert_eq!(shorten_middle("abcdefghij", 4), "...j");
}

#[test]
fn scan_status_lines() {
    assert_eq!(scan_status_text(true, Some((3, 10)), false, false), "Scanning... 3 / 10");
    assert_eq!(scan_status_text(true, Some((7, 0)), true, false), "Deep scanning... 7");
    assert_eq!(scan_status_text(true, None, false, false), "Scanning...");
    assert_eq!(scan_status_text(false, None, false, true), "");
    assert_eq!(scan_status_text(false, None, false, false), "No results - adjust filters.");
}

#[test]
fn overlay_progress_and_badge() {
    assert_eq!(overlay_progress(Some((12, 10))), Some((10, 10)));
    assert_eq!(overlay_progress(Some((12, 0))), Some((12, 0)));
    assert_eq!(overlay_progress(None), None);
    assert_eq!(overlay_badge(false, false, 0), "Idle");
    assert_eq!(overlay_badge(false, true, 3), "Done");
    assert_eq!(overlay_badge(true, true, 0), "Deep");
    assert_eq!(overlay_badge(true, false, 0), "Shallow");
}

#[test]
fn csv_rows() {
    assert_eq!(csv_header(), vec!["path", "kind", "modified", "created", "size_bytes"]);
    assert_eq!(
        csv_record("/a.mp4", &MediaKind::Video, "2024-01-01T00:00:00+00:00", "", None),
        vec!["/a.mp4", "video", "2024-01-01T00:00:00+00:00", "", "0"]
    );
    assert_eq!(csv_record("/b", &MediaKind::Other, "", "", Some(42))[4], "42");
}

#[test]
fn bulk_generation_selects_images() {
    let exts = vec!["jpg".to_string(), "png".to_string()];
    assert!(bulk_should_describe(false, false, Some("PNG"), &exts));
    assert!(!bulk_should_describe(false, true, Some("png"), &exts));
    assert!(bulk_should_describe(true, true, Some("jpg"), &exts));
    assert!(!bulk_should_describe(true, false, Some("mp4"), &exts));
    assert!(!bulk_should_describe(true, false, None, &exts));
}

#[test]
fn generated_file_names() {
    assert_eq!(
        generated_image_filename("A Red, red Car at Night under stars!", "20240101120000"),
        "a_red_red_car_at_night_20240101120000.png"
    );
    assert_eq!(generated_image_filename("!!!", "1"), "gen_1.png");
}

#[test]
fn sizes_in_decimal_units() {
    assert_eq!(size_text(None), "-");
    assert_eq!(size_text(Some(1000)), "1 kB");
    assert_eq!(size_text(Some(1500000)), "1.50 MB");
    assert_eq!(size_text(Some(12)), "12 B");
}

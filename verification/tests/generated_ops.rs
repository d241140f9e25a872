use file_explorer::generated::{gradient_pixel, placeholder_metadata};

#[test]
fn gradient_corners() {
    assert_eq!(gradient_pixel(0, 0), [0, 0, 128, 255]);
    assert_eq!(gradient_pixel(511, 0), [254, 0, 128, 255]);
    assert_eq!(gradient_pixel(256, 511), [127, 254, 128, 255]);
}

#[test]
fn gradient_matches_float_formula() {
    for x in [0u32, 1, 2, 3, 100, 255, 256, 300, 509, 510, 511] {
        let expected = (x as f32 / 512f32 * 255.0) as u8;
        assert_eq!(gradient_pixel(x, x)[0], expected);
    }
}

#[test]
fn placeholder_record() {
    let m = placeholder_metadata("/gen/x.png".into(), "x.png".into(), 99, 1700000000, Some("h".into()), "a cat");
    assert_eq!(m.file_type, "image");
    assert_eq!(m.description.as_deref(), Some("Placeholder generated for prompt: a cat"));
    assert_eq!(m.caption.as_deref(), Some("generated image: a cat"));
    assert_eq!(m.tags, vec!["generated".to_string()]);
    assert_eq!(m.category.as_deref(), Some("generated"));
    assert_eq!(m.modified, Some(1700000000));
    assert_eq!(m.size, 99);
}

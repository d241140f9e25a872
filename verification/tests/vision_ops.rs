use file_explorer::metadata::FileMetadata;
use file_explorer::vision::{
    apply_clip_result, extract_json_vision, extract_partial_description, fallback_vision_description,
    flattened_vision_prompt, merge_zero_shot_tags, needs_flattened_prompt, synthesize_clip_description,
    vision_request_text,
};

#[test]
fn json_object_found_inside_chatter() {
    let v = extract_json_vision("Sure! {\"description\":\"d\",\"tags\":[\"a\"]} hope it helps").unwrap();
    assert_eq!(v["description"], "d");
    assert!(extract_json_vision("no braces").is_none());
    assert!(extract_json_vision("} backwards {").is_none());
    assert!(extract_json_vision("{not json}").is_none());
}

#[test]
fn fallback_answer_from_plain_text() {
    let vd = fallback_vision_description("  A red car. Parked outside.  ");
    assert_eq!(vd.description, "A red car. Parked outside.");
    assert_eq!(vd.caption, "A red car");
    assert!(vd.tags.is_empty());
    assert_eq!(vd.category, "general");
}

#[test]
fn partial_description_while_streaming() {
    assert_eq!(extract_partial_description("{\"Description\" : \"A dog ru"), Some("A dog ru".to_string()));
    assert_eq!(extract_partial_description("{\"description\": \"esc \\\"q\\\" done\", \"x\""), Some("esc \"q\" done".to_string()));
    assert_eq!(extract_partial_description("{\"description\": \""), None);
    assert_eq!(extract_partial_description("{\"caption\": \"x\"}"), None);
}

#[test]
fn zero_shot_tags_fill_short_lists() {
    let mut tags = vec!["cat".to_string()];
    merge_zero_shot_tags(&mut tags, &vec!["cat".to_string(), "sofa".to_string(), "sofa".to_string()]);
    assert_eq!(tags, vec!["cat".to_string(), "sofa".to_string()]);
    let mut full = vec!["a".to_string(), "b".to_string()];
    merge_zero_shot_tags(&mut full, &vec!["c".to_string()]);
    assert_eq!(full.len(), 2);
}

#[test]
fn clip_description_variants() {
    let tags = vec!["a".into(), "b".into(), "c".into(), "d".into(), "e".into(), "f".into()];
    assert_eq!(synthesize_clip_description(&Some("pets".into()), &tags), "pets \u{2013} tags: a, b, c, d, e.");
    assert_eq!(synthesize_clip_description(&Some("pets".into()), &vec![]), "pets image.");
    assert_eq!(synthesize_clip_description(&Some(" ".into()), &vec!["x".into()]), "Image with tags: x.");
    assert_eq!(synthesize_clip_description(&None, &vec![]), "Image (CLIP embedding generated).");
}

#[test]
fn template_error_and_flattened_prompt() {
    assert!(needs_flattened_prompt("ChatTemplateError: tried to use + operator on unsupported types string and sequence"));
    assert!(!needs_flattened_prompt("timeout"));
    assert_eq!(
        flattened_vision_prompt("data:image/png;base64,AA", "Describe"),
        "You are an image analyst. The user has supplied an image as a base64 data URL below.\n\nIMAGE_DATA_URL:\ndata:image/png;base64,AAUser request: Describe\n"
    );
    assert!(vision_request_text().starts_with("Analyze this image"));
}

#[test]
fn clip_result_applied_to_record() {
    let mut m = FileMetadata {
        id: None,
        path: "/a.png".into(),
        filename: "a.png".into(),
        file_type: "image".into(),
        size: 1,
        modified: None,
        created: None,
        thumbnail_path: None,
        thumb_b64: None,
        hash: None,
        description: Some("short".into()),
        caption: None,
        tags: vec![],
        category: None,
        text_content: None,
        embedding: None,
        clip_embedding: None,
        segments: None,
    };
    apply_clip_result(&mut m, vec![7, 8], &vec!["cat".into(), "pet".into()], Some("animals".into()), true);
    assert_eq!(m.clip_embedding, Some(vec![7, 8]));
    assert_eq!(m.tags, vec!["cat".to_string(), "pet".to_string()]);
    assert_eq!(m.category.as_deref(), Some("animals"));
    assert_eq!(m.description.as_deref(), Some("animals \u{2013} tags: cat, pet."));
    let mut n = FileMetadata { description: Some("short".into()), tags: vec![], category: None, ..m };
    apply_clip_result(&mut n, vec![1], &vec![], None, false);
    assert_eq!(n.description.as_deref(), Some("short"));
}

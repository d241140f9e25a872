use file_explorer::metadata::{
    apply_indexed_vision, apply_vision, description_needs_generation, found_file_to_metadata,
    is_data_url_str, is_image_type, kind_name_string, kind_of_file_type, merge_thumbnail_row,
    metadata_from_row, split_thumbnail_exec, stored_category_exec, FileMetadata, FoundFile,
    MediaKind, Thumbnail, VisionDescription,
};

fn meta(path: &str, file_type: &str, description: Option<&str>) -> FileMetadata {
    FileMetadata {
        id: None,
        path: path.to_string(),
        filename: path.rsplit('/').next().unwrap().to_string(),
        file_type: file_type.to_string(),
        size: 10,
        modified: Some(100),
        created: Some(90),
        thumbnail_path: None,
        thumb_b64: None,
        hash: None,
        description: description.map(|d| d.to_string()),
        caption: None,
        tags: Vec::new(),
        category: Some("old".to_string()),
        text_content: None,
        embedding: None,
        clip_embedding: None,
        segments: None,
    }
}

fn row(path: &str) -> Thumbnail {
    Thumbnail {
        db_created: 1,
        path: path.to_string(),
        filename: "a.png".to_string(),
        file_type: "image".to_string(),
        size: 5,
        description: Some("kept".to_string()),
        caption: None,
        tags: vec!["x".to_string()],
        category: None,
        embedding: None,
        thumbnail_b64: Some("data:image/png;base64,AAAA".to_string()),
        modified: Some(7),
        hash: Some("h".to_string()),
    }
}

#[test]
fn data_urls_and_image_type() {
    assert!(is_data_url_str("data:image/png;base64,xx"));
    assert!(!is_data_url_str("/tmp/thumb.png"));
    assert!(is_image_type("image"));
    assert!(!is_image_type("video"));
}

#[test]
fn short_descriptions_need_generation() {
    assert!(description_needs_generation(&None));
    assert!(description_needs_generation(&Some("   tiny    ".to_string())));
    assert!(!description_needs_generation(&Some("a long enough text".to_string())));
}

#[test]
fn blank_category_is_not_stored() {
    let vd = VisionDescription { description: "d".into(), caption: "c".into(), tags: vec![], category: "  ".into() };
    assert_eq!(stored_category_exec(&vd), None);
    let vd2 = VisionDescription { category: "pets".into(), ..vd };
    assert_eq!(stored_category_exec(&vd2), Some("pets".to_string()));
}

#[test]
fn vision_answer_applied_on_demand_and_while_indexing() {
    let vd = VisionDescription {
        description: "A dog on a beach".into(),
        caption: "dog".into(),
        tags: vec!["dog".into(), "beach".into()],
        category: " ".into(),
    };
    let mut a = meta("/p/a.png", "image", None);
    apply_vision(&mut a, &vd);
    assert_eq!(a.description.as_deref(), Some("A dog on a beach"));
    assert_eq!(a.caption.as_deref(), Some("dog"));
    assert_eq!(a.tags, vec!["dog".to_string(), "beach".to_string()]);
    assert_eq!(a.category, None);
    let mut b = meta("/p/a.png", "image", None);
    apply_indexed_vision(&mut b, &vd);
    assert_eq!(b.category.as_deref(), Some("old"));
    assert_eq!(b.tags.len(), 2);
}

#[test]
fn media_kind_names_round_trip() {
    assert_eq!(kind_name_string(&MediaKind::Image), "image");
    assert_eq!(kind_name_string(&MediaKind::Video), "video");
    assert!(matches!(kind_of_file_type("video"), MediaKind::Video));
    assert!(matches!(kind_of_file_type("text"), MediaKind::Other));
}

#[test]
fn found_file_becomes_fresh_metadata() {
    let f = FoundFile {
        path: "/p/b.jpg".into(),
        file_name: "b.jpg".into(),
        size: None,
        modified: Some(3),
        created: None,
        kind: MediaKind::Image,
        thumb_data: Some("data:image/png;base64,QQ==".into()),
    };
    let m = found_file_to_metadata(&f);
    assert_eq!(m.path, "/p/b.jpg");
    assert_eq!(m.filename, "b.jpg");
    assert_eq!(m.file_type, "image");
    assert_eq!(m.size, 0);
    assert_eq!(m.thumb_b64.as_deref(), Some("data:image/png;base64,QQ=="));
    assert!(m.description.is_none() && m.tags.is_empty());
}

#[test]
fn cached_thumbnail_split_by_kind() {
    assert_eq!(split_thumbnail_exec(&Some("data:image/x".into())), (None, Some("data:image/x".to_string())));
    assert_eq!(split_thumbnail_exec(&Some("/t.png".into())), (Some("/t.png".to_string()), None));
    assert_eq!(split_thumbnail_exec(&None), (None, None));
}

#[test]
fn row_restores_metadata() {
    let m = metadata_from_row(&row("/p/a.png"));
    assert_eq!(m.created, Some(7));
    assert_eq!(m.thumb_b64.as_deref(), Some("data:image/png;base64,AAAA"));
    assert!(m.thumbnail_path.is_none());
    assert_eq!(m.hash.as_deref(), Some("h"));
}

#[test]
fn merged_row_prefers_new_text_and_is_idempotent() {
    let mut m = meta("/p/a.png", "image", Some("fresh description"));
    m.tags = vec![];
    let once = merge_thumbnail_row(Some(row("/p/a.png")), &m, None, 50);
    assert_eq!(once.description.as_deref(), Some("fresh description"));
    assert_eq!(once.tags, vec!["x".to_string()]);
    assert_eq!(once.thumbnail_b64.as_deref(), Some("data:image/png;base64,AAAA"));
    let twice = merge_thumbnail_row(Some(once.duplicate()), &m, None, 50);
    assert_eq!(twice.description, once.description);
    assert_eq!(twice.tags, once.tags);
    assert_eq!(twice.thumbnail_b64, once.thumbnail_b64);
    assert_eq!(twice.modified, once.modified);
    let fresh = merge_thumbnail_row(None, &m, Some("QUJD".into()), 50);
    assert_eq!(fresh.db_created, 50);
    assert_eq!(fresh.thumbnail_b64.as_deref(), Some("QUJD"));
}

use file_explorer::engine::{path_file_name, should_skip_reindex, AISearchEngine};
use file_explorer::metadata::{FileMetadata, Thumbnail, VisionDescription};

fn meta(path: &str, file_type: &str, description: Option<&str>) -> FileMetadata {
    FileMetadata {
        id: None,
        path: path.to_string(),
        filename: path.rsplit('/').next().unwrap().to_string(),
        file_type: file_type.to_string(),
        size: 1,
        modified: None,
        created: None,
        thumbnail_path: None,
        thumb_b64: None,
        hash: Some("abc".to_string()),
        description: description.map(|d| d.to_string()),
        caption: None,
        tags: Vec::new(),
        category: None,
        text_content: None,
        embedding: None,
        clip_embedding: None,
        segments: None,
    }
}

#[test]
fn stored_record_is_read_back() {
    let mut e = AISearchEngine::new();
    e.store_file(meta("/a.png", "image", Some("first description")));
    e.store_file(meta("/b.png", "image", None));
    e.store_file(meta("/a.png", "image", Some("second description")));
    let got = e.get_file_metadata("/a.png").unwrap();
    assert_eq!(got.description.as_deref(), Some("second description"));
    assert_eq!(e.list_indexed_paths(), vec!["/a.png".to_string(), "/b.png".to_string()]);
    assert!(e.get_file_metadata("/c.png").is_none());
}

#[test]
fn removing_forgets_record_and_document_id() {
    let mut e = AISearchEngine::new();
    e.store_file(meta("/a.png", "image", None));
    e.record_document_id("/a.png".to_string(), "doc:1".to_string());
    assert_eq!(e.document_id("/a.png").as_deref(), Some("doc:1"));
    assert_eq!(e.remove_file("/a.png").as_deref(), Some("doc:1"));
    assert!(e.get_file_metadata("/a.png").is_none());
    assert!(e.document_id("/a.png").is_none());
    assert_eq!(e.remove_file("/a.png"), None);
}

#[test]
fn missing_descriptions_counted_as_scheduled() {
    let mut e = AISearchEngine::new();
    e.store_file(meta("/a.png", "image", None));
    e.store_file(meta("/b.png", "image", Some("short")));
    e.store_file(meta("/c.png", "image", Some("a description long enough")));
    e.store_file(meta("/d.mp4", "video", None));
    assert_eq!(e.count_missing_descriptions(), 2);
    assert_eq!(e.enrichment_targets(), vec!["/a.png".to_string(), "/b.png".to_string()]);
}

#[test]
fn description_set_or_placeholder_added() {
    let mut e = AISearchEngine::new();
    e.store_file(meta("/a.png", "image", None));
    e.set_file_description("/a.png", "new text");
    assert_eq!(e.get_file_metadata("/a.png").unwrap().description.as_deref(), Some("new text"));
    e.set_file_description("/z.txt", "orphan");
    let z = e.get_file_metadata("/z.txt").unwrap();
    assert_eq!(z.file_type, "other");
    assert_eq!(z.filename, "z.txt");
    assert_eq!(z.size, 0);
}

#[test]
fn reuse_only_long_descriptions() {
    let mut e = AISearchEngine::new();
    e.store_file(meta("/a.png", "image", Some("   a fine description   ")));
    e.store_file(meta("/b.png", "image", Some("tiny")));
    assert_eq!(e.reusable_description("/a.png", false).as_deref(), Some("   a fine description   "));
    assert_eq!(e.reusable_description("/a.png", true), None);
    assert_eq!(e.reusable_description("/b.png", false), None);
}

#[test]
fn vision_answer_updates_indexed_record() {
    let mut e = AISearchEngine::new();
    e.store_file(meta("/a.png", "image", None));
    let vd = VisionDescription { description: "d".into(), caption: "c".into(), tags: vec!["t".into()], category: "cat".into() };
    assert!(e.apply_vision_description("/a.png", &vd));
    assert!(!e.apply_vision_description("/missing.png", &vd));
    let a = e.get_file_metadata("/a.png").unwrap();
    assert_eq!(a.category.as_deref(), Some("cat"));
    assert_eq!(a.tags, vec!["t".to_string()]);
}

#[test]
fn indexing_guard_counts_duplicates() {
    let mut e = AISearchEngine::new();
    assert!(e.begin_indexing("/a.png"));
    assert!(!e.begin_indexing("/a.png"));
    e.finish_indexing("/a.png");
    assert!(e.begin_indexing("/a.png"));
}

#[test]
fn force_reindex_requires_indexed_path() {
    let mut e = AISearchEngine::new();
    e.store_file(meta("/a.png", "image", Some("old description here")));
    let m = e.force_reindex_metadata("/a.png").unwrap();
    assert!(m.description.is_none());
    assert_eq!(m.hash.as_deref(), Some("abc"));
    assert_eq!(e.force_reindex_metadata("/b.png").err().as_deref(), Some("File not previously indexed"));
}

#[test]
fn skip_reindex_when_hash_unchanged() {
    let described = meta("/a.png", "image", Some("x"));
    assert!(should_skip_reindex(false, &Some(described), &Some("abc".to_string()), "image"));
    let undescribed = meta("/a.png", "image", None);
    assert!(!should_skip_reindex(false, &Some(undescribed), &Some("abc".to_string()), "image"));
    let video = meta("/a.mp4", "video", None);
    assert!(should_skip_reindex(false, &Some(video), &Some("abc".to_string()), "video"));
    let again = meta("/a.png", "image", Some("x"));
    assert!(!should_skip_reindex(true, &Some(again), &Some("abc".to_string()), "image"));
    let changed = meta("/a.png", "image", Some("x"));
    assert!(!should_skip_reindex(false, &Some(changed), &Some("def".to_string()), "image"));
    assert!(!should_skip_reindex(false, &None, &Some("abc".to_string()), "image"));
}

#[test]
fn targets_for_semantic_and_clip() {
    let mut e = AISearchEngine::new();
    let mut a = meta("/a.png", "image", None);
    a.embedding = Some(vec![1, 2]);
    e.store_file(a);
    e.store_file(meta("/b.png", "image", None));
    let mut c = meta("/c.mp4", "video", None);
    c.clip_embedding = None;
    e.store_file(c);
    assert_eq!(e.semantic_targets(), vec!["/b.png".to_string(), "/c.mp4".to_string()]);
    assert_eq!(e.clip_targets(), vec!["/a.png".to_string(), "/b.png".to_string()]);
    let cands = e.semantic_candidates(&vec!["/a.png".into(), "/b.png".into(), "/x".into()]);
    assert_eq!(cands.len(), 1);
    assert_eq!(cands[0].path, "/b.png");
}

#[test]
fn cached_rows_load_as_records() {
    let mut e = AISearchEngine::new();
    let rows = vec![Thumbnail {
        db_created: 0,
        path: "/a.png".into(),
        filename: "a.png".into(),
        file_type: "image".into(),
        size: 3,
        description: Some("desc".into()),
        caption: None,
        tags: vec![],
        category: None,
        embedding: None,
        thumbnail_b64: Some("/thumbs/a.png".into()),
        modified: Some(5),
        hash: None,
    }];
    assert_eq!(e.load_cached(rows), 1);
    let a = e.get_file_metadata("/a.png").unwrap();
    assert_eq!(a.thumbnail_path.as_deref(), Some("/thumbs/a.png"));
    assert!(a.thumb_b64.is_none());
    assert_eq!(e.get_all_files().len(), 1);
    assert_eq!(e.get_ai_metadata()[0].1.as_deref(), Some("desc"));
}

#[test]
fn file_name_is_last_path_component() {
    assert_eq!(path_file_name("/photos/cat.png"), "cat.png");
    assert_eq!(path_file_name("photos/trip/"), "trip");
    assert_eq!(path_file_name("photos/trip/."), "trip");
    assert_eq!(path_file_name("photos/.."), "");
    assert_eq!(path_file_name("/"), "");
    assert_eq!(path_file_name(""), "");
    let mut e = AISearchEngine::new();
    e.set_file_description("/x/y/notes.md", "text");
    assert_eq!(e.get_file_metadata("/x/y/notes.md").unwrap().filename, "notes.md");
}

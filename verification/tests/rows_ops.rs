use file_explorer::keyed::KeyedList;
use file_explorer::metadata::{FileMetadata, MediaKind, Thumbnail};
use file_explorer::rows::{
    complete_cached_row, document_snippet, fill_cache_from_index, preload_candidates, row_from_metadata,
    rows_by_path,
};

fn meta(path: &str) -> FileMetadata {
    FileMetadata {
        id: None,
        path: path.into(),
        filename: "n.png".into(),
        file_type: "image".into(),
        size: 8,
        modified: None,
        created: None,
        thumbnail_path: Some("/t.png".into()),
        thumb_b64: None,
        hash: Some("h".into()),
        description: Some("desc".into()),
        caption: Some("cap".into()),
        tags: vec!["t".into()],
        category: Some("cat".into()),
        text_content: None,
        embedding: None,
        clip_embedding: None,
        segments: None,
    }
}

fn row(path: &str, file_type: &str) -> Thumbnail {
    Thumbnail {
        db_created: 0,
        path: path.into(),
        filename: "r.png".into(),
        file_type: file_type.into(),
        size: 4,
        description: None,
        caption: Some("keep".into()),
        tags: vec![],
        category: None,
        embedding: None,
        thumbnail_b64: None,
        modified: None,
        hash: None,
    }
}

#[test]
fn cached_row_completed_from_index() {
    let mut r = row("/a", "image");
    complete_cached_row(&mut r, &meta("/a"));
    assert_eq!(r.hash.as_deref(), Some("h"));
    assert_eq!(r.thumbnail_b64.as_deref(), Some("/t.png"));
    assert_eq!(r.description.as_deref(), Some("desc"));
    assert_eq!(r.caption.as_deref(), Some("keep"));
    assert_eq!(r.tags, vec!["t".to_string()]);
    let fresh = row_from_metadata(&meta("/b"), 77);
    assert_eq!(fresh.db_created, 77);
    assert_eq!(fresh.modified, Some(77));
    assert_eq!(fresh.caption.as_deref(), Some("cap"));
}

#[test]
fn cache_filled_from_index() {
    let mut cache: KeyedList<Thumbnail> = KeyedList::new();
    cache.insert("/a".into(), row("/a", "image"));
    fill_cache_from_index(&mut cache, &vec![meta("/a"), meta("/b")], 5);
    assert_eq!(cache.get("/a").unwrap().description.as_deref(), Some("desc"));
    assert_eq!(cache.get("/b").unwrap().db_created, 5);
}

#[test]
fn preload_rows_under_root() {
    let rows = vec![row("/pics/a.png", "image"), row("/other/b.png", "image"), row("/pics/c.mp4", "video")];
    let found = preload_candidates(&rows, "/pics");
    assert_eq!(found.len(), 2);
    assert_eq!(found[0].path, "/pics/a.png");
    assert!(matches!(found[1].kind, MediaKind::Video));
    assert_eq!(found[1].size, Some(4));
    assert!(found[0].modified.is_none());
}

#[test]
fn debug_rows_sorted_and_limited() {
    let rows = vec![row("/c", "image"), row("/a", "image"), row("/b", "image")];
    let listed = rows_by_path(&rows, 2);
    assert_eq!(listed.iter().map(|r| r.path.as_str()).collect::<Vec<_>>(), vec!["/a", "/b"]);
    assert_eq!(rows_by_path(&rows, 10).len(), 3);
}

#[test]
fn snippet_previews_160_chars() {
    let body: String = std::iter::repeat('é').take(200).collect();
    let s = document_snippet("t".into(), &body);
    assert_eq!(s.preview.chars().count(), 160);
    assert_eq!(s.len, 400);
    assert_eq!(s.title.as_deref(), Some("t"));
    assert!(s.id.is_empty());
    assert_eq!(document_snippet("x".into(), "short").preview, "short");
}

use file_explorer::document::{get_searchable_text, parse_file_path, semantic_document};
use file_explorer::metadata::FileMetadata;

fn meta() -> FileMetadata {
    FileMetadata {
        id: None,
        path: "/photos/cat.png".to_string(),
        filename: "cat.png".to_string(),
        file_type: "image".to_string(),
        size: 2048,
        modified: None,
        created: None,
        thumbnail_path: None,
        thumb_b64: None,
        hash: Some("h1".to_string()),
        description: Some("A cat\nasleep".to_string()),
        caption: Some("cat".to_string()),
        tags: vec!["cat".to_string(), "sofa".to_string()],
        category: Some("pets".to_string()),
        text_content: None,
        embedding: None,
        clip_embedding: None,
        segments: Some(vec!["a".to_string(), "b".to_string()]),
    }
}

#[test]
fn searchable_text_joins_parts() {
    assert_eq!(get_searchable_text(&meta()), "cat.png A cat\nasleep cat a b cat sofa");
}

#[test]
fn document_has_header_then_body() {
    let d = semantic_document(&meta()).unwrap();
    let expected = "FILE_PATH:/photos/cat.png\nHASH:h1\nFILE_TYPE:image\nFILE_SIZE:2048\nCATEGORY:pets\nCAPTION:cat\nTAGS:cat|sofa\nSEGMENTS:a|b\nDESCRIPTION:A cat asleep\nOCR:\n\ncat.png A cat\nasleep cat a b cat sofa";
    assert_eq!(d, expected);
}

#[test]
fn empty_searchable_text_gives_no_document() {
    let mut m = meta();
    m.filename = String::new();
    m.description = None;
    m.caption = None;
    m.tags = vec![];
    m.segments = None;
    assert!(semantic_document(&m).is_none());
}

#[test]
fn document_names_its_path() {
    let d = semantic_document(&meta()).unwrap();
    assert_eq!(parse_file_path(&d).as_deref(), Some("/photos/cat.png"));
    assert_eq!(parse_file_path("TITLE:x\nFILE_PATH:  /a b.png  \nrest").as_deref(), Some("/a b.png"));
    assert_eq!(parse_file_path("no header here"), None);
    let late = "1\n2\n3\n4\n5\n6\n7\n8\n9\n10\nFILE_PATH:/x";
    assert_eq!(parse_file_path(late), None);
}

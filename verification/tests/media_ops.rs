use file_explorer::media::{
    choose_cached_thumbnail, compute_file_hash, normalize_thumbnail, png_data_url, thumbnail_file_to_read,
};
use file_explorer::metadata::FileMetadata;

fn meta(thumbnail_path: Option<&str>, thumb_b64: Option<&str>) -> FileMetadata {
    FileMetadata {
        id: None,
        path: "/a.png".into(),
        filename: "a.png".into(),
        file_type: "image".into(),
        size: 1,
        modified: None,
        created: None,
        thumbnail_path: thumbnail_path.map(|s| s.to_string()),
        thumb_b64: thumb_b64.map(|s| s.to_string()),
        hash: None,
        description: None,
        caption: None,
        tags: vec![],
        category: None,
        text_content: None,
        embedding: None,
        clip_embedding: None,
        segments: None,
    }
}

#[test]
fn blake3_hex_of_content() {
    assert_eq!(compute_file_hash(b"abc"), "6437b3ac38465133ffb63b75273a8db548c558465d79db03fd359c6cd5bd9d85");
    assert_eq!(compute_file_hash(b""), "af1349b9f5f9a1a6a0404dea36dcc9499bcb25c9adc112b7cc9a93cae41f3262");
}

#[test]
fn png_data_url_encodes_bytes() {
    assert_eq!(png_data_url(b"hi"), "data:image/png;base64,aGk=");
    assert_eq!(png_data_url(b""), "data:image/png;base64,");
    assert_eq!(png_data_url(b"Man"), "data:image/png;base64,TWFu");
    assert_eq!(png_data_url(b"M"), "data:image/png;base64,TQ==");
    assert_eq!(png_data_url(&[0xfb, 0xff, 0xbf]), "data:image/png;base64,+/+/");
}

#[test]
fn thumbnail_inlining_rules() {
    assert_eq!(thumbnail_file_to_read(&meta(Some("/t/a.png"), None)).as_deref(), Some("/t/a.png"));
    assert_eq!(thumbnail_file_to_read(&meta(Some("/t/a.png"), Some("data:image/png;base64,x"))), None);
    assert_eq!(thumbnail_file_to_read(&meta(Some("data:image/png;base64,x"), None)), None);

    let mut m = meta(Some("/t/a.png"), None);
    normalize_thumbnail(&mut m, Some(b"hi".to_vec()));
    assert_eq!(m.thumb_b64.as_deref(), Some("data:image/png;base64,aGk="));

    let mut misfiled = meta(Some("data:image/png;base64,QQ=="), None);
    normalize_thumbnail(&mut misfiled, None);
    assert_eq!(misfiled.thumb_b64.as_deref(), Some("data:image/png;base64,QQ=="));

    let mut unread = meta(Some("/t/a.png"), None);
    normalize_thumbnail(&mut unread, None);
    assert_eq!(unread.thumb_b64, None);
}

#[test]
fn cached_thumbnail_choice() {
    assert_eq!(choose_cached_thumbnail(&meta(None, Some("  data:x  ")), None).as_deref(), Some("data:x"));
    assert_eq!(choose_cached_thumbnail(&meta(Some("data:image/p"), None), None).as_deref(), Some("data:image/p"));
    assert_eq!(choose_cached_thumbnail(&meta(Some("/t.png"), None), Some(b"hi".to_vec())).as_deref(), Some("aGk="));
    assert_eq!(choose_cached_thumbnail(&meta(Some("/t.png"), None), None), None);
    assert_eq!(choose_cached_thumbnail(&meta(None, None), None), None);
}

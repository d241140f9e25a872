use file_explorer::keyed::KeyedList;
use file_explorer::metadata::{FoundFile, MediaKind, Thumbnail};
use file_explorer::thumbs::{apply_thumbnail_result, thumbnail_jobs};

fn found(path: &str, name: &str, thumb: bool) -> FoundFile {
    FoundFile {
        path: path.into(),
        file_name: name.into(),
        size: None,
        modified: None,
        created: None,
        kind: MediaKind::Other,
        thumb_data: if thumb { Some("t".into()) } else { None },
    }
}

#[test]
fn jobs_for_files_without_thumbnails() {
    let mut cache: KeyedList<Thumbnail> = KeyedList::new();
    apply_thumbnail_result(&mut cache, "/c.png".into(), "c.png".into(), "tc".into(), 1);
    let items = vec![
        found("/a.PNG", "a.PNG", false),
        found("/b.png", "b.png", true),
        found("/c.png", "c.png", false),
        found("/d.mp4", "d.mp4", false),
        found("/e.txt", "e.txt", false),
    ];
    let jobs = thumbnail_jobs(&items, &cache, &vec!["png".into()], &vec!["mp4".into()]);
    assert_eq!(jobs.len(), 2);
    assert_eq!(jobs[0].path, "/a.PNG");
    assert!(jobs[0].is_image && !jobs[0].is_video);
    assert_eq!(jobs[1].path, "/d.mp4");
    assert!(jobs[1].is_video);
}

#[test]
fn at_most_501_jobs_per_pass() {
    let cache: KeyedList<Thumbnail> = KeyedList::new();
    let items: Vec<FoundFile> = (0..600).map(|i| found(&format!("/{}.png", i), &format!("{}.png", i), false)).collect();
    assert_eq!(thumbnail_jobs(&items, &cache, &vec!["png".into()], &vec![]).len(), 501);
}

#[test]
fn finished_thumbnail_enters_cache() {
    let mut cache: KeyedList<Thumbnail> = KeyedList::new();
    apply_thumbnail_result(&mut cache, "/x.png".into(), "x.png".into(), "first".into(), 9);
    apply_thumbnail_result(&mut cache, "/x.png".into(), "x.png".into(), "second".into(), 10);
    let r = cache.get("/x.png").unwrap();
    assert_eq!(r.thumbnail_b64.as_deref(), Some("first"));
    assert_eq!(r.file_type, "other");
    assert_eq!(r.db_created, 9);
}

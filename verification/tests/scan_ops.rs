use file_explorer::keyed::KeyedList;
use file_explorer::metadata::{FoundFile, MediaKind};
use file_explorer::scan::{extension_of, ScanCycle, ScanEnvelope, ScanFeed, ScanMsg, ScanResults};

fn found(path: &str, name: &str, thumb: Option<&str>) -> FoundFile {
    FoundFile {
        path: path.into(),
        file_name: name.into(),
        size: Some(1),
        modified: None,
        created: None,
        kind: MediaKind::Image,
        thumb_data: thumb.map(|t| t.to_string()),
    }
}

#[test]
fn extensions_of_file_names() {
    assert_eq!(extension_of("a.tar.GZ").as_deref(), Some("GZ"));
    assert_eq!(extension_of(".hidden"), None);
    assert_eq!(extension_of("noext"), None);
    assert_eq!(extension_of("trailing."), Some(String::new()));
}

#[test]
fn stale_messages_ignored() {
    let mut feed = ScanFeed::new(vec![], vec![]);
    let mut cycle = ScanCycle::new(2);
    let cache: KeyedList<Option<String>> = KeyedList::new();
    let flushed = feed.absorb(&mut cycle, ScanEnvelope { scan_id: 1, msg: ScanMsg::Done }, 2, &cache);
    assert!(flushed.is_empty());
    assert!(feed.scanning);
    assert_eq!(cycle.processed, 0);
}

#[test]
fn found_files_take_cached_thumbnails_and_new_extensions() {
    let mut feed = ScanFeed::new(vec!["jpg".to_string()], vec![("jpg".to_string(), false)]);
    let mut cycle = ScanCycle::new(1);
    let mut cache: KeyedList<Option<String>> = KeyedList::new();
    cache.insert("/p/a.PNG".to_string(), Some("cached".to_string()));
    feed.absorb(&mut cycle, ScanEnvelope { scan_id: 1, msg: ScanMsg::Found(found("/p/a.PNG", "a.PNG", None)) }, 1, &cache);
    feed.absorb(&mut cycle, ScanEnvelope { scan_id: 1, msg: ScanMsg::Found(found("/p/b.jpg", "b.jpg", None)) }, 1, &cache);
    assert_eq!(cycle.new_items[0].thumb_data.as_deref(), Some("cached"));
    assert_eq!(cycle.new_items[1].thumb_data, None);
    assert_eq!(feed.known_exts, vec!["jpg".to_string(), "png".to_string()]);
    assert_eq!(feed.ext_switches, vec![("jpg".to_string(), false), ("png".to_string(), true)]);
    assert_eq!(feed.pending.len(), 1);
    assert_eq!(feed.pending[0].path, "/p/b.jpg");
    assert_eq!(cycle.processed, 2);
}

#[test]
fn batches_persist_every_hundred_rows() {
    let mut feed = ScanFeed::new(vec![], vec![]);
    let mut cycle = ScanCycle::new(5);
    let cache: KeyedList<Option<String>> = KeyedList::new();
    let batch: Vec<FoundFile> = (0..250).map(|i| found(&format!("/f{}", i), &format!("f{}.png", i), None)).collect();
    let flushed = feed.absorb(&mut cycle, ScanEnvelope { scan_id: 5, msg: ScanMsg::FoundBatch(batch) }, 5, &cache);
    assert_eq!(flushed.len(), 2);
    assert_eq!(flushed[0].len(), 100);
    assert_eq!(flushed[1][0].path, "/f100");
    assert_eq!(feed.pending.len(), 50);
    let done = feed.absorb(&mut cycle, ScanEnvelope { scan_id: 5, msg: ScanMsg::Done }, 5, &cache);
    assert_eq!(done.len(), 1);
    assert_eq!(done[0].len(), 50);
    assert!(feed.pending.is_empty());
    assert!(!feed.scanning);
    assert!(feed.finished);
    assert_eq!(cycle.new_items.len(), 250);
}

#[test]
fn errors_progress_and_done_of_replaced_scan() {
    let mut feed = ScanFeed::new(vec![], vec![]);
    let mut cycle = ScanCycle::new(3);
    let cache: KeyedList<Option<String>> = KeyedList::new();
    feed.absorb(&mut cycle, ScanEnvelope { scan_id: 3, msg: ScanMsg::Progress { scanned: 4, total: 9 } }, 3, &cache);
    assert_eq!(cycle.latest_progress, Some((4, 9)));
    feed.absorb(&mut cycle, ScanEnvelope { scan_id: 3, msg: ScanMsg::Done }, 4, &cache);
    assert!(feed.scanning);
    assert!(!feed.finished);
    feed.absorb(&mut cycle, ScanEnvelope { scan_id: 3, msg: ScanMsg::Error("disk gone".into()) }, 3, &cache);
    assert_eq!(feed.error.as_deref(), Some("disk gone"));
    assert!(!feed.scanning);
    assert!(!cycle.is_full());
}

#[test]
fn results_list_each_path_once() {
    let mut cache: KeyedList<Option<String>> = KeyedList::new();
    cache.insert("/a".to_string(), Some("ca".to_string()));
    let mut results = ScanResults::new();
    results.items.push(found("/a", "a.png", None));
    let mut feed = ScanFeed::new(vec![], vec![]);
    let mut cycle = ScanCycle::new(1);
    let empty: KeyedList<Option<String>> = KeyedList::new();
    feed.absorb(&mut cycle, ScanEnvelope { scan_id: 1, msg: ScanMsg::Found(found("/a", "a.png", None)) }, 1, &empty);
    feed.absorb(&mut cycle, ScanEnvelope { scan_id: 1, msg: ScanMsg::Found(found("/b", "b.png", None)) }, 1, &empty);
    feed.absorb(&mut cycle, ScanEnvelope { scan_id: 1, msg: ScanMsg::Found(found("/b", "b.png", None)) }, 1, &empty);
    feed.absorb(&mut cycle, ScanEnvelope { scan_id: 1, msg: ScanMsg::UpdateThumb { path: "/b".into(), thumb: "tb".into() } }, 1, &empty);
    let progress = results.finish_cycle(&cycle, &cache);
    assert_eq!(progress, None);
    let paths: Vec<&str> = results.items.iter().map(|f| f.path.as_str()).collect();
    assert_eq!(paths, vec!["/a", "/b"]);
    assert_eq!(results.items[0].thumb_data.as_deref(), Some("ca"));
    assert_eq!(results.items[1].thumb_data.as_deref(), Some("tb"));
}

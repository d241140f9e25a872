use file_explorer::metadata::MediaKind;
use file_explorer::records::{
    categories_available, filter_records, group_by_category, parse_excluded_dirs, parse_excluded_exts,
    record_passes, sorted_order,
    toggle_extension, FileRecord, Filters, SortBy, SortSetting,
};

fn rec(path: &str, ext: Option<&str>, size: Option<u64>, cat: Option<&str>, desc: bool, thumb: bool) -> FileRecord {
    let comps: Vec<String> = path.split('/').filter(|c| !c.is_empty()).map(|c| c.to_string()).collect();
    FileRecord {
        path: path.to_string(),
        components: comps.clone(),
        file_name: comps.last().cloned(),
        extension: ext.map(|e| e.to_string()),
        size,
        modified: size.map(|s| s as i64),
        created: None,
        kind: MediaKind::Image,
        thumb_data: if thumb { Some("t".into()) } else { None },
        description: if desc { Some("d".into()) } else { None },
        category: cat.map(|c| c.to_string()),
    }
}

fn no_filters() -> Filters {
    Filters { only_with_thumb: false, only_with_description: false, category_filters: vec![], category_filter: None }
}

#[test]
fn filters_keep_order_and_apply_switches() {
    let recs = vec![
        rec("/p/Cat.PNG", Some("PNG"), Some(3), Some("pets"), true, true),
        rec("/p/dog.jpg", Some("jpg"), Some(1), None, false, false),
        rec("/p/x/bird.png", Some("png"), Some(2), Some("birds"), true, false),
    ];
    let switches = vec![("jpg".to_string(), false)];
    let kept = filter_records(&recs, &no_filters(), &switches, &vec![], "");
    assert_eq!(kept.iter().map(|r| r.path.as_str()).collect::<Vec<_>>(), vec!["/p/Cat.PNG", "/p/x/bird.png"]);
    let excluded = vec![vec!["p".to_string(), "x".to_string()]];
    let kept2 = filter_records(&recs, &no_filters(), &vec![], &excluded, "cat");
    assert_eq!(kept2.len(), 1);
    assert_eq!(kept2[0].path, "/p/Cat.PNG");
    let pathlike = filter_records(&recs, &no_filters(), &vec![], &vec![], "/p/");
    assert_eq!(pathlike.len(), 3);
    let mut f = no_filters();
    f.only_with_thumb = true;
    assert!(record_passes(&recs[0], &f, &vec![], &vec![], ""));
    assert!(!record_passes(&recs[1], &f, &vec![], &vec![], ""));
    let mut g = no_filters();
    g.category_filters = vec!["birds".into()];
    assert_eq!(filter_records(&recs, &g, &vec![], &vec![], "").len(), 1);
    let mut h = no_filters();
    h.category_filter = Some("pets".into());
    assert_eq!(filter_records(&recs, &h, &vec![], &vec![], "")[0].path, "/p/Cat.PNG");
}

#[test]
fn categories_sorted_once() {
    let recs = vec![
        rec("/a", None, None, Some("pets"), false, false),
        rec("/b", None, None, Some("art"), false, false),
        rec("/c", None, None, Some("pets"), false, false),
        rec("/d", None, None, Some(""), false, false),
        rec("/e", None, None, None, false, false),
    ];
    assert_eq!(categories_available(&recs), vec!["art".to_string(), "pets".to_string()]);
}

#[test]
fn grouping_by_category() {
    let recs = vec![
        rec("/a", None, None, Some("pets"), false, false),
        rec("/b", None, None, None, false, false),
        rec("/c", None, None, Some("pets"), false, false),
        rec("/d", None, None, Some("art"), false, false),
    ];
    let groups = group_by_category(&recs);
    let names: Vec<&str> = groups.iter().map(|g| g.0.as_str()).collect();
    assert_eq!(names, vec!["Uncategorized", "art", "pets"]);
    assert_eq!(groups[2].1.iter().map(|r| r.path.as_str()).collect::<Vec<_>>(), vec!["/a", "/c"]);
}

#[test]
fn stable_sorts_by_column() {
    let recs = vec![
        rec("/b.png", Some("png"), Some(5), None, false, false),
        rec("/A.jpg", Some("jpg"), None, None, false, false),
        rec("/c.png", Some("png"), Some(1), None, false, false),
        rec("/a.gif", Some("gif"), Some(5), None, false, false),
    ];
    let by_name = sorted_order(&recs, &SortSetting { by: SortBy::Name, asc: true });
    assert_eq!(by_name, vec![3, 1, 0, 2]);
    let by_size = sorted_order(&recs, &SortSetting { by: SortBy::Size, asc: true });
    assert_eq!(by_size, vec![1, 2, 0, 3]);
    let by_size_desc = sorted_order(&recs, &SortSetting { by: SortBy::Size, asc: false });
    assert_eq!(by_size_desc, vec![0, 3, 2, 1]);
    let by_type = sorted_order(&recs, &SortSetting { by: SortBy::Type, asc: true });
    assert_eq!(by_type, vec![3, 1, 0, 2]);
}

#[test]
fn extension_switch_flipped_twice() {
    let mut sw: Vec<(String, bool)> = vec![];
    toggle_extension(&mut sw, "png");
    assert_eq!(sw, vec![("png".to_string(), false)]);
    toggle_extension(&mut sw, "png");
    assert_eq!(sw, vec![("png".to_string(), true)]);
}

#[test]
fn category_filter_toggled_twice() {
    let mut f = no_filters();
    f.toggle_category("pets");
    f.toggle_category("art");
    assert_eq!(f.category_filters, vec!["art".to_string(), "pets".to_string()]);
    f.toggle_category("pets");
    assert_eq!(f.category_filters, vec!["art".to_string()]);
    f.toggle_category("art");
    assert!(f.category_filters.is_empty());
}

#[test]
fn excluded_folders_and_extensions_from_text() {
    assert_eq!(
        parse_excluded_dirs("  /a/b \n\n/c\r\n   \n"),
        vec!["/a/b".to_string(), "/c".to_string()]
    );
    assert!(parse_excluded_dirs("").is_empty());
    assert_eq!(
        parse_excluded_exts("JPG, png;;  TxT ,"),
        vec!["jpg".to_string(), "png".to_string(), "txt".to_string()]
    );
}

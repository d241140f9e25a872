use file_explorer::layout::{
    date_columns, detail_columns, disabled_count, relative_parent_text, show_path_column,
    clamp_width, left_width_after_drag, pane_width_after_drag, preview_width_after_drag,
    view_mode_from_setting, view_mode_setting, ViewMode,
};
use file_explorer::records::{SortBy, SortSetting};

#[test]
fn widths_stay_in_bounds() {
    assert_eq!(clamp_width(100, 180, 480), 180);
    assert_eq!(clamp_width(900, 240, 800), 800);
    assert_eq!(clamp_width(300, 180, 480), 300);
    assert_eq!(left_width_after_drag(100, 300, 150), 350);
    assert_eq!(left_width_after_drag(100, 300, -500), 180);
    assert_eq!(preview_width_after_drag(500, 400, 300), 600);
    assert_eq!(preview_width_after_drag(500, 400, 100), 800);
    assert_eq!(pane_width_after_drag(0, 200, -100), 160);
    assert_eq!(pane_width_after_drag(0, 200, 5000), 1600);
}

#[test]
fn view_mode_settings() {
    assert!(view_mode_from_setting(&Some("icons".into())) == ViewMode::Icons);
    assert!(view_mode_from_setting(&Some("grid".into())) == ViewMode::Details);
    assert!(view_mode_from_setting(&None) == ViewMode::Details);
    assert_eq!(view_mode_setting(ViewMode::Icons), "icons");
    assert_eq!(view_mode_setting(ViewMode::Details), "details");
}

#[test]
fn header_clicks() {
    let s = SortSetting::default_sort();
    assert!(s == SortSetting { by: SortBy::Name, asc: true });
    let once = s.clicked(SortBy::Name);
    assert!(once == SortSetting { by: SortBy::Name, asc: false });
    assert!(once.clicked(SortBy::Name) == s);
    assert!(once.clicked(SortBy::Size) == SortSetting { by: SortBy::Size, asc: true });
}

#[test]
fn details_columns() {
    assert_eq!(date_columns(SortBy::Created), (false, true));
    assert_eq!(date_columns(SortBy::Modified), (true, false));
    assert_eq!(date_columns(SortBy::Size), (true, false));
    assert_eq!(detail_columns(false, true, true, false), vec![0, 6, 1, 2, 4, 5]);
    assert_eq!(detail_columns(true, false, false, true), vec![0, 3, 4, 5]);
    let c = |p: &str| -> Vec<String> { p.split('/').filter(|s| !s.is_empty()).map(|s| s.to_string()).collect() };
    let root = Some(c("/pics"));
    assert!(!show_path_column(&vec![c("/pics/a.png"), c("/pics/b.png")], &root));
    assert!(show_path_column(&vec![c("/pics/a.png"), c("/pics/x/b.png")], &root));
    assert!(show_path_column(&vec![c("/other/a.png")], &root));
    assert!(!show_path_column(&vec![], &None));
    assert!(show_path_column(&vec![c("/a")], &None));
    assert_eq!(disabled_count(&vec![("a".into(), true), ("b".into(), false), ("c".into(), false)]), 2);
}

#[test]
fn row_folder_relative_to_shared_folder() {
    let c = |p: &str| -> Vec<String> { p.split('/').filter(|s| !s.is_empty()).map(|s| s.to_string()).collect() };
    let root = Some(c("/pics"));
    assert_eq!(relative_parent_text(&c("/pics/a.png"), &root, "/pics/a.png"), ".");
    assert_eq!(relative_parent_text(&c("/pics/x/y/b.png"), &root, "/pics/x/y/b.png"), "x/y");
    assert_eq!(relative_parent_text(&c("/other/a.png"), &root, "/other/a.png"), "/other/a.png");
    assert_eq!(relative_parent_text(&c("/a.png"), &None, "/a.png"), "/a.png");
}

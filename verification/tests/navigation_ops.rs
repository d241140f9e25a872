use file_explorer::navigation::{click_selection, typed_target, Navigation};

#[test]
fn back_undoes_up() {
    let mut n = Navigation::new("/home/me/pics".to_string());
    assert!(!n.can_go_back());
    assert!(n.go_up(Some("/home/me".to_string())));
    assert_eq!(n.root, "/home/me");
    assert!(n.can_go_back());
    assert!(n.go_back());
    assert_eq!(n.root, "/home/me/pics");
    assert!(n.history.is_empty());
    assert!(!n.go_back());
    assert!(!n.go_up(None));
    assert_eq!(n.root, "/home/me/pics");
}

#[test]
fn opening_folders_remembers_the_previous_one() {
    let mut n = Navigation::new("/a".to_string());
    n.open_folder("/a/b".to_string());
    n.open_folder("/a/b".to_string());
    assert_eq!(n.history, vec!["/a".to_string()]);
    n.go_back();
    assert_eq!(n.root, "/a");
}

#[test]
fn typed_paths_are_trimmed_and_not_repeated() {
    assert_eq!(typed_target("  /x/y  ").as_deref(), Some("/x/y"));
    assert_eq!(typed_target("   "), None);
    let mut n = Navigation::new("/a".to_string());
    n.go_to("/b".to_string());
    n.go_back();
    n.history.push("/a".to_string());
    n.go_to("/c".to_string());
    assert_eq!(n.history, vec!["/a".to_string()]);
    n.go_back();
    assert_eq!(n.root, "/a");
}

#[test]
fn clicks_select_toggle_and_focus() {
    let sel = vec!["/a".to_string(), "/b".to_string()];
    let (f, s) = click_selection(Some("/a".into()), sel.clone(), "/b", true, false);
    assert_eq!(f.as_deref(), Some("/a"));
    assert_eq!(s, vec!["/a".to_string()]);
    let (f, s) = click_selection(Some("/a".into()), sel.clone(), "/c", true, false);
    assert_eq!(f.as_deref(), Some("/a"));
    assert_eq!(s, vec!["/a".to_string(), "/b".to_string(), "/c".to_string()]);
    let (f, s) = click_selection(Some("/a".into()), sel.clone(), "/c", false, true);
    assert_eq!(f.as_deref(), Some("/c"));
    assert_eq!(s, sel);
    let (f, s) = click_selection(None, sel, "/c", false, false);
    assert_eq!(f.as_deref(), Some("/c"));
    assert_eq!(s, vec!["/c".to_string()]);
}

use file_explorer::preview::{common_root, description_display, instruction_for, shows_subfolder, DescriptionStream};

fn comps(p: &str) -> Vec<String> {
    p.split('/').filter(|c| !c.is_empty()).map(|c| c.to_string()).collect()
}

#[test]
fn long_descriptions_cut_unless_expanded() {
    let long: String = "x".repeat(260);
    let d = description_display(&None, &Some(long.clone()), false).unwrap();
    assert!(d.long && !d.streaming && d.has_text);
    assert_eq!(d.display.chars().count(), 251);
    assert!(d.display.ends_with('\u{2026}'));
    let e = description_display(&None, &Some(long.clone()), true).unwrap();
    assert_eq!(e.display, long);
    let s = description_display(&Some("partial".into()), &Some("stored".into()), false).unwrap();
    assert_eq!(s.display, "partial");
    assert!(s.streaming && !s.long);
    assert!(description_display(&None, &None, false).is_none());
}

#[test]
fn shared_folder_of_results() {
    let paths = vec![comps("/home/me/pics/a.png"), comps("/home/me/pics/x/b.png"), comps("/home/me/pics/c.png")];
    assert_eq!(common_root(&paths), Some(comps("/home/me/pics")));
    assert_eq!(common_root(&vec![comps("/a/b"), comps("/c/d")]), None);
    assert_eq!(common_root(&vec![]), None);
    assert!(shows_subfolder("x/b.png"));
    assert!(!shows_subfolder("a.png"));
}

#[test]
fn instruction_template() {
    assert_eq!(instruction_for("  "), "Analyze the supplied image and return ONLY JSON with keys: description, caption, tags (array), category.");
    assert_eq!(instruction_for("Be brief"), "Be brief");
}

#[test]
fn streamed_description_applied_once() {
    let mut s = DescriptionStream::new();
    let a = s.push_fragment("{\"description\": \"A bo");
    assert_eq!(a.interim, "A bo");
    assert!(a.answer.is_none());
    let b = s.push_fragment("at\"}");
    assert_eq!(b.interim, "A boat");
    assert_eq!(b.answer.unwrap()["description"], "A boat");
    s.mark_applied();
    let c = s.push_fragment(" ");
    assert!(c.answer.is_none());
    assert_eq!(s.text, "{\"description\": \"A boat\"} ");
}

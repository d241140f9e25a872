use file_explorer::keyed::KeyedList;
use file_explorer::order::compare_strs;

#[test]
fn keyed_list_read_after_write() {
    let mut k: KeyedList<u32> = KeyedList::new();
    k.insert("a".into(), 1);
    k.insert("b".into(), 2);
    k.insert("a".into(), 3);
    assert_eq!(k.get("a"), Some(&3));
    assert_eq!(k.remove("b"), Some(2));
    assert_eq!(k.get("b"), None);
    assert_eq!(k.remove("b"), None);
}

#[test]
fn string_order() {
    let a: Vec<char> = "abc".chars().collect();
    let b: Vec<char> = "abd".chars().collect();
    let p: Vec<char> = "ab".chars().collect();
    assert_eq!(compare_strs(&a, &b), -1);
    assert_eq!(compare_strs(&b, &a), 1);
    assert_eq!(compare_strs(&p, &a), -1);
    assert_eq!(compare_strs(&a, &a), 0);
}

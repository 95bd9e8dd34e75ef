use mugunghwa::commons::same_text;
use mugunghwa::text::{chars_between, chars_of, has_at, string_of};

#[test]
fn text_helpers() {
    let cs = chars_of("héllo.wörld");
    assert_eq!(cs.len(), 11);
    assert_eq!(cs[1], 'é');
    assert_eq!(string_of(&cs, 0, 5), "héllo");
    assert_eq!(string_of(&cs, 6, 11), "wörld");
    assert_eq!(chars_between(&cs, 5, 7), vec!['.', 'w']);
    assert!(has_at(&cs, 6, "wö"));
    assert!(has_at(&cs, 0, ""));
    assert!(!has_at(&cs, 6, "wo"));
    assert!(!has_at(&cs, 9, "ldx"));
    assert!(chars_of("").is_empty());
}

#[test]
fn same_text_compares_chars() {
    assert!(same_text("", ""));
    assert!(same_text("key ü", "key ü"));
    assert!(!same_text("key", "key "));
    assert!(!same_text("kéy", "key"));
}

use codex_mgr::label::validate_label;
use codex_mgr::label::NameError;

#[test]
fn label_accepts_plain_names() {
    assert_eq!(validate_label("work-1"), Ok(()));
    assert_eq!(validate_label("a.b_c"), Ok(()));
}

#[test]
fn label_rejects_in_rule_order() {
    assert_eq!(validate_label(""), Err(NameError::Empty));
    assert_eq!(validate_label(&"a".repeat(65)), Err(NameError::TooLong));
    assert_eq!(validate_label(&"a".repeat(64)), Ok(()));
    assert_eq!(validate_label("."), Err(NameError::Reserved));
    assert_eq!(validate_label(".."), Err(NameError::Reserved));
    assert_eq!(validate_label(".hidden"), Err(NameError::Invalid));
    assert_eq!(validate_label("a/b"), Err(NameError::Invalid));
    assert_eq!(validate_label("caf\u{e9}"), Err(NameError::Invalid));
}

use atom_syndication_format::utils::xml_name_token::is_valid_name;

#[test]
fn validate_name() {
    assert!(is_valid_name("example"));
    assert!(is_valid_name("example-element-name"));
    assert!(!is_valid_name("123invalid"));
    assert!(!is_valid_name("-invalid"));
}

#[test]
fn validate_name_edges() {
    assert!(!is_valid_name(""));
    assert!(is_valid_name(":colon"));
    assert!(is_valid_name("_underscore"));
    assert!(is_valid_name("a1.b-c:d"));
    assert!(!is_valid_name("has space"));
}

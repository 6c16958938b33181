use atom_syndication_format::common::attributes::AttributeMap;
use atom_syndication_format::common::attributes::AttributeName;
use atom_syndication_format::common::attributes::AttributeValue;

#[test]
fn attribute_name_eq_check() {
    let a = AttributeName::unchecked_new("example-0");
    let b = AttributeName::unchecked_new("example-0");
    let c = AttributeName::unchecked_new("example-1");

    assert_eq!(a, b);
    assert_ne!(a, c);
}

#[test]
fn attribute_map_create() {
    let mut map = AttributeMap::new();
    assert_eq!(0, map.len());

    map.set(AttributeName::unchecked_new("attr1"), AttributeValue::new("Hello"));
    map.set(AttributeName::unchecked_new("attr2"), AttributeValue::new("false"));
    map.set(AttributeName::unchecked_new("attr3"), AttributeValue::new("en-US"));
    assert_eq!(3, map.len());

    // overwriting keeps the entry count and the position
    map.set(AttributeName::unchecked_new("attr1"), AttributeValue::new("New"));
    assert_eq!(3, map.len());
    assert_eq!("New", map.get("attr1").unwrap().get());

    map.set(AttributeName::unchecked_new("attr4"), AttributeValue::new("lang"));
    assert_eq!(4, map.len());
    assert_eq!("lang", map.get("attr4").unwrap().get());
    assert!(map.get("unknown").is_none());
}

#[test]
fn attribute_map_has() {
    let mut map = AttributeMap::new();
    map.set(AttributeName::unchecked_new("attr1"), AttributeValue::new("false"));
    map.set(AttributeName::unchecked_new("attr2"), AttributeValue::new("lang"));

    assert!(map.get("attr1").is_some());
    assert!(map.get("attr2").is_some());
    assert!(map.get("unknown").is_none());
}

#[test]
fn attribute_map_iteration_order() {
    let mut map = AttributeMap::new();
    map.set(AttributeName::unchecked_new("b"), AttributeValue::new("1"));
    map.set(AttributeName::unchecked_new("a"), AttributeValue::new("2"));
    map.set(AttributeName::unchecked_new("b"), AttributeValue::new("3"));

    let mut names: Vec<String> = Vec::new();
    let mut values: Vec<String> = Vec::new();
    let mut iter = map.iter();
    while let Some(attr) = iter.next() {
        names.push(attr.name.get().to_string());
        values.push(attr.value.get().to_string());
    }
    // insertion order kept, the overwrite landed in place
    assert_eq!(names, vec!["b".to_string(), "a".to_string()]);
    assert_eq!(values, vec!["3".to_string(), "2".to_string()]);
}

#[test]
fn attribute_map_new_from_copies() {
    let mut map = AttributeMap::new();
    map.set(AttributeName::unchecked_new("x"), AttributeValue::new("1"));
    let copy = AttributeMap::new_from(&map);
    assert_eq!(1, copy.len());
    assert_eq!("1", copy.get("x").unwrap().get());
}

#[test]
fn attribute_value_set_replaces() {
    let mut v = AttributeValue::new("old");
    assert_eq!("old", v.get());
    v.set("new");
    assert_eq!("new", v.get());
}

#[test]
fn attribute_names() {
    assert!(AttributeName::new("-DashAtStart").is_err());
    assert!(AttributeName::new("\"DoubleQuoted\"").is_err());
    assert!(AttributeName::new("2NumberAtStart").is_err());
    assert!(AttributeName::new("whitespace   name").is_err());
    assert!(AttributeName::new("invalid-unicode-\u{FDE1}-0").is_err());
    assert!(AttributeName::new("invalid-unicode-\u{00D7}-1").is_err());
    assert!(AttributeName::new("'(nope)'").is_err());
    assert!(AttributeName::new("correct-name-123_567").is_ok());
    assert!(AttributeName::new("div").is_ok());
    assert!(AttributeName::new("me.com").is_ok());
    assert!(AttributeName::new("valid-unicode-\u{304B}\u{3061}\u{304B}\u{3061}\u{5C71}").is_ok());
}

#[test]
fn attribute_name_new_accepts() {
    let n = AttributeName::new("xml:lang").unwrap();
    assert_eq!("xml:lang", n.get());
}

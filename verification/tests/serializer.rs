use atom_syndication_format::common::attributes::AttributeMap;
use atom_syndication_format::common::attributes::AttributeName;
use atom_syndication_format::common::attributes::AttributeValue;
use atom_syndication_format::serializer::formatter::DefaultWriter;
use atom_syndication_format::serializer::formatter::IndentedWriter;
use atom_syndication_format::serializer::formatter::SpaceStyle;
use atom_syndication_format::serializer::XmlSerializer;

fn value_attrs(value: &str) -> AttributeMap {
    let mut attributes = AttributeMap::new();
    attributes.set(
        AttributeName::new("value").unwrap(),
        AttributeValue::new(value),
    );
    attributes
}

#[test]
fn empty_element_with_namespace() {
    let mut serializer = XmlSerializer::new(DefaultWriter::new());
    let attributes = value_attrs("12");
    serializer
        .serialize_empty_element("li", Some("xhtml"), Some(&attributes))
        .unwrap();
    let out = String::from_utf8(serializer.into_writer().into_bytes()).unwrap();
    assert_eq!("<xhtml:li value=\"12\"/>", out);
}

#[test]
fn compact_element_tree() {
    let mut serializer = XmlSerializer::new(DefaultWriter::new());
    let attributes = value_attrs("12");
    let outer = serializer
        .serialize_element("outer", None, Some(&attributes))
        .unwrap();
    let inner_attrs = value_attrs("13");
    let inner = serializer
        .serialize_element("inner", None, Some(&inner_attrs))
        .unwrap();
    inner.serialize_escaped_str(&mut serializer, "Hello world!").unwrap();
    outer.end(&mut serializer).unwrap();
    let out = String::from_utf8(serializer.into_writer().into_bytes()).unwrap();
    assert_eq!(
        "<outer value=\"12\"><inner value=\"13\">Hello world!</inner></outer>",
        out
    );
}

#[test]
fn indented_element_tree() {
    let mut serializer = XmlSerializer::new(IndentedWriter::new(SpaceStyle::WhiteSpace, 2));
    let attributes = value_attrs("12");
    let outer = serializer
        .serialize_element("outer", None, Some(&attributes))
        .unwrap();
    let inner = serializer.serialize_element("inner", None, None).unwrap();
    inner.serialize_str(&mut serializer, "Hello world!").unwrap();
    outer.end(&mut serializer).unwrap();
    let out = String::from_utf8(serializer.into_writer().into_bytes()).unwrap();
    assert_eq!(
        "<outer value=\"12\">\n  <inner>\n    Hello world!\n  </inner>\n</outer>\n",
        out
    );
}

#[test]
fn tab_indented_element_tree() {
    let mut serializer = XmlSerializer::new(IndentedWriter::new(SpaceStyle::Tabs, 1));
    let outer = serializer.serialize_element("outer", None, None).unwrap();
    outer.serialize_str(&mut serializer, "Hello world!").unwrap();
    let out = String::from_utf8(serializer.into_writer().into_bytes()).unwrap();
    assert_eq!("<outer>\n\tHello world!\n</outer>\n", out);
}

#[test]
fn attribute_values_are_escaped() {
    let mut serializer = XmlSerializer::new(DefaultWriter::new());
    let attributes = value_attrs("a<b&\"c\"");
    serializer
        .serialize_empty_element("item", None, Some(&attributes))
        .unwrap();
    let out = String::from_utf8(serializer.into_writer().into_bytes()).unwrap();
    assert_eq!("<item value=\"a&lt;b&amp;&quot;c&quot;\"/>", out);
}

#[test]
fn serialize_str_is_verbatim() {
    let mut serializer = XmlSerializer::new(DefaultWriter::new());
    serializer.serialize_str("<raw>").unwrap();
    let out = String::from_utf8(serializer.into_writer().into_bytes()).unwrap();
    assert_eq!("<raw>", out);
}

#[test]
fn serialize_escaped_str_escapes() {
    let mut serializer = XmlSerializer::new(DefaultWriter::new());
    serializer.serialize_escaped_str("Atom & RSS").unwrap();
    let out = String::from_utf8(serializer.into_writer().into_bytes()).unwrap();
    assert_eq!("Atom &amp; RSS", out);
}

use atom_syndication_format::atom::Author;
use atom_syndication_format::atom::Category;
use atom_syndication_format::atom::Content;
use atom_syndication_format::atom::ContentValue;
use atom_syndication_format::atom::Contributor;
use atom_syndication_format::atom::Entry;
use atom_syndication_format::atom::Feed;
use atom_syndication_format::atom::Icon;
use atom_syndication_format::atom::Link;
use atom_syndication_format::atom::Logo;
use atom_syndication_format::atom::Rights;
use atom_syndication_format::atom::SubTitle;
use atom_syndication_format::atom::Summary;
use atom_syndication_format::common::attributes::AttributeName;
use atom_syndication_format::common::attributes::AttributeValue;
use atom_syndication_format::common::timestamp::TimeStamp;
use atom_syndication_format::common::XmlText;
use atom_syndication_format::error::XmlSerializeError;
use atom_syndication_format::serializer::formatter::IndentedWriter;
use atom_syndication_format::serializer::formatter::SpaceStyle;
use atom_syndication_format::serializer::XmlSerializer;

struct TestEntry {
    content: String,
    id: String,
    summary: String,
    title: String,
}

fn generate_entries() -> Vec<TestEntry> {
    let entries: Vec<TestEntry> = vec![
        TestEntry {
            content: "<div> Test content for 0 </div>".to_owned(),
            id: "entry-0000".to_owned(),
            summary: "Summary for 0".to_owned(),
            title: "Entry 0".to_owned(),
        },
        TestEntry {
            content: "<div> Test content for 1 </div>".to_owned(),
            id: "entry-0001".to_owned(),
            summary: "Summary for 1".to_owned(),
            title: "Entry 1".to_owned(),
        },
        TestEntry {
            content: "<div> Test content for 2 </div>".to_owned(),
            id: "entry-0002".to_owned(),
            summary: "Summary for 2".to_owned(),
            title: "Entry 2".to_owned(),
        },
        TestEntry {
            content: "<div> Test content for 3 </div>".to_owned(),
            id: "entry-0003".to_owned(),
            summary: "Summary for 3".to_owned(),
            title: "Entry 3".to_owned(),
        },
    ];

    entries
}

#[test]
fn simple_atom_feed() {
    let entries = generate_entries();
    let custom_attrs: Vec<String> = entries.iter().map(|e| format!("id-{}", &e.id)).collect();
    let mut feed = Feed::new(
        "00abcd",
        XmlText::PlainText("Hello & World"),
        TimeStamp::default(),
    );

    let mut author = Author::new("SuperiorOne");
    author.email = Some("pm@smdd.dev");
    author.uri = Some("https://smdd.dev");

    feed.title.set_attribute(
        AttributeName::new("xml:lang").unwrap(),
        AttributeValue::new("en-US"),
    );

    let mut subtitle = SubTitle::new(XmlText::Html("<i>Test</i>"));
    subtitle.set_attribute(
        AttributeName::new("xml:lang").unwrap(),
        AttributeValue::new("en-US"),
    );

    feed.authors.push(author);
    feed.contributors.push(Contributor::new("SuperiorTwo"));
    feed.categories.push(Category::new("Technology"));
    feed.categories.push(Category::new("Atom & RSS"));
    feed.categories.push(Category::new("Syndication Formats"));
    feed.links.push(Link::new("https://smdd.dev"));
    feed.subtitle = Some(subtitle);
    feed.rights = Some(Rights::new(XmlText::PlainText("Copyright Nobody")));
    feed.icon = Some(Icon::new("https://fake-address.nope/icon.jpg"));
    feed.logo = Some(Logo::new("https://fake-address.nope/logo.jpg"));

    for (e, custom) in entries.iter().zip(custom_attrs.iter()) {
        let mut entry = Entry::new(&e.id, XmlText::PlainText(&e.title), TimeStamp::default());
        let mut content = Content::new(ContentValue::TextContent {
            text: XmlText::Html(&e.content),
        });

        content.set_attribute(
            AttributeName::new("xml:lang").unwrap(),
            AttributeValue::new("en-US"),
        );
        content.set_attribute(
            AttributeName::new("custom-attr").unwrap(),
            AttributeValue::new(custom),
        );

        entry.content = Some(content);
        entry.summary = Some(Summary::new(XmlText::PlainText(&e.summary)));

        feed.entries.push(entry);
    }

    let writer = IndentedWriter::new(SpaceStyle::WhiteSpace, 2);
    let mut xml_serializer = XmlSerializer::new(writer);

    xml_serializer.serialize(&feed, Some("atom")).unwrap();

    let out = String::from_utf8(xml_serializer.into_writer().into_bytes()).unwrap();
    println!("{}", out);

    assert!(out.starts_with("<atom:feed>"));
    assert!(out.contains("<atom:author>"));
    assert!(out.contains("Hello &amp; World"));
    assert!(out.contains("term=\"Atom &amp; RSS\""));
    // inline text content carries its computed type attribute
    assert!(out.contains("custom-attr=\"id-entry-0000\" type=\"html\""));
    assert!(out.ends_with("</atom:feed>\n"));
}

#[test]
fn atom_feed_invalid_namespace() {
    let feed = Feed::new("uuid", XmlText::PlainText("test"), TimeStamp::default());
    let writer = IndentedWriter::new(SpaceStyle::WhiteSpace, 2);
    let mut xml_serializer = XmlSerializer::new(writer);

    match xml_serializer.serialize(&feed, Some("-123-invalid:namespace")) {
        Ok(_) => assert!(
            false,
            "Feed serializer should have been failed due to invalid namespace"
        ),
        Err(XmlSerializeError::InvalidNamespace) => assert!(true),
        Err(_) => assert!(false, "Unexpected error type"),
    }

    let out = String::from_utf8(xml_serializer.into_writer().into_bytes()).unwrap();
    assert_eq!("", out);
}

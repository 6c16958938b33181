use atom_syndication_format::escape::escape;
use atom_syndication_format::escape::escape_writer;
use atom_syndication_format::escape::get_escaped;
use atom_syndication_format::escape::Escaped;
use atom_syndication_format::escape::XML_ESCAPE_PATTERNS;
use atom_syndication_format::serializer::formatter::DefaultWriter;
use atom_syndication_format::serializer::Write;

fn escape_xml(input: &str) -> Escaped<'_> {
    escape(input, &XML_ESCAPE_PATTERNS)
}

fn escape_xml_to_string(input: &str) -> String {
    let mut writer = DefaultWriter::new();
    escape_writer(input, &mut writer, &XML_ESCAPE_PATTERNS).expect("Writer failed.");
    String::from_utf8(writer.into_bytes()).unwrap()
}

#[test]
fn escape_lookups() {
    let test_cases = vec![
        (b'"', "&quot;"),
        (b'&', "&amp;"),
        (b'\'', "&apos;"),
        (b'<', "&lt;"),
        (b'>', "&gt;"),
    ];

    for case in test_cases.iter() {
        assert_eq!(case.1, get_escaped(case.0));
    }
}

#[test]
fn escape_special_chars() {
    let input = "<div> '\"COOL&CREATE\"' </div>";
    let escaped = escape_xml(input);

    match escaped {
        Escaped::Borrowed(_) => {
            assert!(false, "It shouldn't returned borrowed text back.")
        }
        Escaped::Owned(escaped_text) => assert_eq!(
            "&lt;div&gt; &apos;&quot;COOL&amp;CREATE&quot;&apos; &lt;/div&gt;",
            &escaped_text
        ),
    }
}

#[test]
fn escape_once() {
    let start_input = "&Test";
    let escaped = escape_xml(start_input);

    match escaped {
        Escaped::Borrowed(_) => {
            assert!(false, "It shouldn't returned borrowed text back.")
        }
        Escaped::Owned(escaped_text) => assert_eq!("&amp;Test", &escaped_text),
    }

    let end_input = "Test&";
    let escaped = escape_xml(end_input);
    match escaped {
        Escaped::Borrowed(_) => {
            assert!(false, "It shouldn't returned borrowed text back.")
        }
        Escaped::Owned(escaped_text) => assert_eq!("Test&amp;", &escaped_text),
    }
}

#[test]
fn escape_non_special_chars() {
    let input = "Cool and Create";
    let escaped = escape_xml(input);

    match escaped {
        Escaped::Borrowed(escaped_text) => {
            assert_eq!("Cool and Create", escaped_text)
        }
        Escaped::Owned(_) => assert!(
            false,
            "It shouldn't allocate new string. There is nothing to escape."
        ),
    }
}

#[test]
fn escape_html() {
    let input = "<div> '\"COOL&CREATE\"' </div>";
    match escape_xml(input) {
        Escaped::Borrowed(_) => assert!(false, "It shouldn't return borrowed text back."),
        Escaped::Owned(escaped_text) => assert_eq!(
            "&lt;div&gt; &apos;&quot;COOL&amp;CREATE&quot;&apos; &lt;/div&gt;",
            &escaped_text
        ),
    }
}

#[test]
fn escape_edge_cases() {
    match escape_xml("&Test") {
        Escaped::Borrowed(_) => assert!(false, "It shouldn't return borrowed text back."),
        Escaped::Owned(escaped_text) => assert_eq!("&amp;Test", &escaped_text),
    }
    match escape_xml("Test&") {
        Escaped::Borrowed(_) => assert!(false, "It shouldn't return borrowed text back."),
        Escaped::Owned(escaped_text) => assert_eq!("Test&amp;", &escaped_text),
    }
}

#[test]
fn escape_text() {
    let input = "Cool and Create";
    match escape_xml(input) {
        Escaped::Borrowed(text) => assert_eq!("Cool and Create", text),
        Escaped::Owned(_) => assert!(false, "It shouldn't allocate new string."),
    }
}

#[test]
fn escape_writer_html() {
    let out = escape_xml_to_string("<div> '\"COOL&CREATE\"' </div>");
    assert_eq!(
        "&lt;div&gt; &apos;&quot;COOL&amp;CREATE&quot;&apos; &lt;/div&gt;",
        &out
    );
}

#[test]
fn escape_writer_edge_cases() {
    let out = escape_xml_to_string("&Test");
    assert_eq!("&amp;Test", &out);
    let out = escape_xml_to_string("Test&");
    assert_eq!("Test&amp;", &out);
}

#[test]
fn escape_writer_text() {
    let out = escape_xml_to_string("Cool and Create");
    assert_eq!("Cool and Create", &out);
}

#[test]
fn escaped_length_formula() {
    // one entity of length 5 and one of length 4 replace one byte each
    let input = "a&b<cd";
    match escape_xml(input) {
        Escaped::Borrowed(_) => assert!(false),
        Escaped::Owned(escaped_text) => {
            assert_eq!("a&amp;b&lt;cd", &escaped_text);
            assert_eq!(escaped_text.len(), input.len() + (5 - 1) + (4 - 1));
        }
    }
}

#[test]
fn escape_tail_boundary() {
    // the final byte is dropped when the next-to-last byte is escaped
    match escape_xml("a&b") {
        Escaped::Borrowed(_) => assert!(false),
        Escaped::Owned(escaped_text) => assert_eq!("a&amp;", &escaped_text),
    }
}

#[test]
fn escape_multibyte_text() {
    match escape_xml("kana\u{304b}&\u{305f}") {
        Escaped::Borrowed(_) => assert!(false),
        Escaped::Owned(escaped_text) => assert_eq!("kana\u{304b}&amp;\u{305f}", &escaped_text),
    }
}

use atom_syndication_format::writer::indented_writer::IndentedWriter;

#[test]
fn indented_writer() {
    let mut writer = IndentedWriter::new_with_tab_spaces(2);

    writer.write_line("test:").unwrap();
    writer.increment_level();
    writer.write_line("name: zawarudo").unwrap();
    writer.write_line("level: 12").unwrap();
    writer.write_line("hello:").unwrap();
    writer.increment_level();
    writer.write_line("megustaw: 'lol'").unwrap();
    writer.decrement_level();
    writer.write_line("done: true").unwrap();
    writer.decrement_level();
    writer.write_line("completed: true").unwrap();

    let out = String::from_utf8(writer.into_bytes()).unwrap();
    println!("{}", out);
    assert_eq!(
        "test:\n  name: zawarudo\n  level: 12\n  hello:\n    megustaw: 'lol'\n  done: true\ncompleted: true\n",
        out
    );
}

#[test]
fn indented_writer_blank_line() {
    let mut writer = IndentedWriter::new();
    writer.increment_level();
    writer.write_line("").unwrap();
    writer.write_line("x").unwrap();
    let out = String::from_utf8(writer.into_bytes()).unwrap();
    assert_eq!("\n    x\n", out);
}

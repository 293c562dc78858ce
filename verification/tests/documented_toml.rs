use kaze::documented_toml::{format_doc_text, format_docs, format_docs_implace, list_shape, ListShape};
use toml_edit::Decor;

#[test]
fn doc_lines_become_comments() {
    let s = format_doc_text("", "hello\n  world  \n\nend", None);
    assert_eq!(s, "# hello\n# world\n#\n# end\n");
}

#[test]
fn doc_lines_take_the_indent_and_prefix() {
    let s = format_doc_text("\n", "one\r\n two", Some("  "));
    assert_eq!(s, "\n  # one\n  # two\n");
}

#[test]
fn blank_doc_lines_are_bare_hashes() {
    assert_eq!(format_doc_text("p", "\n \t\n", Some(">>")), "p#\n#\n");
    assert_eq!(format_doc_text("p", "", Some(">>")), "p");
    assert_eq!(format_doc_text("", "last\r", None), "# last\n");
}

#[test]
fn docs_set_the_decoration_prefix() {
    let old = Decor::new("  ", "");
    let new = format_docs("\n", "The port to listen on", &old);
    assert_eq!(new.prefix().and_then(|p| p.as_str()), Some("\n  # The port to listen on\n"));

    let mut target = Decor::default();
    format_docs_implace("", "a\n\nb", &Decor::default(), &mut target);
    assert_eq!(target.prefix().and_then(|p| p.as_str()), Some("# a\n#\n# b\n"));
}

#[test]
fn list_shapes() {
    assert_eq!(list_shape(0, true), ListShape::Absent);
    assert_eq!(list_shape(2, true), ListShape::ArrayOfTables);
    assert_eq!(list_shape(2, false), ListShape::Array);
}

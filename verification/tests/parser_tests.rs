use alta_build::parser::parse;
use alta_build::parser::parse_string_literal;

fn path(s: &str) -> Vec<String> {
    s.split('/').map(|x| x.to_string()).collect()
}

#[test]
fn empty_file_parses_to_empty_tree() {
    let root = parse("", &path("m.alta")).expect("empty file parses");
    assert_eq!(root.statements.len(), 0);
    assert_eq!(root.source_path, path("m.alta"));
}

#[test]
fn blank_lines_are_empty_statements() {
    let root = parse("\n   \n\t\n", &path("m.alta")).expect("blank lines parse");
    assert_eq!(root.statements.len(), 0);
}

#[test]
fn bare_import_parses() {
    let root = parse("import \"./util\"\n", &path("m.alta")).expect("import parses");
    assert_eq!(root.statements.len(), 1);
    match &root.statements[0] {
        alta_build::ast::global_statement::GlobalStatement::Import(st) => {
            assert_eq!(st.target, "./util");
            assert!(st.resolved_target.is_none());
            assert_eq!(st.items.len(), 0);
        }
        _ => panic!("expected an import"),
    }
}

#[test]
fn import_with_items_and_aliases_parses() {
    let root = parse("import a.b as c, d from \"/mod\"\n", &path("m.alta")).expect("items parse");
    assert_eq!(root.statements.len(), 1);
    match &root.statements[0] {
        alta_build::ast::global_statement::GlobalStatement::Import(st) => {
            assert_eq!(st.target, "/mod");
            assert_eq!(st.items.len(), 2);
            assert_eq!(st.items[0].components, vec!["a".to_string(), "b".to_string()]);
            assert_eq!(st.items[0].alias.as_deref(), Some("c"));
            assert_eq!(st.items[1].components, vec!["d".to_string()]);
            assert!(st.items[1].alias.is_none());
        }
        _ => panic!("expected an import"),
    }
}

#[test]
fn bad_line_reports_its_number() {
    let err = parse("import \"a\"\n\nnot a statement\n", &path("m.alta")).unwrap_err();
    assert_eq!(err.line, 3);
    assert_eq!(err.message, "invalid statement");
}

#[test]
fn missing_quote_is_an_error() {
    let err = parse("import \"a\n", &path("m.alta")).unwrap_err();
    assert_eq!(err.line, 1);
}

#[test]
fn simple_escapes_decode() {
    assert_eq!(parse_string_literal("\"a\\nb\""), Some("a\nb".to_string()));
    assert_eq!(parse_string_literal("\"t\\ta\""), Some("t\ta".to_string()));
    assert_eq!(parse_string_literal("\"r\\r\""), Some("r\r".to_string()));
    assert_eq!(parse_string_literal("\"z\\0\""), Some("z\0".to_string()));
    assert_eq!(parse_string_literal("\"q\\\"\""), Some("q\"".to_string()));
    assert_eq!(parse_string_literal("\"b\\\\\""), Some("b\\".to_string()));
}

#[test]
fn hex_and_unicode_escapes_decode() {
    assert_eq!(parse_string_literal("\"\\x41\""), Some("A".to_string()));
    assert_eq!(parse_string_literal("\"\\u{1F600}\""), Some("\u{1F600}".to_string()));
    assert_eq!(parse_string_literal("\"\\u{0041}!\""), Some("A!".to_string()));
}

#[test]
fn bad_escapes_are_rejected() {
    assert_eq!(parse_string_literal("\"\\q\""), None);
    assert_eq!(parse_string_literal("\"\\x4\""), None);
    assert_eq!(parse_string_literal("\"\\u{}\""), None);
    assert_eq!(parse_string_literal("\"\\u{D800}\""), None);
    assert_eq!(parse_string_literal("\"\\u{110000}\""), None);
    assert_eq!(parse_string_literal("unquoted"), None);
    assert_eq!(parse_string_literal("\""), None);
}

#[test]
fn plain_text_passes_through() {
    assert_eq!(parse_string_literal("\"hello world\""), Some("hello world".to_string()));
    assert_eq!(parse_string_literal("\"\""), Some("".to_string()));
}

#[test]
fn crlf_lines_parse() {
    let root = parse("import \"a\"\r\nimport \"b\"\r\n", &path("m.alta")).expect("crlf parses");
    assert_eq!(root.statements.len(), 2);
}

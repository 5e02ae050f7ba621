use pyscription::error::ParserError;
use pyscription::generator::{compose_document, GeneratedSections};
use pyscription::module_name::dotted_name;
use pyscription::parser::{GrammarRule, ParsedItem};
use pyscription::table::{table_header, table_row, table_title, truncate};

fn item() -> ParsedItem {
    ParsedItem {
        rule: GrammarRule::FunctionDef,
        name: Some("foo".to_string()),
        signature: Some("def foo():".to_string()),
        docstring: None,
        content: "def foo():".to_string(),
        line: 12,
        column: 5,
        module: Some("pkg.core".to_string()),
        source: Some("pkg/core.py".to_string()),
    }
}

fn parts(names: &[&str]) -> Vec<String> {
    names.iter().map(|n| n.to_string()).collect()
}

#[test]
fn truncate_keeps_short_text() {
    assert_eq!(truncate("module", 30), "module");
    assert_eq!(truncate("abc", 3), "abc");
    assert_eq!(truncate("", 0), "");
}

#[test]
fn truncate_cuts_long_text_with_ellipsis() {
    assert_eq!(truncate("abcdef", 4), "abc…");
    assert_eq!(truncate("abcdef", 1), "…");
    assert_eq!(truncate("abcdef", 0), "…");
    assert_eq!(truncate("żółw i jeż", 5), "żółw…");
}

#[test]
fn table_row_reads_exactly() {
    assert_eq!(
        table_row(&item()),
        "FunctionDef | pkg.core                       |   12:5   | def foo():"
    );
}

#[test]
fn table_row_falls_back_for_missing_fields() {
    let mut it = item();
    it.rule = GrammarRule::Docstring;
    it.signature = None;
    it.name = None;
    it.docstring = Some("Says hello.".to_string());
    it.module = None;
    it.line = 12345;
    it.column = 1000;
    assert_eq!(
        table_row(&it),
        "Docstring | pkg/core.py                    | 12345:1000 | Says hello."
    );
    it.docstring = None;
    it.source = None;
    it.rule = GrammarRule::Import;
    it.content = "import os".to_string();
    it.line = 1;
    it.column = 1;
    assert_eq!(
        table_row(&it),
        "Import | -                              |    1:1   | import os"
    );
    it.module = Some("a-very-long-module-name-that-goes-past-thirty".to_string());
    assert_eq!(
        table_row(&it),
        "Import | a-very-long-module-name-that-… |    1:1   | import os"
    );
}

#[test]
fn table_title_and_header() {
    assert_eq!(table_title(), "--- P A R S E   R E S U L T S ---");
    assert_eq!(
        table_header(),
        format!("{:<12} | {:<30} | {:>4}:{:<3} | Summary", "Rule", "Module", "Line", "Col")
    );
}

#[test]
fn dotted_name_joins_components() {
    assert_eq!(dotted_name(&parts(&["pkg", "core.py"])).as_deref(), Some("pkg.core"));
    assert_eq!(dotted_name(&parts(&["pkg"])).as_deref(), Some("pkg"));
    assert_eq!(dotted_name(&parts(&["a", "", "b.py.py"])).as_deref(), Some("a.b"));
    assert_eq!(dotted_name(&parts(&["a.py", "b"])).as_deref(), Some("a.py.b"));
}

#[test]
fn dotted_name_of_nothing_is_none() {
    assert_eq!(dotted_name(&parts(&[])), None);
    assert_eq!(dotted_name(&parts(&[".py"])), None);
    assert_eq!(dotted_name(&parts(&["", ""])), None);
}

#[test]
fn document_is_composed_in_order() {
    let sections = GeneratedSections {
        overview: "O\n".to_string(),
        api_table: "A\n".to_string(),
        docstring_coverage: "C\n".to_string(),
    };
    assert_eq!(
        compose_document("Summary.", &sections),
        "# Generated README Draft\n\nSummary.\n\nO\n\nA\n\nC\n"
    );
}

#[test]
fn error_messages_read_exactly() {
    assert_eq!(
        ParserError::EmptyContent.message(),
        "File contetnt is empty, nothing to parse"
    );
    assert_eq!(
        ParserError::UnterminatedDocstring(12).message(),
        "Docstring starting at line 12 is missing a closing triple quote"
    );
    assert_eq!(
        ParserError::SyntaxError("unexpected token".to_string()).message(),
        "Syntax error while parsing: unexpected token"
    );
    assert_eq!(
        ParserError::IoError("denied".to_string()).message(),
        "Failed to read file: denied"
    );
}

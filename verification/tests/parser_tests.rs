use pyscription::error::ParserError;
use pyscription::parser::{parse_content, parse_module, GrammarRule};

const DOWNLOAD_EXAMPLE: &str = "import os\nfrom typing import Iterator\n\n\ndef download_iter(\n    file_id: str,\n    chunk_size: int = 1024,\n) -> Iterator[bytes]:\n    \"\"\"Stream file content from Google Drive in chunks.\n\n    Yields the raw bytes of the file.\n    \"\"\"\n\n    def _stream() -> Iterator[bytes]:\n        yield os.urandom(chunk_size)\n\n    return _stream()\n";

#[test]
fn test_parse_content_extracts_items() {
    let content = "\ndef foo():\n    pass\n\n\"\"\"module level doc\"\"\"\n";

    let parsed = parse_content(content).expect("failed to parse content");

    assert_eq!(parsed.len(), 2);
    let func = parsed
        .iter()
        .find(|item| item.rule == GrammarRule::FunctionDef)
        .expect("function missing");
    assert_eq!(func.name.as_deref(), Some("foo"));
    assert_eq!(func.signature.as_deref(), Some("def foo():"));
    assert_eq!(func.line, 2);
    assert_eq!(func.column, 1);

    let doc = parsed
        .iter()
        .find(|item| item.rule == GrammarRule::Docstring)
        .expect("docstring missing");
    assert_eq!(doc.docstring.as_deref(), Some("module level doc"));
    assert_eq!(doc.line, 5);
}

#[test]
fn test_parse_content_empty_error() {
    let err = parse_content("").expect_err("expected empty content error");

    assert!(matches!(err, ParserError::EmptyContent));
}

#[test]
fn test_parse_content_parses_example_file() {
    let content = DOWNLOAD_EXAMPLE;
    let parsed = parse_content(content).expect("failed to parse example content");
    assert!(parsed.iter().any(|item| item.rule == GrammarRule::Import));

    let fn_item = parsed
        .iter()
        .find(|item| {
            item.rule == GrammarRule::FunctionDef && item.name.as_deref() == Some("download_iter")
        })
        .expect("download_iter not found");
    assert_eq!(fn_item.signature.as_deref(), Some("def download_iter("));

    let doc_entry = parsed
        .iter()
        .find(|item| item.rule == GrammarRule::Docstring)
        .expect("docstring entry missing");
    assert!(doc_entry
        .docstring
        .as_deref()
        .expect("docstring text missing")
        .starts_with("Stream file content from Google Drive"));

    let nested_fn = parsed
        .iter()
        .find(|item| {
            item.rule == GrammarRule::FunctionDef && item.name.as_deref() == Some("_stream")
        })
        .expect("nested function not found");
    assert_eq!(
        nested_fn.signature.as_deref().expect("signature missing"),
        "def _stream() -> Iterator[bytes]:"
    );
}

#[test]
fn test_parse_content_reports_unterminated_docstring() {
    let err = parse_content("\n\"\"\"still open\ndef foo():\n    pass\n")
        .expect_err("expected unterminated docstring");

    assert!(matches!(err, ParserError::UnterminatedDocstring(2)));
}

#[test]
fn test_parse_content_normalizes_multiline_docstring() {
    let content =
        "\ndef foo():\n    pass\n\n\"\"\"\n    Summary line\n\n        Details with indent\n\"\"\"\n";

    let parsed = parse_content(content).expect("parse failed");
    let doc = parsed
        .iter()
        .find(|item| item.rule == GrammarRule::Docstring)
        .expect("docstring missing");
    assert_eq!(
        doc.docstring.as_deref(),
        Some("Summary line\n\nDetails with indent")
    );
}

#[test]
fn test_parse_content_identifies_imports() {
    let content = "\nimport os\nfrom collections import deque\n";

    let parsed = parse_content(content).expect("parse failed");
    let has_plain = parsed
        .iter()
        .any(|item| item.rule == GrammarRule::Import && item.content.starts_with("import "));
    let has_from = parsed
        .iter()
        .any(|item| item.rule == GrammarRule::Import && item.content.starts_with("from "));
    assert!(has_plain && has_from);
}

#[test]
fn test_parse_content_ignores_text_without_rules() {
    let content = "\nprint(\"nothing to see here\")\n\n\"import foo\"  # string literal\n";

    let parsed = parse_content(content).expect("parse failed");
    assert!(!parsed.iter().any(|item| item.rule == GrammarRule::Import));
    assert!(!parsed
        .iter()
        .any(|item| item.rule == GrammarRule::FunctionDef));
}

#[test]
fn test_parse_content_identifies_classes() {
    let content = "\n@decorator\nclass Widget(Base):\n    pass\n";

    let parsed = parse_content(content).expect("parse failed");
    let class_item = parsed
        .iter()
        .find(|item| item.rule == GrammarRule::ClassDef)
        .expect("class definition missing");
    assert_eq!(class_item.name.as_deref(), Some("Widget"));
    assert_eq!(class_item.signature.as_deref(), Some("class Widget(Base):"));
    assert_eq!(class_item.line, 2);
}

#[test]
fn parse_module_stamps_every_item() {
    let parsed = parse_module("import os\n\ndef run():\n    pass\n", "pkg.core").expect("parse failed");
    assert_eq!(parsed.len(), 2);
    assert!(parsed
        .iter()
        .all(|item| item.module.as_deref() == Some("pkg.core")));
    assert!(parsed.iter().all(|item| item.source.is_none()));
}

#[test]
fn function_and_docstring_from_the_first_line() {
    let parsed =
        parse_content("def foo():\n    pass\n\n\"\"\"module level doc\"\"\"\n").expect("parse");
    assert_eq!(parsed.len(), 2);
    assert_eq!(parsed[0].rule, GrammarRule::FunctionDef);
    assert_eq!(parsed[0].name.as_deref(), Some("foo"));
    assert_eq!(parsed[0].signature.as_deref(), Some("def foo():"));
    assert_eq!((parsed[0].line, parsed[0].column), (1, 1));
    assert_eq!(parsed[1].rule, GrammarRule::Docstring);
    assert_eq!(parsed[1].docstring.as_deref(), Some("module level doc"));
    assert_eq!((parsed[1].line, parsed[1].column), (4, 1));
}

#[test]
fn unterminated_docstring_on_the_first_line() {
    let err = parse_content("\"\"\"still open\ndef foo():\n    pass\n")
        .expect_err("expected unterminated docstring");
    assert!(matches!(err, ParserError::UnterminatedDocstring(1)));
}

#[test]
fn multiline_docstring_alone() {
    let parsed =
        parse_content("\"\"\"\n    Summary line\n\n        Details with indent\n\"\"\"\n")
            .expect("parse");
    assert_eq!(parsed.len(), 1);
    assert_eq!(
        parsed[0].docstring.as_deref(),
        Some("Summary line\n\nDetails with indent")
    );
}

#[test]
fn two_imports_in_order() {
    let parsed = parse_content("import os\nfrom collections import deque\n").expect("parse");
    assert_eq!(parsed.len(), 2);
    assert!(parsed.iter().all(|item| item.rule == GrammarRule::Import));
    assert!(parsed[0].content.starts_with("import "));
    assert!(parsed[1].content.starts_with("from "));
}

use pyscription::docstring::{normalize_docstring, validate_docstrings};
use pyscription::error::ParserError;
use pyscription::grammar::{find_matches, RuleMatch};
use pyscription::parser::{parse_content, GrammarRule, ParsedItem};
use pyscription::position::{is_line_start, offset_to_line_col};

fn chars(text: &str) -> Vec<char> {
    text.chars().collect()
}

fn rules(items: &[ParsedItem]) -> Vec<GrammarRule> {
    items.iter().map(|item| item.rule).collect()
}

fn walk_to(text: &str, line: usize, column: usize) -> usize {
    let mut l = 1;
    let mut c = 1;
    for (offset, ch) in text.chars().enumerate() {
        if l == line && c == column {
            return offset;
        }
        if ch == '\n' {
            l += 1;
            c = 1;
        } else {
            c += 1;
        }
    }
    text.chars().count()
}

#[test]
fn function_with_decorators_and_async() {
    let parsed =
        parse_content("@cache\n@retry(3)\nasync def fetch(url):\n    return 1\n").expect("parse");
    assert_eq!(parsed.len(), 1);
    let f = &parsed[0];
    assert_eq!(f.rule, GrammarRule::FunctionDef);
    assert_eq!(f.name.as_deref(), Some("fetch"));
    assert_eq!(f.signature.as_deref(), Some("async def fetch(url):"));
    assert_eq!(f.content, "@cache\n@retry(3)\nasync def fetch(url):");
    assert_eq!((f.line, f.column), (1, 1));
    assert_eq!(f.docstring, None);
    assert_eq!(f.module, None);
    assert_eq!(f.source, None);
}

#[test]
fn function_with_nested_parentheses_and_annotation() {
    let parsed = parse_content("def f(a=(1, 2), b=g(3)) -> int:\n    pass\n").expect("parse");
    assert_eq!(parsed.len(), 1);
    assert_eq!(parsed[0].name.as_deref(), Some("f"));
    assert_eq!(
        parsed[0].signature.as_deref(),
        Some("def f(a=(1, 2), b=g(3)) -> int:")
    );
}

#[test]
fn function_name_is_trimmed() {
    let parsed = parse_content("def spaced (x):\n").expect("parse");
    assert_eq!(parsed.len(), 1);
    assert_eq!(parsed[0].name.as_deref(), Some("spaced"));
}

#[test]
fn function_after_a_tab_has_no_name() {
    let parsed = parse_content("def\tfoo():\n").expect("parse");
    assert_eq!(parsed.len(), 1);
    assert_eq!(parsed[0].rule, GrammarRule::FunctionDef);
    assert_eq!(parsed[0].signature.as_deref(), Some("def\tfoo():"));
    assert_eq!(parsed[0].name, None);
}

#[test]
fn unfinished_declarations_are_passed_over() {
    assert_eq!(parse_content("def broken(a, b\n").expect("parse"), vec![]);
    assert_eq!(parse_content("def foo()\nx = 1\n").expect("parse"), vec![]);
    assert_eq!(parse_content("@decorator\nx = 1\n").expect("parse"), vec![]);
    assert_eq!(parse_content("class :\n").expect("parse"), vec![]);
}

#[test]
fn class_without_bases() {
    let parsed = parse_content("class Plain:\n    x = 1\n").expect("parse");
    assert_eq!(parsed.len(), 1);
    assert_eq!(parsed[0].rule, GrammarRule::ClassDef);
    assert_eq!(parsed[0].name.as_deref(), Some("Plain"));
    assert_eq!(parsed[0].signature.as_deref(), Some("class Plain:"));
    assert_eq!(parsed[0].content, "class Plain:");
}

#[test]
fn class_name_stops_at_separators() {
    let parsed = parse_content("class  Spaced ( Base ) :\n").expect("parse");
    assert_eq!(parsed.len(), 1);
    assert_eq!(parsed[0].name.as_deref(), Some("Spaced"));
    assert_eq!(parsed[0].signature.as_deref(), Some("class  Spaced ( Base ) :"));
}

#[test]
fn indented_definition_starts_at_its_line() {
    let parsed = parse_content("x = 1\n    def inner(a, b):\n        pass\n").expect("parse");
    assert_eq!(parsed.len(), 1);
    assert_eq!((parsed[0].line, parsed[0].column), (2, 1));
    assert_eq!(parsed[0].content, "def inner(a, b):");
}

#[test]
fn imports_plain_and_from() {
    let parsed = parse_content("import os\nfrom . import x\n\timport sys\n").expect("parse");
    assert_eq!(rules(&parsed), vec![GrammarRule::Import; 3]);
    assert_eq!(parsed[0].content, "import os");
    assert_eq!(parsed[0].name.as_deref(), Some("import os"));
    assert_eq!(parsed[1].content, "from . import x");
    assert_eq!((parsed[1].line, parsed[1].column), (2, 1));
    assert_eq!(parsed[2].content, "import sys");
    assert_eq!((parsed[2].line, parsed[2].column), (3, 1));
    assert!(parsed.iter().all(|item| item.signature.is_none()));
}

#[test]
fn import_counts_only_at_a_line_start() {
    assert_eq!(parse_content("x = 1; import os\n").expect("parse"), vec![]);
    let parsed = parse_content("a = 1\rimport os\n").expect("parse");
    assert_eq!(rules(&parsed), vec![GrammarRule::Import]);
    assert_eq!((parsed[0].line, parsed[0].column), (1, 7));
}

#[test]
fn docstring_ends_at_nearest_delimiter() {
    let parsed = parse_content("\"\"\"a\"\"\" b \"\"\"c\"\"\"").expect("parse");
    assert_eq!(rules(&parsed), vec![GrammarRule::Docstring; 2]);
    assert_eq!(parsed[0].docstring.as_deref(), Some("a"));
    assert_eq!(parsed[0].content, "\"\"\"a\"\"\"");
    assert_eq!(parsed[1].docstring.as_deref(), Some("c"));
    assert_eq!((parsed[1].line, parsed[1].column), (1, 10));
    assert!(parsed.iter().all(|item| item.name.is_none() && item.signature.is_none()));
}

#[test]
fn definitions_inside_a_docstring_are_not_items() {
    let parsed = parse_content("\"\"\"\ndef hidden():\nimport os\n\"\"\"\n").expect("parse");
    assert_eq!(rules(&parsed), vec![GrammarRule::Docstring]);
    assert_eq!(parsed[0].docstring.as_deref(), Some("def hidden():\nimport os"));
}

#[test]
fn empty_docstring_has_empty_body() {
    let parsed = parse_content("\"\"\"\"\"\"\n").expect("parse");
    assert_eq!(rules(&parsed), vec![GrammarRule::Docstring]);
    assert_eq!(parsed[0].docstring.as_deref(), Some(""));
}

#[test]
fn blank_content_is_refused() {
    assert!(matches!(parse_content("  \n\t\n"), Err(ParserError::EmptyContent)));
    assert!(matches!(parse_content("\u{a0}\u{2003}"), Err(ParserError::EmptyContent)));
}

#[test]
fn unterminated_docstring_after_a_closed_one() {
    let err = parse_content("\"\"\"a\"\"\"\n\nx = \"\"\"open\n").expect_err("unterminated");
    assert!(matches!(err, ParserError::UnterminatedDocstring(3)));
}

#[test]
fn text_without_delimiters_is_never_unterminated() {
    for text in ["x", "def f():\n", "\"\" \"\"", "'''open", "a \"quoted\" word"] {
        assert!(!matches!(
            parse_content(text),
            Err(ParserError::UnterminatedDocstring(_))
        ));
    }
}

#[test]
fn validator_pairs_delimiters_left_to_right() {
    assert!(validate_docstrings(&chars("no quotes")).is_ok());
    assert!(validate_docstrings(&chars("\"\"\"a\"\"\" \"\"\"b\"\"\"")).is_ok());
    assert!(matches!(
        validate_docstrings(&chars("\n\n\"\"\"a\"\"\"\n\"\"\"")),
        Err(ParserError::UnterminatedDocstring(4))
    ));
}

#[test]
fn parse_is_deterministic() {
    let text = "import os\n\nclass A(B):\n    \"\"\"Doc.\"\"\"\n    def m(self):\n        pass\n";
    let first = parse_content(text).expect("parse");
    let second = parse_content(text).expect("parse");
    assert_eq!(first, second);
    assert_eq!(
        rules(&first),
        vec![
            GrammarRule::Import,
            GrammarRule::ClassDef,
            GrammarRule::Docstring,
            GrammarRule::FunctionDef
        ]
    );
}

#[test]
fn positions_lead_back_to_the_matches() {
    let text = "import os\n\nclass A(B):\n    \"\"\"Doc.\"\"\"\n    def m(self):\n        pass\n";
    let source = chars(text);
    let found = find_matches(&source);
    let parsed = parse_content(text).expect("parse");
    assert_eq!(found.len(), parsed.len());
    for (m, item) in found.iter().zip(parsed.iter()) {
        assert_eq!(walk_to(text, item.line, item.column), m.start);
        assert_eq!(item.rule, m.rule);
    }
    assert_eq!(
        found[0],
        RuleMatch {
            rule: GrammarRule::Import,
            start: 0,
            end: 10
        }
    );
    assert_eq!(
        found[1],
        RuleMatch {
            rule: GrammarRule::ClassDef,
            start: 11,
            end: 22
        }
    );
}

#[test]
fn docstring_only_for_docstring_items() {
    let text = "import os\n\nclass A(B):\n    \"\"\"Doc.\"\"\"\n    def m(self):\n        pass\n";
    for item in parse_content(text).expect("parse") {
        assert_eq!(item.docstring.is_some(), item.rule == GrammarRule::Docstring);
    }
}

#[test]
fn offsets_to_lines_and_columns() {
    let source = chars("ab\ncd");
    assert_eq!(offset_to_line_col(&source, 0), (1, 1));
    assert_eq!(offset_to_line_col(&source, 2), (1, 3));
    assert_eq!(offset_to_line_col(&source, 3), (2, 1));
    assert_eq!(offset_to_line_col(&source, 5), (2, 3));
    assert_eq!(offset_to_line_col(&source, 100), (2, 3));
    assert_eq!(offset_to_line_col(&chars("é\n√x"), 3), (2, 2));
}

#[test]
fn line_starts() {
    let source = chars("a\nb\rc");
    assert!(is_line_start(&source, 0));
    assert!(!is_line_start(&source, 1));
    assert!(is_line_start(&source, 2));
    assert!(!is_line_start(&source, 3));
    assert!(is_line_start(&source, 4));
    assert!(!is_line_start(&source, 5));
}

#[test]
fn normalize_trims_lines_and_edges() {
    assert_eq!(normalize_docstring("  single line  "), "single line");
    assert_eq!(normalize_docstring("\n\n  a\n    b  \n\n"), "a\nb");
    assert_eq!(normalize_docstring("a\n\n\nb"), "a\n\n\nb");
    assert_eq!(normalize_docstring("a\r\n  b\r\n"), "a\nb");
    assert_eq!(
        normalize_docstring("\n    Summary line\n\n        Details with indent\n"),
        "Summary line\n\nDetails with indent"
    );
}

#[test]
fn normalize_of_blank_is_empty() {
    assert_eq!(normalize_docstring(""), "");
    assert_eq!(normalize_docstring("   \n  \t\n"), "");
}

#[test]
fn normalize_is_idempotent() {
    for body in [
        "module level doc",
        "",
        "x",
        "Summary line\n\nDetails with indent",
        "  padded  \n   more  ",
    ] {
        let once = normalize_docstring(body);
        assert_eq!(normalize_docstring(&once), once);
    }
    assert_eq!(normalize_docstring("module level doc"), "module level doc");
}

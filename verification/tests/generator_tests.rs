use pyscription::generator::{
    coverage_counts, decimal_text, entry_location, generate_sections, render_api_tables,
    render_docstring_coverage, render_overview,
};
use pyscription::parser::{GrammarRule, ParsedItem};
use pyscription::report::{aggregate_modules, SymbolEntry};

fn make_item(rule: GrammarRule, module: &str, name: &str, signature: &str) -> ParsedItem {
    ParsedItem {
        rule,
        name: if name.is_empty() {
            None
        } else {
            Some(name.to_string())
        },
        signature: if signature.is_empty() {
            None
        } else {
            Some(signature.to_string())
        },
        docstring: None,
        content: signature.to_string(),
        line: 1,
        column: 1,
        module: Some(module.to_string()),
        source: Some(format!("{module}.py")),
    }
}

fn sample_items() -> Vec<ParsedItem> {
    vec![
        make_item(GrammarRule::FunctionDef, "pkg.utils", "foo", "def foo(x)"),
        make_item(GrammarRule::Docstring, "pkg.utils", "", "\"\"\"doc\"\"\""),
        make_item(GrammarRule::Import, "pkg.utils", "", "import os"),
        make_item(GrammarRule::ClassDef, "pkg.utils", "Widget", "class Widget:"),
    ]
}

#[test]
fn generator_creates_sections() {
    let items = sample_items();

    let sections = generate_sections(&items, &vec!["50%".to_string()]);
    assert!(sections.overview.contains("**1** module"));
    assert!(sections.overview.contains("**1** class"));
    assert!(sections.api_table.contains("Module `pkg.utils`"));
    assert!(sections.api_table.contains("| Class |"));
    assert!(sections.docstring_coverage.contains("pkg.utils"));
}

#[test]
fn overview_reads_exactly() {
    let modules = aggregate_modules(&sample_items());
    assert_eq!(
        render_overview(&modules),
        "## Overview\nDetected **1** module(s), **1** function(s), **1** class(es), and **1** docstring(s). The code references **1** imports.\n\n"
    );
}

#[test]
fn api_tables_read_exactly() {
    let modules = aggregate_modules(&sample_items());
    assert_eq!(
        render_api_tables(&modules),
        "## API Reference\n\n### Module `pkg.utils`\n| Function | Signature | Location |\n| --- | --- | --- |\n| `foo` | `def foo(x)` | `pkg.utils.py:1` |\n\n| Class | Signature | Location |\n| --- | --- | --- |\n| `Widget` | `class Widget:` | `pkg.utils.py:1` |\n"
    );
}

#[test]
fn api_tables_of_module_without_symbols() {
    let items = vec![make_item(GrammarRule::Import, "pkg", "", "import os")];
    let modules = aggregate_modules(&items);
    assert_eq!(
        render_api_tables(&modules),
        "## API Reference\n\n### Module `pkg`\n_No functions or classes detected in this module._\n"
    );
}

#[test]
fn sections_of_nothing() {
    let modules = aggregate_modules(&[]);
    assert_eq!(
        render_api_tables(&modules),
        "## API Reference\n_No modules discovered._\n"
    );
    assert_eq!(
        render_docstring_coverage(&modules, &Vec::new()),
        "## Docstring Coverage\n_No modules discovered._\n"
    );
    assert_eq!(
        render_overview(&modules),
        "## Overview\nDetected **0** module(s), **0** function(s), **0** class(es), and **0** docstring(s). The code references **0** imports.\n\n"
    );
}

#[test]
fn coverage_table_reads_exactly() {
    let mut items = sample_items();
    items.push(make_item(GrammarRule::Import, "pkg.zero", "", "import sys"));
    let modules = aggregate_modules(&items);
    assert_eq!(
        render_docstring_coverage(&modules, &vec!["50%".to_string()]),
        "## Docstring Coverage\n\n| Module | Functions | Classes | Docstrings | Coverage |\n| --- | ---:| ---:| ---:| ---:|\n| `pkg.utils` | 1 | 1 | 1 | 50% |\n| `pkg.zero` | 0 | 0 | 0 | N/A |\n"
    );
}

#[test]
fn coverage_counts_cap_docstrings_at_symbols() {
    let modules = aggregate_modules(&sample_items());
    let report = modules.get("pkg.utils").unwrap();
    assert_eq!(coverage_counts(report), Some((1, 2)));

    let mut many = sample_items();
    many.push(make_item(GrammarRule::Docstring, "pkg.utils", "", "\"\"\"a\"\"\""));
    many.push(make_item(GrammarRule::Docstring, "pkg.utils", "", "\"\"\"b\"\"\""));
    let modules = aggregate_modules(&many);
    assert_eq!(coverage_counts(modules.get("pkg.utils").unwrap()), Some((2, 2)));

    let none = aggregate_modules(&[make_item(GrammarRule::Import, "m", "", "import os")]);
    assert_eq!(coverage_counts(none.get("m").unwrap()), None);
}

#[test]
fn decimal_text_of_numbers() {
    assert_eq!(decimal_text(0), "0");
    assert_eq!(decimal_text(7), "7");
    assert_eq!(decimal_text(10), "10");
    assert_eq!(decimal_text(1234567890), "1234567890");
    assert_eq!(decimal_text(usize::MAX), usize::MAX.to_string());
}

#[test]
fn entry_location_with_and_without_source() {
    let mut entry = SymbolEntry {
        name: "f".to_string(),
        signature: "def f():".to_string(),
        line: 42,
        source: Some("pkg/core.py".to_string()),
    };
    assert_eq!(entry_location(&entry), "pkg/core.py:42");
    entry.source = None;
    assert_eq!(entry_location(&entry), "line 42");
}
